//! `.morrow` packages: platform directories, native artifacts, manifests,
//! dependency checks and the registry of loaded mods.
use vstd::prelude::*;
use crate::names::NameMap;
use crate::text::{
    decimal, owned, push_decimal, push_str, str_eq, starts_with, ends_with, has_prefix, has_suffix, trim_end,
    trim_end_char,
};

verus! {

// ---------------------------------------------------------------------------
// Platform
// ---------------------------------------------------------------------------

/// The platform a native artifact is selected for.
pub struct Platform {
    pub os: String,
    pub arch: String,
}

/// The architecture part of a platform directory: `amd64` is spelled
/// `x86_64`; every other name is kept.
pub open spec fn arch_dir(arch: Seq<char>) -> Seq<char> {
    if arch == "amd64"@ {
        "x86_64"@
    } else {
        arch
    }
}

impl Platform {
    /// The directory inside a package that holds this platform's
    /// artifact, `<os>-<arch>` (e.g. `linux-x86_64`).
    pub fn dir_name(&self) -> (d: String)
        ensures
            d@ == self.os@ + "-"@ + arch_dir(self.arch@),
    {
        let mut d = owned(self.os.as_str());
        push_str(&mut d, "-");
        if str_eq(self.arch.as_str(), "amd64") {
            push_str(&mut d, "x86_64");
        } else {
            push_str(&mut d, self.arch.as_str());
        }
        d
    }
}

/// `name` is a native library file (`.so`, `.dll` or `.dylib`).
pub open spec fn native_lib_name(name: Seq<char>) -> bool {
    has_suffix(name, ".so"@) || has_suffix(name, ".dll"@) || has_suffix(name, ".dylib"@)
}

/// Whether `name` is a native library file.
pub fn is_native_lib(name: &str) -> (b: bool)
    ensures
        b == native_lib_name(name@),
{
    ends_with(name, ".so") || ends_with(name, ".dll") || ends_with(name, ".dylib")
}

/// The error text when a package has no artifact for `platform_dir`.
pub open spec fn no_artifact_message(platform_dir: Seq<char>) -> Seq<char> {
    "no native artifact found for platform '"@ + trim_end(platform_dir, '/') + "'"@
}

/// Pick the first entry of a package, in archive order, that lies under
/// `platform_dir` and is a native library.
pub fn find_native_artifact(entries: &[String], platform_dir: &str) -> (r: Result<usize, String>)
    ensures
        r matches Ok(i) ==> i < entries@.len() && has_prefix(entries@[i as int]@, platform_dir@)
            && native_lib_name(entries@[i as int]@) && forall|j: int|
            0 <= j < i ==> !(has_prefix(#[trigger] entries@[j]@, platform_dir@)
                && native_lib_name(entries@[j]@)),
        r matches Err(msg) ==> msg@ == no_artifact_message(platform_dir@) && forall|j: int|
            0 <= j < entries@.len() ==> !(has_prefix(#[trigger] entries@[j]@, platform_dir@)
                && native_lib_name(entries@[j]@)),
{
    let mut i: usize = 0;
    while i < entries.len()
        invariant
            i <= entries@.len(),
            forall|j: int|
                0 <= j < i ==> !(has_prefix(#[trigger] entries@[j]@, platform_dir@)
                    && native_lib_name(entries@[j]@)),
        decreases entries.len() - i,
    {
        let name = entries[i].as_str();
        if starts_with(name, platform_dir) && is_native_lib(name) {
            return Ok(i);
        }
        i = i + 1;
    }
    let mut msg = owned("no native artifact found for platform '");
    let trimmed = trim_end_char(platform_dir, '/');
    push_str(&mut msg, trimmed.as_str());
    push_str(&mut msg, "'");
    Err(msg)
}

// ---------------------------------------------------------------------------
// Manifest
// ---------------------------------------------------------------------------

/// `[package]` of a manifest.
pub struct PackageMeta {
    pub name: String,
    pub version: String,
}

/// `[morrow]` of a manifest.
pub struct MorrowMeta {
    pub api_version: u32,
}

/// `[entry]` of a manifest: the exported entry symbol.
pub struct EntryMeta {
    pub symbol: String,
}

/// A package's `manifest.toml`.
pub struct Manifest {
    pub package: PackageMeta,
    pub morrow: MorrowMeta,
    pub entry: EntryMeta,
    /// Other mods this one needs, name to version requirement.
    pub dependencies: NameMap<String>,
}

/// The error text for a dependency that is not loaded.
pub open spec fn missing_dependency_message(name: Seq<char>, version: Seq<char>) -> Seq<char> {
    "dependency '"@ + name + " "@ + version + "' not found \u{2014} load it first"@
}

// ---------------------------------------------------------------------------
// Loaded mods
// ---------------------------------------------------------------------------

/// The loaded mods, by name. `M` is what keeps a loaded mod alive (its
/// library and extracted files).
pub struct ModRegistry<M> {
    mods: NameMap<M>,
}

impl<M> ModRegistry<M> {
    /// The loaded mods.
    pub closed spec fn view(&self) -> Map<Seq<char>, M> {
        self.mods.view()
    }

    /// No mod loaded.
    pub fn new() -> (r: Self)
        ensures
            r@ == Map::<Seq<char>, M>::empty(),
    {
        ModRegistry { mods: NameMap::new() }
    }

    /// Record a loaded mod (replacing one of the same name).
    pub fn insert(&mut self, name: String, loaded: M)
        ensures
            final(self)@ == old(self)@.insert(name@, loaded),
    {
        self.mods.insert(name, loaded);
    }

    /// The loaded mod called `name`.
    pub fn get(&self, name: &str) -> (r: Option<&M>)
        ensures
            r is None <==> !self@.contains_key(name@),
            r matches Some(m) ==> *m == self@[name@],
    {
        self.mods.get(name)
    }

    /// Whether a mod called `name` is loaded.
    pub fn has(&self, name: &str) -> (b: bool)
        ensures
            b == self@.contains_key(name@),
    {
        self.mods.contains_key(name)
    }

    /// The number of loaded mods.
    pub fn len(&self) -> (n: usize)
        ensures
            self@.dom().finite(),
            n == self@.len(),
    {
        self.mods.len()
    }

    /// Unload every mod.
    pub fn clear(&mut self)
        ensures
            final(self)@ == Map::<Seq<char>, M>::empty(),
    {
        self.mods.clear();
    }
}

/// Check that every dependency of `manifest` is already loaded. The error
/// names the first missing dependency in manifest order.
pub fn check_dependencies<M>(manifest: &Manifest, registry: &ModRegistry<M>) -> (r: Result<(), String>)
    ensures
        r is Ok <==> forall|k: Seq<char>| #[trigger]
            manifest.dependencies@.contains_key(k) ==> registry@.contains_key(k),
        r matches Err(msg) ==> exists|i: int|
            0 <= i < manifest.dependencies.keys().len() && !registry@.contains_key(
                #[trigger] manifest.dependencies.keys()[i],
            ) && msg@ == missing_dependency_message(
                manifest.dependencies.keys()[i],
                manifest.dependencies.values()[i]@,
            ) && forall|j: int|
                0 <= j < i ==> registry@.contains_key(#[trigger] manifest.dependencies.keys()[j]),
{
    let deps = &manifest.dependencies;
    let n = deps.len();
    let mut i: usize = 0;
    while i < n
        invariant
            n == deps.keys().len(),
            deps == &manifest.dependencies,
            i <= n,
            forall|j: int| 0 <= j < i ==> registry@.contains_key(#[trigger] deps.keys()[j]),
        decreases n - i,
    {
        let name = deps.key_at(i);
        if !registry.has(name.as_str()) {
            let version = deps.value_at(i);
            let mut msg = owned("dependency '");
            push_str(&mut msg, name.as_str());
            push_str(&mut msg, " ");
            push_str(&mut msg, version.as_str());
            push_str(&mut msg, "' not found \u{2014} load it first");
            proof {
                deps.lemma_view_keys();
                assert(deps.keys().contains(deps.keys()[i as int]));
                assert(deps@.contains_key(deps.keys()[i as int]));
                assert(!registry@.contains_key(deps.keys()[i as int]));
                assert(msg@ =~= missing_dependency_message(
                    deps.keys()[i as int],
                    deps.values()[i as int]@,
                ));
            }
            return Err(msg);
        }
        i = i + 1;
    }
    proof {
        deps.lemma_view_keys();
    }
    Ok(())
}

/// The error text for a mod whose entry point answered `status`.
pub open spec fn entry_failure_message(name: Seq<char>, status: u32) -> Seq<char> {
    "mod '"@ + name + "' entry point returned error code "@ + decimal(status as nat)
}

/// What a mod's entry point answer means: 0 is success, anything else a
/// failed load, reported with the mod's name and the code.
pub fn check_entry_status(mod_name: &str, status: u32) -> (r: Result<(), String>)
    ensures
        r is Ok <==> status == 0,
        r matches Err(m) ==> m@ == entry_failure_message(mod_name@, status),
{
    if status == 0 {
        Ok(())
    } else {
        let mut m = owned("mod '");
        push_str(&mut m, mod_name);
        push_str(&mut m, "' entry point returned error code ");
        push_decimal(&mut m, status as u128);
        Err(m)
    }
}

} // verus!

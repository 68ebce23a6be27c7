//! What the `morrow` command-line tool computes: mod-name checks, the
//! files of a new mod project, and where a package stores its library.
use vstd::prelude::*;
use crate::mod_loader::{arch_dir, native_lib_name};
use crate::sdk::{lemma_event_kinds_and_symbols, ArgSpec};
use crate::signature::{
    entry_rule, handler_rule, lemma_handler_accepted_iff_documented, param_fits, EntryError, FnShape,
    HandlerError, ParamShape, ReturnShape, TypeShape,
};
use crate::text::{chars_of, has_prefix, has_suffix, owned, push_str, str_eq, string_from_chars};

verus! {

/// A character allowed in a mod name: ASCII letter, digit or `-`.
pub open spec fn name_char(c: char) -> bool {
    ('a' <= c && c <= 'z') || ('A' <= c && c <= 'Z') || ('0' <= c && c <= '9') || c == '-'
}

/// Whether every character of `name` is allowed in a mod name.
pub fn valid_mod_name(name: &str) -> (ok: bool)
    ensures
        ok == forall|i: int| 0 <= i < name@.len() ==> name_char(#[trigger] name@[i]),
{
    let cs = chars_of(name);
    let mut i: usize = 0;
    while i < cs.len()
        invariant
            cs@ == name@,
            i <= cs.len(),
            forall|j: int| 0 <= j < i ==> name_char(#[trigger] cs@[j]),
        decreases cs.len() - i,
    {
        let c = cs[i];
        if !(('a' <= c && c <= 'z') || ('A' <= c && c <= 'Z') || ('0' <= c && c <= '9') || c
            == '-') {
            return false;
        }
        i = i + 1;
    }
    true
}

/// The library name cargo derives from a package name: `-` becomes `_`.
pub open spec fn cargo_lib_name_of(s: Seq<char>) -> Seq<char> {
    s.map_values(|c: char| if c == '-' { '_' } else { c })
}

/// The library name cargo derives from package name `name`.
pub fn cargo_lib_name(name: &str) -> (out: String)
    ensures
        out@ == cargo_lib_name_of(name@),
{
    let cs = chars_of(name);
    let mut out_chars: Vec<char> = Vec::new();
    let mut i: usize = 0;
    while i < cs.len()
        invariant
            cs@ == name@,
            i <= cs.len(),
            out_chars@ == cargo_lib_name_of(cs@.take(i as int)),
        decreases cs.len() - i,
    {
        let c = cs[i];
        out_chars.push(if c == '-' { '_' } else { c });
        assert(cargo_lib_name_of(cs@.take(i + 1)) =~= cargo_lib_name_of(cs@.take(i as int)).push(
            if c == '-' { '_' } else { c },
        ));
        i = i + 1;
    }
    assert(cs@.take(cs.len() as int) =~= cs@);
    string_from_chars(out_chars.as_slice())
}

/// The platform directory and library file name of a build for `os` and
/// `arch`, or the reason the platform is not supported.
pub open spec fn platform_lib_spec(cargo_name: Seq<char>, os: Seq<char>, arch: Seq<char>) -> Result<
    (Seq<char>, Seq<char>),
    Seq<char>,
> {
    if arch != "x86_64"@ && arch != "aarch64"@ {
        Err("unsupported arch "@ + arch)
    } else if os == "linux"@ {
        Ok(("linux-"@ + arch, "lib"@ + cargo_name + ".so"@))
    } else if os == "macos"@ {
        Ok(("macos-"@ + arch, "lib"@ + cargo_name + ".dylib"@))
    } else if os == "windows"@ {
        Ok(("windows-"@ + arch, cargo_name + ".dll"@))
    } else {
        Err("unsupported OS "@ + os)
    }
}

/// The platform directory inside a package and the library file name for
/// a build on `os`/`arch`.
pub fn platform_lib(cargo_name: &str, os: &str, arch: &str) -> (r: Result<(String, String), String>)
    ensures
        match (r, platform_lib_spec(cargo_name@, os@, arch@)) {
            (Ok((d, l)), Ok((sd, sl))) => d@ == sd && l@ == sl,
            (Err(m), Err(sm)) => m@ == sm,
            _ => false,
        },
{
    if !str_eq(arch, "x86_64") && !str_eq(arch, "aarch64") {
        let mut m = owned("unsupported arch ");
        push_str(&mut m, arch);
        return Err(m);
    }
    if str_eq(os, "linux") {
        let mut d = owned("linux-");
        push_str(&mut d, arch);
        let mut l = owned("lib");
        push_str(&mut l, cargo_name);
        push_str(&mut l, ".so");
        Ok((d, l))
    } else if str_eq(os, "macos") {
        let mut d = owned("macos-");
        push_str(&mut d, arch);
        let mut l = owned("lib");
        push_str(&mut l, cargo_name);
        push_str(&mut l, ".dylib");
        Ok((d, l))
    } else if str_eq(os, "windows") {
        let mut d = owned("windows-");
        push_str(&mut d, arch);
        let mut l = owned(cargo_name);
        push_str(&mut l, ".dll");
        Ok((d, l))
    } else {
        let mut m = owned("unsupported OS ");
        push_str(&mut m, os);
        Err(m)
    }
}

/// The archive path of the library inside a package: `<platform>/<lib>`.
pub fn artifact_entry_name(platform: &str, lib_name: &str) -> (e: String)
    ensures
        e@ == platform@ + "/"@ + lib_name@,
{
    let mut e = owned(platform);
    push_str(&mut e, "/");
    push_str(&mut e, lib_name);
    e
}

/// The `Cargo.toml` of a new mod project.
pub open spec fn cargo_toml_text(name: Seq<char>) -> Seq<char> {
    "[package]\nname = \""@ + name
        + "\"\nversion = \"0.1.0\"\nedition = \"2021\"\n\n[lib]\ncrate-type = [\"cdylib\"]\n\n[dependencies]\nmorrow = \"1\"\n"@
}

/// The `src/lib.rs` of a new mod project.
pub open spec fn lib_rs_text(name: Seq<char>) -> Seq<char> {
    "use morrow::prelude::*;\n\n#[morrow::mod_main]\nfn init(_ctx: &mut Context, _api: *const RuntimeApi) -> Result<(), MorrowError> {\n    morrow::info!(\""@
        + name
        + " loaded!\");\n    Ok(())\n}\n\n#[morrow::event(tick)]\nfn on_tick(tick: u64) {\n    if tick % 200 == 0 {\n        morrow::info!(\""@
        + name + " tick {}\", tick);\n    }\n}\n"@
}

/// The `manifest.toml` of a new mod project.
pub open spec fn manifest_toml_text(name: Seq<char>) -> Seq<char> {
    "[package]\nname = \""@ + name
        + "\"\nversion = \"0.1.0\"\ndescription = \"A Morrow mod\"\n\n[morrow]\napi_version = 1\n\n[entry]\nsymbol = \"morrow_mod_init\"\n"@
}

/// The `Cargo.toml` of a new mod project called `name`.
pub fn cargo_toml(name: &str) -> (t: String)
    ensures
        t@ == cargo_toml_text(name@),
{
    let mut t = owned("[package]\nname = \"");
    push_str(&mut t, name);
    push_str(
        &mut t,
        "\"\nversion = \"0.1.0\"\nedition = \"2021\"\n\n[lib]\ncrate-type = [\"cdylib\"]\n\n[dependencies]\nmorrow = \"1\"\n",
    );
    t
}

/// The `src/lib.rs` of a new mod project called `name`.
pub fn lib_rs(name: &str) -> (t: String)
    ensures
        t@ == lib_rs_text(name@),
{
    let mut t = owned(
        "use morrow::prelude::*;\n\n#[morrow::mod_main]\nfn init(_ctx: &mut Context, _api: *const RuntimeApi) -> Result<(), MorrowError> {\n    morrow::info!(\"",
    );
    push_str(&mut t, name);
    push_str(
        &mut t,
        " loaded!\");\n    Ok(())\n}\n\n#[morrow::event(tick)]\nfn on_tick(tick: u64) {\n    if tick % 200 == 0 {\n        morrow::info!(\"",
    );
    push_str(&mut t, name);
    push_str(&mut t, " tick {}\", tick);\n    }\n}\n");
    t
}

/// The `manifest.toml` of a new mod project called `name`.
pub fn manifest_toml(name: &str) -> (t: String)
    ensures
        t@ == manifest_toml_text(name@),
{
    let mut t = owned("[package]\nname = \"");
    push_str(&mut t, name);
    push_str(
        &mut t,
        "\"\nversion = \"0.1.0\"\ndescription = \"A Morrow mod\"\n\n[morrow]\napi_version = 1\n\n[entry]\nsymbol = \"morrow_mod_init\"\n",
    );
    t
}

proof fn lemma_suffix_of_concat(a: Seq<char>, b: Seq<char>)
    ensures
        has_suffix(a + b, b),
        has_prefix(a + b, a),
{
    assert((a + b).subrange((a + b).len() - b.len(), (a + b).len() as int) =~= b);
    assert((a + b).subrange(0, a.len() as int) =~= a);
}

/// What the packager writes, the loader finds: on a supported platform
/// the library entry `<dir>/<lib>` lies under the directory the loader
/// computes for that platform and is a native library file.
pub proof fn lemma_packaged_library_is_found(cargo_name: Seq<char>, os: Seq<char>, arch: Seq<char>)
    requires
        platform_lib_spec(cargo_name, os, arch) is Ok,
    ensures
        platform_lib_spec(cargo_name, os, arch) matches Ok((dir, lib)) ==> {
            &&& dir == os + "-"@ + arch_dir(arch)
            &&& has_prefix(dir + "/"@ + lib, dir + "/"@)
            &&& native_lib_name(dir + "/"@ + lib)
        },
{
    reveal_strlit("linux-");
    reveal_strlit("macos-");
    reveal_strlit("windows-");
    reveal_strlit("linux");
    reveal_strlit("macos");
    reveal_strlit("windows");
    reveal_strlit("-");
    reveal_strlit("amd64");
    reveal_strlit("x86_64");
    reveal_strlit("aarch64");
    let (dir, lib) = platform_lib_spec(cargo_name, os, arch)->Ok_0;
    assert(arch_dir(arch) == arch);
    if os == "linux"@ {
        assert("linux-"@ =~= "linux"@ + "-"@);
    } else if os == "macos"@ {
        assert("macos-"@ =~= "macos"@ + "-"@);
    } else {
        assert("windows-"@ =~= "windows"@ + "-"@);
    }
    assert(dir + "/"@ + lib =~= (dir + "/"@) + lib);
    lemma_suffix_of_concat(dir + "/"@, lib);
    if os == "linux"@ {
        assert(dir + "/"@ + lib =~= (dir + "/"@ + "lib"@ + cargo_name) + ".so"@);
        lemma_suffix_of_concat(dir + "/"@ + "lib"@ + cargo_name, ".so"@);
    } else if os == "macos"@ {
        assert(dir + "/"@ + lib =~= (dir + "/"@ + "lib"@ + cargo_name) + ".dylib"@);
        lemma_suffix_of_concat(dir + "/"@ + "lib"@ + cargo_name, ".dylib"@);
    } else {
        assert(dir + "/"@ + lib =~= (dir + "/"@ + cargo_name) + ".dll"@);
        lemma_suffix_of_concat(dir + "/"@ + cargo_name, ".dll"@);
    }
}

/// The supported platforms are exactly Linux, macOS and Windows on
/// `x86_64` and `aarch64`. On each, the package directory is
/// `<os>-<arch>` and the library is `lib<name>.so`, `lib<name>.dylib` or
/// `<name>.dll`; anywhere else the architecture is refused first, then
/// the operating system.
pub proof fn lemma_supported_platforms(name: Seq<char>, os: Seq<char>, arch: Seq<char>)
    ensures
        platform_lib_spec(name, os, arch) is Ok <==> ((os == "linux"@ || os == "macos"@ || os
            == "windows"@) && (arch == "x86_64"@ || arch == "aarch64"@)),
        platform_lib_spec(name, os, arch) matches Ok((dir, lib)) ==> {
            &&& dir == os + "-"@ + arch
            &&& os == "linux"@ ==> lib == "lib"@ + name + ".so"@
            &&& os == "macos"@ ==> lib == "lib"@ + name + ".dylib"@
            &&& os == "windows"@ ==> lib == name + ".dll"@
        },
        platform_lib_spec(name, os, arch) matches Err(m) ==> {
            &&& arch != "x86_64"@ && arch != "aarch64"@ ==> m == "unsupported arch "@ + arch
            &&& (arch == "x86_64"@ || arch == "aarch64"@) ==> m == "unsupported OS "@ + os
        },
{
    reveal_strlit("linux");
    reveal_strlit("macos");
    reveal_strlit("windows");
    reveal_strlit("linux-");
    reveal_strlit("macos-");
    reveal_strlit("windows-");
    reveal_strlit("-");
    reveal_strlit("x86_64");
    reveal_strlit("aarch64");
    assert("linux"@[0] != "macos"@[0]);
    assert("linux-"@ =~= "linux"@ + "-"@);
    assert("macos-"@ =~= "macos"@ + "-"@);
    assert("windows-"@ =~= "windows"@ + "-"@);
    if os == "linux"@ {
        assert(("linux-"@ + arch) =~= os + "-"@ + arch);
    } else if os == "macos"@ {
        assert(("macos-"@ + arch) =~= os + "-"@ + arch);
    } else if os == "windows"@ {
        assert(("windows-"@ + arch) =~= os + "-"@ + arch);
    }
}

/// The first line of a new project's entry point: the two-parameter form
/// that the entry-point rule accepts.
pub open spec fn scaffold_init_header() -> Seq<char> {
    "#[morrow::mod_main]\nfn init(_ctx: &mut Context, _api: *const RuntimeApi) -> Result<(), MorrowError> {"@
}

/// The first line of a new project's tick handler.
pub open spec fn scaffold_tick_header() -> Seq<char> {
    "#[morrow::event(tick)]\nfn on_tick(tick: u64) {"@
}

/// A new project builds against the SDK's macros: its `src/lib.rs` holds
/// the entry point `fn init(_ctx: &mut Context, _api: *const RuntimeApi)
/// -> Result<(), MorrowError>` and the handler `#[morrow::event(tick)]
/// fn on_tick(tick: u64)`; a header of that entry point's shape is
/// accepted as the two-parameter entry point, and a header of that
/// handler's shape (one parameter of path type `u64`, no return type)
/// is accepted for `tick` and exported as `morrow_mod_tick`.
pub proof fn lemma_new_project_is_accepted(name: Seq<char>)
    ensures
        exists|x: Seq<char>, y: Seq<char>| lib_rs_text(name) == x + scaffold_init_header() + y,
        exists|x: Seq<char>, y: Seq<char>| lib_rs_text(name) == x + scaffold_tick_header() + y,
        forall|sig: FnShape|
            {
                &&& !sig.generic
                &&& sig.inputs@.len() == 1
                &&& sig.inputs@[0] matches ParamShape::Typed(TypeShape::Path(segs))
                &&& segs@.len() == 1
                &&& segs@[0]@ == "u64"@
                &&& sig.output is Default
            } ==> #[trigger] handler_rule("tick"@, sig) == Ok::<
                (Seq<char>, Seq<ArgSpec>),
                HandlerError,
            >(("morrow_mod_tick"@, seq![ArgSpec::U64])),
        forall|sig: FnShape|
            {
                &&& !sig.generic
                &&& sig.inputs@.len() == 2
                &&& sig.inputs@[0] matches ParamShape::Typed(TypeShape::Reference(c))
                &&& *c matches TypeShape::Path(cs)
                &&& cs@.len() == 1
                &&& cs@[0]@ == "Context"@
                &&& sig.inputs@[1] matches ParamShape::Typed(TypeShape::Pointer(a))
                &&& *a matches TypeShape::Path(as_)
                &&& as_@.len() == 1
                &&& as_@[0]@ == "RuntimeApi"@
                &&& sig.output matches ReturnShape::Type(TypeShape::Path(rs))
                &&& rs@.len() == 1
                &&& rs@[0]@ == "Result"@
            } ==> #[trigger] entry_rule(sig) == Ok::<bool, EntryError>(true),
{
    let head = "use morrow::prelude::*;\n\n#[morrow::mod_main]\nfn init(_ctx: &mut Context, _api: *const RuntimeApi) -> Result<(), MorrowError> {\n    morrow::info!(\""@;
    let mid = " loaded!\");\n    Ok(())\n}\n\n#[morrow::event(tick)]\nfn on_tick(tick: u64) {\n    if tick % 200 == 0 {\n        morrow::info!(\""@;
    let tail = " tick {}\", tick);\n    }\n}\n"@;
    let p1 = "use morrow::prelude::*;\n\n"@;
    let p2 = "\n    morrow::info!(\""@;
    let m1 = " loaded!\");\n    Ok(())\n}\n\n"@;
    let m2 = "\n    if tick % 200 == 0 {\n        morrow::info!(\""@;
    reveal_strlit("use morrow::prelude::*;\n\n#[morrow::mod_main]\nfn init(_ctx: &mut Context, _api: *const RuntimeApi) -> Result<(), MorrowError> {\n    morrow::info!(\"");
    reveal_strlit(" loaded!\");\n    Ok(())\n}\n\n#[morrow::event(tick)]\nfn on_tick(tick: u64) {\n    if tick % 200 == 0 {\n        morrow::info!(\"");
    reveal_strlit("use morrow::prelude::*;\n\n");
    reveal_strlit("\n    morrow::info!(\"");
    reveal_strlit(" loaded!\");\n    Ok(())\n}\n\n");
    reveal_strlit("\n    if tick % 200 == 0 {\n        morrow::info!(\"");
    reveal_strlit("#[morrow::mod_main]\nfn init(_ctx: &mut Context, _api: *const RuntimeApi) -> Result<(), MorrowError> {");
    reveal_strlit("#[morrow::event(tick)]\nfn on_tick(tick: u64) {");
    assert(head =~= p1 + scaffold_init_header() + p2);
    assert(mid =~= m1 + scaffold_tick_header() + m2);
    let text = lib_rs_text(name);
    assert(text =~= p1 + scaffold_init_header() + (p2 + name + mid + name + tail));
    assert(text =~= (head + name + m1) + scaffold_tick_header() + (m2 + name + tail));
    assert forall|sig: FnShape|
        {
            &&& !sig.generic
            &&& sig.inputs@.len() == 1
            &&& sig.inputs@[0] matches ParamShape::Typed(TypeShape::Path(segs))
            &&& segs@.len() == 1
            &&& segs@[0]@ == "u64"@
            &&& sig.output is Default
        } implies #[trigger] handler_rule("tick"@, sig) == Ok::<
            (Seq<char>, Seq<ArgSpec>),
            HandlerError,
        >(("morrow_mod_tick"@, seq![ArgSpec::U64])) by {
        lemma_event_kinds_and_symbols("tick"@);
        lemma_handler_accepted_iff_documented("tick"@, sig);
        reveal_strlit("morrow_mod_");
        reveal_strlit("morrow_mod_tick");
        reveal_strlit("tick");
        assert("morrow_mod_tick"@ =~= "morrow_mod_"@ + "tick"@);
        assert(param_fits(sig.inputs@[0], ArgSpec::U64));
    }
}

} // verus!

use morrow::mod_loader::check_entry_status;
use morrow::mod_loader::{
    check_dependencies, find_native_artifact, is_native_lib, EntryMeta, Manifest, ModRegistry,
    MorrowMeta, PackageMeta, Platform,
};
use morrow::names::NameMap;

fn manifest(deps: &[(&str, &str)]) -> Manifest {
    let mut dependencies = NameMap::new();
    for (n, v) in deps {
        dependencies.insert(n.to_string(), v.to_string());
    }
    Manifest {
        package: PackageMeta { name: "m".to_string(), version: "0.1.0".to_string() },
        morrow: MorrowMeta { api_version: 1 },
        entry: EntryMeta { symbol: "morrow_mod_init".to_string() },
        dependencies,
    }
}

#[test]
fn dir_names() {
    let p = Platform { os: "linux".to_string(), arch: "x86_64".to_string() };
    assert_eq!(p.dir_name(), "linux-x86_64");
    let p = Platform { os: "windows".to_string(), arch: "amd64".to_string() };
    assert_eq!(p.dir_name(), "windows-x86_64");
    let p = Platform { os: "macos".to_string(), arch: "aarch64".to_string() };
    assert_eq!(p.dir_name(), "macos-aarch64");
    let p = Platform { os: "freebsd".to_string(), arch: "riscv64".to_string() };
    assert_eq!(p.dir_name(), "freebsd-riscv64");
}

#[test]
fn native_library_names() {
    assert!(is_native_lib("linux-x86_64/libm.so"));
    assert!(is_native_lib("m.dll"));
    assert!(is_native_lib("libm.dylib"));
    assert!(!is_native_lib("manifest.toml"));
    assert!(!is_native_lib("so"));
}

#[test]
fn artifact_selection() {
    let entries = vec![
        "manifest.toml".to_string(),
        "windows-x86_64/m.dll".to_string(),
        "linux-x86_64/readme.txt".to_string(),
        "linux-x86_64/libm.so".to_string(),
        "linux-x86_64/libn.so".to_string(),
    ];
    assert_eq!(find_native_artifact(&entries, "linux-x86_64/"), Ok(3));
    assert_eq!(
        find_native_artifact(&entries, "macos-aarch64/"),
        Err("no native artifact found for platform 'macos-aarch64'".to_string())
    );
}

#[test]
fn dependencies_must_be_loaded() {
    let mut registry: ModRegistry<()> = ModRegistry::new();
    let m = manifest(&[("core", ">=1.0"), ("extra", "2")]);
    assert_eq!(
        check_dependencies(&m, &registry),
        Err("dependency 'core >=1.0' not found \u{2014} load it first".to_string())
    );
    registry.insert("core".to_string(), ());
    assert_eq!(
        check_dependencies(&m, &registry),
        Err("dependency 'extra 2' not found \u{2014} load it first".to_string())
    );
    registry.insert("extra".to_string(), ());
    assert_eq!(check_dependencies(&m, &registry), Ok(()));
    assert_eq!(check_dependencies(&manifest(&[]), &ModRegistry::<()>::new()), Ok(()));
}

#[test]
fn mod_registry() {
    let mut r: ModRegistry<u8> = ModRegistry::new();
    assert!(!r.has("a"));
    r.insert("a".to_string(), 1);
    r.insert("b".to_string(), 2);
    r.insert("a".to_string(), 3);
    assert_eq!(r.len(), 2);
    assert_eq!(r.get("a"), Some(&3));
    r.clear();
    assert_eq!(r.len(), 0);
}

#[test]
fn entry_status_codes() {
    assert_eq!(check_entry_status("motd", 0), Ok(()));
    assert_eq!(
        check_entry_status("motd", 1),
        Err("mod 'motd' entry point returned error code 1".to_string())
    );
    assert_eq!(
        check_entry_status("chat-bot", 4294967295),
        Err("mod 'chat-bot' entry point returned error code 4294967295".to_string())
    );
}

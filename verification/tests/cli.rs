use morrow::cli::{
    artifact_entry_name, cargo_lib_name, cargo_toml, lib_rs, manifest_toml, platform_lib,
    valid_mod_name,
};

#[test]
fn mod_names() {
    assert!(valid_mod_name("my-mod2"));
    assert!(!valid_mod_name("my mod"));
    assert!(!valid_mod_name("mod_x"));
    assert!(!valid_mod_name("né"));
}

#[test]
fn cargo_names() {
    assert_eq!(cargo_lib_name("my-cool-mod"), "my_cool_mod");
    assert_eq!(cargo_lib_name("plain"), "plain");
}

#[test]
fn platform_libraries() {
    assert_eq!(
        platform_lib("m", "linux", "x86_64"),
        Ok(("linux-x86_64".to_string(), "libm.so".to_string()))
    );
    assert_eq!(
        platform_lib("m", "macos", "aarch64"),
        Ok(("macos-aarch64".to_string(), "libm.dylib".to_string()))
    );
    assert_eq!(
        platform_lib("m", "windows", "x86_64"),
        Ok(("windows-x86_64".to_string(), "m.dll".to_string()))
    );
    assert_eq!(platform_lib("m", "linux", "riscv64"), Err("unsupported arch riscv64".to_string()));
    assert_eq!(platform_lib("m", "haiku", "x86_64"), Err("unsupported OS haiku".to_string()));
    assert_eq!(artifact_entry_name("linux-x86_64", "libm.so"), "linux-x86_64/libm.so");
}

#[test]
fn project_templates() {
    assert_eq!(
        cargo_toml("demo"),
        "[package]\nname = \"demo\"\nversion = \"0.1.0\"\nedition = \"2021\"\n\n[lib]\ncrate-type = [\"cdylib\"]\n\n[dependencies]\nmorrow = \"1\"\n"
    );
    assert_eq!(
        manifest_toml("demo"),
        "[package]\nname = \"demo\"\nversion = \"0.1.0\"\ndescription = \"A Morrow mod\"\n\n[morrow]\napi_version = 1\n\n[entry]\nsymbol = \"morrow_mod_init\"\n"
    );
    let lib = lib_rs("demo");
    assert!(lib.contains("morrow::info!(\"demo loaded!\");"));
    assert!(lib.contains("morrow::info!(\"demo tick {}\", tick);"));
    assert!(!lib.contains("{name}"));
}

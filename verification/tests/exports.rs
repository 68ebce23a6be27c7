use morrow::abi::{is_abi_compatible, ABI_VERSION};
use morrow::exports::{capability_version, fit_to_buffer, level_prefix, with_runtime};
use morrow::handles::{HandleCounter, HandleTable};
use morrow::text::{str_or, trim_end_char, starts_with, ends_with, str_eq};

#[test]
fn abi_compatibility_by_major() {
    assert!(is_abi_compatible(0x0001_0000, ABI_VERSION));
    assert!(is_abi_compatible(0x0001_0007, ABI_VERSION));
    assert!(!is_abi_compatible(0x0002_0000, ABI_VERSION));
    assert!(!is_abi_compatible(0, ABI_VERSION));
}

#[test]
fn capabilities() {
    for cap in [
        "event_bus", "commands", "host_api", "config", "lifecycle", "player_events",
        "block_events", "panic_isolation",
    ] {
        assert_eq!(capability_version(cap), 1);
    }
    assert_eq!(capability_version("scheduler"), 0);
    assert_eq!(capability_version(""), 0);
}

#[test]
fn level_prefixes() {
    assert_eq!(level_prefix(3), "ERROR");
    assert_eq!(level_prefix(2), "WARN");
    assert_eq!(level_prefix(1), "INFO");
    assert_eq!(level_prefix(0), "INFO");
    assert_eq!(level_prefix(9), "INFO");
}

#[test]
fn buffer_fitting() {
    assert_eq!(fit_to_buffer(b"hello", 3), b"hel");
    assert_eq!(fit_to_buffer(b"hi", 10), b"hi");
    assert_eq!(fit_to_buffer(b"hi", 0), b"");
}

#[test]
fn handle_zero_addresses_any_runtime() {
    let mut t = HandleTable::new();
    let mut ids = HandleCounter::new();
    assert_eq!(with_runtime(&t, 0, |v: &u8| *v), None);
    let h = t.insert(&mut ids, 9u8);
    assert_eq!(with_runtime(&t, 0, |v| *v), Some(9));
    assert_eq!(with_runtime(&t, h.as_u64(), |v| *v), Some(9));
    assert_eq!(with_runtime(&t, h.as_u64() + 1, |v| *v), None);
}

#[test]
fn text_helpers() {
    assert_eq!(str_or(None, "x"), "");
    assert_eq!(str_or(Some(b"hello"), "x"), "hello");
    assert_eq!(str_or(Some(b"\xff\xfe"), "<invalid utf-8>"), "<invalid utf-8>");
    assert_eq!(trim_end_char("linux-x86_64//", '/'), "linux-x86_64");
    assert!(starts_with("linux-x86_64/libm.so", "linux-x86_64/"));
    assert!(!starts_with("lin", "linux"));
    assert!(ends_with("a.dylib", ".dylib"));
    assert!(str_eq("amd64", "amd64"));
    assert!(!str_eq("amd64", "amd"));
}

use morrow::abi::{RESULT_ERR_INVALID_HANDLE, RESULT_ERR_UNKNOWN, RESULT_OK};
use morrow::exports::{load_request, registration_status};

#[test]
fn load_request_codes_in_order() {
    assert_eq!(load_request(None, 0), Err((RESULT_ERR_UNKNOWN, "null path pointer")));
    assert_eq!(load_request(Some(b"\xff"), 0), Err((RESULT_ERR_UNKNOWN, "invalid UTF-8 in path")));
    assert_eq!(
        load_request(Some(b"mods/a.morrow"), 0),
        Err((RESULT_ERR_INVALID_HANDLE, "invalid runtime handle"))
    );
    assert_eq!(load_request(Some(b"mods/a.morrow"), 7), Ok("mods/a.morrow"));
}

#[test]
fn registration_status_codes() {
    assert_eq!(registration_status(&Some(Ok(()))), RESULT_OK);
    assert_eq!(registration_status(&Some(Err("taken".to_string()))), RESULT_ERR_UNKNOWN);
    assert_eq!(registration_status(&None), RESULT_ERR_UNKNOWN);
}

#[test]
fn handle_table_length_follows_inserts_and_removes() {
    let mut table: HandleTable<u32> = HandleTable::new();
    let mut ids = HandleCounter::new();
    let a = table.insert(&mut ids, 1);
    let b = table.insert(&mut ids, 2);
    assert_eq!(table.len(), 2);
    assert!(table.remove(a).is_some());
    assert_eq!(table.len(), 1);
    assert!(table.remove(a).is_none());
    assert_eq!(table.len(), 1);
    assert_eq!(table.get(b).map(|v| *v), Some(2));
}

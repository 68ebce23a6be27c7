//! Decisions behind the runtime's exported entry points: which runtime a
//! call addresses, capability negotiation, log-level prefixes and how much
//! of a message fits the caller's buffer.
use vstd::prelude::*;
use crate::abi::{RESULT_ERR_INVALID_HANDLE, RESULT_ERR_UNKNOWN, RESULT_OK};
use crate::handles::{Handle, HandleTable};
use crate::text::{str_eq, str_from_utf8};
use vstd::utf8::{decode_utf8, valid_utf8};

verus! {

/// Run `f` on the runtime a call addresses: handle 0 means any live
/// runtime (mods never know their own handle); any other value must name
/// a live runtime. `None` when no runtime matches.
pub fn with_runtime<T, F, R>(table: &HandleTable<T>, runtime_handle: u64, f: F) -> (r: Option<R>)
    where
        F: FnOnce(&T) -> R,
    requires
        forall|t: &T| f.requires((t,)),
    ensures
        runtime_handle == 0 ==> (r is None <==> table.view().dom().is_empty()),
        runtime_handle == 0 ==> (r matches Some(x) ==> exists|k: u64| #[trigger]
            table.view().contains_key(k) && f.ensures((&table.view()[k],), x)),
        runtime_handle != 0 ==> (r is None <==> !table.view().contains_key(runtime_handle)),
        runtime_handle != 0 ==> (r matches Some(x) ==> f.ensures(
            (&table.view()[runtime_handle],),
            x,
        )),
{
    if runtime_handle == 0 {
        table.with_first(f)
    } else {
        match Handle::from_u64(runtime_handle) {
            Some(h) => table.with(h, f),
            None => None,
        }
    }
}

/// The built-in capabilities; each is offered at version 1.
pub open spec fn known_capability(cap: Seq<char>) -> bool {
    cap == "event_bus"@ || cap == "commands"@ || cap == "host_api"@ || cap == "config"@ || cap
        == "lifecycle"@ || cap == "player_events"@ || cap == "block_events"@ || cap
        == "panic_isolation"@
}

/// The version of capability `cap` the runtime offers: 1 for a built-in
/// capability, 0 when it is unavailable.
pub fn capability_version(cap: &str) -> (v: u32)
    ensures
        v == (if known_capability(cap@) {
            1u32
        } else {
            0u32
        }),
{
    if str_eq(cap, "event_bus") || str_eq(cap, "commands") || str_eq(cap, "host_api") || str_eq(
        cap,
        "config",
    ) || str_eq(cap, "lifecycle") || str_eq(cap, "player_events") || str_eq(cap, "block_events")
        || str_eq(cap, "panic_isolation") {
        1
    } else {
        0
    }
}

/// The prefix the runtime prints before a mod's log line: `ERROR` for
/// level 3, `WARN` for 2, `INFO` for anything else.
pub fn level_prefix(level: u32) -> (p: &'static str)
    ensures
        level == 3 ==> p@ == "ERROR"@,
        level == 2 ==> p@ == "WARN"@,
        level != 2 && level != 3 ==> p@ == "INFO"@,
{
    match level {
        3 => "ERROR",
        2 => "WARN",
        _ => "INFO",
    }
}

/// The bytes of `data` that fit in a buffer of `cap` bytes: its first
/// `min(len, cap)` bytes.
pub fn fit_to_buffer(data: &[u8], cap: u32) -> (out: &[u8])
    ensures
        out@.len() == if data@.len() < cap {
            data@.len() as int
        } else {
            cap as int
        },
        out@ == data@.take(out@.len() as int),
{
    let n = if data.len() < cap as usize {
        data.len()
    } else {
        cap as usize
    };
    let out = &data[0..n];
    assert(out@ =~= data@.take(n as int));
    out
}

/// What a load request's arguments come to, checked in this order: a
/// missing path and a path that is not UTF-8 are unknown errors, runtime
/// handle 0 names no runtime; otherwise the path's text. An error carries
/// the result code and what to report.
pub fn load_request<'a>(path: Option<&'a [u8]>, runtime_handle: u64) -> (r: Result<
    &'a str,
    (u32, &'static str),
>)
    ensures
        path is None ==> (r matches Err((c, m)) && c == RESULT_ERR_UNKNOWN && m@
            == "null path pointer"@),
        path matches Some(b) ==> (!valid_utf8(b@) ==> (r matches Err((c, m)) && c
            == RESULT_ERR_UNKNOWN && m@ == "invalid UTF-8 in path"@)),
        path matches Some(b) ==> (valid_utf8(b@) && runtime_handle == 0 ==> (r matches Err((c, m))
            && c == RESULT_ERR_INVALID_HANDLE && m@ == "invalid runtime handle"@)),
        path matches Some(b) ==> (valid_utf8(b@) && runtime_handle != 0 ==> (r matches Ok(s)
            && s@ == decode_utf8(b@))),
{
    let bytes = match path {
        Some(b) => b,
        None => return Err((RESULT_ERR_UNKNOWN, "null path pointer")),
    };
    let text = match str_from_utf8(bytes) {
        Some(t) => t,
        None => return Err((RESULT_ERR_UNKNOWN, "invalid UTF-8 in path")),
    };
    if runtime_handle == 0 {
        return Err((RESULT_ERR_INVALID_HANDLE, "invalid runtime handle"));
    }
    Ok(text)
}

/// The answer to a command registration: 0 when a runtime took the
/// name, 1 when the name was already taken or no runtime was found.
pub fn registration_status(outcome: &Option<Result<(), String>>) -> (code: u32)
    ensures
        code == (if outcome matches Some(Ok(_)) {
            RESULT_OK
        } else {
            RESULT_ERR_UNKNOWN
        }),
{
    match outcome {
        Some(Ok(())) => RESULT_OK,
        _ => RESULT_ERR_UNKNOWN,
    }
}

} // verus!

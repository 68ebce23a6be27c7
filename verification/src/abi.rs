//! Version and result-code contract with the Java host.
use vstd::prelude::*;

verus! {

/// Version of the ABI this runtime implements: major in the high 16 bits,
/// minor in the low 16 bits.
pub const ABI_VERSION: u32 = 0x0001_0000;

/// Two ABI versions are compatible exactly when their major parts agree.
pub open spec fn same_major(requested: u32, actual: u32) -> bool {
    requested / 0x1_0000 == actual / 0x1_0000
}

/// Check whether the `requested` ABI version is compatible with `actual`.
pub fn is_abi_compatible(requested: u32, actual: u32) -> (ok: bool)
    ensures
        ok == same_major(requested, actual),
{
    assert(requested >> 16u32 == requested / 0x1_0000) by (bit_vector);
    assert(actual >> 16u32 == actual / 0x1_0000) by (bit_vector);
    requested >> 16 == actual >> 16
}

/// Compatibility is an equivalence: every version is compatible with
/// itself, in both directions, and transitively; a version of the
/// runtime's major is compatible with the runtime's version whatever its
/// minor.
pub proof fn lemma_compatibility_is_equivalence(a: u32, b: u32, c: u32)
    ensures
        same_major(a, a),
        same_major(a, b) == same_major(b, a),
        same_major(a, b) && same_major(b, c) ==> same_major(a, c),
        a / 0x1_0000 == 1 ==> same_major(a, ABI_VERSION),
{
}

/// Operation succeeded.
pub const RESULT_OK: u32 = 0;
/// Unknown / internal error.
pub const RESULT_ERR_UNKNOWN: u32 = 1;
/// The given handle is invalid (0, or not found in the registry).
pub const RESULT_ERR_INVALID_HANDLE: u32 = 3;
/// Illegal state transition (e.g. double shutdown).
pub const RESULT_ERR_WRONG_STATE: u32 = 4;
/// A Rust panic was caught at the FFI boundary.
pub const RESULT_ERR_PANIC: u32 = 0xFF;

} // verus!

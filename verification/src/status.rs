//! The status codes that host functions answer a guest with.
use vstd::prelude::*;

verus! {

/// The code for a call that was carried out.
pub open spec fn ok() -> i32 {
    0
}

/// The code for a call that is not supported.
pub open spec fn unsupported() -> i32 {
    5
}

/// Reads `fastly_shared::FastlyStatus::OK`. Believed: its code is 0.
#[verifier::external_body]
pub(crate) fn ok_code() -> (code: i32)
    ensures
        code == ok(),
{
    fastly_shared::FastlyStatus::OK.code
}

/// Reads `fastly_shared::FastlyStatus::UNSUPPORTED`. Believed: its code is 5.
#[verifier::external_body]
pub(crate) fn unsupported_code() -> (code: i32)
    ensures
        code == unsupported(),
{
    fastly_shared::FastlyStatus::UNSUPPORTED.code
}

} // verus!

use vstd::prelude::*;

verus! {

/// Calls `rand::random::<u8>()`, which draws a byte from the thread-local
/// generator that the operating system seeds. Nothing is claimed about which
/// byte comes back: any `u8` may.
#[verifier::external_body]
pub(crate) fn random_byte() -> (byte: u8) {
    rand::random::<u8>()
}

}

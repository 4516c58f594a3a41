//! Names for new storage files.

use rand::distr::{Alphanumeric, SampleString};
use vstd::prelude::*;

verus! {

/// An ASCII letter or digit.
pub open spec fn is_alphanumeric(c: char) -> bool {
    ('0' <= c && c <= '9') || ('a' <= c && c <= 'z') || ('A' <= c && c <= 'Z')
}

/// `len` ASCII letters and digits.
pub open spec fn is_random_name(name: Seq<char>, len: nat) -> bool {
    &&& name.len() == len
    &&& forall|i: int| 0 <= i < name.len() ==> is_alphanumeric(#[trigger] name[i])
}

/// Calls `SampleString::sample_string` on `rand`'s `Alphanumeric` with the
/// thread's generator. Which name comes out is left open: it has `len`
/// characters, each an ASCII letter or digit.
#[verifier::external_body]
pub fn generate_random_alphanumeric_string(len: usize) -> (name: String)
    ensures
        is_random_name(name@, len as nat),
{
    Alphanumeric.sample_string(&mut rand::rng(), len)
}

} // verus!

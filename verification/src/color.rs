//! Deterministic colour index for a display name: a stable hash of the name
//! reduced modulo 16, used to tag an author's relayed messages consistently.

use vstd::prelude::*;
use vstd::std_specs::hash::DefaultHasherAdditionalSpecFns;
use std::collections::hash_map::DefaultHasher;
use std::hash::Hasher;

verus! {

/// The stable hash of a name: what `DefaultHasher` yields after a single
/// write of the name's UTF-8 bytes.
pub open spec fn spec_name_hash(name: Seq<char>) -> u64 {
    DefaultHasher::spec_finish(seq![vstd::utf8::encode_utf8(name)])
}

/// The colour index assigned to a name: its stable hash modulo 16.
pub open spec fn spec_color_index(name: Seq<char>) -> u64 {
    spec_name_hash(name) % 16
}

/// Computes the colour index of a display name; always in [0, 16).
pub fn color_index(name: &str) -> (r: u64)
    ensures
        r == spec_color_index(name@),
        r < 16,
{
    let mut h = DefaultHasher::new();
    h.write(name.as_bytes());
    let x = h.finish();
    proof {
        assert(h@ =~= seq![vstd::utf8::encode_utf8(name@)]);
    }
    x % 16
}

/// The colour index is a pure function of the name: two equal names receive
/// the same index, in any call and in either relay direction.
pub proof fn lemma_color_index_deterministic(a: Seq<char>, b: Seq<char>)
    requires
        a == b,
    ensures
        spec_color_index(a) == spec_color_index(b),
{
}

} // verus!

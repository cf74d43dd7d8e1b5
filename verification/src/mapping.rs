//! The two directional channel tables: an exact-key lookup from a numeric
//! channel id to a channel name, and the reverse from a channel name to a
//! numeric id. The tables are configured independently and need not be mutual
//! inverses; both are built once at startup and only read afterwards.

use vstd::prelude::*;
use crate::text::str_eq;

verus! {

/// The two directional lookup tables, each a list of key/target pairs.
pub struct ChannelMapping {
    pub a_to_b: Vec<(u64, String)>,
    pub b_to_a: Vec<(String, u64)>,
}

/// First-match lookup of a numeric channel id in the A-to-B table.
pub open spec fn spec_lookup_a_to_b(m: Seq<(u64, String)>, key: u64) -> Option<Seq<char>>
    decreases m.len(),
{
    if m.len() == 0 {
        None
    } else if m[0].0 == key {
        Some(m[0].1@)
    } else {
        spec_lookup_a_to_b(m.drop_first(), key)
    }
}

/// First-match lookup of a channel name in the B-to-A table.
pub open spec fn spec_lookup_b_to_a(m: Seq<(String, u64)>, key: Seq<char>) -> Option<u64>
    decreases m.len(),
{
    if m.len() == 0 {
        None
    } else if m[0].0@ == key {
        Some(m[0].1)
    } else {
        spec_lookup_b_to_a(m.drop_first(), key)
    }
}

/// The view of an optional channel-name result.
pub open spec fn opt_name_view(r: Option<String>) -> Option<Seq<char>> {
    match r {
        Some(s) => Some(s@),
        None => None,
    }
}

/// A table keyed by numeric channel ids has no repeated key.
pub open spec fn a_keys_unique(m: Seq<(u64, String)>) -> bool {
    forall|i: int, j: int| 0 <= i < j < m.len() ==> m[i].0 != m[j].0
}

/// A table keyed by channel names has no repeated key.
pub open spec fn b_keys_unique(m: Seq<(String, u64)>) -> bool {
    forall|i: int, j: int| 0 <= i < j < m.len() ==> m[i].0@ != m[j].0@
}

impl ChannelMapping {
    /// Both tables are key-unique.
    pub open spec fn wf(&self) -> bool {
        a_keys_unique(self.a_to_b@) && b_keys_unique(self.b_to_a@)
    }

    /// Builds a mapping from the two configured tables, after checking that
    /// each is key-unique; yields nothing when a key repeats.
    pub fn new(a_to_b: Vec<(u64, String)>, b_to_a: Vec<(String, u64)>) -> (r: Option<
        ChannelMapping,
    >)
        ensures
            match r {
                Some(m) => m.wf() && m.a_to_b@ == a_to_b@ && m.b_to_a@ == b_to_a@,
                None => !(a_keys_unique(a_to_b@) && b_keys_unique(b_to_a@)),
            },
    {
        let n = a_to_b.len();
        let mut i: usize = 0;
        while i < n
            invariant
                i <= n,
                n == a_to_b@.len(),
                forall|p: int, q: int|
                    0 <= p < q < n && p < i ==> a_to_b@[p].0 != a_to_b@[q].0,
            decreases n - i,
        {
            let mut j = i + 1;
            while j < n
                invariant
                    i < j <= n,
                    n == a_to_b@.len(),
                    forall|q: int| i < q < j ==> a_to_b@[i as int].0 != a_to_b@[q].0,
                decreases n - j,
            {
                if a_to_b[i].0 == a_to_b[j].0 {
                    proof {
                        assert(!a_keys_unique(a_to_b@));
                    }
                    return None;
                }
                j = j + 1;
            }
            i = i + 1;
        }
        let n = b_to_a.len();
        let mut i: usize = 0;
        while i < n
            invariant
                i <= n,
                n == b_to_a@.len(),
                forall|p: int, q: int|
                    0 <= p < q < n && p < i ==> b_to_a@[p].0@ != b_to_a@[q].0@,
            decreases n - i,
        {
            let mut j = i + 1;
            while j < n
                invariant
                    i < j <= n,
                    n == b_to_a@.len(),
                    forall|q: int| i < q < j ==> b_to_a@[i as int].0@ != b_to_a@[q].0@,
                decreases n - j,
            {
                if str_eq(b_to_a[i].0.as_str(), b_to_a[j].0.as_str()) {
                    proof {
                        assert(!b_keys_unique(b_to_a@));
                    }
                    return None;
                }
                j = j + 1;
            }
            i = i + 1;
        }
        Some(ChannelMapping { a_to_b, b_to_a })
    }

    /// Looks up the B-side target for an A-side source channel.
    pub fn lookup_a_to_b(&self, key: u64) -> (r: Option<String>)
        ensures
            opt_name_view(r) == spec_lookup_a_to_b(self.a_to_b@, key),
    {
        let n = self.a_to_b.len();
        let mut i: usize = 0;
        proof {
            assert(self.a_to_b@.skip(0) =~= self.a_to_b@);
        }
        while i < n
            invariant
                i <= n,
                n == self.a_to_b@.len(),
                spec_lookup_a_to_b(self.a_to_b@, key) == spec_lookup_a_to_b(
                    self.a_to_b@.skip(i as int),
                    key,
                ),
            decreases n - i,
        {
            let ghost rest = self.a_to_b@.skip(i as int);
            proof {
                assert(rest[0] == self.a_to_b@[i as int]);
                assert(rest.drop_first() =~= self.a_to_b@.skip(i as int + 1));
            }
            if self.a_to_b[i].0 == key {
                return Some(self.a_to_b[i].1.clone());
            }
            i = i + 1;
        }
        proof {
            assert(self.a_to_b@.skip(n as int) =~= Seq::<(u64, String)>::empty());
        }
        None
    }

    /// Looks up the A-side target id for a B-side source channel name.
    pub fn lookup_b_to_a(&self, key: &str) -> (r: Option<u64>)
        ensures
            r == spec_lookup_b_to_a(self.b_to_a@, key@),
    {
        let n = self.b_to_a.len();
        let mut i: usize = 0;
        proof {
            assert(self.b_to_a@.skip(0) =~= self.b_to_a@);
        }
        while i < n
            invariant
                i <= n,
                n == self.b_to_a@.len(),
                spec_lookup_b_to_a(self.b_to_a@, key@) == spec_lookup_b_to_a(
                    self.b_to_a@.skip(i as int),
                    key@,
                ),
            decreases n - i,
        {
            let ghost rest = self.b_to_a@.skip(i as int);
            proof {
                assert(rest[0] == self.b_to_a@[i as int]);
                assert(rest.drop_first() =~= self.b_to_a@.skip(i as int + 1));
            }
            if str_eq(self.b_to_a[i].0.as_str(), key) {
                return Some(self.b_to_a[i].1);
            }
            i = i + 1;
        }
        proof {
            assert(self.b_to_a@.skip(n as int) =~= Seq::<(String, u64)>::empty());
        }
        None
    }
}

/// A source channel id absent from the A-to-B table finds no target: the
/// lookup yields nothing exactly when no entry carries the key.
pub proof fn lemma_lookup_a_to_b_none(m: Seq<(u64, String)>, key: u64)
    ensures
        (spec_lookup_a_to_b(m, key) is None) <==> (forall|j: int|
            0 <= j < m.len() ==> m[j].0 != key),
    decreases m.len(),
{
    if m.len() > 0 && m[0].0 != key {
        lemma_lookup_a_to_b_none(m.drop_first(), key);
        if spec_lookup_a_to_b(m, key) is None {
            assert forall|j: int| 0 <= j < m.len() implies m[j].0 != key by {
                if j > 0 {
                    assert(m.drop_first()[j - 1] == m[j]);
                }
            }
        } else {
            let j = choose|j: int|
                0 <= j < m.drop_first().len() && m.drop_first()[j].0 == key;
            assert(m[j + 1].0 == key);
        }
    }
}

/// A source channel name absent from the B-to-A table finds no target.
pub proof fn lemma_lookup_b_to_a_none(m: Seq<(String, u64)>, key: Seq<char>)
    ensures
        (spec_lookup_b_to_a(m, key) is None) <==> (forall|j: int|
            0 <= j < m.len() ==> m[j].0@ != key),
    decreases m.len(),
{
    if m.len() > 0 && m[0].0@ != key {
        lemma_lookup_b_to_a_none(m.drop_first(), key);
        if spec_lookup_b_to_a(m, key) is None {
            assert forall|j: int| 0 <= j < m.len() implies m[j].0@ != key by {
                if j > 0 {
                    assert(m.drop_first()[j - 1] == m[j]);
                }
            }
        } else {
            let j = choose|j: int|
                0 <= j < m.drop_first().len() && m.drop_first()[j].0@ == key;
            assert(m[j + 1].0@ == key);
        }
    }
}

} // verus!

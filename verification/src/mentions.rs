//! Rewriting of structured user-mention tokens into plain "@name" text: each
//! mentioned user's token (`<@` + decimal id + `>`) is replaced, everywhere it
//! occurs, by `@` followed by the user's display name, one mention entry at a
//! time in list order.

use vstd::prelude::*;
use crate::text::{spec_decimal, str_to_chars, push_decimal, append_chars};

verus! {

/// A user referenced by a message, as supplied by the source event.
pub struct MentionEntry {
    pub id: u64,
    pub name: String,
}

/// Every occurrence of `from` in `t`, scanning left to right, replaced by
/// `to`; characters outside a match are kept.
pub open spec fn spec_replace(t: Seq<char>, from: Seq<char>, to: Seq<char>) -> Seq<char>
    decreases t.len(),
{
    if t.len() == 0 {
        Seq::empty()
    } else if from.len() > 0 && from.len() <= t.len() && t.subrange(0, from.len() as int)
        == from {
        to + spec_replace(t.subrange(from.len() as int, t.len() as int), from, to)
    } else {
        seq![t[0]] + spec_replace(t.subrange(1, t.len() as int), from, to)
    }
}

/// The structured mention token for a user id.
pub open spec fn spec_mention_token(id: u64) -> Seq<char> {
    seq!['<', '@'] + spec_decimal(id as nat) + seq!['>']
}

/// The readable replacement for a mention: `@` followed by the display name.
pub open spec fn spec_mention_text(name: Seq<char>) -> Seq<char> {
    seq!['@'] + name
}

/// The text after resolving each mention entry in list order.
pub open spec fn spec_resolve_mentions(t: Seq<char>, ms: Seq<MentionEntry>) -> Seq<char>
    decreases ms.len(),
{
    if ms.len() == 0 {
        t
    } else {
        spec_resolve_mentions(
            spec_replace(t, spec_mention_token(ms[0].id), spec_mention_text(ms[0].name@)),
            ms.drop_first(),
        )
    }
}

/// Whether `from` occurs in `t` starting at position `i`.
fn matches_at(t: &Vec<char>, i: usize, from: &Vec<char>) -> (b: bool)
    requires
        i <= t@.len(),
    ensures
        b == (i + from@.len() <= t@.len() && t@.subrange(i as int, i as int + from@.len())
            == from@),
{
    let m = from.len();
    if t.len() - i < m {
        return false;
    }
    let mut j: usize = 0;
    while j < m
        invariant
            j <= m,
            m == from@.len(),
            i + m <= t@.len(),
            t@.len() <= usize::MAX,
            forall|k: int| 0 <= k < j ==> t@[i + k] == from@[k],
        decreases m - j,
    {
        if t[i + j] != from[j] {
            proof {
                assert(t@.subrange(i as int, i as int + m)[j as int] == t@[i + j]);
            }
            return false;
        }
        j = j + 1;
    }
    proof {
        assert(t@.subrange(i as int, i as int + m) =~= from@);
    }
    true
}

/// Replaces every occurrence of `from` in `t` by `to`, scanning left to
/// right.
pub fn replace_all(t: &Vec<char>, from: &Vec<char>, to: &Vec<char>) -> (r: Vec<char>)
    requires
        from@.len() >= 1,
    ensures
        r@ == spec_replace(t@, from@, to@),
{
    let n = t.len();
    let mut r: Vec<char> = Vec::new();
    let mut i: usize = 0;
    proof {
        assert(t@.subrange(0, n as int) =~= t@);
        assert(Seq::<char>::empty() + spec_replace(t@, from@, to@) =~= spec_replace(
            t@,
            from@,
            to@,
        ));
    }
    while i < n
        invariant
            i <= n,
            n == t@.len(),
            from@.len() >= 1,
            spec_replace(t@, from@, to@) == r@ + spec_replace(
                t@.subrange(i as int, n as int),
                from@,
                to@,
            ),
        decreases n - i,
    {
        let ghost cur = t@.subrange(i as int, n as int);
        let m = from.len();
        if matches_at(t, i, from) {
            let ghost r0 = r@;
            append_chars(&mut r, to);
            proof {
                assert(cur.subrange(0, m as int) =~= t@.subrange(i as int, i as int + m));
                assert(cur.subrange(m as int, cur.len() as int) =~= t@.subrange(
                    i as int + m,
                    n as int,
                ));
                let rest = spec_replace(t@.subrange(i as int + m, n as int), from@, to@);
                assert(spec_replace(cur, from@, to@) == to@ + rest);
                assert((r0 + to@) + rest =~= r0 + (to@ + rest));
            }
            i = i + m;
        } else {
            let ghost r0 = r@;
            proof {
                assert(cur[0] == t@[i as int]);
            }
            let c = t[i];
            r.push(c);
            proof {
                assert(cur.subrange(1, cur.len() as int) =~= t@.subrange(
                    i as int + 1,
                    n as int,
                ));
                if i + from@.len() <= n {
                    assert(cur.subrange(0, from@.len() as int) =~= t@.subrange(
                        i as int,
                        i as int + from@.len(),
                    ));
                }
                let rest = spec_replace(t@.subrange(i as int + 1, n as int), from@, to@);
                assert(r@ =~= r0 + seq![c]);
                assert((r0 + seq![c]) + rest =~= r0 + (seq![c] + rest));
            }
            i = i + 1;
        }
    }
    proof {
        assert(t@.subrange(n as int, n as int) =~= Seq::<char>::empty());
        assert(r@ + Seq::<char>::empty() =~= r@);
    }
    r
}

/// Builds the structured mention token for a user id.
pub fn mention_token(id: u64) -> (v: Vec<char>)
    ensures
        v@ == spec_mention_token(id),
{
    let mut v: Vec<char> = Vec::new();
    v.push('<');
    v.push('@');
    proof {
        assert(v@ =~= seq!['<', '@']);
    }
    push_decimal(&mut v, id);
    v.push('>');
    proof {
        assert(v@ =~= spec_mention_token(id));
    }
    v
}

/// Resolves each mention entry in list order over the text.
pub fn resolve_mentions(text: &Vec<char>, mentions: &Vec<MentionEntry>) -> (r: Vec<char>)
    ensures
        r@ == spec_resolve_mentions(text@, mentions@),
{
    let mut cur = vstd::slice::slice_to_vec(text.as_slice());
    let mut i: usize = 0;
    proof {
        assert(mentions@.skip(0) =~= mentions@);
    }
    while i < mentions.len()
        invariant
            i <= mentions@.len(),
            spec_resolve_mentions(text@, mentions@) == spec_resolve_mentions(
                cur@,
                mentions@.skip(i as int),
            ),
        decreases mentions@.len() - i,
    {
        let ghost ms = mentions@.skip(i as int);
        proof {
            assert(ms[0] == mentions@[i as int]);
        }
        let token = mention_token(mentions[i].id);
        let mut repl: Vec<char> = Vec::new();
        repl.push('@');
        let name_chars = str_to_chars(mentions[i].name.as_str());
        append_chars(&mut repl, &name_chars);
        proof {
            assert(repl@ =~= spec_mention_text(mentions@[i as int].name@));
        }
        cur = replace_all(&cur, &token, &repl);
        proof {
            assert(ms.drop_first() =~= mentions@.skip(i as int + 1));
        }
        i = i + 1;
    }
    proof {
        assert(mentions@.skip(mentions@.len() as int) =~= Seq::<MentionEntry>::empty());
    }
    cur
}

} // verus!

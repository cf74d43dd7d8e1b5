//! Removal of inline style control sequences from relayed text: the bold,
//! underline, reset and reverse control bytes, and the colour introducer
//! optionally followed by one or two decimal digits and an optional comma
//! with one or two more digits.

use vstd::prelude::*;

verus! {

/// The single-byte style controls that are deleted wherever they occur.
pub open spec fn is_style_ctrl(c: char) -> bool {
    c == '\u{2}' || c == '\u{1f}' || c == '\u{f}' || c == '\u{16}'
}

/// An ASCII decimal digit.
pub open spec fn is_dec_digit(c: char) -> bool {
    ('0' as u32) <= (c as u32) && (c as u32) <= ('9' as u32)
}

/// How many characters of colour-code payload follow a colour introducer,
/// given the text that comes after the introducer: one or two digits,
/// optionally followed by a comma and one or two more digits; zero when no
/// digit follows at all.
pub open spec fn spec_color_code_len(s: Seq<char>) -> int {
    if s.len() >= 1 && is_dec_digit(s[0]) {
        let d: int = if s.len() >= 2 && is_dec_digit(s[1]) {
            2
        } else {
            1
        };
        if s.len() >= d + 2 && s[d] == ',' && is_dec_digit(s[d + 1]) {
            if s.len() >= d + 3 && is_dec_digit(s[d + 2]) {
                d + 3
            } else {
                d + 2
            }
        } else {
            d
        }
    } else {
        0
    }
}

/// The text with every style control sequence deleted.
pub open spec fn spec_strip(s: Seq<char>) -> Seq<char>
    decreases s.len(),
{
    if s.len() == 0 {
        Seq::empty()
    } else if is_style_ctrl(s[0]) {
        spec_strip(s.subrange(1, s.len() as int))
    } else if s[0] == '\u{3}' {
        let k = 1 + spec_color_code_len(s.subrange(1, s.len() as int));
        spec_strip(s.subrange(k, s.len() as int))
    } else {
        seq![s[0]] + spec_strip(s.subrange(1, s.len() as int))
    }
}

/// Text that holds no style control byte and no colour introducer.
pub open spec fn is_plain(s: Seq<char>) -> bool {
    forall|i: int| 0 <= i < s.len() ==> !is_style_ctrl(s[i]) && s[i] != '\u{3}'
}

/// Stripping leaves no control sequence behind.
pub proof fn lemma_strip_plain(s: Seq<char>)
    ensures
        is_plain(spec_strip(s)),
    decreases s.len(),
{
    if s.len() == 0 {
    } else if is_style_ctrl(s[0]) {
        lemma_strip_plain(s.subrange(1, s.len() as int));
    } else if s[0] == '\u{3}' {
        let k = 1 + spec_color_code_len(s.subrange(1, s.len() as int));
        lemma_strip_plain(s.subrange(k, s.len() as int));
    } else {
        lemma_strip_plain(s.subrange(1, s.len() as int));
        let rest = spec_strip(s.subrange(1, s.len() as int));
        assert forall|i: int| 0 <= i < spec_strip(s).len() implies !is_style_ctrl(
            spec_strip(s)[i],
        ) && spec_strip(s)[i] != '\u{3}' by {
            if i > 0 {
                assert(spec_strip(s)[i] == rest[i - 1]);
            }
        }
    }
}

/// Stripping is the identity on text with no control sequences.
pub proof fn lemma_strip_plain_identity(s: Seq<char>)
    requires
        is_plain(s),
    ensures
        spec_strip(s) == s,
    decreases s.len(),
{
    if s.len() == 0 {
        assert(spec_strip(s) =~= s);
    } else {
        assert(!is_style_ctrl(s[0]) && s[0] != '\u{3}');
        let t = s.subrange(1, s.len() as int);
        assert(is_plain(t));
        lemma_strip_plain_identity(t);
        assert(spec_strip(s) =~= s);
    }
}

/// Stripping is idempotent: a second pass changes nothing.
pub proof fn lemma_strip_idempotent(s: Seq<char>)
    ensures
        spec_strip(spec_strip(s)) == spec_strip(s),
{
    lemma_strip_plain(s);
    lemma_strip_plain_identity(spec_strip(s));
}

fn is_dec_digit_exec(c: char) -> (r: bool)
    ensures
        r == is_dec_digit(c),
{
    (c as u32) >= 48 && (c as u32) <= 57
}

/// The number of colour-code payload characters starting at `start`.
fn color_code_len(s: &Vec<char>, start: usize) -> (d: usize)
    requires
        start <= s@.len(),
    ensures
        d == spec_color_code_len(s@.subrange(start as int, s@.len() as int)),
        start + d <= s@.len(),
        d <= 5,
{
    let ghost t = s@.subrange(start as int, s@.len() as int);
    let n = s.len();
    if start < n && is_dec_digit_exec(s[start]) {
        let base: usize = if n - start >= 2 && is_dec_digit_exec(s[start + 1]) {
            2
        } else {
            1
        };
        proof {
            assert(t[0] == s@[start as int]);
            if n - start >= 2 {
                assert(t[1] == s@[start as int + 1]);
            }
        }
        if n - start >= base + 2 && s[start + base] == ',' && is_dec_digit_exec(
            s[start + base + 1],
        ) {
            proof {
                assert(t[base as int] == s@[start as int + base]);
                assert(t[base as int + 1] == s@[start as int + base + 1]);
            }
            if n - start >= base + 3 && is_dec_digit_exec(s[start + base + 2]) {
                proof {
                    assert(t[base as int + 2] == s@[start as int + base + 2]);
                }
                base + 3
            } else {
                proof {
                    if n - start >= base + 3 {
                        assert(t[base as int + 2] == s@[start as int + base + 2]);
                    }
                }
                base + 2
            }
        } else {
            proof {
                if n - start >= base + 2 {
                    assert(t[base as int] == s@[start as int + base]);
                    assert(t[base as int + 1] == s@[start as int + base + 1]);
                }
            }
            base
        }
    } else {
        0
    }
}

/// Removes every style control sequence from the text.
pub fn strip_formatting_chars(s: &Vec<char>) -> (r: Vec<char>)
    ensures
        r@ == spec_strip(s@),
{
    let n = s.len();
    let mut r: Vec<char> = Vec::new();
    let mut i: usize = 0;
    proof {
        assert(s@.subrange(0, n as int) =~= s@);
        assert(Seq::<char>::empty() + spec_strip(s@) =~= spec_strip(s@));
    }
    while i < n
        invariant
            i <= n,
            n == s@.len(),
            spec_strip(s@) == r@ + spec_strip(s@.subrange(i as int, n as int)),
        decreases n - i,
    {
        let ghost cur = s@.subrange(i as int, n as int);
        proof {
            assert(cur[0] == s@[i as int]);
        }
        let c = s[i];
        if c == '\u{2}' || c == '\u{1f}' || c == '\u{f}' || c == '\u{16}' {
            proof {
                assert(cur.subrange(1, cur.len() as int) =~= s@.subrange(
                    i as int + 1,
                    n as int,
                ));
            }
            i = i + 1;
        } else if c == '\u{3}' {
            let d = color_code_len(s, i + 1);
            proof {
                assert(cur.subrange(1, cur.len() as int) =~= s@.subrange(
                    i as int + 1,
                    n as int,
                ));
                let k = 1 + spec_color_code_len(cur.subrange(1, cur.len() as int));
                assert(k == 1 + d);
                assert(cur.subrange(k, cur.len() as int) =~= s@.subrange(
                    i as int + 1 + d,
                    n as int,
                ));
            }
            i = i + 1 + d;
        } else {
            let ghost r0 = r@;
            r.push(c);
            proof {
                assert(cur.subrange(1, cur.len() as int) =~= s@.subrange(
                    i as int + 1,
                    n as int,
                ));
                let rest = spec_strip(s@.subrange(i as int + 1, n as int));
                assert(r@ =~= r0 + seq![c]);
                assert((r0 + seq![c]) + rest =~= r0 + (seq![c] + rest));
            }
            i = i + 1;
        }
    }
    proof {
        assert(s@.subrange(n as int, n as int) =~= Seq::<char>::empty());
        assert(r@ + Seq::<char>::empty() =~= r@);
    }
    r
}

} // verus!

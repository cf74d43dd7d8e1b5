//! Splitting of multi-line message text: lines are separated by a newline or
//! by a carriage return followed by a newline, and a final separator yields no
//! trailing empty line.

use vstd::prelude::*;

verus! {

/// The lines of a text: split at `\n` or `\r\n`, a lone trailing separator
/// produces no empty final line, and a carriage return not followed by a
/// newline stays in its line.
pub open spec fn spec_lines(s: Seq<char>) -> Seq<Seq<char>>
    decreases s.len(),
{
    if s.len() == 0 {
        Seq::empty()
    } else if s[0] == '\n' {
        seq![Seq::<char>::empty()] + spec_lines(s.subrange(1, s.len() as int))
    } else if s.len() >= 2 && s[0] == '\r' && s[1] == '\n' {
        seq![Seq::<char>::empty()] + spec_lines(s.subrange(2, s.len() as int))
    } else {
        let rest = spec_lines(s.subrange(1, s.len() as int));
        if rest.len() == 0 {
            seq![seq![s[0]]]
        } else {
            seq![seq![s[0]] + rest[0]] + rest.drop_first()
        }
    }
}

/// The view of a vector of character vectors, line by line.
pub open spec fn lines_view(r: Seq<Vec<char>>) -> Seq<Seq<char>> {
    r.map_values(|l: Vec<char>| l@)
}

fn split_lines_from(s: &Vec<char>, i: usize) -> (r: Vec<Vec<char>>)
    requires
        i <= s@.len(),
    ensures
        lines_view(r@) == spec_lines(s@.subrange(i as int, s@.len() as int)),
    decreases s@.len() - i,
{
    let n = s.len();
    let ghost cur = s@.subrange(i as int, n as int);
    if i == n {
        let r: Vec<Vec<char>> = Vec::new();
        proof {
            assert(lines_view(r@) =~= spec_lines(cur));
        }
        r
    } else if s[i] == '\n' {
        let mut r = split_lines_from(s, i + 1);
        r.insert(0, Vec::new());
        proof {
            assert(cur.subrange(1, cur.len() as int) =~= s@.subrange(i as int + 1, n as int));
            assert(lines_view(r@) =~= spec_lines(cur));
        }
        r
    } else if n - i >= 2 && s[i] == '\r' && s[i + 1] == '\n' {
        let mut r = split_lines_from(s, i + 2);
        r.insert(0, Vec::new());
        proof {
            assert(cur[0] == s@[i as int] && cur[1] == s@[i as int + 1]);
            assert(cur.subrange(2, cur.len() as int) =~= s@.subrange(i as int + 2, n as int));
            assert(lines_view(r@) =~= spec_lines(cur));
        }
        r
    } else {
        let c = s[i];
        let mut r = split_lines_from(s, i + 1);
        proof {
            assert(cur[0] == s@[i as int]);
            if cur.len() >= 2 {
                assert(cur[1] == s@[i as int + 1]);
            }
            assert(cur.subrange(1, cur.len() as int) =~= s@.subrange(i as int + 1, n as int));
        }
        if r.len() == 0 {
            let mut line: Vec<char> = Vec::new();
            line.push(c);
            r.push(line);
            proof {
                assert(line@ =~= seq![c]);
                assert(lines_view(r@) =~= spec_lines(cur));
            }
            r
        } else {
            let mut first = r.remove(0);
            first.insert(0, c);
            r.insert(0, first);
            proof {
                let rest = spec_lines(s@.subrange(i as int + 1, n as int));
                assert(first@ =~= seq![c] + rest[0]);
                assert(lines_view(r@) =~= spec_lines(cur));
            }
            r
        }
    }
}

/// Splits the text into its lines, in order.
pub fn split_lines(s: &Vec<char>) -> (r: Vec<Vec<char>>)
    ensures
        lines_view(r@) == spec_lines(s@),
{
    let r = split_lines_from(s, 0);
    proof {
        assert(s@.subrange(0, s@.len() as int) =~= s@);
    }
    r
}

} // verus!

//! The drop decision for an inbound message: automated (bot) authors are
//! dropped on the side that flags them, and any message whose text begins
//! with a configured filter-prefix character is dropped on either side.

use vstd::prelude::*;
use vstd::string::StrSliceExecFns;

verus! {

/// Whether the text is non-empty and begins with one of the filter-prefix
/// characters.
pub open spec fn spec_starts_with_filter(text: Seq<char>, prefixes: Seq<char>) -> bool {
    text.len() > 0 && prefixes.contains(text[0])
}

/// The drop rule for a message whose author carries an automation flag:
/// dropped when the flag is set or the text begins with a filter prefix.
pub open spec fn spec_should_drop(author_is_bot: bool, text: Seq<char>, prefixes: Seq<char>) -> bool {
    author_is_bot || spec_starts_with_filter(text, prefixes)
}

/// Tests whether the text begins with a filter-prefix character.
pub fn starts_with_filter(text: &str, prefixes: &str) -> (r: bool)
    ensures
        r == spec_starts_with_filter(text@, prefixes@),
{
    if text.unicode_len() == 0 {
        return false;
    }
    let c0 = text.get_char(0);
    let np = prefixes.unicode_len();
    let mut i: usize = 0;
    while i < np
        invariant
            i <= np,
            np == prefixes@.len(),
            text@.len() > 0,
            c0 == text@[0],
            forall|j: int| 0 <= j < i ==> prefixes@[j] != c0,
        decreases np - i,
    {
        if prefixes.get_char(i) == c0 {
            proof {
                assert(prefixes@[i as int] == c0);
                assert(prefixes@.contains(c0));
            }
            return true;
        }
        i = i + 1;
    }
    false
}

/// Decides whether an inbound message is dropped before any relay work.
pub fn should_drop(author_is_bot: bool, text: &str, prefixes: &str) -> (r: bool)
    ensures
        r == spec_should_drop(author_is_bot, text@, prefixes@),
{
    author_is_bot || starts_with_filter(text, prefixes)
}

} // verus!

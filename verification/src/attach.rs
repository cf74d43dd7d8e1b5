//! The attachment summary appended to relayed message lines: an empty text
//! for no attachments, otherwise a bracketed list of `filename (url)` entries
//! joined by commas.

use vstd::prelude::*;
use crate::text::{str_to_chars, append_str_chars};

verus! {

/// An attachment carried by a message.
pub struct Attachment {
    pub filename: String,
    pub url: String,
}

/// One attachment rendered as `filename (url)`.
pub open spec fn spec_attachment_item(a: Attachment) -> Seq<char> {
    a.filename@ + " ("@ + a.url@ + ")"@
}

/// The attachments rendered in order, joined by `, `.
pub open spec fn spec_attachment_list(atts: Seq<Attachment>) -> Seq<char>
    decreases atts.len(),
{
    if atts.len() == 0 {
        Seq::empty()
    } else if atts.len() == 1 {
        spec_attachment_item(atts[0])
    } else {
        spec_attachment_item(atts[0]) + ", "@ + spec_attachment_list(atts.drop_first())
    }
}

/// The suffix appended to every relayed line: empty for no attachments,
/// otherwise the joined list inside an `[Attachments: ...]` bracket.
pub open spec fn spec_attachment_suffix(atts: Seq<Attachment>) -> Seq<char> {
    if atts.len() == 0 {
        Seq::empty()
    } else {
        "[Attachments: "@ + spec_attachment_list(atts) + "]"@
    }
}

/// A message with no attachments gets an empty suffix.
pub proof fn lemma_no_attachments_empty_suffix(atts: Seq<Attachment>)
    requires
        atts.len() == 0,
    ensures
        spec_attachment_suffix(atts) == Seq::<char>::empty(),
{
}

/// Appending one attachment to a non-empty list extends its rendering by a
/// comma separator and the new item.
proof fn lemma_attachment_list_snoc(atts: Seq<Attachment>, a: Attachment)
    requires
        atts.len() >= 1,
    ensures
        spec_attachment_list(atts.push(a)) == spec_attachment_list(atts) + ", "@
            + spec_attachment_item(a),
    decreases atts.len(),
{
    let p = atts.push(a);
    assert(p[0] == atts[0]);
    if atts.len() == 1 {
        assert(p.drop_first() =~= seq![a]);
        assert(spec_attachment_list(p.drop_first()) == spec_attachment_item(a));
        assert(spec_attachment_list(p) =~= spec_attachment_list(atts) + ", "@
            + spec_attachment_item(a));
    } else {
        assert(p.drop_first() =~= atts.drop_first().push(a));
        lemma_attachment_list_snoc(atts.drop_first(), a);
        assert(spec_attachment_list(p) =~= spec_attachment_list(atts) + ", "@
            + spec_attachment_item(a));
    }
}

/// Appends `filename (url)` for one attachment.
fn append_attachment_item(out: &mut Vec<char>, a: &Attachment)
    ensures
        final(out)@ == old(out)@ + spec_attachment_item(*a),
{
    let ghost out0 = out@;
    append_str_chars(out, a.filename.as_str());
    append_str_chars(out, " (");
    append_str_chars(out, a.url.as_str());
    append_str_chars(out, ")");
    proof {
        assert(out@ =~= out0 + spec_attachment_item(*a));
    }
}

/// Builds the attachment suffix for a message's attachment list.
pub fn attachment_suffix(atts: &Vec<Attachment>) -> (r: Vec<char>)
    ensures
        r@ == spec_attachment_suffix(atts@),
{
    if atts.len() == 0 {
        let r: Vec<char> = Vec::new();
        proof {
            assert(r@ =~= spec_attachment_suffix(atts@));
        }
        return r;
    }
    let mut r = str_to_chars("[Attachments: ");
    append_attachment_item(&mut r, &atts[0]);
    proof {
        assert(atts@.subrange(0, 1) =~= seq![atts@[0]]);
        assert(spec_attachment_list(atts@.subrange(0, 1)) == spec_attachment_item(atts@[0]));
    }
    let mut i: usize = 1;
    while i < atts.len()
        invariant
            1 <= i <= atts@.len(),
            r@ == "[Attachments: "@ + spec_attachment_list(atts@.subrange(0, i as int)),
        decreases atts@.len() - i,
    {
        let ghost r0 = r@;
        append_str_chars(&mut r, ", ");
        append_attachment_item(&mut r, &atts[i]);
        proof {
            assert(atts@.subrange(0, i as int + 1) =~= atts@.subrange(0, i as int).push(
                atts@[i as int],
            ));
            lemma_attachment_list_snoc(atts@.subrange(0, i as int), atts@[i as int]);
            assert(r@ =~= "[Attachments: "@ + spec_attachment_list(
                atts@.subrange(0, i as int + 1),
            ));
        }
        i = i + 1;
    }
    append_str_chars(&mut r, "]");
    proof {
        assert(atts@.subrange(0, atts@.len() as int) =~= atts@);
        assert(r@ =~= spec_attachment_suffix(atts@));
    }
    r
}

} // verus!

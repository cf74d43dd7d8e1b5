//! The per-event relay decisions for both directions. Each function consumes
//! one inbound message and yields the exact list of sends for the other
//! network: filtering, channel-mapping lookup, and the direction's transform
//! are all applied here, on plain values; the surrounding process performs
//! the receives and sends.

use vstd::prelude::*;
use crate::attach::{Attachment, spec_attachment_suffix, attachment_suffix};
use crate::color::spec_color_index;
use crate::filter::{spec_should_drop, spec_starts_with_filter, should_drop, starts_with_filter};
use crate::lines::{spec_lines, lines_view, split_lines};
use crate::mapping::{ChannelMapping, spec_lookup_a_to_b, spec_lookup_b_to_a};
use crate::mentions::{MentionEntry, spec_resolve_mentions, resolve_mentions};
use crate::strip::{spec_strip, strip_formatting_chars};
use crate::text::{
    spec_decimal, str_to_chars, chars_to_string, append_chars, append_str_chars, push_decimal,
};

verus! {

/// One inbound message from network A, as handed over by its connection.
pub struct AMessage {
    pub channel_id: u64,
    pub author_name: String,
    pub author_is_bot: bool,
    pub content: String,
    pub mentions: Vec<MentionEntry>,
    pub attachments: Vec<Attachment>,
}

/// One outbound line for network B: plain text for a named target channel.
pub struct BSend {
    pub target: String,
    pub text: String,
}

/// One outbound message for network A: plain text for a numeric channel id.
pub struct ASend {
    pub channel_id: u64,
    pub text: String,
}

/// The view of a list of B-side sends as (target, text) pairs.
pub open spec fn b_sends_view(s: Seq<BSend>) -> Seq<(Seq<char>, Seq<char>)> {
    s.map_values(|x: BSend| (x.target@, x.text@))
}

/// The view of a list of A-side sends as (channel id, text) pairs.
pub open spec fn a_sends_view(s: Seq<ASend>) -> Seq<(u64, Seq<char>)> {
    s.map_values(|x: ASend| (x.channel_id, x.text@))
}

/// One relayed line on network B: the author's name between colour markers in
/// angle brackets, the line, a space, and the attachment suffix.
pub open spec fn spec_b_line(author: Seq<char>, line: Seq<char>, suffix: Seq<char>) -> Seq<char> {
    seq!['<', '\u{3}'] + spec_decimal(spec_color_index(author) as nat) + author + seq![
        '\u{3}',
        '>',
        ' ',
    ] + line + seq![' '] + suffix
}

/// One relayed message on network A: the source nick in bold angle brackets
/// followed by the text with its formatting controls stripped.
pub open spec fn spec_a_line(nick: Seq<char>, content: Seq<char>) -> Seq<char> {
    "**<"@ + nick + ">** "@ + spec_strip(content)
}

/// Every send produced by one A-side message: none for a bot author, a
/// filtered text, or an unmapped source channel; otherwise one send per line
/// of the mention-resolved text, in line order, all to the mapped target and
/// all carrying the same attachment suffix.
pub open spec fn spec_relay_a_to_b(
    msg: AMessage,
    mapping: ChannelMapping,
    prefixes: Seq<char>,
) -> Seq<(Seq<char>, Seq<char>)> {
    if spec_should_drop(msg.author_is_bot, msg.content@, prefixes) {
        Seq::empty()
    } else {
        match spec_lookup_a_to_b(mapping.a_to_b@, msg.channel_id) {
            None => Seq::empty(),
            Some(target) => {
                let resolved = spec_resolve_mentions(msg.content@, msg.mentions@);
                let suffix = spec_attachment_suffix(msg.attachments@);
                spec_lines(resolved).map_values(
                    (|l: Seq<char>| (target, spec_b_line(msg.author_name@, l, suffix))),
                )
            },
        }
    }
}

/// Every send produced by one B-side channel-text event: none for a filtered
/// text or an unmapped source channel, otherwise exactly one send of the
/// stripped text to the mapped numeric channel.
pub open spec fn spec_relay_b_to_a(
    channel: Seq<char>,
    nick: Seq<char>,
    content: Seq<char>,
    mapping: ChannelMapping,
    prefixes: Seq<char>,
) -> Seq<(u64, Seq<char>)> {
    if spec_starts_with_filter(content, prefixes) {
        Seq::empty()
    } else {
        match spec_lookup_b_to_a(mapping.b_to_a@, channel) {
            None => Seq::empty(),
            Some(id) => seq![(id, spec_a_line(nick, content))],
        }
    }
}

/// Builds one outbound B-side line for an author, a text line and the shared
/// attachment suffix.
fn build_b_line(author: &String, line: &Vec<char>, suffix: &Vec<char>) -> (t: String)
    ensures
        t@ == spec_b_line(author@, line@, suffix@),
{
    let ci = crate::color::color_index(author.as_str());
    let mut v: Vec<char> = Vec::new();
    v.push('<');
    v.push('\u{3}');
    proof {
        assert(v@ =~= seq!['<', '\u{3}']);
    }
    push_decimal(&mut v, ci);
    append_str_chars(&mut v, author.as_str());
    v.push('\u{3}');
    v.push('>');
    v.push(' ');
    append_chars(&mut v, line);
    v.push(' ');
    append_chars(&mut v, suffix);
    proof {
        assert(v@ =~= spec_b_line(author@, line@, suffix@));
    }
    chars_to_string(&v)
}

/// Decides the A-to-B relay for one inbound A-side message and returns the
/// sends in the order they must be made.
pub fn relay_a_to_b(msg: &AMessage, mapping: &ChannelMapping, prefixes: &str) -> (sends: Vec<
    BSend,
>)
    ensures
        b_sends_view(sends@) == spec_relay_a_to_b(*msg, *mapping, prefixes@),
{
    let mut sends: Vec<BSend> = Vec::new();
    if should_drop(msg.author_is_bot, msg.content.as_str(), prefixes) {
        proof {
            assert(b_sends_view(sends@) =~= spec_relay_a_to_b(*msg, *mapping, prefixes@));
        }
        return sends;
    }
    let target = match mapping.lookup_a_to_b(msg.channel_id) {
        None => {
            proof {
                assert(b_sends_view(sends@) =~= spec_relay_a_to_b(*msg, *mapping, prefixes@));
            }
            return sends;
        },
        Some(t) => t,
    };
    let content_chars = str_to_chars(msg.content.as_str());
    let resolved = resolve_mentions(&content_chars, &msg.mentions);
    let suffix = attachment_suffix(&msg.attachments);
    let lines = split_lines(&resolved);
    let ghost expected = spec_lines(resolved@).map_values(
        (|l: Seq<char>| (target@, spec_b_line(msg.author_name@, l, suffix@))),
    );
    let n = lines.len();
    let mut i: usize = 0;
    while i < n
        invariant
            i <= n,
            n == lines@.len(),
            lines_view(lines@) == spec_lines(resolved@),
            expected == spec_lines(resolved@).map_values(
                (|l: Seq<char>| (target@, spec_b_line(msg.author_name@, l, suffix@))),
            ),
            b_sends_view(sends@) == expected.subrange(0, i as int),
        decreases n - i,
    {
        let ghost sends0 = sends@;
        let text = build_b_line(&msg.author_name, &lines[i], &suffix);
        let t = target.clone();
        sends.push(BSend { target: t, text });
        proof {
            assert(lines@[i as int]@ == lines_view(lines@)[i as int]);
            assert(lines@[i as int]@ == spec_lines(resolved@)[i as int]);
            assert(text@ == spec_b_line(msg.author_name@, spec_lines(resolved@)[i as int], suffix@));
            assert(expected[i as int] == (target@, spec_b_line(
                msg.author_name@,
                spec_lines(resolved@)[i as int],
                suffix@,
            )));
            assert(b_sends_view(sends0).len() == sends0.len());
            assert(sends0.len() == i as int);
            assert(sends@.len() == i + 1);
            assert forall|j: int| 0 <= j < i + 1 implies b_sends_view(sends@)[j] == expected
                .subrange(0, i as int + 1)[j] by {
                if j < i {
                    assert(b_sends_view(sends0)[j] == expected.subrange(0, i as int)[j]);
                    assert(sends@[j] == sends0[j]);
                } else {
                    assert(sends@[j].target@ == target@);
                    assert(sends@[j].text@ == spec_b_line(
                        msg.author_name@,
                        spec_lines(resolved@)[i as int],
                        suffix@,
                    ));
                }
            }
            assert(b_sends_view(sends@) =~= expected.subrange(0, i as int + 1));
        }
        i = i + 1;
    }
    proof {
        assert(expected.subrange(0, n as int) =~= expected);
        assert(b_sends_view(sends@) == spec_relay_a_to_b(*msg, *mapping, prefixes@));
    }
    sends
}

/// Decides the B-to-A relay for one inbound B-side channel-text event and
/// returns the send to make, if any.
pub fn relay_b_to_a(
    channel: &str,
    nick: &str,
    content: &str,
    mapping: &ChannelMapping,
    prefixes: &str,
) -> (sends: Vec<ASend>)
    ensures
        a_sends_view(sends@) == spec_relay_b_to_a(channel@, nick@, content@, *mapping, prefixes@),
{
    let mut sends: Vec<ASend> = Vec::new();
    if starts_with_filter(content, prefixes) {
        proof {
            assert(a_sends_view(sends@) =~= spec_relay_b_to_a(
                channel@,
                nick@,
                content@,
                *mapping,
                prefixes@,
            ));
        }
        return sends;
    }
    let id = match mapping.lookup_b_to_a(channel) {
        None => {
            proof {
                assert(a_sends_view(sends@) =~= spec_relay_b_to_a(
                    channel@,
                    nick@,
                    content@,
                    *mapping,
                    prefixes@,
                ));
            }
            return sends;
        },
        Some(id) => id,
    };
    let content_chars = str_to_chars(content);
    let stripped = strip_formatting_chars(&content_chars);
    let mut v = str_to_chars("**<");
    append_str_chars(&mut v, nick);
    append_str_chars(&mut v, ">** ");
    append_chars(&mut v, &stripped);
    proof {
        assert(v@ =~= spec_a_line(nick@, content@));
    }
    let text = chars_to_string(&v);
    sends.push(ASend { channel_id: id, text });
    proof {
        assert(a_sends_view(sends@) =~= spec_relay_b_to_a(
            channel@,
            nick@,
            content@,
            *mapping,
            prefixes@,
        ));
    }
    sends
}

/// An automated (bot-flagged) A-side author produces no send, whatever the
/// content, mentions, attachments or mapping.
pub proof fn lemma_bot_author_sends_nothing(
    msg: AMessage,
    mapping: ChannelMapping,
    prefixes: Seq<char>,
)
    requires
        msg.author_is_bot,
    ensures
        spec_relay_a_to_b(msg, mapping, prefixes) == Seq::<(Seq<char>, Seq<char>)>::empty(),
{
}

/// A message whose text begins with a filter-prefix character produces no
/// send in the A-to-B direction, regardless of the mapping.
pub proof fn lemma_filtered_text_sends_nothing_a(
    msg: AMessage,
    mapping: ChannelMapping,
    prefixes: Seq<char>,
)
    requires
        spec_starts_with_filter(msg.content@, prefixes),
    ensures
        spec_relay_a_to_b(msg, mapping, prefixes) == Seq::<(Seq<char>, Seq<char>)>::empty(),
{
}

/// A message whose text begins with a filter-prefix character produces no
/// send in the B-to-A direction either, regardless of the mapping.
pub proof fn lemma_filtered_text_sends_nothing_b(
    channel: Seq<char>,
    nick: Seq<char>,
    content: Seq<char>,
    mapping: ChannelMapping,
    prefixes: Seq<char>,
)
    requires
        spec_starts_with_filter(content, prefixes),
    ensures
        spec_relay_b_to_a(channel, nick, content, mapping, prefixes) == Seq::<(
            u64,
            Seq<char>,
        )>::empty(),
{
}

/// A source channel id that appears in no entry of the A-to-B table produces
/// no send.
pub proof fn lemma_unmapped_channel_sends_nothing_a(
    msg: AMessage,
    mapping: ChannelMapping,
    prefixes: Seq<char>,
)
    requires
        forall|j: int| 0 <= j < mapping.a_to_b@.len() ==> mapping.a_to_b@[j].0 != msg.channel_id,
    ensures
        spec_relay_a_to_b(msg, mapping, prefixes) == Seq::<(Seq<char>, Seq<char>)>::empty(),
{
    crate::mapping::lemma_lookup_a_to_b_none(mapping.a_to_b@, msg.channel_id);
}

/// A source channel name that appears in no entry of the B-to-A table
/// produces no send.
pub proof fn lemma_unmapped_channel_sends_nothing_b(
    channel: Seq<char>,
    nick: Seq<char>,
    content: Seq<char>,
    mapping: ChannelMapping,
    prefixes: Seq<char>,
)
    requires
        forall|j: int| 0 <= j < mapping.b_to_a@.len() ==> mapping.b_to_a@[j].0@ != channel,
    ensures
        spec_relay_b_to_a(channel, nick, content, mapping, prefixes) == Seq::<(
            u64,
            Seq<char>,
        )>::empty(),
{
    crate::mapping::lemma_lookup_b_to_a_none(mapping.b_to_a@, channel);
}

/// An undropped A-side message on a mapped source channel produces exactly one
/// send per line of its mention-resolved text, in line order, every send to
/// the mapped target, and every send's text carrying the same attachment
/// suffix.
pub proof fn lemma_mapped_message_sends_per_line(
    msg: AMessage,
    mapping: ChannelMapping,
    prefixes: Seq<char>,
    target: Seq<char>,
)
    requires
        !spec_should_drop(msg.author_is_bot, msg.content@, prefixes),
        spec_lookup_a_to_b(mapping.a_to_b@, msg.channel_id) == Some(target),
    ensures
        ({
            let resolved = spec_resolve_mentions(msg.content@, msg.mentions@);
            let suffix = spec_attachment_suffix(msg.attachments@);
            let sends = spec_relay_a_to_b(msg, mapping, prefixes);
            &&& sends.len() == spec_lines(resolved).len()
            &&& forall|j: int|
                0 <= j < sends.len() ==> sends[j] == (
                    target,
                    spec_b_line(msg.author_name@, spec_lines(resolved)[j], suffix),
                )
        }),
{
}

/// An unfiltered B-side channel-text event on a mapped source channel
/// produces exactly one send, to the mapped numeric channel, of the stripped
/// text behind the source nick.
pub proof fn lemma_mapped_event_sends_once(
    channel: Seq<char>,
    nick: Seq<char>,
    content: Seq<char>,
    mapping: ChannelMapping,
    prefixes: Seq<char>,
    id: u64,
)
    requires
        !spec_starts_with_filter(content, prefixes),
        spec_lookup_b_to_a(mapping.b_to_a@, channel) == Some(id),
    ensures
        spec_relay_b_to_a(channel, nick, content, mapping, prefixes) == seq![
            (id, spec_a_line(nick, content)),
        ],
{
}

} // verus!

use chat_bridge::attach::{attachment_suffix, Attachment};
use chat_bridge::color::color_index;
use chat_bridge::filter::{should_drop, starts_with_filter};
use chat_bridge::lines::split_lines;
use chat_bridge::mapping::ChannelMapping;
use chat_bridge::mentions::{mention_token, replace_all, resolve_mentions, MentionEntry};
use chat_bridge::relay::{relay_a_to_b, relay_b_to_a, AMessage};
use chat_bridge::strip::strip_formatting_chars;
use chat_bridge::text::{chars_to_string, str_eq, str_to_chars};

fn chars(s: &str) -> Vec<char> {
    s.chars().collect()
}

fn string_of(v: &Vec<char>) -> String {
    v.iter().collect()
}

fn mapping_a(entries: Vec<(u64, &str)>) -> ChannelMapping {
    ChannelMapping {
        a_to_b: entries.into_iter().map(|(k, v)| (k, v.to_string())).collect(),
        b_to_a: Vec::new(),
    }
}

fn mapping_b(entries: Vec<(&str, u64)>) -> ChannelMapping {
    ChannelMapping {
        a_to_b: Vec::new(),
        b_to_a: entries.into_iter().map(|(k, v)| (k.to_string(), v)).collect(),
    }
}

fn plain_a_message(channel_id: u64, author: &str, content: &str) -> AMessage {
    AMessage {
        channel_id,
        author_name: author.to_string(),
        author_is_bot: false,
        content: content.to_string(),
        mentions: Vec::new(),
        attachments: Vec::new(),
    }
}

#[test]
fn color_index_is_stable_and_in_range() {
    let a = color_index("Bob");
    let b = color_index("Bob");
    assert_eq!(a, b);
    assert!(a < 16);
    let c = color_index("alice");
    assert!(c < 16);
    assert_eq!(c, color_index("alice"));
}

#[test]
fn text_helpers_round_trip() {
    let v = str_to_chars("héllo wörld");
    assert_eq!(v, chars("héllo wörld"));
    assert_eq!(chars_to_string(&v), "héllo wörld");
    assert!(str_eq("same", "same"));
    assert!(!str_eq("same", "sames"));
    assert!(!str_eq("same", "sama"));
}

#[test]
fn mention_token_shape() {
    assert_eq!(string_of(&mention_token(7)), "<@7>");
    assert_eq!(string_of(&mention_token(0)), "<@0>");
    assert_eq!(string_of(&mention_token(123456789012)), "<@123456789012>");
}

#[test]
fn replace_all_replaces_every_occurrence() {
    let r = replace_all(&chars("ababa"), &chars("aba"), &chars("x"));
    assert_eq!(string_of(&r), "xba");
    let r = replace_all(&chars("hello bob and bob"), &chars("bob"), &chars("B"));
    assert_eq!(string_of(&r), "hello B and B");
    let r = replace_all(&chars("none here"), &chars("zzz"), &chars("y"));
    assert_eq!(string_of(&r), "none here");
}

#[test]
fn mentions_listed_user_becomes_name_unlisted_token_stays() {
    let mentions = vec![MentionEntry { id: 7, name: "eve".to_string() }];
    let r = resolve_mentions(&chars("hi <@7>, ask <@8>"), &mentions);
    assert_eq!(string_of(&r), "hi @eve, ask <@8>");
}

#[test]
fn mentions_repeated_tokens_all_replaced_in_list_order() {
    let mentions = vec![
        MentionEntry { id: 1, name: "ann".to_string() },
        MentionEntry { id: 2, name: "ben".to_string() },
    ];
    let r = resolve_mentions(&chars("<@1> <@2> <@1>"), &mentions);
    assert_eq!(string_of(&r), "@ann @ben @ann");
}

#[test]
fn strip_removes_style_controls() {
    let r = strip_formatting_chars(&chars("\u{2}hi\u{2}"));
    assert_eq!(string_of(&r), "hi");
    let r = strip_formatting_chars(&chars("a\u{1f}b\u{f}c\u{16}d"));
    assert_eq!(string_of(&r), "abcd");
}

#[test]
fn strip_removes_color_codes_with_digits() {
    assert_eq!(string_of(&strip_formatting_chars(&chars("\u{3}4red"))), "red");
    assert_eq!(string_of(&strip_formatting_chars(&chars("\u{3}12blue"))), "blue");
    assert_eq!(string_of(&strip_formatting_chars(&chars("\u{3}12,34x"))), "x");
    assert_eq!(string_of(&strip_formatting_chars(&chars("\u{3}1,2y"))), "y");
    // a bare introducer, and a comma with no digit after it, leave the comma
    assert_eq!(string_of(&strip_formatting_chars(&chars("\u{3}plain"))), "plain");
    assert_eq!(string_of(&strip_formatting_chars(&chars("\u{3}12,zz"))), ",zz");
}

#[test]
fn strip_is_idempotent_and_keeps_plain_text() {
    let plain = chars("plain ascii text");
    assert_eq!(strip_formatting_chars(&plain), plain);
    let once = strip_formatting_chars(&chars("\u{3}7a\u{2}b\u{3}12,3c"));
    let twice = strip_formatting_chars(&once);
    assert_eq!(once, twice);
    assert_eq!(string_of(&once), "abc");
    let unicode = chars("ünïcödé ☂");
    assert_eq!(strip_formatting_chars(&unicode), unicode);
}

#[test]
fn split_lines_matches_line_semantics() {
    let ls = split_lines(&chars("hello\nworld"));
    assert_eq!(ls.len(), 2);
    assert_eq!(string_of(&ls[0]), "hello");
    assert_eq!(string_of(&ls[1]), "world");
    let ls = split_lines(&chars("one\r\ntwo\n"));
    assert_eq!(ls.len(), 2);
    assert_eq!(string_of(&ls[0]), "one");
    assert_eq!(string_of(&ls[1]), "two");
    let ls = split_lines(&chars(""));
    assert_eq!(ls.len(), 0);
    let ls = split_lines(&chars("a\n\nb"));
    assert_eq!(ls.len(), 3);
    assert_eq!(string_of(&ls[1]), "");
}

#[test]
fn attachment_suffix_empty_and_single() {
    assert_eq!(string_of(&attachment_suffix(&Vec::new())), "");
    let atts = vec![Attachment { filename: "a.png".to_string(), url: "http://x".to_string() }];
    assert_eq!(string_of(&attachment_suffix(&atts)), "[Attachments: a.png (http://x)]");
}

#[test]
fn attachment_suffix_joins_with_commas() {
    let atts = vec![
        Attachment { filename: "a.png".to_string(), url: "http://x".to_string() },
        Attachment { filename: "b.txt".to_string(), url: "http://y".to_string() },
    ];
    assert_eq!(
        string_of(&attachment_suffix(&atts)),
        "[Attachments: a.png (http://x), b.txt (http://y)]"
    );
}

#[test]
fn filter_drops_prefixed_and_bot_messages() {
    assert!(starts_with_filter("!cmd", "!."));
    assert!(starts_with_filter(".roll", "!."));
    assert!(!starts_with_filter("hello", "!."));
    assert!(!starts_with_filter("", "!."));
    assert!(!starts_with_filter("anything", ""));
    assert!(should_drop(true, "hello", ""));
    assert!(should_drop(false, "!x", "!"));
    assert!(!should_drop(false, "x!", "!"));
}

#[test]
fn mapping_lookup_both_directions() {
    let m = ChannelMapping {
        a_to_b: vec![(100, "#general".to_string()), (101, "#dev".to_string())],
        b_to_a: vec![("#general".to_string(), 200)],
    };
    assert_eq!(m.lookup_a_to_b(100), Some("#general".to_string()));
    assert_eq!(m.lookup_a_to_b(101), Some("#dev".to_string()));
    assert_eq!(m.lookup_a_to_b(102), None);
    assert_eq!(m.lookup_b_to_a("#general"), Some(200));
    assert_eq!(m.lookup_b_to_a("#other"), None);
}

#[test]
fn mapping_constructor_rejects_repeated_keys() {
    let m = ChannelMapping::new(
        vec![(1, "#a".to_string()), (2, "#b".to_string())],
        vec![("#a".to_string(), 1), ("#b".to_string(), 2)],
    );
    assert!(m.is_some());
    let dup_a = ChannelMapping::new(
        vec![(1, "#a".to_string()), (1, "#b".to_string())],
        Vec::new(),
    );
    assert!(dup_a.is_none());
    let dup_b = ChannelMapping::new(
        Vec::new(),
        vec![("#a".to_string(), 1), ("#a".to_string(), 2)],
    );
    assert!(dup_b.is_none());
}

#[test]
fn two_line_message_yields_two_sends_with_colorized_prefix() {
    let m = mapping_a(vec![(100, "#general")]);
    let msg = plain_a_message(100, "Bob", "hello\nworld");
    let sends = relay_a_to_b(&msg, &m, "");
    assert_eq!(sends.len(), 2);
    let ci = color_index("Bob");
    let prefix = format!("<\u{3}{}Bob\u{3}> ", ci);
    assert_eq!(sends[0].target, "#general");
    assert_eq!(sends[1].target, "#general");
    assert_eq!(sends[0].text, format!("{}hello ", prefix));
    assert_eq!(sends[1].text, format!("{}world ", prefix));
}

#[test]
fn every_line_carries_the_same_attachment_suffix() {
    let m = mapping_a(vec![(5, "#files")]);
    let mut msg = plain_a_message(5, "Ann", "first\nsecond");
    msg.attachments =
        vec![Attachment { filename: "a.png".to_string(), url: "http://x".to_string() }];
    let sends = relay_a_to_b(&msg, &m, "");
    assert_eq!(sends.len(), 2);
    let suffix = "[Attachments: a.png (http://x)]";
    assert!(sends[0].text.ends_with(suffix));
    assert!(sends[1].text.ends_with(suffix));
    let ci = color_index("Ann");
    assert_eq!(sends[0].text, format!("<\u{3}{}Ann\u{3}> first {}", ci, suffix));
    assert_eq!(sends[1].text, format!("<\u{3}{}Ann\u{3}> second {}", ci, suffix));
}

#[test]
fn mentions_are_resolved_in_relayed_text() {
    let m = mapping_a(vec![(1, "#chat")]);
    let mut msg = plain_a_message(1, "Cy", "ping <@7>");
    msg.mentions = vec![MentionEntry { id: 7, name: "eve".to_string() }];
    let sends = relay_a_to_b(&msg, &m, "");
    assert_eq!(sends.len(), 1);
    let ci = color_index("Cy");
    assert_eq!(sends[0].text, format!("<\u{3}{}Cy\u{3}> ping @eve ", ci));
}

#[test]
fn bot_author_produces_no_send() {
    let m = mapping_a(vec![(100, "#general")]);
    let mut msg = plain_a_message(100, "Bot", "hello");
    msg.author_is_bot = true;
    assert_eq!(relay_a_to_b(&msg, &m, "").len(), 0);
}

#[test]
fn unmapped_channel_produces_no_send() {
    let m = mapping_a(vec![(100, "#general")]);
    let msg = plain_a_message(999, "Bob", "hello");
    assert_eq!(relay_a_to_b(&msg, &m, "").len(), 0);
    let m2 = mapping_b(vec![("#general", 200)]);
    assert_eq!(relay_b_to_a("#elsewhere", "alice", "hi", &m2, "").len(), 0);
}

#[test]
fn filter_prefix_blocks_both_directions() {
    let ma = mapping_a(vec![(100, "#general")]);
    let msg = plain_a_message(100, "Bob", "!roll 6");
    assert_eq!(relay_a_to_b(&msg, &ma, "!").len(), 0);
    let mb = mapping_b(vec![("#general", 200)]);
    assert_eq!(relay_b_to_a("#general", "alice", "!roll 6", &mb, "!").len(), 0);
}

#[test]
fn channel_text_event_is_stripped_and_sent_once() {
    let m = mapping_b(vec![("#general", 200)]);
    let sends = relay_b_to_a("#general", "alice", "\u{2}hi\u{2}", &m, "");
    assert_eq!(sends.len(), 1);
    assert_eq!(sends[0].channel_id, 200);
    assert_eq!(sends[0].text, "**<alice>** hi");
}

#[test]
fn mention_token_at_largest_id() {
    assert_eq!(string_of(&mention_token(u64::MAX)), "<@18446744073709551615>");
}

#[test]
fn strip_of_lone_introducer_and_trailing_code() {
    assert_eq!(string_of(&strip_formatting_chars(&chars("\u{3}"))), "");
    assert_eq!(string_of(&strip_formatting_chars(&chars("end\u{3}12"))), "end");
    assert_eq!(string_of(&strip_formatting_chars(&chars("end\u{3}12,3"))), "end");
}

#[test]
fn split_lines_keeps_lone_carriage_return() {
    let ls = split_lines(&chars("a\rb"));
    assert_eq!(ls.len(), 1);
    assert_eq!(string_of(&ls[0]), "a\rb");
    let ls = split_lines(&chars("a\r\n"));
    assert_eq!(ls.len(), 1);
    assert_eq!(string_of(&ls[0]), "a");
}

#[test]
fn sends_go_only_to_the_message_channel_target() {
    let m = mapping_a(vec![(100, "#general"), (101, "#dev")]);
    let msg = plain_a_message(101, "Bob", "ping");
    let sends = relay_a_to_b(&msg, &m, "");
    assert_eq!(sends.len(), 1);
    assert_eq!(sends[0].target, "#dev");
}

#[test]
fn relay_uses_each_direction_independently() {
    let m = ChannelMapping {
        a_to_b: vec![(100, "#general")].into_iter().map(|(k, v)| (k, v.to_string())).collect(),
        b_to_a: vec![("#general".to_string(), 200)],
    };
    // the reverse table does not answer for the forward direction
    let msg = plain_a_message(200, "Bob", "hello");
    assert_eq!(relay_a_to_b(&msg, &m, "").len(), 0);
    let sends = relay_b_to_a("#general", "alice", "plain", &m, "");
    assert_eq!(sends.len(), 1);
    assert_eq!(sends[0].text, "**<alice>** plain");
}

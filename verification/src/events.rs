//! What the bot does with the messages and events it sees.

use vstd::prelude::*;
use crate::send::FieldView;
use crate::text::{dec_digits, join, join_spec, owned, parse_u64, parse_u64_spec, push_char, push_dec, push_str, texts};
use crate::utils::command_utils::{field, simple_embed, EmbedContent, EmbedStyle};
use crate::utils::embed_utils::field_views;

verus! {

/// What `RegexBuilder::new(pattern)`, with the given multi-line and case-insensitive
/// flags, and then `captures_iter(text)` give: for each match, in order, every group
/// (the whole match first) as its text, or `None` where the group took no part.
/// `None` when the pattern does not compile.
pub uninterp spec fn regex_captures(pattern: Seq<char>, multi_line: bool, case_insensitive: bool, text: Seq<char>) -> Option<Seq<Seq<Option<Seq<char>>>>>;

/// The texts of captured groups.
pub open spec fn capture_views(v: Seq<Vec<Option<String>>>) -> Seq<Seq<Option<Seq<char>>>> {
    v.map_values(|c: Vec<Option<String>>| c@.map_values(|g: Option<String>| match g {
        Some(t) => Some(t@),
        None => None,
    }))
}

/// `regex::RegexBuilder` with `multi_line` and `case_insensitive`, `build`, then
/// `Regex::captures_iter(text)`, each match as the texts of all its groups.
#[verifier::external_body]
fn captures_all(pattern: &str, multi_line: bool, case_insensitive: bool, text: &str) -> (r: Option<Vec<Vec<Option<String>>>>)
    ensures
        match r {
            Some(v) => regex_captures(pattern@, multi_line, case_insensitive, text@) == Some(capture_views(v@)),
            None => regex_captures(pattern@, multi_line, case_insensitive, text@) is None,
        },
{
    match regex::RegexBuilder::new(pattern).multi_line(multi_line).case_insensitive(case_insensitive).build() {
        Ok(re) => Some(
            re.captures_iter(text).map(|c| c.iter().map(|g| g.map(|m| m.as_str().to_string())).collect()).collect(),
        ),
        Err(_) => None,
    }
}

/// The pattern of a Discord message link, its three groups the guild, channel and
/// message ids.
pub open spec fn message_link_pattern() -> Seq<char> {
    "https://discord.com/channels/(\\d+)/(\\d+)/(\\d+)"@
}

/// The pattern follows the link format: it is the address `message_link` writes, with
/// each of the three ids (runs of decimal digits between slashes) replaced by a capture
/// of one or more digits, `(\\d+)`, so the whole run of each id is captured.
pub proof fn lemma_link_pattern_follows_link_format(guild: u64, channel: u64, message: u64)
    ensures
        message_link_spec(guild, channel, message) == "https://discord.com/channels/"@ + dec_digits(guild as nat)
            + seq!['/'] + dec_digits(channel as nat) + seq!['/'] + dec_digits(message as nat),
        message_link_pattern() == "https://discord.com/channels/"@ + "(\\d+)"@ + seq!['/'] + "(\\d+)"@ + seq!['/']
            + "(\\d+)"@,
{
    reveal_strlit("https://discord.com/channels/");
    reveal_strlit("(\\d+)");
    reveal_strlit("https://discord.com/channels/(\\d+)/(\\d+)/(\\d+)");
    assert(message_link_pattern() =~= "https://discord.com/channels/"@ + "(\\d+)"@ + seq!['/'] + "(\\d+)"@ + seq!['/']
        + "(\\d+)"@);
}

/// The ids of a link are read back whole: when the three groups of a match are the
/// decimal texts of a guild, channel and message id, as `message_link` writes them,
/// the ids read are exactly those.
pub proof fn lemma_link_ids_read_back(whole: Seq<char>, guild: u64, channel: u64, message: u64)
    ensures
        link_ids(seq![Some(whole), Some(dec_digits(guild as nat)), Some(dec_digits(channel as nat)), Some(dec_digits(message as nat))])
            == Some((guild, channel, message)),
{
    crate::text::lemma_parse_dec_round_trip(guild);
    crate::text::lemma_parse_dec_round_trip(channel);
    crate::text::lemma_parse_dec_round_trip(message);
}

/// Group `i` of a match, when it took part.
pub open spec fn group_at(groups: Seq<Option<Seq<char>>>, i: int) -> Option<Seq<char>> {
    if 0 <= i < groups.len() { groups[i] } else { None }
}

/// The guild, channel and message ids of a matched link (groups one to three); `None`
/// when a group is missing or is not a `u64`.
pub open spec fn link_ids(groups: Seq<Option<Seq<char>>>) -> Option<(u64, u64, u64)> {
    match (group_at(groups, 1), group_at(groups, 2), group_at(groups, 3)) {
        (Some(g), Some(c), Some(m)) => if parse_u64_spec(g) is Some && parse_u64_spec(c) is Some && parse_u64_spec(m) is Some {
            Some((parse_u64_spec(g).unwrap(), parse_u64_spec(c).unwrap(), parse_u64_spec(m).unwrap()))
        } else {
            None
        },
        _ => None,
    }
}

/// Parses three group texts as ids.
fn ids_of(g: &String, c: &String, m: &String) -> (r: Option<(u64, u64, u64)>)
    ensures
        r == (if parse_u64_spec(g@) is Some && parse_u64_spec(c@) is Some && parse_u64_spec(m@) is Some {
            Some((parse_u64_spec(g@).unwrap(), parse_u64_spec(c@).unwrap(), parse_u64_spec(m@).unwrap()))
        } else {
            None
        }),
{
    match (parse_u64(g.as_str()), parse_u64(c.as_str()), parse_u64(m.as_str())) {
        (Some(a), Some(b), Some(d)) => Some((a, b, d)),
        _ => None,
    }
}

/// The ids of each matched message link, given the groups of each match.
pub fn parse_message_links(captures: &Vec<Vec<Option<String>>>) -> (r: Vec<Option<(u64, u64, u64)>>)
    ensures
        r@.len() == captures@.len(),
        forall|i: int| 0 <= i < captures@.len() ==> #[trigger] r@[i] == link_ids(capture_views(captures@)[i]),
{
    let mut r: Vec<Option<(u64, u64, u64)>> = Vec::new();
    let mut i: usize = 0;
    while i < captures.len()
        invariant
            i <= captures.len(),
            r@.len() == i,
            forall|k: int| 0 <= k < i ==> #[trigger] r@[k] == link_ids(capture_views(captures@)[k]),
        decreases captures.len() - i,
    {
        let groups = &captures[i];
        let ghost gv = capture_views(captures@)[i as int];
        assert(gv.len() == groups@.len());
        let ids = if groups.len() >= 4 {
            assert(forall|k: int| 0 <= k < groups@.len() ==> gv[k] == (match #[trigger] groups@[k] {
                Some(t) => Some(t@),
                None => None::<Seq<char>>,
            }));
            match (&groups[1], &groups[2], &groups[3]) {
                (Some(g), Some(c), Some(m)) => ids_of(g, c, m),
                _ => None,
            }
        } else {
            None
        };
        r.push(ids);
        i += 1;
    }
    r
}

/// The ids of every Discord message link in `content`, in order, matched
/// case-insensitively and in multi-line mode; `None` only if the link pattern were
/// refused.
pub fn find_message_links(content: &str) -> (r: Option<Vec<Option<(u64, u64, u64)>>>)
    ensures
        match regex_captures(message_link_pattern(), true, true, content@) {
            None => r is None,
            Some(caps) => r matches Some(v) && v@.len() == caps.len() && forall|i: int| 0 <= i < v@.len()
                ==> #[trigger] v@[i] == link_ids(caps[i]),
        },
{
    match captures_all("https://discord.com/channels/(\\d+)/(\\d+)/(\\d+)", true, true, content) {
        None => None,
        Some(caps) => Some(parse_message_links(&caps)),
    }
}

/// The links of `links` that a message in `guild` follows, in order: those into the
/// same guild, and those whose ids could not be read.
pub open spec fn links_to_follow_spec(guild: u64, links: Seq<Option<(u64, u64, u64)>>) -> Seq<Option<(u64, u64, u64)>>
    decreases links.len(),
{
    if links.len() == 0 {
        Seq::empty()
    } else {
        let prev = links_to_follow_spec(guild, links.drop_last());
        match links.last() {
            Some(ids) => if ids.0 == guild { prev.push(links.last()) } else { prev },
            None => prev.push(links.last()),
        }
    }
}

/// The links a message in `guild` follows: each into the same guild, and each whose
/// ids could not be read (which the caller reports), in order.
pub fn links_to_follow(guild: u64, links: &Vec<Option<(u64, u64, u64)>>) -> (r: Vec<Option<(u64, u64, u64)>>)
    ensures
        r@ == links_to_follow_spec(guild, links@),
{
    let mut r: Vec<Option<(u64, u64, u64)>> = Vec::new();
    let mut i: usize = 0;
    while i < links.len()
        invariant
            i <= links.len(),
            r@ == links_to_follow_spec(guild, links@.subrange(0, i as int)),
        decreases links.len() - i,
    {
        assert(links@.subrange(0, i + 1).drop_last() =~= links@.subrange(0, i as int));
        let l = links[i];
        match l {
            Some(ids) => {
                if ids.0 == guild {
                    r.push(l);
                }
            },
            None => r.push(l),
        }
        i += 1;
    }
    assert(links@.subrange(0, links@.len() as int) =~= links@);
    r
}

/// `https://discord.com/channels/{guild}/{channel}/{message}`.
pub open spec fn message_link_spec(guild: u64, channel: u64, message: u64) -> Seq<char> {
    "https://discord.com/channels/"@ + dec_digits(guild as nat) + seq!['/'] + dec_digits(channel as nat) + seq!['/']
        + dec_digits(message as nat)
}

/// The address of a message.
pub fn message_link(guild: u64, channel: u64, message: u64) -> (r: String)
    ensures
        r@ == message_link_spec(guild, channel, message),
{
    let mut r = owned("https://discord.com/channels/");
    push_dec(&mut r, guild);
    push_char(&mut r, '/');
    push_dec(&mut r, channel);
    push_char(&mut r, '/');
    push_dec(&mut r, message);
    r
}

/// `[name](url)`.
pub open spec fn attachment_link(name: Seq<char>, url: Seq<char>) -> Seq<char> {
    seq!['['] + name + seq![']'] + seq!['('] + url + seq![')']
}

/// The attachments of a quoted message as markdown links separated by `, `.
pub fn attachment_links(attachments: &Vec<(String, String)>) -> (r: String)
    ensures
        r@ == join_spec(
            attachments@.map_values(|a: (String, String)| attachment_link(a.0@, a.1@)),
            ", "@,
        ),
{
    let ghost want = attachments@.map_values(|a: (String, String)| attachment_link(a.0@, a.1@));
    let mut parts: Vec<String> = Vec::new();
    let mut i: usize = 0;
    while i < attachments.len()
        invariant
            i <= attachments.len(),
            want == attachments@.map_values(|a: (String, String)| attachment_link(a.0@, a.1@)),
            texts(parts@) == want.subrange(0, i as int),
        decreases attachments.len() - i,
    {
        let a = &attachments[i];
        let mut s = String::new();
        push_char(&mut s, '[');
        push_str(&mut s, a.0.as_str());
        push_char(&mut s, ']');
        push_char(&mut s, '(');
        push_str(&mut s, a.1.as_str());
        push_char(&mut s, ')');
        assert(s@ =~= want[i as int]);
        let ghost before = texts(parts@);
        let ghost sv = s@;
        parts.push(s);
        assert(texts(parts@) =~= before.push(sv));
        assert(before.push(sv) =~= want.subrange(0, i + 1));
        i += 1;
    }
    assert(want.subrange(0, attachments.len() as int) =~= want);
    join(&parts, ", ")
}

/// The custom status the bot shows: an optional `{prefix}help | ` before the message
/// of the day.
pub fn activity_text(prefix: &str, include_help_prefix: bool, motd: &str) -> (r: String)
    ensures
        r@ == (if include_help_prefix { prefix@ + "help | "@ } else { Seq::empty() }) + motd@,
{
    let mut r = String::new();
    if include_help_prefix {
        push_str(&mut r, prefix);
        push_str(&mut r, "help | ");
    }
    push_str(&mut r, motd);
    r
}

/// A message shown because a link to it was posted.
#[derive(Debug, Clone)]
pub struct QuotedMessage {
    pub author_name: String,
    pub author_icon: String,
    pub link: String,
    pub message_id: u64,
    pub channel_name: String,
    pub content: String,
    pub pinned: bool,
    pub from_app: bool,
    /// The guild, channel and message ids of the message it replies to, if any.
    pub reference: Option<(u64, u64, u64)>,
    /// The file name and address of each attachment.
    pub attachments: Vec<(String, String)>,
}

/// `bool::to_string`.
pub open spec fn bool_text(b: bool) -> Seq<char> {
    if b { "true"@ } else { "false"@ }
}

/// The fields of a quote: whether the message is pinned and whether an app sent it,
/// then the message it replies to and its attachments when there are any.
pub open spec fn quote_fields(q: QuotedMessage) -> Seq<FieldView> {
    seq![
        FieldView { name: "Pinned?"@, value: bool_text(q.pinned), inline: true },
        FieldView { name: "Sent by an app?"@, value: bool_text(q.from_app), inline: true },
    ] + match q.reference {
        Some((g, c, m)) => seq![FieldView { name: "Reference"@, value: message_link_spec(g, c, m), inline: false }],
        None => Seq::empty(),
    } + if q.attachments@.len() > 0 {
        seq![
            FieldView {
                name: "Attachments"@,
                value: join_spec(q.attachments@.map_values(|a: (String, String)| attachment_link(a.0@, a.1@)), ", "@),
                inline: false,
            },
        ]
    } else {
        Seq::empty()
    }
}

fn bool_string(b: bool) -> (r: String)
    ensures
        r@ == bool_text(b),
{
    if b {
        owned("true")
    } else {
        owned("false")
    }
}

/// The embed quoting a linked message: titled with the message's id and channel,
/// linking to it, with its author, its text and `quote_fields`.
pub fn quote_embed(q: QuotedMessage) -> (r: EmbedContent)
    ensures
        r.style == EmbedStyle::Primary,
        r.title@ == "Message `"@ + dec_digits(q.message_id as nat) + "` in "@ + q.channel_name@,
        r.description is Some && r.description.unwrap()@ == q.content@,
        r.url is Some && r.url.unwrap()@ == q.link@,
        r.author is Some && r.author.unwrap().0@ == q.author_name@ && r.author.unwrap().1@ == q.author_icon@,
        r.thumbnail is None && r.image is None && r.footer is None,
        field_views(r.fields@) == quote_fields(q),
{
    let ghost qv = q;
    let mut title = owned("Message `");
    push_dec(&mut title, q.message_id);
    push_str(&mut title, "` in ");
    push_str(&mut title, q.channel_name.as_str());
    let mut fields = Vec::new();
    fields.push(field("Pinned?", bool_string(q.pinned), true));
    fields.push(field("Sent by an app?", bool_string(q.from_app), true));
    let ghost base = field_views(fields@);
    match q.reference {
        Some((g, c, m)) => {
            fields.push(field("Reference", message_link(g, c, m), false));
        },
        None => {},
    }
    let ghost with_reference = field_views(fields@);
    if q.attachments.len() > 0 {
        fields.push(field("Attachments", attachment_links(&q.attachments), false));
    }
    proof {
        let refs = match qv.reference {
            Some((g, c, m)) => seq![FieldView { name: "Reference"@, value: message_link_spec(g, c, m), inline: false }],
            None => Seq::<FieldView>::empty(),
        };
        assert(with_reference =~= base + refs);
        assert(field_views(fields@) =~= quote_fields(qv));
    }
    let mut r = simple_embed(EmbedStyle::Primary, title, Some(q.content), fields);
    r.url = Some(q.link);
    r.author = Some((q.author_name, q.author_icon));
    r
}

} // verus!

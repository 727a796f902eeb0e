//! The checks that come before a moderation action, and the replies after it.

use std::time::Duration;
use vstd::prelude::*;
use crate::send::{Field, FieldView};
use crate::text::{owned, push_str};
use crate::utils::command_utils::{field, no_extras, simple_embed, EmbedContent, EmbedStyle};
use crate::utils::embed_utils::field_views;
use crate::utils::leveling::anti_spam::duration_total_nanos;
use crate::utils::time_utils::{duration_text, duration_whole_secs, format_duration};

verus! {

/// A moderation command.
#[derive(Debug, Clone, Copy, PartialEq, Eq, Structural)]
pub enum ModerationAction {
    Ban,
    Kick,
    Warn,
    Timeout,
}

/// The reply to a refused moderation action: its style, title and description.
pub open spec fn precheck_spec(
    action: ModerationAction,
    target_is_author: bool,
    target_outranks_bot: bool,
    target_is_bot_itself: bool,
    target_is_bot: bool,
    bot_name: Seq<char>,
) -> Option<(EmbedStyle, Seq<char>, Seq<char>)> {
    match action {
        ModerationAction::Ban => if target_is_author {
            Some((EmbedStyle::Error, "Failed to ban user"@, "You cannot ban yourself."@))
        } else if target_outranks_bot {
            Some((EmbedStyle::Error, "Failed to ban user"@, bot_name + " can't ban users that has a higher role!"@))
        } else if target_is_bot {
            Some((EmbedStyle::Error, "Failed to ban user"@, "User is a bot."@))
        } else {
            None
        },
        ModerationAction::Kick => if target_is_author {
            Some((EmbedStyle::Error, "Failed to kick user"@, "You cannot kick yourself."@))
        } else if target_outranks_bot {
            Some((EmbedStyle::Error, "Failed to kick user"@, bot_name + " can't kick users that has a higher role!"@))
        } else if target_is_bot_itself {
            Some((EmbedStyle::Error, "Failed to ban user"@, "No."@))
        } else if target_is_bot {
            Some((EmbedStyle::Error, "Failed to kick user"@, "User is a bot."@))
        } else {
            None
        },
        ModerationAction::Warn => if target_is_author {
            Some((EmbedStyle::Error, "Failed to warn user"@, "You cannot warn yourself."@))
        } else if target_outranks_bot {
            Some((EmbedStyle::Error, "Failed to warn user"@, bot_name + " can't warn users that has a higher role!"@))
        } else if target_is_bot_itself {
            Some((EmbedStyle::Error, "Failed to warn user"@, "No."@))
        } else if target_is_bot {
            Some((EmbedStyle::Error, "Failed to warn user"@, "User is a bot."@))
        } else {
            None
        },
        ModerationAction::Timeout => if target_is_author {
            Some((EmbedStyle::Plain, "Failed to time out user"@, "You cannot time out yourself."@))
        } else if target_outranks_bot {
            Some((EmbedStyle::Plain, "Failed to time out user"@, bot_name + " can't time out users that has a higher role!"@))
        } else {
            None
        },
    }
}

/// The verb an action's messages use.
pub open spec fn action_verb(action: ModerationAction) -> Seq<char> {
    match action {
        ModerationAction::Ban => "ban"@,
        ModerationAction::Kick => "kick"@,
        ModerationAction::Warn => "warn"@,
        ModerationAction::Timeout => "time out"@,
    }
}

/// No action is ever taken on oneself: when the target is the author, every action is
/// refused with `You cannot <verb> yourself.`, whatever else holds.
pub proof fn lemma_precheck_refuses_self(
    action: ModerationAction,
    target_outranks_bot: bool,
    target_is_bot_itself: bool,
    target_is_bot: bool,
    bot_name: Seq<char>,
)
    ensures
        precheck_spec(action, true, target_outranks_bot, target_is_bot_itself, target_is_bot, bot_name) matches Some(
            (_, _, d),
        ) && d == "You cannot "@ + action_verb(action) + " yourself."@,
{
    reveal_strlit("You cannot ");
    reveal_strlit(" yourself.");
    reveal_strlit("ban");
    reveal_strlit("kick");
    reveal_strlit("warn");
    reveal_strlit("time out");
    reveal_strlit("You cannot ban yourself.");
    reveal_strlit("You cannot kick yourself.");
    reveal_strlit("You cannot warn yourself.");
    reveal_strlit("You cannot time out yourself.");
    let d = "You cannot "@ + action_verb(action) + " yourself."@;
    match action {
        ModerationAction::Ban => assert(d =~= "You cannot ban yourself."@),
        ModerationAction::Kick => assert(d =~= "You cannot kick yourself."@),
        ModerationAction::Warn => assert(d =~= "You cannot warn yourself."@),
        ModerationAction::Timeout => assert(d =~= "You cannot time out yourself."@),
    }
}

/// The bot never acts on a member whose highest role is above its own: unless the
/// target is the author, every action is refused with
/// `<bot> can't <verb> users that has a higher role!`, whatever else holds.
pub proof fn lemma_precheck_refuses_higher_role(
    action: ModerationAction,
    target_is_bot_itself: bool,
    target_is_bot: bool,
    bot_name: Seq<char>,
)
    ensures
        precheck_spec(action, false, true, target_is_bot_itself, target_is_bot, bot_name) matches Some((_, _, d))
            && d == bot_name + " can't "@ + action_verb(action) + " users that has a higher role!"@,
{
    reveal_strlit(" can't ");
    reveal_strlit(" users that has a higher role!");
    reveal_strlit("ban");
    reveal_strlit("kick");
    reveal_strlit("warn");
    reveal_strlit("time out");
    reveal_strlit(" can't ban users that has a higher role!");
    reveal_strlit(" can't kick users that has a higher role!");
    reveal_strlit(" can't warn users that has a higher role!");
    reveal_strlit(" can't time out users that has a higher role!");
    let tail = " can't "@ + action_verb(action) + " users that has a higher role!"@;
    match action {
        ModerationAction::Ban => assert(tail =~= " can't ban users that has a higher role!"@),
        ModerationAction::Kick => assert(tail =~= " can't kick users that has a higher role!"@),
        ModerationAction::Warn => assert(tail =~= " can't warn users that has a higher role!"@),
        ModerationAction::Timeout => assert(tail =~= " can't time out users that has a higher role!"@),
    }
    assert(bot_name + " can't "@ + action_verb(action) + " users that has a higher role!"@ =~= bot_name + tail);
}

/// An ordinary member (not the author, not above the bot, not a bot) is never
/// refused, whatever the action.
pub proof fn lemma_precheck_allows_ordinary_member(action: ModerationAction, bot_name: Seq<char>)
    ensures
        precheck_spec(action, false, false, false, false, bot_name) is None,
{
}

fn refusal(style: EmbedStyle, title: &str, description: String) -> (r: EmbedContent)
    ensures
        r.style == style,
        r.title@ == title@,
        r.description is Some && r.description.unwrap()@ == description@,
        r.fields@.len() == 0,
        no_extras(r),
{
    simple_embed(style, owned(title), Some(description), Vec::new())
}

fn higher_role(bot_name: &str, verb: &str) -> (r: String)
    ensures
        r@ == bot_name@ + " can't "@ + verb@ + " users that has a higher role!"@,
{
    let mut r = owned(bot_name);
    push_str(&mut r, " can't ");
    push_str(&mut r, verb);
    push_str(&mut r, " users that has a higher role!");
    r
}

/// The reply refusing a moderation action, or `None` when it may go ahead. The checks
/// run in order: the target is the author, the target's highest role is above the
/// bot's, (for kicks and warnings) the target is the bot itself, (except for
/// timeouts) the target is a bot.
pub fn moderation_precheck(
    action: ModerationAction,
    target_is_author: bool,
    target_outranks_bot: bool,
    target_is_bot_itself: bool,
    target_is_bot: bool,
    bot_name: &str,
) -> (r: Option<EmbedContent>)
    ensures
        match precheck_spec(action, target_is_author, target_outranks_bot, target_is_bot_itself, target_is_bot, bot_name@) {
            Some((style, title, description)) => r is Some && r.unwrap().style == style && r.unwrap().title@ == title
                && r.unwrap().description is Some && r.unwrap().description.unwrap()@ == description
                && r.unwrap().fields@.len() == 0 && no_extras(r.unwrap()),
            None => r is None,
        },
{
    let (title, verb): (&str, &str) = match action {
        ModerationAction::Ban => ("Failed to ban user", "ban"),
        ModerationAction::Kick => ("Failed to kick user", "kick"),
        ModerationAction::Warn => ("Failed to warn user", "warn"),
        ModerationAction::Timeout => ("Failed to time out user", "time out"),
    };
    let style = match action {
        ModerationAction::Timeout => EmbedStyle::Plain,
        _ => EmbedStyle::Error,
    };
    proof {
        reveal_strlit(" can't ");
        reveal_strlit(" can't ban users that has a higher role!");
        reveal_strlit(" can't kick users that has a higher role!");
        reveal_strlit(" can't warn users that has a higher role!");
        reveal_strlit(" can't time out users that has a higher role!");
        reveal_strlit(" users that has a higher role!");
        reveal_strlit("ban");
        reveal_strlit("kick");
        reveal_strlit("warn");
        reveal_strlit("time out");
    }
    if target_is_author {
        let d = match action {
            ModerationAction::Ban => owned("You cannot ban yourself."),
            ModerationAction::Kick => owned("You cannot kick yourself."),
            ModerationAction::Warn => owned("You cannot warn yourself."),
            ModerationAction::Timeout => owned("You cannot time out yourself."),
        };
        return Some(refusal(style, title, d));
    }
    if target_outranks_bot {
        let d = higher_role(bot_name, verb);
        assert(d@ =~= bot_name@ + (match action {
            ModerationAction::Ban => " can't ban users that has a higher role!"@,
            ModerationAction::Kick => " can't kick users that has a higher role!"@,
            ModerationAction::Warn => " can't warn users that has a higher role!"@,
            ModerationAction::Timeout => " can't time out users that has a higher role!"@,
        }));
        return Some(refusal(style, title, d));
    }
    match action {
        ModerationAction::Kick => {
            if target_is_bot_itself {
                return Some(refusal(EmbedStyle::Error, "Failed to ban user", owned("No.")));
            }
        },
        ModerationAction::Warn => {
            if target_is_bot_itself {
                return Some(refusal(EmbedStyle::Error, "Failed to warn user", owned("No.")));
            }
        },
        _ => {},
    }
    match action {
        ModerationAction::Timeout => None,
        _ => {
            if target_is_bot {
                Some(refusal(EmbedStyle::Error, title, owned("User is a bot.")))
            } else {
                None
            }
        },
    }
}

} // verus!

verus! {

/// The reason recorded for an action: the one given, or `No reason provided`.
pub fn reason_or_default(reason: Option<String>) -> (r: String)
    ensures
        r@ == match reason {
            Some(t) => t@,
            None => "No reason provided"@,
        },
{
    match reason {
        Some(t) => t,
        None => owned("No reason provided"),
    }
}

/// The reason written to the guild's audit log: `{moderator}: {reason}`.
pub fn audit_log_reason(moderator_name: &str, reason: &str) -> (r: String)
    ensures
        r@ == moderator_name@ + ": "@ + reason@,
{
    let mut r = owned(moderator_name);
    push_str(&mut r, ": ");
    push_str(&mut r, reason);
    r
}

/// `{name}{suffix}`.
fn named(name: &str, suffix: &str) -> (r: String)
    ensures
        r@ == name@ + suffix@,
{
    let mut r = owned(name);
    push_str(&mut r, suffix);
    r
}

/// An embed with a title, a description and fields, nothing more.
pub open spec fn embed_is(e: EmbedContent, style: EmbedStyle, title: Seq<char>, description: Seq<char>, fields: Seq<FieldView>) -> bool {
    &&& e.style == style
    &&& e.title@ == title
    &&& e.description is Some
    &&& e.description.unwrap()@ == description
    &&& field_views(e.fields@) == fields
    &&& no_extras(e)
}

fn fields1(a: Field) -> (r: Vec<Field>)
    ensures
        field_views(r@) == seq![a@],
{
    let mut r = Vec::new();
    r.push(a);
    assert(field_views(r@) =~= seq![a@]);
    r
}

/// The reply once a ban was attempted: the ban, or Discord's refusal.
pub fn ban_reply(result: Result<(), String>, target_name: &str, reason: String, moderator_mention: &str) -> (r: EmbedContent)
    ensures
        match result {
            Ok(()) => embed_is(r, EmbedStyle::Success, target_name@ + " has been banned"@, reason@, seq![
                FieldView { name: "Banned by"@, value: moderator_mention@, inline: true },
            ]),
            Err(e) => embed_is(r, EmbedStyle::Error, "Failed to ban user"@, e@, Seq::empty()),
        },
{
    match result {
        Ok(()) => simple_embed(
            EmbedStyle::Success,
            named(target_name, " has been banned"),
            Some(reason),
            fields1(field("Banned by", owned(moderator_mention), true)),
        ),
        Err(e) => {
            let r = simple_embed(EmbedStyle::Error, owned("Failed to ban user"), Some(e), Vec::new());
            assert(field_views(r.fields@) =~= Seq::empty());
            r
        },
    }
}

/// The footer of a kick reply when the member could not be told by direct message.
pub open spec fn dm_failed_footer() -> Seq<char> {
    "Cannot DM user. Possibly his DMs are disabled."@
}

/// The reply once a kick was attempted: the kick (noting when the member could not be
/// told by direct message), or Discord's refusal.
pub fn kick_reply(result: Result<(), String>, dm_failed: bool, target_name: &str, reason: String, moderator_mention: &str) -> (r: EmbedContent)
    ensures
        match result {
            Ok(()) => {
                &&& r.style == EmbedStyle::Success
                &&& r.title@ == target_name@ + " has been kicked"@
                &&& r.description is Some && r.description.unwrap()@ == reason@
                &&& field_views(r.fields@) == seq![FieldView { name: "Kicked by"@, value: moderator_mention@, inline: true }]
                &&& r.url is None && r.thumbnail is None && r.image is None && r.author is None
                &&& if dm_failed {
                    r.footer is Some && r.footer.unwrap()@ == dm_failed_footer()
                } else {
                    r.footer is None
                }
            },
            Err(e) => embed_is(r, EmbedStyle::Error, "Failed to kick user"@, e@, Seq::empty()),
        },
{
    match result {
        Ok(()) => {
            let mut r = simple_embed(
                EmbedStyle::Success,
                named(target_name, " has been kicked"),
                Some(reason),
                fields1(field("Kicked by", owned(moderator_mention), true)),
            );
            if dm_failed {
                r.footer = Some(owned("Cannot DM user. Possibly his DMs are disabled."));
            }
            r
        },
        Err(e) => {
            let r = simple_embed(EmbedStyle::Error, owned("Failed to kick user"), Some(e), Vec::new());
            assert(field_views(r.fields@) =~= Seq::empty());
            r
        },
    }
}

/// The direct message telling a member they were kicked from `guild_name`.
pub fn kick_notice(guild_name: &str, reason: String, moderator_mention: &str) -> (r: EmbedContent)
    ensures
        embed_is(r, EmbedStyle::Error, "You are kicked on "@ + guild_name@, reason@, seq![
            FieldView { name: "Kicked by"@, value: moderator_mention@, inline: true },
        ]),
{
    let mut title = owned("You are kicked on ");
    push_str(&mut title, guild_name);
    simple_embed(EmbedStyle::Error, title, Some(reason), fields1(field("Kicked by", owned(moderator_mention), true)))
}

/// The reply once a timeout was attempted: the timeout and its length, or Discord's
/// refusal.
pub fn timeout_reply(result: Result<(), String>, duration: Duration, target_name: &str, reason: String, moderator_mention: &str) -> (r: EmbedContent)
    ensures
        match result {
            Ok(()) => embed_is(r, EmbedStyle::Plain, target_name@ + " has been timed out"@, reason@, seq![
                FieldView { name: "Duration"@, value: duration_text(duration_whole_secs(duration) as nat), inline: true },
                FieldView { name: "Timed out by"@, value: moderator_mention@, inline: true },
            ]),
            Err(e) => embed_is(r, EmbedStyle::Plain, "Failed to time out user"@, e@, Seq::empty()),
        },
{
    match result {
        Ok(()) => {
            let mut fields = Vec::new();
            fields.push(field("Duration", format_duration(duration), true));
            fields.push(field("Timed out by", owned(moderator_mention), true));
            let r = simple_embed(EmbedStyle::Plain, named(target_name, " has been timed out"), Some(reason), fields);
            assert(field_views(r.fields@) =~= seq![
                FieldView { name: "Duration"@, value: duration_text(duration_whole_secs(duration) as nat), inline: true },
                FieldView { name: "Timed out by"@, value: moderator_mention@, inline: true },
            ]);
            r
        },
        Err(e) => {
            let r = simple_embed(EmbedStyle::Plain, owned("Failed to time out user"), Some(e), Vec::new());
            assert(field_views(r.fields@) =~= Seq::empty());
            r
        },
    }
}

/// The reply once a warning was recorded (with its id and length), or the error that
/// stopped it.
pub fn warn_reply(result: Result<String, String>, duration: Duration, target_name: &str, reason: String, moderator_mention: &str) -> (r: EmbedContent)
    ensures
        match result {
            Ok(id) => embed_is(r, EmbedStyle::Success, target_name@ + " has been warned"@, reason@, seq![
                FieldView { name: "Warn ID"@, value: id@, inline: true },
                FieldView { name: "Duration"@, value: duration_text(duration_whole_secs(duration) as nat), inline: true },
                FieldView { name: "Warned by"@, value: moderator_mention@, inline: true },
            ]),
            Err(e) => embed_is(r, EmbedStyle::Error, "Failed to warn user"@, e@, Seq::empty()),
        },
{
    match result {
        Ok(id) => {
            let ghost idv = id@;
            let mut fields = Vec::new();
            fields.push(field("Warn ID", id, true));
            fields.push(field("Duration", format_duration(duration), true));
            fields.push(field("Warned by", owned(moderator_mention), true));
            let r = simple_embed(EmbedStyle::Success, named(target_name, " has been warned"), Some(reason), fields);
            assert(field_views(r.fields@) =~= seq![
                FieldView { name: "Warn ID"@, value: idv, inline: true },
                FieldView { name: "Duration"@, value: duration_text(duration_whole_secs(duration) as nat), inline: true },
                FieldView { name: "Warned by"@, value: moderator_mention@, inline: true },
            ]);
            r
        },
        Err(e) => {
            let r = simple_embed(EmbedStyle::Error, owned("Failed to warn user"), Some(e), Vec::new());
            assert(field_views(r.fields@) =~= Seq::empty());
            r
        },
    }
}

/// The length, in nanoseconds, of a duration written as duration-string reads it
/// (numbers with units such as `5m 30s`); `None` where it refuses the text.
pub uninterp spec fn duration_text_nanos(s: Seq<char>) -> Option<u128>;

/// `duration_string::DurationString::from_string` and the conversion to `Duration`:
/// the duration the text names, or `None` when the text is refused. The result is a
/// function of the text alone.
#[verifier::external_body]
fn parse_duration_text(s: &str) -> (r: Option<Duration>)
    ensures
        match r {
            Some(d) => duration_text_nanos(s@) == Some(duration_total_nanos(d)),
            None => duration_text_nanos(s@) is None,
        },
{
    match duration_string::DurationString::from_string(s.to_string()) {
        Ok(d) => Some(Duration::from(d)),
        Err(_) => None,
    }
}

/// The length of a timeout or a warning, as the moderator wrote it; `None` when the
/// text is no duration.
pub fn moderation_duration(text: &str) -> (r: Option<Duration>)
    ensures
        r is Some <==> duration_text_nanos(text@) is Some,
        r matches Some(d) ==> duration_text_nanos(text@) == Some(duration_total_nanos(d)),
{
    parse_duration_text(text)
}

/// Whose warnings are listed: the requested member's when one was named and the
/// author may moderate members, otherwise the author's own.
pub fn warnings_target(requested: Option<u64>, may_moderate: bool, author: u64) -> (r: u64)
    ensures
        r == (match requested {
            Some(u) => if may_moderate { u } else { author },
            None => author,
        }),
{
    match requested {
        Some(u) => if may_moderate { u } else { author },
        None => author,
    }
}

} // verus!

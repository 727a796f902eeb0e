//! Moderation checks, page navigation, emoji parsing and random ids.

use rand::Rng;
use vstd::prelude::*;
use crate::text::{
    chars_of, owned, parse_u64, parse_u64_spec, push_char, push_dec, push_str, same_text, split_char,
    split_spec, texts, trim_end_matches, trim_end_spec, trim_start_matches, trim_start_spec, dec_digits,
};

verus! {

/// The bit of the administrator permission.
pub const ADMINISTRATOR: u64 = 8;

/// Why a member may not moderate another, or empty when it may: later checks win
/// over earlier ones (self, then administrator, then guild owner).
pub open spec fn moderation_refusal(punisher: u64, target: u64, target_permissions: Option<u64>, owner: u64) -> Seq<char> {
    if owner == target {
        "The target is the owner of the guild."@
    } else if target_permissions == Some(ADMINISTRATOR) {
        "The target is an administrator."@
    } else if punisher == target {
        "You cannot moderate yourself."@
    } else {
        Seq::empty()
    }
}

/// The reason `punisher` may not moderate `target`, or an empty string when it may.
/// `target_permissions` are the target's guild permissions when known; a target whose
/// permissions are exactly the administrator permission counts as an administrator.
pub fn can_moderate(punisher: u64, target: u64, target_permissions: Option<u64>, owner: u64) -> (r: String)
    ensures
        r@ == moderation_refusal(punisher, target, target_permissions, owner),
{
    let mut reason = String::new();
    if punisher == target {
        reason = owned("You cannot moderate yourself.");
    }
    let is_admin = match target_permissions {
        Some(p) => p == ADMINISTRATOR,
        None => false,
    };
    if is_admin {
        reason = owned("The target is an administrator.");
    }
    if owner == target {
        reason = owned("The target is the owner of the guild.");
    }
    reason
}

/// A member may moderate a target exactly when the target is neither the member
/// itself, nor an administrator, nor the guild's owner.
pub proof fn lemma_moderation_allowed(punisher: u64, target: u64, target_permissions: Option<u64>, owner: u64)
    ensures
        moderation_refusal(punisher, target, target_permissions, owner).len() == 0 <==> (punisher != target
            && target_permissions != Some(ADMINISTRATOR) && owner != target),
{
    reveal_strlit("The target is the owner of the guild.");
    reveal_strlit("The target is an administrator.");
    reveal_strlit("You cannot moderate yourself.");
}

/// Whether the target's highest role is above the bot's, so the bot may not act on it.
pub fn compare_roles(bot_highest_position: u16, user_highest_position: u16) -> (r: bool)
    ensures
        r == (bot_highest_position < user_highest_position),
{
    bot_highest_position < user_highest_position
}

/// The page shown after a button press: `next` moves forward and wraps to the first
/// page, `prev` moves back and wraps to the last; any other press changes nothing.
pub open spec fn page_after(current: nat, pages: nat, pressed: Seq<char>, next: Seq<char>, prev: Seq<char>) -> Option<nat> {
    if pressed == next {
        Some(if current + 1 >= pages { 0 } else { (current + 1) as nat })
    } else if pressed == prev {
        Some(if current == 0 { (pages - 1) as nat } else { (current - 1) as nat })
    } else {
        None
    }
}

/// The page to show after the button `pressed`; `None` when the press is neither the
/// next nor the previous button.
pub fn turn_page(current: usize, pages: usize, pressed: &str, next_id: &str, prev_id: &str) -> (r: Option<usize>)
    requires
        pages > 0,
    ensures
        match r {
            Some(p) => page_after(current as nat, pages as nat, pressed@, next_id@, prev_id@) == Some(p as nat),
            None => page_after(current as nat, pages as nat, pressed@, next_id@, prev_id@) is None,
        },
{
    if same_text(pressed, next_id) {
        if current >= pages - 1 {
            Some(0)
        } else {
            Some(current + 1)
        }
    } else if same_text(pressed, prev_id) {
        if current == 0 {
            Some(pages - 1)
        } else {
            Some(current - 1)
        }
    } else {
        None
    }
}

/// Turning forward and then back returns to the same page, and so does turning back
/// and then forward, for two distinct buttons and any page in range; the page stays
/// in range.
pub proof fn lemma_page_turns_undo(current: nat, pages: nat, next: Seq<char>, prev: Seq<char>)
    requires
        current < pages,
        next != prev,
    ensures
        page_after(current, pages, next, next, prev) is Some,
        page_after(current, pages, next, next, prev).unwrap() < pages,
        page_after(page_after(current, pages, next, next, prev).unwrap(), pages, prev, next, prev) == Some(current),
        page_after(current, pages, prev, next, prev) is Some,
        page_after(current, pages, prev, next, prev).unwrap() < pages,
        page_after(page_after(current, pages, prev, next, prev).unwrap(), pages, next, next, prev) == Some(current),
{
}

/// The component ids of a paginated message: `jutils.{kind}.{id}` and the ids of its
/// previous and next buttons, that prefix followed by `.prev` and `.next`.
pub fn pagination_ids(kind: &str, ctx_id: u64) -> (r: (String, String, String))
    ensures
        r.0@ == "jutils."@ + kind@ + seq!['.'] + dec_digits(ctx_id as nat),
        r.1@ == r.0@ + ".prev"@,
        r.2@ == r.0@ + ".next"@,
{
    let mut prefix = owned("jutils.");
    push_str(&mut prefix, kind);
    push_char(&mut prefix, '.');
    push_dec(&mut prefix, ctx_id);
    let mut prev = prefix.clone();
    push_str(&mut prev, ".prev");
    let mut next = prefix.clone();
    push_str(&mut next, ".next");
    (prefix, prev, next)
}

/// The two parts of a custom emoji mention `<:name:id>`: the text left after removing
/// the leading `<:` and trailing `>` repetitions is split at `:`, the first piece is the
/// name and the second must be a non-zero id.
pub open spec fn custom_emoji_spec(s: Seq<char>) -> Option<(Seq<char>, u64)> {
    let parts = split_spec(trim_end_spec(trim_start_spec(s, "<:"@), ">"@), ':');
    if parts.len() >= 2 && parse_u64_spec(parts[1]) is Some && parse_u64_spec(parts[1]).unwrap() != 0 {
        Some((parts[0], parse_u64_spec(parts[1]).unwrap()))
    } else {
        None
    }
}

/// The name and id of a custom emoji mention such as `<:check:123>`; `None` when the
/// text has no id part or the id is not a non-zero number.
pub fn parse_custom_emoji(s: &str) -> (r: Option<(String, u64)>)
    ensures
        match r {
            Some((name, id)) => custom_emoji_spec(s@) == Some((name@, id)),
            None => custom_emoji_spec(s@) is None,
        },
{
    let a = trim_start_matches(s, "<:");
    let b = trim_end_matches(a.as_str(), ">");
    let mut parts = split_char(b.as_str(), ':');
    proof {
        crate::text::lemma_split_nonempty(b@, ':');
    }
    if parts.len() < 2 {
        return None;
    }
    assert(texts(parts@)[1] == parts@[1]@);
    assert(texts(parts@)[0] == parts@[0]@);
    match parse_u64(parts[1].as_str()) {
        Some(id) => {
            if id == 0 {
                None
            } else {
                let name = parts.swap_remove(0);
                Some((name, id))
            }
        },
        None => None,
    }
}

/// The reaction label of a flag.
pub fn bool_label(b: bool) -> (r: &'static str)
    ensures
        r@ == (if b { "True"@ } else { "False"@ }),
{
    if b {
        "True"
    } else {
        "False"
    }
}

/// The configured emoji for a flag: `check_box` when set, `cross_box` otherwise.
pub fn reaction_text(b: bool, check_box: &str, cross_box: &str) -> (r: String)
    ensures
        r@ == (if b { check_box@ } else { cross_box@ }),
{
    if b {
        owned(check_box)
    } else {
        owned(cross_box)
    }
}

/// An ASCII letter or digit.
pub open spec fn is_alphanumeric_ascii(c: char) -> bool {
    ('a' <= c && c <= 'z') || ('A' <= c && c <= 'Z') || ('0' <= c && c <= '9')
}

/// `rand::distributions::Alphanumeric` sampled from the thread's generator: an ASCII
/// letter or digit.
#[verifier::external_body]
fn random_alphanumeric() -> (c: char)
    ensures
        is_alphanumeric_ascii(c),
{
    char::from(rand::thread_rng().sample(rand::distributions::Alphanumeric))
}

/// A random id of `num` ASCII letters and digits.
pub fn generate_id(num: usize) -> (r: String)
    ensures
        r@.len() == num,
        forall|i: int| 0 <= i < num ==> is_alphanumeric_ascii(#[trigger] r@[i]),
{
    let mut r = String::new();
    let mut i: usize = 0;
    while i < num
        invariant
            i <= num,
            r@.len() == i,
            forall|k: int| 0 <= k < i ==> is_alphanumeric_ascii(#[trigger] r@[k]),
        decreases num - i,
    {
        let c = random_alphanumeric();
        push_char(&mut r, c);
        i += 1;
    }
    r
}

} // verus!

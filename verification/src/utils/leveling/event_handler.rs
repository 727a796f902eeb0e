//! Which messages earn experience, and how much the member gets.

use vstd::prelude::*;
use vstd::string::StringSliceAdditionalSpecFns;
use crate::database::leveling::{
    find_user, lemma_find_user, level_matches_xp, position_of_user, Leveling, UserLevel, UserLevelView,
};
use crate::text::texts;
use crate::utils::command_utils::contains_text;

verus! {

/// A message can earn experience when a human wrote it in a guild and it has at least
/// three bytes.
pub fn xp_eligible(author_is_bot: bool, author_is_system: bool, in_guild: bool, content: &str) -> (r: bool)
    ensures
        r == (!author_is_bot && !author_is_system && in_guild && (content.spec_bytes().len() as usize) >= 3),
{
    if author_is_bot || author_is_system {
        false
    } else if !in_guild {
        false
    } else {
        content.len() >= 3
    }
}

/// The message is in a blacklisted channel, or its author has a blacklisted role.
pub fn blacklisted(
    blacklisted_channels: &Vec<String>,
    channel_id: &str,
    blacklisted_roles: &Vec<String>,
    member_roles: &Vec<String>,
) -> (r: bool)
    ensures
        r == (texts(blacklisted_channels@).contains(channel_id@) || exists|i: int|
            0 <= i < member_roles@.len() && texts(blacklisted_roles@).contains(#[trigger] member_roles@[i]@)),
{
    if contains_text(blacklisted_channels, channel_id) {
        proof {
            let j = choose|j: int| 0 <= j < blacklisted_channels@.len() && #[trigger] blacklisted_channels@[j]@ == channel_id@;
            assert(texts(blacklisted_channels@)[j] == channel_id@);
        }
        return true;
    }
    proof {
        if texts(blacklisted_channels@).contains(channel_id@) {
            let j = choose|j: int| 0 <= j < texts(blacklisted_channels@).len() && texts(blacklisted_channels@)[j] == channel_id@;
            assert(blacklisted_channels@[j]@ == channel_id@);
        }
    }
    let mut i: usize = 0;
    while i < member_roles.len()
        invariant
            i <= member_roles.len(),
            forall|k: int| 0 <= k < i ==> !texts(blacklisted_roles@).contains(#[trigger] member_roles@[k]@),
        decreases member_roles.len() - i,
    {
        if contains_text(blacklisted_roles, member_roles[i].as_str()) {
            proof {
                let j = choose|j: int| 0 <= j < blacklisted_roles@.len() && #[trigger] blacklisted_roles@[j]@ == member_roles@[i as int]@;
                assert(texts(blacklisted_roles@)[j] == member_roles@[i as int]@);
            }
            return true;
        }
        proof {
            if texts(blacklisted_roles@).contains(member_roles@[i as int]@) {
                let j = choose|j: int| 0 <= j < texts(blacklisted_roles@).len() && texts(blacklisted_roles@)[j] == member_roles@[i as int]@;
                assert(blacklisted_roles@[j]@ == member_roles@[i as int]@);
            }
        }
        i += 1;
    }
    false
}

/// Gives the author of a message `xp` experience: the member's entry (added at level 0
/// when missing) gains the experience and gets its level; returns the levels before
/// and after.
pub fn award_message_xp(leveling: &mut Leveling, user_id: String, xp: i64) -> (r: (i64, i64))
    requires
        find_user(old(leveling)@.levels, user_id@) >= 0 ==> i64::MIN <= old(leveling)@.levels[find_user(
            old(leveling)@.levels,
            user_id@,
        )].xp + xp <= i64::MAX,
    ensures
        final(leveling)@.guild_id == old(leveling)@.guild_id,
        ({
            let before = old(leveling)@.levels;
            let after = final(leveling)@.levels;
            let i = find_user(before, user_id@);
            if i >= 0 {
                &&& after.len() == before.len()
                &&& forall|j: int| 0 <= j < before.len() && j != i ==> after[j] == before[j]
                &&& after[i].user_id == user_id@
                &&& after[i].xp == before[i].xp + xp
                &&& level_matches_xp(after[i].level as int, after[i].xp as int)
                &&& r == (before[i].level, after[i].level)
            } else {
                &&& after.len() == before.len() + 1
                &&& after.subrange(0, before.len() as int) == before
                &&& after.last().user_id == user_id@
                &&& after.last().xp == xp
                &&& level_matches_xp(after.last().level as int, xp as int)
                &&& r == (0i64, after.last().level)
            }
        }),
{
    let ghost before = leveling@.levels;
    proof {
        lemma_find_user(before, user_id@);
    }
    let (i, fresh) = match position_of_user(&leveling.levels, user_id.as_str()) {
        Some(i) => (i, false),
        None => {
            leveling.levels.push(UserLevel::new(user_id));
            (leveling.levels.len() - 1, true)
        },
    };
    let ghost mid = leveling@.levels;
    assert(mid[i as int].xp == (if fresh { 0 } else { before[i as int].xp }));
    let mut entry = leveling.levels.remove(i);
    let prev = entry.level;
    entry.add_xp(xp);
    entry.compute_level();
    let now = entry.level;
    let ghost ev = entry@;
    leveling.levels.insert(i, entry);
    proof {
        let after = leveling@.levels;
        assert(after.len() == mid.len());
        assert forall|j: int| 0 <= j < mid.len() && j != i implies after[j] == mid[j] by {
            if j < i {
                assert(after[j] == mid[j]);
            } else {
                assert(after[j] == mid[j]);
            }
        }
        assert(after[i as int] == ev);
        if !fresh {
            assert(mid =~= before);
        } else {
            assert(mid.subrange(0, before.len() as int) =~= before);
            assert(after.subrange(0, before.len() as int) =~= before);
        }
    }
    (prev, now)
}

} // verus!

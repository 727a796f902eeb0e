//! The pages of the leaderboard.

use vstd::prelude::*;
use crate::database::leveling::{UserLevel, UserLevelView};
use crate::send::{Field, FieldView};
use crate::text::{dec_digits, dec_signed, push_char, push_dec, push_dec_signed, push_str, same_text};
use crate::utils::embed_utils::{chunk, chunks_of, field_views, lemma_chunks_of_views};

verus! {

/// The field of the member at `index` (0-based) of the leaderboard, as seen by `viewer`.
pub open spec fn leaderboard_field(index: nat, u: UserLevelView, viewer: Seq<char>) -> FieldView {
    FieldView {
        name: dec_digits(index + 1) + ": Level "@ + dec_signed(u.level as int) + ", XP: "@ + dec_signed(u.xp as int),
        value: "<@"@ + u.user_id + seq!['>'] + (if u.user_id == viewer { " (You)"@ } else { Seq::empty() }),
        inline: true,
    }
}

/// The fields of the whole leaderboard, in order.
pub open spec fn leaderboard_fields(board: Seq<UserLevelView>, viewer: Seq<char>) -> Seq<FieldView> {
    Seq::new(board.len(), |i: int| leaderboard_field(i as nat, board[i], viewer))
}

/// The leaderboard in pages of twelve fields, marking the viewer's own entry.
pub fn get_leaderboard_as_embedfields(leaderboard: &Vec<UserLevel>, user_id: &str) -> (r: Vec<Vec<Field>>)
    ensures
        r@.map_values(|c: Vec<Field>| field_views(c@)) == chunks_of(
            leaderboard_fields(leaderboard@.map_values(|u: UserLevel| u@), user_id@),
            12,
        ),
{
    let ghost board = leaderboard@.map_values(|u: UserLevel| u@);
    let mut fields: Vec<Field> = Vec::new();
    let mut i: usize = 0;
    while i < leaderboard.len()
        invariant
            i <= leaderboard.len(),
            board == leaderboard@.map_values(|u: UserLevel| u@),
            field_views(fields@) == leaderboard_fields(board, user_id@).subrange(0, i as int),
        decreases leaderboard.len() - i,
    {
        let u = &leaderboard[i];
        assert(board[i as int] == u@);
        let mut name = String::new();
        push_dec(&mut name, (i + 1) as u64);
        push_str(&mut name, ": Level ");
        push_dec_signed(&mut name, u.level);
        push_str(&mut name, ", XP: ");
        push_dec_signed(&mut name, u.xp);
        let mut value = String::new();
        push_str(&mut value, "<@");
        push_str(&mut value, u.user_id.as_str());
        push_char(&mut value, '>');
        let own = same_text(u.user_id.as_str(), user_id);
        if own {
            push_str(&mut value, " (You)");
        }
        let ghost before = field_views(fields@);
        let f = Field { name, value, inline: true };
        assert(f.name@ =~= leaderboard_field(i as nat, board[i as int], user_id@).name);
        assert(f.value@ =~= leaderboard_field(i as nat, board[i as int], user_id@).value);
        assert(f@ == leaderboard_field(i as nat, board[i as int], user_id@));
        let ghost fv = f@;
        fields.push(f);
        assert(field_views(fields@) =~= before.push(fv));
        assert(leaderboard_fields(board, user_id@)[i as int] == fv);
        assert(before.push(fv) =~= leaderboard_fields(board, user_id@).subrange(0, i + 1));
        i += 1;
    }
    assert(leaderboard_fields(board, user_id@).subrange(0, leaderboard.len() as int) =~= leaderboard_fields(board, user_id@));
    let ghost flat = fields@;
    let pages = chunk(fields, 12);
    proof {
        lemma_chunks_of_views(flat, 12);
        assert(pages@.map_values(|c: Vec<Field>| field_views(c@)) =~= chunks_of(flat, 12).map_values(
            |c: Seq<Field>| field_views(c),
        ));
    }
    pages
}

} // verus!

//! Experience and levels of the members of a guild.
//!
//! A member needs `(5 * level)^2 + 50 * (level - 1) + 100` experience to leave
//! `level`; the level of a member is the number of thresholds its experience has reached.

use vstd::prelude::*;

verus! {

/// The experience needed to leave `level`.
pub open spec fn xp_required(level: int) -> int {
    (5 * level) * (5 * level) + 50 * (level - 1) + 100
}

/// `level` is the level that `xp` experience gives: every threshold below it is
/// reached and its own is not.
pub open spec fn level_matches_xp(level: int, xp: int) -> bool {
    &&& 0 <= level
    &&& level == 0 || xp_required(level - 1) <= xp
    &&& xp < xp_required(level)
}

/// One past the highest level any `i64` amount of experience reaches.
pub const LEVEL_BOUND: i64 = 607400099;

/// Higher levels need more experience.
pub proof fn lemma_xp_required_increasing(a: int, b: int)
    requires
        0 <= a < b,
    ensures
        xp_required(a) < xp_required(b),
{
    assert(25 * a * a <= 25 * b * b) by (nonlinear_arith)
        requires
            0 <= a < b,
    ;
    assert((5 * a) * (5 * a) == 25 * a * a) by (nonlinear_arith);
    assert((5 * b) * (5 * b) == 25 * b * b) by (nonlinear_arith);
}

/// An amount of experience has at most one level.
pub proof fn lemma_level_unique(l1: int, l2: int, xp: int)
    requires
        level_matches_xp(l1, xp),
        level_matches_xp(l2, xp),
    ensures
        l1 == l2,
{
    if l1 < l2 {
        if l1 < l2 - 1 {
            lemma_xp_required_increasing(l1, l2 - 1);
        }
    } else if l2 < l1 {
        if l2 < l1 - 1 {
            lemma_xp_required_increasing(l2, l1 - 1);
        }
    }
}

proof fn lemma_level_bound(level: int)
    requires
        LEVEL_BOUND <= level,
    ensures
        xp_required(level) > i64::MAX,
{
    assert(3037000495int * 3037000495int == 9223372006630245025int) by (nonlinear_arith);
    assert(xp_required(LEVEL_BOUND as int) > i64::MAX);
    if LEVEL_BOUND < level {
        lemma_xp_required_increasing(LEVEL_BOUND as int, level);
    }
}

fn required_xp_wide(level: i64) -> (r: i128)
    requires
        0 <= level <= LEVEL_BOUND,
    ensures
        r == xp_required(level as int),
{
    let l = level as i128;
    assert(0 <= (5 * l) * (5 * l) <= 25 * 607400099 * 607400099) by (nonlinear_arith)
        requires
            0 <= l <= 607400099,
    ;
    (5 * l) * (5 * l) + 50 * (l - 1) + 100
}

/// A member's place in the leveling table, as the contracts see it.
pub struct UserLevelView {
    pub user_id: Seq<char>,
    pub level: i64,
    pub xp: i64,
}

/// A member's experience and level.
#[derive(Debug, Clone)]
pub struct UserLevel {
    pub user_id: String,
    pub level: i64,
    pub xp: i64,
}

impl View for UserLevel {
    type V = UserLevelView;

    open spec fn view(&self) -> UserLevelView {
        UserLevelView { user_id: self.user_id@, level: self.level, xp: self.xp }
    }
}

impl UserLevel {
    /// A member without experience, at level 0.
    pub fn new(user_id: String) -> (r: UserLevel)
        ensures
            r.user_id@ == user_id@,
            r.level == 0,
            r.xp == 0,
    {
        UserLevel { user_id, level: 0, xp: 0 }
    }

    /// Adds `xp` experience; the level is left as it was.
    pub fn add_xp(&mut self, xp: i64)
        requires
            i64::MIN <= old(self).xp + xp <= i64::MAX,
        ensures
            final(self).xp == old(self).xp + xp,
            final(self).level == old(self).level,
            final(self).user_id@ == old(self).user_id@,
    {
        self.xp = self.xp + xp;
    }

    /// Sets the level to the one the experience gives.
    pub fn compute_level(&mut self)
        ensures
            level_matches_xp(final(self).level as int, final(self).xp as int),
            final(self).xp == old(self).xp,
            final(self).user_id@ == old(self).user_id@,
    {
        let xp = self.xp;
        let mut level: i64 = 0;
        loop
            invariant_except_break
                0 <= level <= LEVEL_BOUND,
                level == 0 || xp_required(level - 1) <= xp,
            ensures
                level_matches_xp(level as int, xp as int),
            decreases LEVEL_BOUND - level,
        {
            let required = required_xp_wide(level);
            if (xp as i128) >= required {
                proof {
                    if level >= LEVEL_BOUND {
                        lemma_level_bound(level as int);
                    }
                }
                level = level + 1;
            } else {
                break;
            }
        }
        self.level = level;
    }

    /// The experience needed to leave the current level.
    pub fn compute_xp_required(&self) -> (r: i64)
        requires
            i64::MIN <= 5 * self.level <= i64::MAX,
            (5 * self.level) * (5 * self.level) <= i64::MAX,
            i64::MIN <= 50 * (self.level - 1) <= i64::MAX,
            i64::MIN <= (5 * self.level) * (5 * self.level) + 50 * (self.level - 1) <= i64::MAX,
            (5 * self.level) * (5 * self.level) + 50 * (self.level - 1) + 100 <= i64::MAX,
        ensures
            r == xp_required(self.level as int),
    {
        let a = 5 * self.level;
        assert(a * a >= 0) by (nonlinear_arith);
        let sq = a * a;
        sq + 50 * (self.level - 1) + 100
    }
}

/// A guild's leveling table, as the contracts see it.
pub struct LevelingView {
    pub guild_id: Seq<char>,
    pub levels: Seq<UserLevelView>,
}

/// The leveling table of a guild.
#[derive(Debug, Clone)]
pub struct Leveling {
    pub guild_id: String,
    pub levels: Vec<UserLevel>,
}

impl View for Leveling {
    type V = LevelingView;

    open spec fn view(&self) -> LevelingView {
        LevelingView { guild_id: self.guild_id@, levels: self.levels@.map_values(|u: UserLevel| u@) }
    }
}

/// The index of the first entry for `id`, or -1 when there is none.
pub open spec fn find_user(levels: Seq<UserLevelView>, id: Seq<char>) -> int
    decreases levels.len(),
{
    if levels.len() == 0 {
        -1
    } else {
        let r = find_user(levels.drop_last(), id);
        if r >= 0 {
            r
        } else if levels.last().user_id == id {
            levels.len() - 1
        } else {
            -1
        }
    }
}

/// `i` is the first index of an entry for `id`.
pub open spec fn is_first_index(levels: Seq<UserLevelView>, id: Seq<char>, i: int) -> bool {
    &&& 0 <= i < levels.len()
    &&& levels[i].user_id == id
    &&& forall|j: int| 0 <= j < i ==> levels[j].user_id != id
}

/// `find_user` finds the first entry, and finds none only when there is none.
pub proof fn lemma_find_user(levels: Seq<UserLevelView>, id: Seq<char>)
    ensures
        find_user(levels, id) == -1 <==> (forall|j: int| 0 <= j < levels.len() ==> levels[j].user_id != id),
        find_user(levels, id) != -1 ==> is_first_index(levels, id, find_user(levels, id)),
    decreases levels.len(),
{
    if levels.len() > 0 {
        let prefix = levels.drop_last();
        lemma_find_user(prefix, id);
        if find_user(prefix, id) == -1 {
            assert forall|j: int| 0 <= j < levels.len() - 1 implies levels[j].user_id != id by {
                assert(prefix[j] == levels[j]);
            }
        } else {
            let i = find_user(prefix, id);
            assert(prefix[i] == levels[i]);
            assert forall|j: int| 0 <= j < i implies levels[j].user_id != id by {
                assert(prefix[j] == levels[j]);
            }
        }
    }
}

proof fn lemma_first_index_unique(levels: Seq<UserLevelView>, id: Seq<char>, i: int)
    requires
        is_first_index(levels, id, i),
    ensures
        find_user(levels, id) == i,
{
    lemma_find_user(levels, id);
    let k = find_user(levels, id);
    if k == -1 {
        assert(levels[i].user_id == id);
    } else {
        if k < i {
            assert(levels[k].user_id == id);
        } else if i < k {
            assert(levels[i].user_id == id);
        }
    }
}

/// The index of the first entry of `levels` for `id`, if any.
pub fn position_of_user(levels: &Vec<UserLevel>, id: &str) -> (r: Option<usize>)
    ensures
        match r {
            Some(i) => find_user(levels@.map_values(|u: UserLevel| u@), id@) == i,
            None => find_user(levels@.map_values(|u: UserLevel| u@), id@) == -1,
        },
{
    let ghost views = levels@.map_values(|u: UserLevel| u@);
    let mut i: usize = 0;
    while i < levels.len()
        invariant
            i <= levels.len(),
            views == levels@.map_values(|u: UserLevel| u@),
            forall|j: int| 0 <= j < i ==> views[j].user_id != id@,
        decreases levels.len() - i,
    {
        if crate::text::same_text(levels[i].user_id.as_str(), id) {
            proof {
                assert(views[i as int].user_id == id@);
                lemma_first_index_unique(views, id@, i as int);
            }
            return Some(i);
        }
        i += 1;
    }
    proof {
        lemma_find_user(views, id@);
    }
    None
}

/// A copy of an entry.
pub fn copy_user_level(u: &UserLevel) -> (r: UserLevel)
    ensures
        r@ == u@,
{
    UserLevel { user_id: u.user_id.clone(), level: u.level, xp: u.xp }
}

impl Leveling {
    /// An empty table for `guild_id`.
    pub fn new(guild_id: String) -> (r: Leveling)
        ensures
            r@.guild_id == guild_id@,
            r@.levels == Seq::<UserLevelView>::empty(),
    {
        let r = Leveling { guild_id, levels: Vec::new() };
        assert(r@.levels =~= Seq::<UserLevelView>::empty());
        r
    }

    /// Merges `user_level` into the table: an existing entry of the same member gains
    /// its experience and has its level recomputed; otherwise it is appended.
    pub fn add_user(&mut self, user_level: UserLevel)
        requires
            find_user(old(self)@.levels, user_level.user_id@) >= 0 ==> i64::MIN <= old(self)@.levels[find_user(
                old(self)@.levels,
                user_level.user_id@,
            )].xp + user_level.xp <= i64::MAX,
        ensures
            final(self)@.guild_id == old(self)@.guild_id,
            merged_into(old(self)@.levels, user_level@, final(self)@.levels),
    {
        let ghost old_views = self@.levels;
        match position_of_user(&self.levels, user_level.user_id.as_str()) {
            Some(i) => {
                proof {
                    lemma_find_user(old_views, user_level.user_id@);
                }
                let mut existing = self.levels.remove(i);
                assert(existing@ == old_views[i as int]);
                existing.add_xp(user_level.xp);
                existing.compute_level();
                self.levels.insert(i, existing);
                proof {
                    let new_views = self@.levels;
                    assert(new_views.len() == old_views.len());
                    assert forall|j: int| 0 <= j < old_views.len() && j != i implies new_views[j]
                        == old_views[j] by {
                        if j < i {
                            assert(new_views[j] == old_views[j]);
                        } else {
                            assert(new_views[j] == old_views[j]);
                        }
                    }
                    assert(new_views[i as int] == existing@);
                }
            },
            None => {
                self.levels.push(user_level);
                assert(self@.levels =~= old_views.push(user_level@));
            },
        }
    }
}

/// `after` is `before` with `u` merged in as `Leveling::add_user` merges it.
pub open spec fn merged_into(before: Seq<UserLevelView>, u: UserLevelView, after: Seq<UserLevelView>) -> bool {
    let i = find_user(before, u.user_id);
    if i >= 0 {
        &&& after.len() == before.len()
        &&& forall|j: int| 0 <= j < before.len() && j != i ==> after[j] == before[j]
        &&& after[i].user_id == before[i].user_id
        &&& after[i].xp == before[i].xp + u.xp
        &&& level_matches_xp(after[i].level as int, after[i].xp as int)
    } else {
        after == before.push(u)
    }
}

} // verus!

verus! {

/// Why a leveling query has no answer.
#[derive(Debug, Clone, Copy, PartialEq, Eq, Structural)]
pub enum LevelingError {
    /// The member has no entry in the table.
    UserNotFound,
}

/// The entry of `user_id`, or a fresh level-0 entry for the member when there is none.
pub fn get_user_leveling(leveling: &Leveling, user_id: String) -> (r: UserLevel)
    ensures
        find_user(leveling@.levels, user_id@) >= 0 ==> r@ == leveling@.levels[find_user(
            leveling@.levels,
            user_id@,
        )],
        find_user(leveling@.levels, user_id@) < 0 ==> r@ == (UserLevelView { user_id: user_id@, level: 0, xp: 0 }),
{
    match position_of_user(&leveling.levels, user_id.as_str()) {
        Some(i) => {
            proof {
                lemma_find_user(leveling@.levels, user_id@);
            }
            copy_user_level(&leveling.levels[i])
        },
        None => UserLevel::new(user_id),
    }
}

/// The level of `user_id` (0 for a member without an entry).
pub fn get_user_level(leveling: &Leveling, user_id: String) -> (r: i64)
    ensures
        r == (if find_user(leveling@.levels, user_id@) >= 0 {
            leveling@.levels[find_user(leveling@.levels, user_id@)].level
        } else {
            0
        }),
{
    get_user_leveling(leveling, user_id).level
}

/// The experience of `user_id` (0 for a member without an entry).
pub fn get_user_xp(leveling: &Leveling, user_id: String) -> (r: i64)
    ensures
        r == (if find_user(leveling@.levels, user_id@) >= 0 {
            leveling@.levels[find_user(leveling@.levels, user_id@)].xp
        } else {
            0
        }),
{
    get_user_leveling(leveling, user_id).xp
}

/// Stores `user_level` as `Leveling::add_user` merges it.
pub fn save_user_leveling(leveling: &mut Leveling, user_level: UserLevel)
    requires
        find_user(old(leveling)@.levels, user_level.user_id@) >= 0 ==> i64::MIN <= old(leveling)@.levels[find_user(
            old(leveling)@.levels,
            user_level.user_id@,
        )].xp + user_level.xp <= i64::MAX,
    ensures
        final(leveling)@.guild_id == old(leveling)@.guild_id,
        merged_into(old(leveling)@.levels, user_level@, final(leveling)@.levels),
{
    leveling.add_user(user_level);
}

/// Gives `user_id` `xp` more experience the way the bot stores it: the member's entry
/// (or a fresh one) gains `xp`, gets its level, and is then merged into the table,
/// so an existing member's previous experience is counted twice.
pub fn add_xp(leveling: &mut Leveling, user_id: String, xp: i64)
    requires
        find_user(old(leveling)@.levels, user_id@) >= 0 ==> {
            let x = old(leveling)@.levels[find_user(old(leveling)@.levels, user_id@)].xp;
            &&& i64::MIN <= x + xp <= i64::MAX
            &&& i64::MIN <= x + x + xp <= i64::MAX
        },
    ensures
        final(leveling)@.guild_id == old(leveling)@.guild_id,
        ({
            let before = old(leveling)@.levels;
            let after = final(leveling)@.levels;
            let i = find_user(before, user_id@);
            if i >= 0 {
                &&& after.len() == before.len()
                &&& forall|j: int| 0 <= j < before.len() && j != i ==> after[j] == before[j]
                &&& after[i].user_id == user_id@
                &&& after[i].xp == before[i].xp + before[i].xp + xp
                &&& level_matches_xp(after[i].level as int, after[i].xp as int)
            } else {
                &&& after.len() == before.len() + 1
                &&& after.subrange(0, before.len() as int) == before
                &&& after.last().user_id == user_id@
                &&& after.last().xp == xp
                &&& level_matches_xp(after.last().level as int, xp as int)
            }
        }),
{
    let ghost before = leveling@.levels;
    proof {
        lemma_find_user(before, user_id@);
    }
    let mut user_level = get_user_leveling(leveling, user_id);
    user_level.add_xp(xp);
    user_level.compute_level();
    let ghost u = user_level@;
    save_user_leveling(leveling, user_level);
    proof {
        if find_user(before, user_id@) < 0 {
            assert(leveling@.levels.subrange(0, before.len() as int) =~= before);
        }
    }
}

/// The number of entries with more than `xp` experience.
pub open spec fn count_above(levels: Seq<UserLevelView>, xp: i64) -> nat
    decreases levels.len(),
{
    if levels.len() == 0 {
        0
    } else {
        count_above(levels.drop_last(), xp) + (if levels.last().xp > xp { 1nat } else { 0nat })
    }
}

proof fn lemma_count_above_bound(levels: Seq<UserLevelView>, xp: i64)
    ensures
        count_above(levels, xp) <= levels.len(),
    decreases levels.len(),
{
    if levels.len() > 0 {
        lemma_count_above_bound(levels.drop_last(), xp);
    }
}

/// The rank of `user_id`: one more than the number of entries with more experience.
pub fn get_user_rank(leveling: &Leveling, user_id: String) -> (r: Result<i64, LevelingError>)
    requires
        leveling.levels.len() < i64::MAX,
    ensures
        find_user(leveling@.levels, user_id@) < 0 ==> r == Err::<i64, LevelingError>(LevelingError::UserNotFound),
        find_user(leveling@.levels, user_id@) >= 0 ==> r == Ok::<i64, LevelingError>(
            (count_above(leveling@.levels, leveling@.levels[find_user(leveling@.levels, user_id@)].xp) + 1) as i64,
        ),
{
    let ghost views = leveling@.levels;
    let i = match position_of_user(&leveling.levels, user_id.as_str()) {
        Some(i) => i,
        None => {
            return Err(LevelingError::UserNotFound);
        },
    };
    proof {
        lemma_find_user(views, user_id@);
    }
    let xp = leveling.levels[i].xp;
    let mut count: u64 = 0;
    let mut k: usize = 0;
    while k < leveling.levels.len()
        invariant
            k <= leveling.levels.len(),
            leveling.levels.len() < i64::MAX,
            views == leveling@.levels,
            count == count_above(views.subrange(0, k as int), xp),
            count <= k,
        decreases leveling.levels.len() - k,
    {
        assert(views.subrange(0, k + 1).drop_last() =~= views.subrange(0, k as int));
        if leveling.levels[k].xp > xp {
            count = count + 1;
        }
        k += 1;
    }
    assert(views.subrange(0, views.len() as int) =~= views);
    Ok((count + 1) as i64)
}

/// Where `insert_by_xp` puts a new entry: after every entry with at least its experience
/// that comes before the first entry with less.
pub open spec fn insert_by_xp(sorted: Seq<UserLevelView>, u: UserLevelView) -> Seq<UserLevelView>
    decreases sorted.len(),
{
    if sorted.len() == 0 {
        seq![u]
    } else if sorted[0].xp >= u.xp {
        seq![sorted[0]] + insert_by_xp(sorted.drop_first(), u)
    } else {
        seq![u] + sorted
    }
}

/// The entries ordered by experience, most first, keeping the table's order among
/// equal experience (a stable sort).
pub open spec fn sort_by_xp_desc(levels: Seq<UserLevelView>) -> Seq<UserLevelView>
    decreases levels.len(),
{
    if levels.len() == 0 {
        Seq::empty()
    } else {
        insert_by_xp(sort_by_xp_desc(levels.drop_last()), levels.last())
    }
}

proof fn lemma_insert_at(t: Seq<UserLevelView>, u: UserLevelView, p: int)
    requires
        0 <= p <= t.len(),
        forall|j: int| 0 <= j < p ==> t[j].xp >= u.xp,
        p == t.len() || t[p].xp < u.xp,
    ensures
        insert_by_xp(t, u) == t.insert(p, u),
    decreases t.len(),
{
    if t.len() == 0 {
        assert(t.insert(p, u) =~= seq![u]);
    } else if p == 0 {
        assert(t.insert(p, u) =~= seq![u] + t);
    } else {
        let rest = t.drop_first();
        assert forall|j: int| 0 <= j < p - 1 implies rest[j].xp >= u.xp by {
            assert(rest[j] == t[j + 1]);
        }
        if p - 1 < rest.len() {
            assert(rest[p - 1] == t[p]);
        }
        lemma_insert_at(rest, u, p - 1);
        assert(t.insert(p, u) =~= seq![t[0]] + rest.insert(p - 1, u));
    }
}

/// The table ordered by experience, most first; members with equal experience keep
/// their order.
pub fn get_leaderboard(leveling: Leveling) -> (r: Vec<UserLevel>)
    ensures
        r@.map_values(|u: UserLevel| u@) == sort_by_xp_desc(leveling@.levels),
{
    let ghost all = leveling@.levels;
    let mut rest = leveling.levels;
    let mut sorted: Vec<UserLevel> = Vec::new();
    let ghost mut taken: int = 0;
    assert(sorted@.map_values(|u: UserLevel| u@) =~= sort_by_xp_desc(all.subrange(0, 0)));
    while rest.len() > 0
        invariant
            0 <= taken <= all.len(),
            rest@.map_values(|u: UserLevel| u@) == all.subrange(taken, all.len() as int),
            sorted@.map_values(|u: UserLevel| u@) == sort_by_xp_desc(all.subrange(0, taken)),
        decreases rest.len(),
    {
        let ghost before = sorted@.map_values(|u: UserLevel| u@);
        let ghost rv = rest@.map_values(|u: UserLevel| u@);
        assert(rv.len() == rest@.len());
        assert(rv[0] == rest@[0]@);
        assert(rv[0] == all[taken]);
        let ghost old_rest = rest@;
        let u = rest.remove(0);
        assert(u@ == all[taken]);
        let mut p: usize = 0;
        while p < sorted.len() && sorted[p].xp >= u.xp
            invariant
                p <= sorted.len(),
                before == sorted@.map_values(|u: UserLevel| u@),
                forall|j: int| 0 <= j < p ==> before[j].xp >= u.xp,
            decreases sorted.len() - p,
        {
            p += 1;
        }
        proof {
            lemma_insert_at(before, u@, p as int);
            assert(all.subrange(0, taken + 1).drop_last() =~= all.subrange(0, taken));
            assert(all.subrange(0, taken + 1).last() == u@);
            assert forall|k: int| 0 <= k < rest@.len() implies #[trigger] rest@[k]@ == all[taken + 1 + k] by {
                assert(rest@[k] == old_rest[k + 1]);
                assert(rv[k + 1] == old_rest[k + 1]@);
            }
            assert(rest@.map_values(|u: UserLevel| u@) =~= all.subrange(taken + 1, all.len() as int));
        }
        let ghost uv = u@;
        sorted.insert(p, u);
        assert(sorted@.map_values(|u: UserLevel| u@) =~= before.insert(p as int, uv));
        proof {
            taken = taken + 1;
        }
    }
    assert(all.subrange(0, taken) =~= all);
    sorted
}

} // verus!

verus! {

/// The entries `Iterator::skip(start).take(end)` keeps of `board`, where a negative
/// `start` or `end` stands for a count beyond any length (as its cast to `usize` does).
pub open spec fn page_of(board: Seq<UserLevelView>, start: int, end: int) -> Seq<UserLevelView> {
    let from = if start < 0 || start > board.len() { board.len() as int } else { start };
    let to = if end < 0 || from + end > board.len() { board.len() as int } else { from + end };
    board.subrange(from, to)
}

/// A page of the leaderboard as the bot cuts it: it skips `(page - 1) * page_size`
/// entries and then keeps up to `page * page_size` entries.
pub fn get_leaderboard_page(leveling: Leveling, page: i64, page_size: i64) -> (r: Vec<UserLevel>)
    requires
        i64::MIN <= page - 1,
        i64::MIN <= (page - 1) * page_size <= i64::MAX,
        i64::MIN <= (page - 1) * page_size + page_size <= i64::MAX,
    ensures
        r@.map_values(|u: UserLevel| u@) == page_of(
            sort_by_xp_desc(leveling@.levels),
            (page - 1) * page_size,
            (page - 1) * page_size + page_size,
        ),
{
    let start = (page - 1) * page_size;
    let end = start + page_size;
    let mut board = get_leaderboard(leveling);
    let ghost all = board@.map_values(|u: UserLevel| u@);
    let len = board.len();
    let from: usize = if start < 0 || (start as u64) > (len as u64) { len } else { start as usize };
    let to: usize = if end < 0 || (end as u64) > ((len - from) as u64) { len } else { from + end as usize };
    let mut tail = board.split_off(from);
    let _ = tail.split_off(to - from);
    assert(tail@.map_values(|u: UserLevel| u@) =~= all.subrange(from as int, to as int));
    tail
}

/// Merging keeps the member ids of a table distinct.
pub proof fn lemma_add_user_keeps_ids_distinct(
    before: Seq<UserLevelView>,
    u: UserLevelView,
    after: Seq<UserLevelView>,
)
    requires
        forall|a: int, b: int| 0 <= a < b < before.len() ==> before[a].user_id != before[b].user_id,
        merged_into(before, u, after),
    ensures
        forall|a: int, b: int| 0 <= a < b < after.len() ==> after[a].user_id != after[b].user_id,
{
    lemma_find_user(before, u.user_id);
    let i = find_user(before, u.user_id);
    if i >= 0 {
        assert forall|a: int, b: int| 0 <= a < b < after.len() implies after[a].user_id != after[b].user_id by {
            assert(after[a].user_id == before[a].user_id);
            assert(after[b].user_id == before[b].user_id);
        }
    } else {
        assert forall|a: int, b: int| 0 <= a < b < after.len() implies after[a].user_id != after[b].user_id by {
            if b == before.len() {
                assert(after[a] == before[a]);
            } else {
                assert(after[a] == before[a]);
                assert(after[b] == before[b]);
            }
        }
    }
}

/// The member ids that have an entry in a table.
pub open spec fn user_ids(levels: Seq<UserLevelView>) -> Set<Seq<char>> {
    Set::new(|id: Seq<char>| exists|j: int| 0 <= j < levels.len() && #[trigger] levels[j].user_id == id)
}

/// The experience of all entries of a table, summed.
pub open spec fn total_xp(levels: Seq<UserLevelView>) -> int
    decreases levels.len(),
{
    if levels.len() == 0 {
        0
    } else {
        total_xp(levels.drop_last()) + levels.last().xp
    }
}

proof fn lemma_total_xp_update(before: Seq<UserLevelView>, after: Seq<UserLevelView>, i: int)
    requires
        before.len() == after.len(),
        0 <= i < before.len(),
        forall|j: int| 0 <= j < before.len() && j != i ==> after[j] == before[j],
    ensures
        total_xp(after) == total_xp(before) - before[i].xp + after[i].xp,
    decreases before.len(),
{
    let n = before.len();
    if i == n - 1 {
        assert(after.drop_last() =~= before.drop_last());
    } else {
        lemma_total_xp_update(before.drop_last(), after.drop_last(), i);
    }
}

/// Merging an entry keeps every member id of the table and adds the merged member's,
/// adds exactly the merged experience to the table's total, and grows the table by
/// one entry exactly when the member had none.
pub proof fn lemma_add_user_totals(before: Seq<UserLevelView>, u: UserLevelView, after: Seq<UserLevelView>)
    requires
        merged_into(before, u, after),
    ensures
        user_ids(after) == user_ids(before).insert(u.user_id),
        total_xp(after) == total_xp(before) + u.xp,
        after.len() == before.len() + (if find_user(before, u.user_id) >= 0 { 0int } else { 1int }),
{
    lemma_find_user(before, u.user_id);
    let i = find_user(before, u.user_id);
    if i >= 0 {
        assert forall|j: int| 0 <= j < before.len() implies after[j].user_id == before[j].user_id by {
            if j != i {
                assert(after[j] == before[j]);
            }
        }
        assert forall|id: Seq<char>| user_ids(after).contains(id) <==> user_ids(before).insert(u.user_id).contains(id) by {
            if user_ids(after).contains(id) {
                let j = choose|j: int| 0 <= j < after.len() && #[trigger] after[j].user_id == id;
                assert(before[j].user_id == id);
            }
            if user_ids(before).insert(u.user_id).contains(id) {
                if id == u.user_id {
                    assert(after[i].user_id == id);
                } else {
                    let j = choose|j: int| 0 <= j < before.len() && #[trigger] before[j].user_id == id;
                    assert(after[j].user_id == id);
                }
            }
        }
        assert(user_ids(after) =~= user_ids(before).insert(u.user_id));
        lemma_total_xp_update(before, after, i);
    } else {
        assert(after.drop_last() =~= before);
        assert forall|id: Seq<char>| user_ids(after).contains(id) <==> user_ids(before).insert(u.user_id).contains(id) by {
            if user_ids(after).contains(id) {
                let j = choose|j: int| 0 <= j < after.len() && #[trigger] after[j].user_id == id;
                if j < before.len() {
                    assert(before[j].user_id == id);
                }
            }
            if user_ids(before).insert(u.user_id).contains(id) {
                if id == u.user_id {
                    assert(after[before.len() as int].user_id == id);
                } else {
                    let j = choose|j: int| 0 <= j < before.len() && #[trigger] before[j].user_id == id;
                    assert(after[j].user_id == id);
                }
            }
        }
        assert(user_ids(after) =~= user_ids(before).insert(u.user_id));
    }
}

/// Merging an entry whose level fits its experience keeps every level of the table
/// fitting its experience.
pub proof fn lemma_add_user_keeps_levels_consistent(
    before: Seq<UserLevelView>,
    u: UserLevelView,
    after: Seq<UserLevelView>,
)
    requires
        forall|a: int| 0 <= a < before.len() ==> level_matches_xp(before[a].level as int, before[a].xp as int),
        level_matches_xp(u.level as int, u.xp as int),
        merged_into(before, u, after),
    ensures
        forall|a: int| 0 <= a < after.len() ==> level_matches_xp(after[a].level as int, after[a].xp as int),
{
    let i = find_user(before, u.user_id);
    if i < 0 {
        assert forall|a: int| 0 <= a < after.len() implies level_matches_xp(after[a].level as int, after[a].xp as int) by {
            if a < before.len() {
                assert(after[a] == before[a]);
            }
        }
    }
}

proof fn lemma_insert_sorted(t: Seq<UserLevelView>, u: UserLevelView)
    requires
        forall|a: int, b: int| 0 <= a < b < t.len() ==> t[a].xp >= t[b].xp,
    ensures
        insert_by_xp(t, u).len() == t.len() + 1,
        insert_by_xp(t, u).to_multiset() == t.to_multiset().insert(u),
        forall|a: int, b: int| 0 <= a < b < insert_by_xp(t, u).len() ==> insert_by_xp(t, u)[a].xp >= insert_by_xp(t, u)[b].xp,
        forall|a: int| 0 <= a < insert_by_xp(t, u).len() ==> (insert_by_xp(t, u)[a] == u || t.contains(insert_by_xp(t, u)[a])),
    decreases t.len(),
{
    broadcast use vstd::seq_lib::group_to_multiset_ensures;
    let r = insert_by_xp(t, u);
    if t.len() == 0 {
        assert(r =~= seq![u]);
        assert(seq![u] =~= Seq::<UserLevelView>::empty().push(u));
    } else if t[0].xp >= u.xp {
        let rest = t.drop_first();
        lemma_insert_sorted(rest, u);
        let ri = insert_by_xp(rest, u);
        assert(r =~= seq![t[0]] + ri);
        assert(t =~= seq![t[0]] + rest);
        vstd::seq_lib::lemma_multiset_commutative(seq![t[0]], ri);
        vstd::seq_lib::lemma_multiset_commutative(seq![t[0]], rest);
        assert forall|a: int, b: int| 0 <= a < b < r.len() implies r[a].xp >= r[b].xp by {
            if a == 0 {
                assert(r[b] == ri[b - 1]);
                if ri[b - 1] != u {
                    let k = choose|k: int| 0 <= k < rest.len() && rest[k] == ri[b - 1];
                    assert(rest[k] == t[k + 1]);
                }
            } else {
                assert(r[a] == ri[a - 1]);
                assert(r[b] == ri[b - 1]);
            }
        }
        assert forall|a: int| 0 <= a < r.len() implies (r[a] == u || t.contains(r[a])) by {
            if a == 0 {
                assert(t[0] == r[0]);
            } else {
                assert(r[a] == ri[a - 1]);
                if ri[a - 1] != u {
                    let k = choose|k: int| 0 <= k < rest.len() && rest[k] == ri[a - 1];
                    assert(t[k + 1] == rest[k]);
                }
            }
        }
    } else {
        assert(r =~= seq![u] + t);
        vstd::seq_lib::lemma_multiset_commutative(seq![u], t);
        assert(seq![u] =~= Seq::<UserLevelView>::empty().push(u));
        assert forall|a: int, b: int| 0 <= a < b < r.len() implies r[a].xp >= r[b].xp by {
            if a == 0 {
                assert(r[b] == t[b - 1]);
                if b - 1 > 0 {
                    assert(t[0].xp >= t[b - 1].xp);
                }
            } else {
                assert(r[a] == t[a - 1]);
                assert(r[b] == t[b - 1]);
            }
        }
        assert forall|a: int| 0 <= a < r.len() implies (r[a] == u || t.contains(r[a])) by {
            if a > 0 {
                assert(r[a] == t[a - 1]);
            }
        }
    }
}

/// The leaderboard is ordered by experience, most first, and holds exactly the
/// entries of the table.
pub proof fn lemma_leaderboard_sorted_permutation(levels: Seq<UserLevelView>)
    ensures
        sort_by_xp_desc(levels).len() == levels.len(),
        sort_by_xp_desc(levels).to_multiset() == levels.to_multiset(),
        forall|a: int, b: int| 0 <= a < b < levels.len() ==> sort_by_xp_desc(levels)[a].xp >= sort_by_xp_desc(levels)[b].xp,
    decreases levels.len(),
{
    broadcast use vstd::seq_lib::group_to_multiset_ensures;
    if levels.len() == 0 {
        assert(sort_by_xp_desc(levels) =~= levels);
    } else {
        let prev = levels.drop_last();
        lemma_leaderboard_sorted_permutation(prev);
        lemma_insert_sorted(sort_by_xp_desc(prev), levels.last());
        assert(levels =~= prev.push(levels.last()));
    }
}

proof fn lemma_count_above_append(s1: Seq<UserLevelView>, s2: Seq<UserLevelView>, xp: i64)
    ensures
        count_above(s1 + s2, xp) == count_above(s1, xp) + count_above(s2, xp),
    decreases s2.len(),
{
    if s2.len() == 0 {
        assert(s1 + s2 =~= s1);
    } else {
        lemma_count_above_append(s1, s2.drop_last(), xp);
        assert((s1 + s2).drop_last() =~= s1 + s2.drop_last());
        assert((s1 + s2).last() == s2.last());
    }
}

proof fn lemma_count_above_single(u: UserLevelView, xp: i64)
    ensures
        count_above(seq![u], xp) == (if u.xp > xp { 1nat } else { 0nat }),
{
    assert(seq![u].drop_last() =~= Seq::<UserLevelView>::empty());
    assert(count_above(seq![u].drop_last(), xp) == 0);
    assert(seq![u].last() == u);
}

proof fn lemma_count_above_insert(t: Seq<UserLevelView>, u: UserLevelView, xp: i64)
    ensures
        count_above(insert_by_xp(t, u), xp) == count_above(t, xp) + (if u.xp > xp { 1nat } else { 0nat }),
    decreases t.len(),
{
    lemma_count_above_single(u, xp);
    if t.len() == 0 {
        assert(insert_by_xp(t, u) =~= seq![u]);
        assert(count_above(t, xp) == 0);
    } else if t[0].xp >= u.xp {
        let rest = t.drop_first();
        lemma_count_above_insert(rest, u, xp);
        lemma_count_above_append(seq![t[0]], insert_by_xp(rest, u), xp);
        lemma_count_above_append(seq![t[0]], rest, xp);
        assert(t =~= seq![t[0]] + rest);
    } else {
        lemma_count_above_append(seq![u], t, xp);
    }
}

proof fn lemma_count_above_sorted(levels: Seq<UserLevelView>, xp: i64)
    ensures
        count_above(sort_by_xp_desc(levels), xp) == count_above(levels, xp),
    decreases levels.len(),
{
    if levels.len() > 0 {
        lemma_count_above_sorted(levels.drop_last(), xp);
        lemma_count_above_insert(sort_by_xp_desc(levels.drop_last()), levels.last(), xp);
    }
}

proof fn lemma_count_above_all(s: Seq<UserLevelView>, xp: i64)
    requires
        forall|a: int| 0 <= a < s.len() ==> s[a].xp > xp,
    ensures
        count_above(s, xp) == s.len(),
    decreases s.len(),
{
    if s.len() > 0 {
        lemma_count_above_all(s.drop_last(), xp);
    }
}

/// The rank command and the leaderboard agree: the member at place `i` (from 0) of the
/// leaderboard has a rank of at most `i + 1`, and exactly `i + 1` when the member
/// above has more experience; members with equal experience share the rank of the
/// first of them.
pub proof fn lemma_rank_matches_leaderboard(levels: Seq<UserLevelView>, i: int)
    requires
        0 <= i < levels.len(),
    ensures
        count_above(levels, sort_by_xp_desc(levels)[i].xp) + 1 <= i + 1,
        (i == 0 || sort_by_xp_desc(levels)[i - 1].xp > sort_by_xp_desc(levels)[i].xp) ==> count_above(
            levels,
            sort_by_xp_desc(levels)[i].xp,
        ) + 1 == i + 1,
{
    let b = sort_by_xp_desc(levels);
    lemma_leaderboard_sorted_permutation(levels);
    let x = b[i].xp;
    let head = b.subrange(0, i);
    let tail = b.subrange(i, b.len() as int);
    assert(b =~= head + tail);
    lemma_count_above_append(head, tail, x);
    assert forall|a: int| 0 <= a < tail.len() implies tail[a].xp <= x by {
        assert(tail[a] == b[i + a]);
        if a > 0 {
            assert(b[i].xp >= b[i + a].xp);
        }
    }
    lemma_top_member_rank_one(tail, x);
    lemma_count_above_bound(head, x);
    if i == 0 || b[i - 1].xp > x {
        assert forall|a: int| 0 <= a < head.len() implies head[a].xp > x by {
            assert(head[a] == b[a]);
            if a < i - 1 {
                assert(b[a].xp >= b[i - 1].xp);
            }
        }
        lemma_count_above_all(head, x);
    }
    lemma_count_above_sorted(levels, x);
}

/// A member with the most experience of the table has rank 1.
pub proof fn lemma_top_member_rank_one(levels: Seq<UserLevelView>, xp: i64)
    requires
        forall|a: int| 0 <= a < levels.len() ==> levels[a].xp <= xp,
    ensures
        count_above(levels, xp) == 0,
    decreases levels.len(),
{
    if levels.len() > 0 {
        lemma_top_member_rank_one(levels.drop_last(), xp);
    }
}

} // verus!

verus! {

/// Recomputes the level of every entry from its experience.
pub fn recompute_levels(leveling: &mut Leveling)
    ensures
        final(leveling)@.guild_id == old(leveling)@.guild_id,
        final(leveling)@.levels.len() == old(leveling)@.levels.len(),
        forall|j: int| 0 <= j < old(leveling)@.levels.len() ==> {
            &&& #[trigger] final(leveling)@.levels[j].user_id == old(leveling)@.levels[j].user_id
            &&& final(leveling)@.levels[j].xp == old(leveling)@.levels[j].xp
            &&& level_matches_xp(final(leveling)@.levels[j].level as int, final(leveling)@.levels[j].xp as int)
        },
{
    let ghost start = leveling@.levels;
    let n = leveling.levels.len();
    let mut i: usize = 0;
    while i < n
        invariant
            i <= n,
            n == start.len(),
            leveling@.guild_id == old(leveling)@.guild_id,
            start == old(leveling)@.levels,
            leveling@.levels.len() == n,
            forall|j: int| 0 <= j < n ==> (#[trigger] leveling@.levels[j]).user_id == start[j].user_id
                && leveling@.levels[j].xp == start[j].xp,
            forall|j: int| 0 <= j < i ==> level_matches_xp((#[trigger] leveling@.levels[j]).level as int, leveling@.levels[j].xp as int),
        decreases n - i,
    {
        let ghost before = leveling@.levels;
        let mut entry = leveling.levels.remove(i);
        assert(entry@ == before[i as int]);
        entry.compute_level();
        let ghost ev = entry@;
        leveling.levels.insert(i, entry);
        assert forall|j: int| 0 <= j < n && j != i implies leveling@.levels[j] == before[j] by {
            if j < i {
                assert(leveling@.levels[j] == before[j]);
            } else {
                assert(leveling@.levels[j] == before[j]);
            }
        }
        assert(leveling@.levels[i as int] == ev);
        assert forall|j: int| 0 <= j < n implies (#[trigger] leveling@.levels[j]).user_id == start[j].user_id
            && leveling@.levels[j].xp == start[j].xp && (j < i + 1 ==> level_matches_xp(leveling@.levels[j].level as int, leveling@.levels[j].xp as int)) by {
            if j != i {
                assert(leveling@.levels[j] == before[j]);
                assert(before[j].user_id == start[j].user_id);
            } else {
                assert(before[j].user_id == start[j].user_id);
                assert(ev.user_id == before[j].user_id);
                assert(ev.xp == before[j].xp);
            }
        }
        i += 1;
    }
}

/// The stored table of a guild, or a new empty one when none is stored; the flag says
/// whether the table is new and must be saved.
pub fn leveling_or_new(stored: Option<Leveling>, guild_id: String) -> (r: (Leveling, bool))
    ensures
        match stored {
            Some(l) => r.0@ == l@ && !r.1,
            None => r.0@.guild_id == guild_id@ && r.0@.levels.len() == 0 && r.1,
        },
{
    match stored {
        Some(l) => (l, false),
        None => (Leveling::new(guild_id), true),
    }
}

} // verus!

verus! {

/// More experience never means a lower level.
pub proof fn lemma_level_monotone(l1: int, x1: int, l2: int, x2: int)
    requires
        level_matches_xp(l1, x1),
        level_matches_xp(l2, x2),
        x1 <= x2,
    ensures
        l1 <= l2,
{
    if l2 < l1 {
        if l2 < l1 - 1 {
            lemma_xp_required_increasing(l2, l1 - 1);
        }
    }
}

} // verus!

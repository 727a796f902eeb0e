//! Rate limiting of the messages that earn experience.

use std::time::Duration;
use std::time::Instant;
use vstd::prelude::*;

verus! {

#[verifier::external_type_specification]
#[verifier::external_body]
pub struct ExInstant(Instant);

/// `Instant::now`: a reading of the monotonic clock.
#[verifier::external_body]
fn clock_now() -> Instant {
    Instant::now()
}

/// `Instant::elapsed`: the time since `origin`, read from the clock.
#[verifier::external_body]
fn time_since(origin: &Instant) -> Duration {
    origin.elapsed()
}

/// The total nanoseconds a `Duration` holds, as `Duration::as_nanos` returns them.
pub uninterp spec fn duration_total_nanos(d: Duration) -> u128;

/// `Duration::as_nanos`: the length of `d` in nanoseconds, a function of `d` alone.
#[verifier::external_body]
fn duration_nanos(d: &Duration) -> (r: u128)
    ensures
        r == duration_total_nanos(*d),
{
    d.as_nanos()
}

/// `later.duration_since(earlier)` in nanoseconds: zero when `earlier` is later.
pub open spec fn elapsed(later: u128, earlier: u128) -> int {
    if later >= earlier { later - earlier } else { 0 }
}

/// The timestamps of `s` less than `window` nanoseconds before `now`, in order.
pub open spec fn recent(s: Seq<u128>, now: u128, window: u128) -> Seq<u128>
    decreases s.len(),
{
    if s.len() == 0 {
        Seq::empty()
    } else {
        let prev = recent(s.drop_last(), now, window);
        if elapsed(now, s.last()) < window { prev.push(s.last()) } else { prev }
    }
}

proof fn lemma_recent_len(s: Seq<u128>, now: u128, window: u128)
    ensures
        recent(s, now, window).len() <= s.len(),
    decreases s.len(),
{
    if s.len() > 0 {
        lemma_recent_len(s.drop_last(), now, window);
    }
}

/// The index of the entry for `key`, or -1.
pub open spec fn entry_index(keys: Seq<Seq<char>>, key: Seq<char>) -> int
    decreases keys.len(),
{
    if keys.len() == 0 {
        -1
    } else if keys.last() == key {
        keys.len() - 1
    } else {
        entry_index(keys.drop_last(), key)
    }
}

proof fn lemma_entry_index(keys: Seq<Seq<char>>, key: Seq<char>)
    ensures
        -1 <= entry_index(keys, key) < keys.len(),
        entry_index(keys, key) >= 0 ==> keys[entry_index(keys, key)] == key,
        entry_index(keys, key) == -1 <==> forall|j: int| 0 <= j < keys.len() ==> keys[j] != key,
    decreases keys.len(),
{
    if keys.len() > 0 {
        let p = keys.drop_last();
        lemma_entry_index(p, key);
        assert forall|j: int| 0 <= j < keys.len() - 1 implies p[j] == keys[j] by {}
        if entry_index(p, key) >= 0 {
            assert(p[entry_index(p, key)] == keys[entry_index(p, key)]);
        }
    }
}

proof fn lemma_entry_index_distinct(keys: Seq<Seq<char>>, key: Seq<char>, i: int)
    requires
        0 <= i < keys.len(),
        keys[i] == key,
        forall|a: int, b: int| 0 <= a < b < keys.len() ==> keys[a] != keys[b],
    ensures
        entry_index(keys, key) == i,
{
    lemma_entry_index(keys, key);
    let k = entry_index(keys, key);
    if k != i {
        if k < i {
            assert(keys[k] != keys[i]);
        } else {
            assert(keys[i] != keys[k]);
        }
    }
}

/// How many messages the shared tracker allows per time frame.
pub const MESSAGE_LIMIT: usize = 5;

/// The time frame of the shared tracker, in nanoseconds: ten seconds.
pub const TIME_FRAME_NANOS: u128 = 10_000_000_000;

/// Counts recent messages per user and flags users who send more than allowed.
pub struct AntiSpam {
    origin: Instant,
    user_messages: Vec<(String, Vec<u128>)>,
    message_limit: usize,
    time_frame: u128,
}

impl AntiSpam {
    /// The user ids that have an entry, in order.
    pub closed spec fn keys(&self) -> Seq<Seq<char>> {
        self.user_messages@.map_values(|e: (String, Vec<u128>)| e.0@)
    }

    /// The timestamps (nanoseconds since creation) recorded for `user`.
    pub closed spec fn recorded(&self, user: Seq<char>) -> Seq<u128> {
        let i = entry_index(self.keys(), user);
        if i >= 0 {
            self.user_messages@[i].1@
        } else {
            Seq::empty()
        }
    }

    /// How many recent messages are allowed.
    pub closed spec fn limit(&self) -> nat {
        self.message_limit as nat
    }

    /// How long, in nanoseconds, a message counts as recent.
    pub closed spec fn window(&self) -> u128 {
        self.time_frame
    }

    /// Each user has at most one entry.
    pub closed spec fn wf(&self) -> bool {
        forall|a: int, b: int| 0 <= a < b < self.keys().len() ==> self.keys()[a] != self.keys()[b]
    }

    /// A tracker allowing `message_limit` messages per `time_frame`, with nothing recorded.
    pub fn new(message_limit: usize, time_frame: Duration) -> (r: AntiSpam)
        ensures
            r.wf(),
            r.limit() == message_limit,
            r.window() == duration_total_nanos(time_frame),
            forall|u: Seq<char>| r.recorded(u) == Seq::<u128>::empty(),
    {
        let nanos = duration_nanos(&time_frame);
        Self::with_window_nanos(message_limit, nanos)
    }

    /// A tracker allowing `message_limit` messages per `window_nanos` nanoseconds,
    /// with nothing recorded.
    pub fn with_window_nanos(message_limit: usize, window_nanos: u128) -> (r: AntiSpam)
        ensures
            r.wf(),
            r.limit() == message_limit,
            r.window() == window_nanos,
            forall|u: Seq<char>| r.recorded(u) == Seq::<u128>::empty(),
    {
        let r = AntiSpam {
            origin: clock_now(),
            user_messages: Vec::new(),
            message_limit,
            time_frame: window_nanos,
        };
        assert(r.keys() =~= Seq::<Seq<char>>::empty());
        r
    }

    /// The tracker the bot shares between all messages that earn experience: five
    /// messages per ten seconds, with nothing recorded.
    pub fn shared() -> (r: AntiSpam)
        ensures
            r.wf(),
            r.limit() == MESSAGE_LIMIT,
            r.window() == TIME_FRAME_NANOS,
            forall|u: Seq<char>| r.recorded(u) == Seq::<u128>::empty(),
    {
        Self::with_window_nanos(MESSAGE_LIMIT, TIME_FRAME_NANOS)
    }

    /// The index of the entry of `user_id`, if it has one.
    fn position(&self, user_id: &str) -> (r: Option<usize>)
        requires
            self.wf(),
        ensures
            match r {
                Some(i) => i < self.user_messages@.len() && entry_index(self.keys(), user_id@) == i,
                None => entry_index(self.keys(), user_id@) == -1,
            },
    {
        let ghost keys = self.keys();
        let mut idx: usize = 0;
        while idx < self.user_messages.len()
            invariant
                idx <= self.user_messages.len(),
                keys == self.keys(),
                self.wf(),
                forall|j: int| 0 <= j < idx ==> keys[j] != user_id@,
            decreases self.user_messages.len() - idx,
        {
            if crate::text::same_text(self.user_messages[idx].0.as_str(), user_id) {
                assert(keys[idx as int] == self.user_messages@[idx as int].0@);
                proof {
                    lemma_entry_index_distinct(keys, user_id@, idx as int);
                }
                return Some(idx);
            }
            idx += 1;
        }
        proof {
            lemma_entry_index(keys, user_id@);
        }
        None
    }

    /// The latest time recorded for `user_id`, 0 when there is none.
    fn last_time(&self, user_id: &str) -> (r: u128)
        requires
            self.wf(),
        ensures
            r == latest_of(self.recorded(user_id@)),
    {
        match self.position(user_id) {
            None => 0,
            Some(i) => {
                let times = &self.user_messages[i].1;
                assert(self.recorded(user_id@) == times@);
                let mut latest: u128 = 0;
                let mut k: usize = 0;
                while k < times.len()
                    invariant
                        k <= times.len(),
                        latest == latest_of(times@.subrange(0, k as int)),
                    decreases times.len() - k,
                {
                    assert(times@.subrange(0, k + 1).drop_last() =~= times@.subrange(0, k as int));
                    if times[k] > latest {
                        latest = times[k];
                    }
                    k += 1;
                }
                assert(times@.subrange(0, times.len() as int) =~= times@);
                latest
            },
        }
    }

    /// Determines whether the user is spamming, using the current time.
    ///
    /// It calculates it based on `message_limit` and `time_frame` given on `AntiSpam`.
    /// The time used is the clock's elapsed time since the tracker was created, in
    /// nanoseconds (`Instant::elapsed`, then `Duration::as_nanos`); the clock is
    /// monotonic, so where that reading is behind a message already recorded for the
    /// user, the time of that message is used.
    pub fn is_spamming(&mut self, user_id: &str) -> (r: bool)
        requires
            old(self).wf(),
        ensures
            exists|now: u128|
                (forall|k: int| 0 <= k < old(self).recorded(user_id@).len() ==> #[trigger] old(self).recorded(user_id@)[k] <= now)
                && spam_step(*old(self), *final(self), user_id@, now, r),
            exists|elapsed: Duration|
                spam_step(*old(self), *final(self), user_id@, clamped_now(#[trigger] duration_total_nanos(elapsed), old(self).recorded(user_id@)), r),
    {
        let since = time_since(&self.origin);
        let clock = duration_nanos(&since);
        let latest = self.last_time(user_id);
        let now = if clock < latest { latest } else { clock };
        let ghost before = *self;
        proof {
            lemma_latest_of_bounds(before.recorded(user_id@));
        }
        let r = self.is_spamming_at(user_id, now);
        assert(forall|k: int| 0 <= k < before.recorded(user_id@).len() ==> #[trigger] before.recorded(user_id@)[k] <= now);
        assert(spam_step(before, *self, user_id@, now, r));
        assert(now == clamped_now(duration_total_nanos(since), before.recorded(user_id@)));
        r
    }

    /// Determines whether the user is spamming at time `now` (nanoseconds since the
    /// tracker was created): messages older than the time frame are forgotten; when
    /// the user still has `message_limit` recent messages this one is refused and not
    /// recorded, otherwise it is recorded.
    pub fn is_spamming_at(&mut self, user_id: &str, now: u128) -> (r: bool)
        requires
            old(self).wf(),
        ensures
            spam_step(*old(self), *final(self), user_id@, now, r),
    {
        let ghost keys0 = self.keys();
        let mut idx: usize = 0;
        let mut found = false;
        while idx < self.user_messages.len()
            invariant_except_break
                !found,
            invariant
                idx <= self.user_messages.len(),
                keys0 == self.keys(),
                self.wf(),
                forall|j: int| 0 <= j < idx ==> keys0[j] != user_id@,
            ensures
                idx <= self.user_messages.len(),
                keys0 == self.keys(),
                self.wf(),
                forall|j: int| 0 <= j < idx ==> keys0[j] != user_id@,
                found ==> idx < self.user_messages.len() && keys0[idx as int] == user_id@,
                !found ==> idx == self.user_messages.len(),
            decreases self.user_messages.len() - idx,
        {
            if crate::text::same_text(self.user_messages[idx].0.as_str(), user_id) {
                assert(keys0[idx as int] == self.user_messages@[idx as int].0@);
                found = true;
                break;
            }
            idx += 1;
        }
        proof {
            lemma_entry_index(keys0, user_id@);
            if found {
                lemma_entry_index_distinct(keys0, user_id@, idx as int);
            }
        }
        let ghost had = self.recorded(user_id@);
        let (key, old_msgs) = if found {
            self.user_messages.remove(idx)
        } else {
            (crate::text::owned(user_id), Vec::new())
        };
        assert(key@ == user_id@);
        assert(old_msgs@ == had);
        let mut kept: Vec<u128> = Vec::new();
        let mut k: usize = 0;
        while k < old_msgs.len()
            invariant
                k <= old_msgs.len(),
                kept@ == recent(old_msgs@.subrange(0, k as int), now, self.time_frame),
            decreases old_msgs.len() - k,
        {
            assert(old_msgs@.subrange(0, k + 1).drop_last() =~= old_msgs@.subrange(0, k as int));
            let t = old_msgs[k];
            let gap: u128 = if now >= t { now - t } else { 0 };
            if gap < self.time_frame {
                kept.push(t);
            }
            k += 1;
        }
        assert(old_msgs@.subrange(0, old_msgs@.len() as int) =~= old_msgs@);
        let spamming = kept.len() >= self.message_limit;
        if !spamming {
            kept.push(now);
        }
        let ghost stored = kept@;
        let ghost mid = self.user_messages@;
        let pos: usize = if found { idx } else { self.user_messages.len() };
        self.user_messages.insert(pos, (key, kept));
        proof {
            let keys1 = self.keys();
            assert(keys1.len() == keys0.len() || keys1.len() == keys0.len() + 1);
            assert forall|j: int| 0 <= j < keys1.len() && j != pos implies keys1[j] == (if found || j < keys0.len() { keys0[j] } else { user_id@ }) by {
                if found {
                    if j < pos {
                        assert(self.user_messages@[j] == mid[j]);
                    } else {
                        assert(self.user_messages@[j] == mid[j - 1]);
                    }
                } else {
                    assert(self.user_messages@[j] == mid[j]);
                }
            }
            assert(keys1[pos as int] == user_id@);
            if found {
                assert(keys1 =~= keys0);
            } else {
                assert(keys1 =~= keys0.push(user_id@));
            }
            assert(self.wf());
            lemma_entry_index_distinct(keys1, user_id@, pos as int);
            assert forall|u: Seq<char>| u != user_id@ implies self.recorded(u) == old(self).recorded(u) by {
                lemma_entry_index(keys0, u);
                lemma_entry_index(keys1, u);
                let i0 = entry_index(keys0, u);
                if i0 >= 0 {
                    lemma_entry_index_distinct(keys1, u, i0);
                    if found {
                        if i0 < pos {
                            assert(self.user_messages@[i0] == mid[i0]);
                        } else {
                            assert(self.user_messages@[i0] == mid[i0 - 1]);
                        }
                    } else {
                        assert(self.user_messages@[i0] == mid[i0]);
                    }
                } else {
                    if entry_index(keys1, u) >= 0 {
                        let i1 = entry_index(keys1, u);
                        assert(keys1[i1] == u);
                        if !found && i1 == keys0.len() {
                            assert(keys1[i1] == user_id@);
                        } else {
                            assert(keys1[i1] == keys0[i1]);
                        }
                    }
                }
            }
        }
        spamming
    }
}

/// The latest of the times `s`, 0 when there is none.
pub open spec fn latest_of(s: Seq<u128>) -> u128
    decreases s.len(),
{
    if s.len() == 0 {
        0
    } else {
        let p = latest_of(s.drop_last());
        if s.last() > p { s.last() } else { p }
    }
}

proof fn lemma_latest_of_bounds(s: Seq<u128>)
    ensures
        forall|k: int| 0 <= k < s.len() ==> #[trigger] s[k] <= latest_of(s),
    decreases s.len(),
{
    if s.len() > 0 {
        let p = s.drop_last();
        lemma_latest_of_bounds(p);
        assert forall|k: int| 0 <= k < s.len() implies #[trigger] s[k] <= latest_of(s) by {
            if k < s.len() - 1 {
                assert(s[k] == p[k]);
            }
        }
    }
}

/// The time a check uses: the clock reading, or the latest recorded time when the
/// reading is behind it.
pub open spec fn clamped_now(clock: u128, recorded: Seq<u128>) -> u128 {
    if clock < latest_of(recorded) { latest_of(recorded) } else { clock }
}

proof fn lemma_recent_all(s: Seq<u128>, now: u128, window: u128)
    requires
        forall|k: int| 0 <= k < s.len() ==> elapsed(now, #[trigger] s[k]) < window,
    ensures
        recent(s, now, window) == s,
    decreases s.len(),
{
    if s.len() > 0 {
        let p = s.drop_last();
        assert forall|k: int| 0 <= k < p.len() implies elapsed(now, #[trigger] p[k]) < window by {
            assert(p[k] == s[k]);
        }
        lemma_recent_all(p, now, window);
        assert(elapsed(now, s[s.len() - 1]) < window);
        assert(p.push(s.last()) =~= s);
    }
}

/// Messages sent within the time frame count against the user: one who already has
/// `message_limit` messages recorded, each less than the time frame before `now`, is
/// flagged, and the refused message is not recorded.
pub proof fn lemma_full_time_frame_flags(
    before: AntiSpam,
    after: AntiSpam,
    user: Seq<char>,
    now: u128,
    spamming: bool,
)
    requires
        before.recorded(user).len() >= before.limit(),
        forall|k: int| 0 <= k < before.recorded(user).len() ==> elapsed(now, #[trigger] before.recorded(user)[k]) < before.window(),
        spam_step(before, after, user, now, spamming),
    ensures
        spamming,
        after.recorded(user) == before.recorded(user),
{
    lemma_recent_all(before.recorded(user), now, before.window());
}

/// One check at time `now`: `after` is `before` with `user`'s recent messages (plus
/// this one when it is allowed), and `spamming` says whether the limit was reached.
pub open spec fn spam_step(before: AntiSpam, after: AntiSpam, user: Seq<char>, now: u128, spamming: bool) -> bool {
    let kept = recent(before.recorded(user), now, before.window());
    &&& after.wf()
    &&& after.limit() == before.limit()
    &&& after.window() == before.window()
    &&& spamming == (kept.len() >= before.limit())
    &&& after.recorded(user) == (if spamming { kept } else { kept.push(now) })
    &&& forall|u: Seq<char>| u != user ==> after.recorded(u) == before.recorded(u)
}

/// No user ever has more than `message_limit` messages recorded: the bound holds when
/// nothing is recorded and every check keeps it.
pub proof fn lemma_recorded_within_limit(
    before: AntiSpam,
    after: AntiSpam,
    user: Seq<char>,
    now: u128,
    spamming: bool,
)
    requires
        forall|u: Seq<char>| #[trigger] before.recorded(u).len() <= before.limit(),
        spam_step(before, after, user, now, spamming),
    ensures
        forall|u: Seq<char>| #[trigger] after.recorded(u).len() <= after.limit(),
{
    lemma_recent_len(before.recorded(user), now, before.window());
    assert forall|u: Seq<char>| #[trigger] after.recorded(u).len() <= after.limit() by {
        if u != user {
            assert(after.recorded(u) == before.recorded(u));
        } else {
            assert(before.recorded(user).len() <= before.limit());
        }
    }
}

/// A user none of whose recorded messages is recent is not flagged, as long as at
/// least one message is allowed.
pub proof fn lemma_quiet_user_not_spamming(
    before: AntiSpam,
    after: AntiSpam,
    user: Seq<char>,
    now: u128,
    spamming: bool,
)
    requires
        before.limit() > 0,
        forall|k: int| 0 <= k < before.recorded(user).len() ==> elapsed(now, #[trigger] before.recorded(user)[k]) >= before.window(),
        spam_step(before, after, user, now, spamming),
    ensures
        !spamming,
        after.recorded(user) == seq![now],
{
    lemma_recent_none(before.recorded(user), now, before.window());
    assert(Seq::<u128>::empty().push(now) =~= seq![now]);
}

proof fn lemma_recent_none(s: Seq<u128>, now: u128, window: u128)
    requires
        forall|k: int| 0 <= k < s.len() ==> elapsed(now, #[trigger] s[k]) >= window,
    ensures
        recent(s, now, window) == Seq::<u128>::empty(),
    decreases s.len(),
{
    if s.len() > 0 {
        let p = s.drop_last();
        assert forall|k: int| 0 <= k < p.len() implies elapsed(now, #[trigger] p[k]) >= window by {
            assert(p[k] == s[k]);
        }
        lemma_recent_none(p, now, window);
        assert(elapsed(now, s[s.len() - 1]) >= window);
    }
}

/// The times of the checks made for `user`, in order, among `calls` (each a user id
/// and the time of the check).
pub open spec fn own_times(calls: Seq<(Seq<char>, u128)>, user: Seq<char>) -> Seq<u128>
    decreases calls.len(),
{
    if calls.len() == 0 {
        Seq::empty()
    } else {
        let prev = own_times(calls.drop_last(), user);
        if calls.last().0 == user { prev.push(calls.last().1) } else { prev }
    }
}

/// The verdicts given to `user`, in order, where `verdicts[i]` answered `calls[i]`.
pub open spec fn own_verdicts(calls: Seq<(Seq<char>, u128)>, verdicts: Seq<bool>, user: Seq<char>) -> Seq<bool>
    decreases calls.len(),
{
    if calls.len() == 0 {
        Seq::empty()
    } else {
        let prev = own_verdicts(calls.drop_last(), verdicts, user);
        if calls.last().0 == user { prev.push(verdicts[calls.len() - 1]) } else { prev }
    }
}

/// What one user has recorded after checks at `times`, starting from `start`, with
/// the given limit and window.
pub open spec fn replay(start: Seq<u128>, limit: nat, window: u128, times: Seq<u128>) -> Seq<u128>
    decreases times.len(),
{
    if times.len() == 0 {
        start
    } else {
        let kept = recent(replay(start, limit, window, times.drop_last()), times.last(), window);
        if kept.len() >= limit { kept } else { kept.push(times.last()) }
    }
}

/// The verdicts one user gets for checks at `times`, starting from `start`.
pub open spec fn replay_verdicts(start: Seq<u128>, limit: nat, window: u128, times: Seq<u128>) -> Seq<bool>
    decreases times.len(),
{
    if times.len() == 0 {
        Seq::empty()
    } else {
        let kept = recent(replay(start, limit, window, times.drop_last()), times.last(), window);
        replay_verdicts(start, limit, window, times.drop_last()).push(kept.len() >= limit)
    }
}

/// `states[i + 1]` and `verdicts[i]` are what the check `calls[i]` made of `states[i]`.
pub open spec fn is_trace(states: Seq<AntiSpam>, calls: Seq<(Seq<char>, u128)>, verdicts: Seq<bool>) -> bool {
    &&& states.len() == calls.len() + 1
    &&& verdicts.len() == calls.len()
    &&& forall|i: int| 0 <= i < calls.len() ==> spam_step(#[trigger] states[i], states[i + 1], calls[i].0, calls[i].1, verdicts[i])
}

/// Over any run of checks, what a user has recorded and the verdicts the user got
/// depend only on the limit, the window, what the user had at the start and the times
/// of the user's own checks: checks for other users change nothing of them.
pub proof fn lemma_trace_follows_own_checks(
    states: Seq<AntiSpam>,
    calls: Seq<(Seq<char>, u128)>,
    verdicts: Seq<bool>,
    user: Seq<char>,
)
    requires
        is_trace(states, calls, verdicts),
    ensures
        states.last().limit() == states[0].limit(),
        states.last().window() == states[0].window(),
        states.last().recorded(user) == replay(states[0].recorded(user), states[0].limit(), states[0].window(), own_times(calls, user)),
        own_verdicts(calls, verdicts, user) == replay_verdicts(states[0].recorded(user), states[0].limit(), states[0].window(), own_times(calls, user)),
    decreases calls.len(),
{
    if calls.len() > 0 {
        let n = calls.len() - 1;
        let ps = states.drop_last();
        let pc = calls.drop_last();
        assert forall|i: int| 0 <= i < pc.len() implies spam_step(#[trigger] ps[i], ps[i + 1], pc[i].0, pc[i].1, verdicts[i]) by {
            assert(spam_step(states[i], states[i + 1], calls[i].0, calls[i].1, verdicts[i]));
        }
        assert(is_trace(ps, pc, verdicts.subrange(0, n)));
        lemma_trace_follows_own_checks(ps, pc, verdicts.subrange(0, n), user);
        assert(ps.last() == states[n]);
        assert(spam_step(states[n], states[n + 1], calls[n].0, calls[n].1, verdicts[n]));
        assert(own_verdicts(pc, verdicts.subrange(0, n), user) == own_verdicts(pc, verdicts, user)) by {
            lemma_own_verdicts_prefix(pc, verdicts.subrange(0, n), verdicts, user);
        }
        let times = own_times(calls, user);
        if calls[n].0 == user {
            assert(times.drop_last() == own_times(pc, user));
        }
    }
}

proof fn lemma_own_verdicts_prefix(calls: Seq<(Seq<char>, u128)>, a: Seq<bool>, b: Seq<bool>, user: Seq<char>)
    requires
        a.len() >= calls.len(),
        b.len() >= calls.len(),
        forall|i: int| 0 <= i < calls.len() ==> a[i] == b[i],
    ensures
        own_verdicts(calls, a, user) == own_verdicts(calls, b, user),
    decreases calls.len(),
{
    if calls.len() > 0 {
        lemma_own_verdicts_prefix(calls.drop_last(), a, b, user);
    }
}

/// A user's verdicts do not depend on other users' checks: two runs that start from
/// the same limit, window and record for the user, and make the same checks for the
/// user, interleaved with any checks for others, give the user the same verdicts and
/// leave the same record.
pub proof fn lemma_verdicts_independent_of_other_users(
    a_states: Seq<AntiSpam>,
    a_calls: Seq<(Seq<char>, u128)>,
    a_verdicts: Seq<bool>,
    b_states: Seq<AntiSpam>,
    b_calls: Seq<(Seq<char>, u128)>,
    b_verdicts: Seq<bool>,
    user: Seq<char>,
)
    requires
        is_trace(a_states, a_calls, a_verdicts),
        is_trace(b_states, b_calls, b_verdicts),
        a_states[0].limit() == b_states[0].limit(),
        a_states[0].window() == b_states[0].window(),
        a_states[0].recorded(user) == b_states[0].recorded(user),
        own_times(a_calls, user) == own_times(b_calls, user),
    ensures
        own_verdicts(a_calls, a_verdicts, user) == own_verdicts(b_calls, b_verdicts, user),
        a_states.last().recorded(user) == b_states.last().recorded(user),
{
    lemma_trace_follows_own_checks(a_states, a_calls, a_verdicts, user);
    lemma_trace_follows_own_checks(b_states, b_calls, b_verdicts, user);
}

} // verus!

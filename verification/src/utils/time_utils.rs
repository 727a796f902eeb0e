//! The clock-like format in which the bot shows durations.

use std::time::Duration;
use vstd::prelude::*;
use crate::text::{
    digits_value, lemma_pad2_digits, lemma_split_append_piece, lemma_split_single, pad2, push_char, push_pad2,
    split_spec,
};

verus! {

/// `days:hours:minutes:seconds` with two-digit fields, leaving out days when there
/// are none and hours when there are neither hours nor days.
pub open spec fn duration_text(secs: nat) -> Seq<char> {
    let days = secs / 86400;
    let rest = secs % 86400;
    let hours = rest / 3600;
    let minutes = (rest % 3600) / 60;
    let seconds = (rest % 3600) % 60;
    (if days > 0 { pad2(days) + seq![':'] } else { Seq::empty() })
        + (if hours > 0 || days > 0 { pad2(hours) + seq![':'] } else { Seq::empty() })
        + pad2(minutes) + seq![':'] + pad2(seconds)
}

/// The whole seconds a `Duration` holds, as `Duration::as_secs` returns them.
pub uninterp spec fn duration_whole_secs(d: Duration) -> u64;

/// `Duration::as_secs`: the whole seconds of `d`, a function of `d` alone.
#[verifier::external_body]
fn whole_seconds(d: &Duration) -> (r: u64)
    ensures
        r == duration_whole_secs(*d),
{
    d.as_secs()
}

/// Formats the whole seconds of `duration` as `duration_text` does.
pub fn format_duration(duration: Duration) -> (r: String)
    ensures
        r@ == duration_text(duration_whole_secs(duration) as nat),
{
    format_duration_secs(whole_seconds(&duration))
}

/// Formats `secs` seconds as `[DD:][HH:]MM:SS`.
pub fn format_duration_secs(secs: u64) -> (r: String)
    ensures
        r@ == duration_text(secs as nat),
{
    let days = secs / (24 * 3600);
    let rest = secs % (24 * 3600);
    let hours = rest / 3600;
    let rest2 = rest % 3600;
    let minutes = rest2 / 60;
    let seconds = rest2 % 60;
    let mut result = String::new();
    if days > 0 {
        push_pad2(&mut result, days);
        push_char(&mut result, ':');
    }
    if hours > 0 || days > 0 {
        push_pad2(&mut result, hours);
        push_char(&mut result, ':');
    }
    push_pad2(&mut result, minutes);
    push_char(&mut result, ':');
    push_pad2(&mut result, seconds);
    assert(result@ =~= duration_text(secs as nat));
    result
}

/// Under an hour, a duration shows as `MM:SS`.
pub proof fn lemma_short_duration(secs: nat)
    requires
        secs < 3600,
    ensures
        duration_text(secs) == pad2(secs / 60) + seq![':'] + pad2(secs % 60),
{
    assert(secs / 86400 == 0);
    assert(secs % 86400 == secs);
    assert(secs % 3600 == secs);
    assert(duration_text(secs) =~= pad2(secs / 60) + seq![':'] + pad2(secs % 60));
}

/// The seconds a duration text stands for: its `:`-separated fields read as decimal
/// numbers, the last counting seconds, the one before minutes, then hours, then days;
/// `None` for another number of fields.
pub open spec fn duration_text_seconds(t: Seq<char>) -> Option<nat> {
    let f = split_spec(t, ':');
    if f.len() == 2 {
        Some(digits_value(f[0]) * 60 + digits_value(f[1]))
    } else if f.len() == 3 {
        Some(digits_value(f[0]) * 3600 + digits_value(f[1]) * 60 + digits_value(f[2]))
    } else if f.len() == 4 {
        Some(digits_value(f[0]) * 86400 + digits_value(f[1]) * 3600 + digits_value(f[2]) * 60 + digits_value(f[3]))
    } else {
        None
    }
}

proof fn lemma_pad2_no_colon(n: nat)
    ensures
        forall|i: int| 0 <= i < pad2(n).len() ==> pad2(n)[i] != ':',
        digits_value(pad2(n)) == n,
{
    lemma_pad2_digits(n);
    assert forall|i: int| 0 <= i < pad2(n).len() implies pad2(n)[i] != ':' by {
        assert(crate::text::is_digit(pad2(n)[i]));
    }
}

/// Reading a duration text back gives the seconds it was written from.
pub proof fn lemma_duration_text_round_trip(secs: nat)
    ensures
        duration_text_seconds(duration_text(secs)) == Some(secs),
{
    let days = secs / 86400;
    let rest = secs % 86400;
    let hours = rest / 3600;
    let minutes = (rest % 3600) / 60;
    let seconds = (rest % 3600) % 60;
    lemma_pad2_no_colon(days);
    lemma_pad2_no_colon(hours);
    lemma_pad2_no_colon(minutes);
    lemma_pad2_no_colon(seconds);
    assert(secs == days * 86400 + rest);
    assert(rest == hours * 3600 + rest % 3600);
    assert(rest % 3600 == minutes * 60 + seconds);
    let tail_m = pad2(minutes);
    if days > 0 {
        lemma_split_single(pad2(days), ':');
        let a = pad2(days).push(':') + pad2(hours);
        lemma_split_append_piece(pad2(days), pad2(hours), ':');
        let b = a.push(':') + pad2(minutes);
        lemma_split_append_piece(a, pad2(minutes), ':');
        let t = b.push(':') + pad2(seconds);
        lemma_split_append_piece(b, pad2(seconds), ':');
        assert(duration_text(secs) =~= t);
        let f = split_spec(t, ':');
        assert(f =~= seq![pad2(days), pad2(hours), pad2(minutes), pad2(seconds)]);
    } else if hours > 0 {
        lemma_split_single(pad2(hours), ':');
        let b = pad2(hours).push(':') + pad2(minutes);
        lemma_split_append_piece(pad2(hours), pad2(minutes), ':');
        let t = b.push(':') + pad2(seconds);
        lemma_split_append_piece(b, pad2(seconds), ':');
        assert(duration_text(secs) =~= t);
        let f = split_spec(t, ':');
        assert(f =~= seq![pad2(hours), pad2(minutes), pad2(seconds)]);
    } else {
        lemma_split_single(pad2(minutes), ':');
        let t = pad2(minutes).push(':') + pad2(seconds);
        lemma_split_append_piece(pad2(minutes), pad2(seconds), ':');
        assert(duration_text(secs) =~= t);
        let f = split_spec(t, ':');
        assert(f =~= seq![pad2(minutes), pad2(seconds)]);
    }
}

/// Distinct numbers of seconds are written as distinct texts.
pub proof fn lemma_duration_text_injective(a: nat, b: nat)
    requires
        duration_text(a) == duration_text(b),
    ensures
        a == b,
{
    lemma_duration_text_round_trip(a);
    lemma_duration_text_round_trip(b);
}

} // verus!

//! Character-level text building blocks shared by the rest of the crate.

use vstd::prelude::*;

verus! {

/// The decimal digit character for `d` (0 through 9).
pub open spec fn digit_char(d: nat) -> char {
    ((48 + d) as u32) as char
}

/// The decimal representation of a natural number, most significant digit first.
pub open spec fn dec_digits(n: nat) -> Seq<char>
    decreases n,
{
    if n < 10 {
        seq![digit_char(n)]
    } else {
        dec_digits(n / 10).push(digit_char(n % 10))
    }
}

/// The decimal representation of an integer, with a leading `-` when negative.
pub open spec fn dec_signed(n: int) -> Seq<char> {
    if n < 0 {
        seq!['-'] + dec_digits((-n) as nat)
    } else {
        dec_digits(n as nat)
    }
}

/// `{:02}`: the decimal representation padded with zeros to at least two characters.
pub open spec fn pad2(n: nat) -> Seq<char> {
    if n < 10 {
        seq!['0'] + dec_digits(n)
    } else {
        dec_digits(n)
    }
}

/// `String::push` appends one character.
#[verifier::external_body]
pub(crate) fn push_char(s: &mut String, c: char)
    ensures
        final(s)@ == old(s)@.push(c),
{
    s.push(c);
}

fn digit(d: u64) -> (c: char)
    requires
        d < 10,
    ensures
        c == digit_char(d as nat),
{
    let b: u8 = 48u8 + (d as u8);
    b as char
}

/// Appends the decimal digits of `n`.
pub fn push_dec(s: &mut String, n: u64)
    ensures
        final(s)@ == old(s)@ + dec_digits(n as nat),
    decreases n,
{
    if n >= 10 {
        push_dec(s, n / 10);
    }
    push_char(s, digit(n % 10));
    proof {
        if n >= 10 {
            assert(dec_digits(n as nat) == dec_digits((n / 10) as nat).push(digit_char((n % 10) as nat)));
        }
    }
}

} // verus!

verus! {

/// Concatenation of `parts` with `sep` between neighbours (`[..].join(sep)`).
pub open spec fn join_spec(parts: Seq<Seq<char>>, sep: Seq<char>) -> Seq<char>
    decreases parts.len(),
{
    if parts.len() == 0 {
        Seq::empty()
    } else if parts.len() == 1 {
        parts[0]
    } else {
        join_spec(parts.drop_last(), sep) + sep + parts.last()
    }
}

/// `s.starts_with(p)`.
pub open spec fn starts_with_spec(s: Seq<char>, p: Seq<char>) -> bool {
    p.len() <= s.len() && s.subrange(0, p.len() as int) == p
}

/// `s.ends_with(p)`.
pub open spec fn ends_with_spec(s: Seq<char>, p: Seq<char>) -> bool {
    p.len() <= s.len() && s.subrange(s.len() - p.len(), s.len() as int) == p
}

/// `s.trim_start_matches(p)`: every leading repetition of a non-empty `p` removed.
pub open spec fn trim_start_spec(s: Seq<char>, p: Seq<char>) -> Seq<char>
    decreases s.len(),
{
    if p.len() > 0 && starts_with_spec(s, p) {
        trim_start_spec(s.subrange(p.len() as int, s.len() as int), p)
    } else {
        s
    }
}

/// `s.trim_end_matches(p)`: every trailing repetition of a non-empty `p` removed.
pub open spec fn trim_end_spec(s: Seq<char>, p: Seq<char>) -> Seq<char>
    decreases s.len(),
{
    if p.len() > 0 && ends_with_spec(s, p) {
        trim_end_spec(s.subrange(0, s.len() - p.len()), p)
    } else {
        s
    }
}

/// The pieces of `s.split(c)`: never empty, one more piece than there are `c` in `s`.
pub open spec fn split_spec(s: Seq<char>, c: char) -> Seq<Seq<char>>
    decreases s.len(),
{
    if s.len() == 0 {
        seq![Seq::empty()]
    } else {
        let prev = split_spec(s.drop_last(), c);
        if s.last() == c {
            prev.push(Seq::empty())
        } else {
            prev.update(prev.len() - 1, prev.last().push(s.last()))
        }
    }
}

/// Splitting always gives at least one piece.
pub proof fn lemma_split_nonempty(s: Seq<char>, c: char)
    ensures
        split_spec(s, c).len() >= 1,
    decreases s.len(),
{
    if s.len() > 0 {
        lemma_split_nonempty(s.drop_last(), c);
    }
}

/// Whether `c` is an ASCII decimal digit.
pub open spec fn is_digit(c: char) -> bool {
    '0' <= c && c <= '9'
}

/// The number that a string of decimal digits denotes.
pub open spec fn digits_value(d: Seq<char>) -> nat
    decreases d.len(),
{
    if d.len() == 0 {
        0
    } else {
        digits_value(d.drop_last()) * 10 + ((d.last() as int - 48) as nat)
    }
}

/// What `str::parse::<u64>` gives: an optional `+`, then one or more decimal digits
/// whose value fits in a `u64`.
pub open spec fn parse_u64_spec(s: Seq<char>) -> Option<u64> {
    let d = unsigned_digits(s);
    if d.len() == 0 || !all_digits(d) || digits_value(d) > u64::MAX {
        None
    } else {
        Some(digits_value(d) as u64)
    }
}

/// The text after an optional leading `+`.
pub open spec fn unsigned_digits(s: Seq<char>) -> Seq<char> {
    if s.len() > 0 && s[0] == '+' {
        s.subrange(1, s.len() as int)
    } else {
        s
    }
}

/// Every character is a decimal digit.
pub open spec fn all_digits(d: Seq<char>) -> bool {
    forall|i: int| 0 <= i < d.len() ==> is_digit(#[trigger] d[i])
}

/// The characters of `s`, in order.
pub fn chars_of(s: &str) -> (v: Vec<char>)
    ensures
        v@ == s@,
{
    let n = s.unicode_len();
    let mut v: Vec<char> = Vec::new();
    let mut i: usize = 0;
    while i < n
        invariant
            n == s@.len(),
            i <= n,
            v@ == s@.subrange(0, i as int),
        decreases n - i,
    {
        v.push(s.get_char(i));
        i += 1;
    }
    v
}

/// A `String` holding exactly the characters of `v`.
pub fn string_of(v: &Vec<char>) -> (s: String)
    ensures
        s@ == v@,
{
    let mut s = String::new();
    let mut i: usize = 0;
    while i < v.len()
        invariant
            i <= v.len(),
            s@ == v@.subrange(0, i as int),
        decreases v.len() - i,
    {
        push_char(&mut s, v[i]);
        i += 1;
    }
    s
}

/// Appends every character of `t`.
pub fn push_str(s: &mut String, t: &str)
    ensures
        final(s)@ == old(s)@ + t@,
{
    let cs = chars_of(t);
    let mut i: usize = 0;
    while i < cs.len()
        invariant
            i <= cs.len(),
            cs@ == t@,
            s@ == old(s)@ + t@.subrange(0, i as int),
        decreases cs.len() - i,
    {
        push_char(s, cs[i]);
        i += 1;
    }
}

/// A fresh `String` with the characters of `t`.
pub fn owned(t: &str) -> (s: String)
    ensures
        s@ == t@,
{
    let mut s = String::new();
    push_str(&mut s, t);
    s
}

/// Appends the decimal representation of a signed number.
pub fn push_dec_signed(s: &mut String, n: i64)
    ensures
        final(s)@ == old(s)@ + dec_signed(n as int),
{
    if n < 0 {
        push_char(s, '-');
        let m: u64 = (0i128 - (n as i128)) as u64;
        push_dec(s, m);
    } else {
        push_dec(s, n as u64);
    }
}

/// Appends `{:02}` of `n`.
pub fn push_pad2(s: &mut String, n: u64)
    ensures
        final(s)@ == old(s)@ + pad2(n as nat),
{
    if n < 10 {
        push_char(s, '0');
    }
    push_dec(s, n);
}

/// Whether two strings hold the same characters.
pub fn same_text(a: &str, b: &str) -> (r: bool)
    ensures
        r == (a@ == b@),
{
    let x = chars_of(a);
    let y = chars_of(b);
    if x.len() != y.len() {
        return false;
    }
    let mut i: usize = 0;
    while i < x.len()
        invariant
            x.len() == y.len(),
            x@ == a@,
            y@ == b@,
            i <= x.len(),
            forall|j: int| 0 <= j < i ==> x@[j] == y@[j],
        decreases x.len() - i,
    {
        if x[i] != y[i] {
            return false;
        }
        i += 1;
    }
    assert(x@ =~= y@);
    true
}

/// `s.starts_with(p)`.
pub fn starts_with(s: &str, p: &str) -> (r: bool)
    ensures
        r == starts_with_spec(s@, p@),
{
    let x = chars_of(s);
    let y = chars_of(p);
    if y.len() > x.len() {
        return false;
    }
    let mut i: usize = 0;
    while i < y.len()
        invariant
            y.len() <= x.len(),
            x@ == s@,
            y@ == p@,
            i <= y.len(),
            forall|j: int| 0 <= j < i ==> x@[j] == y@[j],
        decreases y.len() - i,
    {
        if x[i] != y[i] {
            assert(s@.subrange(0, p@.len() as int)[i as int] != p@[i as int]);
            return false;
        }
        i += 1;
    }
    assert(s@.subrange(0, p@.len() as int) =~= p@);
    true
}

/// The views of a list of strings.
pub open spec fn texts(v: Seq<String>) -> Seq<Seq<char>> {
    v.map_values(|s: String| s@)
}

/// `parts.join(sep)`.
pub fn join(parts: &Vec<String>, sep: &str) -> (r: String)
    ensures
        r@ == join_spec(texts(parts@), sep@),
{
    let ghost views = texts(parts@);
    let mut r = String::new();
    let mut i: usize = 0;
    while i < parts.len()
        invariant
            i <= parts.len(),
            views == texts(parts@),
            r@ == join_spec(views.subrange(0, i as int), sep@),
        decreases parts.len() - i,
    {
        let ghost before = views.subrange(0, i as int);
        if i > 0 {
            push_str(&mut r, sep);
        }
        push_str(&mut r, parts[i].as_str());
        proof {
            let after = views.subrange(0, i + 1);
            assert(after.drop_last() =~= before);
            if i == 0 {
                assert(after.len() == 1);
            }
        }
        i += 1;
    }
    assert(views.subrange(0, parts.len() as int) =~= views);
    r
}

} // verus!

verus! {

fn starts_with_at(x: &Vec<char>, pos: usize, y: &Vec<char>) -> (r: bool)
    requires
        pos <= x.len(),
    ensures
        r == starts_with_spec(x@.subrange(pos as int, x@.len() as int), y@),
{
    let ghost rest = x@.subrange(pos as int, x@.len() as int);
    if y.len() > x.len() - pos {
        return false;
    }
    let mut i: usize = 0;
    while i < y.len()
        invariant
            pos <= x.len(),
            y.len() <= x.len() - pos,
            rest == x@.subrange(pos as int, x@.len() as int),
            i <= y.len(),
            forall|j: int| 0 <= j < i ==> rest[j] == y@[j],
        decreases y.len() - i,
    {
        if x[pos + i] != y[i] {
            assert(rest.subrange(0, y@.len() as int)[i as int] != y@[i as int]);
            return false;
        }
        i += 1;
    }
    assert(rest.subrange(0, y@.len() as int) =~= y@);
    true
}

fn ends_with_at(x: &Vec<char>, end: usize, y: &Vec<char>) -> (r: bool)
    requires
        end <= x.len(),
    ensures
        r == ends_with_spec(x@.subrange(0, end as int), y@),
{
    let ghost head = x@.subrange(0, end as int);
    if y.len() > end {
        return false;
    }
    let start = end - y.len();
    let mut i: usize = 0;
    while i < y.len()
        invariant
            end <= x.len(),
            y.len() <= end,
            start == end - y.len(),
            head == x@.subrange(0, end as int),
            i <= y.len(),
            forall|j: int| 0 <= j < i ==> head[start + j] == y@[j],
        decreases y.len() - i,
    {
        if x[start + i] != y[i] {
            assert(head.subrange(start as int, end as int)[i as int] != y@[i as int]);
            return false;
        }
        i += 1;
    }
    assert(head.subrange(start as int, end as int) =~= y@);
    true
}

fn string_of_range(v: &Vec<char>, from: usize, to: usize) -> (s: String)
    requires
        from <= to <= v.len(),
    ensures
        s@ == v@.subrange(from as int, to as int),
{
    let mut s = String::new();
    let mut i: usize = from;
    while i < to
        invariant
            from <= i <= to,
            to <= v.len(),
            s@ == v@.subrange(from as int, i as int),
        decreases to - i,
    {
        push_char(&mut s, v[i]);
        assert(v@.subrange(from as int, i + 1) =~= v@.subrange(from as int, i as int).push(v@[i as int]));
        i += 1;
    }
    s
}

/// `s.trim_start_matches(p)`.
pub fn trim_start_matches(s: &str, p: &str) -> (r: String)
    ensures
        r@ == trim_start_spec(s@, p@),
{
    let x = chars_of(s);
    let y = chars_of(p);
    let mut pos: usize = 0;
    assert(x@.subrange(0, x@.len() as int) =~= x@);
    while y.len() > 0 && starts_with_at(&x, pos, &y)
        invariant
            x@ == s@,
            y@ == p@,
            pos <= x.len(),
            trim_start_spec(s@, p@) == trim_start_spec(x@.subrange(pos as int, x@.len() as int), p@),
        decreases x.len() - pos,
    {
        let ghost rest = x@.subrange(pos as int, x@.len() as int);
        assert(rest.subrange(y@.len() as int, rest.len() as int) =~= x@.subrange(pos + y.len(), x@.len() as int));
        pos = pos + y.len();
    }
    string_of_range(&x, pos, x.len())
}

/// `s.trim_end_matches(p)`.
pub fn trim_end_matches(s: &str, p: &str) -> (r: String)
    ensures
        r@ == trim_end_spec(s@, p@),
{
    let x = chars_of(s);
    let y = chars_of(p);
    let mut end: usize = x.len();
    assert(x@.subrange(0, x@.len() as int) =~= x@);
    while y.len() > 0 && ends_with_at(&x, end, &y)
        invariant
            x@ == s@,
            y@ == p@,
            end <= x.len(),
            trim_end_spec(s@, p@) == trim_end_spec(x@.subrange(0, end as int), p@),
        decreases end,
    {
        let ghost head = x@.subrange(0, end as int);
        assert(head.subrange(0, head.len() - y@.len()) =~= x@.subrange(0, end - y.len()));
        end = end - y.len();
    }
    string_of_range(&x, 0, end)
}

/// The pieces of `s.split(c)`.
pub fn split_char(s: &str, c: char) -> (r: Vec<String>)
    ensures
        r@.map_values(|p: String| p@) == split_spec(s@, c),
{
    let x = chars_of(s);
    let mut parts: Vec<String> = Vec::new();
    let mut cur = String::new();
    let mut i: usize = 0;
    assert(x@.subrange(0, 0) =~= Seq::<char>::empty());
    while i < x.len()
        invariant
            x@ == s@,
            i <= x.len(),
            parts@.map_values(|p: String| p@).push(cur@) == split_spec(x@.subrange(0, i as int), c),
        decreases x.len() - i,
    {
        let ghost before = parts@.map_values(|p: String| p@).push(cur@);
        assert(x@.subrange(0, i + 1).drop_last() =~= x@.subrange(0, i as int));
        if x[i] == c {
            let done = cur;
            parts.push(done);
            cur = String::new();
            assert(parts@.map_values(|p: String| p@).push(cur@) =~= before.push(Seq::empty()));
        } else {
            push_char(&mut cur, x[i]);
            assert(parts@.map_values(|p: String| p@).push(cur@) =~= before.update(
                before.len() - 1,
                before.last().push(x@[i as int]),
            ));
        }
        i += 1;
    }
    assert(x@.subrange(0, x@.len() as int) =~= x@);
    parts.push(cur);
    assert(parts@.map_values(|p: String| p@) =~= split_spec(s@, c));
    parts
}

/// `s.parse::<u64>().ok()`.
pub fn parse_u64(s: &str) -> (r: Option<u64>)
    ensures
        r == parse_u64_spec(s@),
{
    let x = chars_of(s);
    let start: usize = if x.len() > 0 && x[0] == '+' { 1 } else { 0 };
    let ghost d = x@.subrange(start as int, x@.len() as int);
    assert(d =~= unsigned_digits(s@));
    if start >= x.len() {
        assert(d.len() == 0);
        return None;
    }
    let mut acc: u64 = 0;
    let mut over = false;
    let mut i: usize = start;
    while i < x.len()
        invariant
            x@ == s@,
            start <= i <= x.len(),
            d == x@.subrange(start as int, x@.len() as int),
            d == unsigned_digits(s@),
            forall|j: int| start <= j < i ==> is_digit(#[trigger] x@[j]),
            !over ==> acc == digits_value(x@.subrange(start as int, i as int)),
            over ==> digits_value(x@.subrange(start as int, i as int)) > u64::MAX,
        decreases x.len() - i,
    {
        let ch = x[i];
        if !('0' <= ch && ch <= '9') {
            assert(d[i - start] == ch);
            assert(!is_digit(d[i - start]));
            assert(!all_digits(d));
            return None;
        }
        let ghost prev = x@.subrange(start as int, i as int);
        let ghost next = x@.subrange(start as int, i + 1);
        assert(next.drop_last() =~= prev);
        let dv: u64 = (ch as u32 - 48) as u64;
        assert(digits_value(next) == digits_value(prev) * 10 + dv);
        if !over {
            if acc > (u64::MAX - dv) / 10 {
                over = true;
            } else {
                acc = acc * 10 + dv;
            }
        }
        i += 1;
    }
    assert(x@.subrange(start as int, x@.len() as int) =~= d);
    assert forall|k: int| 0 <= k < d.len() implies is_digit(#[trigger] d[k]) by {
        assert(d[k] == x@[start + k]);
    }
    if over {
        None
    } else {
        Some(acc)
    }
}

} // verus!

verus! {

/// `s.contains(p)`: `p` occurs in `s` at some position.
pub open spec fn contains_spec(s: Seq<char>, p: Seq<char>) -> bool {
    exists|i: int| 0 <= i <= s.len() - p.len() && #[trigger] s.subrange(i, i + p.len()) == p
}

/// `s.contains(p)`.
pub fn contains_str(s: &str, p: &str) -> (r: bool)
    ensures
        r == contains_spec(s@, p@),
{
    let x = chars_of(s);
    let y = chars_of(p);
    if y.len() > x.len() {
        return false;
    }
    let last = x.len() - y.len();
    let mut i: usize = 0;
    while i < last
        invariant
            x@ == s@,
            y@ == p@,
            y.len() <= x.len(),
            last == x.len() - y.len(),
            i <= last,
            forall|k: int| 0 <= k < i ==> #[trigger] s@.subrange(k, k + p@.len()) != p@,
        decreases last - i,
    {
        assert(x@.subrange(i as int, x@.len() as int).subrange(0, y@.len() as int) =~= s@.subrange(
            i as int,
            i + p@.len(),
        ));
        if starts_with_at(&x, i, &y) {
            return true;
        }
        i += 1;
    }
    assert(x@.subrange(last as int, x@.len() as int).subrange(0, y@.len() as int) =~= s@.subrange(
        last as int,
        last + p@.len(),
    ));
    if starts_with_at(&x, last, &y) {
        return true;
    }
    false
}

} // verus!

verus! {

proof fn lemma_digit_char_value(d: nat)
    requires
        d < 10,
    ensures
        digit_char(d) as int == 48 + d,
        is_digit(digit_char(d)),
{
}

proof fn lemma_dec_digits_shape(n: nat)
    ensures
        dec_digits(n).len() >= 1,
        all_digits(dec_digits(n)),
        digits_value(dec_digits(n)) == n,
    decreases n,
{
    if n >= 10 {
        lemma_dec_digits_shape(n / 10);
        lemma_digit_char_value(n % 10);
        let d = dec_digits(n);
        assert(d.drop_last() =~= dec_digits(n / 10));
        assert(d.last() == digit_char(n % 10));
        assert(digits_value(d) == digits_value(d.drop_last()) * 10 + ((d.last() as int - 48) as nat));
        assert(digits_value(d) == (n / 10) * 10 + n % 10);
        assert forall|i: int| 0 <= i < d.len() implies is_digit(#[trigger] d[i]) by {
            if i < d.len() - 1 {
                assert(d[i] == dec_digits(n / 10)[i]);
            }
        }
    } else {
        lemma_digit_char_value(n);
        let d = dec_digits(n);
        assert(d.drop_last() =~= Seq::<char>::empty());
        assert(digits_value(d.drop_last()) == 0);
        assert(d.last() == digit_char(n));
    }
}

/// `{:02}` writes only digits, and reading them back gives the number.
pub proof fn lemma_pad2_digits(n: nat)
    ensures
        all_digits(pad2(n)),
        digits_value(pad2(n)) == n,
{
    lemma_dec_digits_shape(n);
    if n < 10 {
        lemma_digit_char_value(n);
        let p = pad2(n);
        assert(p =~= seq!['0', digit_char(n)]);
        assert(p.drop_last() =~= seq!['0']);
        let z: Seq<char> = seq!['0'];
        assert(z.drop_last() =~= Seq::<char>::empty());
        assert(digits_value(z.drop_last()) == 0);
        assert(z.last() == '0');
        assert(('0' as int) == 48);
        assert(digits_value(z) == digits_value(z.drop_last()) * 10 + ((z.last() as int - 48) as nat));
        assert(digits_value(z) == 0);
        assert(p.last() == digit_char(n));
        assert(digits_value(p) == digits_value(p.drop_last()) * 10 + ((p.last() as int - 48) as nat));
        assert forall|i: int| 0 <= i < p.len() implies is_digit(#[trigger] p[i]) by {}
    }
}

proof fn lemma_split_no_sep(p: Seq<char>, q: Seq<char>, c: char)
    requires
        forall|i: int| 0 <= i < q.len() ==> q[i] != c,
    ensures
        split_spec(p + q, c) == split_spec(p, c).update(
            split_spec(p, c).len() - 1,
            split_spec(p, c).last() + q,
        ),
    decreases q.len(),
{
    lemma_split_nonempty(p, c);
    let sp = split_spec(p, c);
    if q.len() == 0 {
        assert(p + q =~= p);
        assert(sp.last() + q =~= sp.last());
        assert(sp.update(sp.len() - 1, sp.last()) =~= sp);
    } else {
        let q0 = q.drop_last();
        assert forall|i: int| 0 <= i < q0.len() implies q0[i] != c by {
            assert(q0[i] == q[i]);
        }
        lemma_split_no_sep(p, q0, c);
        assert((p + q).drop_last() =~= p + q0);
        assert((p + q).last() == q.last());
        let prev = sp.update(sp.len() - 1, sp.last() + q0);
        assert(prev.last().push(q.last()) =~= sp.last() + q);
        assert(prev.update(prev.len() - 1, prev.last().push(q.last())) =~= sp.update(sp.len() - 1, sp.last() + q));
    }
}

/// Splitting text that ends in the separator and then a piece without it gives the
/// pieces of what comes before the separator, then that piece.
pub proof fn lemma_split_append_piece(p: Seq<char>, q: Seq<char>, c: char)
    requires
        forall|i: int| 0 <= i < q.len() ==> q[i] != c,
    ensures
        split_spec(p.push(c) + q, c) == split_spec(p, c).push(q),
{
    lemma_split_no_sep(p.push(c), q, c);
    assert(p.push(c).drop_last() =~= p);
    let sp = split_spec(p.push(c), c);
    assert(sp == split_spec(p, c).push(Seq::empty()));
    assert(Seq::<char>::empty() + q =~= q);
    assert(sp.update(sp.len() - 1, sp.last() + q) =~= split_spec(p, c).push(q));
}

/// Text without the separator is a single piece.
pub proof fn lemma_split_single(q: Seq<char>, c: char)
    requires
        forall|i: int| 0 <= i < q.len() ==> q[i] != c,
    ensures
        split_spec(q, c) == seq![q],
{
    lemma_split_no_sep(Seq::empty(), q, c);
    assert(Seq::<char>::empty() + q =~= q);
    assert(seq![Seq::<char>::empty()].update(0, Seq::<char>::empty() + q) =~= seq![q]);
}

/// Reading back the decimal digits the crate writes gives the number written.
pub proof fn lemma_parse_dec_round_trip(n: u64)
    ensures
        parse_u64_spec(dec_digits(n as nat)) == Some(n),
{
    lemma_dec_digits_shape(n as nat);
    assert(is_digit(dec_digits(n as nat)[0]));
    assert(unsigned_digits(dec_digits(n as nat)) == dec_digits(n as nat));
}

} // verus!

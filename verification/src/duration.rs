use vstd::prelude::*;
use vstd::relations::{sorted_by, total_ordering};
use vstd::seq_lib::lemma_sorted_unique;
use crate::error::BuilderError;

verus! {

/// One `<integer><unit>` component of a composite duration literal,
/// tagged by its unit and carrying a non-negative magnitude.
///
/// The variants are ranked ascending (`ms` lowest, `y` highest); a parsed
/// multi-unit duration is always re-serialized in ascending rank order.
#[derive(Clone, Copy, Debug, PartialEq, Eq, Structural)]
pub enum Duration {
    Milliseconds(usize),
    Seconds(usize),
    Minutes(usize),
    Hours(usize),
    Days(usize),
    Weeks(usize),
    Years(usize),
}

/// The rank of a duration's unit: ms < s < m < h < d < w < y.
pub open spec fn rank(d: Duration) -> int {
    match d {
        Duration::Milliseconds(_) => 0,
        Duration::Seconds(_) => 1,
        Duration::Minutes(_) => 2,
        Duration::Hours(_) => 3,
        Duration::Days(_) => 4,
        Duration::Weeks(_) => 5,
        Duration::Years(_) => 6,
    }
}

/// The integer magnitude a duration carries.
pub open spec fn magnitude(d: Duration) -> nat {
    match d {
        Duration::Milliseconds(n) => n as nat,
        Duration::Seconds(n) => n as nat,
        Duration::Minutes(n) => n as nat,
        Duration::Hours(n) => n as nat,
        Duration::Days(n) => n as nat,
        Duration::Weeks(n) => n as nat,
        Duration::Years(n) => n as nat,
    }
}

/// The total order durations are sorted by: first unit rank, then magnitude.
pub open spec fn dur_le(a: Duration, b: Duration) -> bool {
    rank(a) < rank(b) || (rank(a) == rank(b) && magnitude(a) <= magnitude(b))
}

/// `dur_le` as a relation value, for use with the sequence sorting lemmas.
pub open spec fn dur_leq() -> spec_fn(Duration, Duration) -> bool {
    |a: Duration, b: Duration| dur_le(a, b)
}

/// `dur_leq()` is a total order, so sorting by it is well-defined and its
/// result is unique.
pub proof fn lemma_dur_leq_total_ordering()
    ensures
        total_ordering(dur_leq()),
{
    let leq = dur_leq();
    assert forall|a: Duration, b: Duration| #[trigger] leq(a, b) && #[trigger] leq(b, a) implies a
        == b by {
        assert(rank(a) == rank(b));
        assert(magnitude(a) == magnitude(b));
    }
    assert forall|a: Duration, b: Duration| #[trigger] leq(a, b) || #[trigger] leq(b, a) by {
        if !dur_le(a, b) {
            assert(dur_le(b, a));
        }
    }
}

/// Whether `c` is a decimal digit.
pub open spec fn is_digit(c: char) -> bool {
    48 <= c as u32 <= 57
}

/// The numeric value of a decimal digit character.
pub open spec fn digit_val(c: char) -> int {
    c as u32 - 48
}

/// The value of a string of decimal digits, most significant first.
pub open spec fn dec_value(s: Seq<char>) -> int
    decreases s.len(),
{
    if s.len() == 0 {
        0
    } else {
        dec_value(s.drop_last()) * 10 + digit_val(s.last())
    }
}

/// The digit character for a value below ten.
pub open spec fn digit_char(d: nat) -> char {
    if d == 0 {
        '0'
    } else if d == 1 {
        '1'
    } else if d == 2 {
        '2'
    } else if d == 3 {
        '3'
    } else if d == 4 {
        '4'
    } else if d == 5 {
        '5'
    } else if d == 6 {
        '6'
    } else if d == 7 {
        '7'
    } else if d == 8 {
        '8'
    } else {
        '9'
    }
}

/// The canonical decimal rendering of a non-negative integer, without
/// leading zeros (a lone zero renders as "0").
pub open spec fn dec_digits(n: nat) -> Seq<char>
    decreases n,
{
    if n < 10 {
        seq![digit_char(n)]
    } else {
        dec_digits(n / 10).push(digit_char(n % 10))
    }
}

/// The unit suffix of a duration's canonical rendering.
pub open spec fn suffix_of(d: Duration) -> Seq<char> {
    match d {
        Duration::Milliseconds(_) => seq!['m', 's'],
        Duration::Seconds(_) => seq!['s'],
        Duration::Minutes(_) => seq!['m'],
        Duration::Hours(_) => seq!['h'],
        Duration::Days(_) => seq!['d'],
        Duration::Weeks(_) => seq!['w'],
        Duration::Years(_) => seq!['y'],
    }
}

/// The canonical rendering of one duration: its magnitude in decimal,
/// followed by its unit suffix.
pub open spec fn render_one(d: Duration) -> Seq<char> {
    dec_digits(magnitude(d)) + suffix_of(d)
}

/// The concatenated rendering of a sequence of durations, in order and with
/// no separator.
pub open spec fn render_spec(s: Seq<Duration>) -> Seq<char>
    decreases s.len(),
{
    if s.len() == 0 {
        Seq::empty()
    } else {
        render_one(s[0]) + render_spec(s.drop_first())
    }
}

/// The first index at or after `i` that does not hold a decimal digit.
pub open spec fn digits_end(s: Seq<char>, i: int) -> int
    decreases s.len() - i,
{
    if i < 0 || i >= s.len() {
        i
    } else if is_digit(s[i]) {
        digits_end(s, i + 1)
    } else {
        i
    }
}

proof fn lemma_digits_end(s: Seq<char>, i: int)
    requires
        0 <= i <= s.len(),
    ensures
        i <= digits_end(s, i) <= s.len(),
    decreases s.len() - i,
{
    if i < s.len() && is_digit(s[i]) {
        lemma_digits_end(s, i + 1);
    }
}

/// The duration with the given unit rank and magnitude.
pub open spec fn dur_of(tag: int, m: nat) -> Duration {
    if tag == 0 {
        Duration::Milliseconds(m as usize)
    } else if tag == 1 {
        Duration::Seconds(m as usize)
    } else if tag == 2 {
        Duration::Minutes(m as usize)
    } else if tag == 3 {
        Duration::Hours(m as usize)
    } else if tag == 4 {
        Duration::Days(m as usize)
    } else if tag == 5 {
        Duration::Weeks(m as usize)
    } else {
        Duration::Years(m as usize)
    }
}

/// The unit suffix starting at index `j`, if any, given as the unit's rank
/// paired with the index just past the suffix. The two-character suffix
/// `ms` is claimed before the single-character suffixes `m` and `s`.
pub open spec fn unit_at(s: Seq<char>, j: int) -> Option<(int, int)> {
    if j < s.len() && s[j] == 'm' && j + 1 < s.len() && s[j + 1] == 's' {
        Some((0, j + 2))
    } else if j < s.len() && s[j] == 's' {
        Some((1, j + 1))
    } else if j < s.len() && s[j] == 'm' {
        Some((2, j + 1))
    } else if j < s.len() && s[j] == 'h' {
        Some((3, j + 1))
    } else if j < s.len() && s[j] == 'd' {
        Some((4, j + 1))
    } else if j < s.len() && s[j] == 'w' {
        Some((5, j + 1))
    } else if j < s.len() && s[j] == 'y' {
        Some((6, j + 1))
    } else {
        None
    }
}

/// Parses the duration tokens of `s` from index `i` to the end: zero or
/// more `<integer><unit>` tokens with no separators. Yields `None` when a
/// token has no digits, its magnitude does not fit in `usize`, or its unit
/// suffix is unknown.
pub open spec fn parse_from(s: Seq<char>, i: int) -> Option<Seq<Duration>>
    decreases s.len() - i,
        when 0 <= i <= s.len()
        via parse_from_decreases
{
    if i >= s.len() {
        Some(Seq::empty())
    } else {
        let e = digits_end(s, i);
        if e == i {
            None
        } else if dec_value(s.subrange(i, e)) > usize::MAX {
            None
        } else {
            match unit_at(s, e) {
                None => None,
                Some((tag, ni)) => match parse_from(s, ni) {
                    None => None,
                    Some(rest) => Some(
                        seq![dur_of(tag, dec_value(s.subrange(i, e)) as nat)] + rest,
                    ),
                },
            }
        }
    }
}

#[via_fn]
proof fn parse_from_decreases(s: Seq<char>, i: int) {
    if 0 <= i < s.len() {
        lemma_digits_end(s, i);
    }
}

/// The tokens of the whole duration literal `s`, in input order, or `None`
/// when `s` is not a well-formed duration literal.
pub open spec fn parse_spec(s: Seq<char>) -> Option<Seq<Duration>> {
    parse_from(s, 0)
}

/// The canonical form of the duration literal `s`: its tokens sorted
/// ascending by unit rank (then magnitude) and re-rendered with no
/// separator, or `None` when `s` is not a well-formed duration literal.
pub open spec fn canonical_spec(s: Seq<char>) -> Option<Seq<char>> {
    match parse_spec(s) {
        Some(toks) => Some(render_spec(toks.sort_by(dur_leq()))),
        None => None,
    }
}

fn digit_str(d: usize) -> (s: &'static str)
    requires
        d < 10,
    ensures
        s@ == seq![digit_char(d as nat)],
{
    proof {
        reveal_strlit("0");
        reveal_strlit("1");
        reveal_strlit("2");
        reveal_strlit("3");
        reveal_strlit("4");
        reveal_strlit("5");
        reveal_strlit("6");
        reveal_strlit("7");
        reveal_strlit("8");
        reveal_strlit("9");
    }
    match d {
        0 => "0",
        1 => "1",
        2 => "2",
        3 => "3",
        4 => "4",
        5 => "5",
        6 => "6",
        7 => "7",
        8 => "8",
        _ => "9",
    }
}

/// Renders a magnitude in decimal, without leading zeros.
fn render_magnitude(n: usize) -> (s: String)
    ensures
        s@ == dec_digits(n as nat),
    decreases n,
{
    if n < 10 {
        digit_str(n).to_owned()
    } else {
        let mut s = render_magnitude(n / 10);
        s.append(digit_str(n % 10));
        proof {
            assert(dec_digits((n / 10) as nat).push(digit_char((n % 10) as nat)) =~= dec_digits(
                (n / 10) as nat,
            ) + seq![digit_char((n % 10) as nat)]);
        }
        s
    }
}

/// Renders one duration as `<magnitude><suffix>`.
pub fn render_duration(d: &Duration) -> (s: String)
    ensures
        s@ == render_one(*d),
{
    proof {
        reveal_strlit("ms");
        reveal_strlit("s");
        reveal_strlit("m");
        reveal_strlit("h");
        reveal_strlit("d");
        reveal_strlit("w");
        reveal_strlit("y");
    }
    let (m, suffix): (usize, &'static str) = match d {
        Duration::Milliseconds(n) => (*n, "ms"),
        Duration::Seconds(n) => (*n, "s"),
        Duration::Minutes(n) => (*n, "m"),
        Duration::Hours(n) => (*n, "h"),
        Duration::Days(n) => (*n, "d"),
        Duration::Weeks(n) => (*n, "w"),
        Duration::Years(n) => (*n, "y"),
    };
    proof {
        assert(suffix@ =~= suffix_of(*d));
    }
    let mut s = render_magnitude(m);
    s.append(suffix);
    s
}

/// Renders a sequence of durations back to back, in the order given.
pub fn render_durations(v: &Vec<Duration>) -> (s: String)
    ensures
        s@ == render_spec(v@),
{
    let mut s = String::new();
    let mut i: usize = 0;
    proof {
        assert(v@.subrange(0, v@.len() as int) =~= v@);
        assert(s@ + render_spec(v@) =~= render_spec(v@));
    }
    while i < v.len()
        invariant
            0 <= i <= v.len(),
            s@ + render_spec(v@.subrange(i as int, v@.len() as int)) == render_spec(v@),
        decreases v.len() - i,
    {
        let piece = render_duration(&v[i]);
        proof {
            let tail = v@.subrange(i as int, v@.len() as int);
            assert(tail[0] == v@[i as int]);
            assert(tail.drop_first() =~= v@.subrange(i + 1, v@.len() as int));
            assert((s@ + piece@) + render_spec(v@.subrange(i + 1, v@.len() as int)) =~= s@
                + render_spec(tail));
        }
        s.append(piece.as_str());
        i = i + 1;
    }
    proof {
        assert(v@.subrange(v@.len() as int, v@.len() as int) =~= Seq::<Duration>::empty());
        assert(s@ + Seq::<char>::empty() =~= s@);
    }
    s
}

fn dur_le_exec(a: &Duration, b: &Duration) -> (r: bool)
    ensures
        r == dur_le(*a, *b),
{
    let ra: u8 = match a {
        Duration::Milliseconds(_) => 0,
        Duration::Seconds(_) => 1,
        Duration::Minutes(_) => 2,
        Duration::Hours(_) => 3,
        Duration::Days(_) => 4,
        Duration::Weeks(_) => 5,
        Duration::Years(_) => 6,
    };
    let rb: u8 = match b {
        Duration::Milliseconds(_) => 0,
        Duration::Seconds(_) => 1,
        Duration::Minutes(_) => 2,
        Duration::Hours(_) => 3,
        Duration::Days(_) => 4,
        Duration::Weeks(_) => 5,
        Duration::Years(_) => 6,
    };
    let ma: usize = match a {
        Duration::Milliseconds(n) => *n,
        Duration::Seconds(n) => *n,
        Duration::Minutes(n) => *n,
        Duration::Hours(n) => *n,
        Duration::Days(n) => *n,
        Duration::Weeks(n) => *n,
        Duration::Years(n) => *n,
    };
    let mb: usize = match b {
        Duration::Milliseconds(n) => *n,
        Duration::Seconds(n) => *n,
        Duration::Minutes(n) => *n,
        Duration::Hours(n) => *n,
        Duration::Days(n) => *n,
        Duration::Weeks(n) => *n,
        Duration::Years(n) => *n,
    };
    ra < rb || (ra == rb && ma <= mb)
}

/// Sorts durations ascending by unit rank, then magnitude; the result is
/// exactly the mathematical `sort_by(dur_leq())` of the input.
pub fn sort_durations(v: &mut Vec<Duration>)
    ensures
        final(v)@ == old(v)@.sort_by(dur_leq()),
{
    let ghost orig = v@;
    let mut idx: usize = 1;
    while idx < v.len()
        invariant
            1 <= idx,
            idx <= v@.len() || v@.len() == 0,
            v@.len() == orig.len(),
            v@.to_multiset() == orig.to_multiset(),
            forall|a: int, b: int|
                0 <= a < b < idx ==> #[trigger] dur_le(v@[a], v@[b]),
        decreases v.len() - idx,
    {
        let mut j: usize = idx;
        while j > 0 && !dur_le_exec(&v[j - 1], &v[j])
            invariant
                0 <= j <= idx < v@.len(),
                v@.len() == orig.len(),
                v@.to_multiset() == orig.to_multiset(),
                forall|a: int, b: int|
                    0 <= a < b <= idx && b != j ==> #[trigger] dur_le(v@[a], v@[b]),
            decreases j,
        {
            let ghost before = v@;
            let x = v[j - 1];
            let y = v[j];
            v.set(j - 1, y);
            v.set(j, x);
            proof {
                assert(v@ =~= before.update(j - 1, before[j as int]).update(
                    j as int,
                    before[j - 1],
                ));
                lemma_swap_multiset(before, v@, j - 1, j as int);
                assert forall|a: int, b: int|
                    0 <= a < b <= idx && b != j - 1 implies #[trigger] dur_le(v@[a], v@[b]) by {
                    if b == j {
                        if a < j - 1 {
                            assert(dur_le(before[a], before[j - 1]));
                        }
                    }
                }
            }
            j = j - 1;
        }
        proof {
            assert forall|a: int, b: int|
                0 <= a < b <= idx implies #[trigger] dur_le(v@[a], v@[b]) by {
                if b == j {
                    assert(j > 0);
                    assert(dur_le(v@[j - 1], v@[j as int]));
                    if a < j - 1 {
                        assert(dur_le(v@[a], v@[j - 1]));
                    }
                }
            }
        }
        idx = idx + 1;
    }
    proof {
        lemma_dur_leq_total_ordering();
        orig.lemma_sort_by_ensures(dur_leq());
        assert forall|a: int, b: int| 0 <= a < b < v@.len() implies dur_leq()(v@[a], v@[b]) by {
            assert(dur_le(v@[a], v@[b]));
        }
        assert(sorted_by(v@, dur_leq()));
        lemma_sorted_unique(v@, orig.sort_by(dur_leq()), dur_leq());
        assert(v@ =~= orig.sort_by(dur_leq()));
    }
}

proof fn lemma_swap_multiset(s1: Seq<Duration>, s2: Seq<Duration>, i: int, j: int)
    requires
        0 <= i < j < s1.len(),
        s2 =~= s1.update(i, s1[j]).update(j, s1[i]),
    ensures
        s2.to_multiset() == s1.to_multiset(),
{
    broadcast use vstd::seq_lib::group_to_multiset_ensures;

    let si = s1.update(i, s1[j]);
    assert(s1.to_multiset() =~= s1.remove(i).to_multiset().insert(s1[i]));
    assert(si.to_multiset() =~= si.remove(i).to_multiset().insert(s1[j]));
    assert(si.remove(i) =~= s1.remove(i));
    assert(si.to_multiset() =~= s2.to_multiset().remove(s2[j]).insert(s1[j])) by {
        assert(s2.remove(j).to_multiset() =~= s2.to_multiset().remove(s2[j]));
        assert(si.remove(j) =~= s2.remove(j));
        assert(si.to_multiset() =~= si.remove(j).to_multiset().insert(si[j]));
        assert(si[j] == s1[j]);
    }
    assert(s1.remove(i).to_multiset() =~= si.to_multiset().remove(s1[j])) by {
        assert(si.remove(i).to_multiset() =~= si.to_multiset().remove(si[i]));
        assert(si[i] == s1[j]);
    }
    assert(s2.to_multiset() =~= si.to_multiset().remove(s1[j]).insert(s1[i])) by {
        assert(s2[j] == s1[i]);
    }
    assert(s2.to_multiset() =~= s1.remove(i).to_multiset().insert(s1[i]));
}

/// The canonical form of a well-formed duration literal orders its tokens
/// ascending by unit rank (then magnitude) — regardless of the order the
/// input wrote them in — and keeps exactly the parsed tokens.
pub proof fn lemma_canonical_sorted(s: Seq<char>)
    requires
        parse_spec(s) is Some,
    ensures
        sorted_by(parse_spec(s)->0.sort_by(dur_leq()), dur_leq()),
        parse_spec(s)->0.sort_by(dur_leq()).to_multiset() == parse_spec(s)->0.to_multiset(),
{
    lemma_dur_leq_total_ordering();
    parse_spec(s)->0.lemma_sort_by_ensures(dur_leq());
}

/// A parse's already-consumed tokens prepended to the outcome on the rest.
spec fn opt_prepend(pre: Seq<Duration>, r: Option<Seq<Duration>>) -> Option<
    Seq<Duration>,
> {
    match r {
        Some(rest) => Some(pre + rest),
        None => None,
    }
}

fn is_digit_exec(c: char) -> (r: bool)
    ensures
        r == is_digit(c),
{
    let u = c as u32;
    48 <= u && u <= 57
}

/// Scans the run of decimal digits starting at `from`; yields the index
/// just past the run and the run's value, or `None` for the value when it
/// does not fit in `usize`.
fn scan_digits(s: &str, from: usize) -> (r: (usize, Option<usize>))
    requires
        from <= s@.len(),
    ensures
        r.0 == digits_end(s@, from as int),
        from <= r.0 <= s@.len(),
        match r.1 {
            Some(a) => a == dec_value(s@.subrange(from as int, r.0 as int)),
            None => dec_value(s@.subrange(from as int, r.0 as int)) > usize::MAX,
        },
{
    let ghost t = s@;
    let n = s.unicode_len();
    let mut i = from;
    let mut acc: usize = 0;
    let mut ovf = false;
    let mut more = false;
    if i < n {
        let c = s.get_char(i);
        if is_digit_exec(c) {
            more = true;
        }
    }
    proof {
        assert(t.subrange(from as int, from as int) =~= Seq::<char>::empty());
    }
    while more
        invariant
            from <= i <= n,
            n == t.len(),
            t == s@,
            digits_end(t, from as int) == digits_end(t, i as int),
            more == (i < t.len() && is_digit(t[i as int])),
            dec_value(t.subrange(from as int, i as int)) >= 0,
            !ovf ==> acc == dec_value(t.subrange(from as int, i as int)),
            ovf ==> dec_value(t.subrange(from as int, i as int)) > usize::MAX,
        decreases n - i,
    {
        let c = s.get_char(i);
        let d = (c as u32) - 48;
        let ghost pre = t.subrange(from as int, i as int);
        let ghost post = t.subrange(from as int, i + 1);
        proof {
            assert(post.drop_last() =~= pre);
            assert(post.last() == t[i as int]);
            assert(dec_value(post) == dec_value(pre) * 10 + digit_val(t[i as int]));
            assert(0 <= digit_val(t[i as int]) <= 9);
        }
        if !ovf {
            match acc.checked_mul(10) {
                Some(m) => {
                    match m.checked_add(d as usize) {
                        Some(a) => {
                            acc = a;
                        },
                        None => {
                            ovf = true;
                        },
                    }
                },
                None => {
                    ovf = true;
                },
            }
        } else {
            proof {
                assert(dec_value(pre) * 10 >= dec_value(pre)) by {
                    assert(dec_value(pre) * 10 == dec_value(pre) + dec_value(pre) * 9);
                    assert(dec_value(pre) * 9 >= 0);
                }
            }
        }
        i = i + 1;
        more = false;
        if i < n {
            let c2 = s.get_char(i);
            if is_digit_exec(c2) {
                more = true;
            }
        }
    }
    (i, if ovf {
        None
    } else {
        Some(acc)
    })
}

/// Parses a composite duration literal into its sequence of typed tokens,
/// in input order: zero or more `<integer><unit>` tokens with no
/// separators, units in `{ms, s, m, h, d, w, y}`, the two-character `ms`
/// claimed before the single-character `m` and `s`. Fails exactly when the
/// literal is not such a concatenation, a magnitude does not fit in
/// `usize`, or a token has an unknown suffix.
pub fn parse_duration(timeout: &str) -> (r: Result<Vec<Duration>, BuilderError>)
    ensures
        match r {
            Ok(v) => parse_spec(timeout@) == Some(v@),
            Err(e) => parse_spec(timeout@) is None && e == BuilderError::InvalidTimeDuration,
        },
{
    let ghost t = timeout@;
    let n = timeout.unicode_len();
    let mut out: Vec<Duration> = Vec::new();
    let mut i: usize = 0;
    proof {
        if parse_from(t, 0) is Some {
            assert(out@ + parse_from(t, 0)->0 =~= parse_from(t, 0)->0);
        }
    }
    while i < n
        invariant
            i <= n,
            n == t.len(),
            t == timeout@,
            parse_spec(t) == opt_prepend(out@, parse_from(t, i as int)),
        decreases n - i,
    {
        let start = i;
        let (end, val) = scan_digits(timeout, i);
        if end == start {
            return Err(BuilderError::InvalidTimeDuration);
        }
        let acc = match val {
            Some(a) => a,
            None => {
                return Err(BuilderError::InvalidTimeDuration);
            },
        };
        if end >= n {
            return Err(BuilderError::InvalidTimeDuration);
        }
        let c = timeout.get_char(end);
        let dur: Duration;
        let ni: usize;
        if c == 'm' && end + 1 < n && timeout.get_char(end + 1) == 's' {
            dur = Duration::Milliseconds(acc);
            ni = end + 2;
        } else if c == 's' {
            dur = Duration::Seconds(acc);
            ni = end + 1;
        } else if c == 'm' {
            dur = Duration::Minutes(acc);
            ni = end + 1;
        } else if c == 'h' {
            dur = Duration::Hours(acc);
            ni = end + 1;
        } else if c == 'd' {
            dur = Duration::Days(acc);
            ni = end + 1;
        } else if c == 'w' {
            dur = Duration::Weeks(acc);
            ni = end + 1;
        } else if c == 'y' {
            dur = Duration::Years(acc);
            ni = end + 1;
        } else {
            return Err(BuilderError::InvalidTimeDuration);
        }
        let ghost out_before = out@;
        out.push(dur);
        i = ni;
        proof {
            assert(unit_at(t, end as int) matches Some((tag, nis)) && dur == dur_of(
                tag,
                acc as nat,
            ) && nis == ni);
            if parse_from(t, ni as int) is Some {
                let rest = parse_from(t, ni as int)->0;
                assert(parse_from(t, start as int) == Some(seq![dur] + rest));
                assert(out_before + (seq![dur] + rest) =~= out@ + rest);
            }
        }
    }
    proof {
        if parse_from(t, i as int) is Some {
            assert(out@ + parse_from(t, i as int)->0 =~= out@);
        }
    }
    Ok(out)
}

/// Parses a duration literal and re-serializes it canonically: tokens
/// sorted ascending by unit rank (then magnitude), concatenated with no
/// separator. Fails exactly when the literal does not parse.
pub fn canonical_duration(timeout: &str) -> (r: Result<String, BuilderError>)
    ensures
        match r {
            Ok(c) => canonical_spec(timeout@) == Some(c@),
            Err(e) => canonical_spec(timeout@) is None && e
                == BuilderError::InvalidTimeDuration,
        },
{
    match parse_duration(timeout) {
        Ok(mut v) => {
            sort_durations(&mut v);
            Ok(render_durations(&v))
        },
        Err(e) => Err(e),
    }
}

} // verus!

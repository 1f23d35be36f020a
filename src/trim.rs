use vstd::prelude::*;
use crate::number::{all_digits_vec, digits_number, index_of, index_of_exec, lemma_digits_value_bound, lemma_pow10_le, pow10, pow10_exec, sub_vec};
use crate::model::TrimData;
use crate::text::{all_digits, chars_of, digits_value, owned};

verus! {

/// Longest time text the trim editor takes.
pub const MAX_TIME_LEN: usize = 12;

/// Fraction digits a time is compared at.
pub const TIME_SCALE_DIGITS: usize = 11;

/// A field of one or two digits; with `sixty`, a two-digit field starts with 0 to 5.
pub open spec fn small_field(f: Seq<char>, sixty: bool) -> bool {
    1 <= f.len() <= 2 && all_digits(f) && (sixty && f.len() == 2 ==> f[0] <= '5')
}

/// Digits, then optionally `.` and more digits: the whole part and the fraction.
pub open spec fn split_fraction(f: Seq<char>) -> (Seq<char>, Seq<char>) {
    let k = index_of(f, '.');
    if k < f.len() { (f.take(k), f.skip(k + 1)) } else { (f, Seq::empty()) }
}

pub open spec fn fraction_ok(f: Seq<char>) -> bool {
    let k = index_of(f, '.');
    k < f.len() ==> (f.skip(k + 1).len() >= 1 && all_digits(f.skip(k + 1)))
}

/// Seconds alone: `[0-9]+(\.[0-9]+)?`.
pub open spec fn seconds_form(s: Seq<char>) -> bool {
    let (w, _) = split_fraction(s);
    w.len() >= 1 && all_digits(w) && fraction_ok(s)
}

/// The fields of a text cut at its first two `:` (the last field keeps any further `:`).
pub open spec fn colon_fields(s: Seq<char>) -> Seq<Seq<char>> {
    let a = index_of(s, ':');
    let rest = s.skip(a + 1);
    let b = index_of(rest, ':');
    if a >= s.len() {
        seq![s]
    } else if b >= rest.len() {
        seq![s.take(a), rest]
    } else {
        seq![s.take(a), rest.take(b), rest.skip(b + 1)]
    }
}

/// Clock form: `([0-9]{1,2}:)?([0-5]?[0-9]:)([0-5]?[0-9])(\.[0-9]+)?`.
pub open spec fn clock_form(s: Seq<char>) -> bool {
    let p = colon_fields(s);
    let last = p[p.len() - 1];
    &&& p.len() == 2 || p.len() == 3
    &&& p.len() == 3 ==> small_field(p[0], false)
    &&& small_field(p[p.len() - 2], true)
    &&& small_field(split_fraction(last).0, true)
    &&& fraction_ok(last)
}

/// A time the trim editor accepts: seconds, or `[h:]m:s`, with an optional
/// fraction of a second, in at most `MAX_TIME_LEN` characters.
pub open spec fn valid_time(s: Seq<char>) -> bool {
    s.len() <= MAX_TIME_LEN && (seconds_form(s) || clock_form(s))
}

/// Whole seconds of a valid time.
pub open spec fn whole_seconds(s: Seq<char>) -> int {
    if seconds_form(s) {
        digits_value(split_fraction(s).0)
    } else {
        let p = colon_fields(s);
        (if p.len() == 3 { digits_value(p[0]) * 3600 } else { 0 }) + digits_value(p[p.len() - 2]) * 60
            + digits_value(split_fraction(p[p.len() - 1]).0)
    }
}

/// Fraction digits of a valid time.
pub open spec fn fraction_digits(s: Seq<char>) -> Seq<char> {
    if seconds_form(s) {
        split_fraction(s).1
    } else {
        let p = colon_fields(s);
        split_fraction(p[p.len() - 1]).1
    }
}

/// A valid time in units of 10^-11 seconds.
pub open spec fn time_value(s: Seq<char>) -> int {
    whole_seconds(s) * pow10(TIME_SCALE_DIGITS as nat) + digits_value(fraction_digits(s)) * pow10(
        (TIME_SCALE_DIGITS - fraction_digits(s).len()) as nat,
    )
}

/// Why the trim editor refuses its fields.
#[derive(Debug, Clone, Copy, PartialEq, Eq, Structural)]
pub enum TrimError {
    StartFormat,
    EndFormat,
    EndBeforeStart,
    EndNotPositive,
}

impl TrimError {
    pub fn message(&self) -> &'static str {
        match self {
            TrimError::StartFormat => "Incorrect start time format",
            TrimError::EndFormat => "Incorrect duration/to format",
            TrimError::EndBeforeStart => "End time must be greater than start time",
            TrimError::EndNotPositive => "Duration/to must be greater than zero",
        }
    }
}

/// The first problem of the editor's fields (an empty field means no
/// start or no end), checked in this order: the start's format, the end's
/// format, an end time not after the start, an end that is not above zero.
pub open spec fn trim_check(ss: Seq<char>, to: Seq<char>, use_to: bool) -> Option<TrimError> {
    if ss.len() > 0 && !valid_time(ss) {
        Some(TrimError::StartFormat)
    } else if to.len() > 0 && !valid_time(to) {
        Some(TrimError::EndFormat)
    } else if use_to && ss.len() > 0 && to.len() > 0 && time_value(ss) >= time_value(to) {
        Some(TrimError::EndBeforeStart)
    } else if to.len() > 0 && time_value(to) <= 0 {
        Some(TrimError::EndNotPositive)
    } else {
        None
    }
}

fn split_fraction_exec(f: &Vec<char>) -> (r: (Vec<char>, Vec<char>, bool))
    ensures
        (r.0@, r.1@) == split_fraction(f@),
        r.2 == fraction_ok(f@),
{
    let k = index_of_exec(f, '.');
    if k < f.len() {
        let w = sub_vec(f, 0, k);
        let fr = sub_vec(f, k + 1, f.len());
        assert(w@ =~= f@.take(k as int));
        assert(fr@ =~= f@.skip(k + 1));
        let ok = fr.len() >= 1 && all_digits_vec(&fr);
        (w, fr, ok)
    } else {
        (sub_vec(f, 0, f.len()), Vec::new(), true)
    }
}

fn small_field_exec(f: &Vec<char>, sixty: bool) -> (r: bool)
    ensures
        r == small_field(f@, sixty),
{
    1 <= f.len() && f.len() <= 2 && all_digits_vec(f) && (!(sixty && f.len() == 2) || f[0] <= '5')
}

fn colon_fields_exec(s: &Vec<char>) -> (r: Vec<Vec<char>>)
    ensures
        r@.len() == colon_fields(s@).len(),
        forall|i: int| 0 <= i < r@.len() ==> (#[trigger] r@[i])@ == colon_fields(s@)[i],
{
    let a = index_of_exec(s, ':');
    if a >= s.len() {
        let whole = sub_vec(s, 0, s.len());
        assert(whole@ =~= s@);
        return vec![whole];
    }
    let rest = sub_vec(s, a + 1, s.len());
    assert(rest@ =~= s@.skip(a + 1));
    let b = index_of_exec(&rest, ':');
    let first = sub_vec(s, 0, a);
    assert(first@ =~= s@.take(a as int));
    if b >= rest.len() {
        vec![first, rest]
    } else {
        let mid = sub_vec(&rest, 0, b);
        let last = sub_vec(&rest, b + 1, rest.len());
        assert(mid@ =~= rest@.take(b as int));
        assert(last@ =~= rest@.skip(b + 1));
        vec![first, mid, last]
    }
}

/// Whether `s` is a time the trim editor accepts (see `valid_time`).
#[verifier::spinoff_prover]
pub fn valid_time_exec(s: &str) -> (r: bool)
    ensures
        r == valid_time(s@),
{
    let cs = chars_of(s);
    if cs.len() > MAX_TIME_LEN {
        return false;
    }
    let (w, _f, ok) = split_fraction_exec(&cs);
    if w.len() >= 1 && all_digits_vec(&w) && ok {
        return true;
    }
    let p = colon_fields_exec(&cs);
    if p.len() != 2 && p.len() != 3 {
        return false;
    }
    let n = p.len();
    if n == 3 && !small_field_exec(&p[0], false) {
        return false;
    }
    if !small_field_exec(&p[n - 2], true) {
        return false;
    }
    let (lw, _lf, lok) = split_fraction_exec(&p[n - 1]);
    small_field_exec(&lw, true) && lok
}

/// The value of at most 12 digits.
fn digits_u128(s: &Vec<char>) -> (r: u128)
    requires
        all_digits(s@),
        s.len() <= 12,
    ensures
        r == digits_value(s@),
        r < 1_000_000_000_000,
{
    let r = digits_number(s);
    proof {
        lemma_digits_value_bound(s@);
        lemma_pow10_le(s@.len(), 12);
        assert(pow10(12) == 1_000_000_000_000) by {
            reveal_with_fuel(pow10, 13);
        }
    }
    r as u128
}

/// 10 to the power `n`, for `n <= 11`.
fn pow10_u128(n: usize) -> (r: u128)
    requires
        n <= 11,
    ensures
        r == pow10(n as nat),
        r <= 100_000_000_000,
{
    proof {
        lemma_pow10_le(n as nat, 11);
        assert(pow10(11) == 100_000_000_000) by {
            reveal_with_fuel(pow10, 12);
        }
    }
    pow10_exec(n) as u128
}

proof fn lemma_fraction_short(f: Seq<char>)
    ensures
        split_fraction(f).0.len() <= f.len(),
        split_fraction(f).1.len() == 0 || split_fraction(f).1.len() < f.len(),
{
    lemma_index_of_range(f, '.');
}

proof fn lemma_index_of_range(s: Seq<char>, c: char)
    ensures
        0 <= index_of(s, c) <= s.len(),
        index_of(s, c) < s.len() ==> s[index_of(s, c)] == c,
    decreases s.len(),
{
    if s.len() > 0 && s[0] != c {
        lemma_index_of_range(s.drop_first(), c);
    }
}

proof fn lemma_fields_short(s: Seq<char>)
    ensures
        forall|i: int| 0 <= i < colon_fields(s).len() ==> (#[trigger] colon_fields(s)[i]).len() <= s.len(),
{
    lemma_index_of_range(s, ':');
    let a = index_of(s, ':');
    if a < s.len() {
        lemma_index_of_range(s.skip(a + 1), ':');
    }
}

/// The time `s` in units of 10^-11 seconds (see `time_value`).
#[verifier::spinoff_prover]
pub fn time_value_exec(s: &str) -> (r: u128)
    requires
        valid_time(s@),
    ensures
        r == time_value(s@),
{
    let cs = chars_of(s);
    let (w, f, ok) = split_fraction_exec(&cs);
    proof {
        lemma_fraction_short(s@);
        lemma_fields_short(s@);
    }
    let (whole, frac) = if w.len() >= 1 && all_digits_vec(&w) && ok {
        (digits_u128(&w), f)
    } else {
        let p = colon_fields_exec(&cs);
        let n = p.len();
        let hours: u128 = if n == 3 { digits_u128(&p[0]) } else { 0 };
        let minutes = digits_u128(&p[n - 2]);
        let (lw, lf, _lok) = split_fraction_exec(&p[n - 1]);
        proof {
            lemma_fraction_short(p@[n - 1]@);
        }
        let seconds = digits_u128(&lw);
        assert(hours * 3600 + minutes * 60 + seconds < 10_000_000_000_000_000) by (nonlinear_arith)
            requires
                hours < 1_000_000_000_000,
                minutes < 1_000_000_000_000,
                seconds < 1_000_000_000_000,
        ;
        (hours * 3600 + minutes * 60 + seconds, lf)
    };
    proof {
        lemma_fraction_short(s@);
        let p = colon_fields(s@);
        if !seconds_form(s@) {
            lemma_fraction_short(p[p.len() - 1]);
        }
    }
    assert(frac@ == fraction_digits(s@));
    assert(whole == whole_seconds(s@));
    assert(frac.len() <= 11);
    assert(all_digits(frac@));
    let fv = digits_u128(&frac);
    let scale = pow10_u128(11 - frac.len());
    let unit = pow10_u128(11);
    proof {
        lemma_digits_value_bound(frac@);
        lemma_pow10_le(frac@.len(), 11);
        assert(pow10(11) == 100_000_000_000) by {
            reveal_with_fuel(pow10, 12);
        }
    }
    assert(whole * unit + fv * scale < 10_000_000_000_000_000 * 100_000_000_000 + 100_000_000_000 * 100_000_000_000) by (nonlinear_arith)
        requires
            whole < 10_000_000_000_000_000,
            unit <= 100_000_000_000,
            fv < 100_000_000_000,
            scale <= 100_000_000_000,
    ;
    whole * unit + fv * scale
}

/// Checks the trim editor's fields (see `trim_check`).
pub fn validate_trim(ss: &str, to: &str, use_to: bool) -> (r: Option<TrimError>)
    ensures
        r == trim_check(ss@, to@, use_to),
{
    let has_ss = ss.unicode_len() > 0;
    let has_to = to.unicode_len() > 0;
    if has_ss && !valid_time_exec(ss) {
        return Some(TrimError::StartFormat);
    }
    if has_to && !valid_time_exec(to) {
        return Some(TrimError::EndFormat);
    }
    if use_to && has_ss && has_to && time_value_exec(ss) >= time_value_exec(to) {
        return Some(TrimError::EndBeforeStart);
    }
    if has_to && time_value_exec(to) == 0 {
        return Some(TrimError::EndNotPositive);
    }
    None
}

pub open spec fn count_of(s: Seq<char>, c: char) -> nat
    decreases s.len(),
{
    if s.len() == 0 {
        0
    } else {
        count_of(s.drop_last(), c) + if s.last() == c { 1nat } else { 0nat }
    }
}

/// Whether the editor lets `x` be typed into a time field holding `value`:
/// the field stays within `MAX_TIME_LEN` characters, with at most one `.`
/// and at most two `:`.
pub fn may_type(x: char, value: &str) -> (r: bool)
    ensures
        r == (value@.len() < MAX_TIME_LEN && !(x == '.' && count_of(value@, '.') > 0) && !(x == ':'
            && count_of(value@, ':') >= 2)),
{
    let cs = chars_of(value);
    let mut dots: usize = 0;
    let mut colons: usize = 0;
    let mut i: usize = 0;
    while i < cs.len()
        invariant
            i <= cs.len(),
            dots as nat == count_of(cs@.take(i as int), '.'),
            colons as nat == count_of(cs@.take(i as int), ':'),
            dots <= i,
            colons <= i,
        decreases cs.len() - i,
    {
        assert(cs@.take(i + 1).drop_last() =~= cs@.take(i as int));
        if cs[i] == '.' {
            dots += 1;
        }
        if cs[i] == ':' {
            colons += 1;
        }
        i += 1;
    }
    assert(cs@.take(cs.len() as int) =~= value@);
    cs.len() < MAX_TIME_LEN && !(x == '.' && dots > 0) && !(x == ':' && colons >= 2)
}

/// The time range the editor's fields describe; an empty field is no bound.
pub fn trim_from_fields(ss: &str, to: &str, precise: bool, use_to: bool) -> (r: TrimData)
    ensures
        r.ss is Some == (ss@.len() > 0),
        r.ss matches Some(x) ==> x@ == ss@,
        r.to is Some == (to@.len() > 0),
        r.to matches Some(x) ==> x@ == to@,
        r.precise == precise,
        r.use_to == use_to,
{
    let ss = if ss.unicode_len() > 0 { Some(owned(ss)) } else { None };
    let to = if to.unicode_len() > 0 { Some(owned(to)) } else { None };
    TrimData { ss, to, use_to, precise }
}

} // verus!

use vstd::prelude::*;
use crate::text::{all_digits, chars_of, digit_value, digits_value, is_digit, nat_text, string_of, owned, cat, lemma_digits_value_prefix, int_to_string};

verus! {

pub open spec fn pow10(n: nat) -> int
    decreases n,
{
    if n == 0 {
        1
    } else {
        10 * pow10((n - 1) as nat)
    }
}

/// Index of the first `c` in `s`, or `s.len()` when there is none.
pub open spec fn index_of(s: Seq<char>, c: char) -> int
    decreases s.len(),
{
    if s.len() == 0 {
        0
    } else if s[0] == c {
        0
    } else {
        1 + index_of(s.drop_first(), c)
    }
}

pub open spec fn strip_leading_zeros(s: Seq<char>) -> Seq<char>
    decreases s.len(),
{
    if s.len() > 0 && s[0] == '0' {
        strip_leading_zeros(s.drop_first())
    } else {
        s
    }
}

pub open spec fn strip_trailing_zeros(s: Seq<char>) -> Seq<char>
    decreases s.len(),
{
    if s.len() > 0 && s.last() == '0' {
        strip_trailing_zeros(s.drop_last())
    } else {
        s
    }
}

/// A plain decimal number: an optional `+`, digits, and at most one `.`,
/// with at least one digit. Gives the integer and the fraction digits,
/// without leading zeros in the first nor trailing zeros in the second.
pub open spec fn decimal_parts(s: Seq<char>) -> Option<(Seq<char>, Seq<char>)> {
    let body = if s.len() > 0 && s[0] == '+' { s.drop_first() } else { s };
    let k = index_of(body, '.');
    let whole = body.take(k);
    let frac = if k < body.len() { body.skip(k + 1) } else { Seq::<char>::empty() };
    if all_digits(whole) && all_digits(frac) && whole.len() + frac.len() > 0 {
        Some((strip_leading_zeros(whole), strip_trailing_zeros(frac)))
    } else {
        None
    }
}

/// Canonical text of a decimal number given by its parts.
pub open spec fn decimal_text(whole: Seq<char>, frac: Seq<char>) -> Seq<char> {
    let w = if whole.len() == 0 { seq!['0'] } else { whole };
    if frac.len() == 0 {
        w
    } else {
        w + seq!['.'] + frac
    }
}

/// Largest count of fraction digits a decimal value may carry.
pub const MAX_FRACTION_DIGITS: usize = 9;

/// `s` read as a decimal number within `lo_num / lo_den ..= hi_num / hi_den`,
/// in canonical text. A value needs at most three integer digits and at most
/// `MAX_FRACTION_DIGITS` significant fraction digits.
pub open spec fn decimal_in_range(s: Seq<char>, lo_num: int, lo_den: int, hi_num: int, hi_den: int) -> Option<Seq<char>> {
    match decimal_parts(s) {
        Some((w, f)) => {
            let num = digits_value(w + f);
            let den = pow10(f.len());
            if w.len() <= 3 && f.len() <= MAX_FRACTION_DIGITS && lo_num * den <= num * lo_den
                && num * hi_den <= hi_num * den {
                Some(decimal_text(w, f))
            } else {
                None
            }
        },
        None => None,
    }
}

pub proof fn lemma_digits_value_bound(s: Seq<char>)
    requires
        all_digits(s),
    ensures
        0 <= digits_value(s) < pow10(s.len()),
    decreases s.len(),
{
    if s.len() > 0 {
        lemma_digits_value_bound(s.drop_last());
        let a = digits_value(s.drop_last());
        let p = pow10(s.drop_last().len());
        let d = digit_value(s.last());
        assert(is_digit(s[s.len() - 1]));
        assert(0 <= d < 10);
        assert(a * 10 + d < p * 10) by (nonlinear_arith)
            requires
                0 <= a < p,
                0 <= d < 10,
        ;
        assert(0 <= a * 10 + d) by (nonlinear_arith)
            requires
                0 <= a,
                0 <= d,
        ;
    }
}

pub fn index_of_exec(s: &Vec<char>, c: char) -> (r: usize)
    ensures
        r == index_of(s@, c),
        r <= s.len(),
{
    let mut i: usize = 0;
    assert(s@.skip(0) =~= s@);
    while i < s.len()
        invariant
            i <= s.len(),
            index_of(s@, c) == i + index_of(s@.skip(i as int), c),
        decreases s.len() - i,
    {
        assert(s@.skip(i as int).drop_first() =~= s@.skip(i + 1));
        if s[i] == c {
            return i;
        }
        i += 1;
    }
    i
}

pub fn pow10_exec(n: usize) -> (r: u64)
    requires
        n <= 18,
    ensures
        r == pow10(n as nat),
{
    let mut r: u64 = 1;
    let mut i: usize = 0;
    while i < n
        invariant
            i <= n <= 18,
            r == pow10(i as nat),
        decreases n - i,
    {
        proof {
            lemma_pow10_le(i as nat, 17);
            assert(pow10(17) == 100_000_000_000_000_000) by {
                reveal_with_fuel(pow10, 18);
            }
        }
        r = r * 10;
        i += 1;
    }
    r
}

pub proof fn lemma_pow10_le(a: nat, b: nat)
    requires
        a <= b,
    ensures
        1 <= pow10(a) <= pow10(b),
    decreases b,
{
    if b > a {
        lemma_pow10_le(a, (b - 1) as nat);
    } else if a > 0 {
        lemma_pow10_le((a - 1) as nat, (a - 1) as nat);
    }
    if b == 17 {
        assert(pow10(17) == 100_000_000_000_000_000) by {
            reveal_with_fuel(pow10, 18);
        }
    }
}

/// The value of a run of at most 18 digits.
pub fn digits_number(s: &Vec<char>) -> (r: u64)
    requires
        all_digits(s@),
        s.len() <= 18,
    ensures
        r == digits_value(s@),
{
    let mut acc: u64 = 0;
    let mut i: usize = 0;
    while i < s.len()
        invariant
            i <= s.len() <= 18,
            all_digits(s@),
            acc == digits_value(s@.take(i as int)),
        decreases s.len() - i,
    {
        proof {
            assert(all_digits(s@.take(i + 1)));
            lemma_digits_value_bound(s@.take(i + 1));
            lemma_pow10_le((i + 1) as nat, 18);
            assert(pow10(18) == 1_000_000_000_000_000_000) by {
            reveal_with_fuel(pow10, 19);
        }
            assert(s@.take(i + 1).drop_last() =~= s@.take(i as int));
        }
        acc = acc * 10 + ((s[i] as u32) - ('0' as u32)) as u64;
        i += 1;
    }
    assert(s@.take(i as int) =~= s@);
    acc
}

pub fn all_digits_vec(s: &Vec<char>) -> (r: bool)
    ensures
        r == all_digits(s@),
{
    let mut i: usize = 0;
    while i < s.len()
        invariant
            i <= s.len(),
            forall|j: int| 0 <= j < i ==> is_digit(#[trigger] s@[j]),
        decreases s.len() - i,
    {
        if !('0' <= s[i] && s[i] <= '9') {
            return false;
        }
        i += 1;
    }
    true
}

pub fn sub_vec(s: &Vec<char>, from: usize, to: usize) -> (r: Vec<char>)
    requires
        from <= to <= s.len(),
    ensures
        r@ == s@.subrange(from as int, to as int),
{
    let mut r: Vec<char> = Vec::new();
    let mut i = from;
    while i < to
        invariant
            from <= i <= to <= s.len(),
            r@ == s@.subrange(from as int, i as int),
        decreases to - i,
    {
        r.push(s[i]);
        i += 1;
        assert(r@ =~= s@.subrange(from as int, i as int));
    }
    r
}


fn leading_zeros_end(s: &Vec<char>) -> (r: usize)
    ensures
        r <= s.len(),
        strip_leading_zeros(s@) == s@.skip(r as int),
{
    let mut i: usize = 0;
    assert(s@.skip(0) =~= s@);
    while i < s.len()
        invariant
            i <= s.len(),
            strip_leading_zeros(s@) == strip_leading_zeros(s@.skip(i as int)),
        decreases s.len() - i,
    {
        if s[i] != '0' {
            return i;
        }
        assert(s@.skip(i as int).drop_first() =~= s@.skip(i + 1));
        i += 1;
    }
    i
}

fn trailing_zeros_start(s: &Vec<char>) -> (r: usize)
    ensures
        r <= s.len(),
        strip_trailing_zeros(s@) == s@.take(r as int),
{
    let mut i: usize = s.len();
    assert(s@.take(s.len() as int) =~= s@);
    while i > 0
        invariant
            i <= s.len(),
            strip_trailing_zeros(s@) == strip_trailing_zeros(s@.take(i as int)),
        decreases i,
    {
        if s[i - 1] != '0' {
            return i;
        }
        assert(s@.take(i as int).drop_last() =~= s@.take(i - 1));
        i -= 1;
    }
    i
}

/// The parts of `s` read as a plain decimal number (see `decimal_parts`).
#[verifier::spinoff_prover]
fn decimal_parts_exec(s: &str) -> (r: Option<(Vec<char>, Vec<char>)>)
    ensures
        match r {
            Some((w, f)) => decimal_parts(s@) == Some((w@, f@)),
            None => decimal_parts(s@) is None,
        },
{
    let cs = chars_of(s);
    let start: usize = if cs.len() > 0 && cs[0] == '+' { 1 } else { 0 };
    let body = sub_vec(&cs, start, cs.len());
    assert(body@ =~= (if s@.len() > 0 && s@[0] == '+' { s@.drop_first() } else { s@ }));
    let k = index_of_exec(&body, '.');
    let whole = sub_vec(&body, 0, k);
    let frac = if k < body.len() { sub_vec(&body, k + 1, body.len()) } else { Vec::new() };
    assert(whole@ =~= body@.take(k as int));
    assert(frac@ =~= (if k < body.len() { body@.skip(k + 1) } else { Seq::<char>::empty() }));
    if !all_digits_vec(&whole) || !all_digits_vec(&frac)
        || whole.len() + frac.len() == 0 {
        return None;
    }
    let a = leading_zeros_end(&whole);
    let b = trailing_zeros_start(&frac);
    let w = sub_vec(&whole, a, whole.len());
    let f = sub_vec(&frac, 0, b);
    assert(w@ =~= whole@.skip(a as int));
    assert(f@ =~= frac@.take(b as int));
    Some((w, f))
}

proof fn lemma_stripped_digits(s: Seq<char>)
    requires
        decimal_parts(s) is Some,
    ensures
        all_digits((decimal_parts(s)->0).0 + (decimal_parts(s)->0).1),
{
    let body = if s.len() > 0 && s[0] == '+' { s.drop_first() } else { s };
    let k = index_of(body, '.');
    let whole = body.take(k);
    let frac = if k < body.len() { body.skip(k + 1) } else { Seq::<char>::empty() };
    lemma_strip_leading_suffix(whole);
    lemma_strip_trailing_prefix(frac);
    let w = strip_leading_zeros(whole);
    let f = strip_trailing_zeros(frac);
    let d = w + f;
    assert forall|j: int| 0 <= j < d.len() implies is_digit(#[trigger] d[j]) by {
        if j < w.len() {
            assert(d[j] == whole[whole.len() - w.len() + j]);
        } else {
            assert(d[j] == frac[j - w.len()]);
        }
    }
}

proof fn lemma_strip_leading_suffix(s: Seq<char>)
    ensures
        strip_leading_zeros(s) == s.skip(s.len() - strip_leading_zeros(s).len()),
        strip_leading_zeros(s).len() <= s.len(),
    decreases s.len(),
{
    if s.len() > 0 && s[0] == '0' {
        lemma_strip_leading_suffix(s.drop_first());
        assert(s.drop_first().skip(s.drop_first().len() - strip_leading_zeros(s).len())
            =~= s.skip(s.len() - strip_leading_zeros(s).len()));
    } else {
        assert(s.skip(0) =~= s);
    }
}

proof fn lemma_strip_trailing_prefix(s: Seq<char>)
    ensures
        strip_trailing_zeros(s) == s.take(strip_trailing_zeros(s).len() as int),
        strip_trailing_zeros(s).len() <= s.len(),
    decreases s.len(),
{
    if s.len() > 0 && s.last() == '0' {
        lemma_strip_trailing_prefix(s.drop_last());
        assert(s.drop_last().take(strip_trailing_zeros(s).len() as int)
            =~= s.take(strip_trailing_zeros(s).len() as int));
    } else {
        assert(s.take(s.len() as int) =~= s);
    }
}

/// Reads `s` as a decimal number and gives its canonical text when it lies
/// within `lo_num / lo_den ..= hi_num / hi_den` (see `decimal_in_range`).
#[verifier::spinoff_prover]
pub fn parse_decimal_in_range(s: &str, lo_num: u64, lo_den: u64, hi_num: u64, hi_den: u64) -> (r: Option<String>)
    requires
        lo_num <= 1000,
        lo_den <= 1000,
        hi_num <= 1000,
        hi_den <= 1000,
    ensures
        match r {
            Some(t) => decimal_in_range(s@, lo_num as int, lo_den as int, hi_num as int, hi_den as int) == Some(t@),
            None => decimal_in_range(s@, lo_num as int, lo_den as int, hi_num as int, hi_den as int) is None,
        },
{
    let (w, f) = match decimal_parts_exec(s) {
        Some(p) => p,
        None => return None,
    };
    if w.len() > 3 || f.len() > MAX_FRACTION_DIGITS {
        return None;
    }
    let mut digits = w.clone();
    let mut tail = f.clone();
    digits.append(&mut tail);
    assert(digits@ =~= w@ + f@);
    proof {
        lemma_stripped_digits(s@);
    }
    let num = digits_number(&digits);
    let den = pow10_exec(f.len());
    proof {
        lemma_digits_value_bound(digits@);
        lemma_pow10_le(digits@.len() as nat, 12);
        lemma_pow10_le(f@.len() as nat, 9);
        assert(pow10(12) == 1_000_000_000_000) by {
            reveal_with_fuel(pow10, 13);
        }
        assert(pow10(9) == 1_000_000_000) by {
            reveal_with_fuel(pow10, 10);
        }
        assert(num * lo_den <= 1_000_000_000_000 * 1000) by (nonlinear_arith)
            requires num <= 1_000_000_000_000, lo_den <= 1000;
        assert(num * hi_den <= 1_000_000_000_000 * 1000) by (nonlinear_arith)
            requires num <= 1_000_000_000_000, hi_den <= 1000;
        assert(lo_num * den <= 1000 * 1_000_000_000) by (nonlinear_arith)
            requires den <= 1_000_000_000, lo_num <= 1000;
        assert(hi_num * den <= 1000 * 1_000_000_000) by (nonlinear_arith)
            requires den <= 1_000_000_000, hi_num <= 1000;
    }
    if !(lo_num * den <= num * lo_den && num * hi_den <= hi_num * den) {
        return None;
    }
    let mut out: Vec<char> = if w.len() == 0 { vec!['0'] } else { w.clone() };
    if f.len() > 0 {
        out.push('.');
        let mut tail2 = f.clone();
        out.append(&mut tail2);
    }
    assert(out@ =~= decimal_text(w@, f@));
    Some(string_of(&out))
}


/// White space as `char::is_whitespace` defines it (the Unicode
/// `White_Space` property).
pub open spec fn is_whitespace(c: char) -> bool {
    ('\u{9}' <= c && c <= '\u{d}') || c == ' ' || c == '\u{85}' || c == '\u{a0}' || c == '\u{1680}'
        || ('\u{2000}' <= c && c <= '\u{200a}') || c == '\u{2028}' || c == '\u{2029}'
        || c == '\u{202f}' || c == '\u{205f}' || c == '\u{3000}'
}

pub open spec fn strip_leading_ws(s: Seq<char>) -> Seq<char>
    decreases s.len(),
{
    if s.len() > 0 && is_whitespace(s[0]) {
        strip_leading_ws(s.drop_first())
    } else {
        s
    }
}

pub open spec fn strip_trailing_ws(s: Seq<char>) -> Seq<char>
    decreases s.len(),
{
    if s.len() > 0 && is_whitespace(s.last()) {
        strip_trailing_ws(s.drop_last())
    } else {
        s
    }
}

/// `s` without white space at either end, as `str::trim` gives it.
pub open spec fn trim_ws(s: Seq<char>) -> Seq<char> {
    strip_trailing_ws(strip_leading_ws(s))
}

/// Count of the decimal digits at the start of `s`.
pub open spec fn digit_prefix_len(s: Seq<char>) -> int
    decreases s.len(),
{
    if s.len() > 0 && is_digit(s[0]) {
        1 + digit_prefix_len(s.drop_first())
    } else {
        0
    }
}

/// A bitrate: digits, then nothing, `k` or `K` for kilobits, `m` or `M` for
/// megabits, with white space at either end ignored. Text without digits is
/// no bitrate. Accepted are zero and `4..=9999` kilobits or `1..=999`
/// megabits; the canonical text is `0`, `<n>k` or `<n>M`.
pub open spec fn bitrate_text(s: Seq<char>) -> Option<Seq<char>> {
    let t = trim_ws(s);
    let k = digit_prefix_len(t);
    let vs = t.take(k);
    let us = t.skip(k);
    let v = digits_value(vs);
    let kilo = us.len() == 0 || us == seq!['k'] || us == seq!['K'];
    let mega = us == seq!['m'] || us == seq!['M'];
    if vs.len() == 0 {
        None
    } else if v > u32::MAX || !(kilo || mega) {
        None
    } else if v == 0 {
        Some(seq!['0'])
    } else if kilo && 4 <= v <= 9999 {
        Some(nat_text(v as nat) + seq!['k'])
    } else if mega && 1 <= v <= 999 {
        Some(nat_text(v as nat) + seq!['M'])
    } else {
        None
    }
}

fn is_whitespace_exec(c: char) -> (r: bool)
    ensures
        r == is_whitespace(c),
{
    ('\u{9}' <= c && c <= '\u{d}') || c == ' ' || c == '\u{85}' || c == '\u{a0}' || c == '\u{1680}'
        || ('\u{2000}' <= c && c <= '\u{200a}') || c == '\u{2028}' || c == '\u{2029}'
        || c == '\u{202f}' || c == '\u{205f}' || c == '\u{3000}'
}

fn trim_ws_exec(s: &Vec<char>) -> (r: Vec<char>)
    ensures
        r@ == trim_ws(s@),
{
    let mut a: usize = 0;
    assert(s@.skip(0) =~= s@);
    while a < s.len() && is_whitespace_exec(s[a])
        invariant
            a <= s.len(),
            strip_leading_ws(s@) == strip_leading_ws(s@.skip(a as int)),
        decreases s.len() - a,
    {
        assert(s@.skip(a as int).drop_first() =~= s@.skip(a + 1));
        a += 1;
    }
    let t = sub_vec(s, a, s.len());
    assert(t@ =~= s@.skip(a as int));
    let mut b: usize = t.len();
    assert(t@.take(t.len() as int) =~= t@);
    while b > 0 && is_whitespace_exec(t[b - 1])
        invariant
            b <= t.len(),
            strip_trailing_ws(t@) == strip_trailing_ws(t@.take(b as int)),
        decreases b,
    {
        assert(t@.take(b as int).drop_last() =~= t@.take(b - 1));
        b -= 1;
    }
    sub_vec(&t, 0, b)
}

proof fn lemma_digit_prefix_all_digits(s: Seq<char>)
    ensures
        0 <= digit_prefix_len(s) <= s.len(),
        all_digits(s.take(digit_prefix_len(s))),
    decreases s.len(),
{
    if s.len() > 0 && is_digit(s[0]) {
        lemma_digit_prefix_all_digits(s.drop_first());
        let k = digit_prefix_len(s);
        assert forall|j: int| 0 <= j < k implies is_digit(#[trigger] s.take(k)[j]) by {
            if j > 0 {
                assert(s.take(k)[j] == s.drop_first().take(k - 1)[j - 1]);
            }
        }
    }
}

proof fn lemma_digit_prefix_nonneg(s: Seq<char>)
    ensures
        digit_prefix_len(s) >= 0,
{
    lemma_digit_prefix_all_digits(s);
}

/// Reading the unit after the digits of a bitrate.
proof fn lemma_unit_text(t: Seq<char>, k: int)
    requires
        0 <= k <= t.len(),
    ensures
        (k == t.len() || (t.len() - k == 1 && (t[k] == 'k' || t[k] == 'K')))
            == (t.skip(k).len() == 0 || t.skip(k) == seq!['k'] || t.skip(k) == seq!['K']),
        (k < t.len() && t.len() - k == 1 && (t[k] == 'm' || t[k] == 'M'))
            == (t.skip(k) == seq!['m'] || t.skip(k) == seq!['M']),
{
    let us = t.skip(k);
    if k == t.len() {
        assert(us.len() == 0);
        assert(us != seq!['m'] && us != seq!['M'] && us != seq!['k'] && us != seq!['K']) by {
            assert(seq!['m'].len() == 1);
        }
    } else if t.len() - k == 1 {
        assert(us =~= seq![t[k]]);
        assert(us[0] == t[k]);
        assert(seq!['k'][0] == 'k' && seq!['K'][0] == 'K' && seq!['m'][0] == 'm' && seq!['M'][0] == 'M');
    } else {
        assert(us.len() >= 2);
        assert(seq!['k'].len() == 1 && seq!['K'].len() == 1 && seq!['m'].len() == 1 && seq!['M'].len() == 1);
    }
}

/// Checks `s` as a bitrate and gives its canonical text (see `bitrate_text`).
#[verifier::spinoff_prover]
pub fn parse_bitrate(s: &str) -> (r: Option<String>)
    ensures
        match r {
            Some(t) => bitrate_text(s@) == Some(t@),
            None => bitrate_text(s@) is None,
        },
{
    let cs = chars_of(s);
    let t = trim_ws_exec(&cs);
    let mut k: usize = 0;
    let mut v: u64 = 0;
    assert(t@.skip(0) =~= t@);
    while k < t.len() && '0' <= t[k] && t[k] <= '9'
        invariant
            k <= t.len(),
            t@ == trim_ws(s@),
            digit_prefix_len(t@) == k + digit_prefix_len(t@.skip(k as int)),
            all_digits(t@.take(k as int)),
            v == digits_value(t@.take(k as int)),
            v <= 9999,
        decreases t.len() - k,
    {
        assert(t@.skip(k as int).drop_first() =~= t@.skip(k + 1));
        assert(t@.take(k + 1).drop_last() =~= t@.take(k as int));
        v = v * 10 + ((t[k] as u32) - ('0' as u32)) as u64;
        k += 1;
        assert(all_digits(t@.take(k as int))) by {
            assert forall|j: int| 0 <= j < k implies is_digit(#[trigger] t@.take(k as int)[j]) by {
                if j < k - 1 {
                    assert(t@.take(k as int)[j] == t@.take(k - 1)[j]);
                }
            }
        }
        if v > 9999 {
            proof {
                lemma_digit_prefix_all_digits(t@);
                lemma_digit_prefix_nonneg(t@.skip(k as int));
                lemma_digits_value_prefix(t@.take(digit_prefix_len(t@)), k as int);
                assert(t@.take(digit_prefix_len(t@)).take(k as int) =~= t@.take(k as int));
                assert(digits_value(t@.take(digit_prefix_len(t@))) > 9999);
            }
            return None;
        }
    }
    proof {
        if k < t.len() {
            assert(digit_prefix_len(t@.skip(k as int)) == 0);
        } else {
            assert(t@.skip(k as int).len() == 0);
        }
    }
    if k == 0 {
        return None;
    }
    let kilo = k == t.len() || (t.len() - k == 1 && (t[k] == 'k' || t[k] == 'K'));
    let mega = k < t.len() && t.len() - k == 1 && (t[k] == 'm' || t[k] == 'M');
    proof {
        lemma_unit_text(t@, k as int);
    }
    if !(kilo || mega) {
        return None;
    }
    if v == 0 {
        proof {
            reveal_strlit("0");
        }
        return Some(owned("0"));
    }
    if kilo && 4 <= v && v <= 9999 {
        let n = int_to_string(v as i64);
        proof {
            reveal_strlit("k");
        }
        Some(cat(n.as_str(), "k"))
    } else if mega && 1 <= v && v <= 999 {
        let n = int_to_string(v as i64);
        proof {
            reveal_strlit("M");
        }
        Some(cat(n.as_str(), "M"))
    } else {
        None
    }
}

} // verus!

//! Small wire-format scalars: unsigned decimal numbers and whitespace
//! trimming.
//!
//! The service writes counters and identifiers as plain decimal strings
//! and allows arbitrary surrounding whitespace in composite values, so the
//! parsers here accept exactly what `str::parse::<u64>` accepts (an
//! optional leading `+` followed by ASCII digits) and the renderers emit
//! the canonical digit form.

use vstd::prelude::*;

verus! {

/// Relies on `str`'s `PartialEq`: two string slices are equal exactly
/// when they hold the same characters.
pub assume_specification[ <str as PartialEq<str>>::eq ](a: &str, b: &str) -> (r: bool)
    ensures
        r == (a@ == b@),
;

/// An ASCII decimal digit.
pub open spec fn is_digit(c: char) -> bool {
    48 <= c as int <= 57
}

/// The numeric value of an ASCII decimal digit.
pub open spec fn digit_val(c: char) -> int {
    c as int - 48
}

/// All characters are ASCII decimal digits.
pub open spec fn all_digits(s: Seq<char>) -> bool {
    forall|i: int| 0 <= i < s.len() ==> is_digit(s[i])
}

/// The number written by a digit string, most significant digit first.
pub open spec fn digits_val(s: Seq<char>) -> int
    decreases s.len(),
{
    if s.len() == 0 {
        0
    } else {
        digits_val(s.drop_last()) * 10 + digit_val(s.last())
    }
}

/// What `str::parse::<u64>` accepts: an optional leading `+`, then one or
/// more ASCII digits whose value fits in 64 bits.
pub open spec fn parse_u64_spec(s: Seq<char>) -> Option<u64> {
    let body = if s.len() > 0 && s[0] == '+' {
        s.skip(1)
    } else {
        s
    };
    if body.len() == 0 || !all_digits(body) || digits_val(body) > u64::MAX {
        None
    } else {
        Some(digits_val(body) as u64)
    }
}

/// `o`, or zero where `o` is `None`: the leniency rule for score parts.
pub open spec fn or_zero(o: Option<u64>) -> u64 {
    match o {
        Some(n) => n,
        None => 0u64,
    }
}

proof fn lemma_digits_val_nonneg(s: Seq<char>)
    requires
        all_digits(s),
    ensures
        digits_val(s) >= 0,
    decreases s.len(),
{
    if s.len() > 0 {
        assert(all_digits(s.drop_last()));
        lemma_digits_val_nonneg(s.drop_last());
    }
}

proof fn lemma_digits_val_prefix_le(s: Seq<char>, k: int)
    requires
        all_digits(s),
        0 <= k <= s.len(),
    ensures
        digits_val(s.take(k)) <= digits_val(s),
    decreases s.len() - k,
{
    if k < s.len() {
        lemma_digits_val_prefix_le(s, k + 1);
        assert(s.take(k + 1).drop_last() =~= s.take(k));
        assert(all_digits(s.take(k)));
        lemma_digits_val_nonneg(s.take(k));
        assert(digits_val(s.take(k + 1)) == digits_val(s.take(k)) * 10 + digit_val(s[k]));
    } else {
        assert(s.take(k) =~= s);
    }
}

/// The digit value of `c`, or `None` when `c` is not an ASCII digit.
fn digit_of(c: char) -> (r: Option<u64>)
    ensures
        match r {
            Some(d) => is_digit(c) && d == digit_val(c),
            None => !is_digit(c),
        },
{
    let u = c as u32;
    if 48 <= u && u <= 57 {
        Some((u - 48) as u64)
    } else {
        None
    }
}

/// Parses an unsigned decimal number exactly as `str::parse::<u64>` does.
pub fn parse_u64(s: &str) -> (r: Option<u64>)
    ensures
        r == parse_u64_spec(s@),
{
    let len = s.unicode_len();
    let start: usize = if len > 0 && s.get_char(0) == '+' {
        1
    } else {
        0
    };
    let ghost body = s@.skip(start as int);
    proof {
        assert(s@.skip(0) =~= s@);
    }
    if start == len {
        return None;
    }
    let mut acc: u64 = 0;
    let mut i: usize = start;
    while i < len
        invariant
            start <= i <= len,
            start < len,
            len == s@.len(),
            body == s@.skip(start as int),
            body == (if s@.len() > 0 && s@[0] == '+' {
                s@.skip(1)
            } else {
                s@
            }),
            all_digits(body.take(i - start)),
            acc == digits_val(body.take(i - start)),
        decreases len - i,
    {
        let c = s.get_char(i);
        assert(body[i - start] == s@[i as int]);
        match digit_of(c) {
            None => {
                assert(!all_digits(body));
                return None;
            },
            Some(d) => {
                proof {
                    assert(body.take(i + 1 - start).drop_last() =~= body.take(i - start));
                    assert(body.take(i + 1 - start).last() == s@[i as int]);
                }
                let next = match acc.checked_mul(10) {
                    Some(x) => x.checked_add(d),
                    None => None,
                };
                match next {
                    Some(x) => {
                        acc = x;
                    },
                    None => {
                        proof {
                            if all_digits(body) {
                                lemma_digits_val_prefix_le(body, i + 1 - start);
                            }
                        }
                        return None;
                    },
                }
            },
        }
        i += 1;
    }
    proof {
        assert(body.take(len - start) =~= body);
    }
    Some(acc)
}

/// The digit character for `d`.
pub open spec fn dec_digit(d: int) -> char {
    if d == 0 {
        '0'
    } else if d == 1 {
        '1'
    } else if d == 2 {
        '2'
    } else if d == 3 {
        '3'
    } else if d == 4 {
        '4'
    } else if d == 5 {
        '5'
    } else if d == 6 {
        '6'
    } else if d == 7 {
        '7'
    } else if d == 8 {
        '8'
    } else {
        '9'
    }
}

/// The canonical decimal rendering of a non-negative number.
pub open spec fn dec_str(n: int) -> Seq<char>
    decreases n,
{
    if n < 10 {
        seq![dec_digit(n)]
    } else {
        dec_str(n / 10).push(dec_digit(n % 10))
    }
}

fn dec_digit_str(d: u64) -> (r: &'static str)
    requires
        d < 10,
    ensures
        r@ == seq![dec_digit(d as int)],
{
    proof {
        reveal_strlit("0");
        reveal_strlit("1");
        reveal_strlit("2");
        reveal_strlit("3");
        reveal_strlit("4");
        reveal_strlit("5");
        reveal_strlit("6");
        reveal_strlit("7");
        reveal_strlit("8");
        reveal_strlit("9");
    }
    let r = match d {
        0 => "0",
        1 => "1",
        2 => "2",
        3 => "3",
        4 => "4",
        5 => "5",
        6 => "6",
        7 => "7",
        8 => "8",
        _ => "9",
    };
    proof {
        assert(r@ =~= seq![dec_digit(d as int)]);
    }
    r
}

/// Renders `n` in its canonical decimal form, as `u64::to_string` does.
pub fn u64_to_string(n: u64) -> (r: String)
    ensures
        r@ == dec_str(n as int),
    decreases n,
{
    if n < 10 {
        String::from_str(dec_digit_str(n))
    } else {
        let mut s = u64_to_string(n / 10);
        s.append(dec_digit_str(n % 10));
        proof {
            assert(s@ =~= dec_str(n as int / 10).push(dec_digit(n as int % 10)));
        }
        s
    }
}

/// Every canonical decimal rendering is non-empty, is all digits (so in
/// particular starts with no sign), and reads back as the number it
/// renders.
pub proof fn lemma_dec_str_digits(n: int)
    requires
        n >= 0,
    ensures
        all_digits(dec_str(n)),
        digits_val(dec_str(n)) == n,
        dec_str(n).len() >= 1,
    decreases n,
{
    if n < 10 {
        let s = seq![dec_digit(n)];
        assert(s.drop_last() =~= Seq::<char>::empty());
        assert(digits_val(Seq::<char>::empty()) == 0);
        assert(s.last() == dec_digit(n));
        assert(digits_val(s) == digits_val(s.drop_last()) * 10 + digit_val(s.last()));
    } else {
        lemma_dec_str_digits(n / 10);
        let s = dec_str(n / 10).push(dec_digit(n % 10));
        assert(s.drop_last() =~= dec_str(n / 10));
        assert(s.last() == dec_digit(n % 10));
        assert(digits_val(s) == digits_val(dec_str(n / 10)) * 10 + digit_val(dec_digit(n % 10)));
        assert(n / 10 * 10 + n % 10 == n) by (nonlinear_arith);
        assert(forall|i: int|
            0 <= i < s.len() ==> is_digit(
                #[trigger] s[i],
            )) by {
            assert(forall|i: int| 0 <= i < s.len() - 1 ==> s[i] == dec_str(n / 10)[i]);
        }
    }
}

/// Decimal rendering round-trips through the decimal parser.
pub proof fn lemma_u64_round_trip(n: u64)
    ensures
        parse_u64_spec(dec_str(n as int)) == Some(n),
{
    lemma_dec_str_digits(n as int);
    let s = dec_str(n as int);
    assert(is_digit(s[0]));
    assert(s[0] != '+');
}

/// An ASCII whitespace character, as surrounding whitespace in composite
/// wire values.
pub open spec fn is_space(c: char) -> bool {
    c == ' ' || c == '\t' || c == '\n' || c == '\r' || c == '\u{b}' || c == '\u{c}'
}

/// The number of whitespace characters at the front of `s`.
pub open spec fn leading_spaces(s: Seq<char>) -> int
    decreases s.len(),
{
    if s.len() == 0 || !is_space(s[0]) {
        0
    } else {
        1 + leading_spaces(s.skip(1))
    }
}

/// The number of whitespace characters at the back of `s`.
pub open spec fn trailing_spaces(s: Seq<char>) -> int
    decreases s.len(),
{
    if s.len() == 0 || !is_space(s.last()) {
        0
    } else {
        1 + trailing_spaces(s.drop_last())
    }
}

/// `s` without its surrounding whitespace.
pub open spec fn trim_spec(s: Seq<char>) -> Seq<char> {
    let t = s.skip(leading_spaces(s));
    t.take(t.len() - trailing_spaces(t))
}

proof fn lemma_leading_spaces_at(s: Seq<char>, a: int)
    requires
        0 <= a <= s.len(),
        forall|j: int| 0 <= j < a ==> is_space(s[j]),
        a == s.len() || !is_space(s[a]),
    ensures
        leading_spaces(s) == a,
    decreases a,
{
    if a > 0 {
        lemma_leading_spaces_at(s.skip(1), a - 1);
    }
}

proof fn lemma_trailing_spaces_at(s: Seq<char>, b: int)
    requires
        0 <= b <= s.len(),
        forall|j: int| b <= j < s.len() ==> is_space(s[j]),
        b == 0 || !is_space(s[b - 1]),
    ensures
        trailing_spaces(s) == s.len() - b,
    decreases s.len() - b,
{
    if b < s.len() {
        lemma_trailing_spaces_at(s.drop_last(), b);
    }
}

fn is_space_char(c: char) -> (r: bool)
    ensures
        r == is_space(c),
{
    match c {
        ' ' | '\t' | '\n' | '\r' | '\u{b}' | '\u{c}' => true,
        _ => false,
    }
}

/// Strips surrounding whitespace, as `str::trim` does on such input.
pub fn trim(s: &str) -> (r: &str)
    ensures
        r@ == trim_spec(s@),
{
    let len = s.unicode_len();
    let mut a: usize = 0;
    while a < len && is_space_char(s.get_char(a))
        invariant
            a <= len,
            len == s@.len(),
            forall|j: int| 0 <= j < a ==> is_space(s@[j]),
        decreases len - a,
    {
        a += 1;
    }
    proof {
        lemma_leading_spaces_at(s@, a as int);
    }
    let mut b: usize = len;
    while b > a && is_space_char(s.get_char(b - 1))
        invariant
            a <= b <= len,
            len == s@.len(),
            a == leading_spaces(s@),
            forall|j: int| b <= j < len ==> is_space(s@[j]),
        decreases b,
    {
        b -= 1;
    }
    let ghost t = s@.skip(a as int);
    proof {
        assert(forall|j: int| b - a <= j < t.len() ==> is_space(#[trigger] t[j]));
        if b > a {
            assert(t[b - a - 1] == s@[b - 1]);
        }
        lemma_trailing_spaces_at(t, b - a);
        assert(t.take(b - a) =~= s@.subrange(a as int, b as int));
    }
    s.substring_char(a, b)
}

/// The wire spelling of a boolean.
pub open spec fn bool_str(b: bool) -> Seq<char> {
    if b {
        "true"@
    } else {
        "false"@
    }
}

/// Renders a boolean as the wire spells it.
pub fn bool_to_string(b: bool) -> (r: String)
    ensures
        r@ == bool_str(b),
{
    String::from_str(
        if b {
            "true"
        } else {
            "false"
        },
    )
}

/// Trimming a string without whitespace leaves it unchanged.
pub proof fn lemma_trim_nonspace(s: Seq<char>)
    requires
        forall|i: int| 0 <= i < s.len() ==> !is_space(s[i]),
    ensures
        trim_spec(s) == s,
{
    assert(leading_spaces(s) == 0);
    assert(s.skip(0) =~= s);
    assert(trailing_spaces(s) == 0);
    assert(s.take(s.len() as int) =~= s);
}

/// The position of the first occurrence of `c` in `s`, or the length of
/// `s` when there is none.
pub open spec fn first_index(s: Seq<char>, c: char) -> int
    decreases s.len(),
{
    if s.len() == 0 {
        0
    } else if s[0] == c {
        0
    } else {
        1 + first_index(s.skip(1), c)
    }
}

/// A position with no occurrence before it, holding one (or the end), is
/// the first occurrence.
pub proof fn lemma_first_index_at(s: Seq<char>, c: char, i: int)
    requires
        0 <= i <= s.len(),
        forall|j: int| 0 <= j < i ==> s[j] != c,
        i == s.len() || s[i] == c,
    ensures
        first_index(s, c) == i,
    decreases i,
{
    if i > 0 {
        lemma_first_index_at(s.skip(1), c, i - 1);
    }
}

/// The segments of `s` between occurrences of `c`; splitting never yields
/// an empty list (an empty string is one empty segment).
pub open spec fn split_at_char(s: Seq<char>, c: char) -> Seq<Seq<char>>
    decreases s.len(),
{
    if s.len() == 0 {
        seq![Seq::<char>::empty()]
    } else if s[0] == c {
        seq![Seq::<char>::empty()] + split_at_char(s.skip(1), c)
    } else {
        let rest = split_at_char(s.skip(1), c);
        seq![seq![s[0]] + rest[0]] + rest.skip(1)
    }
}

/// Splitting yields at least one segment.
pub proof fn lemma_split_len(s: Seq<char>, c: char)
    ensures
        split_at_char(s, c).len() >= 1,
    decreases s.len(),
{
    if s.len() > 0 {
        lemma_split_len(s.skip(1), c);
    }
}

/// How a scan for the first separator reads off the head of a split: with
/// no separator the whole string is the single segment; otherwise the
/// head segment stops at the separator and the rest splits on its own.
pub proof fn lemma_split_head(s: Seq<char>, c: char, i: int)
    requires
        0 <= i <= s.len(),
        forall|j: int| 0 <= j < i ==> s[j] != c,
        i == s.len() || s[i] == c,
    ensures
        split_at_char(s, c) == if i == s.len() {
            seq![s]
        } else {
            seq![s.take(i)] + split_at_char(s.skip(i + 1), c)
        },
    decreases i, s.len(),
{
    lemma_split_len(s.skip(1), c);
    if s.len() == 0 {
        assert(s =~= Seq::<char>::empty());
        assert(split_at_char(s, c) =~= seq![s]);
    } else if i == 0 {
        if i < s.len() {
            assert(split_at_char(s, c) == seq![Seq::<char>::empty()] + split_at_char(
                s.skip(1),
                c,
            ));
            assert(s.take(0) =~= Seq::<char>::empty());
            assert(split_at_char(s, c) =~= seq![s.take(0)] + split_at_char(s.skip(1int), c));
        }
    } else {
        lemma_split_head(s.skip(1), c, i - 1);
        let rest = split_at_char(s.skip(1), c);
        if i == s.len() {
            assert(s.len() > 0);
            assert(s[0] != c);
            assert(rest == seq![s.skip(1)]);
            assert(split_at_char(s, c) == seq![seq![s[0]] + split_at_char(s.skip(1), c)[0]]
                + split_at_char(s.skip(1), c).skip(1));
            assert(seq![s[0]] + rest[0] =~= s);
            assert(rest.skip(1) =~= Seq::<Seq<char>>::empty());
            assert(split_at_char(s, c) =~= seq![s]);
        } else {
            assert(rest == seq![s.skip(1).take(i - 1)] + split_at_char(s.skip(1).skip(i), c));
            assert(seq![s[0]] + rest[0] =~= s.take(i));
            assert(s.skip(1).skip(i) =~= s.skip(i + 1));
            assert(rest.skip(1) =~= split_at_char(s.skip(i + 1), c));
            assert(split_at_char(s, c) =~= seq![s.take(i)] + split_at_char(s.skip(i + 1), c));
        }
    }
}

/// The thousandths written by a fraction part of one to three digits, or
/// `None` where the part has another shape.
pub open spec fn frac_thousandths(frac: Seq<char>) -> Option<int> {
    if 1 <= frac.len() <= 3 && all_digits(frac) {
        Some(
            digits_val(frac) * (if frac.len() == 1 {
                100int
            } else if frac.len() == 2 {
                10int
            } else {
                1int
            }),
        )
    } else {
        None
    }
}

/// The point value written by a decimal string, in thousandths of a
/// point, or `None` where the string has another shape.
///
/// Point values travel as decimal strings such as `"1.0"` or `"0.5"`;
/// this crate holds them as integer thousandths. A string is read as
/// digits, optionally followed by `.` and one to three fraction digits;
/// any other shape, or a value over the representable range, does not
/// parse.
pub open spec fn points_opt_of(s: Seq<char>) -> Option<u64> {
    let parts = split_at_char(s, '.');
    if parts.len() == 1 {
        match parse_u64_spec(parts[0]) {
            Some(n) => if n * 1000 <= u64::MAX {
                Some((n * 1000) as u64)
            } else {
                None
            },
            None => None,
        }
    } else if parts.len() == 2 {
        match (parse_u64_spec(parts[0]), frac_thousandths(parts[1])) {
            (Some(n), Some(f)) => if n * 1000 + f <= u64::MAX {
                Some((n * 1000 + f) as u64)
            } else {
                None
            },
            _ => None,
        }
    } else {
        None
    }
}

/// The point value written by a decimal string, with the leniency every
/// required point field gets: a malformed string reads as zero.
pub open spec fn points_of(s: Seq<char>) -> u64 {
    or_zero(points_opt_of(s))
}

/// The canonical decimal rendering of a point value held as thousandths:
/// the whole part, then the fraction with trailing zeroes dropped.
pub open spec fn points_str(m: u64) -> Seq<char> {
    let whole = m as int / 1000;
    let frac = m as int % 1000;
    if frac == 0 {
        dec_str(whole)
    } else if frac % 100 == 0 {
        dec_str(whole) + seq!['.', dec_digit(frac / 100)]
    } else if frac % 10 == 0 {
        dec_str(whole) + seq!['.', dec_digit(frac / 100), dec_digit(frac / 10 % 10)]
    } else {
        dec_str(whole) + seq![
            '.',
            dec_digit(frac / 100),
            dec_digit(frac / 10 % 10),
            dec_digit(frac % 10),
        ]
    }
}

fn check_digits(s: &str) -> (r: bool)
    ensures
        r == all_digits(s@),
{
    let len = s.unicode_len();
    let mut i: usize = 0;
    while i < len
        invariant
            i <= len,
            len == s@.len(),
            forall|j: int| 0 <= j < i ==> is_digit(s@[j]),
        decreases len - i,
    {
        match digit_of(s.get_char(i)) {
            Some(_) => {
                i += 1;
            },
            None => {
                return false;
            },
        }
    }
    true
}

proof fn lemma_digits_val_small(s: Seq<char>)
    requires
        all_digits(s),
        s.len() <= 3,
    ensures
        0 <= digits_val(s) < 1000,
        s.len() <= 2 ==> digits_val(s) < 100,
        s.len() <= 1 ==> digits_val(s) < 10,
    decreases s.len(),
{
    if s.len() > 0 {
        assert(all_digits(s.drop_last()));
        lemma_digits_val_small(s.drop_last());
    }
}

proof fn lemma_digits_not_char(s: Seq<char>, c: char)
    requires
        all_digits(s),
        !is_digit(c),
    ensures
        forall|j: int| 0 <= j < s.len() ==> s[j] != c,
{
}

/// Parses a decimal point string into thousandths, or `None` where the
/// string is malformed or out of range.
pub fn parse_points_opt(s: &str) -> (r: Option<u64>)
    ensures
        r == points_opt_of(s@),
{
    let len = s.unicode_len();
    let dot = scan_char(s, '.');
    if dot == len {
        proof {
            lemma_split_head(s@, '.', dot as int);
        }
        match parse_u64(s) {
            Some(n) => n.checked_mul(1000),
            None => None,
        }
    } else {
        let whole_part = s.substring_char(0, dot);
        let frac_part = s.substring_char(dot + 1, len);
        proof {
            lemma_split_head(s@, '.', dot as int);
        }
        let frac_len = frac_part.unicode_len();
        let second_dot = scan_char(frac_part, '.');
        if second_dot != frac_len {
            proof {
                lemma_split_head(frac_part@, '.', second_dot as int);
                lemma_split_len(frac_part@.skip(second_dot + 1), '.');
            }
            return None;
        }
        proof {
            lemma_split_head(frac_part@, '.', second_dot as int);
        }
        if frac_len < 1 || frac_len > 3 || !check_digits(frac_part) {
            return None;
        }
        let scale: u64 = if frac_len == 1 {
            100
        } else if frac_len == 2 {
            10
        } else {
            1
        };
        let frac_val = match parse_u64(frac_part) {
            Some(f) => f,
            None => 0,
        };
        proof {
            lemma_digits_val_small(frac_part@);
            assert(frac_part@[0] != '+');
            assert(frac_part@.len() > 0);
        }
        match parse_u64(whole_part) {
            Some(n) => {
                let scaled = frac_val * scale;
                match n.checked_mul(1000) {
                    Some(w) => w.checked_add(scaled),
                    None => None,
                }
            },
            None => None,
        }
    }
}

/// Parses a decimal point string into thousandths; malformed or
/// out-of-range values read as zero.
pub fn parse_points(s: &str) -> (r: u64)
    ensures
        r == points_of(s@),
{
    match parse_points_opt(s) {
        Some(v) => v,
        None => 0,
    }
}

fn append_digit(s: &mut String, d: u64)
    requires
        d < 10,
    ensures
        final(s)@ == old(s)@.push(dec_digit(d as int)),
{
    s.append(dec_digit_str(d));
    proof {
        assert(final(s)@ =~= old(s)@.push(dec_digit(d as int)));
    }
}

/// Renders thousandths of a point in canonical decimal form.
pub fn points_to_string(m: u64) -> (r: String)
    ensures
        r@ == points_str(m),
{
    let whole = m / 1000;
    let frac = m % 1000;
    let mut out = u64_to_string(whole);
    if frac == 0 {
        return out;
    }
    out.append(".");
    proof {
        reveal_strlit(".");
    }
    append_digit(&mut out, frac / 100);
    if frac % 100 == 0 {
        proof {
            assert(out@ =~= dec_str(m as int / 1000) + seq!['.', dec_digit(m as int % 1000 / 100)]);
        }
        return out;
    }
    append_digit(&mut out, frac / 10 % 10);
    if frac % 10 == 0 {
        proof {
            assert(out@ =~= dec_str(m as int / 1000) + seq![
                '.',
                dec_digit(m as int % 1000 / 100),
                dec_digit(m as int % 1000 / 10 % 10),
            ]);
        }
        return out;
    }
    append_digit(&mut out, frac % 10);
    proof {
        assert(out@ =~= dec_str(m as int / 1000) + seq![
            '.',
            dec_digit(m as int % 1000 / 100),
            dec_digit(m as int % 1000 / 10 % 10),
            dec_digit(m as int % 1000 % 10),
        ]);
    }
    out
}

proof fn lemma_digits_val_pair(a: char, b: char)
    ensures
        digits_val(seq![a]) == digit_val(a),
        digits_val(seq![a, b]) == digit_val(a) * 10 + digit_val(b),
{
    assert(digits_val(Seq::<char>::empty()) == 0);
    assert(seq![a].drop_last() =~= Seq::<char>::empty());
    assert(seq![a].last() == a);
    assert(digits_val(seq![a]) == digits_val(seq![a].drop_last()) * 10 + digit_val(seq![a].last()));
    assert(seq![a, b].drop_last() =~= seq![a]);
    assert(seq![a, b].last() == b);
    assert(digits_val(seq![a, b]) == digits_val(seq![a, b].drop_last()) * 10 + digit_val(
        seq![a, b].last(),
    ));
}

proof fn lemma_digits_val_triple(a: char, b: char, c: char)
    ensures
        digits_val(seq![a, b, c]) == (digit_val(a) * 10 + digit_val(b)) * 10 + digit_val(c),
{
    lemma_digits_val_pair(a, b);
    assert(seq![a, b, c].drop_last() =~= seq![a, b]);
}

/// A point value round-trips: rendering thousandths and reading the
/// rendering back yields the same thousandths.
pub proof fn lemma_points_round_trip(m: u64)
    ensures
        points_opt_of(points_str(m)) == Some(m),
        points_of(points_str(m)) == m,
{
    let whole = m as int / 1000;
    let frac = m as int % 1000;
    let dec = dec_str(whole);
    lemma_dec_str_digits(whole);
    lemma_u64_round_trip((whole as u64));
    assert(whole * 1000 + frac == m) by (nonlinear_arith)
        requires
            whole == m as int / 1000,
            frac == m as int % 1000,
    ;
    lemma_digits_not_char(dec, '.');
    if frac == 0 {
        lemma_split_head(dec, '.', dec.len() as int);
    } else {
        let d1 = dec_digit(frac / 100);
        let d2 = dec_digit(frac / 10 % 10);
        let d3 = dec_digit(frac % 10);
        let fracseq = if frac % 100 == 0 {
            seq![d1]
        } else if frac % 10 == 0 {
            seq![d1, d2]
        } else {
            seq![d1, d2, d3]
        };
        let s = dec + seq!['.'] + fracseq;
        assert(points_str(m) =~= s);
        assert(forall|j: int| 0 <= j < dec.len() ==> s[j] == dec[j]);
        assert(s[dec.len() as int] == '.');
        lemma_split_head(s, '.', dec.len() as int);
        assert(s.take(dec.len() as int) =~= dec);
        assert(s.skip(dec.len() as int + 1) =~= fracseq);
        assert(all_digits(fracseq));
        lemma_digits_not_char(fracseq, '.');
        lemma_split_head(fracseq, '.', fracseq.len() as int);
        let parts = split_at_char(s, '.');
        assert(parts =~= seq![dec, fracseq]);
        assert(parts.len() == 2);
        lemma_digits_val_pair(d1, d2);
        lemma_digits_val_triple(d1, d2, d3);
        if frac % 100 == 0 {
            assert(digits_val(fracseq) == frac / 100);
            assert(frac / 100 * 100 == frac) by (nonlinear_arith)
                requires
                    0 <= frac < 1000,
                    frac % 100 == 0,
            ;
        } else if frac % 10 == 0 {
            assert(digits_val(fracseq) == frac / 100 * 10 + frac / 10 % 10);
            assert((frac / 100 * 10 + frac / 10 % 10) * 10 == frac) by (nonlinear_arith)
                requires
                    0 <= frac < 1000,
                    frac % 10 == 0,
            ;
        } else {
            assert(digits_val(fracseq) == (frac / 100 * 10 + frac / 10 % 10) * 10 + frac % 10);
            assert((frac / 100 * 10 + frac / 10 % 10) * 10 + frac % 10 == frac)
                by (nonlinear_arith)
                requires
                    0 <= frac < 1000,
            ;
        }
        assert(frac_thousandths(fracseq) == Some(frac));
    }
}

/// The position of the first occurrence of `c` in `s`, or the length of
/// `s` when there is none.
pub fn scan_char(s: &str, c: char) -> (r: usize)
    ensures
        r <= s@.len(),
        forall|j: int| 0 <= j < r ==> s@[j] != c,
        r == s@.len() || s@[r as int] == c,
{
    let len = s.unicode_len();
    let mut i: usize = 0;
    while i < len
        invariant
            i <= len,
            len == s@.len(),
            forall|j: int| 0 <= j < i ==> s@[j] != c,
        decreases len - i,
    {
        if s.get_char(i) == c {
            return i;
        }
        i += 1;
    }
    len
}

} // verus!

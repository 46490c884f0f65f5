//! Plain-text renderings of numbers: decimal strings, fixed-point strings
//! with one decimal place, two-digit fields, and parsers for hexadecimal
//! integers and decimal fractions.

use vstd::prelude::*;

verus! {

/// Decimal digit character for a value below ten.
pub open spec fn digit_char(d: nat) -> char {
    if d == 0 { '0' }
    else if d == 1 { '1' }
    else if d == 2 { '2' }
    else if d == 3 { '3' }
    else if d == 4 { '4' }
    else if d == 5 { '5' }
    else if d == 6 { '6' }
    else if d == 7 { '7' }
    else if d == 8 { '8' }
    else { '9' }
}

/// The decimal rendering of a natural number, most significant digit first.
pub open spec fn dec_digits(n: nat) -> Seq<char>
    decreases n,
{
    if n < 10 {
        seq![digit_char(n)]
    } else {
        dec_digits(n / 10) + seq![digit_char(n % 10)]
    }
}

/// A one-character string holding the digit `d`.
pub fn digit_str(d: u64) -> (r: &'static str)
    requires
        d < 10,
    ensures
        r@ == seq![digit_char(d as nat)],
{
    proof {
        reveal_strlit("0");
        reveal_strlit("1");
        reveal_strlit("2");
        reveal_strlit("3");
        reveal_strlit("4");
        reveal_strlit("5");
        reveal_strlit("6");
        reveal_strlit("7");
        reveal_strlit("8");
        reveal_strlit("9");
    }
    let r = match d {
        0 => "0",
        1 => "1",
        2 => "2",
        3 => "3",
        4 => "4",
        5 => "5",
        6 => "6",
        7 => "7",
        8 => "8",
        _ => "9",
    };
    proof {
        assert(r@ =~= seq![digit_char(d as nat)]);
    }
    r
}

/// Renders `n` in decimal.
pub fn u64_to_string(n: u64) -> (r: String)
    ensures
        r@ == dec_digits(n as nat),
    decreases n,
{
    if n < 10 {
        let mut s = String::new();
        s.append(digit_str(n));
        proof {
            assert(s@ =~= dec_digits(n as nat));
        }
        s
    } else {
        let mut s = u64_to_string(n / 10);
        s.append(digit_str(n % 10));
        proof {
            assert(s@ =~= dec_digits(n as nat));
        }
        s
    }
}

/// The rendering of a quantity counted in tenths, with one decimal place:
/// `125` tenths reads `12.5`.
pub open spec fn tenths_digits(t: nat) -> Seq<char> {
    dec_digits(t / 10) + seq!['.'] + seq![digit_char(t % 10)]
}

/// Renders a quantity of tenths with one decimal place.
pub fn tenths_to_string(t: u64) -> (r: String)
    ensures
        r@ == tenths_digits(t as nat),
{
    proof {
        reveal_strlit(".");
    }
    let s = u64_to_string(t / 10);
    let s = s.concat(".");
    let s = s.concat(digit_str(t % 10));
    proof {
        assert(s@ =~= tenths_digits(t as nat));
    }
    s
}

/// The rendering of `n` padded with a leading zero to at least two digits.
pub open spec fn two_digit_digits(n: nat) -> Seq<char> {
    if n < 10 {
        seq!['0', digit_char(n)]
    } else {
        dec_digits(n)
    }
}

/// Renders `n` with at least two digits, zero-padded on the left.
pub fn two_digit_string(n: u64) -> (r: String)
    ensures
        r@ == two_digit_digits(n as nat),
{
    if n < 10 {
        proof {
            reveal_strlit("0");
        }
        let mut s = String::new();
        s.append("0");
        s.append(digit_str(n));
        proof {
            assert(s@ =~= two_digit_digits(n as nat));
        }
        s
    } else {
        u64_to_string(n)
    }
}

/// The character sequences of a list of strings.
pub open spec fn string_views(v: Seq<String>) -> Seq<Seq<char>> {
    v.map_values(|s: String| s@)
}

/// Whether two text slices hold the same characters.
pub fn str_eq(a: &str, b: &str) -> (r: bool)
    ensures
        r == (a@ == b@),
{
    let la = a.unicode_len();
    let lb = b.unicode_len();
    if la != lb {
        return false;
    }
    let mut i: usize = 0;
    while i < la
        invariant
            la == a@.len(),
            la == b@.len(),
            i <= la,
            forall|j: int| 0 <= j < i ==> a@[j] == b@[j],
        decreases la - i,
    {
        if a.get_char(i) != b.get_char(i) {
            return false;
        }
        i += 1;
    }
    proof {
        assert(a@ =~= b@);
    }
    true
}

/// Whether `c` is a decimal digit.
pub open spec fn is_dec_digit(c: char) -> bool {
    '0' <= c && c <= '9'
}

/// The numeric value of a decimal digit.
pub open spec fn dec_digit_value(c: char) -> nat {
    (c as nat - '0' as nat) as nat
}

/// Whether `c` is a hexadecimal digit (either case).
pub open spec fn is_hex_digit(c: char) -> bool {
    is_dec_digit(c) || ('a' <= c && c <= 'f') || ('A' <= c && c <= 'F')
}

/// The numeric value of a hexadecimal digit.
pub open spec fn hex_digit_value(c: char) -> nat {
    if is_dec_digit(c) {
        dec_digit_value(c)
    } else if 'a' <= c && c <= 'f' {
        (c as nat - 'a' as nat + 10) as nat
    } else {
        (c as nat - 'A' as nat + 10) as nat
    }
}

/// The value of `s` read as a hexadecimal numeral.
pub open spec fn hex_value(s: Seq<char>) -> nat
    decreases s.len(),
{
    if s.len() == 0 {
        0
    } else {
        hex_value(s.drop_last()) * 16 + hex_digit_value(s.last())
    }
}

/// The value of `s` read as a decimal numeral.
pub open spec fn dec_value(s: Seq<char>) -> nat
    decreases s.len(),
{
    if s.len() == 0 {
        0
    } else {
        dec_value(s.drop_last()) * 10 + dec_digit_value(s.last())
    }
}

/// Whether every character of `s` is a hexadecimal digit.
pub open spec fn all_hex_digits(s: Seq<char>) -> bool {
    forall|i: int| 0 <= i < s.len() ==> is_hex_digit(#[trigger] s[i])
}

/// Whether every character of `s` is a decimal digit.
pub open spec fn all_dec_digits(s: Seq<char>) -> bool {
    forall|i: int| 0 <= i < s.len() ==> is_dec_digit(#[trigger] s[i])
}

/// Classifies one character as a hexadecimal digit and gives its value.
fn hex_digit_of(c: char) -> (r: Option<u32>)
    ensures
        match r {
            Some(v) => is_hex_digit(c) && v == hex_digit_value(c) && v < 16,
            None => !is_hex_digit(c),
        },
{
    let u = c as u32;
    if 48 <= u && u <= 57 {
        Some(u - 48)
    } else if 97 <= u && u <= 102 {
        Some(u - 97 + 10)
    } else if 65 <= u && u <= 70 {
        Some(u - 65 + 10)
    } else {
        None
    }
}

/// Classifies one character as a decimal digit and gives its value.
fn dec_digit_of(c: char) -> (r: Option<u32>)
    ensures
        match r {
            Some(v) => is_dec_digit(c) && v == dec_digit_value(c) && v < 10,
            None => !is_dec_digit(c),
        },
{
    let u = c as u32;
    if 48 <= u && u <= 57 {
        Some(u - 48)
    } else {
        None
    }
}

/// Reads `s` as an unsigned hexadecimal numeral. Gives the value exactly
/// when `s` is nonempty, holds only hexadecimal digits, and the value fits
/// in 32 bits.
pub fn parse_hex_u32(s: &str) -> (r: Option<u32>)
    ensures
        match r {
            Some(v) => s@.len() > 0 && all_hex_digits(s@) && hex_value(s@) <= u32::MAX
                && v == hex_value(s@),
            None => s@.len() == 0 || !all_hex_digits(s@) || hex_value(s@) > u32::MAX,
        },
{
    let len = s.unicode_len();
    if len == 0 {
        return None;
    }
    let mut value: u64 = 0;
    let mut big: bool = false;
    let mut i: usize = 0;
    while i < len
        invariant
            len == s@.len(),
            i <= len,
            all_hex_digits(s@.take(i as int)),
            !big ==> value == hex_value(s@.take(i as int)) && value <= u32::MAX,
            big ==> hex_value(s@.take(i as int)) > u32::MAX,
        decreases len - i,
    {
        let c = s.get_char(i);
        match hex_digit_of(c) {
            None => {
                return None;
            },
            Some(d) => {
                proof {
                    assert(s@.take(i + 1 as int).drop_last() =~= s@.take(i as int));
                    assert(s@.take(i + 1 as int).last() == s@[i as int]);
                }
                if big {
                    proof {
                        assert(hex_value(s@.take(i + 1 as int)) > u32::MAX);
                    }
                } else {
                    value = value * 16 + (d as u64);
                    if value > 0xffff_ffff {
                        big = true;
                    }
                }
            },
        }
        i += 1;
    }
    proof {
        assert(s@.take(len as int) =~= s@);
    }
    if big {
        None
    } else {
        Some(value as u32)
    }
}

/// Position of the first occurrence of `c` in `s` from position `i` on, or
/// the length of `s` when there is none.
pub open spec fn first_at(s: Seq<char>, c: char, i: int) -> int
    decreases s.len() - i,
{
    if i < 0 || i >= s.len() {
        s.len() as int
    } else if s[i] == c {
        i
    } else {
        first_at(s, c, i + 1)
    }
}

pub proof fn lemma_first_at(s: Seq<char>, c: char, i: int, k: int)
    requires
        0 <= i <= k <= s.len(),
        forall|j: int| i <= j < k ==> s[j] != c,
        k < s.len() ==> s[k] == c,
    ensures
        first_at(s, c, i) == k,
    decreases k - i,
{
    if i < s.len() && s[i] != c {
        lemma_first_at(s, c, i + 1, k);
    }
}

/// The per-mille value contributed by a fraction part: its first three
/// digits weigh one hundred, ten and one.
pub open spec fn frac_permille(s: Seq<char>) -> nat {
    (if s.len() >= 1 { dec_digit_value(s[0]) * 100 } else { 0 })
        + (if s.len() >= 2 { dec_digit_value(s[1]) * 10 } else { 0 }) + (if s.len() >= 3 {
        dec_digit_value(s[2])
    } else {
        0
    })
}

/// Whether every digit of a fraction part past the third is a zero, so that
/// the part is expressible on a per-mille scale.
pub open spec fn frac_tail_zero(s: Seq<char>) -> bool {
    forall|i: int| 3 <= i < s.len() ==> s[i] == '0'
}

/// The width fraction that `s` denotes, on a per-mille scale, when `s` is a
/// plain decimal numeral (digits, at most one point, at least one digit)
/// that lies in (0, 1] and is expressible in whole per-mille steps.
pub open spec fn width_permille_of(s: Seq<char>) -> Option<nat> {
    let d = first_at(s, '.', 0);
    let ip = s.take(d);
    let fp = if d < s.len() {
        s.subrange(d + 1, s.len() as int)
    } else {
        Seq::<char>::empty()
    };
    if all_dec_digits(ip) && all_dec_digits(fp) && ip.len() + fp.len() > 0 && frac_tail_zero(fp) {
        let v = dec_value(ip) * 1000 + frac_permille(fp);
        if 0 < v <= 1000 {
            Some(v)
        } else {
            None
        }
    } else {
        None
    }
}

/// Reads a decimal numeral, reporting values above one thousand only as
/// "too large".
fn parse_dec_sat(s: &str) -> (r: Option<u64>)
    ensures
        match r {
            Some(v) => all_dec_digits(s@) && (v <= 1000 ==> v == dec_value(s@)) && (v > 1000
                <==> dec_value(s@) > 1000),
            None => !all_dec_digits(s@),
        },
{
    let len = s.unicode_len();
    let mut value: u64 = 0;
    let mut i: usize = 0;
    while i < len
        invariant
            len == s@.len(),
            i <= len,
            all_dec_digits(s@.take(i as int)),
            value <= 1000 ==> value == dec_value(s@.take(i as int)),
            value > 1000 <==> dec_value(s@.take(i as int)) > 1000,
            value <= 1001,
        decreases len - i,
    {
        let c = s.get_char(i);
        match dec_digit_of(c) {
            None => {
                return None;
            },
            Some(d) => {
                proof {
                    assert(s@.take(i + 1 as int).drop_last() =~= s@.take(i as int));
                    assert(s@.take(i + 1 as int).last() == s@[i as int]);
                }
                if value <= 1000 {
                    value = value * 10 + (d as u64);
                    if value > 1000 {
                        value = 1001;
                    }
                }
            },
        }
        i += 1;
    }
    proof {
        assert(s@.take(len as int) =~= s@);
    }
    Some(value)
}

/// Reads a fraction part on the per-mille scale.
fn parse_frac_permille(s: &str) -> (r: Option<u32>)
    ensures
        match r {
            Some(v) => all_dec_digits(s@) && frac_tail_zero(s@) && v == frac_permille(s@) && v
                < 1000,
            None => !(all_dec_digits(s@) && frac_tail_zero(s@)),
        },
{
    let len = s.unicode_len();
    let mut value: u32 = 0;
    let mut i: usize = 0;
    while i < len
        invariant
            len == s@.len(),
            i <= len,
            all_dec_digits(s@.take(i as int)),
            frac_tail_zero(s@.take(i as int)),
            value == frac_permille(s@.take(i as int)),
            value < 1000,
        decreases len - i,
    {
        let c = s.get_char(i);
        match dec_digit_of(c) {
            None => {
                return None;
            },
            Some(d) => {
                proof {
                    assert(s@.take(i + 1 as int) =~= s@.take(i as int).push(s@[i as int]));
                }
                if i == 0 {
                    value = d * 100;
                } else if i == 1 {
                    value = value + d * 10;
                } else if i == 2 {
                    value = value + d;
                } else {
                    if d != 0 {
                        return None;
                    }
                }
            },
        }
        i += 1;
    }
    proof {
        assert(s@.take(len as int) =~= s@);
    }
    Some(value)
}

/// Reads a width fraction, giving its per-mille value exactly when
/// `width_permille_of` accepts the text.
pub fn parse_width_permille(s: &str) -> (r: Option<u32>)
    ensures
        match r {
            Some(v) => width_permille_of(s@) == Some(v as nat),
            None => width_permille_of(s@) is None,
        },
{
    let len = s.unicode_len();
    let (ip, fp) = match find_char(s, '.') {
        Some(d) => {
            proof {
                lemma_first_at(s@, '.', 0, d as int);
            }
            (s.substring_char(0, d), s.substring_char(d + 1, len))
        },
        None => {
            proof {
                lemma_first_at(s@, '.', 0, len as int);
            }
            (s.substring_char(0, len), s.substring_char(len, len))
        },
    };
    proof {
        assert(ip@ =~= s@.take(first_at(s@, '.', 0)));
        if first_at(s@, '.', 0) < s@.len() {
            assert(fp@ =~= s@.subrange(first_at(s@, '.', 0) + 1, s@.len() as int));
        } else {
            assert(fp@ =~= Seq::<char>::empty());
        }
    }
    let int_part = match parse_dec_sat(ip) {
        Some(v) => v,
        None => {
            return None;
        },
    };
    let frac_part = match parse_frac_permille(fp) {
        Some(v) => v,
        None => {
            return None;
        },
    };
    if ip.unicode_len() == 0 && fp.unicode_len() == 0 {
        return None;
    }
    if int_part > 1000 {
        return None;
    }
    let total: u64 = int_part * 1000 + (frac_part as u64);
    if 0 < total && total <= 1000 {
        Some(total as u32)
    } else {
        None
    }
}

/// Whether `c` is one of the blank characters that trimming removes.
pub open spec fn is_ascii_space(c: char) -> bool {
    c == ' ' || c == '\t' || c == '\n' || c == '\r'
}

/// The first position from `i` on that holds no blank character, or the
/// length of `s` when blanks run to the end.
pub open spec fn first_non_space(s: Seq<char>, i: int) -> int
    decreases s.len() - i,
{
    if i < 0 || i >= s.len() {
        s.len() as int
    } else if is_ascii_space(s[i]) {
        first_non_space(s, i + 1)
    } else {
        i
    }
}

/// The end of `s` once trailing blanks are dropped, scanning down from `e`.
pub open spec fn trim_end(s: Seq<char>, e: int) -> int
    decreases e,
{
    if e <= 0 {
        0
    } else if is_ascii_space(s[e - 1]) {
        trim_end(s, e - 1)
    } else {
        e
    }
}

/// `s` with leading and trailing blanks removed.
pub open spec fn trim_of(s: Seq<char>) -> Seq<char> {
    let b = first_non_space(s, 0);
    let e = trim_end(s, s.len() as int);
    if b < e {
        s.subrange(b, e)
    } else {
        Seq::<char>::empty()
    }
}

proof fn lemma_first_non_space(s: Seq<char>, i: int, k: int)
    requires
        0 <= i <= k <= s.len(),
        forall|j: int| i <= j < k ==> is_ascii_space(#[trigger] s[j]),
        k < s.len() ==> !is_ascii_space(s[k]),
    ensures
        first_non_space(s, i) == k,
    decreases k - i,
{
    if i < s.len() && is_ascii_space(s[i]) {
        lemma_first_non_space(s, i + 1, k);
    }
}

proof fn lemma_trim_end(s: Seq<char>, e: int, k: int)
    requires
        0 <= k <= e <= s.len(),
        forall|j: int| k <= j < e ==> is_ascii_space(#[trigger] s[j]),
        k > 0 ==> !is_ascii_space(s[k - 1]),
    ensures
        trim_end(s, e) == k,
    decreases e - k,
{
    if e > 0 && is_ascii_space(s[e - 1]) {
        lemma_trim_end(s, e - 1, k);
    }
}

/// Whether `c` is one of the blank characters that trimming removes.
fn ascii_space(c: char) -> (r: bool)
    ensures
        r == is_ascii_space(c),
{
    c == ' ' || c == '\t' || c == '\n' || c == '\r'
}

/// `s` with leading and trailing blanks removed.
pub fn trim_ascii(s: &str) -> (r: String)
    ensures
        r@ == trim_of(s@),
{
    let len = s.unicode_len();
    let mut b: usize = 0;
    while b < len && ascii_space(s.get_char(b))
        invariant
            len == s@.len(),
            b <= len,
            forall|j: int| 0 <= j < b ==> is_ascii_space(#[trigger] s@[j]),
        decreases len - b,
    {
        b += 1;
    }
    proof {
        lemma_first_non_space(s@, 0, b as int);
    }
    let mut e: usize = len;
    while e > b && ascii_space(s.get_char(e - 1))
        invariant
            len == s@.len(),
            b <= e <= len,
            forall|j: int| e <= j < len ==> is_ascii_space(#[trigger] s@[j]),
        decreases e,
    {
        e -= 1;
    }
    if b >= e {
        proof {
            lemma_trim_end(s@, len as int, 0);
        }
        String::new()
    } else {
        proof {
            lemma_trim_end(s@, len as int, e as int);
        }
        let r = s.substring_char(b, e).to_owned();
        proof {
            assert(r@ =~= trim_of(s@));
        }
        r
    }
}

/// The first position of `c` in `s`, if any.
pub fn find_char(s: &str, c: char) -> (r: Option<usize>)
    ensures
        match r {
            Some(i) => i < s@.len() && s@[i as int] == c && forall|j: int|
                0 <= j < i ==> s@[j] != c,
            None => forall|j: int| 0 <= j < s@.len() ==> s@[j] != c,
        },
{
    let len = s.unicode_len();
    let mut i: usize = 0;
    while i < len
        invariant
            len == s@.len(),
            i <= len,
            forall|j: int| 0 <= j < i ==> s@[j] != c,
        decreases len - i,
    {
        if s.get_char(i) == c {
            return Some(i);
        }
        i += 1;
    }
    None
}

} // verus!

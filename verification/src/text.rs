//! Text building blocks: digits, padding, trimming and number parsing.
//!
//! Every function that builds text appends to a `String`, and its contract names
//! the characters it appends.

use vstd::arithmetic::power::pow;
use vstd::prelude::*;

verus! {

/// `String::push`: appends one character to the end of the string.
pub assume_specification[ String::push ](s: &mut String, c: char)
    ensures
        final(s)@ == old(s)@.push(c),
;

// ───────────────────────────── Writing numbers ─────────────────────────────

/// The digit character of `d`, for `d` below 16.
pub open spec fn digit_char(d: int, upper: bool) -> char {
    if d < 10 {
        (48 + d) as char
    } else if upper {
        (55 + d) as char
    } else {
        (87 + d) as char
    }
}

/// Decimal digits of `n`, without leading zeros.
pub open spec fn decimal(n: nat) -> Seq<char>
    decreases n,
{
    if n < 10 {
        seq![digit_char(n as int, true)]
    } else {
        decimal(n / 10).push(digit_char((n % 10) as int, true))
    }
}

/// Decimal digits of `n`, after a minus sign when `n` is negative.
pub open spec fn signed_decimal(n: int) -> Seq<char> {
    if n < 0 {
        seq!['-'] + decimal((-n) as nat)
    } else {
        decimal(n as nat)
    }
}

/// Hexadecimal digits of `n`, zero-padded to at least `width` digits.
pub open spec fn hexadecimal(n: nat, width: nat, upper: bool) -> Seq<char>
    decreases n, width,
{
    if n < 16 && width <= 1 {
        seq![digit_char(n as int, upper)]
    } else {
        hexadecimal(n / 16, if width == 0 { 0 } else { (width - 1) as nat }, upper).push(
            digit_char((n % 16) as int, upper),
        )
    }
}

/// `16` to the power of `n`.
pub open spec fn sixteen_to(n: nat) -> nat
    decreases n,
{
    if n == 0 {
        1
    } else {
        16 * sixteen_to((n - 1) as nat)
    }
}

/// The bytes of `s` as two upper-case hexadecimal digits each, with `separator`
/// between them.
pub open spec fn hex_list(s: Seq<u8>, separator: Seq<char>) -> Seq<char>
    decreases s.len(),
{
    if s.len() == 0 {
        Seq::empty()
    } else if s.len() == 1 {
        hexadecimal(s[0] as nat, 2, true)
    } else {
        hex_list(s.drop_last(), separator) + separator + hexadecimal(s.last() as nat, 2, true)
    }
}

/// `n` copies of `c`.
pub open spec fn repeated(c: char, n: nat) -> Seq<char> {
    Seq::new(n, |i: int| c)
}

/// `s` right-aligned in `width` columns.
pub open spec fn right_aligned(s: Seq<char>, width: nat) -> Seq<char> {
    if s.len() < width {
        repeated(' ', (width - s.len()) as nat) + s
    } else {
        s
    }
}

/// `s` left-aligned in `width` columns.
pub open spec fn left_aligned(s: Seq<char>, width: nat) -> Seq<char> {
    if s.len() < width {
        s + repeated(' ', (width - s.len()) as nat)
    } else {
        s
    }
}

/// The character of a digit below 16.
pub fn digit(d: u8, upper: bool) -> (c: char)
    requires
        d < 16,
    ensures
        c == digit_char(d as int, upper),
{
    if d < 10 {
        (48 + d) as char
    } else if upper {
        (55 + d) as char
    } else {
        (87 + d) as char
    }
}

/// Append `n` in decimal.
pub fn push_decimal(out: &mut String, n: u64)
    ensures
        final(out)@ == old(out)@ + decimal(n as nat),
    decreases n,
{
    if n >= 10 {
        push_decimal(out, n / 10);
    }
    out.push(digit((n % 10) as u8, true));
    assert(out@ =~= old(out)@ + decimal(n as nat));
}

/// Append `n` in decimal, with a minus sign when it is negative.
pub fn push_signed_decimal(out: &mut String, n: i32)
    ensures
        final(out)@ == old(out)@ + signed_decimal(n as int),
{
    if n < 0 {
        out.push('-');
        push_decimal(out, (-(n as i64)) as u64);
        assert(out@ =~= old(out)@ + signed_decimal(n as int));
    } else {
        push_decimal(out, n as u64);
    }
}

/// Append `n` in hexadecimal, zero-padded to at least `width` digits.
pub fn push_hexadecimal(out: &mut String, n: u32, width: usize, upper: bool)
    ensures
        final(out)@ == old(out)@ + hexadecimal(n as nat, width as nat, upper),
    decreases n, width,
{
    if n >= 16 || width > 1 {
        push_hexadecimal(out, n / 16, if width == 0 { 0 } else { width - 1 }, upper);
    }
    out.push(digit((n % 16) as u8, upper));
    assert(out@ =~= old(out)@ + hexadecimal(n as nat, width as nat, upper));
}

/// Append the bytes of `s` as two upper-case hexadecimal digits each, with
/// `separator` between them.
pub fn push_hex_list(out: &mut String, s: &[u8], separator: &str)
    ensures
        final(out)@ == old(out)@ + hex_list(s@, separator@),
{
    let mut i: usize = 0;
    assert(out@ =~= old(out)@ + hex_list(s@.take(0), separator@));
    while i < s.len()
        invariant
            i <= s@.len(),
            out@ == old(out)@ + hex_list(s@.take(i as int), separator@),
        decreases s@.len() - i,
    {
        if i > 0 {
            out.append(separator);
        }
        push_hexadecimal(out, s[i] as u32, 2, true);
        assert(s@.take(i + 1).drop_last() =~= s@.take(i as int));
        assert(out@ =~= old(out)@ + hex_list(s@.take(i + 1), separator@));
        i += 1;
    }
    assert(s@.take(i as int) =~= s@);
}

/// Append `n` spaces.
pub fn push_spaces(out: &mut String, n: usize)
    ensures
        final(out)@ == old(out)@ + repeated(' ', n as nat),
{
    let mut i: usize = 0;
    while i < n
        invariant
            i <= n,
            out@ =~= old(out)@ + repeated(' ', i as nat),
        decreases n - i,
    {
        out.push(' ');
        i += 1;
    }
}

/// Append `s` right-aligned in `width` columns.
pub fn push_right_aligned(out: &mut String, s: &str, width: usize)
    ensures
        final(out)@ == old(out)@ + right_aligned(s@, width as nat),
{
    let len = s.unicode_len();
    if len < width {
        push_spaces(out, width - len);
    }
    out.append(s);
    assert(out@ =~= old(out)@ + right_aligned(s@, width as nat));
}

/// Append `s` left-aligned in `width` columns.
pub fn push_left_aligned(out: &mut String, s: &str, width: usize)
    ensures
        final(out)@ == old(out)@ + left_aligned(s@, width as nat),
{
    let len = s.unicode_len();
    out.append(s);
    if len < width {
        push_spaces(out, width - len);
    }
    assert(out@ =~= old(out)@ + left_aligned(s@, width as nat));
}

/// Append `n` in decimal, right-aligned in `width` columns.
pub fn push_decimal_column(out: &mut String, n: u64, width: usize)
    ensures
        final(out)@ == old(out)@ + right_aligned(decimal(n as nat), width as nat),
{
    let mut digits = String::new();
    push_decimal(&mut digits, n);
    assert(digits@ =~= decimal(n as nat));
    push_right_aligned(out, digits.as_str(), width);
}

// ───────────────────────────── Characters ─────────────────────────────

/// The characters of `s`.
pub fn chars_of(s: &str) -> (chars: Vec<char>)
    ensures
        chars@ == s@,
{
    let mut chars: Vec<char> = Vec::new();
    for c in it: s.chars()
        invariant
            it.seq() == s@,
            chars@ == s@.take(it.index()),
    {
        chars.push(c);
    }
    assert(s@.take(s@.len() as int) =~= s@);
    chars
}

/// Append the characters of `chars`.
pub fn push_chars(out: &mut String, chars: &[char])
    ensures
        final(out)@ == old(out)@ + chars@,
{
    let mut i: usize = 0;
    while i < chars.len()
        invariant
            i <= chars.len(),
            out@ =~= old(out)@ + chars@.take(i as int),
        decreases chars.len() - i,
    {
        out.push(chars[i]);
        i += 1;
    }
    assert(chars@.take(i as int) =~= chars@);
}

// ───────────────────────────── Trimming ─────────────────────────────

/// Whether `c` has the Unicode property `White_Space`.
pub open spec fn is_white_space(c: char) -> bool {
    ||| '\u{9}' <= c <= '\u{d}'
    ||| c == '\u{20}' || c == '\u{85}' || c == '\u{a0}' || c == '\u{1680}'
    ||| '\u{2000}' <= c <= '\u{200a}'
    ||| c == '\u{2028}' || c == '\u{2029}' || c == '\u{202f}' || c == '\u{205f}' || c == '\u{3000}'
}

/// `s` without the leading characters that are white space.
pub open spec fn trim_front(s: Seq<char>) -> Seq<char>
    decreases s.len(),
{
    if s.len() > 0 && is_white_space(s.first()) {
        trim_front(s.drop_first())
    } else {
        s
    }
}

/// `s` without the trailing characters that are white space.
pub open spec fn trim_back(s: Seq<char>) -> Seq<char>
    decreases s.len(),
{
    if s.len() > 0 && is_white_space(s.last()) {
        trim_back(s.drop_last())
    } else {
        s
    }
}

/// Whether `c` has the Unicode property `White_Space`.
pub fn white_space(c: char) -> (yes: bool)
    ensures
        yes == is_white_space(c),
{
    ('\u{9}' <= c && c <= '\u{d}') || c == '\u{20}' || c == '\u{85}' || c == '\u{a0}' || c
        == '\u{1680}' || ('\u{2000}' <= c && c <= '\u{200a}') || c == '\u{2028}' || c
        == '\u{2029}' || c == '\u{202f}' || c == '\u{205f}' || c == '\u{3000}'
}

/// `s` without leading and trailing white space.
pub fn trim(s: &[char]) -> (t: &[char])
    ensures
        t@ == trim_back(trim_front(s@)),
{
    let mut a: usize = 0;
    assert(s@.skip(0) =~= s@);
    while a < s.len() && white_space(s[a])
        invariant
            a <= s@.len(),
            trim_front(s@) == trim_front(s@.skip(a as int)),
        decreases s@.len() - a,
    {
        assert(s@.skip(a as int).drop_first() =~= s@.skip(a + 1));
        a += 1;
    }
    assert(trim_front(s@) == s@.skip(a as int));
    let mut b: usize = s.len();
    assert(s@.subrange(a as int, b as int) =~= s@.skip(a as int));
    while b > a && white_space(s[b - 1])
        invariant
            a <= b <= s@.len(),
            trim_back(trim_front(s@)) == trim_back(s@.subrange(a as int, b as int)),
        decreases b,
    {
        assert(s@.subrange(a as int, b as int).drop_last() =~= s@.subrange(a as int, b - 1));
        b -= 1;
    }
    &s[a..b]
}

// ───────────────────────────── Reading numbers ─────────────────────────────

/// The value of a digit character.
pub open spec fn digit_value(c: char) -> Option<nat> {
    if '0' <= c <= '9' {
        Some((c as int - 48) as nat)
    } else if 'a' <= c <= 'f' {
        Some((c as int - 87) as nat)
    } else if 'A' <= c <= 'F' {
        Some((c as int - 55) as nat)
    } else {
        None
    }
}

/// The number that digits stand for; `None` if one of them is no digit below `radix`.
pub open spec fn digits_value(s: Seq<char>, radix: nat) -> Option<nat>
    decreases s.len(),
{
    if s.len() == 0 {
        Some(0)
    } else {
        match (digits_value(s.drop_last(), radix), digit_value(s.last())) {
            (Some(v), Some(d)) => if d < radix {
                Some(v * radix + d)
            } else {
                None
            },
            _ => None,
        }
    }
}

/// The number that `s` stands for: one or more digits, after an optional plus sign.
pub open spec fn number(s: Seq<char>, radix: nat) -> Option<nat> {
    let digits = if s.len() > 0 && s[0] == '+' {
        s.skip(1)
    } else {
        s
    };
    if digits.len() == 0 {
        None
    } else {
        digits_value(digits, radix)
    }
}

/// The value of a digit character.
pub fn value_of_digit(c: char) -> (v: Option<u8>)
    ensures
        match digit_value(c) {
            Some(d) => v == Some(d as u8) && d < 16,
            None => v is None,
        },
{
    if '0' <= c && c <= '9' {
        Some((c as u32 - 48) as u8)
    } else if 'a' <= c && c <= 'f' {
        Some((c as u32 - 87) as u8)
    } else if 'A' <= c && c <= 'F' {
        Some((c as u32 - 55) as u8)
    } else {
        None
    }
}

/// The number that `s` stands for, if it fits in 32 bits.
pub fn parse_number(s: &[char], radix: u32) -> (value: Option<u32>)
    requires
        radix == 10 || radix == 16,
    ensures
        match number(s@, radix as nat) {
            Some(v) => value == (if v <= u32::MAX { Some(v as u32) } else { None }),
            None => value is None,
        },
{
    let start: usize = if s.len() > 0 && s[0] == '+' {
        1
    } else {
        0
    };
    if s.len() == start {
        return None;
    }
    let ghost digits = s@.skip(start as int);
    assert(start == 0 ==> digits =~= s@);
    // Once the number is out of range it stays at `limit`.
    let limit: u64 = 0x1_0000_0000;
    let mut value: u64 = 0;
    let mut i: usize = start;
    while i < s.len()
        invariant
            start <= i <= s@.len(),
            digits == s@.skip(start as int),
            number(s@, radix as nat) == digits_value(digits, radix as nat),
            radix == 10 || radix == 16,
            limit == 0x1_0000_0000,
            digits_value(digits.take(i - start), radix as nat) matches Some(v) && value == (if v
                < limit { v } else { limit as nat }),
        decreases s@.len() - i,
    {
        let ghost before = digits.take(i - start);
        assert(digits.take(i - start + 1).drop_last() =~= before);
        assert(digits.take(i - start + 1).last() == s@[i as int]);
        let digit: u8 = match value_of_digit(s[i]) {
            Some(d) => d,
            None => {
                proof {
                    lemma_bad_digit(digits, i - start, radix as nat);
                }
                return None;
            },
        };
        if digit as u32 >= radix {
            proof {
                lemma_bad_digit(digits, i - start, radix as nat);
            }
            return None;
        }
        let ghost v = digits_value(before, radix as nat)->0;
        assert(value <= limit && value * radix + digit <= 16 * limit + 16 && (v < limit
            ==> value * radix == v * radix) && (v >= limit ==> v * radix >= limit && value * radix
            >= limit)) by (nonlinear_arith)
            requires
                value == (if v < limit { v } else { limit as nat }),
                radix == 10 || radix == 16,
                digit < 16,
                limit == 0x1_0000_0000,
        ;
        value = value * radix as u64 + digit as u64;
        if value > limit {
            value = limit;
        }
        i += 1;
    }
    assert(digits.take(i - start) =~= digits);
    if value < limit {
        Some(value as u32)
    } else {
        None
    }
}

/// Digits of which one is no digit stand for no number.
proof fn lemma_bad_digit(s: Seq<char>, i: int, radix: nat)
    requires
        0 <= i < s.len(),
        digit_value(s[i]) matches Some(d) ==> d >= radix,
    ensures
        digits_value(s, radix) is None,
    decreases s.len(),
{
    if i < s.len() - 1 {
        lemma_bad_digit(s.drop_last(), i, radix);
    }
}

// ───────────────────────────── UTF-8 ─────────────────────────────

/// How many bytes `c` takes in UTF-8.
pub open spec fn byte_len(c: char) -> nat {
    if (c as u32) < 0x80 {
        1
    } else if (c as u32) < 0x800 {
        2
    } else if (c as u32) < 0x1_0000 {
        3
    } else {
        4
    }
}

/// How many bytes `s` takes in UTF-8.
pub open spec fn bytes_len(s: Seq<char>) -> nat
    decreases s.len(),
{
    if s.len() == 0 {
        0
    } else {
        bytes_len(s.drop_last()) + byte_len(s.last())
    }
}

/// How many bytes `c` takes in UTF-8.
fn len_of_char(c: char) -> (n: u128)
    ensures
        n == byte_len(c),
{
    let code: u32 = c as u32;
    if code < 0x80 {
        1
    } else if code < 0x800 {
        2
    } else if code < 0x1_0000 {
        3
    } else {
        4
    }
}

/// How many bytes `s` takes in UTF-8.
pub fn len_of_chars(s: &[char]) -> (n: u128)
    ensures
        n == bytes_len(s@),
{
    let mut n: u128 = 0;
    let mut i: usize = 0;
    while i < s.len()
        invariant
            i <= s.len(),
            n == bytes_len(s@.take(i as int)),
            n <= 4 * i,
        decreases s.len() - i,
    {
        n += len_of_char(s[i]);
        assert(s@.take(i + 1).drop_last() =~= s@.take(i as int));
        i += 1;
    }
    assert(s@.take(i as int) =~= s@);
    n
}

// ───────────────────────────── Laws ─────────────────────────────

/// The sixteen digits are `0` to `9` and `A` to `F`, or `a` to `f`.
pub proof fn law_digit_characters(d: int, upper: bool)
    requires
        0 <= d < 16,
    ensures
        digit_char(d, true) == seq![
            '0',
            '1',
            '2',
            '3',
            '4',
            '5',
            '6',
            '7',
            '8',
            '9',
            'A',
            'B',
            'C',
            'D',
            'E',
            'F',
        ][d],
        digit_char(d, false) == seq![
            '0',
            '1',
            '2',
            '3',
            '4',
            '5',
            '6',
            '7',
            '8',
            '9',
            'a',
            'b',
            'c',
            'd',
            'e',
            'f',
        ][d],
        digit_value(digit_char(d, upper)) == Some(d as nat),
{
}

/// A character has a value exactly if it is one of the sixteen digits, in either case.
pub proof fn law_only_digits_have_values(c: char)
    ensures
        match digit_value(c) {
            Some(d) => d < 16 && (c == digit_char(d as int, true) || c == digit_char(
                d as int,
                false,
            )),
            None => forall|d: int, upper: bool|
                0 <= d < 16 ==> c != #[trigger] digit_char(d, upper),
        },
{
}

/// Whether every character of `s` is a digit below `radix`.
pub open spec fn all_digits(s: Seq<char>, radix: nat) -> bool {
    forall|i: int|
        0 <= i < s.len() ==> (digit_value(#[trigger] s[i]) matches Some(d) && d < radix)
}

/// Digits stand for a number, and only digits do. Each digit counts by its place: put
/// behind a number, more digits multiply it by the radix once for each of them.
pub proof fn law_digits_count_by_place(a: Seq<char>, b: Seq<char>, radix: nat)
    requires
        radix > 0,
    ensures
        digits_value(a, radix) is Some <==> all_digits(a, radix),
        a.len() == 1 && all_digits(a, radix) ==> digits_value(a, radix) == digit_value(a[0]),
        digits_value(a, radix) is Some && digits_value(b, radix) is Some ==> digits_value(
            a + b,
            radix,
        ) == Some(
            (digits_value(a, radix)->0 * pow(radix as int, b.len()) + digits_value(
                b,
                radix,
            )->0) as nat,
        ),
    decreases a.len() + b.len(), b.len(),
{
    lemma_digits_have_a_value(a, radix);
    if a.len() == 1 && all_digits(a, radix) {
        assert(digit_value(a[0]) is Some);
        assert(a.drop_last() =~= Seq::empty());
        assert(digits_value(Seq::empty(), radix) == Some(0nat));
        assert(0 * radix == 0) by (nonlinear_arith);
    }
    if b.len() == 0 {
        assert(a + b =~= a);
        vstd::arithmetic::power::lemma_pow0(radix as int);
    } else {
        lemma_digits_have_a_value(b, radix);
        let init = b.drop_last();
        assert((a + b).drop_last() =~= a + init);
        assert((a + b).last() == b.last());
        law_digits_count_by_place(a, init, radix);
        if digits_value(a, radix) is Some && digits_value(b, radix) is Some {
            let va = digits_value(a, radix)->0 as int;
            let vi = digits_value(init, radix)->0 as int;
            let p = pow(radix as int, init.len());
            let r = radix as int;
            let d = digit_value(b.last())->0 as int;
            vstd::arithmetic::power::lemma_pow_positive(r, init.len());
            assert(pow(r, b.len()) == r * p) by {
                reveal(pow);
            }
            assert((va * p + vi) * r + d == va * (r * p) + (vi * r + d)) by (nonlinear_arith);
            assert(va * p >= 0) by (nonlinear_arith)
                requires
                    va >= 0,
                    p > 0,
            ;
        }
    }
}

proof fn lemma_digits_have_a_value(s: Seq<char>, radix: nat)
    ensures
        digits_value(s, radix) is Some <==> all_digits(s, radix),
    decreases s.len(),
{
    if s.len() > 0 {
        let init = s.drop_last();
        lemma_digits_have_a_value(init, radix);
        if all_digits(s, radix) {
            assert forall|i: int| 0 <= i < init.len() implies (digit_value(#[trigger] init[i])
                matches Some(d) && d < radix) by {
                assert(init[i] == s[i]);
            }
            assert(digit_value(s[s.len() - 1]) is Some);
        } else if all_digits(init, radix) {
            assert forall|i: int| 0 <= i < s.len() - 1 implies (digit_value(#[trigger] s[i])
                matches Some(d) && d < radix) by {
                assert(init[i] == s[i]);
            }
        }
    }
}

/// A number in decimal reads back as itself, and has no leading zeros.
pub proof fn law_decimal_reads_back(n: nat)
    ensures
        decimal(n).len() > 0,
        all_digits(decimal(n), 10),
        digits_value(decimal(n), 10) == Some(n),
        number(decimal(n), 10) == Some(n),
        decimal(n)[0] == '0' ==> n == 0 && decimal(n).len() == 1,
    decreases n,
{
    let s = decimal(n);
    if n < 10 {
        assert(s.drop_last() =~= Seq::empty());
        reveal_with_fuel(digits_value, 2);
    } else {
        law_decimal_reads_back(n / 10);
        assert(s.drop_last() =~= decimal(n / 10));
        assert(s[0] == decimal(n / 10)[0]);
    }
    lemma_digits_have_a_value(s, 10);
    assert(digit_value(s[0]) is Some);
}

/// Two numbers that are written the same are the same.
pub proof fn law_decimal_is_unambiguous(a: nat, b: nat)
    requires
        decimal(a) == decimal(b),
    ensures
        a == b,
{
    law_decimal_reads_back(a);
    law_decimal_reads_back(b);
}

/// A negative number is a minus sign and what it lacks to zero.
pub proof fn law_signed_decimal_reads_back(n: int)
    ensures
        n >= 0 ==> number(signed_decimal(n), 10) == Some(n as nat),
        n < 0 ==> signed_decimal(n)[0] == '-' && number(signed_decimal(n).skip(1), 10) == Some(
            (-n) as nat,
        ),
{
    if n < 0 {
        law_decimal_reads_back((-n) as nat);
        assert(signed_decimal(n).skip(1) =~= decimal((-n) as nat));
    } else {
        law_decimal_reads_back(n as nat);
    }
}

/// A number in hexadecimal reads back as itself, is at least as wide as asked for, is
/// filled up with zeros only, and uses digits of the case asked for.
pub proof fn law_hexadecimal_reads_back(n: nat, width: nat, upper: bool)
    ensures
        hexadecimal(n, width, upper).len() >= width,
        hexadecimal(n, width, upper).len() > 0,
        all_digits(hexadecimal(n, width, upper), 16),
        digits_value(hexadecimal(n, width, upper), 16) == Some(n),
        number(hexadecimal(n, width, upper), 16) == Some(n),
        hexadecimal(n, width, upper).len() > width && hexadecimal(n, width, upper)[0] == '0'
            ==> hexadecimal(n, width, upper).len() == 1,
        forall|i: int|
            0 <= i < hexadecimal(n, width, upper).len() ==> {
                let c = #[trigger] hexadecimal(n, width, upper)[i];
                if upper {
                    !('a' <= c <= 'f')
                } else {
                    !('A' <= c <= 'F')
                }
            },
    decreases n, width,
{
    let s = hexadecimal(n, width, upper);
    if n < 16 && width <= 1 {
        assert(s.drop_last() =~= Seq::empty());
        reveal_with_fuel(digits_value, 2);
    } else {
        let less: nat = if width == 0 {
            0
        } else {
            (width - 1) as nat
        };
        law_hexadecimal_reads_back(n / 16, less, upper);
        let init = hexadecimal(n / 16, less, upper);
        assert(s.drop_last() =~= init);
        assert(s[0] == init[0]);
        if s.len() > width && s[0] == '0' {
            assert(init.len() == 1);
            assert(digit_value(init[0]) == Some(0nat));
            assert(init.drop_last() =~= Seq::empty());
            reveal_with_fuel(digits_value, 2);
        }
    }
    lemma_digits_have_a_value(s, 16);
    assert(digit_value(s[0]) is Some);
}

/// A number that is small enough takes exactly the width asked for.
pub proof fn law_hexadecimal_width(n: nat, width: nat, upper: bool)
    requires
        width > 0,
        n < sixteen_to(width),
    ensures
        hexadecimal(n, width, upper).len() == width,
    decreases width,
{
    if width == 1 {
        reveal_with_fuel(sixteen_to, 2);
    } else {
        law_hexadecimal_width(n / 16, (width - 1) as nat, upper);
    }
}

/// A plus sign before digits does not matter, and at least one digit is needed.
pub proof fn law_plus_sign_is_optional(digits: Seq<char>, radix: nat)
    requires
        all_digits(digits, radix),
    ensures
        digits.len() > 0 ==> number(digits, radix) == digits_value(digits, radix),
        digits.len() > 0 ==> number(seq!['+'] + digits, radix) == digits_value(digits, radix),
        number(Seq::<char>::empty(), radix) is None,
        number(seq!['+'], radix) is None,
{
    assert((seq!['+'] + digits).skip(1) =~= digits);
    assert(seq!['+'].skip(1) =~= Seq::empty());
    if digits.len() > 0 {
        assert(digit_value(digits[0]) is Some);
    }
}

/// Nothing but digits, after an optional plus sign, is a number.
pub proof fn law_only_digits_are_numbers(s: Seq<char>, radix: nat)
    ensures
        number(s, radix) is Some ==> s.len() > 0 && (all_digits(s, radix) || (s[0] == '+'
            && s.len() > 1 && all_digits(s.skip(1), radix))),
{
    lemma_digits_have_a_value(s, radix);
    lemma_digits_have_a_value(s.skip(1), radix);
}

/// Byte `i` of a list is two upper-case digits that stand for it; between two bytes
/// stands the separator, and nothing else is there.
pub proof fn law_hex_list_entries(s: Seq<u8>, separator: Seq<char>, i: int)
    requires
        0 <= i < s.len(),
    ensures
        ({
            let list = hex_list(s, separator);
            let at = i * (2 + separator.len());
            &&& list.len() == s.len() * (2 + separator.len()) - separator.len()
            &&& 0 <= at <= list.len() - 2
            &&& number(list.subrange(at, at + 2), 16) == Some(s[i] as nat)
            &&& list.subrange(at, at + 2) == hexadecimal(s[i] as nat, 2, true)
            &&& i + 1 < s.len() ==> at + 2 + separator.len() <= list.len() && list.subrange(
                at + 2,
                at + 2 + separator.len(),
            ) == separator
        }),
    decreases s.len(),
{
    let list = hex_list(s, separator);
    let k = 2 + separator.len() as int;
    let last = hexadecimal(s.last() as nat, 2, true);
    reveal_with_fuel(sixteen_to, 3);
    law_hexadecimal_width(s.last() as nat, 2, true);
    law_hexadecimal_reads_back(s.last() as nat, 2, true);
    if s.len() == 1 {
        assert(i * k == 0 && s.len() * k == k) by (nonlinear_arith)
            requires
                i == 0,
                s.len() == 1,
        ;
        assert(list.subrange(0, 2) =~= last);
    } else {
        let init = s.drop_last();
        let head = hex_list(init, separator);
        law_hex_list_entries(init, separator, 0);
        assert(s.len() * k == init.len() * k + k) by (nonlinear_arith)
            requires
                s.len() == init.len() + 1,
        ;
        if i == s.len() - 1 {
            assert(i * k == init.len() * k);
            assert(list.subrange(i * k, i * k + 2) =~= last);
        } else {
            law_hex_list_entries(init, separator, i);
            assert(list.subrange(i * k, i * k + 2) =~= head.subrange(i * k, i * k + 2));
            if i + 1 < init.len() {
                assert(list.subrange(i * k + 2, i * k + k) =~= head.subrange(
                    i * k + 2,
                    i * k + k,
                ));
            } else {
                assert(i * k + k == init.len() * k) by (nonlinear_arith)
                    requires
                        i + 1 == init.len(),
                ;
                assert(list.subrange(i * k + 2, i * k + k) =~= separator);
            }
        }
    }
}

/// Aligned text is as wide as asked for, or as the text if that is wider; the text is
/// at one end of it and the rest is spaces.
pub proof fn law_alignment_adds_spaces(s: Seq<char>, width: nat)
    ensures
        ({
            let n = if s.len() < width {
                width - s.len()
            } else {
                0
            };
            &&& right_aligned(s, width).len() == n + s.len()
            &&& right_aligned(s, width).skip(n) == s
            &&& forall|i: int| 0 <= i < n ==> #[trigger] right_aligned(s, width)[i] == ' '
            &&& left_aligned(s, width).len() == n + s.len()
            &&& left_aligned(s, width).take(s.len() as int) == s
            &&& forall|i: int|
                s.len() <= i < n + s.len() ==> #[trigger] left_aligned(s, width)[i] == ' '
        }),
{
    let n = if s.len() < width {
        width - s.len()
    } else {
        0
    };
    assert(right_aligned(s, width).skip(n) =~= s);
    assert(left_aligned(s, width).take(s.len() as int) =~= s);
}

/// Trimming takes away white space at both ends, all of it, and nothing else.
pub proof fn law_trim_removes_white_space(s: Seq<char>)
    ensures
        ({
            let t = trim_back(trim_front(s));
            &&& t.len() > 0 ==> !is_white_space(t.first()) && !is_white_space(t.last())
            &&& exists|a: int, b: int|
                0 <= a <= b <= s.len() && t == #[trigger] s.subrange(a, b) && (forall|i: int|
                    0 <= i < a || b <= i < s.len() ==> is_white_space(#[trigger] s[i]))
        }),
{
    let f = trim_front(s);
    let t = trim_back(f);
    lemma_trim_front(s);
    lemma_trim_back(f);
    let a = s.len() - f.len();
    let b = a + t.len();
    assert(t =~= s.subrange(a, b)) by {
        assert(f =~= s.skip(a));
        assert(t =~= f.take(t.len() as int));
    }
    assert forall|i: int| 0 <= i < a || b <= i < s.len() implies is_white_space(
        #[trigger] s[i],
    ) by {
        if b <= i {
            assert(s[i] == f[i - a]);
        }
    }
}

proof fn lemma_trim_front(s: Seq<char>)
    ensures
        trim_front(s).len() <= s.len(),
        trim_front(s) == s.skip(s.len() - trim_front(s).len()),
        forall|i: int|
            0 <= i < s.len() - trim_front(s).len() ==> is_white_space(#[trigger] s[i]),
        trim_front(s).len() > 0 ==> !is_white_space(trim_front(s).first()),
    decreases s.len(),
{
    if s.len() > 0 && is_white_space(s.first()) {
        let rest = s.drop_first();
        lemma_trim_front(rest);
        assert(trim_front(s) =~= s.skip(s.len() - trim_front(s).len()));
        assert forall|i: int| 0 <= i < s.len() - trim_front(s).len() implies is_white_space(
            #[trigger] s[i],
        ) by {
            if i > 0 {
                assert(s[i] == rest[i - 1]);
            }
        }
    } else {
        assert(s.skip(0) =~= s);
    }
}

proof fn lemma_trim_back(s: Seq<char>)
    ensures
        trim_back(s).len() <= s.len(),
        trim_back(s) == s.take(trim_back(s).len() as int),
        forall|i: int| trim_back(s).len() <= i < s.len() ==> is_white_space(#[trigger] s[i]),
        trim_back(s).len() > 0 ==> !is_white_space(trim_back(s).last()) && trim_back(s).first()
            == s.first(),
    decreases s.len(),
{
    if s.len() > 0 && is_white_space(s.last()) {
        let rest = s.drop_last();
        lemma_trim_back(rest);
        assert(trim_back(s) =~= s.take(trim_back(s).len() as int));
        assert forall|i: int| trim_back(s).len() <= i < s.len() implies is_white_space(
            #[trigger] s[i],
        ) by {
            if i < s.len() - 1 {
                assert(s[i] == rest[i]);
            }
        }
    } else {
        assert(s.take(s.len() as int) =~= s);
    }
}

/// The characters that count as white space, by their code points.
pub proof fn law_white_space_code_points(c: char)
    ensures
        is_white_space(c) <==> seq![
            0x09u32,
            0x0a,
            0x0b,
            0x0c,
            0x0d,
            0x20,
            0x85,
            0xa0,
            0x1680,
            0x2000,
            0x2001,
            0x2002,
            0x2003,
            0x2004,
            0x2005,
            0x2006,
            0x2007,
            0x2008,
            0x2009,
            0x200a,
            0x2028,
            0x2029,
            0x202f,
            0x205f,
            0x3000,
        ].contains(c as u32),
{
    let points = seq![
        0x09u32,
        0x0a,
        0x0b,
        0x0c,
        0x0d,
        0x20,
        0x85,
        0xa0,
        0x1680,
        0x2000,
        0x2001,
        0x2002,
        0x2003,
        0x2004,
        0x2005,
        0x2006,
        0x2007,
        0x2008,
        0x2009,
        0x200a,
        0x2028,
        0x2029,
        0x202f,
        0x205f,
        0x3000,
    ];
    let code = c as u32;
    if 0x09 <= code <= 0x0d {
        assert(points[code - 0x09] == code);
    } else if 0x2000 <= code <= 0x200a {
        assert(points[9 + code - 0x2000] == code);
    } else {
        assert(points[5] == 0x20 && points[6] == 0x85 && points[7] == 0xa0 && points[8] == 0x1680
            && points[20] == 0x2028 && points[21] == 0x2029 && points[22] == 0x202f && points[23]
            == 0x205f && points[24] == 0x3000);
    }
}

/// The number of bytes is that of the UTF-8 encoding.
pub proof fn law_bytes_are_utf8(s: Seq<char>)
    ensures
        bytes_len(s) == vstd::utf8::encode_utf8(s).len(),
    decreases s.len(),
{
    if s.len() > 0 {
        lemma_bytes_of_parts(s);
        law_bytes_are_utf8(s.drop_first());
        lemma_bytes_of_char(s[0]);
    }
}

proof fn lemma_bytes_of_char(c: char)
    ensures
        byte_len(c) == vstd::utf8::encode_scalar(c as u32).len(),
{
}

proof fn lemma_bytes_of_parts(s: Seq<char>)
    requires
        s.len() > 0,
    ensures
        bytes_len(s) == byte_len(s.first()) + bytes_len(s.drop_first()),
    decreases s.len(),
{
    if s.len() == 1 {
        reveal_with_fuel(bytes_len, 2);
        assert(s.drop_first() =~= Seq::empty());
        assert(s.drop_last() =~= Seq::empty());
    } else {
        lemma_bytes_of_parts(s.drop_last());
        assert(s.drop_last().drop_first() =~= s.drop_first().drop_last());
    }
}

/// Whether `s` reads as the decimal number `n`, with a minus sign if it is negative.
pub open spec fn reads(s: Seq<char>, n: int) -> bool {
    if n < 0 {
        s.len() > 0 && s[0] == '-' && number(s.skip(1), 10) == Some((-n) as nat)
    } else {
        number(s, 10) == Some(n as nat)
    }
}

/// Whether `s` reads as the hexadecimal number `n` and has at least `width` digits.
pub open spec fn reads_hex(s: Seq<char>, n: nat, width: nat) -> bool {
    number(s, 16) == Some(n) && s.len() >= width
}

/// What is written reads as what it was written for.
pub proof fn law_written_numbers_read(n: int, width: nat, upper: bool)
    ensures
        reads(signed_decimal(n), n),
        n >= 0 ==> reads(decimal(n as nat), n),
        n >= 0 ==> reads_hex(hexadecimal(n as nat, width, upper), n as nat, width),
{
    law_signed_decimal_reads_back(n);
    if n >= 0 {
        law_decimal_reads_back(n as nat);
        law_hexadecimal_reads_back(n as nat, width, upper);
    }
}

} // verus!

//! The notations that people write on a command line: bit rates and frames.

use vstd::prelude::*;

use crate::protocol::{Bitrate, CanFrame};
use crate::text;

verus! {

// ───────────────────────────── Bit rates ─────────────────────────────

/// Whether `c` is the unit of a bit rate.
pub open spec fn is_kilo(c: char) -> bool {
    c == 'k' || c == 'K'
}

/// `s` without the units it ends in.
pub open spec fn without_unit(s: Seq<char>) -> Seq<char>
    decreases s.len(),
{
    if s.len() > 0 && is_kilo(s.last()) {
        without_unit(s.drop_last())
    } else {
        s
    }
}

/// The rate in kbit/s that `s` names. `500`, `500k` and `500000` are the same thing.
pub open spec fn named_kbps(s: Seq<char>) -> Option<nat> {
    match text::number(without_unit(text::trim_back(text::trim_front(s))), 10) {
        Some(v) => if v > u32::MAX {
            None
        } else if v <= 1000 || (s.len() > 0 && is_kilo(s.last())) {
            Some(v)
        } else {
            Some(v / 1000)
        },
        None => None,
    }
}

/// The names of `rates`, with a comma between them.
pub open spec fn rate_names(rates: Seq<Bitrate>) -> Seq<char>
    decreases rates.len(),
{
    if rates.len() == 0 {
        Seq::empty()
    } else {
        rate_names(rates.drop_last()) + (if rates.len() > 1 {
            ", "@
        } else {
            ""@
        }) + text::decimal(rates.last().rate() as nat) + "k"@
    }
}

/// Parse a bit rate: `500`, `500k` and `500000` are the same thing.
pub fn parse_bitrate(s: &str) -> (r: Result<Bitrate, String>)
    ensures
        match named_kbps(s@) {
            None => r matches Err(e) && e@ == "'"@ + s@ + "' is not a bit rate"@,
            Some(kbps) => match r {
                Ok(bitrate) => bitrate.rate() == kbps,
                Err(e) => {
                    &&& forall|b: Bitrate| #[trigger] b.rate() != kbps
                    &&& e@ == text::decimal(kbps) + " kbit/s is not supported; try one of "@
                        + rate_names(Bitrate::ALL@)
                },
            },
        },
{
    let chars: Vec<char> = text::chars_of(s);
    let trimmed = text::trim(chars.as_slice());
    let digits = strip_unit(trimmed);
    let value: u32 = match text::parse_number(digits, 10) {
        Some(value) => value,
        None => {
            let mut e = String::new();
            e.append("'");
            e.append(s);
            e.append("' is not a bit rate");
            assert(e@ =~= "'"@ + s@ + "' is not a bit rate"@);
            return Err(e);
        },
    };
    let kbps: u32 = if value <= 1000 || (chars.len() > 0 && kilo(chars[chars.len() - 1])) {
        value
    } else {
        value / 1000
    };
    match Bitrate::from_kbps(kbps) {
        Some(bitrate) => Ok(bitrate),
        None => {
            let mut e = String::new();
            text::push_decimal(&mut e, kbps as u64);
            e.append(" kbit/s is not supported; try one of ");
            push_rate_names(&mut e);
            assert(e@ =~= text::decimal(kbps as nat) + " kbit/s is not supported; try one of "@
                + rate_names(Bitrate::ALL@));
            Err(e)
        },
    }
}

fn kilo(c: char) -> (yes: bool)
    ensures
        yes == is_kilo(c),
{
    c == 'k' || c == 'K'
}

/// `s` without the units it ends in.
fn strip_unit(s: &[char]) -> (t: &[char])
    ensures
        t@ == without_unit(s@),
{
    let mut n: usize = s.len();
    assert(s@.take(n as int) =~= s@);
    while n > 0 && kilo(s[n - 1])
        invariant
            n <= s@.len(),
            without_unit(s@) == without_unit(s@.take(n as int)),
        decreases n,
    {
        assert(s@.take(n as int).drop_last() =~= s@.take(n - 1));
        n -= 1;
    }
    assert(s@.take(n as int) =~= s@.subrange(0, n as int));
    &s[0..n]
}

/// Append the names of all supported rates.
fn push_rate_names(out: &mut String)
    ensures
        final(out)@ == old(out)@ + rate_names(Bitrate::ALL@),
{
    let rates = Bitrate::ALL;
    let mut i: usize = 0;
    assert(out@ =~= old(out)@ + rate_names(rates@.take(0)));
    while i < 9
        invariant
            i <= 9,
            rates@.len() == 9,
            out@ == old(out)@ + rate_names(rates@.take(i as int)),
        decreases 9 - i,
    {
        if i > 0 {
            out.append(", ");
        }
        proof {
            reveal_strlit("");
        }
        text::push_decimal(out, rates[i].kbps() as u64);
        out.append("k");
        assert(rates@.take(i + 1).drop_last() =~= rates@.take(i as int));
        i += 1;
        assert(out@ =~= old(out)@ + rate_names(rates@.take(i as int)));
    }
    assert(rates@.take(i as int) =~= rates@);
}

// ───────────────────────────── Frames ─────────────────────────────

/// Whether `c` starts the length of a remote frame.
pub open spec fn is_remote_mark(c: char) -> bool {
    c == 'R' || c == 'r'
}

/// The complaint that `s` is not hexadecimal.
pub open spec fn not_hexadecimal(s: Seq<char>) -> Seq<char> {
    "'"@ + s + "' is not hexadecimal"@
}

/// The bytes that a payload stands for, or what is wrong with the first byte that is
/// no two hexadecimal digits. A pair is two bytes of UTF-8: two ASCII characters, or
/// one character that takes two bytes.
pub open spec fn payload_notation(body: Seq<char>) -> Result<Seq<u8>, Seq<char>>
    decreases body.len(),
{
    if body.len() == 0 {
        Ok(Seq::empty())
    } else if text::byte_len(body[0]) == 2 {
        Err(not_hexadecimal(body.take(1)))
    } else if text::byte_len(body[0]) > 2 || body.len() == 1 || text::byte_len(body[1]) > 1 {
        Err("payload is not hexadecimal"@)
    } else {
        match text::number(body.take(2), 16) {
            Some(v) => match payload_notation(body.skip(2)) {
                Ok(rest) => Ok(seq![v as u8] + rest),
                Err(e) => Err(e),
            },
            None => Err(not_hexadecimal(body.take(2))),
        }
    }
}

/// The frame with this identifier that `body` stands for, or what is wrong with it.
pub open spec fn body_notation(id: u32, extended: bool, body: Seq<char>) -> Result<
    CanFrame,
    Seq<char>,
> {
    if body.len() > 0 && is_remote_mark(body[0]) {
        match text::number(body.skip(1), 10) {
            Some(dlc) => if dlc > u8::MAX {
                Err("'"@ + body.skip(1) + "' is not a length"@)
            } else if dlc > 8 {
                Err("remote frame length must be 0 to 8"@)
            } else {
                Ok(CanFrame::of_remote(id, extended, dlc as u8))
            },
            None => Err("'"@ + body.skip(1) + "' is not a length"@),
        }
    } else if text::bytes_len(body) % 2 != 0 {
        Err("payload must have an even number of hex digits"@)
    } else if text::bytes_len(body) > 16 {
        Err("payload is longer than 8 bytes"@)
    } else {
        match payload_notation(body) {
            Ok(data) => Ok(CanFrame::of_data(id, extended, data)),
            Err(e) => Err(e),
        }
    }
}

/// The frame that `id` and `body`, with a `#` between them, stand for, or what is
/// wrong with them.
pub open spec fn split_notation(id: Seq<char>, body: Seq<char>) -> Result<CanFrame, Seq<char>> {
    let extended = text::bytes_len(id) > 3;
    if text::bytes_len(id) == 0 || text::bytes_len(id) > 8 {
        Err("'"@ + id + "' is not a CAN identifier"@)
    } else {
        match text::number(id, 16) {
            Some(v) => if v > u32::MAX {
                Err(not_hexadecimal(id))
            } else if v > (if extended { 0x1fff_ffffint } else { 0x7ff }) {
                Err(
                    "identifier 0x"@ + text::hexadecimal(v, 0, true)
                        + " does not fit in the frame format"@,
                )
            } else {
                body_notation(v as u32, extended, body)
            },
            None => Err(not_hexadecimal(id)),
        }
    }
}

/// The frame that candump notation stands for, or what is wrong with it.
pub open spec fn frame_notation(s: Seq<char>) -> Result<CanFrame, Seq<char>> {
    match s.index_of_first('#') {
        Some(i) => split_notation(s.take(i), s.skip(i + 1)),
        None => Err("'"@ + s + "' is missing the '#' separator"@),
    }
}

/// Whether `r` is `expected`.
pub open spec fn agrees<T>(expected: Result<T, Seq<char>>, r: Result<T, String>) -> bool {
    match expected {
        Ok(v) => r == Ok::<T, String>(v),
        Err(e) => r matches Err(m) && m@ == e,
    }
}

/// Parse candump notation: `123#DEADBEEF`, `1ABCDEF0#0102`, `123#R4`.
pub fn parse_frame(text: &str) -> (r: Result<CanFrame, String>)
    ensures
        agrees(frame_notation(text@), r),
{
    let chars: Vec<char> = text::chars_of(text);
    let mut i: usize = 0;
    proof {
        text@.index_of_first_ensures('#');
    }
    while i < chars.len() && chars[i] != '#'
        invariant
            i <= chars@.len(),
            chars@ == text@,
            forall|j: int| 0 <= j < i ==> #[trigger] chars@[j] != '#',
        decreases chars@.len() - i,
    {
        i += 1;
    }
    if i == chars.len() {
        assert(!text@.contains('#'));
        return Err(quoted(chars.as_slice(), "' is missing the '#' separator"));
    }
    assert(text@.index_of_first('#') == Some(i as int)) by {
        assert(text@[i as int] == '#');
        let k = text@.index_of_first('#')->0;
        assert(k >= i && k <= i);
    }
    assert(chars@.subrange(0, i as int) =~= text@.take(i as int));
    assert(chars@.subrange(i + 1, chars@.len() as int) =~= text@.skip(i + 1));
    parse_split(&chars[0..i], &chars[i + 1..chars.len()])
}

/// `s` after an opening quote, and what follows it.
fn quoted(s: &[char], after: &str) -> (e: String)
    ensures
        e@ == "'"@ + s@ + after@,
{
    let mut e = String::new();
    e.append("'");
    text::push_chars(&mut e, s);
    e.append(after);
    assert(e@ =~= "'"@ + s@ + after@);
    e
}

/// A fixed text.
fn plain(s: &str) -> (e: String)
    ensures
        e@ == s@,
{
    let mut e = String::new();
    e.append(s);
    assert(e@ =~= s@);
    e
}

/// Parse what stands before and behind the `#`.
fn parse_split(id: &[char], body: &[char]) -> (r: Result<CanFrame, String>)
    ensures
        agrees(split_notation(id@, body@), r),
{
    let len: u128 = text::len_of_chars(id);
    if len == 0 || len > 8 {
        return Err(quoted(id, "' is not a CAN identifier"));
    }
    let extended: bool = len > 3;
    let value: u32 = match text::parse_number(id, 16) {
        Some(value) => value,
        None => return Err(quoted(id, "' is not hexadecimal")),
    };
    let limit: u32 = if extended {
        0x1fff_ffff
    } else {
        0x7ff
    };
    if value > limit {
        let mut e = String::new();
        e.append("identifier 0x");
        text::push_hexadecimal(&mut e, value, 0, true);
        e.append(" does not fit in the frame format");
        assert(e@ =~= "identifier 0x"@ + text::hexadecimal(value as nat, 0, true)
            + " does not fit in the frame format"@);
        return Err(e);
    }
    parse_body(value, extended, body)
}

/// Parse what stands behind the `#`.
fn parse_body(id: u32, extended: bool, body: &[char]) -> (r: Result<CanFrame, String>)
    ensures
        agrees(body_notation(id, extended, body@), r),
{
    if body.len() > 0 && (body[0] == 'R' || body[0] == 'r') {
        let dlc_text = &body[1..body.len()];
        assert(dlc_text@ =~= body@.skip(1));
        let dlc: u32 = match text::parse_number(dlc_text, 10) {
            Some(dlc) => dlc,
            None => return Err(quoted(dlc_text, "' is not a length")),
        };
        if dlc > 0xff {
            return Err(quoted(dlc_text, "' is not a length"));
        }
        if dlc > 8 {
            return Err(plain("remote frame length must be 0 to 8"));
        }
        return Ok(CanFrame::new_remote(id, extended, dlc as u8));
    }
    let len: u128 = text::len_of_chars(body);
    if len % 2 != 0 {
        return Err(plain("payload must have an even number of hex digits"));
    }
    if len > 16 {
        return Err(plain("payload is longer than 8 bytes"));
    }
    match parse_payload(body) {
        Ok(data) => Ok(CanFrame::new(id, extended, data.as_slice())),
        Err(e) => Err(e),
    }
}

/// `front` and what `rest` stands for, if that is anything.
spec fn prepended(front: Seq<u8>, rest: Result<Seq<u8>, Seq<char>>) -> Result<
    Seq<u8>,
    Seq<char>,
> {
    match rest {
        Ok(bytes) => Ok(front + bytes),
        Err(e) => Err(e),
    }
}

/// Parse a payload.
fn parse_payload(body: &[char]) -> (r: Result<Vec<u8>, String>)
    ensures
        match payload_notation(body@) {
            Ok(data) => r matches Ok(v) && v@ == data,
            Err(e) => r matches Err(m) && m@ == e,
        },
{
    let mut data: Vec<u8> = Vec::new();
    let mut i: usize = 0;
    proof {
        assert(body@.skip(0) =~= body@);
        let all = payload_notation(body@);
        if all is Ok {
            assert(data@ + all->Ok_0 =~= all->Ok_0);
        }
    }
    while i < body.len()
        invariant
            i <= body@.len(),
            payload_notation(body@) == prepended(data@, payload_notation(body@.skip(i as int))),
        decreases body@.len() - i,
    {
        let ghost rest = body@.skip(i as int);
        let first: u128 = text::len_of_chars(&body[i..i + 1]);
        proof {
            lemma_one_char(body@.subrange(i as int, i + 1));
            assert(rest.take(1) =~= body@.subrange(i as int, i + 1));
        }
        if first == 2 {
            return Err(quoted(&body[i..i + 1], "' is not hexadecimal"));
        }
        if first > 2 || body.len() - i == 1 {
            return Err(plain("payload is not hexadecimal"));
        }
        proof {
            lemma_one_char(body@.subrange(i + 1, i + 2));
            assert(rest.take(2) =~= body@.subrange(i as int, i + 2));
        }
        if text::len_of_chars(&body[i + 1..i + 2]) > 1 {
            return Err(plain("payload is not hexadecimal"));
        }
        let byte: u32 = match text::parse_number(&body[i..i + 2], 16) {
            Some(byte) => byte,
            None => {
                proof {
                    lemma_pair_bound(rest.take(2));
                }
                return Err(quoted(&body[i..i + 2], "' is not hexadecimal"));
            },
        };
        proof {
            lemma_pair_bound(rest.take(2));
            assert(rest.skip(2) =~= body@.skip(i + 2));
            let tail = payload_notation(rest.skip(2));
            if tail is Ok {
                assert(data@ + (seq![byte as u8] + tail->Ok_0) =~= data@.push(byte as u8)
                    + tail->Ok_0);
            }
        }
        data.push(byte as u8);
        i += 2;
    }
    assert(body@.skip(i as int) =~= Seq::empty());
    assert(data@ + Seq::<u8>::empty() =~= data@);
    Ok(data)
}

proof fn lemma_one_char(s: Seq<char>)
    requires
        s.len() == 1,
    ensures
        text::bytes_len(s) == text::byte_len(s[0]),
{
    reveal_with_fuel(text::bytes_len, 2);
}

/// Two hexadecimal digits, or one after a plus sign, stand for a byte.
proof fn lemma_pair_bound(s: Seq<char>)
    requires
        s.len() == 2,
    ensures
        text::number(s, 16) matches Some(v) ==> v < 256,
{
    reveal_with_fuel(text::digits_value, 3);
}

// ───────────────────────────── Output ─────────────────────────────

/// The identifier column of a received frame.
pub open spec fn id_column(frame: CanFrame) -> Seq<char> {
    if frame.extended {
        text::hexadecimal(frame.id as nat, 8, true)
    } else {
        "     "@ + text::hexadecimal(frame.id as nat, 3, true)
    }
}

/// The payload column of a received frame.
pub open spec fn data_column(frame: CanFrame) -> Seq<char> {
    if frame.remote {
        "remote request"@
    } else {
        text::hex_list(frame.payload_bytes(), " "@)
    }
}

/// The identifier column of a received frame.
pub fn format_id(frame: &CanFrame) -> (s: String)
    ensures
        s@ == id_column(*frame),
{
    let mut s = String::new();
    if frame.extended {
        text::push_hexadecimal(&mut s, frame.id, 8, true);
    } else {
        s.append("     ");
        text::push_hexadecimal(&mut s, frame.id, 3, true);
    }
    assert(s@ =~= id_column(*frame));
    s
}

/// The payload column of a received frame.
pub fn format_data(frame: &CanFrame) -> (s: String)
    ensures
        s@ == data_column(*frame),
{
    if frame.remote {
        return plain("remote request");
    }
    let mut s = String::new();
    text::push_hex_list(&mut s, frame.payload(), " ");
    assert(s@ =~= data_column(*frame));
    s
}

/// A frame in candump notation.
pub fn format_frame(frame: &CanFrame) -> (s: String)
    ensures
        s@ == frame.text(),
{
    frame.to_string()
}

// ───────────────────────────── Laws ─────────────────────────────

/// Every supported rate may be given in kbit/s, with or without the unit, or in
/// bit/s: `500`, `500k`, `500K` and `500000` are the same thing.
pub proof fn law_rate_spellings_agree(b: Bitrate)
    ensures
        named_kbps(text::decimal(b.rate() as nat)) == Some(b.rate() as nat),
        named_kbps(text::decimal(b.rate() as nat).push('k')) == Some(b.rate() as nat),
        named_kbps(text::decimal(b.rate() as nat).push('K')) == Some(b.rate() as nat),
        named_kbps(text::decimal((b.rate() * 1000) as nat)) == Some(b.rate() as nat),
{
    let kbps = b.rate() as nat;
    lemma_decimal_reads_back(kbps);
    lemma_decimal_reads_back(kbps * 1000);
    lemma_digits_need_no_trimming(text::decimal(kbps));
    lemma_digits_need_no_trimming(text::decimal(kbps * 1000));
    lemma_unit_is_stripped(text::decimal(kbps), 'k');
    lemma_unit_is_stripped(text::decimal(kbps), 'K');
}

/// Whether `s` is one or more digits.
spec fn all_digits(s: Seq<char>, radix: nat) -> bool {
    s.len() > 0 && text::all_digits(s, radix)
}

/// A decimal number reads back as itself.
proof fn lemma_decimal_reads_back(n: nat)
    ensures
        all_digits(text::decimal(n), 10),
        text::digits_value(text::decimal(n), 10) == Some(n),
        text::number(text::decimal(n), 10) == Some(n),
{
    text::law_decimal_reads_back(n);
}

/// A hexadecimal number that fits its width reads back as itself, and takes exactly
/// that many digits.
proof fn lemma_hexadecimal_reads_back(n: nat, width: nat)
    requires
        width > 0,
        n < text::sixteen_to(width),
    ensures
        text::hexadecimal(n, width, true).len() == width,
        all_digits(text::hexadecimal(n, width, true), 16),
        text::digits_value(text::hexadecimal(n, width, true), 16) == Some(n),
{
    text::law_hexadecimal_width(n, width, true);
    text::law_hexadecimal_reads_back(n, width, true);
}

/// Digits hold no white space and no unit.
proof fn lemma_digits_need_no_trimming(s: Seq<char>)
    requires
        all_digits(s, 10),
    ensures
        without_unit(text::trim_back(text::trim_front(s))) == s,
        !is_kilo(s.last()),
{
    assert(text::digit_value(s.first()) is Some);
    assert(text::digit_value(s.last()) is Some);
}

/// The unit behind digits is stripped.
proof fn lemma_unit_is_stripped(s: Seq<char>, unit: char)
    requires
        all_digits(s, 10),
        is_kilo(unit),
    ensures
        without_unit(text::trim_back(text::trim_front(s.push(unit)))) == s,
{
    let t = s.push(unit);
    assert(text::digit_value(s.first()) is Some);
    assert(t.first() == s.first());
    assert(t.drop_last() =~= s);
    lemma_digits_need_no_trimming(s);
}

/// Digits take one byte each, and none of them is a sign, a separator or a mark.
proof fn lemma_digits_are_ascii(s: Seq<char>)
    requires
        forall|i: int| 0 <= i < s.len() ==> text::digit_value(#[trigger] s[i]) is Some,
    ensures
        text::bytes_len(s) == s.len(),
    decreases s.len(),
{
    if s.len() > 0 {
        assert(text::digit_value(s.last()) is Some);
        assert forall|i: int| 0 <= i < s.len() - 1 implies text::digit_value(
            #[trigger] s.drop_last()[i],
        ) is Some by {
            assert(s.drop_last()[i] == s[i]);
        }
        lemma_digits_are_ascii(s.drop_last());
    }
}

/// Two hexadecimal digits per byte.
proof fn lemma_hex_list_digits(data: Seq<u8>)
    ensures
        text::hex_list(data, ""@).len() == 2 * data.len(),
        forall|i: int|
            0 <= i < 2 * data.len() ==> text::digit_value(
                #[trigger] text::hex_list(data, ""@)[i],
            ) is Some,
    decreases data.len(),
{
    reveal_strlit("");
    if data.len() > 0 {
        lemma_hex_list_digits(data.drop_last());
        lemma_byte_text(data.last());
        assert(data.len() == 1 ==> data.drop_last() =~= Seq::empty());
    }
}

/// A byte is two hexadecimal digits, which read back as the byte.
proof fn lemma_byte_text(b: u8)
    ensures
        text::hexadecimal(b as nat, 2, true).len() == 2,
        all_digits(text::hexadecimal(b as nat, 2, true), 16),
        text::number(text::hexadecimal(b as nat, 2, true), 16) == Some(b as nat),
{
    reveal_with_fuel(text::sixteen_to, 3);
    lemma_hexadecimal_reads_back(b as nat, 2);
    assert(text::digit_value(text::hexadecimal(b as nat, 2, true)[0]) is Some);
}

/// The digits of `data` and whatever follows parse to `data` and what follows.
proof fn lemma_hex_list_parses(data: Seq<u8>, rest: Seq<char>)
    ensures
        payload_notation(text::hex_list(data, ""@) + rest) == prepended(
            data,
            payload_notation(rest),
        ),
    decreases data.len(),
{
    reveal_strlit("");
    let tail = payload_notation(rest);
    if data.len() == 0 {
        assert(text::hex_list(data, ""@) + rest =~= rest);
        if tail is Ok {
            assert(data + tail->Ok_0 =~= tail->Ok_0);
        }
    } else {
        let pair = text::hexadecimal(data.last() as nat, 2, true);
        let front = data.drop_last();
        lemma_byte_text(data.last());
        assert(data.len() == 1 ==> front =~= Seq::empty());
        assert(text::hex_list(data, ""@) + rest =~= text::hex_list(front, ""@) + (pair + rest));
        lemma_hex_list_parses(front, pair + rest);
        assert((pair + rest).take(2) =~= pair);
        assert((pair + rest).skip(2) =~= rest);
        assert(text::digit_value(pair[0]) is Some && text::digit_value(pair[1]) is Some);
        if tail is Ok {
            assert(front + (seq![data.last()] + tail->Ok_0) =~= data + tail->Ok_0);
        }
    }
}

/// The part before the first `#` ends where the digits end.
proof fn lemma_split_at_hash(id: Seq<char>, body: Seq<char>)
    requires
        all_digits(id, 16),
    ensures
        frame_notation(id + seq!['#'] + body) == split_notation(id, body),
{
    let s = id + seq!['#'] + body;
    let n = id.len() as int;
    s.index_of_first_ensures('#');
    assert(s[n] == '#');
    assert(s.contains('#'));
    let k = s.index_of_first('#')->0;
    if k < n {
        assert(s[k] == id[k]);
        assert(text::digit_value(id[k]) is Some);
    }
    assert(k == n);
    assert(s.take(n) =~= id);
    assert(s.skip(n + 1) =~= body);
}

/// An identifier that fits its format is accepted.
proof fn lemma_id_notation(id: u32, extended: bool, body: Seq<char>)
    requires
        id < (if extended { 0x2000_0000int } else { 0x800 }),
    ensures
        ({
            let digits = text::hexadecimal(id as nat, if extended { 8 } else { 3 }, true);
            &&& all_digits(digits, 16)
            &&& split_notation(digits, body) == body_notation(id, extended, body)
        }),
{
    let width: nat = if extended {
        8
    } else {
        3
    };
    let digits = text::hexadecimal(id as nat, width, true);
    assert(text::sixteen_to(3) == 0x1000 && text::sixteen_to(8) == 0x1_0000_0000) by {
        reveal_with_fuel(text::sixteen_to, 9);
    }
    lemma_hexadecimal_reads_back(id as nat, width);
    lemma_digits_are_ascii(digits);
    assert(text::digit_value(digits[0]) is Some);
}

/// A payload is accepted and keeps its bytes.
proof fn lemma_data_notation(id: u32, extended: bool, data: Seq<u8>)
    requires
        data.len() <= 8,
    ensures
        body_notation(id, extended, text::hex_list(data, ""@)) == Ok::<CanFrame, Seq<char>>(
            CanFrame::of_data(id, extended, data),
        ),
{
    let body = text::hex_list(data, ""@);
    lemma_hex_list_digits(data);
    lemma_digits_are_ascii(body);
    lemma_hex_list_parses(data, Seq::empty());
    assert(body + Seq::<char>::empty() =~= body);
    assert(data + Seq::<u8>::empty() =~= data);
    assert(body.len() > 0 ==> text::digit_value(body[0]) is Some);
}

/// A frame in candump notation parses back to the same frame: format, identifier,
/// length and payload survive. The identifier has to fit its format, and the length
/// of a remote frame must not exceed 8.
pub proof fn law_notation_roundtrip(frame: CanFrame)
    requires
        frame.id < (if frame.extended { 0x2000_0000int } else { 0x800 }),
        frame.remote ==> frame.dlc <= 8,
    ensures
        frame_notation(frame.text()) == Ok::<CanFrame, Seq<char>>(
            if frame.remote {
                CanFrame::of_remote(frame.id, frame.extended, frame.dlc)
            } else {
                CanFrame::of_data(frame.id, frame.extended, frame.payload_bytes())
            },
        ),
{
    reveal_strlit("#");
    reveal_strlit("#R");
    let id = text::hexadecimal(frame.id as nat, if frame.extended { 8 } else { 3 }, true);
    let body = if frame.remote {
        seq!['R'] + text::decimal(frame.dlc as nat)
    } else {
        text::hex_list(frame.payload_bytes(), ""@)
    };
    assert(frame.text() =~= id + seq!['#'] + body);
    lemma_id_notation(frame.id, frame.extended, body);
    lemma_split_at_hash(id, body);
    if frame.remote {
        lemma_decimal_reads_back(frame.dlc as nat);
        assert(body.skip(1) =~= text::decimal(frame.dlc as nat));
    } else {
        lemma_data_notation(frame.id, frame.extended, frame.payload_bytes());
    }
}

/// Whatever is accepted is a frame that the format allows: an identifier in range
/// and at most 8 bytes.
pub proof fn law_accepted_frame_is_in_range(s: Seq<char>)
    ensures
        frame_notation(s) matches Ok(frame) ==> frame.in_range(),
{
}

/// The identifier column shows the identifier: read as a hexadecimal number, behind the
/// five spaces that stand before a standard one, it is that of the frame. It is eight
/// characters wide, for a standard identifier if that fits in three digits.
pub proof fn law_identifier_column(frame: CanFrame)
    ensures
        ({
            let column = id_column(frame);
            let spaces: int = if frame.extended {
                0
            } else {
                5
            };
            &&& column.len() >= 8
            &&& frame.extended || frame.id < 0x1000 ==> column.len() == 8
            &&& forall|i: int| 0 <= i < spaces ==> #[trigger] column[i] == ' '
            &&& text::number(column.skip(spaces), 16) == Some(frame.id as nat)
            &&& forall|i: int|
                spaces <= i < column.len() ==> !('a' <= #[trigger] column[i] <= 'f')
        }),
{
    let column = id_column(frame);
    let w: nat = if frame.extended {
        8
    } else {
        3
    };
    let digits = text::hexadecimal(frame.id as nat, w, true);
    assert(text::sixteen_to(3) == 0x1000 && text::sixteen_to(8) == 0x1_0000_0000) by {
        reveal_with_fuel(text::sixteen_to, 9);
    }
    reveal_strlit("     ");
    text::law_hexadecimal_reads_back(frame.id as nat, w, true);
    if frame.extended || frame.id < 0x1000 {
        text::law_hexadecimal_width(frame.id as nat, w, true);
    }
    if frame.extended {
        assert(column.skip(0) =~= digits);
    } else {
        assert(column.skip(5) =~= digits);
        assert forall|i: int| 5 <= i < column.len() implies !('a' <= #[trigger] column[i]
            <= 'f') by {
            assert(column[i] == digits[i - 5]);
        }
    }
}

/// Frames of one format with different identifiers never show the same column.
pub proof fn law_identifier_columns_differ(a: CanFrame, b: CanFrame)
    requires
        a.extended == b.extended,
        id_column(a) == id_column(b),
    ensures
        a.id == b.id,
{
    law_identifier_column(a);
    law_identifier_column(b);
}

/// The payload column shows the payload: each byte in two digits, with a space between
/// two. A remote frame has none.
pub proof fn law_data_column(frame: CanFrame, i: int)
    ensures
        ({
            let column = data_column(frame);
            let payload = frame.payload_bytes();
            let n = payload.len() as int;
            &&& frame.remote ==> column == "remote request"@
            &&& !frame.remote ==> column.len() == (if n == 0 {
                0
            } else {
                3 * n - 1
            })
            &&& !frame.remote && 0 <= i < n ==> text::number(
                column.subrange(3 * i, 3 * i + 2),
                16,
            ) == Some(payload[i] as nat)
            &&& !frame.remote && 0 <= i && i + 1 < n ==> column[3 * i + 2] == ' '
        }),
{
    let column = data_column(frame);
    let payload = frame.payload_bytes();
    let n = payload.len() as int;
    reveal_strlit(" ");
    let k = 2 + " "@.len() as int;
    assert(k == 3);
    assert(n * k == 3 * n && i * k == 3 * i) by (nonlinear_arith)
        requires
            k == 3,
    ;
    if !frame.remote && n > 0 {
        text::law_hex_list_entries(payload, " "@, 0);
        if 0 <= i < n {
            text::law_hex_list_entries(payload, " "@, i);
            if i + 1 < n {
                assert(column.subrange(3 * i + 2, 3 * i + 3)[0] == column[3 * i + 2]);
            }
        }
    }
}

/// What digits name: up to 1000 they are kbit/s, above that bit/s; with a unit behind
/// them they are kbit/s in any case. A number that does not fit in 32 bits names
/// nothing.
pub proof fn law_rate_notation(digits: Seq<char>, unit: char)
    requires
        digits.len() > 0,
        text::all_digits(digits, 10),
        unit == 'k' || unit == 'K',
    ensures
        ({
            let v = text::digits_value(digits, 10)->0;
            &&& v > 0xffff_ffff ==> named_kbps(digits) is None && named_kbps(
                digits.push(unit),
            ) is None
            &&& v <= 1000 ==> named_kbps(digits) == Some(v)
            &&& 1000 < v <= 0xffff_ffff ==> named_kbps(digits) == Some((v / 1000) as nat)
            &&& v <= 0xffff_ffff ==> named_kbps(digits.push(unit)) == Some(v)
        }),
{
    text::law_digits_count_by_place(digits, Seq::empty(), 10);
    text::law_plus_sign_is_optional(digits, 10);
    lemma_digits_need_no_trimming(digits);
    lemma_unit_is_stripped(digits, unit);
}

/// White space before a rate does not matter.
pub proof fn law_rate_may_be_indented(s: Seq<char>, c: char)
    requires
        text::is_white_space(c),
        s.len() > 0,
    ensures
        named_kbps(seq![c] + s) == named_kbps(s),
{
    assert((seq![c] + s).drop_first() =~= s);
    assert((seq![c] + s).last() == s.last());
}

/// White space after a rate does not matter either, but for one thing: behind it a unit
/// is not seen, so that a number above 1000 counts in bit/s.
pub proof fn law_rate_may_be_followed_by_space(s: Seq<char>, c: char)
    requires
        text::is_white_space(c),
        s.len() > 0,
    ensures
        s.last() != 'k' && s.last() != 'K' ==> named_kbps(s.push(c)) == named_kbps(s),
        named_kbps(s) is None <==> named_kbps(s.push(c)) is None,
        (s.last() == 'k' || s.last() == 'K') && named_kbps(s) is Some ==> ({
            let v = named_kbps(s)->0;
            named_kbps(s.push(c)) == Some(
                if v <= 1000 {
                    v
                } else {
                    v / 1000
                },
            )
        }),
{
    lemma_trim_of_push(s, c);
}

proof fn lemma_trim_of_push(s: Seq<char>, c: char)
    requires
        text::is_white_space(c),
    ensures
        text::trim_back(text::trim_front(s.push(c))) == text::trim_back(text::trim_front(s)),
    decreases s.len(),
{
    let t = s.push(c);
    if s.len() == 0 {
        assert(t.drop_first() =~= s);
        assert(text::trim_front(t) == text::trim_front(s));
    } else if text::is_white_space(s.first()) {
        assert(t.drop_first() =~= s.drop_first().push(c));
        lemma_trim_of_push(s.drop_first(), c);
    } else {
        assert(t.drop_last() =~= s);
    }
}

/// A rate is made of digits, a plus sign, white space and units; whatever holds anything
/// else names none.
pub proof fn law_rate_characters(s: Seq<char>, i: int)
    requires
        named_kbps(s) is Some,
        0 <= i < s.len(),
    ensures
        text::is_white_space(s[i]) || s[i] == 'k' || s[i] == 'K' || s[i] == '+' || (
        text::digit_value(s[i]) matches Some(d) && d < 10),
{
    let t = text::trim_back(text::trim_front(s));
    let u = without_unit(t);
    text::law_trim_removes_white_space(s);
    let (a, b) = choose|a: int, b: int|
        0 <= a <= b <= s.len() && t == #[trigger] s.subrange(a, b) && (forall|i: int|
            0 <= i < a || b <= i < s.len() ==> text::is_white_space(#[trigger] s[i]));
    if a <= i < b {
        assert(t[i - a] == s[i]);
        lemma_without_unit(t);
        text::law_only_digits_are_numbers(u, 10);
        if i - a < u.len() {
            assert(u[i - a] == t[i - a]);
            if u[0] == '+' && i - a > 0 {
                assert(u.skip(1)[i - a - 1] == u[i - a]);
            }
        }
    }
}

proof fn lemma_without_unit(s: Seq<char>)
    ensures
        without_unit(s).len() <= s.len(),
        without_unit(s) == s.take(without_unit(s).len() as int),
        forall|i: int| without_unit(s).len() <= i < s.len() ==> is_kilo(#[trigger] s[i]),
    decreases s.len(),
{
    if s.len() > 0 && is_kilo(s.last()) {
        let rest = s.drop_last();
        lemma_without_unit(rest);
        assert(without_unit(s) =~= s.take(without_unit(s).len() as int));
        assert forall|i: int| without_unit(s).len() <= i < s.len() implies is_kilo(
            #[trigger] s[i],
        ) by {
            if i < s.len() - 1 {
                assert(s[i] == rest[i]);
            }
        }
    } else {
        assert(s.take(s.len() as int) =~= s);
    }
}

/// The list of rates names each of them in kbit/s, with a comma between two.
pub proof fn law_rate_names_grow(rates: Seq<Bitrate>, b: Bitrate)
    ensures
        rate_names(Seq::<Bitrate>::empty()).len() == 0,
        exists|d: Seq<char>| #[trigger]
            text::reads(d, b.rate() as int) && rate_names(rates.push(b)) == rate_names(rates) + (
            if rates.len() > 0 {
                seq![',', ' ']
            } else {
                seq![]
            }) + d + seq!['k'],
{
    reveal_strlit(", ");
    reveal_strlit("");
    reveal_strlit("k");
    text::law_written_numbers_read(b.rate() as int, 0, true);
    let d = text::decimal(b.rate() as nat);
    assert(rates.push(b).drop_last() =~= rates);
    assert(", "@ =~= seq![',', ' '] && ""@ =~= seq![] && "k"@ =~= seq!['k']);
    assert(text::reads(d, b.rate() as int));
}

/// Characters `2 * i` and `2 * i + 1`.
pub open spec fn pair_at(body: Seq<char>, i: int) -> Seq<char> {
    body.subrange(2 * i, 2 * i + 2)
}

/// What a payload means: it is pairs of characters that read as hexadecimal numbers, all
/// of them, and its bytes are these numbers in order.
pub proof fn law_payload_meaning(body: Seq<char>)
    ensures
        payload_notation(body) is Ok <==> body.len() % 2 == 0 && forall|i: int|
            0 <= i < body.len() / 2 ==> text::number(#[trigger] pair_at(body, i), 16) is Some,
        payload_notation(body) matches Ok(data) ==> data.len() == body.len() / 2 && forall|i: int|
            0 <= i < data.len() ==> #[trigger] data[i] == text::number(pair_at(body, i), 16)->0,
    decreases body.len(),
{
    if body.len() >= 2 {
        let rest = body.skip(2);
        law_payload_meaning(rest);
        assert(pair_at(body, 0) =~= body.take(2));
        lemma_pair_bound(body.take(2));
        lemma_pair_is_ascii(body.take(2));
        assert forall|i: int| 0 <= i < rest.len() / 2 implies #[trigger] pair_at(rest, i)
            == pair_at(body, i + 1) by {
            assert(pair_at(rest, i) =~= pair_at(body, i + 1));
        }
        if payload_notation(body) is Ok {
            let data = payload_notation(body)->Ok_0;
            let tail = payload_notation(rest)->Ok_0;
            assert forall|i: int| 0 <= i < body.len() / 2 implies text::number(
                #[trigger] pair_at(body, i),
                16,
            ) is Some by {
                if i > 0 {
                    assert(pair_at(rest, i - 1) == pair_at(body, i));
                }
            }
            assert forall|i: int| 0 <= i < data.len() implies #[trigger] data[i] == text::number(
                pair_at(body, i),
                16,
            )->0 by {
                if i > 0 {
                    assert(data[i] == tail[i - 1]);
                    assert(pair_at(rest, i - 1) == pair_at(body, i));
                }
            }
        } else if body.len() % 2 == 0 && (forall|i: int|
            0 <= i < body.len() / 2 ==> text::number(#[trigger] pair_at(body, i), 16) is Some) {
            assert(text::number(pair_at(body, 0), 16) is Some);
            assert forall|i: int| 0 <= i < rest.len() / 2 implies text::number(
                #[trigger] pair_at(rest, i),
                16,
            ) is Some by {
                assert(text::number(pair_at(body, i + 1), 16) is Some);
            }
        }
    }
}

/// A pair that is a number takes one byte for each character.
proof fn lemma_pair_is_ascii(s: Seq<char>)
    requires
        s.len() == 2,
    ensures
        text::number(s, 16) is Some ==> text::byte_len(s[0]) == 1 && text::byte_len(s[1]) == 1,
{
    text::law_only_digits_are_numbers(s, 16);
    if text::number(s, 16) is Some {
        if text::all_digits(s, 16) {
            assert(text::digit_value(s[0]) is Some && text::digit_value(s[1]) is Some);
        } else {
            assert(s.skip(1)[0] == s[1]);
            assert(text::digit_value(s.skip(1)[0]) is Some);
        }
    }
}

/// What stands before the first `#` is the identifier and what follows it is the body.
proof fn lemma_first_hash_splits(id: Seq<char>, body: Seq<char>)
    requires
        !id.contains('#'),
    ensures
        frame_notation(id + seq!['#'] + body) == split_notation(id, body),
{
    let s = id + seq!['#'] + body;
    let n = id.len() as int;
    s.index_of_first_ensures('#');
    assert(s[n] == '#');
    assert(s.contains('#'));
    let k = s.index_of_first('#')->0;
    if k < n {
        assert(id[k] == '#');
    }
    assert(k == n);
    assert(s.take(n) =~= id);
    assert(s.skip(n + 1) =~= body);
}

/// What candump notation means. Before the first `#` stands the identifier, a
/// hexadecimal number of one to eight bytes; with more than three it is an extended one,
/// and it must fit its format. Behind it stands either `R` and a length up to 8, or a
/// payload of up to eight bytes. Whatever is not of this form is no frame.
pub proof fn law_notation_meaning(id: Seq<char>, body: Seq<char>)
    requires
        !id.contains('#'),
    ensures
        ({
            let r = frame_notation(id + seq!['#'] + body);
            let w = vstd::utf8::encode_utf8(id).len();
            let b = vstd::utf8::encode_utf8(body).len();
            let v = text::number(id, 16);
            let limit: nat = if w > 3 {
                0x1fff_ffff
            } else {
                0x7ff
            };
            let remote = body.len() > 0 && (body[0] == 'R' || body[0] == 'r');
            let dlc = text::number(body.skip(1), 10);
            &&& r is Ok <==> {
                &&& 1 <= w <= 8
                &&& v is Some && v->0 <= limit
                &&& remote ==> dlc is Some && dlc->0 <= 8
                &&& !remote ==> b % 2 == 0 && b <= 16 && payload_notation(body) is Ok
            }
            &&& r matches Ok(f) ==> {
                &&& f.id == v->0
                &&& f.extended == (w > 3)
                &&& f.remote == remote
                &&& remote ==> f.dlc == dlc->0
                &&& !remote ==> f.payload_bytes() == payload_notation(body)->Ok_0
                &&& f.channel == 0 && f.timestamp_us == 0 && f.send_type == 0
            }
        }),
{
    lemma_first_hash_splits(id, body);
    text::law_bytes_are_utf8(id);
    text::law_bytes_are_utf8(body);
    law_payload_meaning(body);
    let r = frame_notation(id + seq!['#'] + body);
    if r is Ok && !r->Ok_0.remote {
        let data = payload_notation(body)->Ok_0;
        lemma_chars_take_bytes(body);
        assert(data.len() <= 8);
        assert(r->Ok_0.payload_bytes() =~= data);
    }
}

/// Every character takes at least a byte.
proof fn lemma_chars_take_bytes(s: Seq<char>)
    ensures
        s.len() <= text::bytes_len(s),
    decreases s.len(),
{
    if s.len() > 0 {
        lemma_chars_take_bytes(s.drop_last());
    }
}

/// What is said of text that is no frame: the part that is wrong is quoted or named.
pub proof fn law_notation_complaints(id: Seq<char>, body: Seq<char>)
    requires
        !id.contains('#'),
    ensures
        ({
            let r = frame_notation(id + seq!['#'] + body);
            let w = vstd::utf8::encode_utf8(id).len();
            let b = vstd::utf8::encode_utf8(body).len();
            let v = text::number(id, 16);
            let limit: nat = if w > 3 {
                0x1fff_ffff
            } else {
                0x7ff
            };
            let good_id = 1 <= w <= 8 && v is Some && v->0 <= limit;
            let remote = body.len() > 0 && (body[0] == 'R' || body[0] == 'r');
            let dlc = text::number(body.skip(1), 10);
            &&& !id.contains('#') && !body.contains('#') ==> frame_notation(body)
                == Err::<CanFrame, Seq<char>>("'"@ + body + "' is missing the '#' separator"@)
            &&& !(1 <= w <= 8) ==> r == Err::<CanFrame, Seq<char>>(
                "'"@ + id + "' is not a CAN identifier"@,
            )
            &&& 1 <= w <= 8 && v is None ==> r == Err::<CanFrame, Seq<char>>(
                "'"@ + id + "' is not hexadecimal"@,
            )
            &&& 1 <= w <= 8 && v is Some && limit < v->0 <= 0xffff_ffff ==> exists|
                d: Seq<char>,
            | #[trigger]
                text::reads_hex(d, v->0, 0) && r == Err::<CanFrame, Seq<char>>(
                    "identifier 0x"@ + d + " does not fit in the frame format"@,
                )
            &&& good_id && remote && (dlc is None || dlc->0 > 255) ==> r == Err::<
                CanFrame,
                Seq<char>,
            >("'"@ + body.skip(1) + "' is not a length"@)
            &&& good_id && remote && dlc is Some && 8 < dlc->0 <= 255 ==> r == Err::<
                CanFrame,
                Seq<char>,
            >("remote frame length must be 0 to 8"@)
            &&& good_id && !remote && b % 2 != 0 ==> r == Err::<CanFrame, Seq<char>>(
                "payload must have an even number of hex digits"@,
            )
            &&& good_id && !remote && b % 2 == 0 && b > 16 ==> r == Err::<CanFrame, Seq<char>>(
                "payload is longer than 8 bytes"@,
            )
        }),
{
    lemma_first_hash_splits(id, body);
    text::law_bytes_are_utf8(id);
    text::law_bytes_are_utf8(body);
    body.index_of_first_ensures('#');
    let v = text::number(id, 16);
    if v is Some {
        text::law_written_numbers_read(v->0 as int, 0, true);
    }
}

/// The complaint about a pair quotes it.
pub proof fn law_first_bad_pair_is_named(good: Seq<u8>, bad: Seq<char>, rest: Seq<char>)
    requires
        bad.len() == 2,
        text::byte_len(bad[0]) == 1,
        text::byte_len(bad[1]) == 1,
        text::number(bad, 16) is None,
    ensures
        payload_notation(text::hex_list(good, Seq::empty()) + bad + rest) == Err::<
            Seq<u8>,
            Seq<char>,
        >("'"@ + bad + "' is not hexadecimal"@),
{
    reveal_strlit("");
    assert(""@ =~= Seq::empty());
    lemma_hex_list_parses(good, bad + rest);
    assert(text::hex_list(good, Seq::empty()) + bad + rest =~= text::hex_list(good, Seq::empty())
        + (bad + rest));
    assert((bad + rest).take(2) =~= bad);
}

/// A character that takes two bytes is quoted as the bad pair that it is. One that takes
/// more, or that does not start at a pair, makes the payload as a whole not hexadecimal;
/// so does half a pair at the end.
pub proof fn law_payload_beyond_ascii(good: Seq<u8>, first: char, c: char, rest: Seq<char>)
    requires
        text::byte_len(first) == 1,
    ensures
        ({
            let digits = text::hex_list(good, Seq::empty());
            let whole = Err::<Seq<u8>, Seq<char>>("payload is not hexadecimal"@);
            &&& 0x80 <= c as u32 <= 0x7ff ==> payload_notation(digits + (seq![c] + rest)) == Err::<
                Seq<u8>,
                Seq<char>,
            >("'"@ + seq![c] + "' is not hexadecimal"@)
            &&& 0x7ff < c as u32 ==> payload_notation(digits + (seq![c] + rest)) == whole
            &&& 0x80 <= c as u32 ==> payload_notation(digits + (seq![first, c] + rest)) == whole
            &&& payload_notation(digits + seq![first]) == whole
        }),
{
    reveal_strlit("");
    assert(""@ =~= Seq::empty());
    lemma_hex_list_parses(good, seq![c] + rest);
    lemma_hex_list_parses(good, seq![first, c] + rest);
    lemma_hex_list_parses(good, seq![first]);
    assert((seq![c] + rest).take(1) =~= seq![c]);
}

/// A result agrees with what is expected only if it is that value, or fails with that
/// text.
pub proof fn law_agreement<T>(expected: Result<T, Seq<char>>, r: Result<T, String>)
    requires
        agrees(expected, r),
    ensures
        r is Ok <==> expected is Ok,
        r matches Ok(v) ==> v == expected->Ok_0,
        r matches Err(e) ==> e@ == expected->Err_0,
{
}

} // verus!

//! The text form of a frame: `t1232AABB`, `T1ABCDEF00`, `r1234`, `R1FFFFFFF8`.

use vstd::prelude::*;

use crate::protocol::CanFrame;
use crate::text;

verus! {

/// Carriage return: ends a line, and answers a command that succeeded.
pub const CR: u8 = 0x0d;

/// Bell: answers a command that was rejected.
pub const BEL: u8 = 0x07;

// ───────────────────────────── Hexadecimal ─────────────────────────────

/// The upper-case hexadecimal digit of `n`, for `n` below 16.
pub open spec fn hex_byte(n: int) -> u8 {
    if n < 10 {
        (48 + n) as u8
    } else {
        (55 + n) as u8
    }
}

/// The value of a hexadecimal digit of either case.
pub open spec fn nibble(byte: u8) -> Option<u8> {
    if 48 <= byte <= 57 {
        Some((byte - 48) as u8)
    } else if 97 <= byte <= 102 {
        Some((byte - 87) as u8)
    } else if 65 <= byte <= 70 {
        Some((byte - 55) as u8)
    } else {
        None
    }
}

/// The number that a string of hexadecimal digits stands for, if all are digits.
pub open spec fn hex_number(s: Seq<u8>) -> Option<nat>
    decreases s.len(),
{
    if s.len() == 0 {
        Some(0)
    } else {
        match (hex_number(s.drop_last()), nibble(s.last())) {
            (Some(high), Some(low)) => Some(16 * high + low as nat),
            _ => None,
        }
    }
}

/// The last `digits` hexadecimal digits of `value`.
pub open spec fn hex_field(value: nat, digits: nat) -> Seq<u8>
    decreases digits,
{
    if digits == 0 {
        Seq::empty()
    } else {
        hex_field(value / 16, (digits - 1) as nat).push(hex_byte((value % 16) as int))
    }
}

/// The bytes of `s` as two hexadecimal digits each.
pub open spec fn hex_pairs(s: Seq<u8>) -> Seq<u8>
    decreases s.len(),
{
    if s.len() == 0 {
        Seq::empty()
    } else {
        hex_pairs(s.drop_last()) + hex_field(s.last() as nat, 2)
    }
}

/// The value of one hexadecimal digit of either case.
pub fn hex_value(byte: u8) -> (value: Option<u8>)
    ensures
        value == nibble(byte),
{
    if 48 <= byte && byte <= 57 {
        Some(byte - 48)
    } else if 97 <= byte && byte <= 102 {
        Some(byte - 87)
    } else if 65 <= byte && byte <= 70 {
        Some(byte - 55)
    } else {
        None
    }
}

/// The upper-case digit of the low four bits of `nibble`.
pub fn hex_digit(nibble: u8) -> (digit: u8)
    ensures
        digit == hex_byte((nibble % 16) as int),
{
    let n: u8 = nibble % 16;
    if n < 10 {
        48 + n
    } else {
        55 + n
    }
}

/// The number that hexadecimal digits stand for, modulo 2^32; `None` if one of
/// them is no digit.
pub fn parse_hex(bytes: &[u8]) -> (value: Option<u32>)
    ensures
        match hex_number(bytes@) {
            Some(v) => value == Some((v % 0x1_0000_0000) as u32),
            None => value is None,
        },
{
    let mut value: u32 = 0;
    let mut i: usize = 0;
    while i < bytes.len()
        invariant
            i <= bytes@.len(),
            hex_number(bytes@.take(i as int)) matches Some(v) && value == v % 0x1_0000_0000,
        decreases bytes@.len() - i,
    {
        assert(bytes@.take(i + 1).drop_last() =~= bytes@.take(i as int));
        match hex_value(bytes[i]) {
            Some(digit) => {
                value = (value % 0x1000_0000) * 16 + digit as u32;
            },
            None => {
                proof {
                    lemma_bad_digit(bytes@, i as int);
                }
                return None;
            },
        }
        i += 1;
    }
    assert(bytes@.take(i as int) =~= bytes@);
    Some(value)
}

/// A string that holds a byte that is no digit stands for no number.
proof fn lemma_bad_digit(s: Seq<u8>, i: int)
    requires
        0 <= i < s.len(),
        nibble(s[i]) is None,
    ensures
        hex_number(s) is None,
    decreases s.len(),
{
    if i < s.len() - 1 {
        lemma_bad_digit(s.drop_last(), i);
    }
}

/// Append the last `digits` hexadecimal digits of `value`.
pub fn push_hex(out: &mut Vec<u8>, value: u32, digits: u32)
    requires
        digits <= 8,
    ensures
        final(out)@ == old(out)@ + hex_field(value as nat, digits as nat),
    decreases digits,
{
    if digits > 0 {
        push_hex(out, value / 16, digits - 1);
        out.push(hex_digit((value % 16) as u8));
    }
    assert(out@ =~= old(out)@ + hex_field(value as nat, digits as nat));
}

// ───────────────────────────── Frames ─────────────────────────────

/// The tag that starts the line of a frame.
pub open spec fn frame_tag(extended: bool, remote: bool) -> u8 {
    match (extended, remote) {
        (false, false) => 0x74,
        (true, false) => 0x54,
        (false, true) => 0x72,
        (true, true) => 0x52,
    }
}

/// Which kind of frame a tag announces: `(extended, remote)`.
pub open spec fn tag_kind(tag: u8) -> Option<(bool, bool)> {
    if tag == 0x74 {
        Some((false, false))
    } else if tag == 0x54 {
        Some((true, false))
    } else if tag == 0x72 {
        Some((false, true))
    } else if tag == 0x52 {
        Some((true, true))
    } else {
        None
    }
}

/// Number of identifier digits in the line of a frame.
pub open spec fn id_digits(extended: bool) -> nat {
    if extended {
        8
    } else {
        3
    }
}

/// The `n` bytes that the first `2 * n` digits of `body` stand for, if all of
/// them are there and are digits.
pub open spec fn body_bytes(body: Seq<u8>, n: nat) -> Option<Seq<u8>> {
    if 2 * n <= body.len() && (forall|i: int|
        0 <= i < 2 * n ==> nibble(#[trigger] body[i]) is Some) {
        Some(Seq::new(n, |i: int| pair_byte(body[2 * i], body[2 * i + 1])))
    } else {
        None
    }
}

/// The byte that two hexadecimal digits stand for.
pub open spec fn pair_byte(high: u8, low: u8) -> u8 {
    (16 * nibble(high)->0 + nibble(low)->0) as u8
}

/// The frame that a line stands for, if it is well formed: tag, identifier,
/// length, payload. What follows the payload does not count.
pub open spec fn line_frame(line: Seq<u8>) -> Option<CanFrame> {
    if line.len() == 0 {
        None
    } else {
        match tag_kind(line[0]) {
            None => None,
            Some((extended, remote)) => tagged_frame(line, extended, remote),
        }
    }
}

/// The largest identifier of a format.
pub open spec fn max_id(extended: bool) -> nat {
    if extended {
        0x1fff_ffff
    } else {
        0x7ff
    }
}

/// The frame that a line with a known tag stands for, if it is well formed. An
/// identifier that does not fit its format is malformed.
pub open spec fn tagged_frame(line: Seq<u8>, extended: bool, remote: bool) -> Option<CanFrame> {
    let n = id_digits(extended) as int;
    if line.len() < n + 2 {
        None
    } else {
        match (hex_number(line.subrange(1, 1 + n)), nibble(line[1 + n])) {
            (Some(id), Some(dlc)) => if id > max_id(extended) || dlc > 8 {
                None
            } else if remote {
                Some(CanFrame::of_remote(id as u32, extended, dlc))
            } else {
                match body_bytes(line.subrange(2 + n, line.len() as int), dlc as nat) {
                    Some(data) => Some(CanFrame::of_data(id as u32, extended, data)),
                    None => None,
                }
            },
            _ => None,
        }
    }
}

/// A string of `n` digits stands for a number below `16` to the power of `n`.
proof fn lemma_hex_number_bound(s: Seq<u8>)
    ensures
        hex_number(s) matches Some(v) ==> v < text::sixteen_to(s.len()),
    decreases s.len(),
{
    if s.len() > 0 {
        lemma_hex_number_bound(s.drop_last());
    }
}

/// Decode the first `2 * n` digits of `body` into `n` bytes.
fn parse_body(body: &[u8], n: usize) -> (data: Option<Vec<u8>>)
    requires
        n <= 8,
    ensures
        match body_bytes(body@, n as nat) {
            Some(bytes) => data matches Some(v) && v@ == bytes,
            None => data is None,
        },
{
    if body.len() < n * 2 {
        return None;
    }
    let mut data: Vec<u8> = Vec::new();
    let mut i: usize = 0;
    while i < n
        invariant
            i <= n <= 8,
            2 * n <= body@.len(),
            data@.len() == i,
            forall|j: int| 0 <= j < 2 * i ==> nibble(#[trigger] body@[j]) is Some,
            forall|j: int|
                0 <= j < i ==> #[trigger] data@[j] == pair_byte(body@[2 * j], body@[2 * j + 1]),
        decreases n - i,
    {
        let high: u8 = match hex_value(body[2 * i]) {
            Some(high) => high,
            None => {
                assert(nibble(body@[2 * i]) is None);
                return None;
            },
        };
        let low: u8 = match hex_value(body[2 * i + 1]) {
            Some(low) => low,
            None => {
                assert(nibble(body@[2 * i + 1]) is None);
                return None;
            },
        };
        data.push(high * 16 + low);
        i += 1;
    }
    assert(data@ =~= body_bytes(body@, n as nat)->0);
    Some(data)
}

/// Parse `t`/`T`/`r`/`R` into a frame. Returns `None` on any malformed input.
pub fn parse_slcan_frame(line: &[u8]) -> (frame: Option<CanFrame>)
    ensures
        frame == line_frame(line@),
{
    if line.len() == 0 {
        return None;
    }
    let (extended, remote): (bool, bool) = match line[0] {
        0x74 => (false, false),
        0x54 => (true, false),
        0x72 => (false, true),
        0x52 => (true, true),
        _ => return None,
    };
    let id_len: usize = if extended { 8 } else { 3 };
    if line.len() < 1 + id_len + 1 {
        return None;
    }
    proof {
        lemma_hex_number_bound(line@.subrange(1, 1 + id_len as int));
        reveal_with_fuel(text::sixteen_to, 9);
    }
    let id: u32 = match parse_hex(&line[1..1 + id_len]) {
        Some(id) => id,
        None => return None,
    };
    let limit: u32 = if extended { 0x1fff_ffff } else { 0x7ff };
    if id > limit {
        return None;
    }
    let dlc: u8 = match hex_value(line[1 + id_len]) {
        Some(dlc) => dlc,
        None => return None,
    };
    if dlc > 8 {
        return None;
    }
    if remote {
        return Some(CanFrame::new_remote(id, extended, dlc));
    }
    match parse_body(&line[2 + id_len..line.len()], dlc as usize) {
        Some(data) => Some(CanFrame::new(id, extended, data.as_slice())),
        None => None,
    }
}

/// SLCAN timestamp of a frame: milliseconds modulo 60000.
pub open spec fn line_timestamp(frame: CanFrame) -> nat {
    (frame.timestamp_us / 1000 % 60_000) as nat
}

/// The line of a frame, without the carriage return that ends it.
pub open spec fn frame_text(frame: CanFrame, timestamps: bool) -> Seq<u8> {
    seq![frame_tag(frame.extended, frame.remote)] + hex_field(
        frame.id as nat,
        id_digits(frame.extended),
    ) + seq![hex_byte(frame.payload_len() as int)] + (if frame.remote {
        Seq::empty()
    } else {
        hex_pairs(frame.payload_bytes())
    }) + (if timestamps {
        hex_field(line_timestamp(frame), 4)
    } else {
        Seq::empty()
    })
}

/// The lines of `frames`, one after another, each ended by a carriage return.
pub open spec fn frame_lines(frames: Seq<CanFrame>, timestamps: bool) -> Seq<u8>
    decreases frames.len(),
{
    if frames.len() == 0 {
        Seq::empty()
    } else {
        frame_lines(frames.drop_last(), timestamps) + frame_text(frames.last(), timestamps).push(CR)
    }
}

/// Append the line of `frame`, with its carriage return.
pub fn push_frame(out: &mut Vec<u8>, frame: &CanFrame, timestamps: bool)
    ensures
        final(out)@ == old(out)@ + frame_text(*frame, timestamps).push(CR),
{
    let tag: u8 = match (frame.extended, frame.remote) {
        (false, false) => 0x74,
        (true, false) => 0x54,
        (false, true) => 0x72,
        (true, true) => 0x52,
    };
    out.push(tag);
    if frame.extended {
        push_hex(out, frame.id, 8);
    } else {
        push_hex(out, frame.id, 3);
    }
    out.push(hex_digit(if frame.dlc <= 8 { frame.dlc } else { 8 }));
    if !frame.remote {
        push_pairs(out, frame.payload());
    }
    if timestamps {
        push_hex(out, frame.timestamp_us / 1000 % 60_000, 4);
    }
    out.push(CR);
    assert(out@ =~= old(out)@ + frame_text(*frame, timestamps).push(CR));
}

/// Append the bytes of `s` as two hexadecimal digits each.
fn push_pairs(out: &mut Vec<u8>, s: &[u8])
    ensures
        final(out)@ == old(out)@ + hex_pairs(s@),
{
    let mut i: usize = 0;
    assert(out@ =~= old(out)@ + hex_pairs(s@.take(0)));
    while i < s.len()
        invariant
            i <= s@.len(),
            out@ == old(out)@ + hex_pairs(s@.take(i as int)),
        decreases s@.len() - i,
    {
        push_hex(out, s[i] as u32, 2);
        assert(s@.take(i + 1).drop_last() =~= s@.take(i as int));
        assert(out@ =~= old(out)@ + hex_pairs(s@.take(i + 1)));
        i += 1;
    }
    assert(s@.take(i as int) =~= s@);
}

// ───────────────────────────── Laws ─────────────────────────────

/// A digit reads back as the value it was written for.
pub proof fn law_hex_digit_reads_back(n: int)
    requires
        0 <= n < 16,
    ensures
        nibble(hex_byte(n)) == Some(n as u8),
{
}

/// A field of digits reads back as the number it was written for, modulo the
/// range that many digits can show.
pub proof fn law_hex_field_reads_back(value: nat, digits: nat)
    ensures
        hex_field(value, digits).len() == digits,
        hex_number(hex_field(value, digits)) == Some(value % text::sixteen_to(digits)),
    decreases digits,
{
    if digits > 0 {
        let rest = (digits - 1) as nat;
        law_hex_field_reads_back(value / 16, rest);
        law_hex_digit_reads_back((value % 16) as int);
        assert(hex_field(value, digits).drop_last() =~= hex_field(value / 16, rest));
        lemma_sixteen_positive(rest);
        vstd::arithmetic::div_mod::lemma_mod_breakdown(
            value as int,
            16,
            text::sixteen_to(rest) as int,
        );
    }
}

proof fn lemma_sixteen_positive(n: nat)
    ensures
        text::sixteen_to(n) > 0,
    decreases n,
{
    if n > 0 {
        lemma_sixteen_positive((n - 1) as nat);
    }
}

/// The digits of byte `i` stand at `2 * i`.
proof fn lemma_hex_pairs(s: Seq<u8>)
    ensures
        hex_pairs(s).len() == 2 * s.len(),
        forall|i: int|
            #![trigger s[i]]
            0 <= i < s.len() ==> hex_pairs(s)[2 * i] == hex_byte((s[i] / 16) as int) && hex_pairs(
                s,
            )[2 * i + 1] == hex_byte((s[i] % 16) as int),
    decreases s.len(),
{
    if s.len() > 0 {
        lemma_hex_pairs(s.drop_last());
        let b = s.last() as nat;
        reveal_with_fuel(hex_field, 3);
        assert(hex_field(b, 2) =~= seq![hex_byte((b / 16) as int), hex_byte((b % 16) as int)]);
        assert forall|i: int| #![trigger s[i]] 0 <= i < s.len() implies hex_pairs(s)[2 * i]
            == hex_byte((s[i] / 16) as int) && hex_pairs(s)[2 * i + 1] == hex_byte(
            (s[i] % 16) as int,
        ) by {
            if i < s.len() - 1 {
                assert(s.drop_last()[i] == s[i]);
            }
        }
    }
}

/// The digits of a payload read back as that payload, whatever follows them.
proof fn lemma_pairs_read_back(payload: Seq<u8>, rest: Seq<u8>)
    ensures
        body_bytes(hex_pairs(payload) + rest, payload.len()) == Some(payload),
{
    let body = hex_pairs(payload) + rest;
    lemma_hex_pairs(payload);
    assert forall|i: int| 0 <= i < 2 * payload.len() implies nibble(#[trigger] body[i]) is Some by {
        let b = payload[i / 2];
        law_hex_digit_reads_back((b / 16) as int);
        law_hex_digit_reads_back((b % 16) as int);
        assert(i == 2 * (i / 2) || i == 2 * (i / 2) + 1);
    }
    let data = body_bytes(body, payload.len())->0;
    assert forall|i: int| 0 <= i < payload.len() implies data[i] == payload[i] by {
        law_hex_digit_reads_back((payload[i] / 16) as int);
        law_hex_digit_reads_back((payload[i] % 16) as int);
    }
    assert(data =~= payload);
}

/// An identifier that fits its field reads back as itself.
proof fn lemma_id_reads_back(id: u32, extended: bool)
    requires
        id <= max_id(extended),
    ensures
        hex_field(id as nat, id_digits(extended)).len() == id_digits(extended),
        hex_number(hex_field(id as nat, id_digits(extended))) == Some(id as nat),
{
    law_hex_field_reads_back(id as nat, id_digits(extended));
    assert(text::sixteen_to(3) == 0x1000 && text::sixteen_to(8) == 0x1_0000_0000) by {
        reveal_with_fuel(text::sixteen_to, 9);
    }
    vstd::arithmetic::div_mod::lemma_small_mod(id as nat, text::sixteen_to(id_digits(extended)));
}

/// The text that the bridge emits for a frame parses back to the same frame: tag,
/// identifier, length and payload survive. The identifier has to fit its format; a
/// length above 8 comes back as 8.
pub proof fn law_emitted_text_parses_back(frame: CanFrame, timestamps: bool)
    requires
        frame.id <= max_id(frame.extended),
    ensures
        line_frame(frame_text(frame, timestamps)) == Some(
            if frame.remote {
                CanFrame::of_remote(frame.id, frame.extended, frame.payload_len() as u8)
            } else {
                CanFrame::of_data(frame.id, frame.extended, frame.payload_bytes())
            },
        ),
{
    let line = frame_text(frame, timestamps);
    let n = id_digits(frame.extended) as int;
    let dlc = frame.payload_len() as int;
    let pairs = if frame.remote {
        Seq::empty()
    } else {
        hex_pairs(frame.payload_bytes())
    };
    let tail = if timestamps {
        hex_field(line_timestamp(frame), 4)
    } else {
        Seq::empty()
    };
    lemma_id_reads_back(frame.id, frame.extended);
    law_hex_digit_reads_back(dlc);
    lemma_pairs_read_back(frame.payload_bytes(), tail);
    assert(line.subrange(1, 1 + n) =~= hex_field(frame.id as nat, n as nat));
    assert(line[1 + n] == hex_byte(dlc));
    assert(line.subrange(2 + n, line.len() as int) =~= pairs + tail);
}

/// An SLCAN timestamp is below one minute.
pub proof fn law_line_timestamp_bound(frame: CanFrame)
    ensures
        line_timestamp(frame) < 60_000,
{
}

/// A line only ever parses to a frame that the format allows: an identifier of 11 or
/// 29 bits and at most eight payload bytes.
pub proof fn law_parsed_frame_bounds(line: Seq<u8>)
    ensures
        line_frame(line) matches Some(f) ==> f.in_range(),
{
}

/// The digits on the wire: `0` to `9` are 0x30 to 0x39, `A` to `F` are 0x41 to 0x46. Of
/// what a client sends, `a` to `f` count too, and nothing else.
pub proof fn law_hex_digit_bytes(n: int, byte: u8)
    requires
        0 <= n < 16,
    ensures
        hex_byte(n) == seq![
            0x30u8,
            0x31,
            0x32,
            0x33,
            0x34,
            0x35,
            0x36,
            0x37,
            0x38,
            0x39,
            0x41,
            0x42,
            0x43,
            0x44,
            0x45,
            0x46,
        ][n],
        nibble(byte) == Some(n as u8) <==> byte == hex_byte(n) || (n >= 10 && byte == hex_byte(n)
            + 0x20),
        nibble(byte) is Some ==> nibble(byte)->0 < 16,
{
}

/// A digit more multiplies a number by sixteen and adds its own value; with anything
/// that is no digit there is no number.
pub proof fn law_hex_number_by_place(s: Seq<u8>, byte: u8)
    ensures
        hex_number(Seq::<u8>::empty()) == Some(0nat),
        hex_number(s.push(byte)) is Some <==> hex_number(s) is Some && nibble(byte) is Some,
        hex_number(s.push(byte)) is Some ==> hex_number(s.push(byte))->0 == 16 * hex_number(s)->0
            + nibble(byte)->0,
{
    assert(s.push(byte).drop_last() =~= s);
}

/// The line of a frame: `t` or `T` for a data frame with a standard or an extended
/// identifier, `r` or `R` for a remote one; the identifier in three or eight digits;
/// the length in one; two digits for each byte, unless the frame is remote; and, if
/// asked for, the milliseconds of its timestamp within a minute in four.
pub proof fn law_line_shows_the_frame(frame: CanFrame, timestamps: bool)
    requires
        frame.extended || frame.id < 0x1000,
    ensures
        ({
            let s = frame_text(frame, timestamps);
            let n: int = if frame.extended {
                8
            } else {
                3
            };
            let len: int = if frame.dlc <= 8 {
                frame.dlc as int
            } else {
                8
            };
            let body = if frame.remote {
                0
            } else {
                2 * len
            };
            &&& s.len() == n + 2 + body + (if timestamps {
                4int
            } else {
                0
            })
            &&& s[0] == (if frame.remote {
                if frame.extended {
                    0x52u8
                } else {
                    0x72
                }
            } else if frame.extended {
                0x54
            } else {
                0x74
            })
            &&& hex_number(s.subrange(1, 1 + n)) == Some(frame.id as nat)
            &&& nibble(s[1 + n]) == Some(len as u8)
            &&& !frame.remote ==> body_bytes(s.skip(2 + n), len as nat) == Some(
                frame.data@.take(len),
            )
            &&& timestamps ==> hex_number(s.skip(n + 2 + body)) == Some(
                (frame.timestamp_us / 1000 % 60_000) as nat,
            )
        }),
{
    let s = frame_text(frame, timestamps);
    let n = id_digits(frame.extended) as int;
    let len = frame.payload_len() as int;
    let payload = frame.payload_bytes();
    let pairs = if frame.remote {
        Seq::empty()
    } else {
        hex_pairs(payload)
    };
    let tail = if timestamps {
        hex_field(line_timestamp(frame), 4)
    } else {
        Seq::empty()
    };
    assert(text::sixteen_to(3) == 0x1000 && text::sixteen_to(4) == 0x1_0000 && text::sixteen_to(8)
        == 0x1_0000_0000) by {
        reveal_with_fuel(text::sixteen_to, 9);
    }
    law_hex_field_reads_back(frame.id as nat, n as nat);
    law_hex_field_reads_back(line_timestamp(frame), 4);
    vstd::arithmetic::div_mod::lemma_small_mod(frame.id as nat, text::sixteen_to(n as nat));
    vstd::arithmetic::div_mod::lemma_small_mod(line_timestamp(frame), text::sixteen_to(4));
    law_hex_digit_reads_back(len);
    lemma_hex_pairs(payload);
    lemma_pairs_read_back(payload, tail);
    assert(s.subrange(1, 1 + n) =~= hex_field(frame.id as nat, n as nat));
    assert(s[1 + n] == hex_byte(len));
    assert(s.skip(2 + n) =~= pairs + tail);
    assert(timestamps ==> s.skip(n + 2 + pairs.len()) =~= tail);
    assert(frame.data@.take(len) =~= payload);
}

/// The payload of a line, byte by byte: two digits each.
pub proof fn law_body_digits(body: Seq<u8>, n: nat)
    ensures
        body_bytes(body, n) is Some <==> body.len() >= 2 * n && forall|i: int|
            0 <= i < 2 * n ==> nibble(#[trigger] body[i]) is Some,
        body_bytes(body, n) matches Some(data) ==> data.len() == n && forall|i: int|
            0 <= i < n ==> #[trigger] data[i] == 16 * nibble(body[2 * i])->0 + nibble(
                body[2 * i + 1],
            )->0,
{
    if body_bytes(body, n) is Some {
        let data = body_bytes(body, n)->0;
        assert forall|i: int| 0 <= i < n implies #[trigger] data[i] == 16 * nibble(
            body[2 * i],
        )->0 + nibble(body[2 * i + 1])->0 by {
            assert(nibble(body[2 * i]) is Some && nibble(body[2 * i + 1]) is Some);
        }
    }
}

/// What a line means. It is a frame exactly if it starts with one of the four tags, its
/// identifier is all digits and fits the format, its length is a digit up to 8, and the
/// payload of a data frame is there and all digits. The frame then is what these say.
pub proof fn law_line_meaning(line: Seq<u8>)
    ensures
        ({
            let extended = line[0] == 0x54 || line[0] == 0x52;
            let remote = line[0] == 0x72 || line[0] == 0x52;
            let n: int = if extended {
                8
            } else {
                3
            };
            let limit: nat = if extended {
                0x1fff_ffff
            } else {
                0x7ff
            };
            let id = hex_number(line.subrange(1, 1 + n));
            let dlc = nibble(line[1 + n]);
            let data = body_bytes(line.skip(2 + n), dlc->0 as nat);
            &&& line_frame(line) is Some <==> {
                &&& line.len() >= n + 2
                &&& line[0] == 0x74 || line[0] == 0x54 || line[0] == 0x72 || line[0] == 0x52
                &&& id is Some && id->0 <= limit
                &&& dlc is Some && dlc->0 <= 8
                &&& remote || data is Some
            }
            &&& line_frame(line) matches Some(f) ==> {
                &&& f.extended == extended && f.remote == remote
                &&& f.id == id->0
                &&& f.dlc == dlc->0
                &&& !remote ==> f.payload_bytes() == data->0
                &&& f.channel == 0 && f.timestamp_us == 0 && f.send_type == 0
            }
        }),
{
    if line.len() > 0 && tag_kind(line[0]) is Some {
        let (extended, remote) = tag_kind(line[0])->0;
        let n = id_digits(extended) as int;
        if line.len() >= n + 2 {
            assert(line.subrange(2 + n, line.len() as int) =~= line.skip(2 + n));
            let dlc = nibble(line[1 + n]);
            let data = body_bytes(line.skip(2 + n), dlc->0 as nat);
            if line_frame(line) is Some && !remote {
                assert(line_frame(line)->0.payload_bytes() =~= data->0);
            }
        }
    }
}

/// The lines of frames follow one another, each ended by a carriage return.
pub proof fn law_frame_lines_follow(frames: Seq<CanFrame>, frame: CanFrame, timestamps: bool)
    ensures
        frame_lines(Seq::<CanFrame>::empty(), timestamps).len() == 0,
        frame_lines(frames.push(frame), timestamps) == frame_lines(frames, timestamps)
            + frame_text(frame, timestamps) + seq![0x0du8],
{
    assert(frames.push(frame).drop_last() =~= frames);
    assert(frame_lines(frames.push(frame), timestamps) =~= frame_lines(frames, timestamps)
        + frame_text(frame, timestamps) + seq![0x0du8]);
}

} // verus!

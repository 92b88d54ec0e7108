//! CAN frames and the 24-byte record that carries one over USB.

use vstd::prelude::*;

use super::bytes;
use super::bytes::{le32_byte, xor_prefix};
use crate::text;

verus! {

/// On-wire size of a single CAN frame, in both directions.
pub const FRAME_LEN: usize = 24;

/// A CAN 2.0A/2.0B frame, used for both transmit and receive.
#[derive(Debug, Clone, Copy, PartialEq, Eq)]
pub struct CanFrame {
    /// Identifier. 11 bits when [`Self::extended`] is false, else 29 bits.
    pub id: u32,
    /// True for a 29-bit extended identifier.
    pub extended: bool,
    /// True for a remote-transmission-request frame (no payload).
    pub remote: bool,
    /// Data length code, `0..=8`.
    pub dlc: u8,
    /// Payload. Only the first [`Self::dlc`] bytes are meaningful.
    pub data: [u8; 8],
    /// Channel this frame belongs to, `0` or `1`.
    pub channel: u8,
    /// Device timestamp in microseconds. Filled on receive, ignored on transmit.
    pub timestamp_us: u32,
    /// Vendor "send type" byte. `0` is normal transmission.
    pub send_type: u8,
}

impl CanFrame {
    /// Number of meaningful payload bytes.
    pub open spec fn payload_len(self) -> nat {
        if self.dlc <= 8 {
            self.dlc as nat
        } else {
            8
        }
    }

    /// The meaningful part of the payload.
    pub open spec fn payload_bytes(self) -> Seq<u8> {
        self.data@.take(self.payload_len() as int)
    }

    /// Whether every field is within the range the frame format gives it.
    pub open spec fn in_range(self) -> bool {
        &&& self.id < (if self.extended { 0x2000_0000int } else { 0x800 })
        &&& self.dlc <= 8
        &&& self.channel < 2
    }

    /// Identifier as it travels on the wire: 29 or 11 bits.
    pub open spec fn wire_id(self) -> u32 {
        if self.extended {
            self.id % 0x2000_0000
        } else {
            self.id % 0x800
        }
    }

    /// Data length code as it travels on the wire.
    pub open spec fn wire_dlc(self) -> u8 {
        if self.dlc % 16 <= 8 {
            self.dlc % 16
        } else {
            8
        }
    }

    /// Flag byte: bit 7 extended, bit 6 remote, bits 5-4 channel, bits 3-0 DLC.
    pub open spec fn flag_byte(self) -> u8 {
        ((if self.extended { 128int } else { 0 }) + (if self.remote { 64int } else { 0 }) + 16 * (
        self.channel % 4) + self.wire_dlc()) as u8
    }

    /// The part of the record that the checksum covers.
    pub open spec fn record_head(self) -> Seq<u8> {
        seq![0x0fu8, 0x00u8, self.send_type, self.flag_byte()] + bytes::le32(self.timestamp_us)
            + bytes::le32(self.wire_id()) + self.data@.take(self.wire_dlc() as int)
    }

    /// The 24-byte record: head, checksum, zero padding.
    pub open spec fn record(self) -> Seq<u8> {
        self.record_head().push(bytes::xor_of(self.record_head())) + bytes::zeros(
            (11 - self.wire_dlc()) as nat,
        )
    }

    /// The frame that the data record `r` carries. The identifier is masked to the 29
    /// or 11 bits of its format, and a length code above 8 stands for 8 bytes.
    pub open spec fn from_record(r: Seq<u8>) -> CanFrame {
        CanFrame {
            id: bytes::from_le32(r[8], r[9], r[10], r[11]) % (if r[3] >= 128 {
                0x2000_0000u32
            } else {
                0x800u32
            }),
            extended: r[3] >= 128,
            remote: r[3] / 64 % 2 == 1,
            dlc: if r[3] % 16 <= 8 {
                r[3] % 16
            } else {
                8
            },
            data: [r[12], r[13], r[14], r[15], r[16], r[17], r[18], r[19]],
            channel: r[3] / 16 % 4,
            timestamp_us: bytes::from_le32(r[4], r[5], r[6], r[7]),
            send_type: r[2],
        }
    }

    /// The data frame with the given identifier and the first 8 bytes of `data`,
    /// every other field at its default.
    pub open spec fn of_data(id: u32, extended: bool, data: Seq<u8>) -> CanFrame {
        CanFrame {
            id,
            extended,
            remote: false,
            dlc: if data.len() <= 8 {
                data.len() as u8
            } else {
                8
            },
            data: [
                bytes::byte_or_zero(data, 0),
                bytes::byte_or_zero(data, 1),
                bytes::byte_or_zero(data, 2),
                bytes::byte_or_zero(data, 3),
                bytes::byte_or_zero(data, 4),
                bytes::byte_or_zero(data, 5),
                bytes::byte_or_zero(data, 6),
                bytes::byte_or_zero(data, 7),
            ],
            channel: 0,
            timestamp_us: 0,
            send_type: 0,
        }
    }

    /// The remote-request frame with the given identifier and length code, every
    /// other field at its default.
    pub open spec fn of_remote(id: u32, extended: bool, dlc: u8) -> CanFrame {
        CanFrame {
            id,
            extended,
            remote: true,
            dlc: if dlc <= 8 {
                dlc
            } else {
                8
            },
            data: [0, 0, 0, 0, 0, 0, 0, 0],
            channel: 0,
            timestamp_us: 0,
            send_type: 0,
        }
    }

    /// The frame in candump notation: `123#DEAD`, `1ABCDEF0#`, `7FF#R4`.
    pub open spec fn text(self) -> Seq<char> {
        text::hexadecimal(
            self.id as nat,
            if self.extended {
                8
            } else {
                3
            },
            true,
        ) + if self.remote {
            "#R"@ + text::decimal(self.dlc as nat)
        } else {
            "#"@ + text::hex_list(self.payload_bytes(), ""@)
        }
    }

    /// Build a data frame. `data` is truncated to 8 bytes.
    pub fn new(id: u32, extended: bool, data: &[u8]) -> (frame: Self)
        ensures
            frame == Self::of_data(id, extended, data@),
            frame.payload_bytes() == if data@.len() <= 8 {
                data@
            } else {
                data@.take(8)
            },
    {
        let dlc: usize = if data.len() <= 8 { data.len() } else { 8 };
        let mut buf = [0u8; 8];
        let mut i: usize = 0;
        while i < dlc
            invariant
                i <= dlc <= 8,
                dlc <= data@.len(),
                buf@ =~= data@.take(i as int) + bytes::zeros((8 - i) as nat),
            decreases dlc - i,
        {
            buf[i] = data[i];
            i += 1;
        }
        let frame = CanFrame { id, extended, dlc: dlc as u8, data: buf, ..Default::default() };
        assert(frame.data =~= Self::of_data(id, extended, data@).data);
        assert(frame.payload_bytes() =~= data@.take(dlc as int));
        assert(data@.take(data@.len() as int) =~= data@);
        frame
    }

    /// Build a remote-request frame. `dlc` is limited to 8.
    pub fn new_remote(id: u32, extended: bool, dlc: u8) -> (frame: Self)
        ensures
            frame == Self::of_remote(id, extended, dlc),
    {
        let frame = CanFrame {
            id,
            extended,
            remote: true,
            dlc: if dlc <= 8 { dlc } else { 8 },
            ..Default::default()
        };
        assert(frame.data =~= Self::of_remote(id, extended, dlc).data);
        frame
    }

    /// The meaningful part of [`Self::data`].
    pub fn payload(&self) -> (payload: &[u8])
        ensures
            payload@ == self.payload_bytes(),
    {
        let len: usize = if self.dlc <= 8 { self.dlc as usize } else { 8 };
        &self.data[0..len]
    }

    /// The frame in candump notation: `123#DEAD`, `1ABCDEF0#`, `7FF#R4`.
    pub fn to_string(&self) -> (s: String)
        ensures
            s@ == self.text(),
    {
        let mut s = String::new();
        if self.extended {
            text::push_hexadecimal(&mut s, self.id, 8, true);
        } else {
            text::push_hexadecimal(&mut s, self.id, 3, true);
        }
        if self.remote {
            s.append("#R");
            text::push_decimal(&mut s, self.dlc as u64);
        } else {
            s.append("#");
            text::push_hex_list(&mut s, self.payload(), "");
        }
        assert(s@ =~= self.text());
        s
    }
}

impl Default for CanFrame {
    fn default() -> (frame: Self)
        ensures
            frame.id == 0,
            !frame.extended,
            !frame.remote,
            frame.dlc == 0,
            frame.data@ == bytes::zeros(8),
            frame.channel == 0,
            frame.timestamp_us == 0,
            frame.send_type == 0,
    {
        let data = [0u8; 8];
        assert(data@ =~= bytes::zeros(8));
        CanFrame {
            id: 0,
            extended: false,
            remote: false,
            dlc: 0,
            data,
            channel: 0,
            timestamp_us: 0,
            send_type: 0,
        }
    }
}

/// Serialize one CAN frame into its 24-byte on-wire form.
///
/// ```text
/// byte 0          0x0f
/// byte 1          0x00 for a data frame
/// byte 2          send type
/// byte 3          bit7 extended | bit6 remote | bits5-4 channel | bits3-0 DLC
/// byte 4..8       timestamp, microseconds, little-endian
/// byte 8..12      identifier, little-endian
/// byte 12..20     payload
/// byte 12+DLC     XOR of bytes 0..(12+DLC)
/// remainder       zero padding to 24 bytes
/// ```
///
/// The record has the same layout in both directions. A transmit packet clears the
/// timestamp of every frame before it is serialized, see
/// [`pack_tx_packet`](super::pack_tx_packet).
pub fn pack_frame(frame: &CanFrame) -> (record: [u8; FRAME_LEN])
    ensures
        record@ == frame.record(),
{
    let low: u8 = frame.dlc % 16;
    let dlc: u8 = if low <= 8 { low } else { 8 };
    let len: usize = dlc as usize;
    let id: u32 = if frame.extended { frame.id % 0x2000_0000 } else { frame.id % 0x800 };
    let mut flags: u8 = 16 * (frame.channel % 4) + dlc;
    if frame.remote {
        flags = flags + 64;
    }
    if frame.extended {
        flags = flags + 128;
    }
    let mut f = [0u8; FRAME_LEN];
    f[0] = 0x0f;
    f[1] = 0x00;
    f[2] = frame.send_type;
    f[3] = flags;
    f[4] = le32_byte(frame.timestamp_us, 0);
    f[5] = le32_byte(frame.timestamp_us, 1);
    f[6] = le32_byte(frame.timestamp_us, 2);
    f[7] = le32_byte(frame.timestamp_us, 3);
    f[8] = le32_byte(id, 0);
    f[9] = le32_byte(id, 1);
    f[10] = le32_byte(id, 2);
    f[11] = le32_byte(id, 3);
    let ghost fixed = seq![0x0fu8, 0x00u8, frame.send_type, frame.flag_byte()] + bytes::le32(
        frame.timestamp_us,
    ) + bytes::le32(frame.wire_id());
    let mut i: usize = 0;
    assert(f@ =~= fixed + frame.data@.take(0) + bytes::zeros(12));
    while i < len
        invariant
            i <= len <= 8,
            fixed.len() == 12,
            f@ =~= fixed + frame.data@.take(i as int) + bytes::zeros((12 - i) as nat),
        decreases len - i,
    {
        f[12 + i] = frame.data[i];
        i += 1;
    }
    let ghost head = frame.record_head();
    assert(f@.take(12 + len) =~= head);
    let xor = xor_prefix(&f, 12 + len);
    f[12 + len] = xor;
    assert(f@ =~= frame.record());
    f
}

/// A record is always 24 bytes and its type byte marks a data frame.
pub proof fn law_record_shape(frame: CanFrame)
    ensures
        frame.record().len() == FRAME_LEN,
        frame.record()[1] == 0,
{
}

/// The XOR of a record up to and including its checksum is zero.
pub proof fn law_record_checksum(frame: CanFrame)
    ensures
        bytes::xor_of(frame.record().take(13 + frame.wire_dlc())) == 0,
{
    let head = frame.record_head();
    bytes::law_checksum_cancels(head);
    assert(frame.record().take(13 + frame.wire_dlc()) =~= head.push(bytes::xor_of(head)));
}

/// Decoding a serialized frame gives the frame back: every field, cut to the bits
/// the record has for it, and every payload byte that the length code covers. For
/// a frame whose fields are in range, nothing is cut.
pub proof fn law_frame_roundtrip(frame: CanFrame)
    ensures
        ({
            let decoded = CanFrame::from_record(frame.record());
            &&& decoded.id == frame.wire_id()
            &&& decoded.extended == frame.extended
            &&& decoded.remote == frame.remote
            &&& decoded.dlc == frame.wire_dlc()
            &&& decoded.payload_bytes() == frame.data@.take(frame.wire_dlc() as int)
            &&& decoded.channel == frame.channel % 4
            &&& decoded.timestamp_us == frame.timestamp_us
            &&& decoded.send_type == frame.send_type
            &&& frame.in_range() ==> {
                &&& decoded.id == frame.id
                &&& decoded.dlc == frame.dlc
                &&& decoded.payload_bytes() == frame.payload_bytes()
                &&& decoded.channel == frame.channel
            }
        }),
{
    let decoded = CanFrame::from_record(frame.record());
    lemma_record_bytes(frame);
    lemma_flag_byte(frame);
    bytes::law_le32_roundtrip(frame.timestamp_us);
    bytes::law_le32_roundtrip(frame.wire_id());
    assert(decoded.payload_bytes() =~= frame.data@.take(frame.wire_dlc() as int));
}

/// The flag byte holds its four fields.
proof fn lemma_flag_byte(frame: CanFrame)
    ensures
        frame.flag_byte() >= 128 <==> frame.extended,
        frame.flag_byte() / 64 % 2 == 1 <==> frame.remote,
        frame.flag_byte() / 16 % 4 == frame.channel % 4,
        frame.flag_byte() % 16 == frame.wire_dlc(),
{
}

/// Where each field of a frame lies in its record.
proof fn lemma_record_bytes(frame: CanFrame)
    ensures
        frame.record().len() == 24,
        frame.record()[2] == frame.send_type,
        frame.record()[3] == frame.flag_byte(),
        forall|i: int|
            0 <= i < 4 ==> frame.record()[4 + i] == #[trigger] bytes::le32(frame.timestamp_us)[i],
        forall|i: int|
            0 <= i < 4 ==> frame.record()[8 + i] == #[trigger] bytes::le32(frame.wire_id())[i],
        forall|i: int|
            0 <= i < frame.wire_dlc() ==> #[trigger] frame.record()[12 + i] == frame.data@[i],
{
    let r = frame.record();
    let start = seq![0x0fu8, 0x00u8, frame.send_type, frame.flag_byte()];
    assert(r.subrange(0, 4) =~= start);
    assert(r[2] == start[2] && r[3] == start[3]);
    assert(r.subrange(4, 8) =~= bytes::le32(frame.timestamp_us));
    assert(r.subrange(8, 12) =~= bytes::le32(frame.wire_id()));
    assert forall|i: int| 0 <= i < 4 implies r[4 + i] == #[trigger] bytes::le32(
        frame.timestamp_us,
    )[i] by {
        assert(r.subrange(4, 8)[i] == r[4 + i]);
    }
    assert forall|i: int| 0 <= i < 4 implies r[8 + i] == #[trigger] bytes::le32(
        frame.wire_id(),
    )[i] by {
        assert(r.subrange(8, 12)[i] == r[8 + i]);
    }
}

/// Where everything stands in the record of a frame.
pub proof fn law_record_layout(frame: CanFrame)
    ensures
        ({
            let r = frame.record();
            let n = (r[3] & 0x0f) as int;
            &&& r.len() == 24
            &&& r[0] == 0x0f
            &&& r[1] == 0
            &&& r[2] == frame.send_type
            &&& (r[3] & 0x80 != 0) == frame.extended
            &&& (r[3] & 0x40 != 0) == frame.remote
            &&& (r[3] >> 4) & 3 == frame.channel & 3
            &&& n == (if frame.dlc & 0x0f <= 8 {
                (frame.dlc & 0x0f) as int
            } else {
                8
            })
            &&& r[4] + 0x100 * r[5] + 0x1_0000 * r[6] + 0x100_0000 * r[7] == frame.timestamp_us
            &&& r[8] + 0x100 * r[9] + 0x1_0000 * r[10] + 0x100_0000 * r[11] == (if frame.extended {
                frame.id & 0x1fff_ffff
            } else {
                frame.id & 0x7ff
            })
            &&& forall|i: int| 0 <= i < n ==> #[trigger] r[12 + i] == frame.data@[i]
            &&& r[12 + n] == bytes::xor_of(r.take(12 + n))
            &&& forall|i: int| 13 + n <= i < 24 ==> #[trigger] r[i] == 0
        }),
{
    let r = frame.record();
    lemma_record_bytes(frame);
    lemma_flag_byte(frame);
    bytes::lemma_flag_fields(r[3]);
    bytes::lemma_flag_fields(frame.channel);
    bytes::lemma_flag_fields(frame.dlc);
    bytes::lemma_id_masks(frame.id);
    bytes::law_le32_digits(frame.timestamp_us);
    bytes::law_le32_digits(frame.wire_id());
    let n = (r[3] & 0x0f) as int;
    assert(n == frame.wire_dlc());
    assert(r.take(12 + n) =~= frame.record_head());
    assert(r[4] == bytes::le32(frame.timestamp_us)[0]);
    assert(r[5] == bytes::le32(frame.timestamp_us)[1]);
    assert(r[6] == bytes::le32(frame.timestamp_us)[2]);
    assert(r[7] == bytes::le32(frame.timestamp_us)[3]);
    assert(r[8] == bytes::le32(frame.wire_id())[0]);
    assert(r[9] == bytes::le32(frame.wire_id())[1]);
    assert(r[10] == bytes::le32(frame.wire_id())[2]);
    assert(r[11] == bytes::le32(frame.wire_id())[3]);
}

/// Where everything is read from a data record.
pub proof fn law_record_fields(r: Seq<u8>)
    requires
        r.len() == 24,
    ensures
        ({
            let frame = CanFrame::from_record(r);
            let id = r[8] + 0x100 * r[9] + 0x1_0000 * r[10] + 0x100_0000 * r[11];
            &&& frame.extended == (r[3] & 0x80 != 0)
            &&& frame.remote == (r[3] & 0x40 != 0)
            &&& frame.channel == (r[3] >> 4) & 3
            &&& frame.dlc == (if r[3] & 0x0f <= 8 {
                r[3] & 0x0f
            } else {
                8
            })
            &&& frame.send_type == r[2]
            &&& frame.timestamp_us == r[4] + 0x100 * r[5] + 0x1_0000 * r[6] + 0x100_0000 * r[7]
            &&& frame.id == (if frame.extended {
                id as u32 & 0x1fff_ffff
            } else {
                id as u32 & 0x7ff
            })
            &&& frame.payload_bytes() == r.subrange(12, 12 + frame.dlc)
        }),
{
    let frame = CanFrame::from_record(r);
    let id = r[8] + 0x100 * r[9] + 0x1_0000 * r[10] + 0x100_0000 * r[11];
    bytes::lemma_flag_fields(r[3]);
    bytes::lemma_id_masks(id as u32);
    assert(frame.payload_bytes() =~= r.subrange(12, 12 + frame.dlc));
}

/// The payload of a frame is the first bytes of its data, as many as its length code
/// says, eight at most.
pub proof fn law_payload_is_front_of_data(frame: CanFrame)
    ensures
        frame.payload_bytes().len() == (if frame.dlc <= 8 {
            frame.dlc as int
        } else {
            8
        }),
        forall|i: int|
            0 <= i < frame.payload_bytes().len() ==> #[trigger] frame.payload_bytes()[i]
                == frame.data@[i],
{
}

/// A new data frame holds what it was made from: its payload is the data, cut to eight
/// bytes, and nothing else is set.
pub proof fn law_new_data_frame(id: u32, extended: bool, data: Seq<u8>)
    ensures
        ({
            let frame = CanFrame::of_data(id, extended, data);
            &&& frame.id == id && frame.extended == extended && !frame.remote
            &&& data.len() <= 8 ==> frame.payload_bytes() == data
            &&& data.len() > 8 ==> frame.payload_bytes() == data.take(8)
            &&& frame.dlc == frame.payload_bytes().len()
            &&& forall|i: int| frame.dlc <= i < 8 ==> #[trigger] frame.data@[i] == 0
            &&& frame.channel == 0 && frame.timestamp_us == 0 && frame.send_type == 0
        }),
{
    let frame = CanFrame::of_data(id, extended, data);
    assert(data.len() <= 8 ==> frame.payload_bytes() =~= data);
    assert(data.len() > 8 ==> frame.payload_bytes() =~= data.take(8));
}

/// A new remote frame asks for the given number of bytes, eight at most, carries none,
/// and nothing else is set.
pub proof fn law_new_remote_frame(id: u32, extended: bool, dlc: u8)
    ensures
        ({
            let frame = CanFrame::of_remote(id, extended, dlc);
            &&& frame.id == id && frame.extended == extended && frame.remote
            &&& frame.dlc == (if dlc <= 8 {
                dlc
            } else {
                8
            })
            &&& forall|i: int| 0 <= i < 8 ==> #[trigger] frame.data@[i] == 0
            &&& frame.channel == 0 && frame.timestamp_us == 0 && frame.send_type == 0
        }),
{
}

/// Candump notation: the identifier in three or eight upper-case digits, a `#`, and
/// then two digits for each byte, or an `R` and the length of a remote frame.
pub proof fn law_text_shows_the_frame(frame: CanFrame)
    requires
        frame.id < (if frame.extended { 0x1_0000_0000int } else { 0x1000 }),
    ensures
        ({
            let s = frame.text();
            let w: int = if frame.extended {
                8
            } else {
                3
            };
            &&& s.len() > w && s[w] == '#'
            &&& text::number(s.take(w), 16) == Some(frame.id as nat)
            &&& forall|i: int| 0 <= i < w ==> !('a' <= #[trigger] s[i] <= 'f')
            &&& frame.remote ==> s.len() > w + 1 && s[w + 1] == 'R' && text::number(
                s.skip(w + 2),
                10,
            ) == Some(frame.dlc as nat)
            &&& !frame.remote ==> {
                &&& s.len() == w + 1 + 2 * frame.payload_len()
                &&& forall|i: int|
                    0 <= i < frame.payload_len() ==> text::number(
                        s.subrange(w + 1 + 2 * i, w + 3 + 2 * i),
                        16,
                    ) == Some(#[trigger] frame.payload_bytes()[i] as nat)
            }
        }),
{
    let s = frame.text();
    let w: nat = if frame.extended {
        8
    } else {
        3
    };
    let id = text::hexadecimal(frame.id as nat, w, true);
    reveal_strlit("#");
    reveal_strlit("#R");
    reveal_strlit("");
    assert(text::sixteen_to(3) == 0x1000 && text::sixteen_to(8) == 0x1_0000_0000) by {
        reveal_with_fuel(text::sixteen_to, 9);
    }
    text::law_hexadecimal_width(frame.id as nat, w, true);
    text::law_hexadecimal_reads_back(frame.id as nat, w, true);
    assert(s.take(w as int) =~= id);
    assert forall|i: int| 0 <= i < w implies !('a' <= #[trigger] s[i] <= 'f') by {
        assert(s[i] == id[i]);
    }
    if frame.remote {
        text::law_decimal_reads_back(frame.dlc as nat);
        assert(s.skip(w as int + 2) =~= text::decimal(frame.dlc as nat));
    } else {
        let payload = frame.payload_bytes();
        let list = text::hex_list(payload, ""@);
        if payload.len() > 0 {
            text::law_hex_list_entries(payload, ""@, 0);
        }
        assert(s.skip(w as int + 1) =~= list);
        assert forall|i: int| 0 <= i < frame.payload_len() implies text::number(
            s.subrange(w + 1 + 2 * i, w + 3 + 2 * i),
            16,
        ) == Some(#[trigger] frame.payload_bytes()[i] as nat) by {
            text::law_hex_list_entries(payload, ""@, i);
            assert(i * 2 == 2 * i);
            assert(s.subrange(w + 1 + 2 * i, w + 3 + 2 * i) =~= list.subrange(2 * i, 2 * i + 2));
        }
    }
}

} // verus!

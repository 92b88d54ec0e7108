//! Bit timing and channel modes.

use vstd::prelude::*;

use crate::text;

verus! {

/// The CAN controller's time-quantum clock, in hertz.
///
/// This value is **empirically calibrated**, not taken from a datasheet. See the
/// note on [`Bitrate::packed`] for how it was established and why it matters.
pub const CAN_CLOCK_HZ: u32 = 36_000_000;

/// Supported CAN bit rates.
#[derive(Debug, Clone, Copy, PartialEq, Eq, PartialOrd, Ord, Structural)]
pub enum Bitrate {
    /// 10 kbit/s.
    Kbps10,
    /// 20 kbit/s.
    Kbps20,
    /// 50 kbit/s.
    Kbps50,
    /// 100 kbit/s.
    Kbps100,
    /// 125 kbit/s.
    Kbps125,
    /// 250 kbit/s. The rate the timing table was calibrated against.
    Kbps250,
    /// 500 kbit/s.
    Kbps500,
    /// 800 kbit/s.
    Kbps800,
    /// 1 Mbit/s.
    Kbps1000,
}

/// The timing word with the given fields; each field is cut to its width.
pub open spec fn timing_word(brp: u32, tseg1: u32, tseg2: u32) -> u32 {
    (brp % 1024 + 65536 * (tseg1 % 16) + 1048576 * (tseg2 % 8)) as u32
}

/// The fields `(BRP, TSEG1, TSEG2)` of a timing word.
pub open spec fn timing_fields(word: u32) -> (u32, u32, u32) {
    (word % 1024, word / 65536 % 16, word / 1048576 % 8)
}

impl Bitrate {
    /// Every supported rate, slowest first.
    pub const ALL: [Bitrate; 9] = [
        Bitrate::Kbps10,
        Bitrate::Kbps20,
        Bitrate::Kbps50,
        Bitrate::Kbps100,
        Bitrate::Kbps125,
        Bitrate::Kbps250,
        Bitrate::Kbps500,
        Bitrate::Kbps800,
        Bitrate::Kbps1000,
    ];

    /// The nominal rate in kbit/s.
    pub open spec fn rate(self) -> u32 {
        match self {
            Bitrate::Kbps10 => 10,
            Bitrate::Kbps20 => 20,
            Bitrate::Kbps50 => 50,
            Bitrate::Kbps100 => 100,
            Bitrate::Kbps125 => 125,
            Bitrate::Kbps250 => 250,
            Bitrate::Kbps500 => 500,
            Bitrate::Kbps800 => 800,
            Bitrate::Kbps1000 => 1000,
        }
    }

    /// The timing fields `(BRP, TSEG1, TSEG2)` of the rate.
    pub open spec fn fields(self) -> (u32, u32, u32) {
        match self {
            Bitrate::Kbps1000 => (1, 12, 3),
            Bitrate::Kbps800 => (2, 10, 2),
            Bitrate::Kbps500 => (3, 12, 3),
            Bitrate::Kbps250 => (8, 12, 1),
            Bitrate::Kbps125 => (17, 12, 1),
            Bitrate::Kbps100 => (19, 12, 3),
            Bitrate::Kbps50 => (44, 12, 1),
            Bitrate::Kbps20 => (99, 12, 3),
            Bitrate::Kbps10 => (199, 12, 3),
        }
    }

    /// The timing word of the rate.
    pub open spec fn word(self) -> u32 {
        timing_word(self.fields().0, self.fields().1, self.fields().2)
    }

    /// Clocks per bit: `(BRP + 1) * (TSEG1 + 3 + TSEG2)`.
    pub open spec fn clocks(self) -> int {
        (self.fields().0 + 1) * (self.fields().1 + 3 + self.fields().2)
    }

    /// The rate as text, for example `500 kbit/s`.
    pub open spec fn text(self) -> Seq<char> {
        text::decimal(self.rate() as nat) + " kbit/s"@
    }

    /// The nominal rate in kbit/s.
    pub fn kbps(self) -> (kbps: u32)
        ensures
            kbps == self.rate(),
    {
        match self {
            Bitrate::Kbps10 => 10,
            Bitrate::Kbps20 => 20,
            Bitrate::Kbps50 => 50,
            Bitrate::Kbps100 => 100,
            Bitrate::Kbps125 => 125,
            Bitrate::Kbps250 => 250,
            Bitrate::Kbps500 => 500,
            Bitrate::Kbps800 => 800,
            Bitrate::Kbps1000 => 1000,
        }
    }

    /// Look up a rate by its nominal kbit/s value.
    pub fn from_kbps(kbps: u32) -> (found: Option<Self>)
        ensures
            forall|b: Bitrate| found == Some(b) <==> #[trigger] b.rate() == kbps,
    {
        let all: [Bitrate; 9] = Self::ALL;
        let mut i: usize = 0;
        while i < 9
            invariant
                i <= 9,
                all == Self::ALL,
                forall|j: int| 0 <= j < i ==> (#[trigger] all@[j]).rate() != kbps,
            decreases 9 - i,
        {
            if all[i].kbps() == kbps {
                return Some(all[i]);
            }
            i += 1;
        }
        proof {
            law_all_rates_listed();
            assert forall|b: Bitrate| #[trigger] b.rate() != kbps by {
                let j = choose|j: int| 0 <= j < 9 && Bitrate::ALL@[j] == b;
                assert(all@[j] == b);
            }
        }
        None
    }

    /// Bit-timing register value for [`CtrlCmd::SetBitTiming`](super::CtrlCmd).
    ///
    /// The 32-bit word packs three fields:
    ///
    /// ```text
    /// bits 0..9    BRP    prescaler minus one
    /// bits 16..19  TSEG1
    /// bits 20..22  TSEG2
    /// ```
    ///
    /// One bit lasts `(BRP + 1) * (TSEG1 + 3 + TSEG2)` clocks, and the firmware
    /// rejects any combination yielding 35 clocks or fewer.
    ///
    /// # On the 36 MHz figure
    ///
    /// The controller clock was pinned down by putting the adapter on a bus with
    /// known-good 250 kbit/s traffic between two third-party nodes, sweeping BRP,
    /// and keeping the setting that decoded cleanly: `BRP=8, TSEG1=12, TSEG2=1`,
    /// i.e. 144 clocks per bit. 250 kbit/s x 144 = 36 MHz.
    ///
    /// Every entry divides 36 MHz exactly, so all nine rates are exact rather than
    /// approximated: see [`law_bit_rates_are_exact`].
    pub fn packed(self) -> (word: u32)
        ensures
            word == self.word(),
    {
        match self {
            Bitrate::Kbps1000 => pack(1, 12, 3),
            Bitrate::Kbps800 => pack(2, 10, 2),
            Bitrate::Kbps500 => pack(3, 12, 3),
            Bitrate::Kbps250 => pack(8, 12, 1),
            Bitrate::Kbps125 => pack(17, 12, 1),
            Bitrate::Kbps100 => pack(19, 12, 3),
            Bitrate::Kbps50 => pack(44, 12, 1),
            Bitrate::Kbps20 => pack(99, 12, 3),
            Bitrate::Kbps10 => pack(199, 12, 3),
        }
    }

    /// Decode a packed timing word back into `(BRP, TSEG1, TSEG2)`.
    pub fn unpack(word: u32) -> (fields: (u32, u32, u32))
        ensures
            fields == timing_fields(word),
    {
        (word % 1024, word / 65536 % 16, word / 1048576 % 8)
    }

    /// Clocks per bit implied by [`Self::packed`].
    pub fn clocks_per_bit(self) -> (clocks: u32)
        ensures
            clocks == self.clocks(),
    {
        let (brp, tseg1, tseg2) = Self::unpack(self.packed());
        proof {
            let f = self.fields();
            law_timing_word_roundtrip(f.0, f.1, f.2);
            assert((brp + 1) * (tseg1 + 3 + tseg2) <= 1024 * 25) by (nonlinear_arith)
                requires
                    brp < 1024,
                    tseg1 < 16,
                    tseg2 < 8,
            ;
        }
        (brp + 1) * (tseg1 + 3 + tseg2)
    }

    /// The rate as text, for example `500 kbit/s`.
    pub fn to_string(&self) -> (s: String)
        ensures
            s@ == self.text(),
    {
        let mut s = String::new();
        text::push_decimal(&mut s, self.kbps() as u64);
        s.append(" kbit/s");
        assert(s@ =~= self.text());
        s
    }
}

/// Assemble a timing word from its fields; each field is cut to its width.
pub fn pack(brp: u32, tseg1: u32, tseg2: u32) -> (word: u32)
    ensures
        word == timing_word(brp, tseg1, tseg2),
{
    brp % 1024 + 65536 * (tseg1 % 16) + 1048576 * (tseg2 % 8)
}

/// How a channel participates on the bus.
#[derive(Debug, Clone, Copy, PartialEq, Eq, Structural)]
pub enum ChannelMode {
    /// Transmit and acknowledge normally.
    Normal,
    /// Do not drive the bus.
    ///
    /// The device distinguishes only "normal" from "not normal"; whether this
    /// yields true listen-only silence has not been confirmed with a bus analyzer.
    Passive,
}

impl ChannelMode {
    /// Mode byte of the timing command.
    pub open spec fn mode_byte(self) -> u8 {
        match self {
            ChannelMode::Normal => 0x80,
            ChannelMode::Passive => 0x00,
        }
    }

    /// Mode byte for [`set_bit_timing_payload`](super::set_bit_timing_payload).
    pub fn flag(self) -> (flag: u8)
        ensures
            flag == self.mode_byte(),
    {
        match self {
            ChannelMode::Normal => 0x80,
            ChannelMode::Passive => 0x00,
        }
    }
}

impl Default for ChannelMode {
    fn default() -> (mode: Self)
        ensures
            mode == ChannelMode::Normal,
    {
        ChannelMode::Normal
    }
}

// ───────────────────────────── Laws ─────────────────────────────

/// Every rate divides the controller clock exactly, and passes the firmware's
/// check of more than 35 clocks per bit.
pub proof fn law_bit_rates_are_exact(b: Bitrate)
    ensures
        b.clocks() * (b.rate() * 1000) == CAN_CLOCK_HZ,
        b.clocks() > 35,
{
    match b {
        Bitrate::Kbps10 => assert(200 * 18 * 10_000 == 36_000_000),
        Bitrate::Kbps20 => assert(100 * 18 * 20_000 == 36_000_000),
        Bitrate::Kbps50 => assert(45 * 16 * 50_000 == 36_000_000),
        Bitrate::Kbps100 => assert(20 * 18 * 100_000 == 36_000_000),
        Bitrate::Kbps125 => assert(18 * 16 * 125_000 == 36_000_000),
        Bitrate::Kbps250 => assert(9 * 16 * 250_000 == 36_000_000),
        Bitrate::Kbps500 => assert(4 * 18 * 500_000 == 36_000_000),
        Bitrate::Kbps800 => assert(3 * 15 * 800_000 == 36_000_000),
        Bitrate::Kbps1000 => assert(2 * 18 * 1_000_000 == 36_000_000),
    }
}

/// The fields of a timing word come back out of it.
pub proof fn law_timing_word_roundtrip(brp: u32, tseg1: u32, tseg2: u32)
    ensures
        timing_fields(timing_word(brp, tseg1, tseg2)) == (brp % 1024, tseg1 % 16, tseg2 % 8),
{
}

/// The word of a rate decodes to the fields of the rate.
pub proof fn law_packed_rate_unpacks(b: Bitrate)
    ensures
        timing_fields(b.word()) == b.fields(),
{
    law_timing_word_roundtrip(b.fields().0, b.fields().1, b.fields().2);
}

/// No two rates share a nominal value.
pub proof fn law_rates_differ(a: Bitrate, b: Bitrate)
    requires
        a.rate() == b.rate(),
    ensures
        a == b,
{
}

/// [`Bitrate::ALL`] lists every rate.
pub proof fn law_all_rates_listed()
    ensures
        forall|b: Bitrate| #![trigger b.rate()] exists|j: int|
            0 <= j < 9 && Bitrate::ALL@[j] == b,
{
    let all = Bitrate::ALL@;
    assert(all[0] == Bitrate::Kbps10);
    assert(all[1] == Bitrate::Kbps20);
    assert(all[2] == Bitrate::Kbps50);
    assert(all[3] == Bitrate::Kbps100);
    assert(all[4] == Bitrate::Kbps125);
    assert(all[5] == Bitrate::Kbps250);
    assert(all[6] == Bitrate::Kbps500);
    assert(all[7] == Bitrate::Kbps800);
    assert(all[8] == Bitrate::Kbps1000);
}

/// [`Bitrate::ALL`] is ordered, slowest first.
pub proof fn law_all_rates_ascend(i: int, j: int)
    requires
        0 <= i < j < 9,
    ensures
        Bitrate::ALL@[i].rate() < Bitrate::ALL@[j].rate(),
{
    let all = Bitrate::ALL@;
    assert(all[0].rate() == 10);
    assert(all[1].rate() == 20);
    assert(all[2].rate() == 50);
    assert(all[3].rate() == 100);
    assert(all[4].rate() == 125);
    assert(all[5].rate() == 250);
    assert(all[6].rate() == 500);
    assert(all[7].rate() == 800);
    assert(all[8].rate() == 1000);
}

/// The nine rates and their timing fields: prescaler minus one, TSEG1 and TSEG2.
pub proof fn law_bit_timing_table(b: Bitrate)
    ensures
        (b.rate(), b.fields()) == match b {
            Bitrate::Kbps1000 => (1000u32, (1u32, 12u32, 3u32)),
            Bitrate::Kbps800 => (800, (2, 10, 2)),
            Bitrate::Kbps500 => (500, (3, 12, 3)),
            Bitrate::Kbps250 => (250, (8, 12, 1)),
            Bitrate::Kbps125 => (125, (17, 12, 1)),
            Bitrate::Kbps100 => (100, (19, 12, 3)),
            Bitrate::Kbps50 => (50, (44, 12, 1)),
            Bitrate::Kbps20 => (20, (99, 12, 3)),
            Bitrate::Kbps10 => (10, (199, 12, 3)),
        },
{
}

/// Where the fields stand in a timing word: bits 0 to 9, 16 to 19 and 20 to 22. All
/// other bits of a packed word are zero.
pub proof fn law_timing_word_bits(word: u32, brp: u32, tseg1: u32, tseg2: u32)
    ensures
        timing_fields(word).0 == word & 0x3ff,
        timing_fields(word).1 == (word >> 16) & 0xf,
        timing_fields(word).2 == (word >> 20) & 0x7,
        timing_word(brp, tseg1, tseg2) == (brp & 0x3ff) | ((tseg1 & 0xf) << 16) | ((tseg2 & 0x7)
            << 20),
{
    lemma_word_bits(word);
    lemma_field_bits(brp, tseg1, tseg2);
}

proof fn lemma_word_bits(word: u32)
    by (bit_vector)
    ensures
        word % 1024 == word & 0x3ff,
        word / 65536 % 16 == (word >> 16) & 0xf,
        word / 1048576 % 8 == (word >> 20) & 0x7,
{
}

proof fn lemma_field_bits(brp: u32, tseg1: u32, tseg2: u32)
    by (bit_vector)
    ensures
        brp % 1024 + 65536 * (tseg1 % 16) + 1048576 * (tseg2 % 8) == (brp & 0x3ff) | ((tseg1 & 0xf)
            << 16) | ((tseg2 & 0x7) << 20),
{
}

/// One bit lasts `(BRP + 1) * (TSEG1 + 3 + TSEG2)` clocks, by the fields that the word
/// of the rate carries; together they make up the 36 MHz of the controller.
pub proof fn law_clocks_per_bit(b: Bitrate)
    ensures
        ({
            let (brp, tseg1, tseg2) = timing_fields(b.word());
            b.clocks() == (brp + 1) * (tseg1 + 3 + tseg2)
        }),
        b.clocks() * b.rate() == 36_000,
{
    law_packed_rate_unpacks(b);
    law_bit_rates_are_exact(b);
    let clocks = b.clocks();
    let rate = b.rate() as int;
    assert(clocks * rate == 36_000) by (nonlinear_arith)
        requires
            clocks * (rate * 1000) == 36_000_000,
    ;
}

/// The mode byte tells the two modes apart: bit 7 is set in normal mode only.
pub proof fn law_mode_bytes(mode: ChannelMode)
    ensures
        mode.mode_byte() == (if mode == ChannelMode::Normal {
            0x80
        } else {
            0x00int
        }),
{
}

/// The text of a rate starts with its number of kbit/s.
pub proof fn law_rate_text(b: Bitrate)
    ensures
        exists|n: int|
            0 < n <= b.text().len() && text::number(#[trigger] b.text().take(n), 10) == Some(
                b.rate() as nat,
            ) && b.text().skip(n) == seq![' ', 'k', 'b', 'i', 't', '/', 's'],
{
    reveal_strlit(" kbit/s");
    let digits = text::decimal(b.rate() as nat);
    let n = digits.len() as int;
    text::law_decimal_reads_back(b.rate() as nat);
    assert(b.text().take(n) =~= digits);
    assert(b.text().skip(n) =~= seq![' ', 'k', 'b', 'i', 't', '/', 's']);
}

} // verus!

//! Describing the attached adapters.

use vstd::prelude::*;

use crate::device;
use crate::device::{Device, DeviceInfo, DeviceState, EndpointInfo};
use crate::protocol::{Bitrate, CAN_CLOCK_HZ};
use crate::text;

verus! {

// ───────────────────────────── Adapters ─────────────────────────────

/// The line of the adapter at `index`.
pub open spec fn adapter_line(index: int, info: DeviceInfo) -> Seq<char> {
    "  ["@ + text::decimal(index as nat) + "] "@ + device::model_name(info.pid) + " (VID 0x"@
        + text::hexadecimal(info.vid as nat, 4, false) + " PID 0x"@ + text::hexadecimal(
        info.pid as nat,
        4,
        false,
    ) + ", "@ + text::decimal(device::channels_of(info.pid) as nat) + (if device::channels_of(
        info.pid,
    ) == 1 {
        " channel)\n"@
    } else {
        " channels)\n"@
    })
}

/// The lines of `adapters`.
pub open spec fn adapter_lines(adapters: Seq<DeviceInfo>) -> Seq<char>
    decreases adapters.len(),
{
    if adapters.len() == 0 {
        Seq::empty()
    } else {
        adapter_lines(adapters.drop_last()) + adapter_line(adapters.len() - 1, adapters.last())
    }
}

/// The list of attached adapters.
pub open spec fn adapters_text(adapters: Seq<DeviceInfo>) -> Seq<char> {
    if adapters.len() == 0 {
        "No USBCAN-(2)E-U adapter found.\nLooked for USB vendor 0x0471, products 0x1260 and 0x1261.\n"@
    } else {
        "Attached adapters:\n"@ + adapter_lines(adapters) + "\n"@
    }
}

fn push_adapter_line(out: &mut String, index: usize, info: &DeviceInfo)
    ensures
        final(out)@ == old(out)@ + adapter_line(index as int, *info),
{
    out.append("  [");
    text::push_decimal(out, index as u64);
    out.append("] ");
    out.append(info.model());
    out.append(" (VID 0x");
    text::push_hexadecimal(out, info.vid as u32, 4, false);
    out.append(" PID 0x");
    text::push_hexadecimal(out, info.pid as u32, 4, false);
    out.append(", ");
    text::push_decimal(out, info.channel_count() as u64);
    if info.channel_count() == 1 {
        out.append(" channel)\n");
    } else {
        out.append(" channels)\n");
    }
    assert(out@ =~= old(out)@ + adapter_line(index as int, *info));
}

/// The list of attached adapters.
pub fn describe_adapters(adapters: &[DeviceInfo]) -> (s: String)
    ensures
        s@ == adapters_text(adapters@),
{
    let mut s = String::new();
    if adapters.len() == 0 {
        s.append(
            "No USBCAN-(2)E-U adapter found.\nLooked for USB vendor 0x0471, products 0x1260 and 0x1261.\n",
        );
        assert(s@ =~= adapters_text(adapters@));
        return s;
    }
    s.append("Attached adapters:\n");
    let mut i: usize = 0;
    assert(s@ =~= "Attached adapters:\n"@ + adapter_lines(adapters@.take(0)));
    while i < adapters.len()
        invariant
            i <= adapters@.len(),
            s@ == "Attached adapters:\n"@ + adapter_lines(adapters@.take(i as int)),
        decreases adapters@.len() - i,
    {
        push_adapter_line(&mut s, i, &adapters[i]);
        assert(adapters@.take(i + 1).drop_last() =~= adapters@.take(i as int));
        i += 1;
        assert(s@ =~= "Attached adapters:\n"@ + adapter_lines(adapters@.take(i as int)));
    }
    assert(adapters@.take(i as int) =~= adapters@);
    s.append("\n");
    s
}

// ───────────────────────────── One adapter ─────────────────────────────

/// The identification of an adapter.
pub open spec fn identification_text(identification: Seq<u8>) -> Seq<char> {
    if identification.len() == 0 {
        "(no response)"@
    } else {
        text::hex_list(identification, " "@)
    }
}

/// What the driver does with the endpoint at `address`.
pub open spec fn endpoint_note(address: u8) -> Seq<char> {
    if address == 0x03 || address == 0x83 {
        "  <- isochronous, never opened (see docs)"@
    } else if address == 0x02 {
        "  <- transmit"@
    } else if address == 0x82 {
        "  <- transmit ack"@
    } else if address == 0x04 {
        "  <- control out"@
    } else if address == 0x84 {
        "  <- control in"@
    } else if address == 0x85 {
        "  <- receive"@
    } else {
        ""@
    }
}

/// The line of an endpoint.
pub open spec fn endpoint_line(ep: EndpointInfo) -> Seq<char> {
    "    0x"@ + text::hexadecimal(ep.address as nat, 2, true) + "  "@ + text::left_aligned(
        ep.type_word(),
        11,
    ) + " "@ + text::left_aligned(ep.direction_word(), 3) + " max "@ + text::right_aligned(
        text::decimal(ep.max_packet_size as nat),
        3,
    ) + " bytes"@ + endpoint_note(ep.address) + "\n"@
}

/// The lines of `endpoints`.
pub open spec fn endpoint_lines(endpoints: Seq<EndpointInfo>) -> Seq<char>
    decreases endpoints.len(),
{
    if endpoints.len() == 0 {
        Seq::empty()
    } else {
        endpoint_lines(endpoints.drop_last()) + endpoint_line(endpoints.last())
    }
}

/// The line of a bit rate.
pub open spec fn rate_line(b: Bitrate) -> Seq<char> {
    let (brp, tseg1, tseg2) = b.fields();
    "    "@ + text::right_aligned(text::decimal(b.rate() as nat), 4) + " kbit/s   brp "@
        + text::right_aligned(text::decimal(brp as nat), 3) + "  tseg1 "@ + text::right_aligned(
        text::decimal(tseg1 as nat),
        2,
    ) + "  tseg2 "@ + text::decimal(tseg2 as nat) + "  ->  "@ + text::right_aligned(
        text::decimal(b.clocks() as nat),
        4,
    ) + " clocks/bit\n"@
}

/// The lines of `rates`.
pub open spec fn rate_lines(rates: Seq<Bitrate>) -> Seq<char>
    decreases rates.len(),
{
    if rates.len() == 0 {
        Seq::empty()
    } else {
        rate_lines(rates.drop_last()) + rate_line(rates.last())
    }
}

/// The description of the adapter at `index`.
pub open spec fn device_text(
    index: usize,
    adapter: DeviceState,
    endpoints: Seq<EndpointInfo>,
) -> Seq<char> {
    "Adapter "@ + text::decimal(index as nat) + "\n  model            "@ + device::model_name(
        adapter.pid,
    ) + "\n  product id       0x"@ + text::hexadecimal(adapter.pid as nat, 4, false)
        + "\n  channels         "@ + text::decimal(device::channels_of(adapter.pid) as nat)
        + "\n  identification   "@ + identification_text(adapter.identification)
        + "\n\n  endpoints\n"@ + endpoint_lines(endpoints)
        + "\n  bit timing table (controller clock "@ + text::decimal(
        (CAN_CLOCK_HZ / 1_000_000) as nat,
    ) + " MHz)\n"@ + rate_lines(Bitrate::ALL@)
}

fn note_of(address: u8) -> (note: &'static str)
    ensures
        note@ == endpoint_note(address),
{
    match address {
        0x03 | 0x83 => "  <- isochronous, never opened (see docs)",
        0x02 => "  <- transmit",
        0x82 => "  <- transmit ack",
        0x04 => "  <- control out",
        0x84 => "  <- control in",
        0x85 => "  <- receive",
        _ => "",
    }
}

fn push_endpoint_line(out: &mut String, ep: &EndpointInfo)
    ensures
        final(out)@ == old(out)@ + endpoint_line(*ep),
{
    out.append("    0x");
    text::push_hexadecimal(out, ep.address as u32, 2, true);
    out.append("  ");
    text::push_left_aligned(out, ep.transfer_type_name(), 11);
    out.append(" ");
    text::push_left_aligned(out, ep.direction_name(), 3);
    out.append(" max ");
    text::push_decimal_column(out, ep.max_packet_size as u64, 3);
    out.append(" bytes");
    out.append(note_of(ep.address));
    out.append("\n");
    assert(out@ =~= old(out)@ + endpoint_line(*ep));
}

fn push_endpoint_lines(out: &mut String, endpoints: &[EndpointInfo])
    ensures
        final(out)@ == old(out)@ + endpoint_lines(endpoints@),
{
    let mut i: usize = 0;
    assert(out@ =~= old(out)@ + endpoint_lines(endpoints@.take(0)));
    while i < endpoints.len()
        invariant
            i <= endpoints@.len(),
            out@ == old(out)@ + endpoint_lines(endpoints@.take(i as int)),
        decreases endpoints@.len() - i,
    {
        push_endpoint_line(out, &endpoints[i]);
        assert(endpoints@.take(i + 1).drop_last() =~= endpoints@.take(i as int));
        i += 1;
        assert(out@ =~= old(out)@ + endpoint_lines(endpoints@.take(i as int)));
    }
    assert(endpoints@.take(i as int) =~= endpoints@);
}

fn push_rate_line(out: &mut String, b: Bitrate)
    ensures
        final(out)@ == old(out)@ + rate_line(b),
{
    let (brp, tseg1, tseg2) = Bitrate::unpack(b.packed());
    proof {
        crate::protocol::timing::law_packed_rate_unpacks(b);
    }
    out.append("    ");
    text::push_decimal_column(out, b.kbps() as u64, 4);
    out.append(" kbit/s   brp ");
    text::push_decimal_column(out, brp as u64, 3);
    out.append("  tseg1 ");
    text::push_decimal_column(out, tseg1 as u64, 2);
    out.append("  tseg2 ");
    text::push_decimal(out, tseg2 as u64);
    out.append("  ->  ");
    text::push_decimal_column(out, b.clocks_per_bit() as u64, 4);
    out.append(" clocks/bit\n");
    assert(out@ =~= old(out)@ + rate_line(b));
}

fn push_rate_lines(out: &mut String)
    ensures
        final(out)@ == old(out)@ + rate_lines(Bitrate::ALL@),
{
    let rates = Bitrate::ALL;
    let mut i: usize = 0;
    assert(out@ =~= old(out)@ + rate_lines(rates@.take(0)));
    while i < 9
        invariant
            i <= 9,
            rates@.len() == 9,
            out@ == old(out)@ + rate_lines(rates@.take(i as int)),
        decreases 9 - i,
    {
        push_rate_line(out, rates[i]);
        assert(rates@.take(i + 1).drop_last() =~= rates@.take(i as int));
        i += 1;
        assert(out@ =~= old(out)@ + rate_lines(rates@.take(i as int)));
    }
    assert(rates@.take(i as int) =~= rates@);
}

/// The description of the adapter at `index`.
pub fn describe_device(index: usize, adapter: &Device, endpoints: &[EndpointInfo]) -> (s: String)
    ensures
        s@ == device_text(index, adapter@, endpoints@),
{
    let mut s = String::new();
    s.append("Adapter ");
    text::push_decimal(&mut s, index as u64);
    s.append("\n  model            ");
    s.append(adapter.model());
    s.append("\n  product id       0x");
    text::push_hexadecimal(&mut s, adapter.product_id() as u32, 4, false);
    s.append("\n  channels         ");
    text::push_decimal(&mut s, adapter.channel_count() as u64);
    s.append("\n  identification   ");
    if adapter.identification().len() == 0 {
        s.append("(no response)");
    } else {
        text::push_hex_list(&mut s, adapter.identification(), " ");
    }
    s.append("\n\n  endpoints\n");
    push_endpoint_lines(&mut s, endpoints);
    s.append("\n  bit timing table (controller clock ");
    text::push_decimal(&mut s, (CAN_CLOCK_HZ / 1_000_000) as u64);
    s.append(" MHz)\n");
    push_rate_lines(&mut s);
    assert(s@ =~= device_text(index, adapter@, endpoints@));
    s
}

// ───────────────────────────── Laws ─────────────────────────────

/// The line of an adapter names its index, model, IDs and number of channels.
pub proof fn law_adapter_line(index: int, info: DeviceInfo)
    requires
        index >= 0,
    ensures
        exists|i: Seq<char>, v: Seq<char>, p: Seq<char>| #[trigger]
            text::reads(i, index) && #[trigger] text::reads_hex(v, info.vid as nat, 4) && #[trigger]
            text::reads_hex(p, info.pid as nat, 4) && adapter_line(index, info) == "  ["@ + i
                + "] "@ + device::model_name(info.pid) + " (VID 0x"@ + v + " PID 0x"@ + p + (
            if info.pid == 0x1261 {
                ", 2 channels)\n"@
            } else {
                ", 1 channel)\n"@
            }),
{
    text::law_written_numbers_read(index, 0, true);
    text::law_written_numbers_read(info.vid as int, 4, false);
    text::law_written_numbers_read(info.pid as int, 4, false);
    let i = text::decimal(index as nat);
    let v = text::hexadecimal(info.vid as nat, 4, false);
    let p = text::hexadecimal(info.pid as nat, 4, false);
    reveal_strlit(", ");
    reveal_strlit(" channel)\n");
    reveal_strlit(" channels)\n");
    reveal_strlit(", 1 channel)\n");
    reveal_strlit(", 2 channels)\n");
    assert(", 2 channels)\n"@ =~= ", "@ + text::decimal(2) + " channels)\n"@);
    assert(", 1 channel)\n"@ =~= ", "@ + text::decimal(1) + " channel)\n"@);
    assert(text::reads(i, index) && text::reads_hex(v, info.vid as nat, 4) && text::reads_hex(
        p,
        info.pid as nat,
        4,
    ));
    assert(adapter_line(index, info) =~= "  ["@ + i + "] "@ + device::model_name(info.pid)
        + " (VID 0x"@ + v + " PID 0x"@ + p + (if info.pid == 0x1261 {
        ", 2 channels)\n"@
    } else {
        ", 1 channel)\n"@
    }));
}

/// The lists have one line for each entry, in order; an adapter more is a line more,
/// with its index.
pub proof fn law_lists_grow(
    adapters: Seq<DeviceInfo>,
    info: DeviceInfo,
    endpoints: Seq<EndpointInfo>,
    ep: EndpointInfo,
    rates: Seq<Bitrate>,
    b: Bitrate,
)
    ensures
        adapter_lines(Seq::<DeviceInfo>::empty()).len() == 0,
        adapter_lines(adapters.push(info)) == adapter_lines(adapters) + adapter_line(
            adapters.len() as int,
            info,
        ),
        endpoint_lines(Seq::<EndpointInfo>::empty()).len() == 0,
        endpoint_lines(endpoints.push(ep)) == endpoint_lines(endpoints) + endpoint_line(ep),
        rate_lines(Seq::<Bitrate>::empty()).len() == 0,
        rate_lines(rates.push(b)) == rate_lines(rates) + rate_line(b),
{
    assert(adapters.push(info).drop_last() =~= adapters);
    assert(endpoints.push(ep).drop_last() =~= endpoints);
    assert(rates.push(b).drop_last() =~= rates);
}

/// The list of adapters is announced; if there is none, what was looked for is said.
pub proof fn law_adapters_text(adapters: Seq<DeviceInfo>)
    ensures
        adapters.len() > 0 ==> adapters_text(adapters) == "Attached adapters:\n"@ + adapter_lines(
            adapters,
        ) + "\n"@,
        adapters.len() == 0 ==> adapters_text(adapters)
            == "No USBCAN-(2)E-U adapter found.\nLooked for USB vendor 0x0471, products 0x1260 and 0x1261.\n"@,
{
}

/// The columns of an endpoint: its address in two digits, its type, its direction, the
/// size of its packets, and what the driver does with it.
pub proof fn law_endpoint_columns(ep: EndpointInfo)
    ensures
        ({
            let s = endpoint_line(ep);
            &&& s.len() > 30
            &&& s.take(6) == "    0x"@
            &&& text::number(s.subrange(6, 8), 16) == Some(ep.address as nat)
            &&& s.subrange(8, 10) == "  "@
            &&& s.subrange(10, 21) == text::left_aligned(ep.type_word(), 11)
            &&& s[21] == ' '
            &&& s.subrange(22, 25) == text::left_aligned(ep.direction_word(), 3)
            &&& s.subrange(25, 30) == " max "@
            &&& exists|size: Seq<char>| #[trigger]
                text::reads(size, ep.max_packet_size as int) && s.skip(30) == text::right_aligned(
                    size,
                    3,
                ) + " bytes"@ + endpoint_note(ep.address) + "\n"@
        }),
{
    let s = endpoint_line(ep);
    let address = text::hexadecimal(ep.address as nat, 2, true);
    let kind = text::left_aligned(ep.type_word(), 11);
    let direction = text::left_aligned(ep.direction_word(), 3);
    let size = text::decimal(ep.max_packet_size as nat);
    reveal_strlit("    0x");
    reveal_strlit("  ");
    reveal_strlit(" ");
    reveal_strlit(" max ");
    reveal_strlit("control");
    reveal_strlit("isochronous");
    reveal_strlit("bulk");
    reveal_strlit("interrupt");
    reveal_strlit("unknown");
    reveal_strlit("IN");
    reveal_strlit("OUT");
    reveal_with_fuel(text::sixteen_to, 3);
    text::law_hexadecimal_width(ep.address as nat, 2, true);
    text::law_hexadecimal_reads_back(ep.address as nat, 2, true);
    text::law_written_numbers_read(ep.max_packet_size as int, 0, true);
    text::law_alignment_adds_spaces(ep.type_word(), 11);
    text::law_alignment_adds_spaces(ep.direction_word(), 3);
    assert(kind.len() == 11 && direction.len() == 3);
    assert(s.take(6) =~= "    0x"@);
    assert(s.subrange(6, 8) =~= address);
    assert(s.subrange(8, 10) =~= "  "@);
    assert(s.subrange(10, 21) =~= kind);
    assert(s[21] == ' ');
    assert(s.subrange(22, 25) =~= direction);
    assert(s.subrange(25, 30) =~= " max "@);
    assert(s.skip(30) =~= text::right_aligned(size, 3) + " bytes"@ + endpoint_note(ep.address)
        + "\n"@);
}

/// The notes say what the driver uses an endpoint for, and which it never opens.
pub proof fn law_endpoint_notes(address: u8)
    ensures
        address == 0x03 || address == 0x83 <==> endpoint_note(address)
            == "  <- isochronous, never opened (see docs)"@,
        endpoint_note(crate::protocol::EP_DATA_OUT) == "  <- transmit"@,
        endpoint_note(crate::protocol::EP_TX_ACK_IN) == "  <- transmit ack"@,
        endpoint_note(crate::protocol::EP_CTRL_OUT) == "  <- control out"@,
        endpoint_note(crate::protocol::EP_CTRL_IN) == "  <- control in"@,
        endpoint_note(crate::protocol::EP_DATA_IN) == "  <- receive"@,
        !seq![0x03u8, 0x83, 0x02, 0x82, 0x04, 0x84, 0x85].contains(address) ==> endpoint_note(
            address,
        ).len() == 0,
{
    reveal_strlit("");
    reveal_strlit("  <- isochronous, never opened (see docs)");
    reveal_strlit("  <- transmit");
    reveal_strlit("  <- transmit ack");
    reveal_strlit("  <- control out");
    reveal_strlit("  <- control in");
    reveal_strlit("  <- receive");
    let used = seq![0x03u8, 0x83, 0x02, 0x82, 0x04, 0x84, 0x85];
    assert(used[0] == 0x03 && used[1] == 0x83 && used[2] == 0x02 && used[3] == 0x82 && used[4]
        == 0x04 && used[5] == 0x84 && used[6] == 0x85);
    assert("  <- isochronous, never opened (see docs)"@.len() == 41);
    assert("  <- transmit"@.len() == 13 && "  <- transmit ack"@.len() == 17);
    assert("  <- control out"@.len() == 16 && "  <- control in"@.len() == 15);
    assert("  <- receive"@.len() == 12 && ""@.len() == 0);
}

/// The line of a rate shows the rate, the three timing fields and the clocks of a bit.
pub proof fn law_rate_columns(b: Bitrate)
    ensures
        exists|
            rate: Seq<char>,
            brp: Seq<char>,
            tseg1: Seq<char>,
            tseg2: Seq<char>,
            clocks: Seq<char>,
        | #[trigger]
            text::reads(rate, b.rate() as int) && #[trigger] text::reads(brp, b.fields().0 as int)
                && #[trigger] text::reads(tseg1, b.fields().1 as int) && #[trigger] text::reads(
                tseg2,
                b.fields().2 as int,
            ) && #[trigger] text::reads(clocks, b.clocks()) && rate_line(b) == "    "@
                + text::right_aligned(rate, 4) + " kbit/s   brp "@ + text::right_aligned(brp, 3)
                + "  tseg1 "@ + text::right_aligned(tseg1, 2) + "  tseg2 "@ + tseg2 + "  ->  "@
                + text::right_aligned(clocks, 4) + " clocks/bit\n"@,
{
    text::law_written_numbers_read(b.rate() as int, 0, true);
    text::law_written_numbers_read(b.fields().0 as int, 0, true);
    text::law_written_numbers_read(b.fields().1 as int, 0, true);
    text::law_written_numbers_read(b.fields().2 as int, 0, true);
    crate::protocol::timing::law_bit_rates_are_exact(b);
    text::law_written_numbers_read(b.clocks(), 0, true);
    let rate = text::decimal(b.rate() as nat);
    let brp = text::decimal(b.fields().0 as nat);
    let tseg1 = text::decimal(b.fields().1 as nat);
    let tseg2 = text::decimal(b.fields().2 as nat);
    let clocks = text::decimal(b.clocks() as nat);
    assert(text::reads(rate, b.rate() as int) && text::reads(brp, b.fields().0 as int)
        && text::reads(tseg1, b.fields().1 as int) && text::reads(tseg2, b.fields().2 as int)
        && text::reads(clocks, b.clocks()));
}

/// The description of an adapter names its index, model, product, number of channels
/// and identification, and then lists its endpoints and the rates.
pub proof fn law_device_text(index: usize, adapter: DeviceState, endpoints: Seq<EndpointInfo>)
    ensures
        exists|i: Seq<char>, p: Seq<char>| #[trigger]
            text::reads(i, index as int) && #[trigger] text::reads_hex(p, adapter.pid as nat, 4)
                && device_text(index, adapter, endpoints) == "Adapter "@ + i
                + "\n  model            "@ + device::model_name(adapter.pid)
                + "\n  product id       0x"@ + p + "\n  channels         "@ + (if adapter.pid
                == 0x1261 {
                seq!['2']
            } else {
                seq!['1']
            }) + "\n  identification   "@ + identification_text(adapter.identification)
                + "\n\n  endpoints\n"@ + endpoint_lines(endpoints)
                + "\n  bit timing table (controller clock "@ + seq!['3', '6'] + " MHz)\n"@
                + rate_lines(Bitrate::ALL@),
{
    text::law_written_numbers_read(index as int, 0, true);
    text::law_written_numbers_read(adapter.pid as int, 4, false);
    let i = text::decimal(index as nat);
    let p = text::hexadecimal(adapter.pid as nat, 4, false);
    assert(text::reads(i, index as int) && text::reads_hex(p, adapter.pid as nat, 4));
    reveal_with_fuel(text::decimal, 2);
    assert(text::decimal(1) =~= seq!['1'] && text::decimal(2) =~= seq!['2']);
    assert(text::decimal(36) =~= seq!['3', '6']);
}

/// The identification is shown byte by byte, or as missing.
pub proof fn law_identification_text(identification: Seq<u8>, i: int)
    requires
        0 <= i < identification.len(),
    ensures
        identification_text(Seq::<u8>::empty()) == "(no response)"@,
        identification_text(identification).len() == 3 * identification.len() - 1,
        text::number(identification_text(identification).subrange(3 * i, 3 * i + 2), 16) == Some(
            identification[i] as nat,
        ),
        i + 1 < identification.len() ==> identification_text(identification)[3 * i + 2] == ' ',
{
    reveal_strlit(" ");
    text::law_hex_list_entries(identification, " "@, i);
    let list = text::hex_list(identification, " "@);
    let k = 2 + " "@.len() as int;
    let n = identification.len() as int;
    assert(k == 3);
    assert(n * k == 3 * n && i * k == 3 * i) by (nonlinear_arith)
        requires
            k == 3,
    ;
    if i + 1 < identification.len() {
        assert(list.subrange(3 * i + 2, 3 * i + 3)[0] == list[3 * i + 2]);
    }
}

} // verus!

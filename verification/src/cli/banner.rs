//! What is printed when an SLCAN bridge comes up.

use vstd::prelude::*;

use crate::protocol::Bitrate;
use crate::text;

verus! {

/// The text printed when the bridge for `channel` is up at `path`.
pub open spec fn bridge_banner(channel: u8, path: Seq<char>, bitrate: Bitrate) -> Seq<char> {
    "SLCAN bridge for channel "@ + text::decimal(channel as nat) + " is up.\n\n  device   "@ + path
        + "\n  bitrate  "@ + bitrate.text()
        + " (a client may change it with an S command)\n\npython-can:\n  can.Bus(interface=\"slcan\", channel=\""@
        + path + "\", bitrate="@ + text::decimal((bitrate.rate() * 1000) as nat)
        + ")\n\nPress Ctrl-C to stop.\n"@
}

/// The text printed when the bridge for `channel` is up at `path`.
pub fn describe_bridge(channel: u8, path: &str, bitrate: Bitrate) -> (s: String)
    ensures
        s@ == bridge_banner(channel, path@, bitrate),
{
    let mut s = String::new();
    s.append("SLCAN bridge for channel ");
    text::push_decimal(&mut s, channel as u64);
    s.append(" is up.\n\n  device   ");
    s.append(path);
    s.append("\n  bitrate  ");
    s.append(bitrate.to_string().as_str());
    s.append(
        " (a client may change it with an S command)\n\npython-can:\n  can.Bus(interface=\"slcan\", channel=\"",
    );
    s.append(path);
    s.append("\", bitrate=");
    text::push_decimal(&mut s, bitrate.kbps() as u64 * 1000);
    s.append(")\n\nPress Ctrl-C to stop.\n");
    assert(s@ =~= bridge_banner(channel, path@, bitrate));
    s
}

/// The announcement names the channel, the path, twice, and the rate: in words, and in
/// bit/s for a client.
pub proof fn law_banner_names_the_values(channel: u8, path: Seq<char>, bitrate: Bitrate)
    ensures
        exists|c: Seq<char>, r: Seq<char>| #[trigger]
            text::reads(c, channel as int) && #[trigger] text::reads(r, bitrate.rate() * 1000)
                && bridge_banner(channel, path, bitrate) == "SLCAN bridge for channel "@ + c
                + " is up.\n\n  device   "@ + path + "\n  bitrate  "@ + bitrate.text()
                + " (a client may change it with an S command)\n\npython-can:\n  can.Bus(interface=\"slcan\", channel=\""@
                + path + "\", bitrate="@ + r + ")\n\nPress Ctrl-C to stop.\n"@,
{
    text::law_written_numbers_read(channel as int, 0, true);
    text::law_written_numbers_read(bitrate.rate() * 1000, 0, true);
}

} // verus!

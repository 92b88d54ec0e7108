//! The library behind the `embedded-can` traits.

use embedded_can::{ExtendedId, Frame, Id, StandardId};
use usbcan_2eu::attach::{AttachAction, AttachProgress, AttachReply};
use usbcan_2eu::embedded_can_impl::{split_id, Poll};
use usbcan_2eu::protocol::{pack_frame, parse_rx_chunk};
use usbcan_2eu::{CanChannel, CanFrame, Device, Error, FrameId, RxChunk};

/// A frame as the traits see it.
struct F(CanFrame);

fn to_frame_id(id: Id) -> FrameId {
    match id {
        Id::Standard(s) => FrameId::Standard(s.as_raw()),
        Id::Extended(e) => FrameId::Extended(e.as_raw()),
    }
}

impl Frame for F {
    fn new(id: impl Into<Id>, data: &[u8]) -> Option<Self> {
        CanFrame::new_with_id(to_frame_id(id.into()), data).map(F)
    }

    fn new_remote(id: impl Into<Id>, dlc: usize) -> Option<Self> {
        CanFrame::new_remote_with_id(to_frame_id(id.into()), dlc).map(F)
    }

    fn is_extended(&self) -> bool {
        self.0.is_extended()
    }

    fn is_remote_frame(&self) -> bool {
        self.0.is_remote_frame()
    }

    fn id(&self) -> Id {
        match self.0.id() {
            FrameId::Standard(raw) => Id::Standard(StandardId::new(raw).unwrap()),
            FrameId::Extended(raw) => Id::Extended(ExtendedId::new(raw).unwrap()),
        }
    }

    fn dlc(&self) -> usize {
        self.0.dlc()
    }

    fn data(&self) -> &[u8] {
        self.0.data()
    }
}

#[test]
fn standard_frame_roundtrip() {
    let id = StandardId::new(0x123).unwrap();
    let f = <F as Frame>::new(Id::Standard(id), &[1, 2, 3]).unwrap();
    assert!(!f.is_extended());
    assert!(f.is_standard());
    assert_eq!(f.dlc(), 3);
    assert_eq!(f.data(), &[1, 2, 3]);
    assert_eq!(f.id(), Id::Standard(id));
}

#[test]
fn extended_frame_roundtrip() {
    let id = ExtendedId::new(0x1abc_def0).unwrap();
    let f = <F as Frame>::new(Id::Extended(id), &[]).unwrap();
    assert!(f.is_extended());
    assert_eq!(f.dlc(), 0);
    assert_eq!(f.id(), Id::Extended(id));
}

#[test]
fn remote_frame() {
    let id = StandardId::new(0x7ff).unwrap();
    let f = <F as Frame>::new_remote(Id::Standard(id), 4).unwrap();
    assert!(f.is_remote_frame());
    assert!(!f.is_data_frame());
    assert_eq!(f.dlc(), 4);
}

#[test]
fn oversized_payload_is_rejected() {
    assert!(<F as Frame>::new(Id::Standard(StandardId::ZERO), &[0u8; 9]).is_none());
    assert!(<F as Frame>::new_remote(Id::Standard(StandardId::ZERO), 9).is_none());
}

#[test]
fn identifiers_are_checked_against_their_range() {
    assert_eq!(FrameId::standard(0x7ff), Some(FrameId::Standard(0x7ff)));
    assert_eq!(FrameId::standard(0x800), None);
    assert_eq!(
        FrameId::extended(0x1fff_ffff),
        Some(FrameId::Extended(0x1fff_ffff))
    );
    assert_eq!(FrameId::extended(0x2000_0000), None);
    assert_eq!(split_id(FrameId::Standard(0x123)), (0x123, false));
    assert_eq!(split_id(FrameId::Extended(5)), (5, true));
}

#[test]
fn identifier_out_of_range_reads_as_zero() {
    assert_eq!(
        CanFrame::new(0xffff_ffff, true, &[]).id(),
        FrameId::Extended(0)
    );
    assert_eq!(CanFrame::new(0x800, false, &[]).id(), FrameId::Standard(0));
    // Of a standard identifier the low 16 bits count.
    assert_eq!(
        CanFrame::new(0x1_0123, false, &[]).id(),
        FrameId::Standard(0x123)
    );
}

fn adapter(pid_is_2e: bool) -> Device {
    let services = if pid_is_2e {
        [vec![1], vec![]]
    } else {
        [vec![], vec![1]]
    };
    let mut attach = Device::open_first(Device::list(&services)).1.unwrap();
    loop {
        let reply = match attach.action() {
            AttachAction::FindChild { .. } => AttachReply::Found(2),
            _ => AttachReply::Done,
        };
        match attach.answered(reply).unwrap() {
            AttachProgress::Next(next) => attach = next,
            AttachProgress::Ready(device) => return device,
        }
    }
}

/// A batch of frames with the given identifiers and channels.
fn batch(frames: &[(u32, u8)]) -> RxChunk {
    let mut bytes = Vec::new();
    for &(id, channel) in frames {
        let mut f = CanFrame::new(id, false, &[]);
        f.channel = channel;
        bytes.extend_from_slice(&pack_frame(&f));
    }
    parse_rx_chunk(&bytes)
}

#[test]
fn channel_hands_out_its_frames_in_order() {
    let device = adapter(true);
    let mut can = CanChannel::new(&device, 1);
    assert_eq!(can.channel(), 1);
    let Poll::Read(x) = can.receive() else {
        panic!("nothing is buffered yet");
    };
    assert_eq!((x.read.endpoint, x.read.timeout_ms), (0x85, 1000));
    let first = can
        .polled(Ok(batch(&[(1, 1), (2, 0), (3, 1), (4, 1)])))
        .unwrap();
    assert_eq!(first.id, 1);
    for id in [3, 4] {
        let Poll::Frame(f) = can.receive() else {
            panic!("a frame is buffered");
        };
        assert_eq!(f.id, id);
    }
    assert!(matches!(can.receive(), Poll::Read(_)));
}

#[test]
fn channel_without_frames_times_out() {
    let device = adapter(true);
    let mut can = CanChannel::new(&device, 0);
    can.set_poll_timeout_ms(50);
    assert!(matches!(
        can.polled(Ok(batch(&[(7, 1)]))),
        Err(Error::Timeout { ms: 50 })
    ));
    assert!(matches!(
        can.polled(Err(Error::Protocol("odd"))),
        Err(Error::Protocol("odd"))
    ));
    let Poll::Read(x) = can.receive() else {
        panic!("frames of the other channel are not buffered");
    };
    assert_eq!(x.read.timeout_ms, 50);
}

#[test]
fn channel_transmits_on_its_own_channel() {
    let device = adapter(true);
    let can = CanChannel::new(&device, 1);
    let x = can.transmit(&CanFrame::new(0x55, false, &[1])).unwrap();
    assert_eq!(x.write.data[4], 1);
    let single = adapter(false);
    let can = CanChannel::new(&single, 1);
    assert!(matches!(
        can.transmit(&CanFrame::default()),
        Err(Error::InvalidChannel(1))
    ));
}

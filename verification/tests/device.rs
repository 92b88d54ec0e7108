//! The adapter: transfers, operations, and how it is found and opened.

use usbcan_2eu::attach::{
    find_interface_child, find_interface_service, find_services, open_host_device,
    open_host_interface, open_pipe, Attach, AttachAction, AttachProgress, AttachReply,
    RegistryChild, AUX_ENDPOINTS, DATA_PIPES,
};
use usbcan_2eu::device::StartStep;
use usbcan_2eu::protocol::{pack_frame, parse_ctrl_resp, parse_rx_chunk};
use usbcan_2eu::transfer::{
    bulk_in, bulk_out, copy_out, error_code, interrupt_in_timeout, interrupt_out, is_aborted,
    is_timeout, nserror_to_error, UsbFault,
};
use usbcan_2eu::{
    Bitrate, CanFrame, ChannelMode, CtrlResp, Device, DeviceInfo, EndpointInfo, Error,
};

const TIMEOUT: i64 = -536870186;
const ABORTED: i64 = -536870165;

fn fault(code: i64) -> UsbFault {
    UsbFault {
        code,
        domain: "IOUSBHostErrorDomain".to_string(),
        description: "it broke".to_string(),
    }
}

// ───────────────────────── Transfers ─────────────────────────

#[test]
fn faults_are_reported_with_their_context() {
    assert_eq!(
        nserror_to_error(&fault(-536870208), "bulk IN").to_string(),
        "USB error (-536870208): bulk IN: [IOUSBHostErrorDomain -536870208] it broke"
    );
}

#[test]
fn code_is_the_low_half() {
    assert_eq!(error_code(&fault(TIMEOUT)), -536870186);
    assert_eq!(error_code(&fault(0xE000_02D6)), -536870186);
    assert_eq!(error_code(&fault(0x1_0000_0007)), 7);
    assert_eq!(error_code(&fault(-1)), -1);
}

#[test]
fn timeout_and_abort_codes() {
    assert!(is_timeout(&fault(TIMEOUT)));
    assert!(!is_timeout(&fault(ABORTED)));
    assert!(is_aborted(&fault(ABORTED)));
    assert!(is_aborted(&fault(TIMEOUT)));
    assert!(!is_aborted(&fault(0)));
}

#[test]
fn ends_of_writes() {
    assert!(bulk_out(Ok(3), 100).is_ok());
    assert!(matches!(
        bulk_out(Err(fault(TIMEOUT)), 100),
        Err(Error::Timeout { ms: 100 })
    ));
    assert!(matches!(
        bulk_out(Err(fault(ABORTED)), 100),
        Err(Error::Usb { message, .. }) if message.starts_with("bulk OUT: ")
    ));
    assert!(interrupt_out(Ok(64)).is_ok());
    assert!(matches!(
        interrupt_out(Err(fault(TIMEOUT))),
        Err(Error::Usb { message, .. }) if message.starts_with("interrupt OUT: ")
    ));
}

#[test]
fn ends_of_reads() {
    assert_eq!(bulk_in(Ok(vec![1, 2, 3]), 2, 100).unwrap(), vec![1, 2]);
    assert_eq!(bulk_in(Ok(vec![1, 2, 3]), 9, 100).unwrap(), vec![1, 2, 3]);
    assert!(matches!(
        bulk_in(Err(fault(TIMEOUT)), 9, 100),
        Err(Error::Timeout { ms: 100 })
    ));
    assert!(matches!(
        bulk_in(Err(fault(ABORTED)), 9, 100),
        Err(Error::Usb { message, .. }) if message.starts_with("bulk IN: ")
    ));
    assert_eq!(interrupt_in_timeout(Ok(vec![5]), 64, 7).unwrap(), vec![5]);
    assert!(matches!(
        interrupt_in_timeout(Err(fault(ABORTED)), 64, 7),
        Err(Error::Timeout { ms: 7 })
    ));
    assert!(matches!(
        interrupt_in_timeout(Err(fault(1)), 64, 7),
        Err(Error::Usb { code: 1, message }) if message.starts_with("interrupt IN: ")
    ));
}

#[test]
fn copying_out_stops_at_the_shorter() {
    let mut buf = [9u8; 4];
    assert_eq!(copy_out(&[1, 2], &mut buf), 2);
    assert_eq!(buf, [1, 2, 9, 9]);
    assert_eq!(copy_out(&[1, 2, 3, 4, 5], &mut buf), 4);
    assert_eq!(buf, [1, 2, 3, 4]);
}

// ───────────────────────── Finding an adapter ─────────────────────────

#[test]
fn adapters_are_listed_two_channel_models_first() {
    let found = Device::list(&[vec![10, 11], vec![20]]);
    assert_eq!(
        found,
        vec![
            DeviceInfo {
                vid: 0x0471,
                pid: 0x1261,
                service: 10
            },
            DeviceInfo {
                vid: 0x0471,
                pid: 0x1261,
                service: 11
            },
            DeviceInfo {
                vid: 0x0471,
                pid: 0x1260,
                service: 20
            },
        ]
    );
    assert_eq!((found[0].model(), found[0].channel_count()), ("USBCAN-2E-U", 2));
    assert_eq!((found[2].model(), found[2].channel_count()), ("USBCAN-E-U", 1));
    let odd = DeviceInfo {
        vid: 0x0471,
        pid: 0x9999,
        service: 1,
    };
    assert_eq!((odd.model(), odd.channel_count()), ("unknown", 1));
}

#[test]
fn opening_releases_all_other_adapters() {
    let found = Device::list(&[vec![10, 11], vec![20]]);
    let (released, attach) = Device::open(found.clone(), 1);
    assert_eq!(released, vec![10, 20]);
    assert_eq!(attach.unwrap().target(), found[1]);
    let (released, attach) = Device::open(found, 3);
    assert_eq!(released, vec![10, 11, 20]);
    assert!(matches!(
        attach,
        Err(Error::DeviceNotFound {
            vid: 0x0471,
            pid: 0x1261
        })
    ));
    assert!(matches!(
        Device::open_first(vec![]).1,
        Err(Error::DeviceNotFound { .. })
    ));
}

#[test]
fn lookups_report_what_failed() {
    assert_eq!(find_services(0, vec![4, 5]).unwrap(), vec![4, 5]);
    assert_eq!(
        find_services(-536870206, vec![]).unwrap_err().to_string(),
        "initialization failure: IOServiceGetMatchingServices failed (0xe00002c2)"
    );
    assert_eq!(find_interface_service(0, 9, 0x0471, 0x1261, 0).unwrap(), 9);
    assert_eq!(
        find_interface_service(5, 9, 0x0471, 0x1261, 0)
            .unwrap_err()
            .to_string(),
        "initialization failure: IOServiceGetMatchingServices for interface failed (0x5)"
    );
    assert_eq!(
        find_interface_service(0, 0, 0x0471, 0x1261, 0)
            .unwrap_err()
            .to_string(),
        "initialization failure: no USB interface for VID 0x0471 PID 0x1261 interface 0"
    );
}

#[test]
fn nodes_that_do_not_open() {
    assert!(open_host_device(true, None).is_ok());
    assert_eq!(
        open_host_device(false, None).unwrap_err().to_string(),
        "initialization failure: IOUSBHostDevice initialization returned nil"
    );
    assert!(matches!(
        open_host_device(false, Some(fault(3))),
        Err(Error::Usb { code: 3, message }) if message.starts_with("open USB device: ")
    ));
    assert!(open_host_interface(true, None).is_ok());
    assert_eq!(
        open_host_interface(false, None).unwrap_err().to_string(),
        "initialization failure: IOUSBHostInterface initialization returned nil"
    );
    assert!(matches!(
        open_host_interface(false, Some(fault(3))),
        Err(Error::Usb { code: 3, message }) if message.starts_with("open USB interface: ")
    ));
}

#[test]
fn pipes_that_do_not_open() {
    assert!(open_pipe(Ok(()), 0x85).is_ok());
    for code in [-536870206i64, -536870212] {
        assert!(matches!(
            open_pipe(Err(fault(code)), 0x85),
            Err(Error::MissingEndpoint { addr: 0x85 })
        ));
    }
    assert!(matches!(
        open_pipe(Err(fault(8)), 0x05),
        Err(Error::Usb { code: 8, message }) if message.starts_with("open pipe 0x05: ")
    ));
}

#[test]
fn interface_child_is_the_first_with_the_number() {
    let child = |service: u32, is_interface: bool, number: Option<u8>| RegistryChild {
        service,
        is_interface,
        number,
    };
    let children = [
        child(1, false, Some(0)),
        child(2, true, None),
        child(3, true, Some(1)),
        child(4, true, Some(0)),
        child(5, true, Some(0)),
    ];
    assert_eq!(
        find_interface_child(&children, 0),
        (Some(4), vec![1, 2, 3, 5])
    );
    assert_eq!(
        find_interface_child(&children, 7),
        (None, vec![1, 2, 3, 4, 5])
    );
}

// ───────────────────────── Opening it ─────────────────────────

fn attach(pid_is_2e: bool) -> Attach {
    let services = if pid_is_2e {
        [vec![77], vec![]]
    } else {
        [vec![], vec![77]]
    };
    Device::open(Device::list(&services), 0).1.unwrap()
}

/// Run an attach to its end. `child_at` says at which attempt the interface shows.
fn run(
    mut attach: Attach,
    child_at: Option<usize>,
    fallback: bool,
    missing_pipe: Option<u8>,
    probe: Option<&[u8]>,
) -> (Vec<String>, Result<Device, Error>) {
    let mut log = Vec::new();
    let mut lookups = 0;
    loop {
        let reply = match attach.action() {
            AttachAction::OpenDevice { service } => {
                log.push(format!("device {service}"));
                AttachReply::Done
            }
            AttachAction::Configure {
                value,
                match_interfaces,
            } => {
                log.push(format!("configure {value} {match_interfaces}"));
                AttachReply::Failed(Error::Timeout { ms: 1 })
            }
            AttachAction::FindChild { service, number } => {
                lookups += 1;
                if child_at == Some(lookups) {
                    log.push(format!("child of {service} number {number} after {lookups}"));
                    AttachReply::Found(88)
                } else {
                    AttachReply::NotFound
                }
            }
            AttachAction::Sleep { ms } => {
                assert_eq!(ms, 50);
                AttachReply::Done
            }
            AttachAction::FindService { vid, pid, number } => {
                log.push(format!("fallback {vid:04x} {pid:04x} {number} after {lookups}"));
                if fallback {
                    AttachReply::Found(99)
                } else {
                    AttachReply::Failed(Error::Timeout { ms: 1 })
                }
            }
            AttachAction::OpenInterface { service } => {
                log.push(format!("interface {service}"));
                AttachReply::Done
            }
            AttachAction::OpenPipe { address } => {
                log.push(format!("pipe {address:02x}"));
                if missing_pipe == Some(address) {
                    AttachReply::Failed(Error::MissingEndpoint { addr: address })
                } else {
                    AttachReply::Done
                }
            }
            AttachAction::Identify(x) => {
                assert_eq!(x.write.endpoint, 0x04);
                assert_eq!(&x.write.data[..6], &[0x7e, 0x01, 0x01, 0x00, 0x01, 0x7f]);
                assert_eq!((x.read.endpoint, x.read.room), (0x84, 64));
                assert_eq!(x.read.timeout_ms, 2000);
                match probe {
                    Some(bytes) => AttachReply::Answered(x.received(Ok(bytes.to_vec())).unwrap()),
                    None => AttachReply::Failed(Error::Timeout { ms: 2000 }),
                }
            }
        };
        match attach.answered(reply) {
            Ok(AttachProgress::Next(next)) => attach = next,
            Ok(AttachProgress::Ready(device)) => return (log, Ok(device)),
            Err(e) => return (log, Err(e)),
        }
    }
}

#[test]
fn attach_runs_through_all_steps() {
    let (log, device) = run(
        attach(true),
        Some(3),
        false,
        None,
        Some(&[0x7e, 0x01, 0x02, 0x00, 0x71, 0x04]),
    );
    assert_eq!(
        log,
        vec![
            "device 77",
            "configure 1 true",
            "child of 77 number 0 after 3",
            "interface 88",
            "pipe 04",
            "pipe 84",
            "pipe 02",
            "pipe 82",
            "pipe 85",
            "pipe 01",
            "pipe 81",
            "pipe 05",
        ]
    );
    let device = device.unwrap();
    assert_eq!(device.product_id(), 0x1261);
    assert_eq!(device.model(), "USBCAN-2E-U");
    assert_eq!(device.channel_count(), 2);
    assert_eq!(device.identification(), &[0x71, 0x04]);
    assert_eq!(device.ctrl_timeout_ms(), 2000);
}

#[test]
fn attach_falls_back_after_twenty_lookups() {
    let (log, device) = run(attach(false), None, true, None, None);
    assert!(log.contains(&"fallback 0471 1260 0 after 20".to_string()));
    assert!(log.contains(&"interface 99".to_string()));
    let device = device.unwrap();
    assert!(device.identification().is_empty());
    assert_eq!(device.channel_count(), 1);
    let (_, device) = run(attach(true), None, false, None, None);
    assert_eq!(
        device.unwrap_err().to_string(),
        "initialization failure: the device exposes no USB interface; unplug and reattach it"
    );
}

#[test]
fn attach_needs_the_data_pipes_but_not_the_others() {
    for address in DATA_PIPES {
        let (_, device) = run(attach(true), Some(1), false, Some(address), None);
        assert!(matches!(
            device,
            Err(Error::MissingEndpoint { addr }) if addr == address
        ));
    }
    for address in AUX_ENDPOINTS {
        let (_, device) = run(attach(true), Some(1), false, Some(address), None);
        assert!(device.is_ok());
    }
}

#[test]
fn attach_fails_if_a_node_does_not_open() {
    let failed = attach(true).answered(AttachReply::Failed(Error::Timeout { ms: 9 }));
    assert!(matches!(failed, Err(Error::Timeout { ms: 9 })));
}

#[test]
fn isochronous_endpoints_are_never_opened() {
    for address in DATA_PIPES.iter().chain(AUX_ENDPOINTS.iter()) {
        assert!(*address != 0x03 && *address != 0x83);
    }
}

// ───────────────────────── Operations ─────────────────────────

fn device(two_channels: bool) -> Device {
    run(attach(two_channels), Some(1), false, None, None).1.unwrap()
}

fn accepted(cmd: u8) -> Result<CtrlResp, Error> {
    parse_ctrl_resp(&[0x7e, cmd, 0x00, 0x00], cmd)
}

fn rejected(cmd: u8) -> Result<CtrlResp, Error> {
    parse_ctrl_resp(&[0x7e, cmd, 0x80, 0x00], cmd)
}

#[test]
fn start_sends_four_commands() {
    let d = device(true);
    let mut sequence = d
        .start_channel(1, Bitrate::Kbps250, ChannelMode::Normal)
        .unwrap();
    let expected: [(StartStep, &[u8]); 4] = [
        (StartStep::Stop, &[0x7e, 0x24, 2, 0, 2, 0x00]),
        (
            StartStep::Init,
            &[0x7e, 0x02, 7, 0, 1, 2, 1, 0, 0x18, 0, 0],
        ),
        (
            StartStep::Timing,
            &[0x7e, 0x23, 6, 0, 2, 0x80, 0x08, 0x00, 0x1c, 0x00],
        ),
        (StartStep::Start, &[0x7e, 0x24, 2, 0, 2, 0x80]),
    ];
    for (i, (step, head)) in expected.iter().enumerate() {
        assert_eq!(sequence.step(), *step);
        let x = sequence.exchange();
        assert_eq!(&x.write.data[..head.len()], *head);
        assert_eq!(x.write.timeout_ms, None);
        assert!(x.read.watchdog);
        let next = sequence.answered(accepted(x.cmd)).unwrap();
        match next {
            Some(n) => sequence = n,
            None => assert_eq!(i, 3),
        }
    }
}

/// Run a start with these answers.
fn start_with(answers: Vec<Result<CtrlResp, Error>>) -> Result<(), Error> {
    let mut sequence = device(true)
        .start_channel(0, Bitrate::Kbps500, ChannelMode::Passive)
        .unwrap();
    for answer in answers {
        match sequence.answered(answer)? {
            Some(next) => sequence = next,
            None => return Ok(()),
        }
    }
    panic!("the start did not end");
}

#[test]
fn start_ignores_a_failed_stop_and_a_refused_init() {
    assert!(start_with(vec![
        Err(Error::Timeout { ms: 2000 }),
        rejected(0x02),
        accepted(0x23),
        accepted(0x24),
    ])
    .is_ok());
    assert!(start_with(vec![
        rejected(0x24),
        accepted(0x02),
        accepted(0x23),
        accepted(0x24),
    ])
    .is_ok());
}

#[test]
fn start_fails_with_the_first_failure() {
    assert!(matches!(
        start_with(vec![accepted(0x24), Err(Error::Timeout { ms: 3 })]),
        Err(Error::Timeout { ms: 3 })
    ));
    assert!(matches!(
        start_with(vec![accepted(0x24), accepted(0x02), rejected(0x23)]),
        Err(Error::Rejected { cmd: 0x23, .. })
    ));
    assert!(matches!(
        start_with(vec![
            accepted(0x24),
            accepted(0x02),
            accepted(0x23),
            rejected(0x24)
        ]),
        Err(Error::Rejected { cmd: 0x24, .. })
    ));
}

#[test]
fn channels_the_adapter_lacks_are_invalid() {
    let d = device(false);
    assert!(d
        .start_channel(0, Bitrate::Kbps500, ChannelMode::Normal)
        .is_ok());
    assert!(matches!(
        d.start_channel(1, Bitrate::Kbps500, ChannelMode::Normal),
        Err(Error::InvalidChannel(1))
    ));
    assert!(matches!(d.stop_channel(1), Err(Error::InvalidChannel(1))));
    assert!(matches!(
        d.transmit(1, &[CanFrame::default()]),
        Err(Error::InvalidChannel(1))
    ));
    assert!(matches!(
        device(true).stop_channel(2),
        Err(Error::InvalidChannel(2))
    ));
}

#[test]
fn stop_sends_one_command() {
    let mut d = device(true);
    d.set_ctrl_timeout_ms(123);
    let x = d.stop_channel(0).unwrap();
    assert_eq!(&x.write.data[..6], &[0x7e, 0x24, 2, 0, 1, 0x00]);
    assert_eq!(x.read.timeout_ms, 123);
}

#[test]
fn control_exchange_ends() {
    let x = device(true).send_ctrl(0x2c, &[1, 2]);
    assert_eq!(&x.write.data[..6], &[0x7e, 0x2c, 2, 0, 1, 2]);
    assert!(x.sent(Ok(64)).is_ok());
    assert!(x.sent(Err(fault(1))).is_err());
    assert!(matches!(
        x.received(Ok(vec![])),
        Err(Error::Timeout { ms: 2000 })
    ));
    assert!(matches!(
        x.received(Err(fault(ABORTED))),
        Err(Error::Timeout { ms: 2000 })
    ));
    assert!(matches!(
        x.received(Ok(vec![0x7e, 0x2d, 0, 0])),
        Err(Error::Protocol(_))
    ));
    assert_eq!(
        x.received(Ok(vec![0x7e, 0x2c, 1, 0, 9])).unwrap().bytes(),
        &[9]
    );
}

#[test]
fn transmit_exchange_ends() {
    let d = device(true);
    let frame = CanFrame::new(0x123, false, &[1, 2, 3, 4]);
    let x = d.transmit(1, &[frame]).unwrap();
    assert_eq!(x.write.endpoint, 0x02);
    assert_eq!(x.write.timeout_ms, Some(2000));
    assert_eq!(x.write.data.len(), 80);
    assert_eq!(&x.write.data[..8], &[0x8e, 0, 1, 1, 1, 1, 0, 0]);
    assert_eq!((x.read.endpoint, x.read.room), (0x82, 64));
    assert!(!x.read.watchdog);
    assert!(x.sent(Ok(80)).is_ok());
    assert!(matches!(
        x.sent(Err(fault(TIMEOUT))),
        Err(Error::Timeout { ms: 2000 })
    ));
    assert!(x
        .received(Ok(vec![0x0e, 0x81, 0x04, 0x00, 0x8b]))
        .unwrap()
        .is_success());
    assert!(matches!(
        x.received(Ok(vec![])),
        Err(Error::Timeout { ms: 2000 })
    ));
    assert!(matches!(
        x.received(Ok(vec![0x0e])),
        Err(Error::Protocol(_))
    ));
}

#[test]
fn transmit_takes_one_to_127_frames() {
    let d = device(true);
    assert!(matches!(
        d.transmit(0, &[]),
        Err(Error::Protocol("transmit called with no frames"))
    ));
    let frames = vec![CanFrame::default(); 128];
    assert!(matches!(
        d.transmit(0, &frames),
        Err(Error::Protocol("too many frames for one transmit packet"))
    ));
    assert!(d.transmit(0, &frames[..127]).is_ok());
}

#[test]
fn receive_decodes_one_batch() {
    let d = device(true);
    let x = d.receive(200);
    assert_eq!((x.read.endpoint, x.read.room), (0x85, 6144));
    assert_eq!(x.read.timeout_ms, 200);
    let record = pack_frame(&CanFrame::new(0x42, false, &[7]));
    let chunk = x.received(Ok(record.to_vec())).unwrap();
    assert_eq!(chunk.frames, parse_rx_chunk(&record).frames);
    assert!(matches!(
        x.received(Err(fault(TIMEOUT))),
        Err(Error::Timeout { ms: 200 })
    ));
    assert!(matches!(
        x.received(Err(fault(4))),
        Err(Error::Usb { code: 4, .. })
    ));
}

#[test]
fn receive_raw_copies_the_bytes() {
    let d = device(true);
    let x = d.receive_raw(3, 10);
    let mut buf = [0u8; 5];
    assert_eq!(x.received_raw(Ok(vec![1, 2, 3, 4]), &mut buf).unwrap(), 3);
    assert_eq!(buf, [1, 2, 3, 0, 0]);
    assert!(matches!(
        x.received_raw(Err(fault(TIMEOUT)), &mut buf),
        Err(Error::Timeout { ms: 10 })
    ));
    assert_eq!(buf, [1, 2, 3, 0, 0]);
}

#[test]
fn endpoint_words() {
    let ep = |transfer_type: u8, direction: u8| EndpointInfo {
        address: 0x81,
        number: 1,
        direction,
        transfer_type,
        max_packet_size: 64,
    };
    for (t, name) in [
        (0u8, "control"),
        (1, "isochronous"),
        (2, "bulk"),
        (3, "interrupt"),
        (4, "unknown"),
    ] {
        assert_eq!(ep(t, 0).transfer_type_name(), name);
    }
    assert_eq!(ep(0, 1).direction_name(), "IN");
    assert_eq!(ep(0, 0).direction_name(), "OUT");
    assert_eq!(ep(0, 2).direction_name(), "OUT");
}

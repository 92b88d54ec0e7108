//! Finding an adapter and opening it.
//!
//! # Why pipe by pipe
//!
//! The adapter exposes an isochronous endpoint pair (`0x03`/`0x83`) that it never
//! uses. Claiming the whole interface makes the kernel walk every endpoint, and on
//! macOS 26 that walk takes the machine down. Pipes are therefore opened one address
//! at a time, and the isochronous pair is never touched: see
//! [`law_isochronous_endpoints_untouched`].
//!
//! [`Device::list`] and [`Device::open`] choose an adapter; [`Attach`] is what
//! follows: it names one [`AttachAction`] after another and takes an [`AttachReply`]
//! to each, until the adapter is ready or cannot be had.

use vstd::prelude::*;

use crate::device::{
    CtrlExchange, Device, DeviceInfo, DeviceState, ReceiveExchange, TransmitExchange,
    DEFAULT_CTRL_TIMEOUT_MS,
};
use crate::error;
use crate::error::{init_failure, Error};
use crate::protocol::{
    CanFrame, CtrlCmd, CtrlResp, EP_CTRL_IN, EP_CTRL_OUT, EP_DATA_IN, EP_DATA_OUT, EP_TX_ACK_IN,
    PID_2E_U, SUPPORTED_PIDS, VID,
};
use crate::text;
use crate::transfer;
use crate::transfer::UsbFault;

verus! {

/// The pipes the driver works with, in the order in which they are opened.
pub const DATA_PIPES: [u8; 5] = [EP_CTRL_OUT, EP_CTRL_IN, EP_DATA_OUT, EP_TX_ACK_IN, EP_DATA_IN];

/// Endpoints opened at attach time, besides the five the driver actively uses.
///
/// The vendor's own userspace library opens every non-isochronous endpoint before
/// talking to the device. Doing the same avoids a class of "device stays idle"
/// failures. `0x03`/`0x83` are isochronous and deliberately absent.
pub const AUX_ENDPOINTS: [u8; 3] = [0x01, 0x81, 0x05];

/// How often the interface node is looked for before the fallback is tried.
pub const INTERFACE_ATTEMPTS: u32 = 20;

/// How long to wait before looking again.
pub const INTERFACE_WAIT_MS: u64 = 50;

// ───────────────────────── Lookups ─────────────────────────

/// Conclude the opening of one pipe by endpoint address.
pub fn open_pipe(done: Result<(), UsbFault>, addr: u8) -> (r: Result<(), Error>)
    ensures
        match done {
            Ok(_) => r is Ok,
            Err(fault) => if transfer::NO_ENDPOINT_CODES@.contains(fault.io_return()) {
                r == Err::<(), Error>(Error::MissingEndpoint { addr })
            } else {
                r matches Err(e) && fault.reported(
                    "open pipe 0x"@ + text::hexadecimal(addr as nat, 2, false),
                    e,
                )
            },
        },
{
    match done {
        Ok(()) => Ok(()),
        Err(fault) => {
            let code: i32 = transfer::error_code(&fault);
            let codes = transfer::NO_ENDPOINT_CODES;
            assert(codes@[0] == -536870206 && codes@[1] == -536870212);
            if code == codes[0] || code == codes[1] {
                return Err(Error::MissingEndpoint { addr });
            }
            let mut context = String::new();
            context.append("open pipe 0x");
            text::push_hexadecimal(&mut context, addr as u32, 2, false);
            Err(transfer::nserror_to_error(&fault, context.as_str()))
        },
    }
}

/// How an attempt to open a device or interface node ends.
pub open spec fn open_host_outcome(
    opened: bool,
    fault: Option<UsbFault>,
    context: Seq<char>,
    nil: Seq<char>,
    r: Result<(), Error>,
) -> bool {
    if opened {
        r is Ok
    } else {
        match fault {
            Some(f) => r matches Err(e) && f.reported(context, e),
            None => error::init_error(r, nil),
        }
    }
}

/// Conclude the opening of a device node.
pub fn open_host_device(opened: bool, fault: Option<UsbFault>) -> (r: Result<(), Error>)
    ensures
        open_host_outcome(
            opened,
            fault,
            "open USB device"@,
            "IOUSBHostDevice initialization returned nil"@,
            r,
        ),
{
    if opened {
        return Ok(());
    }
    match fault {
        Some(f) => Err(transfer::nserror_to_error(&f, "open USB device")),
        None => Err(init_failure("IOUSBHostDevice initialization returned nil")),
    }
}

/// Conclude the opening of an interface node.
pub fn open_host_interface(opened: bool, fault: Option<UsbFault>) -> (r: Result<(), Error>)
    ensures
        open_host_outcome(
            opened,
            fault,
            "open USB interface"@,
            "IOUSBHostInterface initialization returned nil"@,
            r,
        ),
{
    if opened {
        return Ok(());
    }
    match fault {
        Some(f) => Err(transfer::nserror_to_error(&f, "open USB interface")),
        None => Err(init_failure("IOUSBHostInterface initialization returned nil")),
    }
}

/// A return code as the number that its 32 bits stand for.
pub open spec fn code_bits(rc: i32) -> nat {
    if rc < 0 {
        (rc + 0x1_0000_0000) as nat
    } else {
        rc as nat
    }
}

/// A return code as the number that its 32 bits stand for.
fn bits_of(rc: i32) -> (bits: u32)
    ensures
        bits == code_bits(rc),
{
    if rc < 0 {
        (rc as i64 + 0x1_0000_0000) as u32
    } else {
        rc as u32
    }
}

/// Conclude a search for device nodes: `rc` is what the search returned, `services`
/// what it found.
pub fn find_services(rc: i32, services: Vec<u32>) -> (r: Result<Vec<u32>, Error>)
    ensures
        if rc == 0 {
            r == Ok::<Vec<u32>, Error>(services)
        } else {
            error::init_error(
                r,
                "IOServiceGetMatchingServices failed (0x"@ + text::hexadecimal(
                    code_bits(rc),
                    0,
                    false,
                ) + ")"@,
            )
        },
{
    if rc != 0 {
        let mut s = String::new();
        s.append("IOServiceGetMatchingServices failed (0x");
        text::push_hexadecimal(&mut s, bits_of(rc), 0, false);
        s.append(")");
        return Err(Error::Init(s));
    }
    Ok(services)
}

/// Conclude the fallback lookup of an interface node: `rc` is what the search
/// returned, `first` the first node it found, 0 if it found none.
pub fn find_interface_service(rc: i32, first: u32, vid: u16, pid: u16, iface_num: u8) -> (r:
    Result<u32, Error>)
    ensures
        if rc != 0 {
            error::init_error(
                r,
                "IOServiceGetMatchingServices for interface failed (0x"@ + text::hexadecimal(
                    code_bits(rc),
                    0,
                    false,
                ) + ")"@,
            )
        } else if first == 0 {
            error::init_error(
                r,
                "no USB interface for VID 0x"@ + text::hexadecimal(vid as nat, 4, false)
                    + " PID 0x"@ + text::hexadecimal(pid as nat, 4, false) + " interface "@
                    + text::decimal(iface_num as nat),
            )
        } else {
            r == Ok::<u32, Error>(first)
        },
{
    let mut s = String::new();
    if rc != 0 {
        s.append("IOServiceGetMatchingServices for interface failed (0x");
        text::push_hexadecimal(&mut s, bits_of(rc), 0, false);
        s.append(")");
        return Err(Error::Init(s));
    }
    if first == 0 {
        s.append("no USB interface for VID 0x");
        text::push_hexadecimal(&mut s, vid as u32, 4, false);
        s.append(" PID 0x");
        text::push_hexadecimal(&mut s, pid as u32, 4, false);
        s.append(" interface ");
        text::push_decimal(&mut s, iface_num as u64);
        return Err(Error::Init(s));
    }
    Ok(first)
}

/// One child of a device node in the IORegistry.
#[derive(Debug, Clone, Copy, PartialEq, Eq, Structural)]
pub struct RegistryChild {
    /// IOKit service handle.
    pub service: u32,
    /// Whether the node is an `IOUSBHostInterface`.
    pub is_interface: bool,
    /// Its `bInterfaceNumber`, if it has one.
    pub number: Option<u8>,
}

impl RegistryChild {
    /// Whether this is the interface with number `want`.
    pub open spec fn is_interface_number(self, want: u8) -> bool {
        self.is_interface && self.number == Some(want)
    }
}

/// The service handles of `children`.
pub open spec fn handles(children: Seq<RegistryChild>) -> Seq<u32> {
    children.map_values(|c: RegistryChild| c.service)
}

/// Find the interface child of a device node: the first of `children` that is an
/// interface with number `want`. The handles of all others are to be released.
///
/// Broader than a matching dictionary, which only sees services in `registered`
/// state, and stricter than "take the first child", which can hand back an
/// unrelated user client.
pub fn find_interface_child(children: &[RegistryChild], want: u8) -> (r: (Option<u32>, Vec<u32>))
    ensures
        match r.0 {
            Some(service) => exists|i: int|
                {
                    &&& 0 <= i < children@.len()
                    &&& #[trigger] children@[i].is_interface_number(want)
                    &&& children@[i].service == service
                    &&& forall|j: int|
                        0 <= j < i ==> !#[trigger] children@[j].is_interface_number(want)
                    &&& r.1@ == handles(children@.remove(i))
                },
            None => {
                &&& forall|j: int|
                    0 <= j < children@.len() ==> !#[trigger] children@[j].is_interface_number(want)
                &&& r.1@ == handles(children@)
            },
        },
{
    let mut released: Vec<u32> = Vec::new();
    let mut i: usize = 0;
    while i < children.len()
        invariant
            i <= children@.len(),
            released@ == handles(children@.take(i as int)),
            forall|j: int| 0 <= j < i ==> !#[trigger] children@[j].is_interface_number(want),
        decreases children@.len() - i,
    {
        if children[i].is_interface && children[i].number == Some(want) {
            let ghost found = i as int;
            assert(children@[found].is_interface_number(want));
            let service: u32 = children[i].service;
            i += 1;
            while i < children.len()
                invariant
                    0 <= found < i <= children@.len(),
                    released@ == handles(children@.take(i as int).remove(found)),
                decreases children@.len() - i,
            {
                released.push(children[i].service);
                i += 1;
                assert(released@ =~= handles(children@.take(i as int).remove(found)));
            }
            assert(children@.take(i as int) =~= children@);
            return (Some(service), released);
        }
        released.push(children[i].service);
        i += 1;
        assert(released@ =~= handles(children@.take(i as int)));
    }
    assert(children@.take(i as int) =~= children@);
    (None, released)
}

// ───────────────────────── Choosing an adapter ─────────────────────────

/// The adapters of product `pid` with the given service handles.
pub open spec fn adapters(pid: u16, services: Seq<u32>) -> Seq<DeviceInfo> {
    services.map_values(|service: u32| DeviceInfo { vid: VID, pid, service })
}

/// The service handles of `devices`.
pub open spec fn services_of(devices: Seq<DeviceInfo>) -> Seq<u32> {
    devices.map_values(|d: DeviceInfo| d.service)
}

/// Append the adapters of one product.
fn push_adapters(found: &mut Vec<DeviceInfo>, pid: u16, services: &Vec<u32>)
    ensures
        final(found)@ == old(found)@ + adapters(pid, services@),
{
    let mut i: usize = 0;
    assert(found@ =~= old(found)@ + adapters(pid, services@.take(0)));
    while i < services.len()
        invariant
            i <= services@.len(),
            found@ == old(found)@ + adapters(pid, services@.take(i as int)),
        decreases services@.len() - i,
    {
        found.push(DeviceInfo { vid: VID, pid, service: services[i] });
        i += 1;
        assert(found@ =~= old(found)@ + adapters(pid, services@.take(i as int)));
    }
    assert(services@.take(i as int) =~= services@);
}

impl Device {
    /// List attached adapters without opening any of them, given the service handles
    /// of each of [`SUPPORTED_PIDS`].
    pub fn list(services: &[Vec<u32>; 2]) -> (found: Vec<DeviceInfo>)
        ensures
            found@ == adapters(SUPPORTED_PIDS@[0], services@[0]@) + adapters(
                SUPPORTED_PIDS@[1],
                services@[1]@,
            ),
    {
        let pids = SUPPORTED_PIDS;
        let mut found: Vec<DeviceInfo> = Vec::new();
        push_adapters(&mut found, pids[0], &services[0]);
        push_adapters(&mut found, pids[1], &services[1]);
        assert(found@ =~= adapters(SUPPORTED_PIDS@[0], services@[0]@) + adapters(
            SUPPORTED_PIDS@[1],
            services@[1]@,
        ));
        found
    }

    /// Open the only attached adapter.
    ///
    /// # Errors
    ///
    /// [`Error::DeviceNotFound`] if none is attached.
    pub fn open_first(devices: Vec<DeviceInfo>) -> (r: (Vec<u32>, Result<Attach, Error>))
        ensures
            open_outcome(devices@, 0, r.0@, r.1),
    {
        Self::open(devices, 0)
    }

    /// Open the adapter at `index` within `devices`, as [`Device::list`] gave them.
    ///
    /// The first part of the result holds the service handles that are to be
    /// released: those of all adapters but the chosen one.
    ///
    /// # Errors
    ///
    /// [`Error::DeviceNotFound`] if there is no adapter at `index`.
    pub fn open(devices: Vec<DeviceInfo>, index: usize) -> (r: (Vec<u32>, Result<Attach, Error>))
        ensures
            open_outcome(devices@, index as int, r.0@, r.1),
    {
        let mut rest: Vec<DeviceInfo> = devices;
        if index >= rest.len() {
            return (
                release(rest.as_slice()),
                Err(Error::DeviceNotFound { vid: VID, pid: PID_2E_U }),
            );
        }
        let target: DeviceInfo = rest.remove(index);
        (release(rest.as_slice()), Ok(Attach { step: AttachStep::OpenDevice, target }))
    }
}

/// What opening the adapter at `index` within `devices` comes to.
pub open spec fn open_outcome(
    devices: Seq<DeviceInfo>,
    index: int,
    released: Seq<u32>,
    r: Result<Attach, Error>,
) -> bool {
    if index < devices.len() {
        &&& released == services_of(devices.remove(index))
        &&& r matches Ok(attach)
        &&& attach@ == AttachState { step: AttachStep::OpenDevice, target: devices[index] }
    } else {
        &&& released == services_of(devices)
        &&& r == Err::<Attach, Error>(Error::DeviceNotFound { vid: VID, pid: PID_2E_U })
    }
}

/// The service handles of `devices`.
fn release(devices: &[DeviceInfo]) -> (services: Vec<u32>)
    ensures
        services@ == services_of(devices@),
{
    let mut services: Vec<u32> = Vec::new();
    let mut i: usize = 0;
    while i < devices.len()
        invariant
            i <= devices@.len(),
            services@ == services_of(devices@.take(i as int)),
        decreases devices@.len() - i,
    {
        services.push(devices[i].service);
        i += 1;
        assert(services@ =~= services_of(devices@.take(i as int)));
    }
    assert(devices@.take(i as int) =~= devices@);
    services
}

// ───────────────────────── Opening it ─────────────────────────

/// How far an attach has come.
#[derive(Debug, Clone, Copy, PartialEq, Eq, Structural)]
pub enum AttachStep {
    /// The device node is to be opened.
    OpenDevice,
    /// The device is to be configured.
    Configure,
    /// The interface node is to be looked for; so many times it was not there.
    FindChild(u32),
    /// It was not there at this attempt; wait.
    Wait(u32),
    /// The interface node is to be looked for another way.
    FindService,
    /// This interface node is to be opened.
    OpenInterface(u32),
    /// The pipe at this place in [`DATA_PIPES`] is to be opened.
    OpenPipe(u8),
    /// The pipe at this place in [`AUX_ENDPOINTS`] is to be opened.
    OpenAux(u8),
    /// The adapter is to be asked to identify itself.
    Identify,
}

impl AttachStep {
    /// Whether the step is one that an attach can come to.
    pub open spec fn valid(self) -> bool {
        match self {
            AttachStep::FindChild(attempt) => attempt < INTERFACE_ATTEMPTS,
            AttachStep::Wait(attempt) => attempt < INTERFACE_ATTEMPTS,
            AttachStep::OpenPipe(i) => i < 5,
            AttachStep::OpenAux(i) => i < 3,
            _ => true,
        }
    }
}

/// What the transport is to do next.
#[derive(Debug)]
pub enum AttachAction {
    /// Open the device node `service`.
    OpenDevice {
        /// The node.
        service: u32,
    },
    /// Select configuration `value`, so that IOKit publishes the interface node. An
    /// already-configured device is left alone.
    Configure {
        /// Configuration value.
        value: u8,
        /// Whether the interface is to be registered so that later opens find it.
        match_interfaces: bool,
    },
    /// Look among the children of `service` for interface `number`.
    FindChild {
        /// The device node.
        service: u32,
        /// The interface number.
        number: u8,
    },
    /// Wait.
    Sleep {
        /// For so many milliseconds.
        ms: u64,
    },
    /// Look for interface `number` of a device by its IDs.
    FindService {
        /// USB vendor ID.
        vid: u16,
        /// USB product ID.
        pid: u16,
        /// The interface number.
        number: u8,
    },
    /// Open the interface node `service`.
    OpenInterface {
        /// The node.
        service: u32,
    },
    /// Open one pipe.
    OpenPipe {
        /// Address of its endpoint.
        address: u8,
    },
    /// Run one control exchange.
    Identify(CtrlExchange),
}

/// What came of an [`AttachAction`].
#[derive(Debug)]
pub enum AttachReply {
    /// It was done.
    Done,
    /// It failed.
    Failed(Error),
    /// It found this node.
    Found(u32),
    /// It found no node.
    NotFound,
    /// It brought this response.
    Answered(CtrlResp),
}

/// Where an attach goes from a step, given a reply.
pub enum AttachVerdict {
    /// To this step.
    Continue(AttachStep),
    /// It failed.
    Fail(Error),
    /// It failed, because the device has no interface.
    NoInterface,
    /// The adapter is ready and has this identification.
    Ready(Seq<u8>),
}

/// Where an attach goes from `step`, given a reply.
///
/// A failure to configure is usually an already-configured device and does not
/// matter. Neither does an auxiliary pipe that cannot be opened, nor an adapter that
/// does not identify itself. The interface node may take a while to appear.
pub open spec fn attach_next(step: AttachStep, reply: AttachReply) -> AttachVerdict {
    match step {
        AttachStep::OpenDevice => match reply {
            AttachReply::Failed(e) => AttachVerdict::Fail(e),
            _ => AttachVerdict::Continue(AttachStep::Configure),
        },
        AttachStep::Configure => AttachVerdict::Continue(AttachStep::FindChild(0)),
        AttachStep::FindChild(attempt) => match reply {
            AttachReply::Found(service) => AttachVerdict::Continue(
                if service != 0 {
                    AttachStep::OpenInterface(service)
                } else {
                    AttachStep::FindService
                },
            ),
            _ => AttachVerdict::Continue(AttachStep::Wait(attempt)),
        },
        AttachStep::Wait(attempt) => AttachVerdict::Continue(
            if attempt + 1 < INTERFACE_ATTEMPTS {
                AttachStep::FindChild((attempt + 1) as u32)
            } else {
                AttachStep::FindService
            },
        ),
        AttachStep::FindService => match reply {
            AttachReply::Found(service) => AttachVerdict::Continue(
                AttachStep::OpenInterface(service),
            ),
            _ => AttachVerdict::NoInterface,
        },
        AttachStep::OpenInterface(_) => match reply {
            AttachReply::Failed(e) => AttachVerdict::Fail(e),
            _ => AttachVerdict::Continue(AttachStep::OpenPipe(0)),
        },
        AttachStep::OpenPipe(i) => match reply {
            AttachReply::Failed(e) => AttachVerdict::Fail(e),
            _ => AttachVerdict::Continue(
                if i < 4 {
                    AttachStep::OpenPipe((i + 1) as u8)
                } else {
                    AttachStep::OpenAux(0)
                },
            ),
        },
        AttachStep::OpenAux(i) => AttachVerdict::Continue(
            if i < 2 {
                AttachStep::OpenAux((i + 1) as u8)
            } else {
                AttachStep::Identify
            },
        ),
        AttachStep::Identify => match reply {
            AttachReply::Answered(resp) => AttachVerdict::Ready(resp.valid_bytes()),
            _ => AttachVerdict::Ready(Seq::empty()),
        },
    }
}

/// Which adapter an [`Attach`] is about and how far it has come.
pub struct AttachState {
    /// What is to be done next.
    pub step: AttachStep,
    /// The adapter.
    pub target: DeviceInfo,
}

/// Whether `action` is what `state` asks for.
pub open spec fn asked(state: AttachState, action: AttachAction) -> bool {
    match state.step {
        AttachStep::OpenDevice => action == AttachAction::OpenDevice {
            service: state.target.service,
        },
        AttachStep::Configure => action == AttachAction::Configure {
            value: 1,
            match_interfaces: true,
        },
        AttachStep::FindChild(_) => action == AttachAction::FindChild {
            service: state.target.service,
            number: 0,
        },
        AttachStep::Wait(_) => action == AttachAction::Sleep { ms: INTERFACE_WAIT_MS },
        AttachStep::FindService => action == AttachAction::FindService {
            vid: VID,
            pid: state.target.pid,
            number: 0,
        },
        AttachStep::OpenInterface(service) => action == AttachAction::OpenInterface { service },
        AttachStep::OpenPipe(i) => action == AttachAction::OpenPipe {
            address: DATA_PIPES@[i as int],
        },
        AttachStep::OpenAux(i) => action == AttachAction::OpenPipe {
            address: AUX_ENDPOINTS@[i as int],
        },
        AttachStep::Identify => action matches AttachAction::Identify(x) && x.asks(
            CtrlCmd::Probe.command_byte(),
            seq![0x01u8],
            DEFAULT_CTRL_TIMEOUT_MS,
        ),
    }
}

/// What a reply leads to.
#[derive(Debug)]
pub enum AttachProgress {
    /// There is more to do.
    Next(Attach),
    /// The adapter is ready.
    Ready(Device),
}

/// An adapter that is being opened.
#[derive(Debug, Clone, Copy)]
pub struct Attach {
    step: AttachStep,
    target: DeviceInfo,
}

impl View for Attach {
    type V = AttachState;

    closed spec fn view(&self) -> AttachState {
        AttachState { step: self.step, target: self.target }
    }
}

impl Attach {
    #[verifier::type_invariant]
    closed spec fn step_is_valid(self) -> bool {
        self.step.valid()
    }

    /// The adapter that is being opened.
    pub fn target(&self) -> (target: DeviceInfo)
        ensures
            target == self@.target,
    {
        self.target
    }

    /// How far the attach has come.
    pub fn step(&self) -> (step: AttachStep)
        ensures
            step == self@.step,
            step.valid(),
    {
        proof {
            use_type_invariant(self);
        }
        self.step
    }

    /// What the transport is to do next.
    pub fn action(&self) -> (action: AttachAction)
        ensures
            asked(self@, action),
    {
        proof {
            use_type_invariant(self);
        }
        match self.step {
            AttachStep::OpenDevice => AttachAction::OpenDevice { service: self.target.service },
            AttachStep::Configure => AttachAction::Configure { value: 1, match_interfaces: true },
            AttachStep::FindChild(_) => AttachAction::FindChild {
                service: self.target.service,
                number: 0,
            },
            AttachStep::Wait(_) => AttachAction::Sleep { ms: INTERFACE_WAIT_MS },
            AttachStep::FindService => AttachAction::FindService {
                vid: VID,
                pid: self.target.pid,
                number: 0,
            },
            AttachStep::OpenInterface(service) => AttachAction::OpenInterface { service },
            AttachStep::OpenPipe(i) => {
                let pipes = DATA_PIPES;
                AttachAction::OpenPipe { address: pipes[i as usize] }
            },
            AttachStep::OpenAux(i) => {
                let pipes = AUX_ENDPOINTS;
                AttachAction::OpenPipe { address: pipes[i as usize] }
            },
            AttachStep::Identify => {
                let payload: [u8; 1] = [0x01];
                assert(payload@ =~= seq![0x01u8]);
                AttachAction::Identify(
                    Device::attached(self.target.pid, Vec::new()).send_ctrl(
                        CtrlCmd::Probe.code(),
                        &payload,
                    ),
                )
            },
        }
    }

    /// Take the reply to that.
    pub fn answered(self, reply: AttachReply) -> (r: Result<AttachProgress, Error>)
        ensures
            match attach_next(self@.step, reply) {
                AttachVerdict::Continue(step) => r matches Ok(AttachProgress::Next(next)) && next@
                    == (AttachState { step, ..self@ }),
                AttachVerdict::Fail(e) => r == Err::<AttachProgress, Error>(e),
                AttachVerdict::NoInterface => error::init_error(
                    r,
                    "the device exposes no USB interface; unplug and reattach it"@,
                ),
                AttachVerdict::Ready(identification) => r matches Ok(AttachProgress::Ready(device))
                    && device@ == (DeviceState {
                    pid: self@.target.pid,
                    identification,
                    ctrl_timeout_ms: DEFAULT_CTRL_TIMEOUT_MS,
                }),
            },
    {
        proof {
            use_type_invariant(&self);
        }
        let step: AttachStep = match self.step {
            AttachStep::OpenDevice => match reply {
                AttachReply::Failed(e) => return Err(e),
                _ => AttachStep::Configure,
            },
            AttachStep::Configure => AttachStep::FindChild(0),
            AttachStep::FindChild(attempt) => match reply {
                AttachReply::Found(service) => if service != 0 {
                    AttachStep::OpenInterface(service)
                } else {
                    AttachStep::FindService
                },
                _ => AttachStep::Wait(attempt),
            },
            AttachStep::Wait(attempt) => if attempt + 1 < INTERFACE_ATTEMPTS {
                AttachStep::FindChild(attempt + 1)
            } else {
                AttachStep::FindService
            },
            AttachStep::FindService => match reply {
                AttachReply::Found(service) => AttachStep::OpenInterface(service),
                _ => return Err(
                    init_failure("the device exposes no USB interface; unplug and reattach it"),
                ),
            },
            AttachStep::OpenInterface(_) => match reply {
                AttachReply::Failed(e) => return Err(e),
                _ => AttachStep::OpenPipe(0),
            },
            AttachStep::OpenPipe(i) => match reply {
                AttachReply::Failed(e) => return Err(e),
                _ => if i < 4 {
                    AttachStep::OpenPipe(i + 1)
                } else {
                    AttachStep::OpenAux(0)
                },
            },
            AttachStep::OpenAux(i) => if i < 2 {
                AttachStep::OpenAux(i + 1)
            } else {
                AttachStep::Identify
            },
            AttachStep::Identify => {
                let mut identification: Vec<u8> = Vec::new();
                match reply {
                    AttachReply::Answered(resp) => {
                        identification.extend_from_slice(resp.bytes());
                        assert(identification@ =~= resp.valid_bytes());
                    },
                    _ => {},
                }
                return Ok(AttachProgress::Ready(Device::attached(self.target.pid, identification)));
            },
        };
        Ok(AttachProgress::Next(Attach { step, ..self }))
    }
}

// ───────────────────────────── Laws ─────────────────────────────

/// The isochronous endpoints `0x03` and `0x83` are never opened: whatever an attach
/// asks for at any step it can come to, it is not one of them.
pub proof fn law_isochronous_endpoints_untouched(state: AttachState, action: AttachAction)
    requires
        state.step.valid(),
        asked(state, action),
    ensures
        action matches AttachAction::OpenPipe { address } ==> address != 0x03 && address != 0x83,
{
}

/// Every transfer of the driver goes over one of the five data pipes, so it uses no
/// pipe that an attach does not open.
pub proof fn law_transfers_use_data_pipes(
    command: CtrlExchange,
    cmd: u8,
    payload: Seq<u8>,
    transmission: TransmitExchange,
    frames: Seq<CanFrame>,
    channel: u8,
    reception: ReceiveExchange,
    timeout_ms: u32,
)
    requires
        command.asks(cmd, payload, timeout_ms),
        transmission.sends(frames, channel, timeout_ms),
        reception.read.endpoint == EP_DATA_IN,
    ensures
        DATA_PIPES@.contains(command.write.endpoint),
        DATA_PIPES@.contains(command.read.endpoint),
        DATA_PIPES@.contains(transmission.write.endpoint),
        DATA_PIPES@.contains(transmission.read.endpoint),
        DATA_PIPES@.contains(reception.read.endpoint),
{
    let pipes = DATA_PIPES@;
    assert(pipes[0] == EP_CTRL_OUT);
    assert(pipes[1] == EP_CTRL_IN);
    assert(pipes[2] == EP_DATA_OUT);
    assert(pipes[3] == EP_TX_ACK_IN);
    assert(pipes[4] == EP_DATA_IN);
}

/// An attach only comes to valid steps.
pub proof fn law_attach_steps_stay_valid(step: AttachStep, reply: AttachReply)
    requires
        step.valid(),
    ensures
        attach_next(step, reply) matches AttachVerdict::Continue(next) ==> next.valid(),
{
}

/// How many replies an attach can still take.
pub open spec fn attach_rank(step: AttachStep) -> nat {
    match step {
        AttachStep::OpenDevice => 53,
        AttachStep::Configure => 52,
        AttachStep::FindChild(attempt) => (51 - 2 * attempt) as nat,
        AttachStep::Wait(attempt) => (50 - 2 * attempt) as nat,
        AttachStep::FindService => 11,
        AttachStep::OpenInterface(_) => 10,
        AttachStep::OpenPipe(i) => (9 - i) as nat,
        AttachStep::OpenAux(i) => (4 - i) as nat,
        AttachStep::Identify => 1,
    }
}

/// An attach comes to an end: each reply leaves fewer steps than before.
pub proof fn law_attach_ends(step: AttachStep, reply: AttachReply)
    requires
        step.valid(),
    ensures
        attach_next(step, reply) matches AttachVerdict::Continue(next) ==> attach_rank(next)
            < attach_rank(step),
{
}

/// How an attach ends, given the replies so far from `step` on; `None` while there is
/// more to do.
pub open spec fn attach_run(step: AttachStep, replies: Seq<AttachReply>) -> Option<AttachVerdict>
    decreases replies.len(),
{
    if replies.len() == 0 {
        None
    } else {
        match attach_next(step, replies.first()) {
            AttachVerdict::Continue(next) => attach_run(next, replies.drop_first()),
            verdict => Some(verdict),
        }
    }
}

/// An adapter that does not answer the identification probe still works, with an
/// empty identification.
pub proof fn law_identification_is_optional(reply: AttachReply)
    ensures
        attach_next(AttachStep::Identify, reply) is Ready,
        !(reply is Answered) ==> attach_next(AttachStep::Identify, reply) == AttachVerdict::Ready(
            Seq::empty(),
        ),
{
}

/// An adapter is ready only if all five data pipes were opened: a run from the first
/// of them on that ends well got no failure for any of the five.
pub proof fn law_ready_means_pipes_open(replies: Seq<AttachReply>)
    ensures
        attach_run(AttachStep::OpenPipe(0), replies) matches Some(AttachVerdict::Ready(_)) ==> {
            &&& replies.len() >= 9
            &&& forall|i: int| 0 <= i < 5 ==> !(#[trigger] replies[i] is Failed)
        },
{
    reveal_with_fuel(attach_run, 10);
}

/// What an attach asks for at each step, in plain values: configuration 1, interface 0
/// of the device, fifty milliseconds between two looks, and the pipes `04`, `84`, `02`,
/// `82`, `85` and then `01`, `81`, `05`. The probe is command 1 with one byte, 1.
pub proof fn law_attach_actions(state: AttachState, action: AttachAction)
    requires
        state.step.valid(),
        asked(state, action),
    ensures
        match state.step {
            AttachStep::OpenDevice => action matches AttachAction::OpenDevice { service } && service
                == state.target.service,
            AttachStep::Configure => action matches AttachAction::Configure {
                value,
                match_interfaces,
            } && value == 1 && match_interfaces,
            AttachStep::FindChild(_) => action matches AttachAction::FindChild { service, number }
                && service == state.target.service && number == 0,
            AttachStep::Wait(_) => action matches AttachAction::Sleep { ms } && ms == 50,
            AttachStep::FindService => action matches AttachAction::FindService {
                vid,
                pid,
                number,
            } && vid == 0x0471 && pid == state.target.pid && number == 0,
            AttachStep::OpenInterface(node) => action matches AttachAction::OpenInterface {
                service,
            } && service == node,
            AttachStep::OpenPipe(i) => action matches AttachAction::OpenPipe { address } && address
                == seq![0x04u8, 0x84, 0x02, 0x82, 0x85][i as int],
            AttachStep::OpenAux(i) => action matches AttachAction::OpenPipe { address } && address
                == seq![0x01u8, 0x81, 0x05][i as int],
            AttachStep::Identify => action matches AttachAction::Identify(x) && x.cmd == 0x01
                && x.write.endpoint == 0x04 && x.write.data@.take(6) == seq![
                0x7eu8,
                0x01,
                0x01,
                0x00,
                0x01,
                0x7f,
            ] && x.read.endpoint == 0x84 && x.read.timeout_ms == 2000,
        },
{
    if state.step is Identify {
        let payload = seq![0x01u8];
        let packet = crate::protocol::ctrl::ctrl_packet(0x01, payload);
        crate::protocol::ctrl::law_ctrl_packet_layout(0x01, payload);
        let head = seq![0x7eu8, 0x01, 0x01, 0x00, 0x01];
        assert(packet.subrange(4, 5)[0] == packet[4]);
        assert(packet.take(5) =~= head);
        assert(crate::protocol::bytes::xor_of(head) == 0x7f) by {
            reveal_with_fuel(crate::protocol::bytes::xor_of, 6);
            assert(head.drop_last() =~= seq![0x7eu8, 0x01, 0x01, 0x00]);
            assert(head.drop_last().drop_last() =~= seq![0x7eu8, 0x01, 0x01]);
            assert(head.drop_last().drop_last().drop_last() =~= seq![0x7eu8, 0x01]);
            assert(head.drop_last().drop_last().drop_last().drop_last() =~= seq![0x7eu8]);
            assert(seq![0x7eu8].drop_last() =~= Seq::empty());
            assert(((((0u8 ^ 0x7e) ^ 0x01) ^ 0x01) ^ 0x00) ^ 0x01 == 0x7f) by (bit_vector);
        }
        assert(packet.take(6) =~= head.push(0x7f));
    }
}

/// Which failures end an attach, and how: that of the device node, of the interface
/// node and of one of the five data pipes, with their own error, and that of the last
/// search for the interface. All others are put up with.
pub proof fn law_attach_failures(step: AttachStep, e: Error)
    requires
        step.valid(),
    ensures
        match attach_next(step, AttachReply::Failed(e)) {
            AttachVerdict::Fail(cause) => cause == e && (step is OpenDevice || step is OpenInterface
                || step is OpenPipe),
            AttachVerdict::NoInterface => step is FindService,
            AttachVerdict::Continue(_) => step is Configure || step is FindChild || step is Wait
                || step is OpenAux,
            AttachVerdict::Ready(_) => step is Identify,
        },
{
}

/// An attach that meets with no trouble: the device, the interface that was found, and
/// the five data pipes open. Whatever configuring and the auxiliary pipes come to, the
/// adapter is ready, with what it answered to the probe.
pub proof fn law_attach_succeeds(
    configured: AttachReply,
    node: u32,
    aux: Seq<AttachReply>,
    resp: CtrlResp,
)
    requires
        node != 0,
        aux.len() == 3,
    ensures
        ({
            let done = AttachReply::Done;
            let replies = seq![done, configured, AttachReply::Found(node), done] + seq![
                done,
                done,
                done,
                done,
                done,
            ] + aux + seq![AttachReply::Answered(resp)];
            attach_run(AttachStep::OpenDevice, replies) == Some(
                AttachVerdict::Ready(resp.valid_bytes()),
            )
        }),
{
    reveal_with_fuel(attach_run, 14);
}

/// The interface is looked for twenty times, with a wait after each; then the search
/// by IDs is tried.
pub proof fn law_interface_is_looked_for_twenty_times(attempt: u32, found: u32)
    requires
        attempt < 20,
    ensures
        attach_next(AttachStep::FindChild(attempt), AttachReply::NotFound)
            == AttachVerdict::Continue(AttachStep::Wait(attempt)),
        attach_next(AttachStep::Wait(attempt), AttachReply::Done) == AttachVerdict::Continue(
            if attempt == 19 {
                AttachStep::FindService
            } else {
                AttachStep::FindChild((attempt + 1) as u32)
            },
        ),
        found != 0 ==> attach_next(AttachStep::FindChild(attempt), AttachReply::Found(found))
            == AttachVerdict::Continue(AttachStep::OpenInterface(found)),
        attach_next(AttachStep::FindService, AttachReply::Found(found)) == AttachVerdict::Continue(
            AttachStep::OpenInterface(found),
        ),
{
}

/// A child of a device node is the interface with its own number and with no other; one
/// without a number, or that is no interface, never is.
pub proof fn law_interface_child(c: RegistryChild, want: u8)
    ensures
        c.is_interface_number(want) ==> c.is_interface && c.number is Some && c.number->0 == want,
        c.is_interface && c.number is Some ==> c.is_interface_number(c.number->0),
{
}

/// Each child stands for its own handle, in order: one child more is one handle more.
pub proof fn law_handles_of_children(children: Seq<RegistryChild>, c: RegistryChild)
    ensures
        handles(Seq::empty()) == Seq::<u32>::empty(),
        handles(children.push(c)) == handles(children).push(c.service),
{
    assert(handles(Seq::empty()) =~= Seq::<u32>::empty());
    assert(handles(children.push(c)) =~= handles(children).push(c.service));
}

/// The list of adapters names vendor `0x0471` and, for each service, its product; the
/// two-channel model `0x1261` is matched first, then `0x1260`.
pub proof fn law_adapters_are_listed(pid: u16, services: Seq<u32>, i: int)
    requires
        0 <= i < services.len(),
    ensures
        adapters(pid, services).len() == services.len(),
        adapters(pid, services)[i].vid == 0x0471,
        adapters(pid, services)[i].pid == pid,
        adapters(pid, services)[i].service == services[i],
        SUPPORTED_PIDS@ == seq![0x1261u16, 0x1260],
{
    assert(SUPPORTED_PIDS@ =~= seq![0x1261u16, 0x1260]);
}

/// Opening an adapter keeps that one and releases all others: with the chosen service
/// put back in its place, the released ones are the services of the list.
pub proof fn law_open_keeps_one(
    devices: Seq<DeviceInfo>,
    index: int,
    released: Seq<u32>,
    r: Result<Attach, Error>,
)
    requires
        0 <= index,
        open_outcome(devices, index, released, r),
    ensures
        r is Ok <==> index < devices.len(),
        r matches Ok(attach) ==> {
            &&& attach@.target == devices[index]
            &&& attach@.step is OpenDevice
            &&& released.len() + 1 == devices.len()
            &&& forall|i: int|
                0 <= i < devices.len() ==> #[trigger] released.insert(
                    index,
                    devices[index].service,
                )[i] == devices[i].service
        },
        r matches Err(e) ==> {
            &&& e == (Error::DeviceNotFound { vid: 0x0471, pid: 0x1261 })
            &&& released.len() == devices.len()
            &&& forall|i: int| 0 <= i < devices.len() ==> #[trigger] released[i] == devices[i].service
        },
{
}

/// A return code is shown by its 32 bits.
pub proof fn law_code_bits(rc: i32)
    ensures
        code_bits(rc) <= u32::MAX,
        (code_bits(rc) - rc) % 0x1_0000_0000 == 0,
{
}

/// The codes with which opening a pipe says that the endpoint is not there.
pub proof fn law_missing_endpoint_codes(code: i32)
    ensures
        transfer::NO_ENDPOINT_CODES@.contains(code) <==> code == -536870206 || code == -536870212,
{
    let codes = transfer::NO_ENDPOINT_CODES@;
    assert(codes[0] == -536870206 && codes[1] == -536870212);
}

/// A node that did not open is reported with the fault if there is one, else as an
/// initialization failure.
pub proof fn law_open_host_ends(
    opened: bool,
    fault: Option<UsbFault>,
    context: Seq<char>,
    nil: Seq<char>,
    r: Result<(), Error>,
)
    requires
        open_host_outcome(opened, fault, context, nil, r),
    ensures
        r is Ok <==> opened,
        !opened && fault is None ==> (r matches Err(Error::Init(m)) && m@ == nil),
        !opened && fault is Some ==> r->Err_0 is Usb && r->Err_0->code == fault->0.io_return()
            && r->Err_0->message@.take(context.len() as int) == context,
{
    if !opened && fault is Some {
        transfer::law_fault_report(fault->0, context, r->Err_0);
    }
}

} // verus!

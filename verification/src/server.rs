//! The USB/IP server's decisions: how a local USB device is described on the
//! wire, how requests are answered, and how URB submissions are carried out.
use vstd::prelude::*;
use vstd::utf8::encode_utf8;
use crate::bytes::{be16, be32, get_u16_le, get_u32_be, le16, push_be32, push_slice, push_zeros, zeros};
use crate::protocol::{
    busid_text, device_wire, op_header, USBIP_VERSION, OpHeader, UsbIpDevice, DEVICE_WIRE_SIZE, OP_REP_DEVLIST,
    OP_REP_IMPORT, OP_REQ_DEVLIST, OP_REQ_IMPORT, USBIP_BUSID_SIZE, USBIP_CMD_SUBMIT,
    USBIP_CMD_UNLINK, USBIP_PATH_SIZE, build_op_header, busid_field_text,
};
use crate::text::{
    ascii_chars, decimal, digits_value, is_ascii_bytes, law_decimal_value, lemma_ascii_decode, lemma_decimal_props,
    lemma_padded_text, pad_to, push_decimal, string_from_ascii,
};

verus! {

/// Code of the URB completion reply (`USBIP_RET_SUBMIT`) in the OP header.
pub const USBIP_RET_SUBMIT: u16 = 0x0003;

/// Connection speed of a USB device, in libusb's order.
#[derive(Debug, Clone, Copy, PartialEq, Eq)]
pub enum UsbSpeed {
    Unknown,
    Low,
    Full,
    High,
    Super,
    SuperPlus,
}

/// The number a speed is reported as: its position in libusb's order.
pub open spec fn speed_code(s: UsbSpeed) -> u32 {
    match s {
        UsbSpeed::Unknown => 0,
        UsbSpeed::Low => 1,
        UsbSpeed::Full => 2,
        UsbSpeed::High => 3,
        UsbSpeed::Super => 4,
        UsbSpeed::SuperPlus => 5,
    }
}

/// The speeds in libusb's order; a speed is reported as its position here.
pub open spec fn libusb_speed_order() -> Seq<UsbSpeed> {
    seq![
        UsbSpeed::Unknown,
        UsbSpeed::Low,
        UsbSpeed::Full,
        UsbSpeed::High,
        UsbSpeed::Super,
        UsbSpeed::SuperPlus,
    ]
}

/// A speed's code is its position in libusb's order.
pub proof fn lemma_speed_order(s: UsbSpeed)
    ensures
        speed_code(s) < libusb_speed_order().len(),
        libusb_speed_order()[speed_code(s) as int] == s,
{
}

/// Distinct speeds are reported as distinct numbers, each one the speed's
/// position in libusb's order.
pub proof fn law_speed_codes(a: UsbSpeed, b: UsbSpeed)
    ensures
        libusb_speed_order()[speed_code(a) as int] == a,
        a != b ==> speed_code(a) != speed_code(b),
{
    lemma_speed_order(a);
    lemma_speed_order(b);
}

impl UsbSpeed {
    /// The number this speed is reported as on the wire.
    pub fn code(&self) -> (c: u32)
        ensures
            c == speed_code(*self),
            c < 6,
            libusb_speed_order()[c as int] == *self,
    {
        proof {
            lemma_speed_order(*self);
        }
        match self {
            UsbSpeed::Unknown => 0,
            UsbSpeed::Low => 1,
            UsbSpeed::Full => 2,
            UsbSpeed::High => 3,
            UsbSpeed::Super => 4,
            UsbSpeed::SuperPlus => 5,
        }
    }
}

/// What the server learns about a local USB device when it enumerates the
/// bus: its position, speed and device descriptor, and its active
/// configuration when the device could be opened and asked.
#[derive(Debug, Clone, Copy, PartialEq, Eq)]
pub struct DeviceDescriptorInfo {
    pub bus_number: u8,
    pub address: u8,
    pub speed: UsbSpeed,
    pub vendor_id: u16,
    pub product_id: u16,
    /// The device release number, the descriptor's raw bcdDevice field.
    pub bcd_device: u16,
    pub class_code: u8,
    pub sub_class_code: u8,
    pub protocol_code: u8,
    pub num_configurations: u8,
    pub active_configuration: Option<u8>,
}

/// The bus ID text "<bus>-<address>" as bytes.
pub open spec fn busid_bytes(bus: u8, addr: u8) -> Seq<u8> {
    decimal(bus as nat) + seq![45u8] + decimal(addr as nat)
}

/// The bus ID "<bus>-<address>" under which a device is offered.
pub open spec fn busid_chars(bus: u8, addr: u8) -> Seq<char> {
    ascii_chars(busid_bytes(bus, addr))
}

/// The sysfs-style path reported for a device:
/// "/sys/devices/pci0000:00/0000:00:00.0/usb<bus>/<address>", as bytes.
pub open spec fn device_path_bytes(bus: u8, addr: u8) -> Seq<u8> {
    encode_utf8("/sys/devices/pci0000:00/0000:00:00.0/usb"@) + decimal(bus as nat) + seq![47u8]
        + decimal(addr as nat)
}

/// True when `d` is the record announced for `info`: the path and bus ID
/// fields hold the path and "<bus>-<address>" texts, zero-padded (and cut
/// to the field size); the numbers come from the descriptor; the
/// configuration value is the active one, or 1 when unknown; the interface
/// count is 0.
pub open spec fn describes(d: UsbIpDevice, info: DeviceDescriptorInfo) -> bool {
    &&& d.path@ == pad_to(device_path_bytes(info.bus_number, info.address), USBIP_PATH_SIZE as nat)
    &&& d.busid@ == pad_to(busid_bytes(info.bus_number, info.address), USBIP_BUSID_SIZE as nat)
    &&& d.busnum == info.bus_number as u32
    &&& d.devnum == info.address as u32
    &&& d.speed == speed_code(info.speed)
    &&& d.id_vendor == info.vendor_id
    &&& d.id_product == info.product_id
    &&& d.bcd_device == info.bcd_device
    &&& d.b_device_class == info.class_code
    &&& d.b_device_sub_class == info.sub_class_code
    &&& d.b_device_protocol == info.protocol_code
    &&& d.b_configuration_value == match info.active_configuration {
        Some(c) => c,
        None => 1u8,
    }
    &&& d.b_num_configurations == info.num_configurations
    &&& d.b_num_interfaces == 0
}

pub proof fn lemma_busid_bytes_ascii(bus: u8, addr: u8)
    ensures
        is_ascii_bytes(busid_bytes(bus, addr)),
        busid_bytes(bus, addr).len() <= 7,
        forall|i: int|
            0 <= i < busid_bytes(bus, addr).len() ==> #[trigger] busid_bytes(bus, addr)[i] != 0u8,
        busid_bytes(bus, addr).last() != 0u8,
        busid_bytes(bus, addr).len() > 0,
{
    lemma_decimal_props(bus as nat);
    lemma_decimal_props(addr as nat);
    let b = busid_bytes(bus, addr);
    let d1 = decimal(bus as nat);
    let d2 = decimal(addr as nat);
    assert forall|i: int| 0 <= i < b.len() implies #[trigger] b[i] < 0x80 && b[i] != 0u8 by {
        if i < d1.len() {
            assert(b[i] == d1[i]);
        } else if i == d1.len() {
        } else {
            assert(b[i] == d2[i - d1.len() - 1]);
        }
    }
    assert(b.last() == b[b.len() - 1]);
}

/// The bus ID text is the bus number, one '-', and the device address, both
/// in decimal: it has exactly one '-', the digits before it spell the bus
/// number and the digits after it spell the address.
pub proof fn law_busid_spells_position(bus: u8, addr: u8)
    ensures
        exists|k: int|
            #![trigger busid_bytes(bus, addr).take(k)]
            0 < k < busid_bytes(bus, addr).len() - 1 && busid_bytes(bus, addr)[k] == 45u8
                && digits_value(busid_bytes(bus, addr).take(k)) == bus && digits_value(
                busid_bytes(bus, addr).skip(k + 1),
            ) == addr && forall|i: int|
                0 <= i < busid_bytes(bus, addr).len() && i != k ==> 48 <= #[trigger] busid_bytes(
                    bus,
                    addr,
                )[i] <= 57,
{
    let b = busid_bytes(bus, addr);
    let d1 = decimal(bus as nat);
    let d2 = decimal(addr as nat);
    law_decimal_value(bus as nat);
    law_decimal_value(addr as nat);
    lemma_decimal_props(bus as nat);
    lemma_decimal_props(addr as nat);
    let k = d1.len() as int;
    assert(b.take(k) =~= d1);
    assert(b.skip(k + 1) =~= d2);
    assert forall|i: int| 0 <= i < b.len() && i != k implies 48 <= #[trigger] b[i] <= 57 by {
        if i < k {
            assert(b[i] == d1[i]);
        } else {
            assert(b[i] == d2[i - k - 1]);
        }
    }
    assert(b[k] == 45u8);
}

/// Copies `src` into an `N`-byte field, cut to `N` bytes and zero-padded.
pub fn fixed_field<const N: usize>(src: &[u8]) -> (a: [u8; N])
    ensures
        a@ == pad_to(src@, N as nat),
{
    let mut a = [0u8; N];
    let len = src.len();
    let n = if len < N {
        len
    } else {
        N
    };
    let mut i: usize = 0;
    while i < n
        invariant
            i <= n,
            n <= N,
            n <= len,
            len == src@.len(),
            n == N || n == len,
            a@.len() == N,
            forall|j: int| 0 <= j < i ==> a@[j] == src@[j],
            forall|j: int| i <= j < N ==> a@[j] == 0u8,
        decreases n - i,
    {
        a[i] = src[i];
        i = i + 1;
    }
    assert(a@ =~= pad_to(src@, N as nat));
    a
}

/// The bytes of the bus ID text "<bus>-<address>".
fn busid_text_bytes(bus: u8, addr: u8) -> (r: Vec<u8>)
    ensures
        r@ == busid_bytes(bus, addr),
{
    let mut r: Vec<u8> = Vec::new();
    push_decimal(&mut r, bus as u32);
    r.push(45u8);
    push_decimal(&mut r, addr as u32);
    assert(r@ =~= busid_bytes(bus, addr));
    r
}

/// The bus ID "<bus>-<address>" of the device at `bus`, `addr`.
pub fn format_busid(bus: u8, addr: u8) -> (s: String)
    ensures
        s@ == busid_chars(bus, addr),
{
    let b = busid_text_bytes(bus, addr);
    proof {
        lemma_busid_bytes_ascii(bus, addr);
    }
    string_from_ascii(b.as_slice())
}

/// Whether the device at `bus`, `addr` is the one named by `busid`.
pub fn busid_matches(bus: u8, addr: u8, busid: &str) -> (r: bool)
    ensures
        r == (busid_chars(bus, addr) == busid@),
{
    let mine = format_busid(bus, addr);
    let wanted = busid.to_owned();
    mine == wanted
}

impl UsbIpDevice {
    /// Describes an enumerated local USB device as a USB/IP device record.
    /// The configuration value is the active one, or 1 when it is unknown.
    pub fn from_descriptor(info: &DeviceDescriptorInfo) -> (d: UsbIpDevice)
        ensures
            describes(d, *info),
            d.busnum == info.bus_number as u32,
            d.devnum == info.address as u32,
            libusb_speed_order()[d.speed as int] == info.speed,
            d.id_vendor == info.vendor_id,
            d.id_product == info.product_id,
            d.bcd_device == info.bcd_device,
            d.b_device_class == info.class_code,
            d.b_device_sub_class == info.sub_class_code,
            d.b_device_protocol == info.protocol_code,
            info.active_configuration matches Some(c) ==> d.b_configuration_value == c,
            info.active_configuration is None ==> d.b_configuration_value == 1,
            d.b_num_configurations == info.num_configurations,
            d.b_num_interfaces == 0,
            busid_text(d.busid@) == busid_chars(info.bus_number, info.address),
    {
        let bus = info.bus_number;
        let addr = info.address;
        let busid_b = busid_text_bytes(bus, addr);
        let prefix = "/sys/devices/pci0000:00/0000:00:00.0/usb";
        let mut path_b: Vec<u8> = Vec::new();
        push_slice(&mut path_b, prefix.as_bytes());
        push_decimal(&mut path_b, bus as u32);
        path_b.push(47u8);
        push_decimal(&mut path_b, addr as u32);
        assert(path_b@ =~= device_path_bytes(bus, addr));
        let config = match info.active_configuration {
            Some(c) => c,
            None => 1u8,
        };
        let d = UsbIpDevice {
            path: fixed_field(path_b.as_slice()),
            busid: fixed_field(busid_b.as_slice()),
            busnum: bus as u32,
            devnum: addr as u32,
            speed: info.speed.code(),
            id_vendor: info.vendor_id,
            id_product: info.product_id,
            bcd_device: info.bcd_device,
            b_device_class: info.class_code,
            b_device_sub_class: info.sub_class_code,
            b_device_protocol: info.protocol_code,
            b_configuration_value: config,
            b_num_configurations: info.num_configurations,
            b_num_interfaces: 0,
        };
        proof {
            law_descriptor_busid(d, *info);
            lemma_speed_order(info.speed);
        }
        d
    }
}

/// A device offered under bus ID "<bus>-<address>" reports exactly that
/// text as its bus ID: the device the server announces for a bus position
/// is the one `busid_matches` finds again for the same text.
pub proof fn law_descriptor_busid(d: UsbIpDevice, info: DeviceDescriptorInfo)
    requires
        describes(d, info),
    ensures
        busid_text(d.busid@) == busid_chars(info.bus_number, info.address),
{
    let b = busid_bytes(info.bus_number, info.address);
    let c = busid_chars(info.bus_number, info.address);
    lemma_busid_bytes_ascii(info.bus_number, info.address);
    lemma_ascii_decode(b);
    assert(c.last() == b.last() as char);
    assert(c.last() != '\0') by {
        let x = b.last();
        assert(x != 0u8);
        assert((x as char) as u32 == x as u32);
    }
    lemma_padded_text(c, USBIP_BUSID_SIZE as nat);
}

/// The wire image of a list of devices, one record after another.
pub open spec fn devices_wire(ds: Seq<UsbIpDevice>) -> Seq<u8>
    decreases ds.len(),
{
    if ds.len() == 0 {
        Seq::empty()
    } else {
        devices_wire(ds.drop_last()) + device_wire(ds.last())
    }
}

/// Device `i` of a list occupies bytes `312 * i .. 312 * (i + 1)` of the
/// list's wire image (312 being `DEVICE_WIRE_SIZE`).
pub proof fn lemma_devices_wire(ds: Seq<UsbIpDevice>)
    ensures
        devices_wire(ds).len() == 312 * ds.len(),
        forall|i: int|
            0 <= i < ds.len() ==> devices_wire(ds).subrange(
                312 * i,
                312 * i + 312,
            ) == device_wire(#[trigger] ds[i]),
    decreases ds.len(),
{
    if ds.len() > 0 {
        let p = ds.drop_last();
        lemma_devices_wire(p);
        let a = devices_wire(p);
        let b = device_wire(ds.last());
        assert(b.len() == 312);
        assert(a.len() == 312 * (ds.len() - 1));
        assert(devices_wire(ds) == a + b);
        assert forall|i: int| 0 <= i < ds.len() implies (a + b).subrange(
            312 * i,
            312 * i + 312,
        ) == device_wire(#[trigger] ds[i]) by {
            if i == ds.len() - 1 {
                assert((a + b).subrange(312 * i, 312 * i + 312)
                    =~= b);
            } else {
                assert(p[i] == ds[i]);
                assert(a.subrange(312 * i, 312 * i + 312)
                    == device_wire(p[i]));
                assert((a + b).subrange(312 * i, 312 * i + 312)
                    =~= a.subrange(312 * i, 312 * i + 312));
            }
        }
    }
}

/// The reply to `OP_REQ_DEVLIST`: a success header, the device count (BE
/// u32, taken modulo 2^32 as the count is cast) and each device record.
pub open spec fn devlist_reply_bytes(ds: Seq<UsbIpDevice>) -> Seq<u8> {
    op_header(OP_REP_DEVLIST, 0) + be32(ds.len() as u32) + devices_wire(ds)
}

/// Builds the reply to `OP_REQ_DEVLIST` for the given devices.
pub fn devlist_reply(devices: &Vec<UsbIpDevice>) -> (r: Vec<u8>)
    ensures
        r@ == devlist_reply_bytes(devices@),
{
    let mut out: Vec<u8> = Vec::new();
    let h = build_op_header(OP_REP_DEVLIST, 0);
    push_slice(&mut out, h.as_slice());
    #[verifier::truncate]
    let count = devices.len() as u32;
    push_be32(&mut out, count);
    let ghost start = out@;
    let mut i: usize = 0;
    while i < devices.len()
        invariant
            i <= devices@.len(),
            out@ == start + devices_wire(devices@.subrange(0, i as int)),
        decreases devices@.len() - i,
    {
        let w = devices[i].to_wire();
        push_slice(&mut out, w.as_slice());
        proof {
            let pre = devices@.subrange(0, i as int + 1);
            assert(pre.drop_last() =~= devices@.subrange(0, i as int));
            assert(pre.last() == devices@[i as int]);
        }
        i = i + 1;
    }
    assert(devices@.subrange(0, devices@.len() as int) =~= devices@);
    assert(out@ =~= devlist_reply_bytes(devices@));
    out
}

/// The server's answer to `OP_REQ_IMPORT`: the reply bytes, the bus ID that
/// was granted (empty when none was), and which device was granted.
pub struct ImportReply {
    pub reply: Vec<u8>,
    pub busid: String,
    pub device_index: Option<usize>,
}

/// The answer `r` to an import of the bus ID text `want` among `devs`: the
/// first device whose bus ID text equals `want` is granted (status 0,
/// followed by its record, and the bus ID is returned); when no device
/// matches, the reply is a header with status 1 and the bus ID is empty.
pub open spec fn import_answer(r: ImportReply, want: Seq<char>, devs: Seq<UsbIpDevice>) -> bool {
    match r.device_index {
        Some(i) => {
            &&& i < devs.len()
            &&& busid_text(devs[i as int].busid@) == want
            &&& forall|j: int| 0 <= j < i ==> busid_text(#[trigger] devs[j].busid@) != want
            &&& r.reply@ == op_header(OP_REP_IMPORT, 0) + device_wire(devs[i as int])
            &&& r.busid@ == want
        },
        None => {
            &&& forall|j: int| 0 <= j < devs.len() ==> busid_text(#[trigger] devs[j].busid@) != want
            &&& r.reply@ == op_header(OP_REP_IMPORT, 1)
            &&& r.busid@ == Seq::<char>::empty()
        },
    }
}

/// Answers `OP_REQ_IMPORT` for the 32-byte bus ID field of the request, as
/// `import_answer` describes, for the bus ID text the field stands for.
pub fn import_reply(busid_field: &[u8; USBIP_BUSID_SIZE], devices: &Vec<UsbIpDevice>) -> (r:
    ImportReply)
    ensures
        import_answer(r, busid_text(busid_field@), devices@),
{
    let want = busid_field_text(busid_field);
    let mut i: usize = 0;
    while i < devices.len()
        invariant
            i <= devices@.len(),
            want@ == busid_text(busid_field@),
            forall|j: int| 0 <= j < i ==> busid_text(#[trigger] devices@[j].busid@) != want@,
        decreases devices@.len() - i,
    {
        let name = devices[i].busid_str();
        if name == want {
            let mut reply: Vec<u8> = Vec::new();
            let h = build_op_header(OP_REP_IMPORT, 0);
            push_slice(&mut reply, h.as_slice());
            let w = devices[i].to_wire();
            push_slice(&mut reply, w.as_slice());
            return ImportReply { reply, busid: want, device_index: Some(i) };
        }
        i = i + 1;
    }
    let mut reply: Vec<u8> = Vec::new();
    let h = build_op_header(OP_REP_IMPORT, 1);
    push_slice(&mut reply, h.as_slice());
    ImportReply { reply, busid: String::new(), device_index: None }
}

/// What a client session does once an import has been answered.
#[derive(Debug)]
pub enum SessionAction {
    /// Open (and claim) the granted device, in place of any device the
    /// session had.
    OpenDevice { busid: String },
    /// Nothing was granted: the session keeps the device it had, if any.
    KeepDevice,
}

/// The session's step after answering an import: a granted import (a
/// non-empty bus ID) makes the session open that device; otherwise the
/// session goes on with the device it had.
pub fn after_import(answer: ImportReply) -> (a: SessionAction)
    ensures
        answer.busid@.len() > 0 ==> (a matches SessionAction::OpenDevice { busid } && busid@
            == answer.busid@),
        answer.busid@.len() == 0 ==> a is KeepDevice,
{
    if answer.busid.as_str().is_empty() {
        SessionAction::KeepDevice
    } else {
        SessionAction::OpenDevice { busid: answer.busid }
    }
}

/// One served request, as far as the session's device is concerned: an
/// import, with the bus ID it granted (empty when none was) and whether
/// opening that device succeeded; or any other request.
pub enum SessionEvent {
    Import { granted: Seq<char>, opened: bool },
    Other,
}

/// Whether an event changes the session's device: only a granted import does.
pub open spec fn changes_device(e: SessionEvent) -> bool {
    e matches SessionEvent::Import { granted, .. } && granted.len() > 0
}

/// The session's device (by bus ID) after one event: a granted import
/// replaces it, by the granted device when it opened and by none otherwise
/// (the earlier device is given up either way); an import that granted
/// nothing, and every other request, leave it as it is.
pub open spec fn session_step(device: Option<Seq<char>>, e: SessionEvent) -> Option<Seq<char>> {
    match e {
        SessionEvent::Import { granted, opened } => {
            if granted.len() > 0 {
                if opened {
                    Some(granted)
                } else {
                    None
                }
            } else {
                device
            }
        },
        SessionEvent::Other => device,
    }
}

/// The session's device after a run of events, in order.
pub open spec fn session_run(device: Option<Seq<char>>, es: Seq<SessionEvent>) -> Option<
    Seq<char>,
>
    decreases es.len(),
{
    if es.len() == 0 {
        device
    } else {
        session_step(session_run(device, es.drop_last()), es.last())
    }
}

/// A client session's state: the bus ID of the device it has open, if any.
pub struct Session {
    pub device: Option<String>,
}

/// The session's device by bus ID.
pub open spec fn session_device(s: Session) -> Option<Seq<char>> {
    match s.device {
        Some(b) => Some(b@),
        None => None,
    }
}

impl Session {
    /// A new session has no device.
    pub fn new() -> (s: Session)
        ensures
            session_device(s) is None,
    {
        Session { device: None }
    }

    /// Records an answered import: `granted` is the bus ID it granted (empty
    /// when none was) and `opened` whether opening that device succeeded.
    pub fn record_import(&mut self, granted: &str, opened: bool)
        ensures
            session_device(*final(self)) == session_step(
                session_device(*old(self)),
                SessionEvent::Import { granted: granted@, opened },
            ),
    {
        if !granted.is_empty() {
            if opened {
                self.device = Some(granted.to_owned());
            } else {
                self.device = None;
            }
        }
    }

    /// Whether the session has a device open: the device every URB
    /// submission is planned against.
    pub fn has_device(&self) -> (b: bool)
        ensures
            b == session_device(*self) is Some,
    {
        self.device.is_some()
    }
}

/// Only a granted import changes the session's device: a run of other
/// events leaves it as it was.
pub proof fn law_session_device_changes_only_on_import(
    device: Option<Seq<char>>,
    es: Seq<SessionEvent>,
)
    requires
        forall|i: int| 0 <= i < es.len() ==> !changes_device(#[trigger] es[i]),
    ensures
        session_run(device, es) == device,
    decreases es.len(),
{
    if es.len() > 0 {
        let p = es.drop_last();
        assert forall|i: int| 0 <= i < p.len() implies !changes_device(#[trigger] p[i]) by {
            assert(p[i] == es[i]);
        }
        law_session_device_changes_only_on_import(device, p);
        assert(!changes_device(es[es.len() - 1]));
    }
}

/// The session's device at any point is decided by the last granted import
/// so far: the device it granted when that device opened, none otherwise.
pub proof fn law_session_device_is_last_import(
    device: Option<Seq<char>>,
    es: Seq<SessionEvent>,
    k: int,
    granted: Seq<char>,
    opened: bool,
)
    requires
        0 <= k < es.len(),
        es[k] == (SessionEvent::Import { granted, opened }),
        granted.len() > 0,
        forall|j: int| k < j < es.len() ==> !changes_device(#[trigger] es[j]),
    ensures
        session_run(device, es) == (if opened {
            Some(granted)
        } else {
            None::<Seq<char>>
        }),
    decreases es.len(),
{
    if k < es.len() - 1 {
        let p = es.drop_last();
        assert(p[k] == es[k]);
        assert forall|j: int| k < j < p.len() implies !changes_device(#[trigger] p[j]) by {
            assert(p[j] == es[j]);
        }
        law_session_device_is_last_import(device, p, k, granted, opened);
        assert(!changes_device(es[es.len() - 1]));
    } else {
        assert(es.last() == es[k]);
    }
}

/// What a request PDU asks of the server, by its code.
#[derive(Debug, Clone, Copy, PartialEq, Eq)]
pub enum ServerRequest {
    DevList,
    Import,
    Submit { seqnum: u32 },
    Unlink,
    Unknown { code: u16 },
}

/// Classifies a request by the code in its 8-byte header. For URB commands
/// the header's last field is the sequence number.
pub fn classify_request(h: &OpHeader) -> (r: ServerRequest)
    ensures
        h.code == OP_REQ_DEVLIST ==> r == ServerRequest::DevList,
        h.code == OP_REQ_IMPORT ==> r == ServerRequest::Import,
        h.code == USBIP_CMD_SUBMIT ==> r == (ServerRequest::Submit { seqnum: h.status }),
        h.code == USBIP_CMD_UNLINK ==> r == ServerRequest::Unlink,
        h.code != OP_REQ_DEVLIST && h.code != OP_REQ_IMPORT && h.code != USBIP_CMD_SUBMIT
            && h.code != USBIP_CMD_UNLINK ==> r == (ServerRequest::Unknown { code: h.code }),
{
    if h.code == OP_REQ_DEVLIST {
        ServerRequest::DevList
    } else if h.code == OP_REQ_IMPORT {
        ServerRequest::Import
    } else if h.code == USBIP_CMD_SUBMIT {
        ServerRequest::Submit { seqnum: h.status }
    } else if h.code == USBIP_CMD_UNLINK {
        ServerRequest::Unlink
    } else {
        ServerRequest::Unknown { code: h.code }
    }
}

/// The 40-byte body of `USBIP_CMD_SUBMIT` that follows the 8-byte header
/// (command and sequence number).
#[derive(Debug, Clone, Copy, PartialEq, Eq)]
pub struct UrbSubmit {
    pub devid: u32,
    /// 0 = OUT, 1 = IN.
    pub direction: u32,
    /// Endpoint number as sent, direction bit included (e.g. 0x81).
    pub ep: u32,
    pub transfer_flags: u32,
    pub transfer_buffer_length: u32,
    pub start_frame: u32,
    pub number_of_packets: u32,
    pub interval: u32,
    pub setup: [u8; 8],
}

/// Length of the body of `USBIP_CMD_SUBMIT` and `USBIP_CMD_UNLINK`.
pub const URB_BODY_SIZE: usize = 40;

/// What the server does with a submitted URB.
#[derive(Debug, Clone, Copy, PartialEq, Eq)]
pub enum UrbAction {
    /// No device has been imported: nothing is transferred.
    NoDevice,
    /// A control read with the setup packet's fields.
    ControlIn { bm_request_type: u8, b_request: u8, w_value: u16, w_index: u16, w_length: u16 },
    /// A bulk read of up to `length` bytes from `endpoint`.
    BulkIn { endpoint: u8, length: u32 },
    /// A bulk write of the `length` bytes that follow the body on the socket.
    BulkOut { endpoint: u8, length: u32 },
}

impl UrbSubmit {
    /// Splits the 40-byte body into its big-endian fields and the 8-byte
    /// setup packet.
    pub fn parse(body: &[u8; URB_BODY_SIZE]) -> (r: UrbSubmit)
        ensures
            be32(r.devid) == body@.subrange(0, 4),
            be32(r.direction) == body@.subrange(4, 8),
            be32(r.ep) == body@.subrange(8, 12),
            be32(r.transfer_flags) == body@.subrange(12, 16),
            be32(r.transfer_buffer_length) == body@.subrange(16, 20),
            be32(r.start_frame) == body@.subrange(20, 24),
            be32(r.number_of_packets) == body@.subrange(24, 28),
            be32(r.interval) == body@.subrange(28, 32),
            r.setup@ == body@.subrange(32, 40),
    {
        let s = body.as_slice();
        let mut setup = [0u8; 8];
        let mut i: usize = 0;
        while i < 8
            invariant
                i <= 8,
                s@ == body@,
                body@.len() == 40,
                setup@.len() == 8,
                forall|j: int| 0 <= j < i ==> setup@[j] == body@[32 + j],
            decreases 8 - i,
        {
            setup[i] = s[32 + i];
            i = i + 1;
        }
        assert(setup@ =~= body@.subrange(32, 40));
        UrbSubmit {
            devid: get_u32_be(s, 0),
            direction: get_u32_be(s, 4),
            ep: get_u32_be(s, 8),
            transfer_flags: get_u32_be(s, 12),
            transfer_buffer_length: get_u32_be(s, 16),
            start_frame: get_u32_be(s, 20),
            number_of_packets: get_u32_be(s, 24),
            interval: get_u32_be(s, 28),
            setup,
        }
    }

    /// The endpoint number without the direction bit.
    pub fn endpoint(&self) -> (e: u8)
        ensures
            e == (self.ep & 0x7f) as u8,
            e < 0x80,
    {
        let ep = self.ep;
        assert(((ep & 0x7f) as u8) < 0x80) by (bit_vector);
        (ep & 0x7f) as u8
    }

    /// Whether data flows from the device to the host.
    pub fn is_in(&self) -> (b: bool)
        ensures
            b == (self.direction == 1),
    {
        self.direction == 1
    }

    /// Whether the URB carries a setup packet (control transfer).
    pub fn is_setup(&self) -> (b: bool)
        ensures
            b == (self.transfer_flags & 1 != 0),
    {
        self.transfer_flags & 1 != 0
    }

    /// Decides the transfer for this URB. Without an imported device nothing
    /// is done; a URB with a setup packet becomes a control read with the
    /// setup packet's fields (value, index and length little-endian); an IN
    /// URB becomes a bulk read of its buffer length, or of 512 bytes when
    /// that is 0; any other URB becomes a bulk write of its buffer length.
    pub fn plan(&self, has_device: bool) -> (a: UrbAction)
        ensures
            !has_device ==> a == UrbAction::NoDevice,
            has_device && self.transfer_flags & 1 != 0 ==> (a matches UrbAction::ControlIn {
                bm_request_type,
                b_request,
                w_value,
                w_index,
                w_length,
            } && bm_request_type == self.setup@[0] && b_request == self.setup@[1] && le16(w_value)
                == self.setup@.subrange(2, 4) && le16(w_index) == self.setup@.subrange(4, 6)
                && le16(w_length) == self.setup@.subrange(6, 8)),
            has_device && self.transfer_flags & 1 == 0 && self.direction == 1 ==> a
                == (UrbAction::BulkIn {
                endpoint: (self.ep & 0x7f) as u8,
                length: if self.transfer_buffer_length > 0 {
                    self.transfer_buffer_length
                } else {
                    512
                },
            }),
            has_device && self.transfer_flags & 1 == 0 && self.direction != 1 ==> a
                == (UrbAction::BulkOut {
                endpoint: (self.ep & 0x7f) as u8,
                length: self.transfer_buffer_length,
            }),
    {
        if !has_device {
            UrbAction::NoDevice
        } else if self.is_setup() {
            let s = self.setup.as_slice();
            UrbAction::ControlIn {
                bm_request_type: s[0],
                b_request: s[1],
                w_value: get_u16_le(s, 2),
                w_index: get_u16_le(s, 4),
                w_length: get_u16_le(s, 6),
            }
        } else if self.is_in() {
            let length = if self.transfer_buffer_length > 0 {
                self.transfer_buffer_length
            } else {
                512
            };
            UrbAction::BulkIn { endpoint: self.endpoint(), length }
        } else {
            UrbAction::BulkOut { endpoint: self.endpoint(), length: self.transfer_buffer_length }
        }
    }
}

/// Errors a USB transfer can end with, in libusb's order.
#[derive(Debug, Clone, Copy, PartialEq, Eq)]
pub enum TransferError {
    Io,
    InvalidParam,
    Access,
    NoDevice,
    NotFound,
    Busy,
    Timeout,
    Overflow,
    Pipe,
    Interrupted,
    NoMem,
    NotSupported,
    BadDescriptor,
    Other,
}

/// The number of an error: its position in libusb's order.
pub open spec fn error_number(e: TransferError) -> i32 {
    match e {
        TransferError::Io => 0,
        TransferError::InvalidParam => 1,
        TransferError::Access => 2,
        TransferError::NoDevice => 3,
        TransferError::NotFound => 4,
        TransferError::Busy => 5,
        TransferError::Timeout => 6,
        TransferError::Overflow => 7,
        TransferError::Pipe => 8,
        TransferError::Interrupted => 9,
        TransferError::NoMem => 10,
        TransferError::NotSupported => 11,
        TransferError::BadDescriptor => 12,
        TransferError::Other => 13,
    }
}

/// The errors in libusb's order (rusb's `Error`); an error's number is its
/// position here.
pub open spec fn libusb_error_order() -> Seq<TransferError> {
    seq![
        TransferError::Io,
        TransferError::InvalidParam,
        TransferError::Access,
        TransferError::NoDevice,
        TransferError::NotFound,
        TransferError::Busy,
        TransferError::Timeout,
        TransferError::Overflow,
        TransferError::Pipe,
        TransferError::Interrupted,
        TransferError::NoMem,
        TransferError::NotSupported,
        TransferError::BadDescriptor,
        TransferError::Other,
    ]
}

/// An error's number is its position in libusb's order.
pub proof fn lemma_error_order(e: TransferError)
    ensures
        0 <= error_number(e) < libusb_error_order().len(),
        libusb_error_order()[error_number(e) as int] == e,
{
}

/// Error numbers are the positions in libusb's order: distinct errors get
/// distinct numbers, and only `Io` has number 0.
pub proof fn law_error_numbers(a: TransferError, b: TransferError)
    ensures
        libusb_error_order()[error_number(a) as int] == a,
        a != b ==> error_number(a) != error_number(b),
        (error_number(a) == 0) <==> (a == TransferError::Io),
{
    lemma_error_order(a);
    lemma_error_order(b);
    lemma_error_order(TransferError::Io);
}

impl TransferError {
    /// The number of this error.
    pub fn number(&self) -> (n: i32)
        ensures
            n == error_number(*self),
            0 <= n <= 13,
            libusb_error_order()[n as int] == *self,
    {
        proof {
            lemma_error_order(*self);
        }
        match self {
            TransferError::Io => 0,
            TransferError::InvalidParam => 1,
            TransferError::Access => 2,
            TransferError::NoDevice => 3,
            TransferError::NotFound => 4,
            TransferError::Busy => 5,
            TransferError::Timeout => 6,
            TransferError::Overflow => 7,
            TransferError::Pipe => 8,
            TransferError::Interrupted => 9,
            TransferError::NoMem => 10,
            TransferError::NotSupported => 11,
            TransferError::BadDescriptor => 12,
            TransferError::Other => 13,
        }
    }
}

/// How a URB ended: the number of bytes moved and the status (0 on
/// success, the negated error number on failure).
#[derive(Debug, Clone, Copy, PartialEq, Eq)]
pub struct UrbOutcome {
    pub actual_length: i32,
    pub status: i32,
}

impl UrbOutcome {
    /// The outcome when nothing was transferred because no device is open.
    pub fn nothing_done() -> (o: UrbOutcome)
        ensures
            o.actual_length == 0 && o.status == 0,
    {
        UrbOutcome { actual_length: 0, status: 0 }
    }

    /// The outcome of a transfer that moved `n` bytes or failed with `e`:
    /// a success reports `n` (cast to `i32`) and status 0, a failure 0 bytes
    /// and the negated error number.
    pub fn from_transfer(result: &Result<usize, TransferError>) -> (o: UrbOutcome)
        ensures
            result matches Ok(n) ==> o.actual_length == *n as i32 && o.status == 0,
            result matches Err(e) ==> o.actual_length == 0 && o.status == -error_number(*e),
    {
        match result {
            Ok(n) => {
                #[verifier::truncate]
                let len = *n as i32;
                UrbOutcome { actual_length: len, status: 0 }
            },
            Err(e) => UrbOutcome { actual_length: 0, status: -e.number() },
        }
    }
}

/// A transfer's outcome tells success from failure and one failure from
/// another: a success has status 0 and reports the bytes moved; a failure
/// reports no bytes and a status that is 0 only for `Io` and differs between
/// different errors.
pub proof fn law_transfer_outcomes(
    r1: Result<usize, TransferError>,
    o1: UrbOutcome,
    r2: Result<usize, TransferError>,
    o2: UrbOutcome,
)
    requires
        r1 matches Ok(n) ==> o1.actual_length == n as i32 && o1.status == 0,
        r1 matches Err(e) ==> o1.actual_length == 0 && o1.status == -error_number(e),
        r2 matches Ok(n) ==> o2.actual_length == n as i32 && o2.status == 0,
        r2 matches Err(e) ==> o2.actual_length == 0 && o2.status == -error_number(e),
    ensures
        r1 matches Err(e) ==> (o1.status == 0 <==> e == TransferError::Io),
        r1 matches Err(e) ==> o1.status == -(libusb_error_order().index_of(e)),
        (r1 matches Err(e1) && r2 matches Err(e2) && e1 != e2) ==> o1.status != o2.status,
{
    if let Err(e1) = r1 {
        law_error_numbers(e1, TransferError::Io);
        lemma_error_order(e1);
        libusb_error_order().index_of_first_ensures(e1);
        let i = error_number(e1) as int;
        assert(libusb_error_order()[i] == e1);
        assert forall|j: int| 0 <= j < i implies libusb_error_order()[j] != e1 by {
            assert(libusb_error_order()[j] != e1);
        }
        if let Err(e2) = r2 {
            law_error_numbers(e1, e2);
        }
    }
}

/// The 48-byte `USBIP_RET_SUBMIT` reply: header (version, code, status as
/// u32), sequence number, devid 0, direction, endpoint as sent, actual
/// length as u32, 12 zero bytes (start frame, packet count, error count)
/// and the setup packet echoed back.
pub open spec fn ret_submit_bytes(seqnum: u32, urb: UrbSubmit, o: UrbOutcome) -> Seq<u8> {
    op_header(USBIP_RET_SUBMIT, o.status as u32) + be32(seqnum) + zeros(4) + be32(urb.direction)
        + be32(urb.ep) + be32(o.actual_length as u32) + zeros(12) + urb.setup@
}

/// Where each field of the `USBIP_RET_SUBMIT` reply sits: the status, the
/// echoed sequence number, the URB's own direction and endpoint, the bytes
/// the transfer actually moved (whatever length was asked for) and the
/// setup packet.
pub proof fn law_ret_submit_layout(seqnum: u32, urb: UrbSubmit, o: UrbOutcome)
    ensures
        ret_submit_bytes(seqnum, urb, o).len() == 48,
        ret_submit_bytes(seqnum, urb, o).subrange(0, 2) == be16(USBIP_VERSION),
        ret_submit_bytes(seqnum, urb, o).subrange(2, 4) == be16(USBIP_RET_SUBMIT),
        ret_submit_bytes(seqnum, urb, o).subrange(4, 8) == be32(o.status as u32),
        ret_submit_bytes(seqnum, urb, o).subrange(8, 12) == be32(seqnum),
        ret_submit_bytes(seqnum, urb, o).subrange(12, 16) == zeros(4),
        ret_submit_bytes(seqnum, urb, o).subrange(16, 20) == be32(urb.direction),
        ret_submit_bytes(seqnum, urb, o).subrange(20, 24) == be32(urb.ep),
        ret_submit_bytes(seqnum, urb, o).subrange(24, 28) == be32(o.actual_length as u32),
        ret_submit_bytes(seqnum, urb, o).subrange(28, 40) == zeros(12),
        ret_submit_bytes(seqnum, urb, o).subrange(40, 48) == urb.setup@,
{
    let r = ret_submit_bytes(seqnum, urb, o);
    assert(r.subrange(0, 2) =~= be16(USBIP_VERSION));
    assert(r.subrange(2, 4) =~= be16(USBIP_RET_SUBMIT));
    assert(r.subrange(4, 8) =~= be32(o.status as u32));
    assert(r.subrange(8, 12) =~= be32(seqnum));
    assert(r.subrange(12, 16) =~= zeros(4));
    assert(r.subrange(16, 20) =~= be32(urb.direction));
    assert(r.subrange(20, 24) =~= be32(urb.ep));
    assert(r.subrange(24, 28) =~= be32(o.actual_length as u32));
    assert(r.subrange(28, 40) =~= zeros(12));
    assert(r.subrange(40, 48) =~= urb.setup@);
}

/// Builds the `USBIP_RET_SUBMIT` reply for a completed URB.
pub fn ret_submit(seqnum: u32, urb: &UrbSubmit, outcome: &UrbOutcome) -> (r: Vec<u8>)
    ensures
        r@ == ret_submit_bytes(seqnum, *urb, *outcome),
        r@.len() == 48,
        r@.subrange(0, 2) == be16(USBIP_VERSION),
        r@.subrange(2, 4) == be16(USBIP_RET_SUBMIT),
        r@.subrange(4, 8) == be32(outcome.status as u32),
        r@.subrange(8, 12) == be32(seqnum),
        r@.subrange(12, 16) == zeros(4),
        r@.subrange(16, 20) == be32(urb.direction),
        r@.subrange(20, 24) == be32(urb.ep),
        r@.subrange(24, 28) == be32(outcome.actual_length as u32),
        r@.subrange(28, 40) == zeros(12),
        r@.subrange(40, 48) == urb.setup@,
{
    proof {
        law_ret_submit_layout(seqnum, *urb, *outcome);
    }
    let mut out: Vec<u8> = Vec::with_capacity(48);
    #[verifier::truncate]
    let status = outcome.status as u32;
    let h = build_op_header(USBIP_RET_SUBMIT, status);
    push_slice(&mut out, h.as_slice());
    push_be32(&mut out, seqnum);
    push_zeros(&mut out, 4);
    push_be32(&mut out, urb.direction);
    push_be32(&mut out, urb.ep);
    #[verifier::truncate]
    let actual = outcome.actual_length as u32;
    push_be32(&mut out, actual);
    push_zeros(&mut out, 12);
    push_slice(&mut out, urb.setup.as_slice());
    assert(out@ =~= ret_submit_bytes(seqnum, *urb, *outcome));
    out
}

} // verus!

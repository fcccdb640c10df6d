//! USB/IP protocol types and constants shared by the server and the client.
use vstd::prelude::*;
use crate::bytes::{be16, be32, get_u16_be, get_u32_be, lemma_be16_injective, lemma_be32_injective, push_be16, push_be32, push_slice};
use crate::text::{lossy_text, trim_nul, trim_trailing_nul, utf8_lossy};

verus! {

// USB/IP protocol constants (as in the Linux kernel's uapi usbip.h).
pub const USBIP_VERSION: u16 = 0x0111;

pub const OP_REQ_DEVLIST: u16 = 0x8005;

pub const OP_REP_DEVLIST: u16 = 0x0005;

pub const OP_REQ_IMPORT: u16 = 0x8003;

pub const OP_REP_IMPORT: u16 = 0x0003;

pub const USBIP_CMD_SUBMIT: u16 = 0x0001;

pub const USBIP_CMD_UNLINK: u16 = 0x0002;

pub const USBIP_BUSID_SIZE: usize = 32;

pub const USBIP_PATH_SIZE: usize = 256;

/// Size of a device record on the wire:
/// path[256] + busid[32] + busnum:u32 + devnum:u32 + speed:u32 +
/// idVendor:u16 + idProduct:u16 + bcdDevice:u16 +
/// bDeviceClass:u8 + bDeviceSubClass:u8 + bDeviceProtocol:u8 +
/// bConfigurationValue:u8 + bNumConfigurations:u8 + bNumInterfaces:u8
/// = 312 bytes.
pub const DEVICE_WIRE_SIZE: usize = USBIP_PATH_SIZE + USBIP_BUSID_SIZE + 12 + 6 + 6;

/// Vendor IDs of known Android device makers (Google, Samsung, Asus, Huawei,
/// Xiaomi, LG, Motorola, Sony, OnePlus).
pub open spec fn android_vid_list() -> Seq<u16> {
    seq![0x18d1u16, 0x04e8, 0x0b05, 0x12d1, 0x2717, 0x1004, 0x22b8, 0x0fce, 0x2a96]
}

/// The known Android vendor IDs, in a fixed order.
pub fn android_vids() -> (r: [u16; 9])
    ensures
        r@ == android_vid_list(),
{
    let r = [0x18d1u16, 0x04e8, 0x0b05, 0x12d1, 0x2717, 0x1004, 0x22b8, 0x0fce, 0x2a96];
    assert(r@ =~= android_vid_list());
    r
}

/// Whether `vid` is one of the known Android vendor IDs.
pub fn is_android_vid(vid: u16) -> (r: bool)
    ensures
        r == android_vid_list().contains(vid),
{
    let vids = android_vids();
    let mut i: usize = 0;
    while i < 9
        invariant
            i <= 9,
            vids@ == android_vid_list(),
            forall|j: int| 0 <= j < i ==> vids@[j] != vid,
        decreases 9 - i,
    {
        if vids[i] == vid {
            assert(android_vid_list()[i as int] == vid);
            return true;
        }
        i = i + 1;
    }
    assert(!android_vid_list().contains(vid));
    false
}

/// A USB device as described by the USB/IP protocol's `usbip_usb_device`.
#[derive(Debug, Clone, PartialEq, Eq)]
pub struct UsbIpDevice {
    pub path: [u8; USBIP_PATH_SIZE],
    pub busid: [u8; USBIP_BUSID_SIZE],
    pub busnum: u32,
    pub devnum: u32,
    pub speed: u32,
    pub id_vendor: u16,
    pub id_product: u16,
    pub bcd_device: u16,
    pub b_device_class: u8,
    pub b_device_sub_class: u8,
    pub b_device_protocol: u8,
    pub b_configuration_value: u8,
    pub b_num_configurations: u8,
    pub b_num_interfaces: u8,
}

/// The 312-byte network-order wire image of a device.
pub open spec fn device_wire(d: UsbIpDevice) -> Seq<u8> {
    d.path@ + d.busid@ + be32(d.busnum) + be32(d.devnum) + be32(d.speed) + be16(d.id_vendor)
        + be16(d.id_product) + be16(d.bcd_device) + seq![
        d.b_device_class,
        d.b_device_sub_class,
        d.b_device_protocol,
        d.b_configuration_value,
        d.b_num_configurations,
        d.b_num_interfaces,
    ]
}

/// The text a device's bus ID field stands for: the field decoded as UTF-8
/// (invalid sequences replaced) with trailing NULs removed.
pub open spec fn busid_text(busid: Seq<u8>) -> Seq<char> {
    trim_nul(lossy_text(busid))
}

/// The 8-byte OP header: version, code (both big-endian u16) and a big-endian
/// u32 status.
pub open spec fn op_header(code: u16, status: u32) -> Seq<u8> {
    be16(USBIP_VERSION) + be16(code) + be32(status)
}

pub proof fn lemma_device_wire_len(d: UsbIpDevice)
    ensures
        device_wire(d).len() == DEVICE_WIRE_SIZE,
{
}

/// Copies `N` bytes of `bytes`, starting at `off`, into an array.
pub fn array_at<const N: usize>(bytes: &[u8], off: usize) -> (a: [u8; N])
    requires
        off + N <= bytes@.len(),
    ensures
        a@ == bytes@.subrange(off as int, off + N),
{
    let mut a = [0u8; N];
    let len = bytes.len();
    let mut i: usize = 0;
    while i < N
        invariant
            i <= N,
            len == bytes@.len(),
            off + N <= bytes@.len(),
            a@.len() == N,
            forall|j: int| 0 <= j < i ==> a@[j] == bytes@[off + j],
        decreases N - i,
    {
        a[i] = bytes[off + i];
        i = i + 1;
    }
    assert(a@ =~= bytes@.subrange(off as int, off + N));
    a
}

impl UsbIpDevice {
    /// Serializes the device to its network-byte-order wire image.
    pub fn to_wire(&self) -> (r: Vec<u8>)
        ensures
            r@ == device_wire(*self),
            r@.len() == DEVICE_WIRE_SIZE,
    {
        let mut buf: Vec<u8> = Vec::with_capacity(DEVICE_WIRE_SIZE);
        push_slice(&mut buf, self.path.as_slice());
        push_slice(&mut buf, self.busid.as_slice());
        push_be32(&mut buf, self.busnum);
        push_be32(&mut buf, self.devnum);
        push_be32(&mut buf, self.speed);
        push_be16(&mut buf, self.id_vendor);
        push_be16(&mut buf, self.id_product);
        push_be16(&mut buf, self.bcd_device);
        buf.push(self.b_device_class);
        buf.push(self.b_device_sub_class);
        buf.push(self.b_device_protocol);
        buf.push(self.b_configuration_value);
        buf.push(self.b_num_configurations);
        buf.push(self.b_num_interfaces);
        assert(buf@ =~= device_wire(*self));
        buf
    }

    /// Deserializes a device from network-byte-order bytes. Fails exactly
    /// when fewer than `DEVICE_WIRE_SIZE` bytes are given; bytes beyond the
    /// record are ignored.
    pub fn from_wire(bytes: &[u8]) -> (r: Option<Self>)
        ensures
            r is Some <==> bytes@.len() >= DEVICE_WIRE_SIZE,
            r matches Some(d) ==> device_wire(d) == bytes@.subrange(0, DEVICE_WIRE_SIZE as int),
    {
        if bytes.len() < DEVICE_WIRE_SIZE {
            return None;
        }
        let path: [u8; USBIP_PATH_SIZE] = array_at(bytes, 0);
        let busid: [u8; USBIP_BUSID_SIZE] = array_at(bytes, USBIP_PATH_SIZE);
        let off: usize = USBIP_PATH_SIZE + USBIP_BUSID_SIZE;
        let busnum = get_u32_be(bytes, off);
        let devnum = get_u32_be(bytes, off + 4);
        let speed = get_u32_be(bytes, off + 8);
        let id_vendor = get_u16_be(bytes, off + 12);
        let id_product = get_u16_be(bytes, off + 14);
        let bcd_device = get_u16_be(bytes, off + 16);
        let d = UsbIpDevice {
            path,
            busid,
            busnum,
            devnum,
            speed,
            id_vendor,
            id_product,
            bcd_device,
            b_device_class: bytes[off + 18],
            b_device_sub_class: bytes[off + 19],
            b_device_protocol: bytes[off + 20],
            b_configuration_value: bytes[off + 21],
            b_num_configurations: bytes[off + 22],
            b_num_interfaces: bytes[off + 23],
        };
        assert(device_wire(d) =~= bytes@.subrange(0, DEVICE_WIRE_SIZE as int));
        Some(d)
    }

    /// The bus ID as text: the field decoded as UTF-8 (invalid sequences
    /// replaced) with trailing NUL padding removed.
    pub fn busid_str(&self) -> (s: String)
        ensures
            s@ == busid_text(self.busid@),
    {
        busid_field_text(&self.busid)
    }
}

/// Decodes a 32-byte bus ID field: UTF-8 (invalid sequences replaced) with
/// trailing NULs removed.
pub fn busid_field_text(busid: &[u8; USBIP_BUSID_SIZE]) -> (s: String)
    ensures
        s@ == busid_text(busid@),
{
    let decoded = utf8_lossy(busid.as_slice());
    trim_trailing_nul(decoded.as_str())
}

/// Builds an 8-byte USB/IP OP header: u16 version (BE) + u16 code (BE) +
/// u32 status (BE).
pub fn build_op_header(code: u16, status: u32) -> (h: [u8; 8])
    ensures
        h@ == op_header(code, status),
{
    let mut h = [0u8; 8];
    h[0] = (USBIP_VERSION >> 8u16) as u8;
    h[1] = USBIP_VERSION as u8;
    h[2] = (code >> 8u16) as u8;
    h[3] = code as u8;
    h[4] = (status >> 24u32) as u8;
    h[5] = (status >> 16u32) as u8;
    h[6] = (status >> 8u32) as u8;
    h[7] = status as u8;
    assert(h@ =~= op_header(code, status));
    h
}

/// The fields of an 8-byte OP header. For `USBIP_CMD_SUBMIT` and
/// `USBIP_CMD_UNLINK` the last field carries the sequence number.
#[derive(Debug, Clone, Copy, PartialEq, Eq)]
pub struct OpHeader {
    pub version: u16,
    pub code: u16,
    pub status: u32,
}

/// Splits an 8-byte OP header into its fields.
pub fn parse_op_header(h: &[u8; 8]) -> (r: OpHeader)
    ensures
        be16(r.version) + be16(r.code) + be32(r.status) == h@,
{
    let s = h.as_slice();
    let version = get_u16_be(s, 0);
    let code = get_u16_be(s, 2);
    let status = get_u32_be(s, 4);
    assert(be16(version) + be16(code) + be32(status) =~= h@);
    OpHeader { version, code, status }
}

/// Where each field of a device record sits on the wire: path[256],
/// busid[32], busnum, devnum and speed (u32), idVendor, idProduct and
/// bcdDevice (u16), all big-endian, then the class, subclass and protocol,
/// configuration value, configuration count and interface count bytes.
pub proof fn law_device_wire_layout(d: UsbIpDevice)
    ensures
        device_wire(d).len() == 312,
        device_wire(d).subrange(0, 256) == d.path@,
        device_wire(d).subrange(256, 288) == d.busid@,
        device_wire(d).subrange(288, 292) == be32(d.busnum),
        device_wire(d).subrange(292, 296) == be32(d.devnum),
        device_wire(d).subrange(296, 300) == be32(d.speed),
        device_wire(d).subrange(300, 302) == be16(d.id_vendor),
        device_wire(d).subrange(302, 304) == be16(d.id_product),
        device_wire(d).subrange(304, 306) == be16(d.bcd_device),
        device_wire(d)[306] == d.b_device_class,
        device_wire(d)[307] == d.b_device_sub_class,
        device_wire(d)[308] == d.b_device_protocol,
        device_wire(d)[309] == d.b_configuration_value,
        device_wire(d)[310] == d.b_num_configurations,
        device_wire(d)[311] == d.b_num_interfaces,
{
    let w = device_wire(d);
    assert(w.subrange(0, 256) =~= d.path@);
    assert(w.subrange(256, 288) =~= d.busid@);
    assert(w.subrange(288, 292) =~= be32(d.busnum));
    assert(w.subrange(292, 296) =~= be32(d.devnum));
    assert(w.subrange(296, 300) =~= be32(d.speed));
    assert(w.subrange(300, 302) =~= be16(d.id_vendor));
    assert(w.subrange(302, 304) =~= be16(d.id_product));
    assert(w.subrange(304, 306) =~= be16(d.bcd_device));
}

/// A device is determined by its wire image: deserializing what
/// `to_wire` produced gives back the same device.
pub proof fn law_device_wire_injective(d: UsbIpDevice, e: UsbIpDevice)
    requires
        device_wire(e) == device_wire(d),
    ensures
        e == d,
{
    let w = device_wire(d);
    assert(e.path@ =~= w.subrange(0, 256));
    assert(d.path@ =~= w.subrange(0, 256));
    assert(e.path =~= d.path);
    assert(e.busid@ =~= w.subrange(256, 288));
    assert(d.busid@ =~= w.subrange(256, 288));
    assert(e.busid =~= d.busid);
    assert(be32(e.busnum) =~= w.subrange(288, 292));
    assert(be32(d.busnum) =~= w.subrange(288, 292));
    lemma_be32_injective(e.busnum, d.busnum);
    assert(be32(e.devnum) =~= w.subrange(292, 296));
    assert(be32(d.devnum) =~= w.subrange(292, 296));
    lemma_be32_injective(e.devnum, d.devnum);
    assert(be32(e.speed) =~= w.subrange(296, 300));
    assert(be32(d.speed) =~= w.subrange(296, 300));
    lemma_be32_injective(e.speed, d.speed);
    assert(be16(e.id_vendor) =~= w.subrange(300, 302));
    assert(be16(d.id_vendor) =~= w.subrange(300, 302));
    lemma_be16_injective(e.id_vendor, d.id_vendor);
    assert(be16(e.id_product) =~= w.subrange(302, 304));
    assert(be16(d.id_product) =~= w.subrange(302, 304));
    lemma_be16_injective(e.id_product, d.id_product);
    assert(be16(e.bcd_device) =~= w.subrange(304, 306));
    assert(be16(d.bcd_device) =~= w.subrange(304, 306));
    lemma_be16_injective(e.bcd_device, d.bcd_device);
    assert(w[306] == e.b_device_class && w[307] == e.b_device_sub_class);
    assert(w[308] == e.b_device_protocol && w[309] == e.b_configuration_value);
    assert(w[310] == e.b_num_configurations && w[311] == e.b_num_interfaces);
}

/// Parsing the wire image of `d` yields `d`: whatever `from_wire` returns on
/// the bytes of `to_wire` is `Some(d)`.
pub proof fn law_from_wire_of_to_wire(d: UsbIpDevice, parsed: Option<UsbIpDevice>)
    requires
        parsed is Some <==> device_wire(d).len() >= DEVICE_WIRE_SIZE,
        parsed matches Some(e) ==> device_wire(e) == device_wire(d).subrange(
            0,
            DEVICE_WIRE_SIZE as int,
        ),
    ensures
        parsed == Some(d),
{
    let w = device_wire(d);
    assert(w.subrange(0, DEVICE_WIRE_SIZE as int) =~= w);
    law_device_wire_injective(d, parsed->0);
}

/// Reading an OP header built by `build_op_header` gives back the protocol
/// version, the code and the status.
pub proof fn law_op_header_roundtrip(code: u16, status: u32, parsed: OpHeader)
    requires
        be16(parsed.version) + be16(parsed.code) + be32(parsed.status) == op_header(code, status),
    ensures
        parsed.version == USBIP_VERSION,
        parsed.code == code,
        parsed.status == status,
{
    let h = op_header(code, status);
    let p = be16(parsed.version) + be16(parsed.code) + be32(parsed.status);
    assert(be16(parsed.version) =~= p.subrange(0, 2));
    assert(be16(USBIP_VERSION) =~= h.subrange(0, 2));
    lemma_be16_injective(parsed.version, USBIP_VERSION);
    assert(be16(parsed.code) =~= p.subrange(2, 4));
    assert(be16(code) =~= h.subrange(2, 4));
    lemma_be16_injective(parsed.code, code);
    assert(be32(parsed.status) =~= p.subrange(4, 8));
    assert(be32(status) =~= h.subrange(4, 8));
    lemma_be32_injective(parsed.status, status);
}

} // verus!

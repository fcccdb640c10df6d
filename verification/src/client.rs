//! The USB/IP client's side: requests it sends, how it checks replies, how
//! it reads device records, and the inputs it hands to the Windows VHCI
//! driver.
use vstd::prelude::*;
use vstd::string::StringSliceAdditionalSpecFns;
use vstd::utf8::encode_utf8;
use crate::bytes::{be16, be32, get_u16_be, get_u32_be, le32, push_le32, push_slice, push_zeros, zeros, lemma_be16_injective, lemma_be32_injective};
use crate::protocol::{
    android_vid_list, busid_text, build_op_header, device_wire, is_android_vid, op_header,
    UsbIpDevice, DEVICE_WIRE_SIZE, OP_REP_DEVLIST, OP_REP_IMPORT, OP_REQ_IMPORT, USBIP_BUSID_SIZE,
    USBIP_PATH_SIZE,
};
use crate::server::{
    busid_bytes, busid_chars, describes, devices_wire, devlist_reply_bytes, import_answer,
    lemma_busid_bytes_ascii, lemma_devices_wire, DeviceDescriptorInfo, ImportReply,
};
use crate::text::{lemma_ascii_decode, lemma_padded_text, lossy_text, pad_to, utf8_lossy};

verus! {

/// A device as the client reports it.
#[derive(Debug)]
pub struct DeviceInfo {
    pub busid: String,
    pub vid: u16,
    pub pid: u16,
    pub is_android: bool,
}

/// Number of leading bytes of a record the client reads (up to and including
/// the product ID).
pub const LISTING_PREFIX_SIZE: usize = 304;

/// True when `n` is the position of the first zero byte of `field`, or the
/// field's length when it holds none.
pub open spec fn first_zero(field: Seq<u8>, n: int) -> bool {
    &&& 0 <= n <= field.len()
    &&& forall|j: int| 0 <= j < n ==> #[trigger] field[j] != 0u8
    &&& n == field.len() || field[n] == 0u8
}

/// What the client makes of a device record in a device list: the bus ID is
/// the field up to its first zero byte, decoded as UTF-8 (invalid sequences
/// replaced); vendor and product IDs are read big-endian.
pub open spec fn listing_info(r: DeviceInfo, record: Seq<u8>) -> bool {
    let field = record.subrange(USBIP_PATH_SIZE as int, (USBIP_PATH_SIZE + USBIP_BUSID_SIZE) as int);
    &&& exists|n: int| first_zero(field, n) && r.busid@ == lossy_text(field.take(n))
    &&& be16(r.vid) == record.subrange(300, 302)
    &&& be16(r.pid) == record.subrange(302, 304)
    &&& r.is_android == android_vid_list().contains(r.vid)
}

/// What the client makes of the record returned by a granted import: the
/// requested bus ID, with vendor and product IDs read big-endian.
pub open spec fn import_info(r: DeviceInfo, busid: Seq<char>, record: Seq<u8>) -> bool {
    &&& r.busid@ == busid
    &&& be16(r.vid) == record.subrange(300, 302)
    &&& be16(r.pid) == record.subrange(302, 304)
    &&& r.is_android == android_vid_list().contains(r.vid)
}

/// The length of the text in a zero-padded field: the position of its first
/// zero byte, or the field's length.
pub fn text_len(field: &[u8]) -> (n: usize)
    ensures
        first_zero(field@, n as int),
{
    let mut i: usize = 0;
    while i < field.len()
        invariant
            i <= field@.len(),
            forall|j: int| 0 <= j < i ==> #[trigger] field@[j] != 0u8,
        decreases field@.len() - i,
    {
        if field[i] == 0 {
            return i;
        }
        i = i + 1;
    }
    i
}

/// Copies `len` bytes of `bytes` starting at `off`.
fn sub_bytes(bytes: &[u8], off: usize, len: usize) -> (r: Vec<u8>)
    requires
        off + len <= bytes@.len(),
    ensures
        r@ == bytes@.subrange(off as int, off + len),
{
    let mut r: Vec<u8> = Vec::new();
    let total = bytes.len();
    let mut i: usize = 0;
    while i < len
        invariant
            i <= len,
            total == bytes@.len(),
            off + len <= bytes@.len(),
            r@ == bytes@.subrange(off as int, off + i),
        decreases len - i,
    {
        r.push(bytes[off + i]);
        i = i + 1;
        assert(r@ =~= bytes@.subrange(off as int, off + i));
    }
    r
}

impl DeviceInfo {
    /// Reads a device record of a device list: the bus ID up to its first
    /// zero byte, decoded as UTF-8, and the vendor and product IDs.
    pub fn from_listing(record: &[u8]) -> (r: DeviceInfo)
        requires
            record@.len() >= LISTING_PREFIX_SIZE,
        ensures
            listing_info(r, record@),
    {
        let field = sub_bytes(record, USBIP_PATH_SIZE, USBIP_BUSID_SIZE);
        let n = text_len(field.as_slice());
        let text = sub_bytes(field.as_slice(), 0, n);
        let busid = utf8_lossy(text.as_slice());
        assert(text@ =~= field@.take(n as int));
        let vid = get_u16_be(record, 300);
        let pid = get_u16_be(record, 302);
        DeviceInfo { busid, vid, pid, is_android: is_android_vid(vid) }
    }

    /// The device granted by an import: the requested bus ID with the vendor
    /// and product IDs read from the returned record.
    pub fn from_import(busid: &str, record: &[u8]) -> (r: DeviceInfo)
        requires
            record@.len() >= LISTING_PREFIX_SIZE,
        ensures
            import_info(r, busid@, record@),
    {
        let vid = get_u16_be(record, 300);
        let pid = get_u16_be(record, 302);
        DeviceInfo { busid: busid.to_owned(), vid, pid, is_android: is_android_vid(vid) }
    }
}

/// The `OP_REQ_IMPORT` request for `busid`: the OP header (status 0) and the
/// bus ID's bytes, cut to 32 and zero-padded to 32.
pub open spec fn import_request_bytes(busid: Seq<char>) -> Seq<u8> {
    op_header(OP_REQ_IMPORT, 0) + pad_to(encode_utf8(busid), USBIP_BUSID_SIZE as nat)
}

/// Builds the `OP_REQ_IMPORT` request for `busid`.
pub fn import_request(busid: &str) -> (r: Vec<u8>)
    ensures
        r@ == import_request_bytes(busid@),
        r@.len() == 8 + USBIP_BUSID_SIZE,
{
    let mut out: Vec<u8> = Vec::with_capacity(8 + USBIP_BUSID_SIZE);
    let h = build_op_header(OP_REQ_IMPORT, 0);
    push_slice(&mut out, h.as_slice());
    let field: [u8; USBIP_BUSID_SIZE] = crate::server::fixed_field(busid.as_bytes());
    push_slice(&mut out, field.as_slice());
    out
}

/// Why a reply header was not accepted.
#[derive(Debug, Clone, Copy, PartialEq, Eq)]
pub enum ReplyError {
    /// The reply carried another code than the one expected.
    UnexpectedCode { expected: u16, got: u16 },
    /// The server reported a non-zero status.
    ServerStatus(u32),
}

/// `r` is the verdict on the reply header `h` when `expected` is the code
/// wanted: accepted when the code (bytes 2..4) is `expected` and the status
/// (bytes 4..8) is 0; otherwise the other code, or else the non-zero status.
pub open spec fn reply_check(r: Result<(), ReplyError>, h: Seq<u8>, expected: u16) -> bool {
    match r {
        Ok(()) => be16(expected) == h.subrange(2, 4) && h.subrange(4, 8) == be32(0),
        Err(ReplyError::UnexpectedCode { expected: e, got }) => e == expected && got != expected
            && be16(got) == h.subrange(2, 4),
        Err(ReplyError::ServerStatus(s)) => be16(expected) == h.subrange(2, 4) && s != 0 && be32(
            s,
        ) == h.subrange(4, 8),
    }
}

/// Checks the 8-byte header of a reply: its code must be `expected` and its
/// status 0. The code is checked first.
pub fn check_reply_header(h: &[u8; 8], expected: u16) -> (r: Result<(), ReplyError>)
    ensures
        reply_check(r, h@, expected),
{
    let s = h.as_slice();
    let code = get_u16_be(s, 2);
    let status = get_u32_be(s, 4);
    if code != expected {
        return Err(ReplyError::UnexpectedCode { expected, got: code });
    }
    if status != 0 {
        return Err(ReplyError::ServerStatus(status));
    }
    Ok(())
}

/// The input of the VHCI plug-in request for `busid`: the bus ID length
/// (at most 31, little-endian u32), that many bytes of the bus ID, then
/// zeros up to 40 bytes (the rest of the bus ID field and the socket).
pub open spec fn vhci_plugin_bytes(busid: Seq<u8>) -> Seq<u8> {
    let n = if busid.len() < 31 { busid.len() } else { 31 };
    le32(n as u32) + busid.take(n as int) + zeros((36 - n) as nat)
}

/// The input of the VHCI unplug request for `busid`: like the plug-in input
/// without the socket field, 36 bytes in all.
pub open spec fn vhci_unplug_bytes(busid: Seq<u8>) -> Seq<u8> {
    let n = if busid.len() < 31 { busid.len() } else { 31 };
    le32(n as u32) + busid.take(n as int) + zeros((32 - n) as nat)
}

/// Appends the length-prefixed bus ID (at most 31 bytes) and zero-fills
/// the bus ID field up to `total` bytes.
fn push_vhci_busid(out: &mut Vec<u8>, busid: &str, total: usize)
    requires
        old(out)@.len() == 0,
        total == 36 || total == 40,
    ensures
        total == 40 ==> final(out)@ == vhci_plugin_bytes(busid.spec_bytes()),
        total == 36 ==> final(out)@ == vhci_unplug_bytes(busid.spec_bytes()),
{
    let b = busid.as_bytes();
    let n: usize = if b.len() < 31 {
        b.len()
    } else {
        31
    };
    push_le32(out, n as u32);
    let part = sub_bytes(b, 0, n);
    push_slice(out, part.as_slice());
    push_zeros(out, total - 4 - n);
    assert(part@ =~= b@.take(n as int));
    if total == 40 {
        assert(final(out)@ =~= vhci_plugin_bytes(busid.spec_bytes()));
    } else {
        assert(final(out)@ =~= vhci_unplug_bytes(busid.spec_bytes()));
    }
}

/// The VHCI inputs carry at most 31 bytes of the bus ID: their first four
/// bytes (little-endian) give how many, those bytes follow unchanged, and
/// the rest up to 40 (plug-in) or 36 (unplug) bytes is zero.
pub proof fn law_vhci_inputs(busid: Seq<u8>)
    ensures
        ({
            let n = if busid.len() < 31 { busid.len() as int } else { 31 };
            let p = vhci_plugin_bytes(busid);
            let u = vhci_unplug_bytes(busid);
            &&& p.len() == 40
            &&& u.len() == 36
            &&& p[0] + p[1] * 0x100 + p[2] * 0x10000 + p[3] * 0x1000000 == n
            &&& u[0] + u[1] * 0x100 + u[2] * 0x10000 + u[3] * 0x1000000 == n
            &&& p.subrange(4, 4 + n) == busid.take(n)
            &&& u.subrange(4, 4 + n) == busid.take(n)
            &&& forall|i: int| 4 + n <= i < 40 ==> #[trigger] p[i] == 0u8
            &&& forall|i: int| 4 + n <= i < 36 ==> #[trigger] u[i] == 0u8
        }),
{
    let n = if busid.len() < 31 { busid.len() as int } else { 31 };
    crate::bytes::law_le_values(0, n as u32);
    let p = vhci_plugin_bytes(busid);
    let u = vhci_unplug_bytes(busid);
    assert(p.subrange(4, 4 + n) =~= busid.take(n));
    assert(u.subrange(4, 4 + n) =~= busid.take(n));
    assert(p[0] == le32(n as u32)[0] && p[1] == le32(n as u32)[1]);
    assert(p[2] == le32(n as u32)[2] && p[3] == le32(n as u32)[3]);
    assert(u[0] == le32(n as u32)[0] && u[1] == le32(n as u32)[1]);
    assert(u[2] == le32(n as u32)[2] && u[3] == le32(n as u32)[3]);
}

/// Builds the 40-byte input of the VHCI plug-in request for `busid`.
pub fn vhci_plugin_input(busid: &str) -> (r: Vec<u8>)
    ensures
        r@ == vhci_plugin_bytes(busid.spec_bytes()),
        r@.len() == 40,
{
    let mut out: Vec<u8> = Vec::new();
    push_vhci_busid(&mut out, busid, 40);
    out
}

/// Builds the 36-byte input of the VHCI unplug request for `busid`.
pub fn vhci_unplug_input(busid: &str) -> (r: Vec<u8>)
    ensures
        r@ == vhci_unplug_bytes(busid.spec_bytes()),
        r@.len() == 36,
{
    let mut out: Vec<u8> = Vec::new();
    push_vhci_busid(&mut out, busid, 36);
    out
}

/// A bus ID that fits the 32-byte field and does not end in NUL reaches the
/// server unchanged: the text the server reads from the bus ID field of the
/// client's import request is the requested bus ID.
pub proof fn law_import_request_busid(busid: Seq<char>)
    requires
        encode_utf8(busid).len() <= USBIP_BUSID_SIZE,
        busid.len() == 0 || busid.last() != '\0',
    ensures
        import_request_bytes(busid).subrange(8, 8 + USBIP_BUSID_SIZE as int).len() == USBIP_BUSID_SIZE,
        busid_text(import_request_bytes(busid).subrange(8, 8 + USBIP_BUSID_SIZE as int)) == busid,
{
    let field = pad_to(encode_utf8(busid), USBIP_BUSID_SIZE as nat);
    assert(import_request_bytes(busid).subrange(8, 8 + USBIP_BUSID_SIZE as int) =~= field);
    lemma_padded_text(busid, USBIP_BUSID_SIZE as nat);
}

/// A client importing a device under the bus ID the server lists it as is
/// granted a device with that bus ID: the server does not answer "not found"
/// while an enumerated device carries the requested "<bus>-<address>".
pub proof fn law_import_of_listed_device(
    devs: Seq<UsbIpDevice>,
    k: int,
    info: DeviceDescriptorInfo,
    r: ImportReply,
)
    requires
        0 <= k < devs.len(),
        describes(devs[k], info),
        import_answer(
            r,
            busid_text(
                import_request_bytes(busid_chars(info.bus_number, info.address)).subrange(
                    8,
                    8 + USBIP_BUSID_SIZE as int,
                ),
            ),
            devs,
        ),
    ensures
        r.device_index is Some,
        r.busid@ == busid_chars(info.bus_number, info.address),
        r.reply@.subrange(0, 8) == op_header(OP_REP_IMPORT, 0),
{
    let c = busid_chars(info.bus_number, info.address);
    let b = busid_bytes(info.bus_number, info.address);
    lemma_busid_bytes_ascii(info.bus_number, info.address);
    lemma_ascii_decode(b);
    assert(c.last() != '\0') by {
        let x = b.last();
        assert(c.last() == x as char);
        assert((x as char) as u32 == x as u32);
    }
    law_import_request_busid(c);
    crate::server::law_descriptor_busid(devs[k], info);
    if r.device_index is None {
        assert(busid_text(devs[k].busid@) == c);
        assert(false);
    }
    assert(r.reply@.subrange(0, 8) =~= op_header(OP_REP_IMPORT, 0));
}

/// Listing a server's devices gives one entry per device, in order, each
/// with the bus ID the server offers the device under and its vendor and
/// product IDs; the reply header is accepted and the count is the number of
/// devices.
pub proof fn law_devlist_exchange(
    devs: Seq<UsbIpDevice>,
    infos: Seq<DeviceDescriptorInfo>,
    check: Result<(), ReplyError>,
    count: u32,
    entries: Seq<DeviceInfo>,
)
    requires
        devs.len() == infos.len(),
        forall|i: int| 0 <= i < devs.len() ==> describes(#[trigger] devs[i], infos[i]),
        devs.len() <= u32::MAX,
        reply_check(check, devlist_reply_bytes(devs).subrange(0, 8), OP_REP_DEVLIST),
        be32(count) == devlist_reply_bytes(devs).subrange(8, 12),
        entries.len() == count,
        forall|i: int|
            0 <= i < count ==> listing_info(
                #[trigger] entries[i],
                devlist_reply_bytes(devs).subrange(
                    12 + 312 * i,
                    12 + 312 * i + 312,
                ),
            ),
    ensures
        check is Ok,
        count == devs.len(),
        forall|i: int|
            0 <= i < devs.len() ==> {
                &&& (#[trigger] entries[i]).busid@ == busid_text(devs[i].busid@)
                &&& entries[i].busid@ == busid_chars(infos[i].bus_number, infos[i].address)
                &&& entries[i].vid == devs[i].id_vendor
                &&& entries[i].pid == devs[i].id_product
            },
{
    let reply = devlist_reply_bytes(devs);
    let w = devices_wire(devs);
    lemma_devices_wire(devs);
    assert(reply.subrange(0, 8) =~= op_header(OP_REP_DEVLIST, 0));
    law_check_built_header(OP_REP_DEVLIST, 0, OP_REP_DEVLIST, check);
    assert(reply.subrange(8, 12) =~= be32(devs.len() as u32));
    lemma_be32_injective(count, devs.len() as u32);
    assert forall|i: int| 0 <= i < devs.len() implies {
        &&& (#[trigger] entries[i]).busid@ == busid_text(devs[i].busid@)
        &&& entries[i].busid@ == busid_chars(infos[i].bus_number, infos[i].address)
        &&& entries[i].vid == devs[i].id_vendor
        &&& entries[i].pid == devs[i].id_product
    } by {
        let rec = reply.subrange(12 + 312 * i, 12 + 312 * i + 312);
        assert(w.subrange(312 * i, 312 * i + 312) == device_wire(devs[i]));
        assert(rec =~= w.subrange(312 * i, 312 * i + 312));
        assert(describes(devs[i], infos[i]));
        law_listing_ids(devs[i], entries[i]);
        law_listing_busid(devs[i], infos[i], entries[i]);
        crate::server::law_descriptor_busid(devs[i], infos[i]);
    }
}

/// Importing a bus ID that fits the field and does not end in NUL, from any
/// server device list: when some device carries that bus ID, the first such
/// device is granted, the reply is accepted and the client reports the
/// requested bus ID with that device's vendor and product IDs; when none
/// does, the client sees the server's status 1.
pub proof fn law_import_exchange(
    devs: Seq<UsbIpDevice>,
    busid: Seq<char>,
    r: ImportReply,
    check: Result<(), ReplyError>,
    info: DeviceInfo,
)
    requires
        encode_utf8(busid).len() <= USBIP_BUSID_SIZE,
        busid.len() == 0 || busid.last() != '\0',
        import_answer(
            r,
            busid_text(import_request_bytes(busid).subrange(8, 8 + USBIP_BUSID_SIZE as int)),
            devs,
        ),
        reply_check(check, r.reply@.subrange(0, 8), OP_REP_IMPORT),
        check is Ok ==> import_info(
            info,
            busid,
            r.reply@.subrange(8, 8 + DEVICE_WIRE_SIZE as int),
        ),
    ensures
        (exists|j: int| 0 <= j < devs.len() && busid_text(#[trigger] devs[j].busid@) == busid)
            ==> {
            &&& check is Ok
            &&& r.device_index is Some
            &&& busid_text(devs[r.device_index->0 as int].busid@) == busid
            &&& forall|j: int|
                0 <= j < r.device_index->0 ==> busid_text(#[trigger] devs[j].busid@) != busid
            &&& info.busid@ == busid
            &&& info.vid == devs[r.device_index->0 as int].id_vendor
            &&& info.pid == devs[r.device_index->0 as int].id_product
        },
        !(exists|j: int| 0 <= j < devs.len() && busid_text(#[trigger] devs[j].busid@) == busid)
            ==> check == Err::<(), ReplyError>(ReplyError::ServerStatus(1)),
{
    law_import_request_busid(busid);
    match r.device_index {
        Some(i) => {
            let d = devs[i as int];
            assert(r.reply@.subrange(0, 8) =~= op_header(OP_REP_IMPORT, 0));
            law_check_built_header(OP_REP_IMPORT, 0, OP_REP_IMPORT, check);
            let rec = r.reply@.subrange(8, 8 + DEVICE_WIRE_SIZE as int);
            assert(rec =~= device_wire(d));
            assert(be16(d.id_vendor) =~= rec.subrange(300, 302));
            assert(be16(d.id_product) =~= rec.subrange(302, 304));
            lemma_be16_injective(info.vid, d.id_vendor);
            lemma_be16_injective(info.pid, d.id_product);
        },
        None => {
            assert(r.reply@.subrange(0, 8) =~= op_header(OP_REP_IMPORT, 1));
            law_check_built_header(OP_REP_IMPORT, 1, OP_REP_IMPORT, check);
        },
    }
}

/// The vendor and product IDs the client reads from a device record are the
/// ones the server wrote into it.
pub proof fn law_listing_ids(d: UsbIpDevice, r: DeviceInfo)
    requires
        listing_info(r, device_wire(d)),
    ensures
        r.vid == d.id_vendor,
        r.pid == d.id_product,
        r.is_android == android_vid_list().contains(d.id_vendor),
{
    let w = device_wire(d);
    assert(be16(d.id_vendor) =~= w.subrange(300, 302));
    assert(be16(d.id_product) =~= w.subrange(302, 304));
    lemma_be16_injective(r.vid, d.id_vendor);
    lemma_be16_injective(r.pid, d.id_product);
}

/// A client listing the devices of a server sees each enumerated device
/// under the bus ID "<bus>-<address>" the server offers it as.
pub proof fn law_listing_busid(d: UsbIpDevice, info: DeviceDescriptorInfo, r: DeviceInfo)
    requires
        describes(d, info),
        listing_info(r, device_wire(d)),
    ensures
        r.busid@ == busid_chars(info.bus_number, info.address),
{
    let w = device_wire(d);
    let field = w.subrange(USBIP_PATH_SIZE as int, (USBIP_PATH_SIZE + USBIP_BUSID_SIZE) as int);
    let b = busid_bytes(info.bus_number, info.address);
    assert(field =~= d.busid@);
    lemma_busid_bytes_ascii(info.bus_number, info.address);
    lemma_ascii_decode(b);
    let n = choose|n: int| first_zero(field, n) && r.busid@ == lossy_text(field.take(n));
    assert(field[b.len() as int] == 0u8);
    if n < b.len() {
        assert(field[n] == b[n]);
        assert(false);
    }
    if n > b.len() {
        assert(field[b.len() as int] != 0u8);
        assert(false);
    }
    assert(field.take(n) =~= b);
}

/// Checking the header of a reply built by `build_op_header`: it is
/// accepted exactly when it carries the expected code and status 0, and
/// otherwise the code mismatch, or else the status, is reported.
pub proof fn law_check_built_header(code: u16, status: u32, expected: u16, r: Result<(), ReplyError>)
    requires
        reply_check(r, op_header(code, status), expected),
    ensures
        code != expected ==> r == Err::<(), ReplyError>(
            ReplyError::UnexpectedCode { expected, got: code },
        ),
        code == expected && status != 0 ==> r == Err::<(), ReplyError>(
            ReplyError::ServerStatus(status),
        ),
        code == expected && status == 0 ==> r is Ok,
{
    let h = op_header(code, status);
    assert(h.subrange(2, 4) =~= be16(code));
    assert(h.subrange(4, 8) =~= be32(status));
    match r {
        Ok(()) => {
            lemma_be16_injective(expected, code);
            lemma_be32_injective(status, 0);
        },
        Err(ReplyError::UnexpectedCode { expected: e, got }) => {
            lemma_be16_injective(got, code);
        },
        Err(ReplyError::ServerStatus(s)) => {
            lemma_be16_injective(expected, code);
            lemma_be32_injective(s, status);
        },
    }
}

} // verus!

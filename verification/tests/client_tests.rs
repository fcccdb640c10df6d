use usb_passthrough::client::{
    check_reply_header, import_request, text_len, vhci_plugin_input, vhci_unplug_input,
    DeviceInfo, ReplyError,
};
use usb_passthrough::protocol::{build_op_header, UsbIpDevice, OP_REP_DEVLIST, OP_REP_IMPORT};
use usb_passthrough::server::{DeviceDescriptorInfo, UsbSpeed};

fn device(bus: u8, addr: u8, vid: u16, pid: u16) -> UsbIpDevice {
    UsbIpDevice::from_descriptor(&DeviceDescriptorInfo {
        bus_number: bus,
        address: addr,
        speed: UsbSpeed::Full,
        vendor_id: vid,
        product_id: pid,
        bcd_device: 0x0100,
        class_code: 0xff,
        sub_class_code: 0x42,
        protocol_code: 1,
        num_configurations: 1,
        active_configuration: Some(1),
    })
}

#[test]
fn import_request_layout() {
    let r = import_request("1-2");
    assert_eq!(r.len(), 40);
    assert_eq!(&r[0..8], &[0x01, 0x11, 0x80, 0x03, 0, 0, 0, 0]);
    assert_eq!(&r[8..11], b"1-2");
    assert!(r[11..].iter().all(|&b| b == 0));
}

#[test]
fn import_request_truncates_long_busid() {
    let long = "a".repeat(40);
    let r = import_request(&long);
    assert_eq!(r.len(), 40);
    assert!(r[8..].iter().all(|&b| b == b'a'));
}

#[test]
fn import_request_busid_reaches_server() {
    let r = import_request("3-14");
    let mut field = [0u8; 32];
    field.copy_from_slice(&r[8..40]);
    let devs = vec![device(3, 14, 1, 2)];
    let reply = usb_passthrough::server::import_reply(&field, &devs);
    assert_eq!(reply.busid, "3-14");
    assert_eq!(reply.device_index, Some(0));
}

#[test]
fn check_reply_header_accepts_expected() {
    assert_eq!(check_reply_header(&build_op_header(OP_REP_DEVLIST, 0), OP_REP_DEVLIST), Ok(()));
}

#[test]
fn check_reply_header_unexpected_code() {
    assert_eq!(
        check_reply_header(&build_op_header(OP_REP_IMPORT, 5), OP_REP_DEVLIST),
        Err(ReplyError::UnexpectedCode { expected: OP_REP_DEVLIST, got: OP_REP_IMPORT })
    );
}

#[test]
fn check_reply_header_server_status() {
    assert_eq!(
        check_reply_header(&build_op_header(OP_REP_IMPORT, 1), OP_REP_IMPORT),
        Err(ReplyError::ServerStatus(1))
    );
}

#[test]
fn listing_reads_busid_and_ids() {
    let w = device(2, 5, 0x18d1, 0x4ee7).to_wire();
    let info = DeviceInfo::from_listing(&w);
    assert_eq!(info.busid, "2-5");
    assert_eq!(info.vid, 0x18d1);
    assert_eq!(info.pid, 0x4ee7);
    assert!(info.is_android);
    let info = DeviceInfo::from_listing(&device(2, 6, 0x05ac, 1).to_wire());
    assert_eq!(info.busid, "2-6");
    assert!(!info.is_android);
}

#[test]
fn listing_busid_stops_at_first_zero() {
    let mut w = device(2, 5, 0x18d1, 0x4ee7).to_wire();
    w[256] = b'x';
    w[257] = 0;
    w[258] = b'y';
    assert_eq!(DeviceInfo::from_listing(&w).busid, "x");
    for b in w[256..288].iter_mut() {
        *b = b'z';
    }
    assert_eq!(DeviceInfo::from_listing(&w).busid, "z".repeat(32));
    w[256] = 0xc3;
    w[257] = 0x28;
    w[258] = 0;
    assert_eq!(DeviceInfo::from_listing(&w).busid, "\u{fffd}(");
}

#[test]
fn listing_accepts_prefix_of_304_bytes() {
    let w = device(1, 1, 0x2a96, 7).to_wire();
    let info = DeviceInfo::from_listing(&w[..304]);
    assert_eq!(info.vid, 0x2a96);
    assert_eq!(info.pid, 7);
    assert!(info.is_android);
}

#[test]
fn import_info_uses_requested_busid() {
    let w = device(7, 8, 0x04e8, 0x6860).to_wire();
    let info = DeviceInfo::from_import("7-8", &w);
    assert_eq!(info.busid, "7-8");
    assert_eq!(info.vid, 0x04e8);
    assert_eq!(info.pid, 0x6860);
    assert!(info.is_android);
}

#[test]
fn text_len_positions() {
    assert_eq!(text_len(&[1, 2, 0, 3]), 2);
    assert_eq!(text_len(&[0]), 0);
    assert_eq!(text_len(&[1, 2, 3]), 3);
    assert_eq!(text_len(&[]), 0);
}

#[test]
fn vhci_plugin_input_layout() {
    let r = vhci_plugin_input("1-2");
    assert_eq!(r.len(), 40);
    assert_eq!(&r[0..4], &[3, 0, 0, 0]);
    assert_eq!(&r[4..7], b"1-2");
    assert!(r[7..].iter().all(|&b| b == 0));
}

#[test]
fn vhci_inputs_cap_busid_at_31_bytes() {
    let long = "b".repeat(35);
    let r = vhci_plugin_input(&long);
    assert_eq!(r.len(), 40);
    assert_eq!(&r[0..4], &[31, 0, 0, 0]);
    assert!(r[4..35].iter().all(|&b| b == b'b'));
    assert!(r[35..].iter().all(|&b| b == 0));
    let u = vhci_unplug_input(&long);
    assert_eq!(u.len(), 36);
    assert_eq!(&u[0..4], &[31, 0, 0, 0]);
    assert_eq!(u[35], 0);
}

#[test]
fn vhci_unplug_input_layout() {
    let r = vhci_unplug_input("10-3");
    assert_eq!(r.len(), 36);
    assert_eq!(&r[0..4], &[4, 0, 0, 0]);
    assert_eq!(&r[4..8], b"10-3");
    assert!(r[8..].iter().all(|&b| b == 0));
}

#[test]
fn devlist_exchange_lists_every_device_in_order() {
    let devs = vec![device(1, 2, 0x18d1, 0x4ee7), device(3, 40, 0x05ac, 0x12a8), device(255, 1, 0x04e8, 1)];
    let reply = usb_passthrough::server::devlist_reply(&devs);
    let mut header = [0u8; 8];
    header.copy_from_slice(&reply[0..8]);
    assert_eq!(check_reply_header(&header, OP_REP_DEVLIST), Ok(()));
    let count = usb_passthrough::bytes::get_u32_be(&reply, 8) as usize;
    assert_eq!(count, devs.len());
    for i in 0..count {
        let rec = &reply[12 + 312 * i..12 + 312 * (i + 1)];
        let entry = DeviceInfo::from_listing(rec);
        assert_eq!(entry.busid, devs[i].busid_str());
        assert_eq!(entry.vid, devs[i].id_vendor);
        assert_eq!(entry.pid, devs[i].id_product);
    }
}

#[test]
fn import_exchange_rejected_when_no_device_matches() {
    let r = import_request("9-9");
    let mut field = [0u8; 32];
    field.copy_from_slice(&r[8..40]);
    let devs = vec![device(1, 2, 1, 2), device(1, 3, 3, 4)];
    let reply = usb_passthrough::server::import_reply(&field, &devs);
    let mut header = [0u8; 8];
    header.copy_from_slice(&reply.reply[0..8]);
    assert_eq!(check_reply_header(&header, OP_REP_IMPORT), Err(ReplyError::ServerStatus(1)));
}

#[test]
fn import_exchange_granted_reports_device_ids() {
    let r = import_request("1-3");
    let mut field = [0u8; 32];
    field.copy_from_slice(&r[8..40]);
    let devs = vec![device(1, 2, 1, 2), device(1, 3, 0x18d1, 0x4ee2), device(1, 3, 7, 8)];
    let reply = usb_passthrough::server::import_reply(&field, &devs);
    let mut header = [0u8; 8];
    header.copy_from_slice(&reply.reply[0..8]);
    assert_eq!(check_reply_header(&header, OP_REP_IMPORT), Ok(()));
    let info = DeviceInfo::from_import("1-3", &reply.reply[8..]);
    assert_eq!(info.busid, "1-3");
    assert_eq!((info.vid, info.pid), (0x18d1, 0x4ee2));
    assert!(info.is_android);
}

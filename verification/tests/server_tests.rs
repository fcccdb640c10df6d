use usb_passthrough::protocol::{parse_op_header, UsbIpDevice, USBIP_BUSID_SIZE};
use usb_passthrough::server::{after_import, Session, SessionAction};
use usb_passthrough::server::{
    busid_matches, classify_request, devlist_reply, format_busid, import_reply,
    ret_submit, DeviceDescriptorInfo, ServerRequest, TransferError, UrbAction, UrbOutcome,
    UrbSubmit, UsbSpeed,
};

fn info(bus: u8, addr: u8, vid: u16) -> DeviceDescriptorInfo {
    DeviceDescriptorInfo {
        bus_number: bus,
        address: addr,
        speed: UsbSpeed::High,
        vendor_id: vid,
        product_id: 0x4ee7,
        bcd_device: 0x0440,
        class_code: 0,
        sub_class_code: 0,
        protocol_code: 0,
        num_configurations: 1,
        active_configuration: None,
    }
}

fn field(s: &str) -> [u8; USBIP_BUSID_SIZE] {
    let mut f = [0u8; USBIP_BUSID_SIZE];
    f[..s.len()].copy_from_slice(s.as_bytes());
    f
}

#[test]
fn descriptor_device_fields() {
    let mut i = info(3, 17, 0x04e8);
    i.active_configuration = Some(2);
    i.speed = UsbSpeed::SuperPlus;
    let d = UsbIpDevice::from_descriptor(&i);
    assert_eq!(d.busid_str(), "3-17");
    let path_end = d.path.iter().position(|&b| b == 0).unwrap();
    assert_eq!(&d.path[..path_end], b"/sys/devices/pci0000:00/0000:00:00.0/usb3/17");
    assert!(d.path[path_end..].iter().all(|&b| b == 0));
    assert_eq!(d.busnum, 3);
    assert_eq!(d.devnum, 17);
    assert_eq!(d.speed, 5);
    assert_eq!(d.id_vendor, 0x04e8);
    assert_eq!(d.id_product, 0x4ee7);
    assert_eq!(d.bcd_device, 0x0440);
    assert_eq!(d.b_configuration_value, 2);
    let mut j = info(1, 1, 1);
    j.bcd_device = 0x1234;
    assert_eq!(UsbIpDevice::from_descriptor(&j).bcd_device, 0x1234);
    j.bcd_device = 0x0a00;
    assert_eq!(UsbIpDevice::from_descriptor(&j).bcd_device, 0x0a00);
    assert_eq!(d.b_num_configurations, 1);
    assert_eq!(d.b_num_interfaces, 0);
}

#[test]
fn descriptor_device_defaults_configuration_to_1() {
    let d = UsbIpDevice::from_descriptor(&info(255, 127, 1));
    assert_eq!(d.b_configuration_value, 1);
    assert_eq!(d.busid_str(), "255-127");
    assert_eq!(d.speed, 3);
}

#[test]
fn speed_codes_follow_libusb_order() {
    let speeds = [UsbSpeed::Unknown, UsbSpeed::Low, UsbSpeed::Full, UsbSpeed::High, UsbSpeed::Super, UsbSpeed::SuperPlus];
    for (n, s) in speeds.iter().enumerate() {
        assert_eq!(s.code(), n as u32);
    }
}

#[test]
fn busid_formatting_and_matching() {
    assert_eq!(format_busid(1, 2), "1-2");
    assert_eq!(format_busid(0, 0), "0-0");
    assert_eq!(format_busid(20, 105), "20-105");
    assert!(busid_matches(20, 105, "20-105"));
    assert!(!busid_matches(20, 105, "20-10"));
    assert!(!busid_matches(2, 1, "1-2"));
}

#[test]
fn descriptor_busid_is_found_again_by_matching() {
    let d = UsbIpDevice::from_descriptor(&info(4, 9, 1));
    assert!(busid_matches(4, 9, &d.busid_str()));
}

#[test]
fn devlist_reply_layout() {
    let devs = vec![UsbIpDevice::from_descriptor(&info(1, 2, 0x18d1)), UsbIpDevice::from_descriptor(&info(1, 3, 0x05ac))];
    let r = devlist_reply(&devs);
    assert_eq!(r.len(), 8 + 4 + 2 * 312);
    assert_eq!(&r[0..8], &[0x01, 0x11, 0x00, 0x05, 0, 0, 0, 0]);
    assert_eq!(&r[8..12], &[0, 0, 0, 2]);
    assert_eq!(&r[12..324], devs[0].to_wire().as_slice());
    assert_eq!(&r[324..636], devs[1].to_wire().as_slice());
}

#[test]
fn devlist_reply_empty() {
    let r = devlist_reply(&Vec::new());
    assert_eq!(r, vec![0x01, 0x11, 0x00, 0x05, 0, 0, 0, 0, 0, 0, 0, 0]);
}

#[test]
fn import_reply_grants_first_match() {
    let devs = vec![
        UsbIpDevice::from_descriptor(&info(1, 2, 0x18d1)),
        UsbIpDevice::from_descriptor(&info(1, 3, 0x04e8)),
        UsbIpDevice::from_descriptor(&info(1, 3, 0x0b05)),
    ];
    let r = import_reply(&field("1-3"), &devs);
    assert_eq!(r.device_index, Some(1));
    assert_eq!(r.busid, "1-3");
    assert_eq!(r.reply.len(), 8 + 312);
    assert_eq!(&r.reply[0..8], &[0x01, 0x11, 0x00, 0x03, 0, 0, 0, 0]);
    assert_eq!(&r.reply[8..], devs[1].to_wire().as_slice());
}

#[test]
fn import_reply_not_found_has_status_1() {
    let devs = vec![UsbIpDevice::from_descriptor(&info(1, 2, 0x18d1))];
    let r = import_reply(&field("9-9"), &devs);
    assert_eq!(r.device_index, None);
    assert_eq!(r.busid, "");
    assert_eq!(r.reply, vec![0x01, 0x11, 0x00, 0x03, 0, 0, 0, 1]);
}

#[test]
fn classify_request_codes() {
    let h = |code: u16, status: u32| {
        let mut b = [0u8; 8];
        b[0] = 1;
        b[1] = 0x11;
        b[2..4].copy_from_slice(&code.to_be_bytes());
        b[4..8].copy_from_slice(&status.to_be_bytes());
        parse_op_header(&b)
    };
    assert_eq!(classify_request(&h(0x8005, 0)), ServerRequest::DevList);
    assert_eq!(classify_request(&h(0x8003, 0)), ServerRequest::Import);
    assert_eq!(classify_request(&h(0x0001, 42)), ServerRequest::Submit { seqnum: 42 });
    assert_eq!(classify_request(&h(0x0002, 7)), ServerRequest::Unlink);
    assert_eq!(classify_request(&h(0x1234, 0)), ServerRequest::Unknown { code: 0x1234 });
}

fn body(direction: u32, ep: u32, flags: u32, len: u32, setup: [u8; 8]) -> [u8; 40] {
    let mut b = [0u8; 40];
    b[0..4].copy_from_slice(&5u32.to_be_bytes());
    b[4..8].copy_from_slice(&direction.to_be_bytes());
    b[8..12].copy_from_slice(&ep.to_be_bytes());
    b[12..16].copy_from_slice(&flags.to_be_bytes());
    b[16..20].copy_from_slice(&len.to_be_bytes());
    b[20..24].copy_from_slice(&6u32.to_be_bytes());
    b[24..28].copy_from_slice(&7u32.to_be_bytes());
    b[28..32].copy_from_slice(&8u32.to_be_bytes());
    b[32..40].copy_from_slice(&setup);
    b
}

#[test]
fn urb_parse_fields() {
    let u = UrbSubmit::parse(&body(1, 0x81, 0x200, 64, [1, 2, 3, 4, 5, 6, 7, 8]));
    assert_eq!(u.devid, 5);
    assert_eq!(u.direction, 1);
    assert_eq!(u.ep, 0x81);
    assert_eq!(u.transfer_flags, 0x200);
    assert_eq!(u.transfer_buffer_length, 64);
    assert_eq!(u.start_frame, 6);
    assert_eq!(u.number_of_packets, 7);
    assert_eq!(u.interval, 8);
    assert_eq!(u.setup, [1, 2, 3, 4, 5, 6, 7, 8]);
    assert_eq!(u.endpoint(), 1);
    assert!(u.is_in());
    assert!(!u.is_setup());
}

#[test]
fn urb_plan_control() {
    let u = UrbSubmit::parse(&body(1, 0x80, 1, 18, [0x80, 6, 0x00, 0x01, 0x09, 0x04, 0x12, 0x00]));
    assert_eq!(
        u.plan(true),
        UrbAction::ControlIn { bm_request_type: 0x80, b_request: 6, w_value: 0x0100, w_index: 0x0409, w_length: 18 }
    );
    assert_eq!(u.plan(false), UrbAction::NoDevice);
}

#[test]
fn urb_plan_bulk() {
    let u = UrbSubmit::parse(&body(1, 0x81, 0, 0, [0; 8]));
    assert_eq!(u.plan(true), UrbAction::BulkIn { endpoint: 1, length: 512 });
    let u = UrbSubmit::parse(&body(1, 0x82, 0, 1024, [0; 8]));
    assert_eq!(u.plan(true), UrbAction::BulkIn { endpoint: 2, length: 1024 });
    let u = UrbSubmit::parse(&body(0, 0x03, 0, 31, [0; 8]));
    assert_eq!(u.plan(true), UrbAction::BulkOut { endpoint: 3, length: 31 });
    let u = UrbSubmit::parse(&body(0, 0xff, 0, 0, [0; 8]));
    assert_eq!(u.plan(true), UrbAction::BulkOut { endpoint: 0x7f, length: 0 });
}

#[test]
fn urb_outcomes() {
    assert_eq!(UrbOutcome::from_transfer(&Ok(18)), UrbOutcome { actual_length: 18, status: 0 });
    assert_eq!(UrbOutcome::from_transfer(&Err(TransferError::Io)), UrbOutcome { actual_length: 0, status: 0 });
    assert_eq!(UrbOutcome::from_transfer(&Err(TransferError::Timeout)), UrbOutcome { actual_length: 0, status: -6 });
    assert_eq!(UrbOutcome::from_transfer(&Err(TransferError::Pipe)), UrbOutcome { actual_length: 0, status: -8 });
    assert_eq!(UrbOutcome::from_transfer(&Err(TransferError::Other)), UrbOutcome { actual_length: 0, status: -13 });
    assert_eq!(UrbOutcome::nothing_done(), UrbOutcome { actual_length: 0, status: 0 });
}

#[test]
fn ret_submit_layout() {
    let u = UrbSubmit::parse(&body(1, 0x81, 0, 64, [1, 2, 3, 4, 5, 6, 7, 8]));
    let r = ret_submit(0x01020304, &u, &UrbOutcome { actual_length: 13, status: -6 });
    assert_eq!(r.len(), 48);
    assert_eq!(&r[0..4], &[0x01, 0x11, 0x00, 0x03]);
    assert_eq!(&r[4..8], &(-6i32 as u32).to_be_bytes());
    assert_eq!(&r[8..12], &[1, 2, 3, 4]);
    assert_eq!(&r[12..16], &[0, 0, 0, 0]);
    assert_eq!(&r[16..20], &[0, 0, 0, 1]);
    assert_eq!(&r[20..24], &[0, 0, 0, 0x81]);
    assert_eq!(&r[24..28], &[0, 0, 0, 13]);
    assert_eq!(&r[28..40], &[0u8; 12]);
    assert_eq!(&r[40..48], &[1, 2, 3, 4, 5, 6, 7, 8]);
}

#[test]
fn after_import_opens_granted_device_only() {
    let devs = vec![UsbIpDevice::from_descriptor(&info(2, 4, 1))];
    match after_import(import_reply(&field("2-4"), &devs)) {
        SessionAction::OpenDevice { busid } => assert_eq!(busid, "2-4"),
        SessionAction::KeepDevice => panic!("granted import must open the device"),
    }
    assert!(matches!(after_import(import_reply(&field("2-5"), &devs)), SessionAction::KeepDevice));
}

#[test]
fn session_device_follows_granted_imports() {
    let mut s = Session::new();
    assert!(!s.has_device());
    s.record_import("", true);
    assert!(!s.has_device());
    s.record_import("1-2", true);
    assert!(s.has_device());
    assert_eq!(s.device.as_deref(), Some("1-2"));
    s.record_import("", false);
    assert_eq!(s.device.as_deref(), Some("1-2"));
    s.record_import("1-3", false);
    assert!(!s.has_device());
    s.record_import("1-4", true);
    assert_eq!(s.device.as_deref(), Some("1-4"));
}

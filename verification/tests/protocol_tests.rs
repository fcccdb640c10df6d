use usb_passthrough::bytes::get_u32_be;
use usb_passthrough::protocol::{
    build_op_header, is_android_vid, parse_op_header, UsbIpDevice, DEVICE_WIRE_SIZE,
    OP_REP_DEVLIST, OP_REQ_IMPORT, USBIP_BUSID_SIZE, USBIP_PATH_SIZE, USBIP_VERSION,
};

fn sample_device() -> UsbIpDevice {
    let mut path = [0u8; USBIP_PATH_SIZE];
    let p = b"/sys/devices/pci0000:00/0000:00:00.0/usb1/2";
    path[..p.len()].copy_from_slice(p);
    let mut busid = [0u8; USBIP_BUSID_SIZE];
    busid[..3].copy_from_slice(b"1-2");
    UsbIpDevice {
        path,
        busid,
        busnum: 1,
        devnum: 2,
        speed: 3,
        id_vendor: 0x18d1,
        id_product: 0x4ee7,
        bcd_device: 0x0440,
        b_device_class: 0xef,
        b_device_sub_class: 0x02,
        b_device_protocol: 0x01,
        b_configuration_value: 1,
        b_num_configurations: 2,
        b_num_interfaces: 0,
    }
}

#[test]
fn wire_size_is_312() {
    assert_eq!(DEVICE_WIRE_SIZE, 312);
    assert_eq!(sample_device().to_wire().len(), 312);
}

#[test]
fn to_wire_layout_is_network_order() {
    let w = sample_device().to_wire();
    assert_eq!(&w[0..5], b"/sys/");
    assert_eq!(&w[256..259], b"1-2");
    assert_eq!(w[259], 0);
    assert_eq!(&w[288..292], &[0, 0, 0, 1]);
    assert_eq!(&w[292..296], &[0, 0, 0, 2]);
    assert_eq!(&w[296..300], &[0, 0, 0, 3]);
    assert_eq!(&w[300..302], &[0x18, 0xd1]);
    assert_eq!(&w[302..304], &[0x4e, 0xe7]);
    assert_eq!(&w[304..306], &[0x04, 0x40]);
    assert_eq!(&w[306..312], &[0xef, 0x02, 0x01, 1, 2, 0]);
}

#[test]
fn from_wire_inverts_to_wire() {
    let d = sample_device();
    assert_eq!(UsbIpDevice::from_wire(&d.to_wire()), Some(d));
}

#[test]
fn to_wire_inverts_from_wire_and_ignores_trailing_bytes() {
    let mut bytes: Vec<u8> = (0..320u32).map(|i| (i * 7 % 251) as u8).collect();
    bytes[319] = 0xaa;
    let d = UsbIpDevice::from_wire(&bytes).unwrap();
    assert_eq!(d.to_wire(), bytes[..312].to_vec());
}

#[test]
fn from_wire_rejects_short_input() {
    assert_eq!(UsbIpDevice::from_wire(&[0u8; 311]), None);
    assert_eq!(UsbIpDevice::from_wire(&[]), None);
    assert!(UsbIpDevice::from_wire(&[0u8; 312]).is_some());
}

#[test]
fn busid_str_trims_nul_padding() {
    assert_eq!(sample_device().busid_str(), "1-2");
}

#[test]
fn busid_str_keeps_inner_nul_and_replaces_invalid_utf8() {
    let mut d = sample_device();
    d.busid = [0u8; USBIP_BUSID_SIZE];
    d.busid[0] = b'a';
    d.busid[1] = 0;
    d.busid[2] = 0xff;
    assert_eq!(d.busid_str(), "a\0\u{fffd}");
}

#[test]
fn busid_str_of_empty_field_is_empty() {
    let mut d = sample_device();
    d.busid = [0u8; USBIP_BUSID_SIZE];
    assert_eq!(d.busid_str(), "");
}

#[test]
fn op_header_layout() {
    assert_eq!(build_op_header(OP_REP_DEVLIST, 0), [0x01, 0x11, 0x00, 0x05, 0, 0, 0, 0]);
    assert_eq!(
        build_op_header(OP_REQ_IMPORT, 0x01020304),
        [0x01, 0x11, 0x80, 0x03, 0x01, 0x02, 0x03, 0x04]
    );
}

#[test]
fn op_header_roundtrip() {
    let h = parse_op_header(&build_op_header(0xbeef, 0xdeadbeef));
    assert_eq!(h.version, USBIP_VERSION);
    assert_eq!(h.code, 0xbeef);
    assert_eq!(h.status, 0xdeadbeef);
}

#[test]
fn get_u32_be_reads_network_order() {
    let bytes = [9u8, 0x12, 0x34, 0x56, 0x78, 9];
    assert_eq!(get_u32_be(&bytes, 1), 0x12345678);
    assert_eq!(get_u32_be(&bytes, 0), 0x09123456);
}

#[test]
fn android_vendor_ids() {
    for vid in [0x18d1u16, 0x04e8, 0x0b05, 0x12d1, 0x2717, 0x1004, 0x22b8, 0x0fce, 0x2a96] {
        assert!(is_android_vid(vid));
    }
    assert!(!is_android_vid(0x05ac));
    assert!(!is_android_vid(0));
}

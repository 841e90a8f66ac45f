use std::cell::Cell;
use std::rc::Rc;

use hidapi_lite::device::{
    id_from_digits, id_in_location, input_report_result, new_report_buffer, DeviceInfo, Interface,
    PRODUCT_ID_PATTERN, VENDOR_ID_PATTERN,
};
use hidapi_lite::error::{status_result, Error, IO_RETURN_SUCCESS};
use hidapi_lite::handle::{requested_report_id, HidHandle, HidSession};
use hidapi_lite::text::parse_hex_u16;

const NOT_OPEN: i32 = -536870195;

struct MockHandle {
    open_error: Option<i32>,
    payload: Vec<u8>,
    report_status: i32,
    extra_len: usize,
    closes: Rc<Cell<u32>>,
}

struct MockSession {
    payload: Vec<u8>,
    report_status: i32,
    extra_len: usize,
    closes: Rc<Cell<u32>>,
}

impl Drop for MockSession {
    fn drop(&mut self) {
        self.closes.set(self.closes.get() + 1);
    }
}

impl HidHandle for MockHandle {
    type Session = MockSession;

    fn open_interface(&self) -> Result<MockSession, i32> {
        match self.open_error {
            Some(status) => Err(status),
            None => Ok(MockSession {
                payload: self.payload.clone(),
                report_status: self.report_status,
                extra_len: self.extra_len,
                closes: self.closes.clone(),
            }),
        }
    }
}

impl HidSession for MockSession {
    fn get_report(&self, report_id: u8, buffer: &mut Vec<u8>) -> (i32, usize) {
        assert_eq!(report_id, requested_report_id(buffer));
        let n = self.payload.len().min(buffer.len().saturating_sub(1));
        if n == 0 {
            return (self.report_status, buffer.len().min(1) + self.extra_len);
        }
        buffer[1..1 + n].copy_from_slice(&self.payload[..n]);
        (self.report_status, 1 + n + self.extra_len)
    }

    fn set_report(&self, buffer: &[u8]) -> i32 {
        if buffer.is_empty() {
            NOT_OPEN
        } else {
            self.report_status
        }
    }
}

fn handle() -> MockHandle {
    MockHandle {
        open_error: None,
        payload: vec![],
        report_status: IO_RETURN_SUCCESS,
        extra_len: 0,
        closes: Rc::new(Cell::new(0)),
    }
}

fn iface(location: Option<i32>, pairs: Vec<(Option<i32>, Option<i32>)>, h: MockHandle) -> Interface<MockHandle> {
    Interface {
        location_id: location,
        usage_pairs: pairs,
        product_string: None,
        product_id: None,
        vendor_id: None,
        handle: h,
    }
}

fn utf16(s: &str) -> Vec<u16> {
    s.encode_utf16().collect()
}

#[test]
fn two_interfaces_at_one_location_fold_into_one_record() {
    let a = iface(Some(100), vec![(Some(1), Some(2))], handle());
    let b = iface(Some(100), vec![(Some(3), Some(4))], handle());
    let infos = DeviceInfo::from_interfaces(vec![a, b]);
    assert_eq!(infos.len(), 1);
    assert_eq!(infos[0].location(), "100");
    assert_eq!(infos[0].usages(), vec![(1, 2), (3, 4)]);
}

#[test]
fn interface_without_location_gives_no_record() {
    let a = iface(None, vec![(Some(1), Some(2))], handle());
    let infos = DeviceInfo::from_interfaces(vec![a]);
    assert_eq!(infos.len(), 0);
}

#[test]
fn no_interfaces_give_no_records() {
    let infos = DeviceInfo::<MockHandle>::from_interfaces(vec![]);
    assert!(infos.is_empty());
}

#[test]
fn records_keep_enumeration_order() {
    let a = iface(Some(7), vec![(Some(1), Some(1))], handle());
    let b = iface(Some(-3), vec![(Some(2), Some(2))], handle());
    let c = iface(None, vec![], handle());
    let d = iface(Some(7), vec![(Some(3), Some(3))], handle());
    let infos = DeviceInfo::from_interfaces(vec![a, b, c, d]);
    assert_eq!(infos.len(), 2);
    assert_eq!(infos[0].location(), "7");
    assert_eq!(infos[1].location(), "-3");
    assert_eq!(infos[0].usages(), vec![(1, 1), (3, 3)]);
    assert_eq!(infos[1].usages(), vec![(2, 2)]);
}

#[test]
fn unreadable_usage_entries_are_skipped() {
    let a = iface(
        Some(1),
        vec![(Some(6), None), (Some(1), Some(12)), (None, Some(1)), (None, None), (Some(5), Some(65280))],
        handle(),
    );
    let infos = DeviceInfo::from_interfaces(vec![a]);
    assert_eq!(infos[0].usages(), vec![(1, 12), (5, 65280)]);
}

#[test]
fn metadata_comes_from_first_interface() {
    let mut a = iface(Some(42), vec![], handle());
    a.product_string = Some("Keyboard".to_string());
    a.product_id = Some(0x1234);
    a.vendor_id = Some(0x05ac);
    let mut b = iface(Some(42), vec![], handle());
    b.product_string = Some("Other".to_string());
    b.product_id = Some(0x9999);
    b.vendor_id = Some(0x1111);
    let infos = DeviceInfo::from_interfaces(vec![a, b]);
    assert_eq!(infos.len(), 1);
    assert_eq!(infos[0].product_string(), Some("Keyboard"));
    assert_eq!(infos[0].product_id(), 0x1234);
    assert_eq!(infos[0].vendor_id(), 0x05ac);
}

#[test]
fn missing_ids_default_to_zero() {
    let a = iface(Some(5), vec![], handle());
    let infos = DeviceInfo::from_interfaces(vec![a]);
    assert_eq!(infos[0].product_id(), 0);
    assert_eq!(infos[0].vendor_id(), 0);
    assert_eq!(infos[0].product_string(), None);
}

#[test]
fn wide_ids_keep_their_low_sixteen_bits() {
    let mut a = iface(Some(5), vec![], handle());
    a.product_id = Some(0x1_0005);
    a.vendor_id = Some(-1);
    let infos = DeviceInfo::from_interfaces(vec![a]);
    assert_eq!(infos[0].product_id(), 5);
    assert_eq!(infos[0].vendor_id(), 0xffff);
}

#[test]
fn add_interface_extends_the_matching_record() {
    let mut infos = DeviceInfo::from_interfaces(vec![iface(Some(9), vec![(Some(1), Some(2))], handle())]);
    DeviceInfo::add_interface(&mut infos, iface(Some(10), vec![(Some(5), Some(6))], handle()));
    DeviceInfo::add_interface(&mut infos, iface(Some(9), vec![(Some(3), Some(4))], handle()));
    DeviceInfo::add_interface(&mut infos, iface(None, vec![(Some(7), Some(8))], handle()));
    assert_eq!(infos.len(), 2);
    assert_eq!(infos[0].usages(), vec![(1, 2), (3, 4)]);
    assert_eq!(infos[1].location(), "10");
}

#[test]
fn open_keeps_the_record_and_opens_first_element() {
    let mut first = handle();
    first.payload = vec![9, 8, 7];
    let mut second = handle();
    second.open_error = Some(NOT_OPEN);
    let mut a = iface(Some(100), vec![(Some(1), Some(2))], first);
    a.product_id = Some(77);
    let b = iface(Some(100), vec![(Some(3), Some(4))], second);
    let info = DeviceInfo::from_interfaces(vec![a, b]).pop().unwrap();
    let device = info.open().ok().expect("the first element opens");
    assert_eq!(device.info().location(), "100");
    assert_eq!(device.info().product_id(), 77);
    assert_eq!(device.info().usages(), vec![(1, 2), (3, 4)]);
}

#[test]
fn failed_open_returns_the_status() {
    let mut h = handle();
    h.open_error = Some(NOT_OPEN);
    let info = DeviceInfo::from_interfaces(vec![iface(Some(1), vec![], h)]).pop().unwrap();
    match info.open() {
        Err(e) => assert_eq!(e, Error::IOReturn(NOT_OPEN)),
        Ok(_) => panic!("open must fail"),
    }
}

#[test]
fn dropping_a_device_closes_it_once() {
    let h = handle();
    let closes = h.closes.clone();
    let info = DeviceInfo::from_interfaces(vec![iface(Some(1), vec![], h)]).pop().unwrap();
    let device = info.open().ok().unwrap();
    assert_eq!(closes.get(), 0);
    drop(device);
    assert_eq!(closes.get(), 1);
}

#[test]
fn input_report_is_id_then_written_bytes() {
    let mut h = handle();
    h.payload = vec![0x10, 0x20, 0x30];
    let info = DeviceInfo::from_interfaces(vec![iface(Some(1), vec![], h)]).pop().unwrap();
    let device = info.open().ok().unwrap();
    let report = device.get_input_report(5, 8).unwrap();
    assert_eq!(report, vec![5, 0x10, 0x20, 0x30]);
    let empty = device.get_input_report(2, 0).unwrap();
    assert_eq!(empty, vec![2]);
}

#[test]
fn input_report_into_fills_the_buffer() {
    let mut h = handle();
    h.payload = vec![1, 2];
    let info = DeviceInfo::from_interfaces(vec![iface(Some(1), vec![], h)]).pop().unwrap();
    let device = info.open().ok().unwrap();
    let mut buffer = vec![7, 0, 0, 0];
    assert_eq!(device.get_input_report_into(&mut buffer), Ok(()));
    assert_eq!(buffer, vec![7, 1, 2, 0]);
    let mut empty = vec![];
    assert_eq!(device.get_input_report_into(&mut empty), Ok(()));
    assert!(empty.is_empty());
}

#[test]
fn input_report_is_cut_to_capacity() {
    let mut h = handle();
    h.payload = vec![1, 2, 3, 4];
    h.extra_len = 10;
    let info = DeviceInfo::from_interfaces(vec![iface(Some(1), vec![], h)]).pop().unwrap();
    let device = info.open().ok().unwrap();
    let report = device.get_input_report(3, 2).unwrap();
    assert_eq!(report, vec![3, 1, 2]);
}

#[test]
fn failed_input_report_returns_the_status() {
    let mut h = handle();
    h.report_status = 0x2c0;
    let info = DeviceInfo::from_interfaces(vec![iface(Some(1), vec![], h)]).pop().unwrap();
    let device = info.open().ok().unwrap();
    assert_eq!(device.get_input_report(1, 4), Err(Error::IOReturn(0x2c0)));
}

#[test]
fn output_report_status_is_passed_on() {
    let info = DeviceInfo::from_interfaces(vec![iface(Some(1), vec![], handle())]).pop().unwrap();
    let device = info.open().ok().unwrap();
    assert_eq!(device.set_output_report(&[0, 1, 2]), Ok(()));
    assert_eq!(device.set_output_report(&[]), Err(Error::IOReturn(NOT_OPEN)));
}

#[test]
fn input_report_result_cases() {
    assert_eq!(input_report_result(vec![4, 1, 2, 3], 0, 2, 4), Ok(vec![4, 1]));
    assert_eq!(input_report_result(vec![4, 1, 2, 3], 0, 9, 3), Ok(vec![4, 1, 2]));
    assert_eq!(input_report_result(vec![4, 1], 0, 9, 9), Ok(vec![4, 1]));
    assert_eq!(input_report_result(vec![4, 1], -1, 2, 2), Err(Error::IOReturn(-1)));
}

#[test]
fn status_maps_to_result() {
    assert_eq!(status_result(IO_RETURN_SUCCESS), Ok(()));
    assert_eq!(status_result(NOT_OPEN), Err(Error::IOReturn(NOT_OPEN)));
}

#[test]
fn device_path_gives_location_and_ids() {
    let path = "\\\\?\\hid#vid_046d&pid_c52b&mi_01#7&1a2b3c4d&0&0000#{4d1e55b2-f16f-11cf-88cb-001111000030}";
    let info = DeviceInfo::from_device_path(&utf16(path), None, handle());
    assert_eq!(info.location(), path);
    assert_eq!(info.vendor_id(), 0x046d);
    assert_eq!(info.product_id(), 0xc52b);
    assert_eq!(info.product_string(), None);
    assert_eq!(info.usages(), vec![]);
}

#[test]
fn device_path_ids_ignore_case() {
    let info = DeviceInfo::from_device_path(&utf16("HID#VID_ABCD&PID_00Ef"), None, handle());
    assert_eq!(info.vendor_id(), 0xabcd);
    assert_eq!(info.product_id(), 0x00ef);
}

#[test]
fn device_path_without_usable_ids_gives_zero() {
    let info = DeviceInfo::from_device_path(&utf16("hid#vid_12345&pid_#x"), None, handle());
    assert_eq!(info.vendor_id(), 0);
    assert_eq!(info.product_id(), 0);
    let none = DeviceInfo::from_device_path(&utf16(""), None, handle());
    assert_eq!(none.location(), "");
    assert_eq!(none.vendor_id(), 0);
}

#[test]
fn product_name_ends_at_nul() {
    let mut name = utf16("Gamepad");
    name.resize(256, 0);
    name[200] = 0x41;
    let info = DeviceInfo::from_device_path(&utf16("hid#vid_0001&pid_0002"), Some(name), handle());
    assert_eq!(info.product_string(), Some("Gamepad"));
    let full = DeviceInfo::from_device_path(&utf16("p"), Some(utf16("Pad")), handle());
    assert_eq!(full.product_string(), Some("Pad"));
    let empty = DeviceInfo::from_device_path(&utf16("p"), Some(vec![0, 0x41]), handle());
    assert_eq!(empty.product_string(), Some(""));
}

#[test]
fn unpaired_surrogate_decodes_lossily() {
    let info = DeviceInfo::from_device_path(&vec![0x61, 0xd800, 0x62], None, handle());
    assert_eq!(info.location(), "a\u{fffd}b");
}

#[test]
fn ids_from_captured_digits() {
    assert_eq!(id_from_digits(Some("046d".to_string())), 0x046d);
    assert_eq!(id_from_digits(Some("FFFF".to_string())), 0xffff);
    assert_eq!(id_from_digits(Some("10000".to_string())), 0);
    assert_eq!(id_from_digits(None), 0);
    assert_eq!(id_in_location(PRODUCT_ID_PATTERN, "x_pid_1F&vid_2"), 0x1f);
    assert_eq!(id_in_location(VENDOR_ID_PATTERN, "x_pid_1F&vid_2"), 2);
}

#[test]
fn hex_parsing() {
    assert_eq!(parse_hex_u16("0"), Some(0));
    assert_eq!(parse_hex_u16("00000000ffff"), Some(0xffff));
    assert_eq!(parse_hex_u16("aB9"), Some(0xab9));
    assert_eq!(parse_hex_u16(""), None);
    assert_eq!(parse_hex_u16("12g"), None);
    assert_eq!(parse_hex_u16("+1"), None);
    assert_eq!(parse_hex_u16("fffff"), None);
}

#[test]
fn every_record_has_an_element_to_open() {
    let ifaces = vec![
        iface(Some(1), vec![], handle()),
        iface(None, vec![], handle()),
        iface(Some(2), vec![], handle()),
        iface(Some(1), vec![], handle()),
        iface(Some(3), vec![(Some(1), Some(1))], handle()),
    ];
    let infos = DeviceInfo::from_interfaces(ifaces);
    let locations: Vec<String> = infos.iter().map(|i| i.location().to_string()).collect();
    assert_eq!(locations, vec!["1", "2", "3"]);
    for info in infos {
        assert!(info.open().is_ok());
    }
}

#[test]
fn report_id_comes_from_byte_zero() {
    assert_eq!(requested_report_id(&[9, 1, 2]), 9);
    assert_eq!(requested_report_id(&[]), 0);
}

#[test]
fn report_buffer_is_id_then_zeros() {
    assert_eq!(new_report_buffer(6, 3), vec![6, 0, 0, 0]);
    assert_eq!(new_report_buffer(1, 0), vec![1]);
}

#[test]
fn primary_handle_is_the_first_element() {
    let mut first = handle();
    first.report_status = 11;
    let mut second = handle();
    second.report_status = 22;
    let infos = DeviceInfo::from_interfaces(vec![iface(Some(4), vec![], first), iface(Some(4), vec![], second)]);
    assert_eq!(infos[0].primary_handle().report_status, 11);
}

#[test]
fn finish_open_maps_each_outcome() {
    let info = DeviceInfo::from_interfaces(vec![iface(Some(8), vec![], handle())]).pop().unwrap();
    match info.finish_open(Err(NOT_OPEN)) {
        Err(e) => assert_eq!(e, Error::IOReturn(NOT_OPEN)),
        Ok(_) => panic!("a failed open gives no device"),
    }
    let h = handle();
    let closes = h.closes.clone();
    let info = DeviceInfo::from_interfaces(vec![iface(Some(8), vec![], h)]).pop().unwrap();
    let session = MockSession { payload: vec![], report_status: 0, extra_len: 0, closes: closes.clone() };
    let device = info.finish_open(Ok(session)).ok().unwrap();
    assert_eq!(device.info().location(), "8");
    drop(device);
    assert_eq!(closes.get(), 1);
}

#[test]
fn input_report_into_keeps_the_length() {
    let mut h = handle();
    h.payload = vec![5; 10];
    let info = DeviceInfo::from_interfaces(vec![iface(Some(1), vec![], h)]).pop().unwrap();
    let device = info.open().ok().unwrap();
    let mut buffer = vec![3, 0, 0];
    assert_eq!(device.get_input_report_into(&mut buffer), Ok(()));
    assert_eq!(buffer, vec![3, 5, 5]);
}

use xous_hosted::test_stub::Opcode as StubOpcode;
use xous_hosted::test_stub::{first_pattern, request_page, second_pattern};
use xous_hosted::usb_test::{increment_bytes, ConnectionManagerOpcode, Opcode, UsbTest, WifiStateSubscription, SERVER_NAME_USBTEST};

#[test]
fn server_name() {
    assert_eq!(SERVER_NAME_USBTEST, "_USB test and development server_");
}

#[test]
fn opcode_numbers() {
    let all = [Opcode::Test1, Opcode::SubscribeWifiStats, Opcode::SuspendResume, Opcode::Quit];
    for (i, op) in all.iter().enumerate() {
        assert_eq!(op.to_usize(), i);
        assert_eq!(op.to_u32(), i as u32);
        assert_eq!(Opcode::from_usize(i), Some(*op));
    }
    assert_eq!(Opcode::from_usize(4), None);
}

#[test]
fn connection_manager_opcode_numbers() {
    assert_eq!(ConnectionManagerOpcode::SubscribeWifiStats.to_u32(), 0);
    assert_eq!(ConnectionManagerOpcode::Quit.to_usize(), 1);
    assert_eq!(ConnectionManagerOpcode::from_usize(0), Some(ConnectionManagerOpcode::SubscribeWifiStats));
    assert_eq!(ConnectionManagerOpcode::from_usize(1), Some(ConnectionManagerOpcode::Quit));
    assert_eq!(ConnectionManagerOpcode::from_usize(2), None);
}

#[test]
fn test1_increments_every_byte() {
    let mut buf = [0u8, 1, 100, 254];
    increment_bytes(&mut buf);
    assert_eq!(buf, [1, 2, 101, 255]);
}

#[test]
fn usb_test_stub_does_nothing() {
    let t = UsbTest::new();
    t.suspend();
    t.resume();
}

#[test]
fn subscription_is_plain_data() {
    let s = WifiStateSubscription { sid: [1, 2, 3, 4], opcode: 9 };
    let c = s;
    assert_eq!(c.sid, [1, 2, 3, 4]);
    assert_eq!(c.opcode, 9);
}

#[test]
fn stub_opcode() {
    assert_eq!(StubOpcode::DoTest.to_usize(), 0);
    assert_eq!(StubOpcode::from_usize(0), Some(StubOpcode::DoTest));
    assert_eq!(StubOpcode::from_usize(1), None);
}

#[test]
fn patterns() {
    let a = first_pattern();
    for i in 0..2048 {
        assert_eq!(a[i], (i * 13 % 11) as u8);
    }
    assert_eq!(&a[0..4], &[0, 2, 4, 6]);
    let b = second_pattern();
    assert_eq!(&b[0..16], &[0u8; 16]);
    for i in 16..2048 {
        assert_eq!(b[i], (i * 11 % 7) as u8);
    }
}

#[test]
fn request_page_copies_pattern() {
    let a = first_pattern();
    let page = request_page(&a);
    assert_eq!(&page.raw[..2048], &a[..]);
    assert!(page.raw[2048..].iter().all(|b| *b == 0));
}

use keyreplay::{setup_calls, LinuxUSetup, SetupCall, DESCRIPTOR_SIZE};

#[test]
fn setup_sequence_order() {
    let calls = setup_calls();
    assert_eq!(calls.len(), 251);
    assert_eq!(calls[0], SetupCall::EnableEventType(1));
    for k in 1..249u16 {
        assert_eq!(calls[k as usize], SetupCall::EnableKey(k));
    }
    assert_eq!(calls[249], SetupCall::SubmitDescriptor);
    assert_eq!(calls[250], SetupCall::CreateDevice);
}

#[test]
fn replay_device_descriptor() {
    let d = LinuxUSetup::replay_device();
    assert_eq!(d.id.bustype, 3);
    assert_eq!(d.id.vendor, 0x1234);
    assert_eq!(d.id.product, 0x5678);
    assert_eq!(d.id.version, 0);
    assert_eq!(d.name, [30u8; 80]);
    assert_eq!(d.ff_effects_max, 0);
}

#[test]
fn descriptor_layout() {
    let bytes = LinuxUSetup::replay_device().encode();
    assert_eq!(bytes.len(), DESCRIPTOR_SIZE);
    assert_eq!(&bytes[0..8], &[3, 0, 0x34, 0x12, 0x78, 0x56, 0, 0]);
    assert!(bytes[8..88].iter().all(|b| *b == 30));
    assert_eq!(&bytes[88..92], &[0, 0, 0, 0]);
}

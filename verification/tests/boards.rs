use iot_firmata_bridge::firmata::error::FirmataError;
use iot_firmata_bridge::hardware::jetson::JetsonPinManager;
use iot_firmata_bridge::hardware::mock::MockPinManager;
use iot_firmata_bridge::hardware::raspberry::{
    raspi_analog_mapping, raspi_capabilities, raspi_pin_capabilities,
};

#[test]
fn mock_pin_capabilities() {
    let pm = MockPinManager::new();
    assert_eq!(pm.get_pin_capabilities(0), vec![0, 1, 1, 1, 0x7F]);
    assert_eq!(pm.get_pin_capabilities(2), vec![0, 1, 1, 1, 6, 1, 0x7F]);
    assert_eq!(pm.get_pin_capabilities(5), vec![0, 1, 1, 1, 2, 10, 0x0C, 1, 0x7F]);
    assert_eq!(pm.get_pin_capabilities(29), vec![0, 1, 1, 1, 3, 8, 4, 14, 0x7F]);
    assert_eq!(pm.get_pin_capabilities(30), vec![0, 1, 1, 1, 0x7F]);
}

#[test]
fn mock_capabilities_cover_pins_0_to_30() {
    let pm = MockPinManager::new();
    let caps = pm.get_capabilities();
    assert_eq!(caps.len(), 207);
    assert_eq!(caps.iter().filter(|b| **b == 0x7F).count(), 31);
    assert_eq!(&caps[..5], &[0, 1, 1, 1, 0x7F]);
    assert_eq!(caps[caps.len() - 1], 0x7F);
}

#[test]
fn mock_analog_mapping() {
    let pm = MockPinManager::new();
    let mapping = pm.get_analog_mapping();
    assert_eq!(mapping.len(), 41);
    for (i, m) in mapping.iter().enumerate() {
        if [5, 6, 10, 11, 21, 22].contains(&i) {
            assert_eq!(*m as usize, i);
        } else {
            assert_eq!(*m, 0x7F);
        }
    }
}

#[test]
fn mock_name() {
    assert_eq!(MockPinManager::new().get_name(), "MockBoard");
}

#[test]
fn mock_set_state_reports_changes() {
    let mut pm = MockPinManager::new();
    assert!(pm.set_state(4, 10));
    assert!(!pm.set_state(4, 10));
    assert!(pm.set_state(4, 11));
    assert!(pm.set_state(5, 11));
    assert!(!pm.set_state(4, 11));
}

#[test]
fn mock_digital_writes() {
    let mut pm = MockPinManager::new();
    // a first low write changes the state, and is reported
    assert!(pm.set_digital_pin(3, false));
    assert!(!pm.set_digital_pin(3, false));
    // a change to high is not reported, a repeated high is
    assert!(!pm.set_digital_pin(3, true));
    assert!(pm.set_digital_pin(3, true));
    // a first high write is not reported
    assert!(!pm.set_digital_pin(7, true));
}

#[test]
fn mock_analog_writes() {
    let mut pm = MockPinManager::new();
    assert!(pm.set_analog_pin(9, 300));
    assert!(!pm.set_analog_pin(9, 300));
    assert!(pm.set_analog_pin(9, 0));
    // a digital write of the same value shares the state
    assert!(!pm.set_state(9, 0));
}

#[test]
fn raspi_pin_capabilities_by_bcm_number() {
    assert_eq!(raspi_pin_capabilities(0), vec![0, 1, 1, 1, 0x7F]);
    assert_eq!(raspi_pin_capabilities(3), vec![0, 1, 1, 1, 6, 1, 0x7F]);
    assert_eq!(raspi_pin_capabilities(7), vec![0, 1, 1, 1, 0x0C, 1, 0x7F]);
    assert_eq!(raspi_pin_capabilities(40), vec![0, 1, 1, 1, 3, 8, 4, 14, 0x7F]);
    assert_eq!(raspi_pin_capabilities(41), vec![0, 1, 1, 1, 0x7F]);
}

#[test]
fn raspi_capabilities_cover_bcm_0_to_40() {
    let caps = raspi_capabilities();
    assert_eq!(caps.len(), 259);
    assert_eq!(caps.iter().filter(|b| **b == 0x7F).count(), 41);
}

#[test]
fn raspi_has_no_analog_input() {
    assert_eq!(raspi_analog_mapping(), vec![0x7F; 40]);
}

#[test]
fn jetson_board() {
    let _pm = JetsonPinManager::new();
}

#[test]
fn connection_error_carries_the_io_error() {
    let e = FirmataError::ConnectionError(std::io::Error::from(std::io::ErrorKind::UnexpectedEof));
    match e {
        FirmataError::ConnectionError(io) => {
            assert_eq!(io.kind(), std::io::ErrorKind::UnexpectedEof)
        }
    }
}

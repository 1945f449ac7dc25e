use pylon_lfp_protocol::types::{Ampere, AmpereHours, ChangeFlags, Temperature, Volt};

#[test]
fn test_from_bytes() {
    // Millivolt
    const MILLI_VOLT: [u8; 2] = [0x0d, 0x45]; // 3397mV
    let milli_volt = Volt::from_be_bytes(MILLI_VOLT);
    assert_eq!(milli_volt.get_raw(), 3397);

    // Milliampere
    const MILLI_AMP: [u8; 2] = [0x0d, 0x45]; // 3397mA
    let milli_amp = Ampere::from_be_bytes(MILLI_AMP);
    assert_eq!(milli_amp.get_raw(), 3397);

    // Milliampere-hours
    const MILLI_AMP_HOUR: [u8; 2] = [0xbf, 0x68]; // 49000mAh
    let milli_amp_hour = AmpereHours::from_be_bytes(MILLI_AMP_HOUR);
    assert_eq!(milli_amp_hour.get_raw(), 49000);

    // Temperature
    const TEMPERATURE: [u8; 2] = [0x0b, 0xc3]; // 28C / 301.1K
    let temp = Temperature::from_be_bytes(TEMPERATURE);
    assert_eq!(temp.get_raw(), 3011);
}

#[test]
fn test_ampere_is_signed() {
    assert_eq!(Ampere::from_be_bytes([0x00, 0x00]).get_raw(), 0);
    assert_eq!(Ampere::from_be_bytes([0xFF, 0xFF]).get_raw(), -1);
    assert_eq!(Ampere::from_be_bytes([0x80, 0x00]).get_raw(), -32768);
    assert_eq!(Ampere::from_be_bytes([0x7F, 0xFF]).get_raw(), 32767);
    assert_eq!(Ampere::from_be_bytes([0xFF, 0xFE]).get_raw(), -2);
}

#[test]
fn test_volt_is_unsigned() {
    // the protocol's examples exceed 32768, so voltage must be unsigned
    assert_eq!(Volt::from_be_bytes([0xC7, 0x25]).get_raw(), 50981);
    assert_eq!(Volt::from_be_bytes([0xFF, 0xFF]).get_raw(), 65535);
}

#[test]
fn test_change_flags_bits() {
    let both = ChangeFlags::new(0x11);
    assert!(both.switch_change());
    assert!(both.alarm_change());

    let switch_only = ChangeFlags::new(0x10);
    assert!(switch_only.switch_change());
    assert!(!switch_only.alarm_change());

    let alarm_only = ChangeFlags::new(0x01);
    assert!(!alarm_only.switch_change());
    assert!(alarm_only.alarm_change());

    let neither = ChangeFlags::new(0xEE);
    assert!(!neither.switch_change());
    assert!(!neither.alarm_change());
}

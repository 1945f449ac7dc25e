use pylon_lfp_protocol::commands::SystemParameter;
use pylon_lfp_protocol::Error;

#[test]
fn system_parameter_from_bytes() {
    let bytes: [u8; 24] = [
        0x0D, 0x45, // unit cell voltage 3397
        0x0B, 0xB8, // cell low voltage threshold 3000
        0x0A, 0x28, // cell under voltage threshold 2600
        0x0C, 0x4E, // charge upper limit temp 3150
        0x0A, 0xAB, // charge lower limit temp 2731
        0xFF, 0xFE, // charge lower limit current -2
        0xD2, 0xF0, // upper limit total voltage 54000
        0xB7, 0x98, // lower limit total voltage 47000
        0xAF, 0xC8, // total voltage under voltage 45000
        0x0C, 0xE4, // discharge upper limit temp 3300
        0x0A, 0x5A, // discharge lower limit temp 2650
        0x80, 0x00, // discharge lower limit current -32768
    ];
    let p = SystemParameter::from_bytes(&bytes).expect("Error decoding system parameter");
    assert_eq!(p.unit_cell_voltage.get_raw(), 3397);
    assert_eq!(p.unit_cell_low_voltage_threshold.get_raw(), 3000);
    assert_eq!(p.unit_cell_under_voltage_threshold.get_raw(), 2600);
    assert_eq!(p.charge_upper_limit_temp.get_raw(), 3150);
    assert_eq!(p.charge_lower_limit_temp.get_raw(), 2731);
    assert_eq!(p.charge_lower_limit_current.get_raw(), -2);
    assert_eq!(p.upper_limit_total_voltage.get_raw(), 54000);
    assert_eq!(p.lower_limit_total_voltage.get_raw(), 47000);
    assert_eq!(p.under_voltage_of_total_voltage.get_raw(), 45000);
    assert_eq!(p.discharge_upper_limit_temp.get_raw(), 3300);
    assert_eq!(p.discharge_lower_limit_temp.get_raw(), 2650);
    assert_eq!(p.discharge_lower_limit_current.get_raw(), -32768);
}

#[test]
fn system_parameter_ignores_extra_bytes() {
    let mut bytes = vec![0u8; 30];
    bytes[0] = 0x0D;
    bytes[1] = 0x45;
    let p = SystemParameter::from_bytes(&bytes).expect("Error decoding system parameter");
    assert_eq!(p.unit_cell_voltage.get_raw(), 3397);
    assert_eq!(p.discharge_lower_limit_current.get_raw(), 0);
}

#[test]
fn system_parameter_rejects_short_buffer() {
    assert_eq!(SystemParameter::from_bytes(&[]), Err(Error::InvalidInput));
    let bytes = [0u8; 23];
    assert_eq!(SystemParameter::from_bytes(&bytes), Err(Error::InvalidInput));
}

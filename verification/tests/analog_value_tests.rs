use pylon_lfp_protocol::commands::{AnalogValueParseError, AnalogValueResponse, PackData};
use pylon_lfp_protocol::Frame;

/// Example response from the protocol specification
const PACKET: [u8; 128] = [
    0x7E, 0x32, 0x30, 0x30, 0x31, 0x34, 0x36, 0x30, 0x30, 0x43, 0x30, 0x36, 0x45, 0x31, 0x31,
    0x30, 0x31, 0x30, 0x46, 0x30, 0x44, 0x34, 0x35, 0x30, 0x44, 0x34, 0x34, 0x30, 0x44, 0x34,
    0x35, 0x30, 0x44, 0x34, 0x34, 0x30, 0x44, 0x34, 0x35, 0x30, 0x44, 0x34, 0x34, 0x30, 0x44,
    0x33, 0x45, 0x30, 0x44, 0x34, 0x35, 0x30, 0x44, 0x34, 0x41, 0x30, 0x44, 0x34, 0x41, 0x30,
    0x44, 0x34, 0x42, 0x30, 0x44, 0x34, 0x41, 0x30, 0x44, 0x34, 0x41, 0x30, 0x44, 0x34, 0x41,
    0x30, 0x44, 0x34, 0x41, 0x30, 0x35, 0x30, 0x42, 0x43, 0x33, 0x30, 0x42, 0x43, 0x33, 0x30,
    0x42, 0x43, 0x33, 0x30, 0x42, 0x43, 0x44, 0x30, 0x42, 0x43, 0x44, 0x30, 0x30, 0x30, 0x30,
    0x43, 0x37, 0x32, 0x35, 0x42, 0x46, 0x36, 0x38, 0x30, 0x32, 0x43, 0x33, 0x35, 0x30, 0x30,
    0x30, 0x30, 0x32, 0x45, 0x35, 0x35, 0x33, 0x0D,
];

/// Get the payload from the response in the specification example
fn payload_from_spec() -> Vec<u8> {
    let packet = Frame::decode(&PACKET).expect("Error decoding packet");
    packet.info
}

#[test]
fn parse_flags_and_pack_count() {
    let payload = payload_from_spec();

    let analog_value_response = AnalogValueResponse::from_bytes(&payload)
        .expect("Failed to parse analog value response from payload");

    assert!(analog_value_response.flags.switch_change());
    assert!(analog_value_response.flags.alarm_change());
    assert_eq!(analog_value_response.get_pack_count(), 1);
}

#[test]
fn decode_packet_data() {
    let payload = payload_from_spec();

    let analog_value_response = AnalogValueResponse::from_bytes(&payload)
        .expect("Failed to parse analog value response from payload");

    assert_eq!(analog_value_response.get_pack_count(), 1);

    let pack: PackData = analog_value_response
        .get_pack(0)
        .expect("Failed to parse PackData");
    assert_eq!(pack.cell_voltages.len(), 15);
    assert_eq!(pack.temperatures.len(), 5);
    assert_eq!(pack.cell_voltages[0].get_raw(), 3397);
    assert_eq!(pack.cell_voltages[14].get_raw(), 3402);
    assert_eq!(pack.temperatures[0].get_raw(), 3011); // 301.1 K
    assert_eq!(pack.temperatures[4].get_raw(), 3021); // 302.1 K
    assert_eq!(pack.pack_current.get_raw(), 0);
    assert_eq!(pack.pack_voltage.get_raw(), 50981);
    assert_eq!(pack.pack_remaining.get_raw(), 49000);
    assert_eq!(pack.total_capacity.get_raw(), 50000);
    assert_eq!(pack.cell_cycles, 2);
}

#[test]
fn get_pack_out_of_range_fails() {
    let payload = payload_from_spec();
    let response = AnalogValueResponse::from_bytes(&payload)
        .expect("Failed to parse analog value response from payload");

    assert_eq!(response.get_pack_count(), 1);
    assert_eq!(
        response.get_pack(1),
        Err(AnalogValueParseError::InvalidInput)
    );
    assert_eq!(
        response.get_pack(255),
        Err(AnalogValueParseError::InvalidInput)
    );
}

#[test]
fn get_pack_is_stable_across_calls() {
    let payload = payload_from_spec();
    let response = AnalogValueResponse::from_bytes(&payload)
        .expect("Failed to parse analog value response from payload");

    let first = response.get_pack(0).expect("Failed to parse PackData");
    let again = response.get_pack(0).expect("Failed to parse PackData");
    assert_eq!(first.cell_voltages, again.cell_voltages);
    assert_eq!(first.temperatures, again.temperatures);
    assert_eq!(first.pack_current, again.pack_current);
    assert_eq!(first.pack_voltage, again.pack_voltage);
    assert_eq!(first.pack_remaining, again.pack_remaining);
    assert_eq!(first.user_defined, again.user_defined);
    assert_eq!(first.total_capacity, again.total_capacity);
    assert_eq!(first.cell_cycles, again.cell_cycles);
    assert_eq!(first.len(), again.len());
}

#[test]
fn parse_two_packs_sequentially() {
    // Two minimal pack records back to back: one cell voltage and one
    // temperature each, then the fixed tail.
    let pack_a: Vec<u8> = vec![
        1, 0x0D, 0x45, // one voltage: 3397
        1, 0x0B, 0xC3, // one temperature: 3011
        0x00, 0x00, // current 0
        0xC7, 0x25, // voltage 50981
        0xBF, 0x68, // remaining 49000
        2,    // user defined
        0xC3, 0x50, // capacity 50000
        0x00, 0x02, // cycles 2
    ];
    let pack_b: Vec<u8> = vec![
        1, 0x0D, 0x4A, // one voltage: 3402
        1, 0x0B, 0xCD, // one temperature: 3021
        0xFF, 0xFE, // current -2
        0xC7, 0x26, // voltage 50982
        0xBF, 0x69, // remaining 49001
        2,    // user defined
        0xC3, 0x51, // capacity 50001
        0x00, 0x03, // cycles 3
    ];
    let mut payload: Vec<u8> = vec![0x11, 2]; // both flags set, two packs
    payload.extend_from_slice(&pack_a);
    payload.extend_from_slice(&pack_b);

    let response = AnalogValueResponse::from_bytes(&payload).unwrap();
    assert_eq!(response.get_pack_count(), 2);

    let a = response.get_pack(0).unwrap();
    assert_eq!(a.cell_voltages[0].get_raw(), 3397);
    assert_eq!(a.pack_current.get_raw(), 0);
    assert_eq!(a.cell_cycles, 2);
    assert_eq!(a.len(), 17);

    let b = response.get_pack(1).unwrap();
    assert_eq!(b.cell_voltages[0].get_raw(), 3402);
    assert_eq!(b.temperatures[0].get_raw(), 3021);
    assert_eq!(b.pack_current.get_raw(), -2);
    assert_eq!(b.pack_voltage.get_raw(), 50982);
    assert_eq!(b.pack_remaining.get_raw(), 49001);
    assert_eq!(b.total_capacity.get_raw(), 50001);
    assert_eq!(b.cell_cycles, 3);
}

#[test]
fn response_from_bytes_rejects_short_payload() {
    assert_eq!(
        AnalogValueResponse::from_bytes(&[]),
        Err(AnalogValueParseError::InvalidInput)
    );
    assert_eq!(
        AnalogValueResponse::from_bytes(&[0x11]),
        Err(AnalogValueParseError::InvalidInput)
    );
}

#[test]
fn pack_from_bytes_rejects_truncated_record() {
    // empty record
    assert_eq!(
        PackData::from_bytes(&[]),
        Err(AnalogValueParseError::InvalidInput)
    );
    // claims one voltage but holds none
    assert_eq!(
        PackData::from_bytes(&[1]),
        Err(AnalogValueParseError::InvalidInput)
    );
    // counts present but the fixed tail is cut short
    assert_eq!(
        PackData::from_bytes(&[1, 0x0D, 0x45, 1, 0x0B, 0xC3, 0x00]),
        Err(AnalogValueParseError::InvalidInput)
    );
}

#[test]
fn get_pack_fails_when_walk_hits_bad_record() {
    // first pack truncated: the second pack can never be located
    let payload: Vec<u8> = vec![0x00, 2, 1, 0x0D];
    let response = AnalogValueResponse::from_bytes(&payload).unwrap();
    assert_eq!(
        response.get_pack(1),
        Err(AnalogValueParseError::InvalidInput)
    );
}

use crc16::{State, MODBUS};
use powerroam::checksum;

#[test]
fn empty_input_yields_initial_state() {
    let empty: [u8; 0] = [];
    assert_eq!(checksum(&empty), 0xffff);
}

#[test]
fn known_vectors() {
    // Checksum input of the disable-light command frame.
    assert_eq!(checksum(&[0xa1, 0xc0, 0x13, 0x01, 0x00, 0x00]), 0x3f4c);
    // Checksum input of the get-version command frame.
    assert_eq!(checksum(&[0xa1, 0xc0, 0x06, 0x00, 0x00]), 0xd845);
    // Validation range of the total-power record of a captured message.
    assert_eq!(
        checksum(&[0xc0, 0xa1, 0x0f, 0x04, 0x00, 0x00, 0x00, 0x03, 0x00]),
        0x356f
    );
}

#[test]
fn agrees_with_the_crc16_crate() {
    let buffers: Vec<Vec<u8>> = vec![
        vec![],
        vec![0x00],
        vec![0xff],
        vec![0x01, 0x02, 0x03, 0x04, 0x05],
        vec![0xa1, 0xc0, 0x13, 0x01, 0x00, 0x00],
        (0u8..=255).collect(),
        vec![0x5a, 0xa5, 0xc0, 0xa1, 0x0f, 0x04, 0x00, 0x00, 0x00, 0x03, 0x00],
    ];
    for buf in &buffers {
        assert_eq!(checksum(buf), State::<MODBUS>::calculate(buf), "buffer {buf:?}");
    }
}

#[test]
fn single_byte_changes_always_change_the_checksum() {
    let base = [0xc0u8, 0xa1, 0x0f, 0x04, 0x00, 0x00, 0x00, 0x03, 0x00];
    let base_checksum = checksum(&base);
    for pos in 0..base.len() {
        for bit in 0..8 {
            let mut changed = base;
            changed[pos] ^= 1u8 << bit;
            assert_ne!(checksum(&changed), base_checksum, "flip at byte {pos} bit {bit}");
        }
    }
}

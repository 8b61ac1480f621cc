use powerroam::request::request_to_buf;

#[test]
fn disable_light() {
    let value = [0x13, 0x01, 0x00, 0x00];
    let output = request_to_buf(&value);

    let expected_data = vec![0x5a, 0xa5, 0xa1, 0xc0, 0x13, 0x01, 0x00, 0x00, 0x4c, 0x3f];
    assert_eq!(expected_data, output);
}

#[test]
fn enable_light() {
    let value = [0x13, 0x01, 0x00, 0x01];
    let output = request_to_buf(&value);

    let expected_data = vec![0x5a, 0xa5, 0xa1, 0xc0, 0x13, 0x01, 0x00, 0x01, 0x8d, 0xff];
    assert_eq!(expected_data, output);
}

#[test]
fn enable_light_3() {
    let value = [0x13, 0x01, 0x00, 0x03];
    let output = request_to_buf(&value);

    let expected_data = vec![0x5a, 0xa5, 0xa1, 0xc0, 0x13, 0x01, 0x00, 0x03, 0x0c, 0x3e];
    assert_eq!(expected_data, output);
}

#[test]
fn get_version() {
    let value = [0x06, 0x00, 0x00];
    let output = request_to_buf(&value);

    let expected_data = vec![0x5a, 0xa5, 0xa1, 0xc0, 0x06, 0x00, 0x00, 0x45, 0xd8];
    assert_eq!(expected_data, output);
}

#[test]
fn idk() {
    let value = [0x20, 0x00, 0x00];
    let output = request_to_buf(&value);
    let expected_data = vec![0x5a, 0xa5, 0xa1, 0xc0, 0x20, 0x00, 0x00, 0xa4, 0x13];
    assert_eq!(expected_data, output);
}

#[test]
fn leading_zeros_are_stripped() {
    let value = [0x00, 0x00, 0x13, 0x01];
    let output = request_to_buf(&value);
    // Identical to framing [0x13, 0x01] directly.
    assert_eq!(output, request_to_buf(&[0x13, 0x01]));
    assert_eq!(&output[..6], &[0x5a, 0xa5, 0xa1, 0xc0, 0x13, 0x01]);
    assert_eq!(output.len(), 8);
}

#[test]
fn interior_and_trailing_zeros_are_kept() {
    let value = [0x13, 0x00, 0x01, 0x00];
    let output = request_to_buf(&value);
    assert_eq!(&output[..8], &[0x5a, 0xa5, 0xa1, 0xc0, 0x13, 0x00, 0x01, 0x00]);
}

#[test]
fn empty_and_all_zero_payloads_frame_alike() {
    let empty: [u8; 0] = [];
    let zeros = [0x00, 0x00, 0x00];
    let framed_empty = request_to_buf(&empty);
    let framed_zeros = request_to_buf(&zeros);
    assert_eq!(framed_empty, framed_zeros);
    assert_eq!(&framed_empty[..4], &[0x5a, 0xa5, 0xa1, 0xc0]);
    // Magic, no payload, and the checksum of [0xa1, 0xc0] alone.
    let crc = powerroam::checksum(&[0xa1, 0xc0]);
    assert_eq!(framed_empty[4], (crc % 256) as u8);
    assert_eq!(framed_empty[5], (crc / 256) as u8);
    assert_eq!(framed_empty.len(), 6);
}

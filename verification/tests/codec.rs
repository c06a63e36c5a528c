use i3_tools::codec::decode_frame;
use i3_tools::codec::encode_frame;
use i3_tools::codec::header_payload_length;
use i3_tools::codec::I3Message;

#[test]
fn encode_get_tree_frame() {
    let frame = encode_frame(&I3Message::GetTree);
    let mut expected: Vec<u8> = b"i3-ipc".to_vec();
    expected.extend_from_slice(&[0, 0, 0, 0]);
    expected.extend_from_slice(&[4, 0, 0, 0]);
    assert_eq!(frame, expected);
}

#[test]
fn encode_run_command_frame() {
    let payload = b"[con_id=4]focus".to_vec();
    let frame = encode_frame(&I3Message::RunCommand(payload.clone()));
    let mut expected: Vec<u8> = b"i3-ipc".to_vec();
    expected.extend_from_slice(&[15, 0, 0, 0]);
    expected.extend_from_slice(&[0, 0, 0, 0]);
    expected.extend_from_slice(&payload);
    assert_eq!(frame, expected);
}

#[test]
fn frame_round_trip_run_command() {
    let payload = b"[con_id=12345]focus".to_vec();
    let frame = encode_frame(&I3Message::RunCommand(payload.clone()));
    let decoded = decode_frame(&frame);
    assert_eq!(decoded, Some((0, payload)));
}

#[test]
fn frame_round_trip_get_tree() {
    let frame = encode_frame(&I3Message::GetTree);
    let decoded = decode_frame(&frame);
    assert_eq!(decoded, Some((4, Vec::new())));
}

#[test]
fn truncated_payload_is_rejected() {
    // The header declares five payload bytes but only three follow.
    let mut data: Vec<u8> = b"i3-ipc".to_vec();
    data.extend_from_slice(&[5, 0, 0, 0]);
    data.extend_from_slice(&[0, 0, 0, 0]);
    data.extend_from_slice(&[1, 2, 3]);
    assert_eq!(decode_frame(&data), None);
}

#[test]
fn short_header_is_rejected() {
    let data: Vec<u8> = b"i3-ipc".to_vec();
    assert_eq!(decode_frame(&data), None);

    let mut longer = data.clone();
    longer.extend_from_slice(&[2, 0, 0]);
    assert_eq!(decode_frame(&longer), None);
}

#[test]
fn decode_takes_exactly_declared_length() {
    // Two declared payload bytes, two more trailing on the wire: only the
    // declared ones come back.
    let mut data: Vec<u8> = b"i3-ipc".to_vec();
    data.extend_from_slice(&[2, 0, 0, 0]);
    data.extend_from_slice(&[7, 0, 0, 0]);
    data.extend_from_slice(&[10, 20, 30, 40]);
    assert_eq!(decode_frame(&data), Some((7, vec![10, 20])));
}

#[test]
fn decode_ignores_preamble_and_type_content() {
    // The peer is trusted: only the byte counts of the preamble and type
    // fields matter, not their content.
    let mut data: Vec<u8> = b"badmag".to_vec();
    data.extend_from_slice(&[1, 0, 0, 0]);
    data.extend_from_slice(&[9, 9, 9, 9]);
    data.push(0x61);
    let decoded = decode_frame(&data);
    assert_eq!(decoded, Some((0x09090909, vec![0x61])));
}

#[test]
fn header_payload_length_reads_length_field() {
    let mut header: Vec<u8> = b"i3-ipc".to_vec();
    header.extend_from_slice(&[0x2a, 0, 0, 0]);
    header.extend_from_slice(&[4, 0, 0, 0]);
    assert_eq!(header_payload_length(&header), 42);

    let mut big: Vec<u8> = b"i3-ipc".to_vec();
    big.extend_from_slice(&[0x01, 0x02, 0x03, 0x04]);
    big.extend_from_slice(&[0, 0, 0, 0]);
    assert_eq!(header_payload_length(&big), 0x04030201);
}

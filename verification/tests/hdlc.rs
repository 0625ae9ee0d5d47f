use my_hdlc::framing::{checksum_matches, decode_frame, frame_payload, unstuff_frame_body};
use my_hdlc::framing::{
    CTRL_ESCAPE, FRAME_BOUNDARY, MESSAGE_SIZE, STUFFED_MESSAGE_SIZE,
};
use my_hdlc::transceiver::{HdlcTransceiver, BUFFER_SIZE, MAX_BYTES_PER_TICK};

/// A manual-input command (variant 2 of the device command) with these
/// stick values, serialized the way postcard serializes it.
fn manual_input(lift: i16, roll: i16, pitch: i16, yaw: i16) -> Vec<u8> {
    let mut buf = [0u8; MESSAGE_SIZE];
    let used = postcard::to_slice(&(2u32, lift, roll, pitch, yaw), &mut buf).unwrap();
    used.to_vec()
}

fn decode_manual_input(bytes: &[u8]) -> (u32, i16, i16, i16, i16) {
    postcard::from_bytes::<(u32, i16, i16, i16, i16)>(bytes).unwrap()
}

fn add_frame(transceiver: &mut HdlcTransceiver, arr: &[u8], arr_size: usize) {
    for k in 0..arr_size {
        transceiver.add_byte(arr[k]);
    }
}

#[test]
fn test_correctly_received() {
    let mut transceiver = HdlcTransceiver::new();

    let first_command = manual_input(12, 14, 15, 20);
    let (arr, arr_size) = transceiver.write_structure(&first_command);
    add_frame(&mut transceiver, &arr, arr_size);

    let second_command = manual_input(12, 14, 15, 20);
    let (arr2, arr2_size) = transceiver.write_structure(&second_command);
    add_frame(&mut transceiver, &arr2, arr2_size);

    let received_command_one = transceiver.read_structure();
    let received_command_two = transceiver.read_structure();

    assert!(
        received_command_one.is_some()
            && decode_manual_input(&received_command_one.unwrap()) == (2, 12, 14, 15, 20)
    );
    assert!(
        received_command_two.is_some()
            && decode_manual_input(&received_command_two.unwrap()) == (2, 12, 14, 15, 20)
    );
}

#[test]
fn test_corrupted_data_byte_in_first_message() {
    let mut transceiver = HdlcTransceiver::new();

    let first_command = manual_input(12, 14, 15, 20);
    let (mut arr, arr_size) = transceiver.write_structure(&first_command);

    // corrupt a byte in the message
    arr[4] ^= 0xFA;
    add_frame(&mut transceiver, &arr, arr_size);

    let second_command = manual_input(12, 14, 15, 20);
    let (arr2, arr2_size) = transceiver.write_structure(&second_command);
    add_frame(&mut transceiver, &arr2, arr2_size);

    let received_command_one = transceiver.read_structure();
    let received_command_two = transceiver.read_structure();

    // the damaged message is discarded, the next one is received
    assert!(received_command_one.is_none());
    assert!(
        received_command_two.is_some()
            && decode_manual_input(&received_command_two.unwrap()) == (2, 12, 14, 15, 20)
    );
}

#[test]
fn test_corrupted_message_no_first_frame_boundary() {
    let mut transceiver = HdlcTransceiver::new();

    let first_command = manual_input(12, 14, 15, 20);
    let (mut arr, arr_size) = transceiver.write_structure(&first_command);

    // remove the opening boundary byte
    arr[0] ^= 1 << 4;
    add_frame(&mut transceiver, &arr, arr_size);

    let second_command = manual_input(12, 14, 15, 20);
    let (arr2, arr2_size) = transceiver.write_structure(&second_command);
    add_frame(&mut transceiver, &arr2, arr2_size);

    let received_command_one = transceiver.read_structure();

    // the first message is skipped entirely, the second one is received
    assert!(
        received_command_one.is_some()
            && decode_manual_input(&received_command_one.unwrap()) == (2, 12, 14, 15, 20)
    );
}

#[test]
fn test_corrupted_message_no_last_frame_boundary() {
    let mut transceiver = HdlcTransceiver::new();

    let first_command = manual_input(12, 14, 15, 20);
    let (mut arr, arr_size) = transceiver.write_structure(&first_command);

    // remove the closing boundary byte
    arr[arr_size - 1] ^= 1 << 4;
    add_frame(&mut transceiver, &arr, arr_size);

    let second_command = manual_input(12, 14, 15, 20);
    let (arr2, arr2_size) = transceiver.write_structure(&second_command);
    add_frame(&mut transceiver, &arr2, arr2_size);

    let third_command = manual_input(13, 12, 15, 20);
    let (arr3, arr3_size) = transceiver.write_structure(&third_command);
    add_frame(&mut transceiver, &arr3, arr3_size);

    // the first read gets a frame with a wrong checksum
    let _received_command_one = transceiver.read_structure();
    let received_command_three = transceiver.read_structure();

    // two messages are lost, the third one is received
    assert!(
        received_command_three.is_some()
            && decode_manual_input(&received_command_three.unwrap()) == (2, 13, 12, 15, 20)
    );
}

#[test]
fn test_corrupted_message_inserted_boundary() {
    let mut transceiver = HdlcTransceiver::new();

    let first_command = manual_input(12, 14, 15, 20);
    let (mut arr, arr_size) = transceiver.write_structure(&first_command);

    // a boundary byte appears inside the message
    arr[3] = FRAME_BOUNDARY;
    add_frame(&mut transceiver, &arr, arr_size);

    let second_command = manual_input(12, 14, 15, 20);
    let (arr2, arr2_size) = transceiver.write_structure(&second_command);
    add_frame(&mut transceiver, &arr2, arr2_size);

    let received_command_one = transceiver.read_structure();
    let received_command_two = transceiver.read_structure();

    // the short frame is rejected, the message after it is received
    assert!(received_command_one.is_none());
    assert!(
        received_command_two.is_some()
            && decode_manual_input(&received_command_two.unwrap()) == (2, 12, 14, 15, 20)
    );
}

#[test]
fn frame_carries_one_crc8_byte() {
    let mut transceiver = HdlcTransceiver::new();
    // the CRC-8 of "123456789" is 0xF4
    let (arr, len) = transceiver.write_structure(b"123456789");
    assert_eq!(len, 12);
    assert_eq!(&arr[..len], &[0x7E, b'1', b'2', b'3', b'4', b'5', b'6', b'7', b'8', b'9', 0xF4, 0x7E]);
    assert_eq!(arr.len(), STUFFED_MESSAGE_SIZE);
    assert!(arr[len..].iter().all(|b| *b == 0));
    // the empty payload's CRC-8 is zero
    let (arr, len) = transceiver.write_structure(&[]);
    assert_eq!(&arr[..len], &[0x7E, 0x00, 0x7E]);
}

#[test]
fn frame_payload_escapes_control_bytes() {
    let (arr, len) = frame_payload(&[0x7E, 0x01, 0x7D], 0x7E);
    assert_eq!(&arr[..len], &[0x7E, 0x7D, 0x5E, 0x01, 0x7D, 0x5D, 0x7D, 0x5E, 0x7E]);
}

#[test]
fn too_long_payload_gives_empty_frame() {
    let mut transceiver = HdlcTransceiver::new();
    let payload = [1u8; MESSAGE_SIZE - 1];
    let (arr, len) = transceiver.write_structure(&payload);
    assert_eq!(len, 0);
    assert!(arr.iter().all(|b| *b == 0));
    let (_, len2) = transceiver.write_structure(&payload[..MESSAGE_SIZE - 2]);
    assert_eq!(len2, MESSAGE_SIZE + 1);
}

#[test]
fn escaped_payload_round_trips() {
    let mut transceiver = HdlcTransceiver::new();
    let payload = [0x7E, 0x7D, 0x7E, 0x00, 0x20, 0x5E];
    let (arr, len) = transceiver.write_structure(&payload);
    assert!(transceiver.add_bytes(&arr[..len]));
    assert_eq!(transceiver.read_structure(), Some(payload.to_vec()));
    assert!(transceiver.fifo_is_empty());
}

#[test]
fn checksum_matches_reads_the_last_byte() {
    assert!(checksum_matches(&[9, 0xF4], 0xF4));
    assert!(!checksum_matches(&[9, 0xF4], 9));
    assert!(!checksum_matches(&[], 0));
}

#[test]
fn decode_frame_checks_the_crc() {
    let good = [0x7E, b'1', b'2', b'3', b'4', b'5', b'6', b'7', b'8', b'9', 0xF4, 0x7E];
    assert_eq!(decode_frame(&good), Some(b"123456789".to_vec()));
    let mut bad = good;
    bad[10] = 0xF5;
    assert_eq!(decode_frame(&bad), None);
    // the CRC-8 of [1, 2] is 0x1B
    assert_eq!(decode_frame(&[0x7E, 1, 2, 0x1B, 0x7E]), Some(vec![1, 2]));
    assert_eq!(decode_frame(&[0x7E, 1, 2, 3, 0x7E]), None);
    assert_eq!(decode_frame(&[0x7E, 0x7E]), None);
}

#[test]
fn unstuff_limits_message_length() {
    let mut frame = vec![FRAME_BOUNDARY];
    frame.extend(std::iter::repeat(7u8).take(MESSAGE_SIZE));
    frame.push(FRAME_BOUNDARY);
    assert_eq!(unstuff_frame_body(&frame).map(|v| v.len()), Some(MESSAGE_SIZE));
    frame.insert(1, 7);
    assert_eq!(unstuff_frame_body(&frame), None);
    assert_eq!(
        unstuff_frame_body(&[FRAME_BOUNDARY, CTRL_ESCAPE, CTRL_ESCAPE, 0x5E, 1, CTRL_ESCAPE, FRAME_BOUNDARY]),
        Some(vec![0x7E, 1])
    );
}

#[test]
fn add_byte_refuses_when_full_and_overwrites_oldest() {
    let mut transceiver = HdlcTransceiver::new();
    assert_eq!(transceiver.remaining_bytes(), BUFFER_SIZE);
    for i in 0..BUFFER_SIZE - 1 {
        assert!(transceiver.add_byte((i % 100) as u8));
    }
    assert_eq!(transceiver.remaining_bytes(), 1);
    // the ring is full: the next byte overwrites the oldest one
    assert!(transceiver.add_byte(0xAA));
    assert_eq!(transceiver.remaining_bytes(), 0);
    assert!(!transceiver.add_byte(0xBB));
    assert!(!transceiver.fifo_is_empty());
    // no boundary anywhere: a read discards everything
    assert_eq!(transceiver.read_structure(), None);
    assert_eq!(transceiver.remaining_bytes(), BUFFER_SIZE - 1);
}

#[test]
fn ring_pointers_move_as_bytes_arrive() {
    let mut transceiver = HdlcTransceiver::new();
    assert_eq!((transceiver.left_pointer(), transceiver.right_pointer()), (0, 0));
    assert!(transceiver.add_byte(5));
    assert_eq!((transceiver.left_pointer(), transceiver.right_pointer()), (0, 1));
    for _ in 1..BUFFER_SIZE - 1 {
        assert!(transceiver.add_byte(6));
    }
    assert_eq!((transceiver.left_pointer(), transceiver.right_pointer()), (0, BUFFER_SIZE - 1));
    // the right position wraps around onto the left one: the left one moves on
    assert!(transceiver.add_byte(7));
    assert_eq!((transceiver.left_pointer(), transceiver.right_pointer()), (1, 0));
    // a refused byte changes nothing
    assert!(!transceiver.add_byte(8));
    assert_eq!((transceiver.left_pointer(), transceiver.right_pointer()), (1, 0));
}

#[test]
fn add_bytes_is_all_or_nothing() {
    let mut transceiver = HdlcTransceiver::new();
    assert!(!transceiver.add_bytes(&[0u8; BUFFER_SIZE + 1]));
    assert!(transceiver.fifo_is_empty());
    assert!(transceiver.add_bytes(&[1, 2, 3]));
    assert_eq!(transceiver.remaining_bytes(), BUFFER_SIZE - 3);
    assert!(!transceiver.fifo_is_empty());
}

#[test]
fn bytes_to_read_is_capped_per_tick() {
    let mut transceiver = HdlcTransceiver::new();
    assert_eq!(transceiver.bytes_to_read(), MAX_BYTES_PER_TICK);
    assert!(transceiver.add_bytes(&[0u8; BUFFER_SIZE - 10]));
    assert_eq!(transceiver.bytes_to_read(), 10);
}

#[test]
fn incomplete_frame_waits_for_its_end() {
    let mut transceiver = HdlcTransceiver::new();
    let payload = manual_input(1, 2, 3, 4);
    let (arr, len) = transceiver.write_structure(&payload);
    assert!(transceiver.add_bytes(&arr[..len - 3]));
    assert_eq!(transceiver.read_structure(), None);
    assert_eq!(transceiver.remaining_bytes(), BUFFER_SIZE - (len - 3));
    assert!(transceiver.add_bytes(&arr[len - 3..len]));
    assert_eq!(transceiver.read_structure(), Some(payload));
}

#[test]
fn frames_are_read_in_order() {
    let mut transceiver = HdlcTransceiver::new();
    let a = manual_input(-1, 2, -300, 4);
    let b = manual_input(5, -6, 7, 32767);
    let (fa, la) = transceiver.write_structure(&a);
    let (fb, lb) = transceiver.write_structure(&b);
    assert!(transceiver.add_bytes(&fa[..la]));
    assert!(transceiver.add_bytes(&fb[..lb]));
    assert_eq!(transceiver.read_structure(), Some(a));
    assert_eq!(transceiver.read_structure(), Some(b));
    assert_eq!(transceiver.read_structure(), None);
    assert!(transceiver.fifo_is_empty());
}

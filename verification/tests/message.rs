use stk500v2::errors::ErrorKind;
use stk500v2::message::{Message, MessageBuffer};
use stk500v2::text::to_hex;

fn buffer_with(bytes: &[u8]) -> MessageBuffer {
    let mut buffer: MessageBuffer = [0; Message::MAX_SIZE];
    buffer[..bytes.len()].copy_from_slice(bytes);
    buffer
}

#[test]
fn calculates_checksum() {
    assert_eq!(Message::calc_checksum(&[2, 55, 22, 78]), 109);
}

#[test]
fn try_from_array_is_ok() {
    let mut buffer: MessageBuffer = [0; Message::MAX_SIZE];
    buffer[0] = Message::MESSAGE_START;
    buffer[1] = 1;
    buffer[2] = 0;
    buffer[3] = 4;
    buffer[4] = Message::TOKEN;
    buffer[5] = 89;
    buffer[6] = 100;
    buffer[7] = 78;
    buffer[8] = 109;
    buffer[9] = 14;
    assert!(Message::try_from(buffer).is_ok());
}

#[test]
fn try_from_array_bad_checksum() {
    let mut buffer: MessageBuffer = [0; Message::MAX_SIZE];
    buffer[0] = Message::MESSAGE_START;
    buffer[1] = 1;
    buffer[2] = 0;
    buffer[3] = 4;
    buffer[4] = Message::TOKEN;
    buffer[5] = 89;
    buffer[6] = 100;
    buffer[7] = 78;
    buffer[8] = 109;
    buffer[9] = 0;
    let err = Message::try_from(buffer).unwrap_err();
    match err {
        ErrorKind::ChecksumError => (),
        _ => panic!("wrong error returned"),
    };
}

#[test]
fn checksum_of_one_byte_is_the_byte() {
    assert_eq!(Message::calc_checksum(&[0xA5]), 0xA5);
}

#[test]
fn sizes_add_up() {
    assert_eq!(Message::MAX_BODY_SIZE, 275);
    assert_eq!(Message::MAX_SIZE, 281);
}

#[test]
fn message_becomes_a_frame() {
    let bytes: Vec<u8> = Message::new(7, vec![1, 2]).into();
    assert_eq!(bytes, vec![0x1B, 7, 0, 2, 0x0E, 1, 2, 0x13]);
}

#[test]
fn length_is_big_endian() {
    let bytes: Vec<u8> = Message::new(0, vec![0; 0x0102]).into();
    assert_eq!(bytes[2], 0x01);
    assert_eq!(bytes[3], 0x02);
    assert_eq!(bytes.len(), 0x0102 + 6);
}

#[test]
fn new_message_states_its_length() {
    let message = Message::new(3, vec![9; 275]);
    assert_eq!(message.seq, 3);
    assert_eq!(message.len, 275);
    assert_eq!(message.body, vec![9; 275]);
}

#[test]
fn length_keeps_16_bits() {
    assert_eq!(Message::new(0, vec![0; 0x1_0003]).len, 3);
}

#[test]
fn decoded_message_holds_the_fields() {
    let message = Message::try_from(buffer_with(&[
        0x1B, 1, 0, 4, 0x0E, 89, 100, 78, 109, 14,
    ]))
    .unwrap();
    assert_eq!(message.seq, 1);
    assert_eq!(message.len, 4);
    assert_eq!(message.body, vec![89, 100, 78, 109]);
}

#[test]
fn framed_messages_decode_to_themselves() {
    for size in [0usize, 1, 2, 17, 255, 256, 274, 275] {
        let body: Vec<u8> = (0..size).map(|i| (i * 7 + 3) as u8).collect();
        let bytes: Vec<u8> = Message::new(200, body.clone()).into();
        assert_eq!(bytes.len(), size + 6);
        assert_eq!(Message::calc_checksum(&bytes), 0);
        assert_eq!(
            Message::HEADER_SIZE + Message::remaining_size(&bytes[..Message::HEADER_SIZE]),
            bytes.len()
        );
        let mut buffer: MessageBuffer = [0xEE; Message::MAX_SIZE];
        buffer[..bytes.len()].copy_from_slice(&bytes);
        assert_eq!(Message::try_from(buffer).unwrap(), Message::new(200, body));
    }
}

#[test]
fn changed_bytes_are_detected() {
    let bytes: Vec<u8> = Message::new(5, vec![1, 2, 3, 4]).into();
    for i in 0..bytes.len() {
        if i == 2 || i == 3 {
            continue;
        }
        for bit in 0..8 {
            let mut buffer = buffer_with(&bytes);
            buffer[i] ^= 1 << bit;
            assert_eq!(Message::try_from(buffer), Err(ErrorKind::ChecksumError));
        }
    }
}

#[test]
fn start_and_token_are_not_looked_at() {
    let message = Message::try_from(buffer_with(&[0, 1, 0, 1, 0, 9, 9])).unwrap();
    assert_eq!(message.body, vec![9]);
}

#[test]
fn message_with_an_empty_body_decodes() {
    let message = Message::try_from(buffer_with(&[0x1B, 2, 0, 0, 0x0E, 0x17])).unwrap();
    assert_eq!(message.body, Vec::<u8>::new());
}

#[test]
fn remaining_size_counts_body_and_checksum() {
    assert_eq!(Message::remaining_size(&[0x1B, 0, 0x01, 0x13, 0x0E]), 276);
    assert_eq!(Message::remaining_size(&[0x1B, 0, 0, 0, 0x0E]), 1);
    assert_eq!(Message::remaining_size(&[0x1B, 0, 0xFF, 0xFF, 0x0E]), 65536);
}

#[test]
fn message_for_the_log() {
    assert_eq!(
        Message::new(255, vec![0x00, 0x0A, 0xFF]).to_string(),
        "sequence_number=255 body_length=3 body=[0x00, 0x0a, 0xff]"
    );
    assert_eq!(
        Message::new(0, vec![]).to_string(),
        "sequence_number=0 body_length=0 body=[]"
    );
}

#[test]
fn message_for_the_log_reads_like_a_formatted_one() {
    for size in [1usize, 9, 10, 99, 100, 275] {
        let body: Vec<u8> = (0..size).map(|i| i as u8).collect();
        let hexes: Vec<String> = body.iter().map(|b| format!("{:#04x}", b)).collect();
        let expected = format!(
            "sequence_number={} body_length={} body=[{}]",
            size as u8,
            size,
            hexes.join(", ")
        );
        assert_eq!(Message::new(size as u8, body).to_string(), expected);
    }
}

#[test]
fn hexadecimal_bytes() {
    assert_eq!(to_hex(&[]), "");
    assert_eq!(to_hex(&[0x5]), "0x05");
    assert_eq!(to_hex(&[0x1b, 0xc9]), "0x1b, 0xc9");
}

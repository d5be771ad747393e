use ecson::varint::{
    accept_packet_len, encode_varint, read_step, CloseReason, ReadAction, ReadEvent, VarIntDecoder, VarIntError, VarIntStep,
    MAX_PACKET_SIZE,
};

fn decode_all(bytes: &[u8]) -> Vec<VarIntStep> {
    let mut d = VarIntDecoder::new();
    bytes.iter().map(|b| d.push(*b)).collect()
}

#[test]
fn test_encode_varint_single_byte() {
    assert_eq!(encode_varint(0), vec![0x00]);
    assert_eq!(encode_varint(1), vec![0x01]);
    assert_eq!(encode_varint(127), vec![0x7F]);
}

#[test]
fn test_encode_varint_multi_byte() {
    assert_eq!(encode_varint(128), vec![0x80, 0x01]);
    assert_eq!(encode_varint(255), vec![0xFF, 0x01]);
    assert_eq!(encode_varint(2097151), vec![0xFF, 0xFF, 0x7F]);
}

#[test]
fn encode_varint_max_takes_five_bytes() {
    assert_eq!(encode_varint(i32::MAX), vec![0xFF, 0xFF, 0xFF, 0xFF, 0x07]);
}

#[test]
fn negative_values_take_five_bytes() {
    assert_eq!(encode_varint(-1), vec![0xFF, 0xFF, 0xFF, 0xFF, 0x0F]);
    assert_eq!(encode_varint(i32::MIN), vec![0x80, 0x80, 0x80, 0x80, 0x08]);
    assert_eq!(encode_varint(-128), vec![0x80, 0xFF, 0xFF, 0xFF, 0x0F]);
}

#[test]
fn decoder_reads_back_encodings() {
    for v in [0, 1, 127, 128, 255, 300, 2097151, 2097152, 268435455, 268435456, i32::MAX, -1, -128, i32::MIN] {
        let bytes = encode_varint(v);
        let steps = decode_all(&bytes);
        let (last, init) = steps.split_last().unwrap();
        assert!(init.iter().all(|s| *s == VarIntStep::NeedMore));
        assert_eq!(*last, VarIntStep::Done(v));
    }
}

#[test]
fn decoder_rejects_six_byte_varint() {
    let steps = decode_all(&[0x80, 0x80, 0x80, 0x80, 0x80]);
    assert_eq!(steps[4], VarIntStep::TooLong);
    assert!(steps[..4].iter().all(|s| *s == VarIntStep::NeedMore));
}

#[test]
fn decoder_keeps_only_low_32_bits_of_fifth_byte() {
    // 0x7F in the fifth byte sets bits 28..34; only bits 28..31 survive.
    let steps = decode_all(&[0xFF, 0xFF, 0xFF, 0xFF, 0x7F]);
    assert_eq!(steps[4], VarIntStep::Done(-1));
    let steps = decode_all(&[0x80, 0x80, 0x80, 0x80, 0x08]);
    assert_eq!(steps[4], VarIntStep::Done(i32::MIN));
}

#[test]
fn decoder_is_reusable_after_a_value() {
    let mut d = VarIntDecoder::new();
    assert_eq!(d.push(0x05), VarIntStep::Done(5));
    assert_eq!(d.push(0xAC), VarIntStep::NeedMore);
    assert_eq!(d.push(0x02), VarIntStep::Done(300));
}

#[test]
fn packet_length_check() {
    assert_eq!(accept_packet_len(0), None);
    assert_eq!(accept_packet_len(-1), None);
    assert_eq!(accept_packet_len(1), Some(1));
    assert_eq!(accept_packet_len(MAX_PACKET_SIZE as i32), Some(MAX_PACKET_SIZE));
    assert_eq!(accept_packet_len(MAX_PACKET_SIZE as i32 + 1), None);
}

#[test]
fn varint_error_texts() {
    assert_eq!(VarIntError::Eof.to_string(), "EOF");
    assert_eq!(VarIntError::TooLong.to_string(), "VarInt exceeds 5 bytes");
    let e = VarIntError::Io(std::io::Error::new(std::io::ErrorKind::Other, "boom"));
    assert_eq!(e.to_string(), "I/O error: boom");
}

#[test]
fn packet_reader_steps() {
    assert_eq!(read_step(ReadEvent::LengthRead(5)), ReadAction::ReadBody(5));
    assert_eq!(read_step(ReadEvent::LengthRead(0)), ReadAction::Close(CloseReason::BadLength(0)));
    assert_eq!(read_step(ReadEvent::LengthRead(-3)), ReadAction::Close(CloseReason::BadLength(-3)));
    assert_eq!(
        read_step(ReadEvent::LengthRead(MAX_PACKET_SIZE as i32 + 1)),
        ReadAction::Close(CloseReason::BadLength(MAX_PACKET_SIZE as i32 + 1))
    );
    assert_eq!(read_step(ReadEvent::BodyRead), ReadAction::Forward);
    assert_eq!(read_step(ReadEvent::Forwarded), ReadAction::ReadLength);
    assert_eq!(read_step(ReadEvent::LengthFailed { eof: true }), ReadAction::Close(CloseReason::PeerClosed));
    assert_eq!(read_step(ReadEvent::LengthFailed { eof: false }), ReadAction::Close(CloseReason::LengthError));
    assert_eq!(read_step(ReadEvent::BodyFailed), ReadAction::Close(CloseReason::BodyError));
    assert_eq!(read_step(ReadEvent::ForwardFailed), ReadAction::Close(CloseReason::EcsGone));
}

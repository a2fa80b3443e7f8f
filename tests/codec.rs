use lumalla::message::{count_fds, decode_request, Arg, ArgType};
use lumalla::reader::{read_result, ReadResult, Reader, BUFFER_SIZE};
use lumalla::wire::{read_header, read_u16, read_u32, MessageHeader};
use lumalla::writer::{WriteError, Writer};
use std::collections::VecDeque;

#[test]
fn scalar_reads_are_little_endian() {
    let b = [0x78, 0x56, 0x34, 0x12, 0xff];
    assert_eq!(read_u32(&b, 0), 0x12345678);
    assert_eq!(read_u16(&b, 3), 0xff12);
}

#[test]
fn header_of_short_input_is_none() {
    assert_eq!(read_header(&[1, 0, 0, 0, 8, 0, 0], 0), None);
    assert_eq!(
        read_header(&[1, 0, 0, 0, 12, 0, 3, 0], 0),
        Some(MessageHeader { object_id: 1, size: 12, opcode: 3 })
    );
}

#[test]
fn encode_then_decode_is_identical() {
    let args = vec![
        Arg::Int(-2),
        Arg::Uint(3),
        Arg::Fixed(1101),
        Arg::Str(Some(b"Hello, world!".to_vec())),
        Arg::Str(None),
        Arg::Object(7),
        Arg::NewId(8),
        Arg::Array(vec![1, 2, 3, 4, 5]),
        Arg::Fd(42),
    ];
    let sig = [
        ArgType::Int,
        ArgType::Uint,
        ArgType::Fixed,
        ArgType::Str,
        ArgType::Str,
        ArgType::Object,
        ArgType::NewId,
        ArgType::Array,
        ArgType::Fd,
    ];
    let mut w = Writer::new();
    w.write_message(1, 2, &args);
    let bytes = w.buffered().to_vec();
    // 4 + 4 + 4 + (4 + 16) + 4 + 4 + 4 + (4 + 8) = 56 bytes of body.
    assert_eq!(bytes.len(), 8 + 56);
    assert_eq!(w.outgoing_fds(), &[42]);

    let mut r = Reader::new();
    r.receive(&bytes, w.outgoing_fds());
    let (h, body) = r.next().unwrap().unwrap();
    assert_eq!(h, MessageHeader { object_id: 1, size: 64, opcode: 2 });
    let decoded = r.decode_args(&sig, &body);
    assert_eq!(format!("{:?}", decoded), format!("{:?}", args));

    // Framing the decoded message again gives the same bytes.
    let mut w2 = Writer::new();
    w2.write_message(h.object_id, h.opcode, &decoded);
    assert_eq!(w2.buffered(), bytes.as_slice());
}

#[test]
fn string_is_framed_with_nul_and_padding() {
    let mut w = Writer::new();
    w.write_message(3, 1, &vec![Arg::Str(Some(b"abc".to_vec()))]);
    assert_eq!(w.buffered(), &[3, 0, 0, 0, 16, 0, 1, 0, 4, 0, 0, 0, b'a', b'b', b'c', 0]);
}

#[test]
fn truncated_body_reads_as_defaults_and_fds_are_still_taken() {
    let mut fds: VecDeque<i32> = VecDeque::from(vec![5, 6]);
    let r = decode_request(&[ArgType::Fd, ArgType::Uint, ArgType::Int], &[1, 0], &mut fds);
    assert_eq!(format!("{:?}", r), format!("{:?}", vec![Arg::Fd(5), Arg::Uint(0), Arg::Int(0)]));
    assert_eq!(fds, VecDeque::from(vec![6]));
    assert_eq!(count_fds(&[ArgType::Fd, ArgType::Int, ArgType::Fd]), 2);
}

#[test]
fn empty_body_reads_as_defaults() {
    let mut fds: VecDeque<i32> = VecDeque::new();
    let r = decode_request(&[ArgType::Int, ArgType::Str, ArgType::Array, ArgType::Fd], &[], &mut fds);
    assert_eq!(
        format!("{:?}", r),
        format!("{:?}", vec![Arg::Int(0), Arg::Str(None), Arg::Array(vec![]), Arg::Fd(-1)])
    );
}

#[test]
fn string_longer_than_body_reads_as_null_and_skips_its_length() {
    let mut fds: VecDeque<i32> = VecDeque::new();
    let body = [20, 0, 0, 0, b'a', b'b', 0, 0, 7, 0, 0, 0];
    let r = decode_request(&[ArgType::Str, ArgType::Uint], &body, &mut fds);
    // The string claims 20 bytes, so the next argument lies past the body.
    assert_eq!(format!("{:?}", r), format!("{:?}", vec![Arg::Str(None), Arg::Uint(0)]));
    let body = [3, 0, 0, 0, b'a', b'b', 0, 0, 7, 0, 0, 0];
    let r = decode_request(&[ArgType::Str, ArgType::Uint], &body, &mut fds);
    assert_eq!(format!("{:?}", r), format!("{:?}", vec![Arg::Str(Some(b"ab".to_vec())), Arg::Uint(7)]));
}

#[test]
fn oversized_message_latches_an_error() {
    let mut w = Writer::new();
    w.write_message(1, 0, &vec![Arg::Array(vec![0u8; 70000])]);
    assert!(w.buffered().is_empty());
    w.write_message(1, 0, &vec![Arg::Uint(1)]);
    assert!(w.buffered().is_empty());
    assert_eq!(w.last_err(), Some(WriteError::MessageTooLarge));
    assert_eq!(w.last_err(), None);
    w.write_message(1, 0, &vec![Arg::Uint(1)]);
    assert_eq!(w.buffered().len(), 12);
}

#[test]
fn flush_policy_and_partial_sends() {
    let mut w = Writer::new();
    assert!(!w.needs_flush());
    for _ in 0..6000 {
        w.write_message(1, 0, &vec![Arg::Uint(1), Arg::Uint(2)]);
    }
    assert_eq!(w.buffered().len(), 6000 * 16);
    assert!(w.needs_flush());
    assert_eq!(w.outgoing_bytes().len(), 65535);
    w.mark_sent(65535);
    assert_eq!(w.buffered().len(), 6000 * 16 - 65535);
    assert!(!w.needs_flush());

    let mut w = Writer::new();
    for i in 0..127 {
        w.write_message(1, 0, &vec![Arg::Fd(i)]);
    }
    assert!(w.needs_flush());
    let n = w.outgoing_bytes().len();
    w.mark_sent(n);
    assert!(w.outgoing_fds().is_empty());
}

#[test]
fn read_results() {
    assert_eq!(read_result(10, false), ReadResult::ReadData);
    assert_eq!(read_result(0, false), ReadResult::EndOfStream);
    assert_eq!(read_result(-1, true), ReadResult::NoMoreData);
    assert_eq!(read_result(-1, false), ReadResult::EndOfStream);
}

#[test]
fn reader_compacts_when_nearly_full() {
    let mut r = Reader::new();
    assert_eq!(r.free_space(), BUFFER_SIZE);
    let msg = [1u8, 0, 0, 0, 8, 0, 0, 0];
    let mut data = Vec::new();
    for _ in 0..(BUFFER_SIZE / 8) {
        data.extend_from_slice(&msg);
    }
    data.extend_from_slice(&[1, 0, 0]);
    r.receive(&data, &[]);
    assert_eq!(r.free_space(), BUFFER_SIZE - data.len());
    r.message_handled(8);
    // Within one message of full: the rest moved to the front, which frees
    // the handled bytes as well as the three never used.
    assert_eq!(r.free_space(), 8 + BUFFER_SIZE - data.len());
    let (h, body) = r.next().unwrap().unwrap();
    assert_eq!(h.size, 8);
    assert!(body.is_empty());
}

#[test]
fn zero_size_header_is_invalid() {
    let mut r = Reader::new();
    r.receive(&[1, 0, 0, 0, 0, 0, 0, 0], &[]);
    assert!(r.next().is_err());
}

#[test]
fn builder_chain_frames_like_write_message() {
    let mut w = Writer::new();
    w.start_message(1, 2);
    w.write_i32(-2);
    w.write_u32(3);
    w.write_str(b"Hello, world!");
    w.write_fd(9);
    w.write_message_length();
    let mut expected = Writer::new();
    expected.write_message(
        1,
        2,
        &vec![Arg::Int(-2), Arg::Uint(3), Arg::Str(Some(b"Hello, world!".to_vec())), Arg::Fd(9)],
    );
    assert_eq!(w.buffered(), expected.buffered());
    assert_eq!(w.outgoing_fds(), &[9]);

    let mut r = Reader::new();
    r.receive(w.buffered(), w.outgoing_fds());
    let (h, body) = r.next().unwrap().unwrap();
    assert_eq!(h.size as usize, 8 + body.len());
    assert_eq!(body.len(), 4 + 4 + 4 + 16);
    let args = r.decode_args(&[ArgType::Int, ArgType::Uint, ArgType::Str, ArgType::Fd], &body);
    assert_eq!(format!("{:?}", args), format!("{:?}", vec![Arg::Int(-2), Arg::Uint(3), Arg::Str(Some(b"Hello, world!".to_vec())), Arg::Fd(9)]));
}

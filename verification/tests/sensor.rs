use bytes::BytesMut;
use fnwalk::buffer::has_room;
use fnwalk::error::CodecError;
use fnwalk::number::IntFault;
use fnwalk::sensor::{
    raw_stream_step, stream_step, RawSensorData, SensorAction, SensorData, SensorEvent, SensorIO,
    SENSOR_PID, SENSOR_VID,
};
use fnwalk::stream::{ReadOutcome, Relay};
use fnwalk::text::Utf8Fault;

type Decoded = Option<Result<Option<RawSensorData>, CodecError>>;

/// What comes out of a buffer with these bytes, and what stays in it.
fn decode_bytes(bytes: &[u8]) -> (Decoded, Vec<u8>) {
    let mut src = BytesMut::from(bytes);
    let result = SensorIO.try_decode(&mut src);
    (result, src.to_vec())
}

fn raw(time1: u32, time2: u32, temp: i16) -> RawSensorData {
    RawSensorData { time1, time2, temp }
}

fn number_fault(bytes: &[u8]) -> IntFault {
    match decode_bytes(bytes).0 {
        Some(Err(CodecError::Number(fault))) => fault,
        other => panic!("{:?}", other),
    }
}

#[test]
fn sensor_device_ids() {
    assert_eq!(SENSOR_VID, 0x0403);
    assert_eq!(SENSOR_PID, 0x6001);
}

#[test]
fn complete_line_is_decoded() {
    let (result, rest) = decode_bytes(b"00123 04567  025\r");
    assert_eq!(result, Some(Ok(Some(raw(123, 4567, 25)))));
    assert!(rest.is_empty());
}

#[test]
fn decode_takes_the_line_out_of_the_buffer() {
    let mut src = BytesMut::from(&b"00001;99999;;-12\r"[..]);
    assert_eq!(SensorIO.decode(&mut src), Ok(Some(raw(1, 99_999, -12))));
    assert!(src.is_empty());
    assert_eq!(SensorIO.decode(&mut src), Ok(None));
}

#[test]
fn what_follows_a_line_is_dropped() {
    let (result, rest) = decode_bytes(b"00123 04567  25\r1234");
    assert_eq!(result, Some(Ok(Some(raw(123, 4567, 25)))));
    assert!(rest.is_empty());
}

#[test]
fn unfinished_line_stays_in_the_buffer() {
    let (result, rest) = decode_bytes(b"00123 04567  02");
    assert_eq!(result, Some(Ok(None)));
    assert_eq!(rest, b"00123 04567  02".to_vec());
}

#[test]
fn pieces_decode_like_the_whole() {
    let mut src = BytesMut::from(&b"00123 04"[..]);
    assert_eq!(SensorIO.decode(&mut src), Ok(None));
    src.extend_from_slice(b"567  025\r");
    assert_eq!(SensorIO.decode(&mut src), Ok(Some(raw(123, 4567, 25))));
}

#[test]
fn twenty_bytes_are_still_decoded() {
    let (result, _) = decode_bytes(b"00123 04567  -12345\r");
    assert_eq!(result, Some(Ok(Some(raw(123, 4567, -12345)))));
}

#[test]
fn overlong_buffer_is_emptied() {
    let (result, rest) = decode_bytes(b"00123 04567  025\r1234");
    assert_eq!(result, Some(Ok(None)));
    assert!(rest.is_empty());
    let (result, rest) = decode_bytes(b"000000000000000000000");
    assert_eq!(result, Some(Ok(None)));
    assert!(rest.is_empty());
}

#[test]
fn short_line_is_passed_over() {
    let (result, rest) = decode_bytes(b"00123 04567  \r00");
    assert_eq!(result, Some(Ok(None)));
    assert!(rest.is_empty());
    assert_eq!(decode_bytes(b"\r"), (Some(Ok(None)), Vec::new()));
}

#[test]
fn shortest_line_is_decoded() {
    assert_eq!(decode_bytes(b"00123 04567  7\r").0, Some(Ok(Some(raw(123, 4567, 7)))));
}

#[test]
fn signs_are_read() {
    assert_eq!(decode_bytes(b"+0123 +4567  +25\r").0, Some(Ok(Some(raw(123, 4567, 25)))));
}

#[test]
fn white_space_around_a_line_is_ignored() {
    assert_eq!(decode_bytes(b"\n00123 04567  25 \r").0, Some(Ok(Some(raw(123, 4567, 25)))));
}

/// Every character before the line is either trimmed or read as the start of the first number.
#[test]
fn exactly_white_space_is_trimmed() {
    for c in '\u{0}'..=char::MAX {
        if c == '\r' {
            continue;
        }
        let line = format!("{}00123 04567  7\r", c);
        let result = decode_bytes(line.as_bytes()).0;
        if c.is_whitespace() {
            assert_eq!(result, Some(Ok(Some(raw(123, 4567, 7)))), "{:?}", c);
        } else if c.is_ascii_digit() || c == '+' {
            assert_ne!(result, Some(Ok(Some(raw(123, 4567, 7)))), "{:?}", c);
        } else {
            assert_eq!(result, Some(Err(CodecError::Number(IntFault::InvalidDigit))), "{:?}", c);
        }
    }
}

#[test]
fn first_number_is_checked_first() {
    assert_eq!(number_fault(b"0x123 0x567  x\r"), IntFault::InvalidDigit);
    assert_eq!(number_fault(b"00123 0x567  99999\r"), IntFault::InvalidDigit);
    assert_eq!(number_fault(b"00123 04567  99999\r"), IntFault::PosOverflow);
    assert_eq!(number_fault(b"00123 04567  -99999\r"), IntFault::NegOverflow);
    assert_eq!(number_fault(b"00123 04567,, \r"), IntFault::Empty);
    assert_eq!(number_fault(b"00123 04567  -\r"), IntFault::InvalidDigit);
}

#[test]
fn temperature_limits() {
    assert_eq!(decode_bytes(b"00000 00000  32767\r").0, Some(Ok(Some(raw(0, 0, i16::MAX)))));
    assert_eq!(decode_bytes(b"00000 00000  -32768\r").0, Some(Ok(Some(raw(0, 0, i16::MIN)))));
    assert_eq!(number_fault(b"00000 00000  32768\r"), IntFault::PosOverflow);
    assert_eq!(number_fault(b"00000 00000  -32769\r"), IntFault::NegOverflow);
}

#[test]
fn numbers_that_are_not_whole_characters_are_refused() {
    for line in [
        "              \r",
        "00123 045     \r",
        "00123 04567   \r",
        "0012\u{e9} 04567  25\r",
        "00123\u{e9}4567  25\r",
        "00123 0456\u{e9}  25\r",
        "00123 04567 \u{e9}25\r",
    ] {
        let (result, rest) = decode_bytes(line.as_bytes());
        assert_eq!(result, None, "{:?}", line);
        assert_eq!(rest, line.as_bytes().to_vec());
    }
}

/// The numbers before one that is not whole characters are read all the same.
#[test]
fn faults_before_a_broken_number_are_reported() {
    assert_eq!(number_fault("0012x\u{e9}\u{e9}67  25\r".as_bytes()), IntFault::InvalidDigit);
}

#[test]
fn invalid_utf8_is_reported_as_the_standard_library_does() {
    for line in [
        &b"00123 04567  \xff"[..],
        &b"\xff0123 04567  25"[..],
        &b"00123 04567  \xc3"[..],
        &b"00123 04567  \xe2\x82"[..],
        &b"00123 \xe2\x28 04567 1"[..],
        &b"00123 \xf0\x9f\x98 4567"[..],
    ] {
        let expected = std::str::from_utf8(line).unwrap_err();
        let mut bytes = line.to_vec();
        bytes.push(b'\r');
        let (result, rest) = decode_bytes(&bytes);
        let fault = Utf8Fault {
            valid_up_to: expected.valid_up_to(),
            error_len: expected.error_len(),
        };
        assert_eq!(result, Some(Err(CodecError::Utf8(fault))));
        assert!(rest.is_empty());
        assert_eq!(CodecError::Utf8(fault).to_string(), expected.to_string());
    }
}

#[test]
fn number_faults_read_as_the_standard_library_says() {
    let cases = [
        (IntFault::Empty, "".parse::<i16>()),
        (IntFault::InvalidDigit, "x".parse::<i16>()),
        (IntFault::PosOverflow, "99999".parse::<i16>()),
        (IntFault::NegOverflow, "-99999".parse::<i16>()),
    ];
    for (fault, parsed) in cases {
        assert_eq!(CodecError::Number(fault).to_string(), parsed.unwrap_err().to_string());
    }
}

#[test]
fn command_is_sent_with_a_carriage_return() {
    let mut dst = BytesMut::new();
    assert_eq!(SensorIO.encode(b"ab".to_vec(), &mut dst), Ok(()));
    assert_eq!(dst.to_vec(), b"ab\r".to_vec());
    assert_eq!(SensorIO.encode(Vec::new(), &mut dst), Ok(()));
    assert_eq!(dst.to_vec(), b"ab\r\r".to_vec());
}

#[test]
fn room_is_limited() {
    let limit = isize::MAX as usize / 2;
    let empty = BytesMut::new();
    assert!(has_room(&empty, 0));
    assert!(has_room(&empty, limit - 1));
    assert!(!has_room(&empty, limit));
    assert!(!has_room(&empty, usize::MAX));
    let held = BytesMut::from(&b"abc"[..]);
    assert!(has_room(&held, limit - 4));
    assert!(!has_room(&held, limit - 3));
}

#[test]
fn length_of_the_next_line() {
    assert_eq!(SensorIO.line_len(&BytesMut::from(&b"00123 04567  25\r12"[..])), Some(15));
    assert_eq!(SensorIO.line_len(&BytesMut::from(&b"\r12\r"[..])), Some(0));
    assert_eq!(SensorIO.line_len(&BytesMut::from(&b"00123 04567"[..])), None);
    assert_eq!(SensorIO.line_len(&BytesMut::from(&b"00123 04567  025\r123"[..])), Some(16));
    assert_eq!(SensorIO.line_len(&BytesMut::from(&b"00123 04567  025\r1234"[..])), None);
}

#[test]
fn encoded_line_is_decoded_again() {
    let mut buf = BytesMut::new();
    SensorIO.encode(b"00042:00100::-5".to_vec(), &mut buf).unwrap();
    assert_eq!(SensorIO.decode(&mut buf), Ok(Some(raw(42, 100, -5))));
    assert!(buf.is_empty());
}

#[test]
fn distance_is_half_the_way_of_the_sound() {
    assert_eq!(SensorData::from(raw(0, 0, 0)).distance, 0);
    assert_eq!(SensorData::from(raw(0, 58, 0)).distance, 0);
    assert_eq!(SensorData::from(raw(0, 59, 0)).distance, 1);
    assert_eq!(SensorData::from(raw(7, 1000, 20)).distance, 17);
    assert_eq!(SensorData::from(raw(0, 99_999, 0)).distance, 1715);
}

#[test]
fn longer_echo_is_never_nearer() {
    let mut last = 0;
    for time2 in 0..=99_999 {
        let distance = SensorData::from(raw(0, time2, 0)).distance;
        assert!(distance >= last);
        last = distance;
    }
}

#[test]
fn longest_time_that_converts() {
    assert!(raw(0, 99_999, 0).can_convert());
    assert!(raw(0, u32::MAX / 3432, 0).can_convert());
    assert!(!raw(0, u32::MAX / 3432 + 1, 0).can_convert());
}

#[test]
fn distance_is_shown_in_centimetres() {
    assert_eq!(SensorData { distance: 0 }.to_string(), "0 cm");
    assert_eq!(SensorData { distance: 17 }.to_string(), "17 cm");
    assert_eq!(SensorData { distance: u32::MAX }.to_string(), "4294967295 cm");
}

#[test]
fn raw_stream_reads_and_yields_in_turn() {
    let read: SensorAction<u8> = SensorAction::Read(1000);
    assert_eq!(raw_stream_step(SensorEvent::Started), read);
    assert_eq!(raw_stream_step(SensorEvent::Yielded), read);
    assert_eq!(
        raw_stream_step::<u8>(SensorEvent::Read(ReadOutcome::Item(raw(1, 2, 3)))),
        SensorAction::Yield(raw(1, 2, 3))
    );
}

#[test]
fn raw_stream_ends() {
    assert_eq!(
        raw_stream_step(SensorEvent::Read(ReadOutcome::Failed(7u8))),
        SensorAction::Fail(7)
    );
    assert_eq!(
        raw_stream_step::<u8>(SensorEvent::Read(ReadOutcome::TimedOut)),
        SensorAction::Stop
    );
    assert_eq!(raw_stream_step::<u8>(SensorEvent::Read(ReadOutcome::Ended)), SensorAction::Stop);
}

#[test]
fn distances_follow_the_measurements() {
    assert_eq!(
        stream_step::<u8>(Some(Ok(raw(0, 1000, 0)))),
        Relay::Forward(SensorData { distance: 17 })
    );
    assert_eq!(stream_step(Some(Err(7u8))), Relay::Finish(Err(7)));
    assert_eq!(stream_step::<u8>(None), Relay::Finish(Ok(())));
}

//! The distance sensor: the lines that it sends, and the distances that they stand for.
use bytes::BytesMut;
use vstd::prelude::*;
use vstd::string::*;
use vstd::utf8::*;

use crate::buffer::{bytes_of, contents, put, put_u8};
use crate::error::CodecError;
use crate::framing::{
    find_line_end, first_cr, line_end, line_end_of_terminated, line_ends_at_first_13, CR,
};
use crate::number::{
    decimal, digits_value, i16_of, is_digit, parse_i16, parse_u32, push_decimal, read_digits_ok,
    signed_text_denotes, u32_of, IntFault, PLUS,
};
use crate::stream::{relay, relayed, ReadOutcome, Relay};
use crate::text::{
    ascii_line, fault_tells_the_longest_text, is_white_space, line_text, trimmed, trimmed_bytes,
    trimmed_is_same, utf8_error_len, utf8_fault,
};

verus! {

/// The USB vendor of the sensor.
pub const SENSOR_VID: u16 = 0x0403;

/// The USB product of the sensor.
pub const SENSOR_PID: u16 = 0x6001;

/// More bytes than this without a line taken out are thrown away.
pub const MAX_BUFFERED: usize = 20;

/// A line of fewer bytes than this is passed over.
pub const MIN_LINE: usize = 14;

/// What the sensor measured: two times in microseconds and a temperature.
#[derive(Clone, Copy, Debug, PartialEq, Eq)]
pub struct RawSensorData {
    pub time1: u32,
    pub time2: u32,
    pub temp: i16,
}

/// The distance to what the sensor sees, in centimetres.
#[derive(Clone, Copy, Debug, PartialEq, Eq)]
pub struct SensorData {
    pub distance: u32,
}

/// The codec of the sensor's serial line.
pub struct SensorIO;

/// The measurement in a line's text, or the fault in it.
///
/// The two times stand at the bytes 0 to 4 and 6 to 10 and the temperature from byte 13 on. The
/// result is `None` where a number is reached whose bytes are not whole characters of the text.
pub open spec fn text_reading(text: Seq<u8>) -> Option<Result<RawSensorData, CodecError>> {
    if !is_char_boundary(text, 5) {
        None
    } else {
        match u32_of(text.subrange(0, 5)) {
            Err(fault) => Some(Err(CodecError::Number(fault))),
            Ok(time1) => if !is_char_boundary(text, 6) || !is_char_boundary(text, 11) {
                None
            } else {
                match u32_of(text.subrange(6, 11)) {
                    Err(fault) => Some(Err(CodecError::Number(fault))),
                    Ok(time2) => if !is_char_boundary(text, 13) {
                        None
                    } else {
                        match i16_of(text.skip(13)) {
                            Err(fault) => Some(Err(CodecError::Number(fault))),
                            Ok(temp) => Some(Ok(RawSensorData { time1, time2, temp })),
                        }
                    },
                }
            },
        }
    }
}

/// The measurement in a line, or the fault in it; `None` as in [`text_reading`].
pub open spec fn line_reading(line: Seq<u8>) -> Option<Result<RawSensorData, CodecError>> {
    if !valid_utf8(line) {
        Some(Err(CodecError::Utf8(utf8_fault(line))))
    } else {
        text_reading(trimmed_bytes(line))
    }
}

/// What is decoded from the bytes that have come in; `None` as in [`text_reading`].
pub open spec fn decoded(src: Seq<u8>) -> Option<Result<Option<RawSensorData>, CodecError>> {
    if src.len() > MAX_BUFFERED {
        Some(Ok(None))
    } else {
        match line_end(src) {
            None => Some(Ok(None)),
            Some(n) => if n < MIN_LINE {
                Some(Ok(None))
            } else {
                match line_reading(src.take(n)) {
                    None => None,
                    Some(Ok(raw)) => Some(Ok(Some(raw))),
                    Some(Err(e)) => Some(Err(e)),
                }
            },
        }
    }
}

/// The bytes that stay in the buffer: all of them while they are few and no line has ended,
/// otherwise none.
pub open spec fn left_over(src: Seq<u8>) -> Seq<u8> {
    if src.len() > MAX_BUFFERED || line_end(src) is Some {
        Seq::empty()
    } else {
        src
    }
}

/// The bytes on the wire after a command is sent.
pub open spec fn encoded(dst: Seq<u8>, item: Seq<u8>) -> Seq<u8> {
    dst + item.push(CR)
}

/// Reads the three numbers of a line's text.
fn read_text(text: &str) -> (r: Option<Result<RawSensorData, CodecError>>)
    ensures
        r == text_reading(text.spec_bytes()),
{
    let bytes = text.as_bytes();
    proof {
        encode_utf8_valid_utf8(text@);
    }
    if !text.is_char_boundary(5) {
        return None;
    }
    let time1: u32 = match parse_u32(&bytes[0..5]) {
        Err(fault) => return Some(Err(CodecError::Number(fault))),
        Ok(time1) => time1,
    };
    if !text.is_char_boundary(6) || !text.is_char_boundary(11) {
        return None;
    }
    let time2: u32 = match parse_u32(&bytes[6..11]) {
        Err(fault) => return Some(Err(CodecError::Number(fault))),
        Ok(time2) => time2,
    };
    if !text.is_char_boundary(13) {
        return None;
    }
    let temp: i16 = match parse_i16(&bytes[13..bytes.len()]) {
        Err(fault) => return Some(Err(CodecError::Number(fault))),
        Ok(temp) => temp,
    };
    Some(Ok(RawSensorData { time1, time2, temp }))
}

/// Reads a line.
fn read_line(line: &[u8]) -> (r: Option<Result<RawSensorData, CodecError>>)
    ensures
        r == line_reading(line@),
{
    match line_text(line) {
        Ok(text) => read_text(text),
        Err(fault) => Some(Err(CodecError::Utf8(fault))),
    }
}

impl SensorIO {
    /// The length of the line that is taken out of the buffer next, if one has ended and the buffer
    /// has not grown too long.
    pub fn line_len(&self, src: &BytesMut) -> (len: Option<usize>)
        ensures
            match len {
                Some(n) => contents(*src).len() <= MAX_BUFFERED && first_cr(
                    contents(*src),
                    n as int,
                ) && line_end(contents(*src)) == Some(n as int),
                None => contents(*src).len() > MAX_BUFFERED || line_end(contents(*src)) is None,
            },
    {
        if src.len() > MAX_BUFFERED {
            None
        } else {
            find_line_end(bytes_of(src))
        }
    }

    /// Whether the numbers of the line that has come in, if any, are whole characters.
    fn can_decode(&self, src: &BytesMut) -> (can: bool)
        ensures
            can == (decoded(contents(*src)) is Some),
    {
        match self.line_len(src) {
            None => true,
            Some(n) => {
                if n < MIN_LINE {
                    true
                } else {
                    let bytes = bytes_of(src);
                    proof {
                        assert(bytes@.subrange(0, n as int) =~= bytes@.take(n as int));
                    }
                    read_line(&bytes[0..n]).is_some()
                }
            },
        }
    }

    /// Takes the line that has come in out of the buffer and reads it.
    ///
    /// A buffer that has grown too long is emptied. A line that is too short is passed over. What
    /// follows the first line is thrown away with it. Nothing comes back while no line has ended.
    pub fn decode(&mut self, src: &mut BytesMut) -> (r: Result<Option<RawSensorData>, CodecError>)
        requires
            decoded(contents(*old(src))) is Some,
        ensures
            decoded(contents(*old(src))) == Some(r),
            contents(*final(src)) == left_over(contents(*old(src))),
            *final(self) == *old(self),
    {
        if src.len() > MAX_BUFFERED {
            src.clear();
            return Ok(None);
        }
        let end = find_line_end(bytes_of(src));
        if let Some(n) = end {
            let line = src.split_to(n);
            src.clear();
            if n < MIN_LINE {
                return Ok(None);
            }
            match read_line(bytes_of(&line)).unwrap() {
                Ok(raw) => Ok(Some(raw)),
                Err(e) => Err(e),
            }
        } else {
            Ok(None)
        }
    }

    /// Decodes as [`SensorIO::decode`] does, wherever that can be done. Where the line that has
    /// come in has a number that is not whole characters, the result is `None` and the buffer
    /// stays as it is.
    pub fn try_decode(&mut self, src: &mut BytesMut) -> (r: Option<
        Result<Option<RawSensorData>, CodecError>,
    >)
        ensures
            r == decoded(contents(*old(src))),
            contents(*final(src)) == if r is Some {
                left_over(contents(*old(src)))
            } else {
                contents(*old(src))
            },
            *final(self) == *old(self),
    {
        if self.can_decode(src) {
            Some(self.decode(src))
        } else {
            None
        }
    }

    /// Puts a command and the end of its line behind what is in the buffer.
    pub fn encode(&mut self, item: Vec<u8>, dst: &mut BytesMut) -> (r: Result<(), CodecError>)
        requires
            contents(*old(dst)).len() + item@.len() < isize::MAX / 2,
        ensures
            r is Ok,
            contents(*final(dst)) == encoded(contents(*old(dst)), item@),
            contents(*final(dst)) == contents(*old(dst)) + item@ + seq![0x0du8],
            *final(self) == *old(self),
    {
        put(dst, item.as_slice());
        put_u8(dst, CR);
        proof {
            assert(contents(*old(dst)) + item@.push(CR) =~= (contents(*old(dst)) + item@).push(CR));
            assert(contents(*old(dst)) + item@ + seq![0x0du8] =~= (contents(*old(dst))
                + item@).push(CR));
        }
        Ok(())
    }
}

/// How far sound travels one way while it goes there and back in this many microseconds, in whole
/// centimetres: sound makes 343.2 m/s, which is 0.03432 cm in a microsecond.
pub open spec fn one_way_cm(micros: int) -> int {
    micros * 3432 / 200_000
}

impl RawSensorData {
    /// The echo time is short enough to be converted in 32 bits.
    pub open spec fn converts(self) -> bool {
        self.time2 * 3432 <= u32::MAX
    }

    /// Whether the echo time is short enough to be converted.
    pub fn can_convert(&self) -> (can: bool)
        ensures
            can == self.converts(),
            can == (self.time2 * 3432 <= 0xffff_ffff),
    {
        self.time2 <= u32::MAX / 3432
    }
}

impl SensorData {
    /// The distance that an echo time stands for.
    pub fn from(raw_data: RawSensorData) -> (data: SensorData)
        requires
            raw_data.converts(),
        ensures
            data.distance == one_way_cm(raw_data.time2 as int),
            data.distance * 200_000 <= raw_data.time2 * 3432 < (data.distance + 1) * 200_000,
    {
        let distance: u32 = raw_data.time2 * 3432 / 100_000 / 2;
        SensorData { distance }
    }

    /// The distance with its unit.
    pub fn to_string(&self) -> (text: String)
        ensures
            text@ == decimal(self.distance as nat) + " cm"@,
    {
        let mut text = String::new();
        push_decimal(&mut text, self.distance as u64);
        text.append(" cm");
        proof {
            assert(Seq::<char>::empty() + decimal(self.distance as nat) =~= decimal(
                self.distance as nat,
            ));
        }
        text
    }
}

/// How long a read of the sensor may take.
pub const SENSOR_TIMEOUT_MS: u64 = 1000;

/// What has happened to the sensor's stream.
#[derive(Debug, PartialEq, Eq)]
pub enum SensorEvent<E> {
    /// The stream was started.
    Started,
    /// A read is over.
    Read(ReadOutcome<RawSensorData, E>),
    /// The last measurement was handed out.
    Yielded,
}

/// What the sensor's stream does next.
#[derive(Debug, PartialEq, Eq)]
pub enum SensorAction<E> {
    /// Read, for so many milliseconds at most.
    Read(u64),
    /// Hand a measurement out.
    Yield(RawSensorData),
    /// Hand an error out and end.
    Fail(E),
    /// End.
    Stop,
}

/// The stream reads and hands out measurements in turn. It ends when a read fails, when nothing
/// comes in time, and when the port ends.
pub open spec fn raw_action<E>(event: SensorEvent<E>) -> SensorAction<E> {
    match event {
        SensorEvent::Started => SensorAction::Read(SENSOR_TIMEOUT_MS),
        SensorEvent::Yielded => SensorAction::Read(SENSOR_TIMEOUT_MS),
        SensorEvent::Read(ReadOutcome::Item(raw)) => SensorAction::Yield(raw),
        SensorEvent::Read(ReadOutcome::Failed(e)) => SensorAction::Fail(e),
        SensorEvent::Read(ReadOutcome::TimedOut) => SensorAction::Stop,
        SensorEvent::Read(ReadOutcome::Ended) => SensorAction::Stop,
    }
}

/// Decides what the stream of measurements does after an event.
pub fn raw_stream_step<E>(event: SensorEvent<E>) -> (action: SensorAction<E>)
    ensures
        action == raw_action(event),
        match event {
            SensorEvent::Started => action == SensorAction::<E>::Read(1000),
            SensorEvent::Yielded => action == SensorAction::<E>::Read(1000),
            SensorEvent::Read(ReadOutcome::Item(raw)) => action == SensorAction::<E>::Yield(raw),
            SensorEvent::Read(ReadOutcome::Failed(e)) => action == SensorAction::Fail(e),
            SensorEvent::Read(ReadOutcome::TimedOut) => action is Stop,
            SensorEvent::Read(ReadOutcome::Ended) => action is Stop,
        },
{
    match event {
        SensorEvent::Started | SensorEvent::Yielded => SensorAction::Read(SENSOR_TIMEOUT_MS),
        SensorEvent::Read(outcome) => match outcome {
            ReadOutcome::Item(raw) => SensorAction::Yield(raw),
            ReadOutcome::Failed(e) => SensorAction::Fail(e),
            ReadOutcome::TimedOut | ReadOutcome::Ended => SensorAction::Stop,
        },
    }
}

/// What the stream of distances does with the next item of the stream of measurements.
pub open spec fn distance_action<E>(item: Option<Result<RawSensorData, E>>) -> Relay<
    SensorData,
    E,
> {
    match relayed(item) {
        Relay::Forward(raw) => Relay::Forward(distance_of(raw)),
        Relay::Finish(result) => Relay::Finish(result),
    }
}

/// The distance that a measurement stands for.
pub open spec fn distance_of(raw: RawSensorData) -> SensorData {
    SensorData { distance: one_way_cm(raw.time2 as int) as u32 }
}

/// Decides what the stream of distances does with the next item of the stream of measurements, or
/// with its end.
pub fn stream_step<E>(item: Option<Result<RawSensorData, E>>) -> (next: Relay<SensorData, E>)
    requires
        item matches Some(Ok(raw)) ==> raw.converts(),
    ensures
        next == distance_action(item),
        item matches Some(Ok(raw)) ==> (next matches Relay::Forward(data) && data.distance * 200_000
            <= raw.time2 * 3432 < (data.distance + 1) * 200_000),
        item matches Some(Err(e)) ==> next == Relay::<SensorData, E>::Finish(Err(e)),
        item is None ==> next == Relay::<SensorData, E>::Finish(Ok(())),
{
    match relay(item) {
        Relay::Forward(raw) => Relay::Forward(SensorData::from(raw)),
        Relay::Finish(result) => Relay::Finish(result),
    }
}

/// What is handed out from an event on, where the reads that follow go like this.
pub open spec fn handed_out<E>(
    event: SensorEvent<E>,
    reads: Seq<ReadOutcome<RawSensorData, E>>,
) -> Seq<Result<RawSensorData, E>>
    decreases
            reads.len(),
            if event is Read {
                1nat
            } else {
                0nat
            },
{
    match raw_action(event) {
        SensorAction::Read(_) => if reads.len() == 0 {
            Seq::empty()
        } else {
            handed_out(SensorEvent::Read(reads.first()), reads.drop_first())
        },
        SensorAction::Yield(raw) => seq![Ok::<RawSensorData, E>(raw)] + handed_out(
            SensorEvent::Yielded,
            reads,
        ),
        SensorAction::Fail(e) => seq![Err::<RawSensorData, E>(e)],
        SensorAction::Stop => Seq::empty(),
    }
}

/// The items of the stream of measurements, from its start, whose reads go like this.
pub open spec fn raw_stream<E>(reads: Seq<ReadOutcome<RawSensorData, E>>) -> Seq<
    Result<RawSensorData, E>,
> {
    handed_out(SensorEvent::Started, reads)
}

/// The stream goes on after a measurement as it began.
proof fn raw_stream_goes_on<E>(reads: Seq<ReadOutcome<RawSensorData, E>>)
    ensures
        raw_stream(reads) == if reads.len() == 0 {
            Seq::<Result<RawSensorData, E>>::empty()
        } else {
            match reads.first() {
                ReadOutcome::Item(raw) => seq![Ok::<RawSensorData, E>(raw)] + raw_stream(
                    reads.drop_first(),
                ),
                ReadOutcome::Failed(e) => seq![Err::<RawSensorData, E>(e)],
                _ => Seq::empty(),
            }
        },
{
    reveal_with_fuel(handed_out, 4);
    if reads.len() > 0 {
        let rest = reads.drop_first();
        assert(handed_out(SensorEvent::<E>::Yielded, rest) == handed_out(
            SensorEvent::<E>::Started,
            rest,
        ));
    }
}

/// The items of the stream of distances over a stream of measurements.
pub open spec fn distance_stream<E>(items: Seq<Result<RawSensorData, E>>) -> Seq<
    Result<SensorData, E>,
>
    decreases items.len(),
{
    let item = if items.len() == 0 { None } else { Some(items.first()) };
    match distance_action(item) {
        Relay::Forward(data) => seq![Ok::<SensorData, E>(data)] + distance_stream(
            items.drop_first(),
        ),
        Relay::Finish(Err(e)) => seq![Err::<SensorData, E>(e)],
        Relay::Finish(Ok(())) => Seq::empty(),
    }
}

/// The stream of measurements hands out every measurement up to the first read that brings none.
/// If that read failed, its error is the last item. Nothing is handed out behind it.
pub proof fn raw_stream_ends_at_first_miss<E>(
    readings: Seq<RawSensorData>,
    miss: ReadOutcome<RawSensorData, E>,
    rest: Seq<ReadOutcome<RawSensorData, E>>,
)
    requires
        !(miss is Item),
    ensures
        raw_stream(
            readings.map_values(|raw: RawSensorData| ReadOutcome::<RawSensorData, E>::Item(raw))
                + seq![miss] + rest,
        ) == readings.map_values(|raw: RawSensorData| Ok::<RawSensorData, E>(raw)) + (match miss {
            ReadOutcome::Failed(e) => seq![Err::<RawSensorData, E>(e)],
            _ => Seq::empty(),
        }),
    decreases readings.len(),
{
    let item = |raw: RawSensorData| ReadOutcome::<RawSensorData, E>::Item(raw);
    let ok = |raw: RawSensorData| Ok::<RawSensorData, E>(raw);
    let reads = readings.map_values(item) + seq![miss] + rest;
    raw_stream_goes_on(reads);
    if readings.len() == 0 {
        assert(reads.first() == miss);
        assert(readings.map_values(ok) =~= Seq::empty());
    } else {
        let fewer = readings.drop_first();
        raw_stream_ends_at_first_miss(fewer, miss, rest);
        assert(reads.first() == item(readings.first()));
        assert(reads.drop_first() =~= fewer.map_values(item) + seq![miss] + rest);
        assert(readings.map_values(ok) =~= seq![ok(readings.first())] + fewer.map_values(ok));
    }
}

/// The stream of distances hands out, for each item of the stream of measurements, the distance
/// that it stands for, or its error.
pub proof fn distances_follow_measurements<E>(reads: Seq<ReadOutcome<RawSensorData, E>>)
    ensures
        distance_stream(raw_stream(reads)) == raw_stream(reads).map_values(
            |item: Result<RawSensorData, E>|
                match item {
                    Ok(raw) => Ok::<SensorData, E>(distance_of(raw)),
                    Err(e) => Err::<SensorData, E>(e),
                },
        ),
    decreases reads.len(),
{
    let convert = |item: Result<RawSensorData, E>|
        match item {
            Ok(raw) => Ok::<SensorData, E>(distance_of(raw)),
            Err(e) => Err::<SensorData, E>(e),
        };
    let items = raw_stream(reads);
    raw_stream_goes_on(reads);
    if items.len() == 0 {
        assert(distance_stream(items) =~= items.map_values(convert));
    } else {
        match raw_action(SensorEvent::Read(reads.first())) {
            SensorAction::Yield(raw) => {
                let rest = raw_stream(reads.drop_first());
                distances_follow_measurements(reads.drop_first());
                assert(items.drop_first() =~= rest);
                assert(items.map_values(convert) =~= seq![convert(items.first())]
                    + rest.map_values(convert));
            },
            _ => {
                assert(distance_stream(items) =~= items.map_values(convert));
            },
        }
    }
}

/// A number of at most five characters is less than 100000.
proof fn u32_of_five(text: Seq<u8>)
    requires
        text.len() == 5,
        u32_of(text) is Ok,
    ensures
        u32_of(text)->Ok_0 <= 99_999,
{
    let digits = if text[0] == PLUS { text.drop_first() } else { text };
    read_digits_ok(digits, u32::MAX as nat, IntFault::PosOverflow);
    let d1 = digits.drop_last();
    let d2 = d1.drop_last();
    let d3 = d2.drop_last();
    let d4 = d3.drop_last();
    assert(forall|i: int| 0 <= i < digits.len() ==> is_digit(#[trigger] digits[i]));
    assert(is_digit(digits[digits.len() - 1]) && is_digit(digits[digits.len() - 2]));
    assert(is_digit(digits[digits.len() - 3]) && is_digit(digits[digits.len() - 4]));
    reveal_with_fuel(digits_value, 6);
    if digits.len() == 5 {
        assert(is_digit(digits[0]));
    }
}

/// Both times of a decoded measurement have at most five digits, so the conversion to a distance
/// is always possible, and the distance is at most 1715 cm.
pub proof fn decoded_measurement_converts(src: Seq<u8>)
    requires
        decoded(src) matches Some(Ok(Some(_))),
    ensures
        decoded(src) matches Some(Ok(Some(raw))) ==> {
            &&& raw.time1 <= 99_999
            &&& raw.time2 <= 99_999
            &&& raw.converts()
            &&& distance_of(raw).distance <= 1715
        },
{
    let text = trimmed_bytes(src.take(line_end(src).unwrap()));
    assert(text.len() >= 13) by {
        encode_utf8_valid_utf8(trimmed(decode_utf8(src.take(line_end(src).unwrap()))));
    }
    u32_of_five(text.subrange(0, 5));
    u32_of_five(text.subrange(6, 11));
}

/// A longer echo never stands for a shorter distance.
pub proof fn distance_grows_with_time(shorter: RawSensorData, longer: RawSensorData)
    requires
        shorter.converts(),
        longer.converts(),
        shorter.time2 <= longer.time2,
    ensures
        distance_of(shorter).distance <= distance_of(longer).distance,
{
}

/// A decoder that has just been run has nothing more to give.
pub proof fn decoding_again_gives_nothing(src: Seq<u8>)
    requires
        decoded(src) is Some,
    ensures
        decoded(left_over(src)) == Some(Ok::<Option<RawSensorData>, CodecError>(None)),
        left_over(left_over(src)) == left_over(src),
{
}

/// A line in the sensor's layout, sent into an empty buffer, is decoded into its three numbers and
/// the buffer is empty again, whatever stands between the numbers. The times are five digits each;
/// the temperature is `digits`, behind an optional sign.
pub proof fn line_in_layout_decodes(line: Seq<u8>, digits: Seq<u8>)
    requires
        14 <= line.len() < 20,
        forall|i: int| 0 <= i < line.len() ==> #[trigger] line[i] < 0x80 && line[i] != 0x0d,
        forall|i: int| 0 <= i < 5 || 6 <= i < 11 ==> 0x30 <= #[trigger] line[i] <= 0x39,
        digits == if line[13] == 0x2b || line[13] == 0x2d {
            line.skip(14)
        } else {
            line.skip(13)
        },
        digits.len() > 0,
        forall|i: int| 0 <= i < digits.len() ==> 0x30 <= #[trigger] digits[i] <= 0x39,
        digits_value(digits) <= if line[13] == 0x2d {
            32768nat
        } else {
            32767nat
        },
    ensures
        decoded(encoded(Seq::empty(), line)) matches Some(Ok(Some(raw))) && {
            &&& raw.time1 == digits_value(line.subrange(0, 5))
            &&& raw.time2 == digits_value(line.subrange(6, 11))
            &&& raw.temp == if line[13] == 0x2d {
                -digits_value(digits)
            } else {
                digits_value(digits) as int
            }
        },
        left_over(encoded(Seq::empty(), line)) == Seq::<u8>::empty(),
{
    let src = encoded(Seq::empty(), line);
    assert(src =~= line.push(CR) + Seq::empty());
    line_end_of_terminated(line, Seq::empty());
    ascii_line(line);
    let chars = decode_utf8(line);
    assert(0x30 <= line[0] <= 0x39);
    assert(!is_white_space(chars.first()));
    assert(line.last() == digits.last());
    assert(0x30 <= digits[digits.len() - 1] <= 0x39);
    assert(!is_white_space(chars.last()));
    trimmed_is_same(chars);
    decode_utf8_encode_utf8(line);
    five_digits(line.subrange(0, 5));
    five_digits(line.subrange(6, 11));
    let temp = line.skip(13);
    assert(temp[0] == line[13]);
    assert(temp.skip(1) =~= line.skip(14));
    signed_text_denotes(temp, digits, digits.len() as int);
    assert(digits.take(digits.len() as int) =~= digits);
}

/// Five digits denote a number.
proof fn five_digits(text: Seq<u8>)
    requires
        text.len() == 5,
        forall|i: int| 0 <= i < 5 ==> is_digit(#[trigger] text[i]),
    ensures
        u32_of(text) == Ok::<u32, IntFault>(digits_value(text) as u32),
        digits_value(text) <= 99_999,
{
    read_digits_ok(text, u32::MAX as nat, IntFault::PosOverflow);
    assert(is_digit(text[0]) && is_digit(text[1]) && is_digit(text[2]) && is_digit(text[3])
        && is_digit(text[4]));
    reveal_with_fuel(digits_value, 6);
}

/// It makes no difference whether bytes come in at once or in two pieces, as long as the first
/// piece neither ends a line nor is too long.
pub proof fn bytes_wait_for_the_end_of_their_line(piece: Seq<u8>, rest: Seq<u8>)
    requires
        !piece.contains(CR),
        piece.len() <= MAX_BUFFERED,
    ensures
        decoded(piece) == Some(Ok::<Option<RawSensorData>, CodecError>(None)),
        decoded(left_over(piece) + rest) == decoded(piece + rest),
        left_over(left_over(piece) + rest) == left_over(piece + rest),
{
}

/// A buffer of more than twenty bytes, or without a byte with the code 13, gives nothing. It keeps
/// its bytes only in the second case, and every other buffer is emptied.
pub proof fn only_an_ended_line_gives_anything(src: Seq<u8>)
    ensures
        src.len() > 20 || (forall|i: int| 0 <= i < src.len() ==> #[trigger] src[i] != 13)
            ==> decoded(src) == Some(Ok::<Option<RawSensorData>, CodecError>(None)),
        left_over(src) == if src.len() <= 20 && (forall|i: int|
            0 <= i < src.len() ==> #[trigger] src[i] != 13) {
            src
        } else {
            Seq::empty()
        },
{
    line_ends_at_first_13(src, 0);
}

/// A line that has ended is passed over where it has fewer than fourteen bytes. Where it is not
/// UTF-8 it is refused, with the place where the text ends.
pub proof fn short_or_broken_line_gives_no_measurement(src: Seq<u8>, n: int)
    requires
        src.len() <= 20,
        0 <= n < src.len(),
        src[n] == 13,
        forall|i: int| 0 <= i < n ==> #[trigger] src[i] != 13,
    ensures
        n < 14 ==> decoded(src) == Some(Ok::<Option<RawSensorData>, CodecError>(None)),
        n >= 14 && !valid_utf8(src.take(n)) ==> (decoded(src) matches Some(
            Err(CodecError::Utf8(fault)),
        ) && partial_valid_utf8(src.take(n), fault.valid_up_to as int) && (forall|m: int|
            fault.valid_up_to < m <= n ==> !#[trigger] partial_valid_utf8(src.take(n), m))
            && fault.error_len == utf8_error_len(src.take(n))),
{
    line_ends_at_first_13(src, n);
    fault_tells_the_longest_text(src.take(n));
}

/// The text of a line that is long enough gives a measurement just where its three numbers can be
/// read, and the measurement has these numbers. Otherwise the first number that cannot be read
/// decides: its fault comes back, or nothing can be decoded where it is not whole characters.
pub proof fn line_gives_its_three_numbers(src: Seq<u8>, n: int, text: Seq<u8>)
    requires
        src.len() <= 20,
        14 <= n < src.len(),
        src[n] == 13,
        forall|i: int| 0 <= i < n ==> #[trigger] src[i] != 13,
        valid_utf8(src.take(n)),
        text == trimmed_bytes(src.take(n)),
    ensures
        match decoded(src) {
            Some(Ok(Some(raw))) => {
                &&& is_char_boundary(text, 5) && is_char_boundary(text, 6)
                &&& is_char_boundary(text, 11) && is_char_boundary(text, 13)
                &&& u32_of(text.subrange(0, 5)) == Ok::<u32, IntFault>(raw.time1)
                &&& u32_of(text.subrange(6, 11)) == Ok::<u32, IntFault>(raw.time2)
                &&& i16_of(text.subrange(13, text.len() as int)) == Ok::<i16, IntFault>(raw.temp)
            },
            Some(Ok(None)) => false,
            Some(Err(CodecError::Utf8(_))) => false,
            Some(Err(CodecError::Number(fault))) => {
                &&& is_char_boundary(text, 5)
                &&& u32_of(text.subrange(0, 5)) == Err::<u32, IntFault>(fault) || {
                    &&& u32_of(text.subrange(0, 5)) is Ok
                    &&& is_char_boundary(text, 6) && is_char_boundary(text, 11)
                    &&& u32_of(text.subrange(6, 11)) == Err::<u32, IntFault>(fault) || {
                        &&& u32_of(text.subrange(6, 11)) is Ok
                        &&& is_char_boundary(text, 13)
                        &&& i16_of(text.subrange(13, text.len() as int)) == Err::<i16, IntFault>(
                            fault,
                        )
                    }
                }
            },
            None => {
                ||| !is_char_boundary(text, 5)
                ||| u32_of(text.subrange(0, 5)) is Ok && {
                    ||| !is_char_boundary(text, 6)
                    ||| !is_char_boundary(text, 11)
                    ||| u32_of(text.subrange(6, 11)) is Ok && !is_char_boundary(text, 13)
                }
            },
        },
{
    line_ends_at_first_13(src, n);
    assert(text.skip(13) =~= text.subrange(13, text.len() as int));
}

/// The distance is the whole number of centimetres that sound, at 0.03432 cm in a microsecond,
/// makes one way: a centimetre is 200000 of the parts of which it makes 3432 in a microsecond.
pub proof fn distance_is_whole_centimetres(raw: RawSensorData)
    requires
        raw.time2 * 3432 <= 0xffff_ffff,
    ensures
        raw.converts(),
        distance_of(raw).distance * 200_000 <= raw.time2 * 3432 < (distance_of(raw).distance + 1)
            * 200_000,
{
}

/// An echo time converts just where its product with 3432 fits in 32 bits.
pub proof fn conversion_fits(raw: RawSensorData)
    ensures
        raw.converts() <==> raw.time2 <= 1_251_447,
{
}

/// A distance depends on the echo time alone: every 25 milliseconds more are 429 centimetres more.
pub proof fn distance_is_linear(near: RawSensorData, far: RawSensorData, k: nat)
    requires
        near.converts(),
        far.converts(),
        far.time2 == near.time2 + 25_000 * k,
    ensures
        distance_of(far).distance == distance_of(near).distance + 429 * k,
{
}

/// A command is put behind what is in the buffer, whole and unchanged, with one byte with the code
/// 13 behind it.
pub proof fn command_is_sent_whole(dst: Seq<u8>, item: Seq<u8>)
    ensures
        encoded(dst, item) == dst + item + seq![13u8],
{
    assert(encoded(dst, item) =~= dst + item + seq![13u8]);
}

/// A read of at most a second begins the stream and follows every measurement that was handed out.
/// What a read brings is handed out as it is. Nothing else reads, hands out or ends the stream.
pub proof fn reads_and_measurements_alternate<E>(
    event: SensorEvent<E>,
    millis: u64,
    raw: RawSensorData,
    error: E,
)
    ensures
        raw_action(event) == SensorAction::<E>::Read(millis) <==> millis == 1000 && (
        event is Started || event is Yielded),
        raw_action(event) == SensorAction::<E>::Yield(raw) <==> event == SensorEvent::<E>::Read(
            ReadOutcome::Item(raw),
        ),
        raw_action(event) == SensorAction::<E>::Fail(error) <==> event == SensorEvent::<E>::Read(
            ReadOutcome::Failed(error),
        ),
        raw_action(event) is Stop <==> event == SensorEvent::<E>::Read(ReadOutcome::TimedOut)
            || event == SensorEvent::<E>::Read(ReadOutcome::Ended),
{
}

/// The stream of distances hands out one distance for a measurement, ends with its error on an
/// error, and ends well where the stream of measurements does.
pub proof fn distance_is_handed_out_for_a_measurement<E>(item: Option<Result<RawSensorData, E>>)
    requires
        item matches Some(Ok(raw)) ==> raw.time2 * 3432 <= 0xffff_ffff,
    ensures
        match distance_action(item) {
            Relay::Forward(data) => item matches Some(Ok(raw)) && data.distance * 200_000
                <= raw.time2 * 3432 < (data.distance + 1) * 200_000,
            Relay::Finish(Err(e)) => item == Some(Err::<RawSensorData, E>(e)),
            Relay::Finish(Ok(())) => item is None,
        },
{
}

} // verus!

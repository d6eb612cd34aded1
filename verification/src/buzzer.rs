//! The buzzer: the answers that it gives, and the presses and releases that they stand for.
use bytes::BytesMut;
use vstd::prelude::*;
use vstd::string::*;
use vstd::utf8::*;

use crate::buffer::{bytes_of, contents, holds, put, put_u8};
use crate::error::CodecError;
use crate::framing::{
    find_line_end, line_end, line_end_of_terminated, line_ends_at_first_13, CR,
};
use crate::stream::ReadOutcome;

verus! {

/// The USB vendor of the buzzer.
pub const BUZZER_VID: u16 = 0x09ca;

/// The USB product of the buzzer.
pub const BUZZER_PID: u16 = 0x5544;

/// Whether the buzzer is held down.
#[derive(Clone, Copy, Debug, PartialEq, Eq, Structural)]
pub enum BuzzerState {
    Released,
    Pressed,
}

impl BuzzerState {
    /// The name of the state.
    pub fn to_string(&self) -> (text: String)
        ensures
            text@ == match *self {
                BuzzerState::Released => "Released"@,
                BuzzerState::Pressed => "Pressed"@,
            },
    {
        match self {
            BuzzerState::Released => "Released".to_owned(),
            BuzzerState::Pressed => "Pressed".to_owned(),
        }
    }
}

/// The codec of the buzzer's serial line.
pub struct BuzzerIO;

/// The line that a pressed buzzer answers with.
pub open spec fn pressed_line() -> Seq<u8> {
    encode_utf8("!00FE"@)
}

/// The state that an answer stands for: any line but [`pressed_line`] is a release.
pub open spec fn answer_of(line: Seq<u8>) -> BuzzerState {
    if line == pressed_line() {
        BuzzerState::Pressed
    } else {
        BuzzerState::Released
    }
}

/// What is decoded from the bytes that have come in: the first line, once it has ended.
pub open spec fn decoded(src: Seq<u8>) -> Option<BuzzerState> {
    match line_end(src) {
        Some(n) => Some(answer_of(src.take(n))),
        None => None,
    }
}

/// The bytes that stay in the buffer: all of them while no line has ended, otherwise none.
pub open spec fn left_over(src: Seq<u8>) -> Seq<u8> {
    if line_end(src) is Some {
        Seq::empty()
    } else {
        src
    }
}

/// The bytes on the wire after a command is sent.
pub open spec fn encoded(dst: Seq<u8>, item: Seq<char>) -> Seq<u8> {
    dst + encode_utf8(item).push(CR)
}

impl BuzzerIO {
    /// Takes the answer that has come in out of the buffer. What follows the first line is thrown
    /// away with it. Nothing comes back while no line has ended.
    pub fn decode(&mut self, src: &mut BytesMut) -> (r: Result<Option<BuzzerState>, CodecError>)
        ensures
            r == Ok::<Option<BuzzerState>, CodecError>(decoded(contents(*old(src)))),
            contents(*final(src)) == left_over(contents(*old(src))),
            *final(self) == *old(self),
    {
        let end = find_line_end(bytes_of(src));
        match end {
            None => Ok(None),
            Some(n) => {
                let line = src.split_to(n);
                src.clear();
                let state = if holds(&line, "!00FE".as_bytes()) {
                    BuzzerState::Pressed
                } else {
                    BuzzerState::Released
                };
                Ok(Some(state))
            },
        }
    }

    /// Puts a command and the end of its line behind what is in the buffer.
    pub fn encode(&mut self, item: String, dst: &mut BytesMut) -> (r: Result<(), CodecError>)
        requires
            contents(*old(dst)).len() + encode_utf8(item@).len() < isize::MAX / 2,
        ensures
            r is Ok,
            contents(*final(dst)) == encoded(contents(*old(dst)), item@),
            contents(*final(dst)) == contents(*old(dst)) + encode_utf8(item@) + seq![0x0du8],
            *final(self) == *old(self),
    {
        put(dst, item.as_str().as_bytes());
        put_u8(dst, CR);
        proof {
            let bytes = encode_utf8(item@);
            assert(contents(*old(dst)) + bytes.push(CR) =~= (contents(*old(dst)) + bytes).push(CR));
            assert(contents(*old(dst)) + bytes + seq![0x0du8] =~= (contents(*old(dst))
                + bytes).push(CR));
        }
        Ok(())
    }
}

/// How long a read of the buzzer may take.
pub const BUZZER_TIMEOUT_MS: u64 = 2000;

/// The pause before the buzzer is asked again.
pub const BUZZER_PAUSE_MS: u64 = 50;

/// The command that asks the buzzer for its state.
pub fn query() -> (text: String)
    ensures
        text@ == "@00P0?"@,
{
    "@00P0?".to_owned()
}

/// What has happened to the buzzer's stream.
#[derive(Debug, PartialEq, Eq)]
pub enum BuzzerEvent<E> {
    /// The stream was started.
    Started,
    /// The query was sent.
    Sent,
    /// The query could not be sent.
    SendFailed(E),
    /// A read is over.
    Read(ReadOutcome<BuzzerState, E>),
    /// The last change was handed out.
    Yielded,
    /// The pause is over.
    Rested,
}

/// What the buzzer's stream does next.
#[derive(Debug, PartialEq, Eq)]
pub enum BuzzerAction<E> {
    /// Send the [`query`].
    Query,
    /// Read, for so many milliseconds at most.
    Read(u64),
    /// Hand a change out.
    Yield(BuzzerState),
    /// Pause for so many milliseconds.
    Rest(u64),
    /// Hand an error out and end.
    Fail(E),
}

/// What the buzzer's stream knows: the state that the buzzer was in last.
#[derive(Debug, PartialEq, Eq)]
pub struct BuzzerPoll {
    pub old_state: BuzzerState,
}

/// The state that is known after an event: that of the last answer.
pub open spec fn known_after<E>(old_state: BuzzerState, event: BuzzerEvent<E>) -> BuzzerState {
    match event {
        BuzzerEvent::Read(ReadOutcome::Item(state)) => state,
        _ => old_state,
    }
}

/// What the stream does after an event. It asks, reads and pauses in turn, hands an answer out
/// where it differs from the one before, and ends only on an error.
pub open spec fn action_after<E>(old_state: BuzzerState, event: BuzzerEvent<E>) -> BuzzerAction<E> {
    match event {
        BuzzerEvent::Started => BuzzerAction::Query,
        BuzzerEvent::Rested => BuzzerAction::Query,
        BuzzerEvent::Sent => BuzzerAction::Read(BUZZER_TIMEOUT_MS),
        BuzzerEvent::Read(ReadOutcome::Item(state)) if state != old_state => BuzzerAction::Yield(
            state,
        ),
        BuzzerEvent::SendFailed(e) => BuzzerAction::Fail(e),
        BuzzerEvent::Read(ReadOutcome::Failed(e)) => BuzzerAction::Fail(e),
        _ => BuzzerAction::Rest(BUZZER_PAUSE_MS),
    }
}

impl BuzzerPoll {
    /// A stream takes the buzzer as released when it starts.
    pub fn new() -> (poll: BuzzerPoll)
        ensures
            poll.old_state == BuzzerState::Released,
    {
        BuzzerPoll { old_state: BuzzerState::Released }
    }

    /// Decides what the stream does after an event.
    pub fn step<E>(&mut self, event: BuzzerEvent<E>) -> (action: BuzzerAction<E>)
        ensures
            action == action_after(old(self).old_state, event),
            final(self).old_state == known_after(old(self).old_state, event),
            match event {
                BuzzerEvent::Started => action is Query,
                BuzzerEvent::Rested => action is Query,
                BuzzerEvent::Sent => action == BuzzerAction::<E>::Read(2000),
                BuzzerEvent::Yielded => action == BuzzerAction::<E>::Rest(50),
                BuzzerEvent::SendFailed(e) => action == BuzzerAction::Fail(e),
                BuzzerEvent::Read(ReadOutcome::Failed(e)) => action == BuzzerAction::Fail(e),
                BuzzerEvent::Read(ReadOutcome::Item(state)) => action == if state == old(self).old_state {
                    BuzzerAction::<E>::Rest(50)
                } else {
                    BuzzerAction::Yield(state)
                },
                BuzzerEvent::Read(ReadOutcome::TimedOut) => action == BuzzerAction::<E>::Rest(50),
                BuzzerEvent::Read(ReadOutcome::Ended) => action == BuzzerAction::<E>::Rest(50),
            },
            final(self).old_state == match event {
                BuzzerEvent::Read(ReadOutcome::Item(state)) => state,
                _ => old(self).old_state,
            },
    {
        match event {
            BuzzerEvent::Started | BuzzerEvent::Rested => BuzzerAction::Query,
            BuzzerEvent::Sent => BuzzerAction::Read(BUZZER_TIMEOUT_MS),
            BuzzerEvent::SendFailed(e) => BuzzerAction::Fail(e),
            BuzzerEvent::Yielded => BuzzerAction::Rest(BUZZER_PAUSE_MS),
            BuzzerEvent::Read(outcome) => match outcome {
                ReadOutcome::TimedOut | ReadOutcome::Ended => BuzzerAction::Rest(BUZZER_PAUSE_MS),
                ReadOutcome::Failed(e) => BuzzerAction::Fail(e),
                ReadOutcome::Item(new_state) => {
                    if self.old_state != new_state {
                        self.old_state = new_state;
                        BuzzerAction::Yield(new_state)
                    } else {
                        BuzzerAction::Rest(BUZZER_PAUSE_MS)
                    }
                },
            },
        }
    }
}

/// The state that is known after a series of reads.
pub open spec fn known_after_all<E>(
    old_state: BuzzerState,
    reads: Seq<ReadOutcome<BuzzerState, E>>,
) -> BuzzerState
    decreases reads.len(),
{
    if reads.len() == 0 {
        old_state
    } else {
        known_after_all(
            known_after(old_state, BuzzerEvent::Read(reads.first())),
            reads.drop_first(),
        )
    }
}

/// How far an event is from the next read.
pub open spec fn steps_to_read<E>(event: BuzzerEvent<E>) -> nat {
    match event {
        BuzzerEvent::Read(_) => 4,
        BuzzerEvent::Yielded => 3,
        BuzzerEvent::Rested => 2,
        BuzzerEvent::Started => 2,
        _ => 1,
    }
}

/// What is handed out from an event on, where every query can be sent and the reads that follow go
/// like this.
pub open spec fn handed_out<E>(
    old_state: BuzzerState,
    event: BuzzerEvent<E>,
    reads: Seq<ReadOutcome<BuzzerState, E>>,
) -> Seq<BuzzerState>
    decreases reads.len(), steps_to_read(event),
{
    let known = known_after(old_state, event);
    match action_after(old_state, event) {
        BuzzerAction::Query => handed_out(known, BuzzerEvent::<E>::Sent, reads),
        BuzzerAction::Read(_) => if reads.len() == 0 {
            Seq::empty()
        } else {
            handed_out(known, BuzzerEvent::Read(reads.first()), reads.drop_first())
        },
        BuzzerAction::Yield(state) => seq![state] + handed_out(
            known,
            BuzzerEvent::<E>::Yielded,
            reads,
        ),
        BuzzerAction::Rest(_) => handed_out(known, BuzzerEvent::<E>::Rested, reads),
        BuzzerAction::Fail(_) => Seq::empty(),
    }
}

/// The changes that are handed out over a whole run, from its start, whose reads go like this.
pub open spec fn changes<E>(
    old_state: BuzzerState,
    reads: Seq<ReadOutcome<BuzzerState, E>>,
) -> Seq<BuzzerState> {
    handed_out(old_state, BuzzerEvent::<E>::Started, reads)
}

/// Over a whole run, an answer is handed out just where it differs from the one before, a failed
/// read is the end, and after anything else the run goes on as it began: the next answer is asked
/// for and read in both states.
pub proof fn every_change_is_handed_out<E>(
    old_state: BuzzerState,
    reads: Seq<ReadOutcome<BuzzerState, E>>,
)
    ensures
        changes(old_state, reads) == if reads.len() == 0 {
            Seq::empty()
        } else {
            match reads.first() {
                ReadOutcome::Item(state) => (if state == old_state {
                    Seq::empty()
                } else {
                    seq![state]
                }) + changes(state, reads.drop_first()),
                ReadOutcome::Failed(_) => Seq::empty(),
                _ => changes(old_state, reads.drop_first()),
            }
        },
{
    reveal_with_fuel(handed_out, 7);
    if reads.len() > 0 {
        let rest = reads.drop_first();
        let known = known_after(old_state, BuzzerEvent::Read(reads.first()));
        assert(handed_out(known, BuzzerEvent::<E>::Started, rest) == handed_out(
            known,
            BuzzerEvent::<E>::Sent,
            rest,
        ));
        assert(handed_out(known, BuzzerEvent::<E>::Rested, rest) == handed_out(
            known,
            BuzzerEvent::<E>::Sent,
            rest,
        ));
        assert(handed_out(known, BuzzerEvent::<E>::Yielded, rest) == handed_out(
            known,
            BuzzerEvent::<E>::Rested,
            rest,
        ));
        assert(Seq::<BuzzerState>::empty() + changes(known, rest) =~= changes(known, rest));
    }
}

/// What the stream hands out alternates: the first change differs from the state at the start, and
/// every other change from the one before.
pub proof fn changes_alternate<E>(
    old_state: BuzzerState,
    reads: Seq<ReadOutcome<BuzzerState, E>>,
)
    ensures
        forall|i: int|
            0 <= i < changes(old_state, reads).len() ==> (#[trigger] changes(old_state, reads)[i]
                == old_state <==> i % 2 == 1),
    decreases reads.len(),
{
    every_change_is_handed_out(old_state, reads);
    if reads.len() > 0 {
        let event = BuzzerEvent::Read(reads.first());
        let known = known_after(old_state, event);
        let rest = changes(known, reads.drop_first());
        changes_alternate(known, reads.drop_first());
        assert forall|i: int| 0 <= i < changes(old_state, reads).len() implies (
        #[trigger] changes(old_state, reads)[i] == old_state <==> i % 2 == 1) by {
            if action_after(old_state, event) is Yield && i > 0 {
                assert(changes(old_state, reads)[i] == rest[i - 1]);
            }
        }
    }
}

/// The last change that was handed out is the state that is known; where nothing was handed out,
/// that is the state at the start. So what is heard of the buzzer is what it answered last.
pub proof fn last_change_is_known<E>(
    old_state: BuzzerState,
    reads: Seq<ReadOutcome<BuzzerState, E>>,
)
    requires
        forall|i: int| 0 <= i < reads.len() ==> !(#[trigger] reads[i] is Failed),
    ensures
        known_after_all(old_state, reads) == if changes(old_state, reads).len() == 0 {
            old_state
        } else {
            changes(old_state, reads).last()
        },
    decreases reads.len(),
{
    every_change_is_handed_out(old_state, reads);
    if reads.len() > 0 {
        let event = BuzzerEvent::Read(reads.first());
        let known = known_after(old_state, event);
        assert forall|i: int| 0 <= i < reads.drop_first().len() implies !(
        #[trigger] reads.drop_first()[i] is Failed) by {
            assert(reads.drop_first()[i] == reads[i + 1]);
        }
        assert(!(reads[0] is Failed));
        last_change_is_known(known, reads.drop_first());
    }
}

/// Reads that bring no answer leave no trace: the changes are those of the answers alone.
pub proof fn silent_reads_change_nothing<E>(
    old_state: BuzzerState,
    before: Seq<ReadOutcome<BuzzerState, E>>,
    silent: ReadOutcome<BuzzerState, E>,
    after: Seq<ReadOutcome<BuzzerState, E>>,
)
    requires
        silent is TimedOut || silent is Ended,
    ensures
        changes(old_state, before + seq![silent] + after) == changes(old_state, before + after),
    decreases before.len(),
{
    let with = before + seq![silent] + after;
    every_change_is_handed_out(old_state, with);
    every_change_is_handed_out(old_state, before + after);
    if before.len() == 0 {
        assert(with.first() == silent);
        assert(with.drop_first() =~= before + after);
    } else {
        let known = known_after(old_state, BuzzerEvent::Read(before.first()));
        silent_reads_change_nothing(known, before.drop_first(), silent, after);
        assert(with.drop_first() =~= before.drop_first() + seq![silent] + after);
        assert((before + after).drop_first() =~= before.drop_first() + after);
        assert(with.first() == before.first() && (before + after).first() == before.first());
    }
}

/// A read that fails is the last: what would come in behind it is not heard.
pub proof fn nothing_is_heard_behind_a_failure<E>(
    old_state: BuzzerState,
    before: Seq<ReadOutcome<BuzzerState, E>>,
    error: E,
    after: Seq<ReadOutcome<BuzzerState, E>>,
)
    ensures
        changes(old_state, before + seq![ReadOutcome::Failed(error)] + after) == changes(
            old_state,
            before,
        ),
    decreases before.len(),
{
    let failed = ReadOutcome::<BuzzerState, E>::Failed(error);
    let with = before + seq![failed] + after;
    every_change_is_handed_out(old_state, with);
    every_change_is_handed_out(old_state, before);
    if before.len() == 0 {
        assert(with.first() == failed);
    } else {
        let known = known_after(old_state, BuzzerEvent::Read(before.first()));
        nothing_is_heard_behind_a_failure(known, before.drop_first(), error, after);
        assert(with.drop_first() =~= before.drop_first() + seq![failed] + after);
        assert(with.first() == before.first());
    }
}

/// A line that is sent into an empty buffer is decoded into the state that it stands for, and the
/// buffer is empty again.
pub proof fn line_decodes(text: Seq<char>)
    requires
        !encode_utf8(text).contains(CR),
    ensures
        decoded(encoded(Seq::empty(), text)) == Some(answer_of(encode_utf8(text))),
        decoded(encoded(Seq::empty(), text)) == Some(BuzzerState::Pressed) <==> text == "!00FE"@,
        left_over(encoded(Seq::empty(), text)) == Seq::<u8>::empty(),
{
    let line = encode_utf8(text);
    assert(encoded(Seq::empty(), text) =~= line.push(CR) + Seq::empty());
    line_end_of_terminated(line, Seq::empty());
    encode_utf8_decode_utf8(text);
    encode_utf8_decode_utf8("!00FE"@);
}

/// It makes no difference whether bytes come in at once or in two pieces, as long as the first
/// piece does not end a line.
pub proof fn bytes_wait_for_the_end_of_their_line(piece: Seq<u8>, rest: Seq<u8>)
    requires
        !piece.contains(CR),
    ensures
        decoded(piece) is None,
        decoded(left_over(piece) + rest) == decoded(piece + rest),
        left_over(left_over(piece) + rest) == left_over(piece + rest),
{
}

/// The buzzer is asked at the start and after every pause, and at no other time. Whatever state it
/// was in, every query that was sent is followed by a read of at most two seconds, and nothing else
/// is.
pub proof fn every_query_is_followed_by_a_read<E>(
    old_state: BuzzerState,
    event: BuzzerEvent<E>,
    millis: u64,
)
    ensures
        action_after(old_state, event) is Query <==> event is Started || event is Rested,
        action_after(old_state, event) == BuzzerAction::<E>::Read(millis) <==> event is Sent
            && millis == 2000,
{
}

/// A state is handed out just where an answer brings it and the one before was another. Only an
/// answer changes the state that is known, and it is then the answer.
pub proof fn state_is_handed_out_where_it_changes<E>(
    old_state: BuzzerState,
    event: BuzzerEvent<E>,
    state: BuzzerState,
)
    ensures
        action_after(old_state, event) == BuzzerAction::<E>::Yield(state) <==> event
            == BuzzerEvent::<E>::Read(ReadOutcome::Item(state)) && state != old_state,
        event == BuzzerEvent::<E>::Read(ReadOutcome::Item(state)) ==> known_after(old_state, event)
            == state,
        !(event matches BuzzerEvent::Read(ReadOutcome::Item(_))) ==> known_after(old_state, event)
            == old_state,
{
}

/// The stream ends just on an error, of sending or of reading, and with that error.
pub proof fn stream_ends_on_errors_alone<E>(
    old_state: BuzzerState,
    event: BuzzerEvent<E>,
    error: E,
)
    ensures
        action_after(old_state, event) == BuzzerAction::<E>::Fail(error) <==> event
            == BuzzerEvent::<E>::SendFailed(error) || event == BuzzerEvent::<E>::Read(
            ReadOutcome::Failed(error),
        ),
{
}

/// A pause lasts fifty milliseconds, and comes after a change was handed out and after a read that
/// brought no change.
pub proof fn pause_ends_every_round<E>(
    old_state: BuzzerState,
    event: BuzzerEvent<E>,
    millis: u64,
)
    ensures
        action_after(old_state, event) == BuzzerAction::<E>::Rest(millis) <==> millis == 50 && {
            ||| event is Yielded
            ||| event == BuzzerEvent::<E>::Read(ReadOutcome::TimedOut)
            ||| event == BuzzerEvent::<E>::Read(ReadOutcome::Ended)
            ||| event == BuzzerEvent::<E>::Read(ReadOutcome::Item(old_state))
        },
{
}

/// The buzzer counts as pressed just where its first line is the five characters `!00FE`, as
/// released on every other line, and nothing is known while no line has ended. A buffer keeps its
/// bytes only then.
pub proof fn answer_is_pressed_for_one_line_alone(src: Seq<u8>)
    ensures
        decoded(src) == Some(BuzzerState::Pressed) <==> {
            &&& src.len() > 5
            &&& src.take(6) == seq![0x21u8, 0x30, 0x30, 0x46, 0x45, 0x0d]
        },
        decoded(src) is None <==> forall|i: int| 0 <= i < src.len() ==> #[trigger] src[i] != 0x0d,
        left_over(src) == if decoded(src) is None {
            src
        } else {
            Seq::empty()
        },
{
    let pressed = seq![0x21u8, 0x30, 0x30, 0x46, 0x45];
    reveal_strlit("!00FE");
    let chars = "!00FE"@;
    assert(is_ascii_chars(chars));
    is_ascii_chars_encode_utf8(chars);
    assert(pressed_line() =~= pressed);
    line_ends_at_first_13(src, 5);
    if src.len() > 5 && src.take(6) == pressed.push(0x0d) {
        assert forall|i: int| 0 <= i < 6 implies #[trigger] src[i] == pressed.push(0x0d)[i] by {
            assert(src.take(6)[i] == src[i]);
        }
        assert(src.take(5) =~= pressed);
    }
    if decoded(src) == Some(BuzzerState::Pressed) {
        let n = line_end(src).unwrap();
        line_ends_at_first_13(src, n);
        assert(src.take(n).len() == 5);
        assert forall|i: int| 0 <= i < 5 implies src[i] == pressed[i] by {
            assert(src.take(n)[i] == src[i]);
        }
        assert(src.take(6) =~= pressed.push(0x0d));
    }
    assert(seq![0x21u8, 0x30, 0x30, 0x46, 0x45, 0x0d] =~= pressed.push(0x0d));
}

/// A command is put behind what is in the buffer, whole and in UTF-8, with one byte with the code
/// 13 behind it.
pub proof fn command_is_sent_whole(dst: Seq<u8>, item: Seq<char>)
    ensures
        encoded(dst, item) == dst + encode_utf8(item) + seq![13u8],
{
    assert(encoded(dst, item) =~= dst + encode_utf8(item) + seq![13u8]);
}

} // verus!

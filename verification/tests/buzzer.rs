use bytes::BytesMut;
use fnwalk::buzzer::{
    query, BuzzerAction, BuzzerEvent, BuzzerIO, BuzzerPoll, BuzzerState, BUZZER_PID, BUZZER_VID,
};
use fnwalk::stream::ReadOutcome;

fn decode_bytes(bytes: &[u8]) -> (Option<BuzzerState>, Vec<u8>) {
    let mut src = BytesMut::from(bytes);
    let state = BuzzerIO.decode(&mut src).unwrap();
    (state, src.to_vec())
}

#[test]
fn buzzer_device_ids() {
    assert_eq!(BUZZER_VID, 0x09ca);
    assert_eq!(BUZZER_PID, 0x5544);
}

#[test]
fn state_names() {
    assert_eq!(BuzzerState::Released.to_string(), "Released");
    assert_eq!(BuzzerState::Pressed.to_string(), "Pressed");
}

#[test]
fn pressed_answer() {
    assert_eq!(decode_bytes(b"!00FE\r"), (Some(BuzzerState::Pressed), Vec::new()));
}

#[test]
fn any_other_answer_is_a_release() {
    for line in [&b"!00FF\r"[..], b"\r", b"!00fe\r", b"!00FE \r", b"00FE\r", b"\xff\r"] {
        assert_eq!(decode_bytes(line), (Some(BuzzerState::Released), Vec::new()));
    }
}

#[test]
fn answer_waits_for_its_end() {
    assert_eq!(decode_bytes(b"!00FE"), (None, b"!00FE".to_vec()));
    let mut src = BytesMut::from(&b"!00"[..]);
    assert_eq!(BuzzerIO.decode(&mut src), Ok(None));
    src.extend_from_slice(b"FE\r");
    assert_eq!(BuzzerIO.decode(&mut src), Ok(Some(BuzzerState::Pressed)));
}

#[test]
fn what_follows_an_answer_is_dropped() {
    assert_eq!(decode_bytes(b"!00FE\r!00FF\r"), (Some(BuzzerState::Pressed), Vec::new()));
}

#[test]
fn query_is_sent_with_a_carriage_return() {
    let mut dst = BytesMut::from(&b"x"[..]);
    assert_eq!(BuzzerIO.encode(query(), &mut dst), Ok(()));
    assert_eq!(dst.to_vec(), b"x@00P0?\r".to_vec());
}

#[test]
fn command_that_is_not_ascii_is_sent_as_utf8() {
    let mut dst = BytesMut::new();
    assert_eq!(BuzzerIO.encode("\u{e9}".to_string(), &mut dst), Ok(()));
    assert_eq!(dst.to_vec(), b"\xc3\xa9\r".to_vec());
}

#[test]
fn encoded_answer_is_decoded_again() {
    for (text, state) in [("!00FE", BuzzerState::Pressed), ("!00FF", BuzzerState::Released)] {
        let mut buf = BytesMut::new();
        BuzzerIO.encode(text.to_string(), &mut buf).unwrap();
        assert_eq!(BuzzerIO.decode(&mut buf), Ok(Some(state)));
        assert!(buf.is_empty());
    }
}

#[test]
fn poll_asks_reads_and_rests() {
    let mut poll = BuzzerPoll::new();
    assert_eq!(poll.step::<u8>(BuzzerEvent::Started), BuzzerAction::Query);
    assert_eq!(poll.step::<u8>(BuzzerEvent::Sent), BuzzerAction::Read(2000));
    assert_eq!(
        poll.step::<u8>(BuzzerEvent::Read(ReadOutcome::Item(BuzzerState::Pressed))),
        BuzzerAction::Yield(BuzzerState::Pressed)
    );
    assert_eq!(poll.step::<u8>(BuzzerEvent::Yielded), BuzzerAction::Rest(50));
    assert_eq!(poll.step::<u8>(BuzzerEvent::Rested), BuzzerAction::Query);
    assert_eq!(
        poll.step::<u8>(BuzzerEvent::Read(ReadOutcome::Item(BuzzerState::Pressed))),
        BuzzerAction::Rest(50)
    );
    assert_eq!(poll.old_state, BuzzerState::Pressed);
}

#[test]
fn poll_fails_on_errors_only() {
    let mut poll = BuzzerPoll::new();
    assert_eq!(poll.step(BuzzerEvent::SendFailed(3u8)), BuzzerAction::Fail(3));
    assert_eq!(
        poll.step(BuzzerEvent::Read(ReadOutcome::Failed(4u8))),
        BuzzerAction::Fail(4)
    );
    assert_eq!(
        poll.step::<u8>(BuzzerEvent::Read(ReadOutcome::TimedOut)),
        BuzzerAction::Rest(50)
    );
    assert_eq!(poll.step::<u8>(BuzzerEvent::Read(ReadOutcome::Ended)), BuzzerAction::Rest(50));
    assert_eq!(poll.old_state, BuzzerState::Released);
}

#[test]
fn changes_alternate() {
    let (pressed, released) = (BuzzerState::Pressed, BuzzerState::Released);
    let mut poll = BuzzerPoll::new();
    let mut changes = Vec::new();
    for state in [released, pressed, pressed, released, released, released, pressed] {
        poll.step::<u8>(BuzzerEvent::Read(ReadOutcome::TimedOut));
        if let BuzzerAction::Yield(change) =
            poll.step::<u8>(BuzzerEvent::Read(ReadOutcome::Item(state)))
        {
            changes.push(change);
        }
        assert_eq!(poll.old_state, state);
    }
    assert_eq!(changes, vec![pressed, released, pressed]);
}

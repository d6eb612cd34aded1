//! What the web page is told: one JSON object for each change of a device.
use vstd::prelude::*;
use vstd::string::*;

use crate::buzzer::BuzzerState;
use crate::number::decimal;
use crate::sensor::SensorData;

verus! {

/// `serde_json::Value`, carried as an opaque value.
#[verifier::external_type_specification]
#[verifier::external_body]
pub struct ExValue(serde_json::Value);

/// `serde_json::Map`, carried as an opaque value; what a JSON object holds is [`members`].
#[verifier::external_type_specification]
#[verifier::external_body]
#[verifier::reject_recursive_types(K)]
#[verifier::reject_recursive_types(V)]
pub struct ExObject<K, V>(serde_json::Map<K, V>);

/// A value in a message.
pub enum Scalar {
    Flag(bool),
    Number(u64),
    Text(String),
}

/// A value in a message, as plain values.
pub enum ScalarView {
    Flag(bool),
    Number(u64),
    Text(Seq<char>),
}

impl View for Scalar {
    type V = ScalarView;

    open spec fn view(&self) -> ScalarView {
        match *self {
            Scalar::Flag(b) => ScalarView::Flag(b),
            Scalar::Number(n) => ScalarView::Number(n),
            Scalar::Text(text) => ScalarView::Text(text@),
        }
    }
}

/// The keys of an object and their values, in the order of the keys.
pub uninterp spec fn members(
    object: serde_json::Map<String, serde_json::Value>,
) -> Seq<(Seq<char>, ScalarView)>;

/// `a` comes before `b` in the order of strings.
pub open spec fn precedes(a: Seq<char>, b: Seq<char>) -> bool {
    exists|i: int| #[trigger] precedes_at(a, b, i)
}

/// `a` and `b` are the same up to `i`, and there `a` ends or has the lower character.
pub open spec fn precedes_at(a: Seq<char>, b: Seq<char>, i: int) -> bool {
    &&& 0 <= i <= a.len()
    &&& i < b.len()
    &&& a.take(i) == b.take(i)
    &&& i < a.len() ==> a[i] < b[i]
}

/// A text that stands in JSON as it is: without control characters, quotation marks and
/// backslashes.
pub open spec fn is_plain(text: Seq<char>) -> bool {
    forall|i: int|
        0 <= i < text.len() ==> ' ' <= #[trigger] text[i] && text[i] != '"' && text[i] != '\\'
}

/// A plain text between quotation marks.
pub open spec fn quoted(text: Seq<char>) -> Seq<char> {
    seq!['"'] + text + seq!['"']
}

/// A value as JSON.
pub open spec fn scalar_text(value: ScalarView) -> Seq<char> {
    match value {
        ScalarView::Flag(true) => "true"@,
        ScalarView::Flag(false) => "false"@,
        ScalarView::Number(n) => decimal(n as nat),
        ScalarView::Text(text) => quoted(text),
    }
}

/// Members of an object as JSON, separated by commas.
pub open spec fn members_text(members: Seq<(Seq<char>, ScalarView)>) -> Seq<char>
    decreases members.len(),
{
    if members.len() == 0 {
        Seq::empty()
    } else {
        let member = quoted(members.last().0) + seq![':'] + scalar_text(members.last().1);
        if members.len() == 1 {
            member
        } else {
            members_text(members.drop_last()) + seq![','] + member
        }
    }
}

/// An object as JSON, without any white space.
pub open spec fn object_text(members: Seq<(Seq<char>, ScalarView)>) -> Seq<char> {
    seq!['{'] + members_text(members) + seq!['}']
}

/// A member whose key and value stand in JSON as they are.
pub open spec fn is_plain_member(member: (Seq<char>, ScalarView)) -> bool {
    is_plain(member.0) && (member.1 matches ScalarView::Text(text) ==> is_plain(text))
}

/// `serde_json::Map::new`: an object without members.
#[verifier::external_body]
fn new_object() -> (object: serde_json::Map<String, serde_json::Value>)
    ensures
        members(object) == Seq::<(Seq<char>, ScalarView)>::empty(),
{
    serde_json::Map::new()
}

/// `serde_json::Map::insert`: a key that comes after all the others becomes the last member. Only
/// such keys are admitted.
#[verifier::external_body]
fn insert(
    object: &mut serde_json::Map<String, serde_json::Value>,
    key: &str,
    value: Scalar,
)
    requires
        forall|i: int|
            0 <= i < members(*old(object)).len() ==> precedes(
                (#[trigger] members(*old(object))[i]).0,
                key@,
            ),
    ensures
        members(*final(object)) == members(*old(object)).push((key@, value@)),
{
    let value = match value {
        Scalar::Flag(b) => serde_json::Value::Bool(b),
        Scalar::Number(n) => serde_json::Value::from(n),
        Scalar::Text(text) => serde_json::Value::String(text),
    };
    object.insert(key.to_string(), value);
}

/// `serde_json::Value`'s `to_string` on an object: compact JSON with the members in the order of
/// the keys. Only members without characters to escape are admitted.
#[verifier::external_body]
fn to_json(object: serde_json::Map<String, serde_json::Value>) -> (text: String)
    requires
        forall|i: int|
            0 <= i < members(object).len() ==> is_plain_member(#[trigger] members(object)[i]),
    ensures
        text@ == object_text(members(object)),
{
    serde_json::Value::Object(object).to_string()
}

/// The time stamp of a message: the milliseconds since the epoch, in 64 bits.
pub open spec fn time_stamp(millis: u128) -> u64 {
    (millis % 0x1_0000_0000_0000_0000) as u64
}

/// The members of a message of the given type.
pub open spec fn message_members(
    key: Seq<char>,
    value: ScalarView,
    ts: u64,
    kind: Seq<char>,
) -> Seq<(Seq<char>, ScalarView)> {
    seq![
        (key, value),
        ("ts"@, ScalarView::Number(ts)),
        ("type"@, ScalarView::Text(kind)),
    ]
}

/// Makes the message with the given member, time and type.
fn message(key: &str, value: Scalar, millis: u128, kind: &str) -> (text: String)
    requires
        precedes(key@, "ts"@),
        precedes(key@, "type"@),
        is_plain_member((key@, value@)),
        is_plain(kind@),
    ensures
        text@ == object_text(message_members(key@, value@, time_stamp(millis), kind@)),
{
    assert(millis as u64 == (millis % 0x1_0000_0000_0000_0000) as u64) by (bit_vector);
    proof {
        reveal_strlit("ts");
        reveal_strlit("type");
        assert("ts"@.take(1) =~= "type"@.take(1));
        assert(precedes_at("ts"@, "type"@, 1));
    }
    let mut object = new_object();
    insert(&mut object, key, value);
    insert(&mut object, "ts", Scalar::Number(millis as u64));
    insert(&mut object, "type", Scalar::Text(kind.to_owned()));
    proof {
        assert(members(object) =~= message_members(key@, value@, time_stamp(millis), kind@));
    }
    to_json(object)
}

/// The message for a change of the buzzer, at a time in milliseconds since the epoch.
pub fn buzzer_message(millis: u128, state: BuzzerState) -> (text: String)
    ensures
        text@ == object_text(
            message_members(
                "pressed"@,
                ScalarView::Flag(state == BuzzerState::Pressed),
                time_stamp(millis),
                "buzzer"@,
            ),
        ),
        text@ == "{\"pressed\":"@ + (match state {
            BuzzerState::Pressed => "true"@,
            BuzzerState::Released => "false"@,
        }) + ",\"ts\":"@ + decimal((millis % 0x1_0000_0000_0000_0000) as nat)
            + ",\"type\":\"buzzer\"}"@,
{
    proof {
        reveal_strlit("ts");
        reveal_strlit("type");
        reveal_strlit("pressed");
        reveal_strlit("buzzer");
        assert("pressed"@.take(0) =~= "ts"@.take(0));
        assert("pressed"@.take(0) =~= "type"@.take(0));
        assert(precedes_at("pressed"@, "ts"@, 0));
        assert(precedes_at("pressed"@, "type"@, 0));
    }
    let pressed = match state {
        BuzzerState::Pressed => true,
        BuzzerState::Released => false,
    };
    proof {
        message_is("pressed"@, ScalarView::Flag(pressed), time_stamp(millis), "buzzer"@);
        reveal_strlit("{\"pressed\":");
        reveal_strlit(",\"ts\":");
        reveal_strlit(",\"type\":\"buzzer\"}");
        assert("{\"pressed\":"@ =~= seq!['{'] + quoted("pressed"@) + seq![':']);
        assert(",\"ts\":"@ =~= seq![','] + quoted("ts"@) + seq![':']);
        assert(",\"type\":\"buzzer\"}"@ =~= seq![','] + quoted("type"@) + seq![':'] + quoted(
            "buzzer"@,
        ) + seq!['}']);
        message_in_parts(
            "pressed"@,
            scalar_text(ScalarView::Flag(pressed)),
            decimal(time_stamp(millis) as nat),
            "buzzer"@,
        );
    }
    message("pressed", Scalar::Flag(pressed), millis, "buzzer")
}

/// The message for a distance, at a time in milliseconds since the epoch.
pub fn sensor_message(millis: u128, data: SensorData) -> (text: String)
    ensures
        text@ == object_text(
            message_members(
                "distance"@,
                ScalarView::Number(data.distance as u64),
                time_stamp(millis),
                "sensor"@,
            ),
        ),
        text@ == "{\"distance\":"@ + decimal(data.distance as nat) + ",\"ts\":"@ + decimal(
            (millis % 0x1_0000_0000_0000_0000) as nat,
        ) + ",\"type\":\"sensor\"}"@,
{
    proof {
        reveal_strlit("ts");
        reveal_strlit("type");
        reveal_strlit("distance");
        reveal_strlit("sensor");
        assert("distance"@.take(0) =~= "ts"@.take(0));
        assert("distance"@.take(0) =~= "type"@.take(0));
        assert(precedes_at("distance"@, "ts"@, 0));
        assert(precedes_at("distance"@, "type"@, 0));
    }
    proof {
        message_is(
            "distance"@,
            ScalarView::Number(data.distance as u64),
            time_stamp(millis),
            "sensor"@,
        );
        reveal_strlit("{\"distance\":");
        reveal_strlit(",\"ts\":");
        reveal_strlit(",\"type\":\"sensor\"}");
        assert("{\"distance\":"@ =~= seq!['{'] + quoted("distance"@) + seq![':']);
        assert(",\"ts\":"@ =~= seq![','] + quoted("ts"@) + seq![':']);
        assert(",\"type\":\"sensor\"}"@ =~= seq![','] + quoted("type"@) + seq![':'] + quoted(
            "sensor"@,
        ) + seq!['}']);
        message_in_parts(
            "distance"@,
            decimal(data.distance as nat),
            decimal(time_stamp(millis) as nat),
            "sensor"@,
        );
    }
    message("distance", Scalar::Number(data.distance as u64), millis, "sensor")
}

/// A message, written out.
pub proof fn message_is(key: Seq<char>, value: ScalarView, ts: u64, kind: Seq<char>)
    ensures
        object_text(message_members(key, value, ts, kind)) == seq!['{'] + quoted(key) + seq![':']
            + scalar_text(value) + seq![','] + quoted("ts"@) + seq![':'] + decimal(ts as nat)
            + seq![','] + quoted("type"@) + seq![':'] + quoted(kind) + seq!['}'],
{
    let all = message_members(key, value, ts, kind);
    let two = all.drop_last();
    let one = two.drop_last();
    assert(one.last() == (key, value));
    assert(two.last() == ("ts"@, ScalarView::Number(ts)));
    assert(all.last() == ("type"@, ScalarView::Text(kind)));
    reveal_with_fuel(members_text, 4);
    assert(object_text(all) =~= seq!['{'] + quoted(key) + seq![':'] + scalar_text(value)
        + seq![','] + quoted("ts"@) + seq![':'] + decimal(ts as nat) + seq![',']
        + quoted("type"@) + seq![':'] + quoted(kind) + seq!['}']);
}

/// A message is its head, its value, the key of its time, its time and its tail.
proof fn message_in_parts(key: Seq<char>, value: Seq<char>, time: Seq<char>, kind: Seq<char>)
    ensures
        seq!['{'] + quoted(key) + seq![':'] + value + seq![','] + quoted("ts"@) + seq![':'] + time
            + seq![','] + quoted("type"@) + seq![':'] + quoted(kind) + seq!['}'] == (seq!['{']
            + quoted(key) + seq![':']) + value + (seq![','] + quoted("ts"@) + seq![':']) + time + (
        seq![','] + quoted("type"@) + seq![':'] + quoted(kind) + seq!['}']),
{
    assert(seq!['{'] + quoted(key) + seq![':'] + value + seq![','] + quoted("ts"@) + seq![':']
        + time + seq![','] + quoted("type"@) + seq![':'] + quoted(kind) + seq!['}'] =~= (seq!['{']
        + quoted(key) + seq![':']) + value + (seq![','] + quoted("ts"@) + seq![':']) + time + (
    seq![','] + quoted("type"@) + seq![':'] + quoted(kind) + seq!['}']));
}

/// The time stamp is the milliseconds themselves wherever they fit in 64 bits. Past that it starts
/// over, and it never runs faster or slower: one more millisecond is one more, modulo 2 to the 64.
pub proof fn time_stamp_counts_milliseconds(millis: u128)
    ensures
        millis <= u64::MAX ==> time_stamp(millis) == millis,
        (millis - time_stamp(millis)) % 0x1_0000_0000_0000_0000 == 0,
        millis < u128::MAX ==> time_stamp((millis + 1) as u128) == if time_stamp(millis)
            == u64::MAX {
            0
        } else {
            time_stamp(millis) + 1
        },
{
}

} // verus!

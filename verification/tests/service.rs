use fnwalk::buzzer::BuzzerState;
use fnwalk::demo::{demo_options, DemoAction, DemoBuzzer, DemoOptions};
use fnwalk::discovery::{
    device_step, find_port, search_step, DeviceAction, DeviceEvent, PortKind, SearchAction,
    SerialPort,
};
use fnwalk::message::{buzzer_message, sensor_message};
use fnwalk::sensor::SensorData;
use fnwalk::stream::{relay, Relay};
use serde_json::Value;

fn port(name: &str, kind: PortKind) -> SerialPort {
    SerialPort { port_name: name.to_string(), kind }
}

fn ports() -> Vec<SerialPort> {
    vec![
        port("/dev/ttyS0", PortKind::Other),
        port("/dev/ttyUSB0", PortKind::Usb(0x0403, 0x6001)),
        port("/dev/ttyUSB1", PortKind::Usb(0x09ca, 0x5544)),
        port("/dev/ttyUSB2", PortKind::Usb(0x09ca, 0x5544)),
    ]
}

#[test]
fn first_port_of_the_device_is_found() {
    assert_eq!(find_port(&ports(), 0x0403, 0x6001), Some("/dev/ttyUSB0".to_string()));
    assert_eq!(find_port(&ports(), 0x09ca, 0x5544), Some("/dev/ttyUSB1".to_string()));
}

#[test]
fn vendor_and_product_must_both_match() {
    assert_eq!(find_port(&ports(), 0x0403, 0x5544), None);
    assert_eq!(find_port(&ports(), 0x09ca, 0x6001), None);
    assert_eq!(find_port(&Vec::new(), 0x09ca, 0x5544), None);
}

#[test]
fn search_goes_on_until_the_device_is_there() {
    assert_eq!(search_step(&Vec::new(), 0x0403, 0x6001), SearchAction::Retry(1000));
    assert_eq!(
        search_step(&ports(), 0x0403, 0x6001),
        SearchAction::Found("/dev/ttyUSB0".to_string())
    );
}

#[test]
fn device_loop_starts_again_however_the_stream_ends() {
    assert_eq!(device_step::<u8>(DeviceEvent::Started), DeviceAction::Search);
    assert_eq!(
        device_step::<u8>(DeviceEvent::Detected("p".to_string())),
        DeviceAction::Stream("p".to_string())
    );
    assert_eq!(device_step::<u8>(DeviceEvent::StreamOver(Ok(()))), DeviceAction::Rest(1000));
    assert_eq!(device_step(DeviceEvent::StreamOver(Err(1u8))), DeviceAction::Rest(1000));
    assert_eq!(device_step::<u8>(DeviceEvent::Rested), DeviceAction::Search);
}

#[test]
fn items_are_relayed_up_to_an_error() {
    let items = [Ok(1), Ok(2), Err("gone"), Ok(3)];
    let mut passed = Vec::new();
    let mut next = items.into_iter();
    let result = loop {
        match relay(next.next()) {
            Relay::Forward(value) => passed.push(value),
            Relay::Finish(result) => break result,
        }
    };
    assert_eq!(passed, vec![1, 2]);
    assert_eq!(result, Err("gone"));
    assert_eq!(relay::<u8, u8>(None), Relay::Finish(Ok(())));
}

fn options(args: &[&str]) -> DemoOptions {
    demo_options(&args.iter().map(|arg| arg.to_string()).collect())
}

#[test]
fn demo_arguments() {
    let both = DemoOptions { buzzer: true, sensor: true };
    assert_eq!(options(&["fnwalk"]), DemoOptions { buzzer: false, sensor: false });
    assert_eq!(options(&["fnwalk", "--demo"]), both);
    assert_eq!(options(&["fnwalk", "x", "--demo-buzzer"]), DemoOptions { buzzer: true, sensor: false });
    assert_eq!(options(&["fnwalk", "--demo-sensor"]), DemoOptions { buzzer: false, sensor: true });
    assert_eq!(options(&["fnwalk", "--demo-sensor", "--demo-buzzer"]), both);
    assert_eq!(options(&["fnwalk", "--demo-"]), DemoOptions { buzzer: false, sensor: false });
}

#[test]
fn demo_buzzer_waits_presses_and_releases_in_turn() {
    let mut demo = DemoBuzzer::new();
    assert_eq!(demo.step(), DemoAction::Sleep(5000));
    for _ in 0..3 {
        assert_eq!(demo.step(), DemoAction::Send(BuzzerState::Pressed));
        assert_eq!(demo.step(), DemoAction::Sleep(200));
        assert_eq!(demo.step(), DemoAction::Send(BuzzerState::Released));
        assert_eq!(demo.step(), DemoAction::Sleep(4800));
    }
}

#[test]
fn demo_buzzer_is_pressed_every_five_seconds() {
    let mut demo = DemoBuzzer::new();
    let mut now = 0;
    let mut sent = Vec::new();
    while sent.len() < 6 {
        match demo.step() {
            DemoAction::Sleep(millis) => now += millis,
            DemoAction::Send(state) => sent.push((now, state)),
        }
    }
    let (pressed, released) = (BuzzerState::Pressed, BuzzerState::Released);
    assert_eq!(
        sent,
        vec![
            (5000, pressed),
            (5200, released),
            (10_000, pressed),
            (10_200, released),
            (15_000, pressed),
            (15_200, released),
        ]
    );
}

#[test]
fn buzzer_message_text() {
    assert_eq!(
        buzzer_message(1_600_000_000_123, BuzzerState::Pressed),
        "{\"pressed\":true,\"ts\":1600000000123,\"type\":\"buzzer\"}"
    );
    assert_eq!(
        buzzer_message(0, BuzzerState::Released),
        "{\"pressed\":false,\"ts\":0,\"type\":\"buzzer\"}"
    );
}

#[test]
fn sensor_message_text() {
    assert_eq!(
        sensor_message(5, SensorData { distance: 300 }),
        "{\"distance\":300,\"ts\":5,\"type\":\"sensor\"}"
    );
}

#[test]
fn time_stamp_is_cut_to_64_bits() {
    assert_eq!(
        sensor_message((1u128 << 64) + 7, SensorData { distance: 1 }),
        "{\"distance\":1,\"ts\":7,\"type\":\"sensor\"}"
    );
}

#[test]
fn message_is_the_object_with_its_members_in_any_order() {
    let mut object = serde_json::Map::new();
    object.insert("type".to_string(), Value::from("sensor"));
    object.insert("ts".to_string(), Value::from(12u64));
    object.insert("distance".to_string(), Value::from(34u32));
    assert_eq!(sensor_message(12, SensorData { distance: 34 }), Value::Object(object).to_string());
}

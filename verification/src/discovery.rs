//! Finding a device among the serial ports, and keeping its stream alive.
use vstd::prelude::*;

verus! {

/// The speed of the serial ports, in bits per second.
pub const BAUD_RATE: u32 = 38400;

/// What a serial port is attached to.
#[derive(Clone, Copy, Debug, PartialEq, Eq, Structural)]
pub enum PortKind {
    /// A USB device, with its vendor and its product.
    Usb(u16, u16),
    /// Anything else.
    Other,
}

/// A serial port of this machine.
#[derive(Clone, Debug, PartialEq, Eq)]
pub struct SerialPort {
    pub port_name: String,
    pub kind: PortKind,
}

/// `i` is the first port that belongs to the USB device.
pub open spec fn first_port(ports: Seq<SerialPort>, vid: u16, pid: u16, i: int) -> bool {
    &&& 0 <= i < ports.len()
    &&& ports[i].kind == PortKind::Usb(vid, pid)
    &&& forall|k: int| 0 <= k < i ==> ports[k].kind != PortKind::Usb(vid, pid)
}

/// The name of the first port that belongs to the USB device, if there is one.
pub fn find_port(ports: &Vec<SerialPort>, vid: u16, pid: u16) -> (name: Option<String>)
    ensures
        match name {
            Some(name) => exists|i: int|
                #[trigger] first_port(ports@, vid, pid, i) && name@ == ports@[i].port_name@,
            None => forall|i: int|
                0 <= i < ports@.len() ==> (#[trigger] ports@[i]).kind != PortKind::Usb(vid, pid),
        },
        name matches Some(name) ==> exists|i: int|
            {
                &&& 0 <= i < ports@.len()
                &&& (#[trigger] ports@[i]).kind == PortKind::Usb(vid, pid)
                &&& name@ == ports@[i].port_name@
                &&& forall|k: int|
                    0 <= k < i ==> (#[trigger] ports@[k]).kind != PortKind::Usb(vid, pid)
            },
{
    let mut i: usize = 0;
    while i < ports.len()
        invariant
            i <= ports@.len(),
            forall|k: int|
                0 <= k < i ==> (#[trigger] ports@[k]).kind != PortKind::Usb(vid, pid),
        decreases ports@.len() - i,
    {
        if ports[i].kind == PortKind::Usb(vid, pid) {
            proof {
                assert(first_port(ports@, vid, pid, i as int));
            }
            return Some(ports[i].port_name.clone());
        }
        i = i + 1;
    }
    None
}

/// The pause before the ports are listed again.
pub const SEARCH_PAUSE_MS: u64 = 1000;

/// What the search for a device does with a list of the ports.
#[derive(Debug, PartialEq, Eq)]
pub enum SearchAction {
    /// The device is at this port.
    Found(String),
    /// Pause for so many milliseconds, then list the ports again.
    Retry(u64),
}

/// Decides how the search goes on: it is over at the first port of the device, and is tried again
/// after a pause where there is none.
pub fn search_step(ports: &Vec<SerialPort>, vid: u16, pid: u16) -> (action: SearchAction)
    ensures
        match action {
            SearchAction::Found(name) => exists|i: int|
                #[trigger] first_port(ports@, vid, pid, i) && name@ == ports@[i].port_name@,
            SearchAction::Retry(pause) => pause == SEARCH_PAUSE_MS && forall|i: int|
                0 <= i < ports@.len() ==> (#[trigger] ports@[i]).kind != PortKind::Usb(vid, pid),
        },
        match action {
            SearchAction::Found(name) => exists|i: int|
                {
                    &&& 0 <= i < ports@.len()
                    &&& (#[trigger] ports@[i]).kind == PortKind::Usb(vid, pid)
                    &&& name@ == ports@[i].port_name@
                    &&& forall|k: int|
                        0 <= k < i ==> (#[trigger] ports@[k]).kind != PortKind::Usb(vid, pid)
                },
            SearchAction::Retry(pause) => pause == 1000,
        },
{
    match find_port(ports, vid, pid) {
        Some(name) => SearchAction::Found(name),
        None => SearchAction::Retry(SEARCH_PAUSE_MS),
    }
}

/// The pause between the end of a device's stream and the next search for it.
pub const RESTART_PAUSE_MS: u64 = 1000;

/// What has happened to a device.
#[derive(Debug, PartialEq, Eq)]
pub enum DeviceEvent<E> {
    /// Its loop was started.
    Started,
    /// It was found at this port.
    Detected(String),
    /// Its stream is over.
    StreamOver(Result<(), E>),
    /// The pause is over.
    Rested,
}

/// What the loop of a device does next.
#[derive(Debug, PartialEq, Eq)]
pub enum DeviceAction {
    /// Search for the device.
    Search,
    /// Run its stream at this port.
    Stream(String),
    /// Pause for so many milliseconds.
    Rest(u64),
}

/// What the loop of a device does after an event: it searches, runs the stream and pauses in turn,
/// however the stream ended.
pub open spec fn device_action<E>(event: DeviceEvent<E>) -> DeviceAction {
    match event {
        DeviceEvent::Started => DeviceAction::Search,
        DeviceEvent::Rested => DeviceAction::Search,
        DeviceEvent::Detected(port) => DeviceAction::Stream(port),
        DeviceEvent::StreamOver(_) => DeviceAction::Rest(RESTART_PAUSE_MS),
    }
}

/// Decides what the loop of a device does after an event.
pub fn device_step<E>(event: DeviceEvent<E>) -> (action: DeviceAction)
    ensures
        action == device_action(event),
        match event {
            DeviceEvent::Detected(port) => action == DeviceAction::Stream(port),
            DeviceEvent::StreamOver(_) => action == DeviceAction::Rest(1000),
            _ => action is Search,
        },
{
    match event {
        DeviceEvent::Started | DeviceEvent::Rested => DeviceAction::Search,
        DeviceEvent::Detected(port) => DeviceAction::Stream(port),
        DeviceEvent::StreamOver(_) => DeviceAction::Rest(RESTART_PAUSE_MS),
    }
}

/// The stream of a device is run at the port where the device was found, at every port and
/// nowhere else, and nothing but finding it starts the stream.
pub proof fn stream_runs_where_the_device_is<E>(event: DeviceEvent<E>, port: String)
    ensures
        device_action(event) == DeviceAction::Stream(port) <==> event == DeviceEvent::<
            E,
        >::Detected(port),
{
}

/// The search for a device begins when its loop starts and after every pause, and at no other
/// time.
pub proof fn search_begins_each_round<E>(event: DeviceEvent<E>)
    ensures
        device_action(event) is Search <==> event is Started || event is Rested,
{
}

/// A pause of one second follows the end of a stream, and nothing else.
pub proof fn pause_follows_the_stream<E>(event: DeviceEvent<E>, millis: u64)
    ensures
        device_action(event) == DeviceAction::Rest(millis) <==> event is StreamOver && millis == 1000,
{
}

/// A device that was lost, in whatever way, is searched for again after a pause.
pub proof fn lost_device_is_searched_for_again<E>(result: Result<(), E>)
    ensures
        device_action(DeviceEvent::StreamOver(result)) == DeviceAction::Rest(RESTART_PAUSE_MS),
        device_action::<E>(DeviceEvent::Rested) == DeviceAction::Search,
{
}

/// The port that a search ends with is the only one it can end with: no list has two first ports.
pub proof fn first_port_is_unique(ports: Seq<SerialPort>, vid: u16, pid: u16, i: int, k: int)
    requires
        first_port(ports, vid, pid, i),
        first_port(ports, vid, pid, k),
    ensures
        i == k,
{
}

/// The first port of a device is a port of the device that no other port of it stands before.
pub proof fn first_port_stands_before_the_others(
    ports: Seq<SerialPort>,
    vid: u16,
    pid: u16,
    i: int,
)
    requires
        0 <= i < ports.len(),
    ensures
        first_port(ports, vid, pid, i) <==> forall|k: int|
            0 <= k <= i ==> ((#[trigger] ports[k]).kind == PortKind::Usb(vid, pid) <==> k == i),
{
    if first_port(ports, vid, pid, i) {
        assert(ports[i].kind == PortKind::Usb(vid, pid));
    }
    if forall|k: int|
        0 <= k <= i ==> ((#[trigger] ports[k]).kind == PortKind::Usb(vid, pid) <==> k == i) {
        assert(ports[i].kind == PortKind::Usb(vid, pid));
    }
}

} // verus!

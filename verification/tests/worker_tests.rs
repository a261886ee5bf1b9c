use serialport_sessions::channel::SignalPoll;
use serialport_sessions::session::SerialportState;
use serialport_sessions::worker::{
    read_event_name, read_event_payload, worker_poll, worker_step, WorkerState,
};

#[test]
fn each_poll_outcome_maps_to_its_state() {
    assert_eq!(worker_step(SignalPoll::Signal), WorkerState::Cancelled);
    assert_eq!(worker_step(SignalPoll::Disconnected), WorkerState::Disconnected);
    assert_eq!(worker_step(SignalPoll::Empty), WorkerState::Running);
}

#[test]
fn polling_a_live_channel_observes_the_signal() {
    let mut mgr: SerialportState<i32> = SerialportState::new();
    let path = String::from("COM-W");
    assert!(mgr.open(path.clone(), 1).is_ok());
    let rx = mgr.read(&path).unwrap().unwrap();
    // nothing pending yet: the worker keeps running
    assert_eq!(worker_poll(&rx), (SignalPoll::Empty, WorkerState::Running));
    // cancellation delivers exactly one signal
    assert!(mgr.cancel_read(&path).is_ok());
    assert_eq!(worker_poll(&rx), (SignalPoll::Signal, WorkerState::Cancelled));
    // the sender was cleared along with the cancellation
    assert_eq!(
        worker_poll(&rx),
        (SignalPoll::Disconnected, WorkerState::Disconnected)
    );
}

#[test]
fn payload_holds_exactly_the_read_bytes() {
    let buf: Vec<u8> = vec![10, 20, 30, 40, 50];
    let event = read_event_payload(&buf, 3);
    assert_eq!(event.data, vec![10, 20, 30]);
    assert_eq!(event.size, 3);
    let whole = read_event_payload(&buf, 5);
    assert_eq!(whole.data, buf);
    assert_eq!(whole.size, 5);
    let empty = read_event_payload(&buf, 0);
    assert!(empty.data.is_empty());
    assert_eq!(empty.size, 0);
}

#[test]
fn event_name_is_the_prefixed_path() {
    let name = read_event_name(&String::from("COM-TEST"));
    assert_eq!(name, "plugin-serialport-read-COM-TEST");
    let root = read_event_name(&String::from("/dev/ttyUSB0"));
    assert_eq!(root, "plugin-serialport-read-/dev/ttyUSB0");
}

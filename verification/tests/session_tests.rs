use serialport_sessions::errors::SerialError;
use serialport_sessions::session::SerialportState;

#[test]
fn open_twice_yields_already_open() {
    let mut mgr: SerialportState<i32> = SerialportState::new();
    let path = String::from("COM-A");
    assert!(mgr.open(path.clone(), 1).is_ok());
    let second = mgr.open(path.clone(), 2);
    assert!(matches!(second, Err(SerialError::AlreadyOpen(p)) if p == path));
    assert!(mgr.is_open(&path));
}

#[test]
fn close_twice_yields_not_open() {
    let mut mgr: SerialportState<i32> = SerialportState::new();
    let path = String::from("COM-B");
    assert!(mgr.open(path.clone(), 1).is_ok());
    assert!(mgr.close(&path).is_ok());
    let second = mgr.close(&path);
    assert!(matches!(second, Err(SerialError::NotOpen(p)) if p == path));
    assert!(!mgr.is_open(&path));
}

#[test]
fn read_twice_keeps_first_loop() {
    let mut mgr: SerialportState<i32> = SerialportState::new();
    let path = String::from("COM-C");
    assert!(mgr.open(path.clone(), 1).is_ok());
    let first = mgr.read(&path).unwrap();
    assert!(first.is_some());
    assert!(mgr.is_reading(&path));
    let second = mgr.read(&path).unwrap();
    assert!(second.is_none());
    assert!(mgr.is_reading(&path));
    // the first loop's channel is still the live one: cancelling
    // delivers the signal to the receiver handed out first
    assert!(mgr.cancel_read(&path).is_ok());
    let rx = first.unwrap();
    assert_eq!(rx.try_recv(), Ok(1));
}

#[test]
fn cancel_read_without_loop_is_a_no_op() {
    let mut mgr: SerialportState<i32> = SerialportState::new();
    let path = String::from("COM-D");
    assert!(mgr.open(path.clone(), 1).is_ok());
    assert!(mgr.cancel_read(&path).is_ok());
    assert!(mgr.is_open(&path));
    assert!(!mgr.is_reading(&path));
}

#[test]
fn cancel_read_on_unknown_path_is_not_found() {
    let mut mgr: SerialportState<i32> = SerialportState::new();
    let path = String::from("COM-E");
    let r = mgr.cancel_read(&path);
    assert!(matches!(r, Err(SerialError::NotFound)));
}

#[test]
fn read_on_unknown_path_is_not_found() {
    let mut mgr: SerialportState<i32> = SerialportState::new();
    let path = String::from("COM-F");
    let r = mgr.read(&path);
    assert!(matches!(r, Err(SerialError::NotFound)));
}

#[test]
fn force_close_signals_exactly_once_and_removes_the_entry() {
    let mut mgr: SerialportState<i32> = SerialportState::new();
    let path = String::from("COM-G");
    assert!(mgr.open(path.clone(), 1).is_ok());
    let rx = mgr.read(&path).unwrap().unwrap();
    assert!(mgr.force_close(&path).is_ok());
    assert!(!mgr.is_open(&path));
    // exactly one signal was delivered; afterwards the sender is gone
    assert_eq!(rx.try_recv(), Ok(1));
    assert!(rx.try_recv().is_err());
}

#[test]
fn force_close_on_unknown_path_succeeds() {
    let mut mgr: SerialportState<i32> = SerialportState::new();
    let path = String::from("COM-H");
    assert!(mgr.force_close(&path).is_ok());
}

#[test]
fn close_all_signals_active_loops_and_empties_the_registry() {
    let mut mgr: SerialportState<i32> = SerialportState::new();
    let quiet = String::from("COM-I");
    let busy = String::from("COM-J");
    assert!(mgr.open(quiet.clone(), 1).is_ok());
    assert!(mgr.open(busy.clone(), 2).is_ok());
    let rx = mgr.read(&busy).unwrap().unwrap();
    assert!(mgr.close_all().is_ok());
    assert!(!mgr.is_open(&quiet));
    assert!(!mgr.is_open(&busy));
    assert_eq!(rx.try_recv(), Ok(1));
}

#[test]
fn device_borrows_the_handle_of_an_open_port() {
    let mut mgr: SerialportState<i32> = SerialportState::new();
    let path = String::from("COM-K");
    assert!(mgr.open(path.clone(), 42).is_ok());
    assert_eq!(mgr.device(&path), Some(&42));
    let other = String::from("COM-L");
    assert_eq!(mgr.device(&other), None);
}

#[test]
fn full_session_scenario() {
    let mut mgr: SerialportState<i32> = SerialportState::new();
    let path = String::from("COM-TEST");
    assert!(mgr.open(path.clone(), 9600).is_ok());
    // the synchronous write happens on the borrowed handle; the text
    // "AT\r\n" is four bytes
    assert!(mgr.device(&path).is_some());
    assert_eq!("AT\r\n".as_bytes().len(), 4);
    let started = mgr.read(&path).unwrap();
    assert!(started.is_some());
    assert!(mgr.cancel_read(&path).is_ok());
    assert!(!mgr.is_reading(&path));
    assert!(mgr.close(&path).is_ok());
    let again = mgr.close(&path);
    assert!(matches!(again, Err(SerialError::NotOpen(p)) if p == path));
}

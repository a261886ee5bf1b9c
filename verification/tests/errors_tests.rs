use serialport_sessions::errors::SerialError;

#[test]
fn not_found_message() {
    let e = SerialError::NotFound;
    assert_eq!(e.message(), "Serial port not found");
}

#[test]
fn not_open_message() {
    let e = SerialError::NotOpen(String::from("COM1"));
    assert_eq!(e.message(), "Serial port COM1 is not opened!");
}

#[test]
fn already_open_message() {
    let e = SerialError::AlreadyOpen(String::from("COM1"));
    assert_eq!(e.message(), "Serial port COM1 is already open!");
}

#[test]
fn device_open_message() {
    let e = SerialError::DeviceOpen(String::from("COM1"), String::from("no such device"));
    assert_eq!(e.message(), "Error opening COM1: no such device");
}

#[test]
fn clone_fail_message() {
    let e = SerialError::CloneFail(String::from("COM1"), String::from("cannot duplicate"));
    assert_eq!(e.message(), "Serial port COM1 read error: cannot duplicate");
}

#[test]
fn write_fail_message() {
    let e = SerialError::WriteFail(String::from("COM1"), String::from("device gone"));
    assert_eq!(e.message(), "Error writing to serial port COM1: device gone");
}

#[test]
fn lock_message() {
    let e = SerialError::Lock(String::from("poisoned"));
    assert_eq!(e.message(), "Failed to acquire lock: poisoned");
}

#[test]
fn signal_message_is_passed_through() {
    let e = SerialError::Signal(String::from("Error cancelling read: sending on a closed channel"));
    assert_eq!(
        e.message(),
        "Error cancelling read: sending on a closed channel"
    );
}

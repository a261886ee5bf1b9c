//! The error taxonomy of the command surface.  Every failing operation
//! reports one of these variants; `message` renders the uniform
//! human-readable description that callers see at the boundary.

use vstd::prelude::*;
use vstd::string::StringExecFns;

verus! {

/// Why a command surface operation failed.
#[derive(Debug)]
pub enum SerialError {
    /// An operation referenced a path with no open session.
    NotFound,
    /// `close` referenced a path with no open session; carries the path.
    NotOpen(String),
    /// `open` was attempted on an already-open path; carries the path.
    AlreadyOpen(String),
    /// The underlying device open failed; carries the path and the
    /// driver's description.
    DeviceOpen(String, String),
    /// Duplicating the device handle for a read loop failed; carries
    /// the path and the driver's description.
    CloneFail(String, String),
    /// A synchronous write failed; carries the path and the driver's
    /// description.
    WriteFail(String, String),
    /// The registry lock was unusable; carries a description.
    Lock(String),
    /// Sending on a cancellation channel failed; carries the already
    /// rendered description of the failure.
    Signal(String),
}

impl SerialError {
    /// Renders the uniform descriptive message of this error.
    pub fn message(&self) -> (r: String)
        ensures
            self is NotFound ==> r@ == "Serial port not found"@,
            self matches SerialError::NotOpen(p) ==> r@ == "Serial port "@ + p@
                + " is not opened!"@,
            self matches SerialError::AlreadyOpen(p) ==> r@ == "Serial port "@ + p@
                + " is already open!"@,
            self matches SerialError::DeviceOpen(p, d) ==> r@ == "Error opening "@ + p@ + ": "@
                + d@,
            self matches SerialError::CloneFail(p, d) ==> r@ == "Serial port "@ + p@
                + " read error: "@ + d@,
            self matches SerialError::WriteFail(p, d) ==> r@ == "Error writing to serial port "@
                + p@ + ": "@ + d@,
            self matches SerialError::Lock(d) ==> r@ == "Failed to acquire lock: "@ + d@,
            self matches SerialError::Signal(m) ==> r@ == m@,
    {
        match self {
            SerialError::NotFound => String::from_str("Serial port not found"),
            SerialError::NotOpen(p) => {
                let mut s = String::from_str("Serial port ");
                s.append(p.as_str());
                s.append(" is not opened!");
                s
            },
            SerialError::AlreadyOpen(p) => {
                let mut s = String::from_str("Serial port ");
                s.append(p.as_str());
                s.append(" is already open!");
                s
            },
            SerialError::DeviceOpen(p, d) => {
                let mut s = String::from_str("Error opening ");
                s.append(p.as_str());
                s.append(": ");
                s.append(d.as_str());
                s
            },
            SerialError::CloneFail(p, d) => {
                let mut s = String::from_str("Serial port ");
                s.append(p.as_str());
                s.append(" read error: ");
                s.append(d.as_str());
                s
            },
            SerialError::WriteFail(p, d) => {
                let mut s = String::from_str("Error writing to serial port ");
                s.append(p.as_str());
                s.append(": ");
                s.append(d.as_str());
                s
            },
            SerialError::Lock(d) => {
                let mut s = String::from_str("Failed to acquire lock: ");
                s.append(d.as_str());
                s
            },
            SerialError::Signal(m) => m.clone(),
        }
    }
}

} // verus!

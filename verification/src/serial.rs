//! Serial-port errors and the control block of the running ASCII stream.
use vstd::prelude::*;
use vstd::string::StringExecFns;
use std::sync::Arc;
use std::sync::atomic::AtomicBool;

verus! {

/// What can go wrong with a serial port.
#[derive(Debug)]
pub enum SerialError {
    /// The port could not be opened.
    OpenError(String),
    /// Reading or writing failed.
    IoError(String),
}

/// The text of a serial error, as it is shown to the user.
pub open spec fn serial_error_text(e: SerialError) -> Seq<char> {
    match e {
        SerialError::OpenError(s) => "Failed to open port: "@ + s@,
        SerialError::IoError(s) => "IO error: "@ + s@,
    }
}

impl SerialError {
    /// The error's text (`serial_error_text`).
    pub fn message(&self) -> (r: String)
        ensures
            r@ == serial_error_text(*self),
    {
        match self {
            SerialError::OpenError(s) => {
                let mut out = String::from_str("Failed to open port: ");
                out.append(s.as_str());
                out
            },
            SerialError::IoError(s) => {
                let mut out = String::from_str("IO error: ");
                out.append(s.as_str());
                out
            },
        }
    }
}

/// The names of the serial ports found by a scan; an empty list when the
/// scan failed (`None`).
pub fn get_ports(scanned: Option<Vec<String>>) -> (r: Vec<String>)
    ensures
        r@ == match scanned {
            Some(names) => names@,
            None => Seq::<String>::empty(),
        },
{
    match scanned {
        Some(names) => names,
        None => Vec::new(),
    }
}

/// The outcome of connecting to a port, given the outcome of opening it:
/// success, or the text of the error that opening met.
pub fn connect_port(opened: Result<(), SerialError>) -> (r: Result<(), String>)
    ensures
        opened is Ok ==> r is Ok,
        opened matches Err(e) ==> (r matches Err(m) && m@ == serial_error_text(e)),
{
    match opened {
        Ok(()) => Ok(()),
        Err(e) => Err(e.message()),
    }
}

/// The message that confirms that port `port_name` was opened.
pub fn port_opened_text(port_name: &str) -> (r: String)
    ensures
        r@ == "Порт "@ + port_name@ + " открыт"@,
{
    let mut out = String::from_str("Порт ");
    out.append(port_name);
    out.append(" открыт");
    out
}

/// The stop flag of the ASCII stream that is running, if any.
pub struct SerialControl {
    pub stop: Option<Arc<AtomicBool>>,
}

impl Default for SerialControl {
    /// No stream is running.
    fn default() -> (r: Self)
        ensures
            r.stop is None,
    {
        SerialControl { stop: None }
    }
}

impl SerialControl {
    /// Before a new stream starts: keeps `stop` as the new stream's flag and
    /// hands back the flag of the stream that was running (if any), which
    /// the caller raises to stop that stream.
    pub fn replace_stop(&mut self, stop: Arc<AtomicBool>) -> (previous: Option<Arc<AtomicBool>>)
        ensures
            previous == old(self).stop,
            final(self).stop == Some(stop),
    {
        let previous = self.stop.take();
        self.stop = Some(stop);
        previous
    }

    /// Forgets the running stream's flag (if any) and hands it back, for the
    /// caller to raise.
    pub fn stop_current(&mut self) -> (previous: Option<Arc<AtomicBool>>)
        ensures
            previous == old(self).stop,
            final(self).stop is None,
    {
        self.stop.take()
    }
}

} // verus!

//! Plain data form of the tool's command-line surface.  Parsing the actual
//! command line is a front-end concern; the library only defines what a
//! parsed invocation holds.

use vstd::prelude::*;
use crate::device_info::FlashlightMode;

verus! {

/// The operating mode selected on the command line.
#[derive(Debug, PartialEq, Eq, Clone)]
pub enum Command {
    /// Print one complete device snapshot.
    Status,
    /// Scan for the device and connect to it.
    Connect,
    /// Set the flashlight mode, or report the current one when no mode is
    /// given.
    Flashlight { mode: Option<FlashlightMode> },
    /// Serve decoded updates as externally-named metrics on a port.
    Exporter { port: u16 },
}

/// A parsed invocation: the selected command and the name filter used to
/// pick the wireless device.
#[derive(Debug, PartialEq, Eq, Clone)]
pub struct Args {
    pub cmd: Command,
    pub device_name: String,
}

} // verus!

//! What the program can be told on its command line.

use vstd::prelude::*;
use vstd::string::StringExecFns;

use crate::text::{decimal, push_decimal};
use crate::text_laws::{numeral_value, numerals_are_read_back};

verus! {

/// The options of the program.
#[derive(Debug)]
pub struct Options {
    /// Text that the name or the model of the device holds.
    pub device: Option<String>,
    /// Port to listen on.
    pub force_port: Option<u16>,
    /// Whether titles and covers are sent to the device.
    pub metadata: Option<bool>,
}

impl Options {
    /// The port to listen on; zero, without one, leaves the choice to the system.
    pub open spec fn port_or_any(self) -> u16 {
        match self.force_port {
            Some(port) => port,
            None => 0,
        }
    }

    /// Whether titles and covers are sent: yes, unless told otherwise.
    pub open spec fn wants_metadata(self) -> bool {
        match self.metadata {
            Some(wanted) => wanted,
            None => true,
        }
    }

    /// The address to listen on: the port, on every interface.
    pub fn bind_address(&self) -> (r: String)
        ensures
            r@ == "0.0.0.0:"@ + decimal(self.port_or_any() as nat),
    {
        let port: u16 = match self.force_port {
            Some(port) => port,
            None => 0,
        };
        let mut r = "0.0.0.0:".to_owned();
        push_decimal(&mut r, port as u64);
        r
    }

    /// Whether titles and covers are sent.
    pub fn sends_metadata(&self) -> (r: bool)
        ensures
            r == self.wants_metadata(),
    {
        match self.metadata {
            Some(wanted) => wanted,
            None => true,
        }
    }
}

/// An option that is given counts as it is; without them, the system picks the port and titles
/// are sent.
pub proof fn given_options_count(options: Options)
    ensures
        options.force_port is Some ==> options.port_or_any() == options.force_port->0,
        options.force_port is None ==> options.port_or_any() == 0,
        options.metadata is Some ==> options.wants_metadata() == options.metadata->0,
        options.metadata is None ==> options.wants_metadata(),
        numeral_value(decimal(options.port_or_any() as nat)) == options.port_or_any(),
{
    numerals_are_read_back(options.port_or_any() as nat);
}

} // verus!

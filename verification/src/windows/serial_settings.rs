//! The serial settings panel: port and baud rate choice, and the connect
//! and disconnect requests it hands to the tool.

use vstd::prelude::*;
use vstd::string::*;
use crate::text::{parse_u32, parse_u32_seq};

verus! {

/// The state of the serial connection as the panel shows it.
#[derive(Debug, Clone, Copy, PartialEq, Eq, Structural)]
pub enum SerialStatus {
    Disconnected,
    Connecting,
    Connected,
    Error,
}

impl Default for SerialStatus {
    fn default() -> (r: Self)
        ensures
            r == SerialStatus::Disconnected,
    {
        SerialStatus::Disconnected
    }
}

/// The baud rate chosen until the user types another.
pub const DEFAULT_BAUD: u32 = 115200;

/// The serial settings panel's state.
pub struct SerialSettingsWindow {
    /// The names of the serial ports found on the machine.
    pub port_candidates: Vec<String>,
    /// The chosen port's name.
    pub selected_port: Option<String>,
    /// The chosen baud rate.
    pub baud: u32,
    pub status: SerialStatus,
    /// The latest error to show.
    pub error_message: Option<String>,
    pub last_status: Option<SerialStatus>,
    /// The port and baud rate to connect to, set by the Connect button.
    pub pending_connect: Option<(String, u32)>,
    /// Set by the Disconnect button.
    pub pending_disconnect: bool,
}

impl SerialSettingsWindow {
    /// A panel listing `port_candidates`, with no port chosen, the default
    /// baud rate, disconnected and with nothing pending.
    pub fn new(port_candidates: Vec<String>) -> (r: Self)
        ensures
            r.port_candidates == port_candidates,
            r.selected_port is None,
            r.baud == DEFAULT_BAUD,
            r.status == SerialStatus::Disconnected,
            r.error_message is None,
            r.last_status is None,
            r.pending_connect is None,
            !r.pending_disconnect,
    {
        SerialSettingsWindow {
            port_candidates,
            selected_port: None,
            baud: DEFAULT_BAUD,
            status: SerialStatus::Disconnected,
            error_message: None,
            last_status: None,
            pending_connect: None,
            pending_disconnect: false,
        }
    }

    /// Replaces the list of ports with a fresh scan.
    pub fn refresh_ports(&mut self, port_candidates: Vec<String>)
        ensures
            *final(self) == (SerialSettingsWindow { port_candidates, ..*old(self) }),
    {
        self.port_candidates = port_candidates;
    }

    /// Takes the text of the baud field: a number that `u32` parsing
    /// accepts becomes the baud rate, anything else leaves it as it was.
    pub fn set_baud_text(&mut self, text: &str)
        ensures
            *final(self) == (SerialSettingsWindow {
                baud: match parse_u32_seq(text@) {
                    Some(v) => v,
                    None => old(self).baud,
                },
                ..*old(self)
            }),
    {
        if let Some(v) = parse_u32(text) {
            self.baud = v;
        }
    }

    /// Connecting is possible: disconnected, with a port chosen.
    pub open spec fn connect_allowed(self) -> bool {
        self.status == SerialStatus::Disconnected && self.selected_port is Some
    }

    /// Disconnecting is possible: connected.
    pub open spec fn disconnect_allowed(self) -> bool {
        self.status == SerialStatus::Connected
    }

    /// The Connect button is enabled: disconnected, with a port chosen.
    pub fn connect_enabled(&self) -> (r: bool)
        ensures
            r == self.connect_allowed(),
            r == (self.status == SerialStatus::Disconnected && self.selected_port is Some),
    {
        self.status == SerialStatus::Disconnected && self.selected_port.is_some()
    }

    /// The Disconnect button is enabled: connected.
    pub fn disconnect_enabled(&self) -> (r: bool)
        ensures
            r == self.disconnect_allowed(),
    {
        self.status == SerialStatus::Connected
    }

    /// A click on Connect: when the button is enabled, the panel shows
    /// "connecting" and asks to connect to the chosen port at the chosen
    /// baud rate. The result tells whether the click took effect.
    pub fn request_connect(&mut self) -> (done: bool)
        ensures
            done == old(self).connect_allowed(),
            done ==> {
                &&& final(self).pending_connect matches Some((p, b)) && p@ == old(
                    self,
                ).selected_port->0@ && b == old(self).baud
                &&& *final(self) == (SerialSettingsWindow {
                    status: SerialStatus::Connecting,
                    pending_connect: final(self).pending_connect,
                    ..*old(self)
                })
            },
            !done ==> *final(self) == *old(self),
    {
        if !self.connect_enabled() {
            return false;
        }
        self.status = SerialStatus::Connecting;
        match &self.selected_port {
            Some(port) => {
                self.pending_connect = Some((port.clone(), self.baud));
            },
            None => {},
        }
        true
    }

    /// A click on Disconnect: when the button is enabled, the panel shows
    /// "disconnected" and asks to disconnect. The result tells whether the
    /// click took effect.
    pub fn request_disconnect(&mut self) -> (done: bool)
        ensures
            done == old(self).disconnect_allowed(),
            done ==> *final(self) == (SerialSettingsWindow {
                status: SerialStatus::Disconnected,
                pending_disconnect: true,
                ..*old(self)
            }),
            !done ==> *final(self) == *old(self),
    {
        if !self.disconnect_enabled() {
            return false;
        }
        self.status = SerialStatus::Disconnected;
        self.pending_disconnect = true;
        true
    }

    /// Shows how an attempt to open `port` ended: connected with no error,
    /// or an error that names the port.
    pub fn on_connect_result(&mut self, port: &str, opened: bool)
        ensures
            opened ==> *final(self) == (SerialSettingsWindow {
                status: SerialStatus::Connected,
                error_message: None,
                ..*old(self)
            }),
            !opened ==> (final(self).error_message matches Some(m) && m@ == "Failed to open port: "@
                + port@),
            !opened ==> *final(self) == (SerialSettingsWindow {
                status: SerialStatus::Error,
                error_message: final(self).error_message,
                ..*old(self)
            }),
    {
        if opened {
            self.status = SerialStatus::Connected;
            self.error_message = None;
        } else {
            self.status = SerialStatus::Error;
            let mut m = String::from_str("Failed to open port: ");
            m.append(port);
            self.error_message = Some(m);
        }
    }
}

/// Connect is offered only while disconnected with a port chosen, so never
/// while connected, connecting or in error; Connect and Disconnect are never
/// offered together.
pub proof fn lemma_connect_only_when_disconnected(w: SerialSettingsWindow)
    ensures
        w.connect_allowed() ==> w.status == SerialStatus::Disconnected && w.selected_port is Some,
        w.status == SerialStatus::Disconnected && w.selected_port is Some ==> w.connect_allowed(),
        w.status != SerialStatus::Disconnected ==> !w.connect_allowed(),
        !(w.connect_allowed() && w.disconnect_allowed()),
{
}

} // verus!

//! The tool's handling of the serial link, frame by frame: which connect
//! and disconnect requests it carries out, and whether the link is up
//! afterwards. Opening the port and receiving lines happen outside.

use vstd::prelude::*;
use crate::windows::serial_settings::SerialSettingsWindow;

verus! {

/// A request to the serial link.
pub enum SerialAction {
    Connect { port: String, baud: u32 },
    Disconnect,
}

/// The actions that the settings panel's pending requests ask for: the
/// connect request, then the disconnect request.
pub open spec fn requested_actions(
    pending_connect: Option<(String, u32)>,
    pending_disconnect: bool,
) -> Seq<SerialAction> {
    let c = match pending_connect {
        Some((port, baud)) => seq![SerialAction::Connect { port, baud }],
        None => Seq::empty(),
    };
    if pending_disconnect {
        c.push(SerialAction::Disconnect)
    } else {
        c
    }
}

/// Collects this frame's serial actions from the settings panel's pending
/// requests, in order, and clears the requests it takes. A connect request
/// is taken only while the link is down (while it is up, the request stays
/// pending); a disconnect request is taken whether or not the link is up.
pub fn take_serial_actions(serial_enabled: bool, settings: &mut SerialSettingsWindow) -> (actions:
    Vec<SerialAction>)
    ensures
        actions@ == requested_actions(
            if serial_enabled {
                None
            } else {
                old(settings).pending_connect
            },
            old(settings).pending_disconnect,
        ),
        *final(settings) == (SerialSettingsWindow {
            pending_connect: if serial_enabled {
                old(settings).pending_connect
            } else {
                None
            },
            pending_disconnect: false,
            ..*old(settings)
        }),
        actions@.len() == (if !serial_enabled && old(settings).pending_connect is Some {
            1int
        } else {
            0int
        }) + (if old(settings).pending_disconnect {
            1int
        } else {
            0int
        }),
        !serial_enabled ==> (old(settings).pending_connect matches Some((p, b)) ==> (
        actions@[0] matches SerialAction::Connect { port, baud } && port == p && baud == b)),
        old(settings).pending_disconnect ==> actions@.last() is Disconnect,
{
    let mut actions: Vec<SerialAction> = Vec::new();
    if !serial_enabled {
        if let Some((port, baud)) = settings.pending_connect.take() {
            actions.push(SerialAction::Connect { port, baud });
        }
    }
    if settings.pending_disconnect {
        settings.pending_disconnect = false;
        actions.push(SerialAction::Disconnect);
    }
    assert(actions@ =~= requested_actions(
        if serial_enabled {
            None
        } else {
            old(settings).pending_connect
        },
        old(settings).pending_disconnect,
    ));
    actions
}

/// Whether the link is up after an action: a connect that opened the port
/// brings it up, a connect that failed leaves it as it was, a disconnect
/// takes it down.
pub fn serial_enabled_after(serial_enabled: bool, action: &SerialAction, opened: bool) -> (r: bool)
    ensures
        r == match action {
            SerialAction::Connect { .. } => serial_enabled || opened,
            SerialAction::Disconnect => false,
        },
{
    match action {
        SerialAction::Connect { .. } => serial_enabled || opened,
        SerialAction::Disconnect => false,
    }
}

/// Whether the link starts up: in demo mode the packets come from a
/// generator, not from a link, so only a real receiver counts.
pub fn initial_serial_enabled(dummy_mode: bool, has_receiver: bool) -> (r: bool)
    ensures
        r == (!dummy_mode && has_receiver),
{
    !dummy_mode && has_receiver
}

/// The requested actions hold a connect to the pending port and baud rate
/// exactly when one is pending, first, whether or not a disconnect is
/// pending; and a disconnect, last, exactly when one is pending.
pub proof fn lemma_requested_actions(pending_connect: Option<(String, u32)>, pending_disconnect: bool)
    ensures
        ({
            let a = requested_actions(pending_connect, pending_disconnect);
            &&& a.len() == (if pending_connect is Some {
                1int
            } else {
                0int
            }) + (if pending_disconnect {
                1int
            } else {
                0int
            })
            &&& pending_connect matches Some((p, b)) ==> (a[0] matches SerialAction::Connect {
                port,
                baud,
            } && port == p && baud == b)
            &&& pending_disconnect ==> a.last() is Disconnect
            &&& forall|i: int| 0 <= i < a.len() && #[trigger] a[i] is Disconnect ==> pending_disconnect
                && i == a.len() - 1
        }),
{
}

} // verus!

pub mod reader;
pub mod sender;

use vstd::prelude::*;

verus! {

/// The state of the serial link.
#[derive(Debug, Clone, Copy, PartialEq, Eq, Structural)]
pub enum SerialState {
    Connected,
    Disconnected,
    Reconnecting,
}

/// Failures reported to the serial manager.
#[derive(Debug, Clone, Copy, PartialEq, Eq, Structural)]
pub enum SerialManagerMsg {
    SerialPortReadFail,
    SerialPortWriteFail,
}

/// The two actors that use the port.
#[derive(Debug, Clone, Copy, PartialEq, Eq, Structural)]
pub enum PortUser {
    Reader,
    Sender,
}

/// The state after a tick, and whether the tick opens the port.
pub open spec fn tick_result(s: SerialState) -> (SerialState, bool) {
    if s == SerialState::Disconnected {
        (SerialState::Reconnecting, true)
    } else {
        (s, false)
    }
}

/// The state once an attempt to open the port has ended.
pub open spec fn connect_result(opened: bool) -> SerialState {
    if opened {
        SerialState::Connected
    } else {
        SerialState::Disconnected
    }
}

/// The users told to disconnect after a failure, in order: the one whose side failed comes
/// second.
pub open spec fn disconnect_order(msg: SerialManagerMsg) -> (PortUser, PortUser) {
    match msg {
        SerialManagerMsg::SerialPortReadFail => (PortUser::Sender, PortUser::Reader),
        SerialManagerMsg::SerialPortWriteFail => (PortUser::Reader, PortUser::Sender),
    }
}

impl SerialState {
    /// The link before the port is first opened.
    pub fn new() -> (r: Self)
        ensures
            r == SerialState::Disconnected,
    {
        SerialState::Disconnected
    }

    /// A tick of the manager: a disconnected link starts to reconnect, and the caller is to try
    /// to open the port; otherwise nothing happens.
    pub fn on_tick(&mut self) -> (r: bool)
        ensures
            (*final(self), r) == tick_result(*old(self)),
    {
        if *self == SerialState::Disconnected {
            *self = SerialState::Reconnecting;
            true
        } else {
            false
        }
    }

    /// The attempt to open the port has ended: when it opened, the link is connected and the
    /// caller hands the read half to the reader and then the write half to the sender.
    pub fn connect_finished(&mut self, opened: bool)
        ensures
            *final(self) == connect_result(opened),
    {
        if opened {
            *self = SerialState::Connected;
        } else {
            *self = SerialState::Disconnected;
        }
    }

    /// A failure was reported: the link is disconnected, and both users are told to disconnect,
    /// in the order returned.
    pub fn handle_msg(&mut self, msg: SerialManagerMsg) -> (r: (PortUser, PortUser))
        ensures
            *final(self) == SerialState::Disconnected,
            r == disconnect_order(msg),
    {
        *self = SerialState::Disconnected;
        match msg {
            SerialManagerMsg::SerialPortReadFail => (PortUser::Sender, PortUser::Reader),
            SerialManagerMsg::SerialPortWriteFail => (PortUser::Reader, PortUser::Sender),
        }
    }
}

/// Whether the link is settled: connected or disconnected, not in the middle of reconnecting.
pub open spec fn settled(s: SerialState) -> bool {
    s == SerialState::Connected || s == SerialState::Disconnected
}

/// A tick, with the attempt to open the port that it may start ending with `opened`: from a
/// settled state the link ends settled again, connected if it was connected or if it was
/// disconnected and the port opened.
pub proof fn lemma_tick_settles(s: SerialState, opened: bool)
    requires
        settled(s),
    ensures
        ({
            let (mid, attempt) = tick_result(s);
            let after = if attempt { connect_result(opened) } else { mid };
            &&& attempt == (s == SerialState::Disconnected)
            &&& settled(after)
            &&& (after == SerialState::Connected) == (s == SerialState::Connected || opened)
        }),
{
}

/// Whatever the state, a reported failure leaves the link disconnected, tells both users to
/// disconnect, and tells the one whose side failed last.
pub proof fn lemma_failure_disconnects_both(msg: SerialManagerMsg)
    ensures
        ({
            let (first, second) = disconnect_order(msg);
            &&& first != second
            &&& second == match msg {
                SerialManagerMsg::SerialPortReadFail => PortUser::Reader,
                SerialManagerMsg::SerialPortWriteFail => PortUser::Sender,
            }
        }),
{
}

} // verus!

use vstd::prelude::*;
use vstd::string::*;

verus! {

/// Commands for the board, and the messages that manage the port they are written to.
pub enum SenderMsg<W> {
    /// Sets the target of the heating control in °C, rendered with two decimals.
    TargetTemperature(String),
    /// Sets the LED brightness (0.00 is off, 1.00 is maximum), rendered with two decimals.
    LEDBrightness(String),
    /// Write to this port from now on.
    SetWriter(W),
    /// Shut the port down and stop writing.
    Disconnect,
}

/// The text of a message on the wire.
pub open spec fn line_text<W>(msg: SenderMsg<W>) -> Seq<char> {
    match msg {
        SenderMsg::TargetTemperature(v) => "target-temperature "@ + v@ + "\n"@,
        SenderMsg::LEDBrightness(v) => "led-brightness "@ + v@ + "\n"@,
        SenderMsg::SetWriter(_) => "Replace Writer"@,
        SenderMsg::Disconnect => "disconnect"@,
    }
}

impl<W> SenderMsg<W> {
    /// The line that carries the message to the board.
    pub fn to_line(&self) -> (r: String)
        ensures
            r@ == line_text(*self),
    {
        match self {
            SenderMsg::TargetTemperature(v) => {
                let mut s = String::new();
                s.append("target-temperature ");
                s.append(v.as_str());
                s.append("\n");
                assert(s@ =~= line_text(*self));
                s
            },
            SenderMsg::LEDBrightness(v) => {
                let mut s = String::new();
                s.append("led-brightness ");
                s.append(v.as_str());
                s.append("\n");
                assert(s@ =~= line_text(*self));
                s
            },
            SenderMsg::SetWriter(_) => {
                let mut s = String::new();
                s.append("Replace Writer");
                assert(s@ =~= line_text(*self));
                s
            },
            SenderMsg::Disconnect => {
                let mut s = String::new();
                s.append("disconnect");
                assert(s@ =~= line_text(*self));
                s
            },
        }
    }
}

/// Whether the sender has a port to write to.
pub enum SenderState<W> {
    Disconnected,
    Connected(W),
}

/// What the sender does with a message.
pub enum SenderAction<W> {
    /// Shut this port down; the sender has let go of it.
    Shutdown(W),
    /// Write this line to the current port and flush it; if that fails, tell the serial
    /// manager `SerialPortWriteFail`.
    Write(String),
    /// Nothing to do.
    Nothing,
}

impl<W> SenderState<W> {
    /// The sender before any port is handed to it.
    pub fn new() -> (r: Self)
        ensures
            r is Disconnected,
    {
        SenderState::Disconnected
    }

    /// Takes a message: `Disconnect` lets go of the port (to be shut down), `SetWriter` takes a
    /// new one, and a command is written to the port, if there is one.
    pub fn handle_msg(&mut self, msg: SenderMsg<W>) -> (r: SenderAction<W>)
        ensures
            match msg {
                SenderMsg::Disconnect => {
                    &&& *final(self) == SenderState::<W>::Disconnected
                    &&& match *old(self) {
                        SenderState::Connected(port) => r == SenderAction::Shutdown(port),
                        SenderState::Disconnected => r is Nothing,
                    }
                },
                SenderMsg::SetWriter(port) => {
                    &&& *final(self) == SenderState::Connected(port)
                    &&& r is Nothing
                },
                _ => {
                    &&& *final(self) == *old(self)
                    &&& match *old(self) {
                        SenderState::Connected(_) => r matches SenderAction::Write(line) && line@
                            == line_text(msg),
                        SenderState::Disconnected => r is Nothing,
                    }
                },
            },
    {
        match msg {
            SenderMsg::Disconnect => {
                let mut previous = SenderState::Disconnected;
                std::mem::swap(self, &mut previous);
                match previous {
                    SenderState::Connected(port) => SenderAction::Shutdown(port),
                    SenderState::Disconnected => SenderAction::Nothing,
                }
            },
            SenderMsg::SetWriter(port) => {
                *self = SenderState::Connected(port);
                SenderAction::Nothing
            },
            _ => {
                match self {
                    SenderState::Connected(_) => SenderAction::Write(msg.to_line()),
                    SenderState::Disconnected => SenderAction::Nothing,
                }
            },
        }
    }
}

} // verus!

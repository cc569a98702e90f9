use tripi_daemon::serial::{PortUser, SerialManagerMsg, SerialState};

#[test]
fn a_tick_reconnects_only_when_disconnected() {
    let mut s = SerialState::new();
    assert_eq!(s, SerialState::Disconnected);
    assert!(s.on_tick());
    assert_eq!(s, SerialState::Reconnecting);
    assert!(!s.on_tick());
    s.connect_finished(true);
    assert_eq!(s, SerialState::Connected);
    assert!(!s.on_tick());
    assert_eq!(s, SerialState::Connected);
}

#[test]
fn a_failed_open_leaves_the_link_disconnected() {
    let mut s = SerialState::new();
    assert!(s.on_tick());
    s.connect_finished(false);
    assert_eq!(s, SerialState::Disconnected);
}

#[test]
fn failures_disconnect_both_users() {
    let mut s = SerialState::Connected;
    assert_eq!(
        s.handle_msg(SerialManagerMsg::SerialPortReadFail),
        (PortUser::Sender, PortUser::Reader)
    );
    assert_eq!(s, SerialState::Disconnected);
    let mut s = SerialState::Connected;
    assert_eq!(
        s.handle_msg(SerialManagerMsg::SerialPortWriteFail),
        (PortUser::Reader, PortUser::Sender)
    );
    assert_eq!(s, SerialState::Disconnected);
}

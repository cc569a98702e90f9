use tripi_daemon::serial::sender::{SenderAction, SenderMsg, SenderState};

#[test]
fn commands_become_lines() {
    let m: SenderMsg<()> = SenderMsg::TargetTemperature(format!("{:.2}", 22.5f32));
    assert_eq!(m.to_line(), "target-temperature 22.50\n");
    let m: SenderMsg<()> = SenderMsg::LEDBrightness(format!("{:.2}", 0.4f32));
    assert_eq!(m.to_line(), "led-brightness 0.40\n");
    assert_eq!(SenderMsg::SetWriter(()).to_line(), "Replace Writer");
    assert_eq!(SenderMsg::<()>::Disconnect.to_line(), "disconnect");
}

#[test]
fn nothing_is_written_without_a_port() {
    let mut st: SenderState<u8> = SenderState::new();
    let a = st.handle_msg(SenderMsg::LEDBrightness("1.00".to_string()));
    assert!(matches!(a, SenderAction::Nothing));
    assert!(matches!(st, SenderState::Disconnected));
}

#[test]
fn a_port_is_written_and_released_on_disconnect() {
    let mut st: SenderState<u8> = SenderState::new();
    assert!(matches!(st.handle_msg(SenderMsg::SetWriter(3)), SenderAction::Nothing));
    match st.handle_msg(SenderMsg::TargetTemperature("21.00".to_string())) {
        SenderAction::Write(line) => assert_eq!(line, "target-temperature 21.00\n"),
        _ => panic!("expected a write"),
    }
    assert!(matches!(st, SenderState::Connected(3)));
    assert!(matches!(st.handle_msg(SenderMsg::Disconnect), SenderAction::Shutdown(3)));
    assert!(matches!(st, SenderState::Disconnected));
    assert!(matches!(st.handle_msg(SenderMsg::Disconnect), SenderAction::Nothing));
}

use tripi_daemon::config::parse_cfg_text;

fn pairs(text: &str) -> Vec<(String, String)> {
    parse_cfg_text(text)
}

#[test]
fn reads_key_value_lines() {
    let text = "# comment\nSERIAL_PORT = /dev/ttyUSB0\r\n\n  SERIAL_BAUD=115200  \nnoequals\nA=b=c\n";
    assert_eq!(
        pairs(text),
        vec![
            ("SERIAL_PORT".to_string(), "/dev/ttyUSB0".to_string()),
            ("SERIAL_BAUD".to_string(), "115200".to_string()),
            ("A".to_string(), "b=c".to_string()),
        ]
    );
}

#[test]
fn last_line_needs_no_newline() {
    assert_eq!(pairs("K=V"), vec![("K".to_string(), "V".to_string())]);
    assert_eq!(pairs(""), vec![]);
    assert_eq!(pairs("   # x=y"), vec![]);
    assert_eq!(pairs("=v"), vec![("".to_string(), "v".to_string())]);
}

#[test]
fn joined_texts_give_joined_settings() {
    let a = "A=1\n# c\nB = 2";
    let b = "C=3\n\nD";
    let mut want = pairs(a);
    want.extend(pairs(b));
    assert_eq!(pairs(&format!("{a}\n{b}")), want);
}

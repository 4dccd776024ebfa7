use oh_tray::text::{decimal, double_quotes};

#[test]
fn numbers_are_written_in_decimal() {
    assert_eq!(decimal(0), "0");
    assert_eq!(decimal(7), "7");
    assert_eq!(decimal(10), "10");
    assert_eq!(decimal(40960), "40960");
    assert_eq!(decimal(usize::MAX), format!("{}", usize::MAX));
}

#[test]
fn different_numbers_are_written_differently() {
    assert_ne!(decimal(1), decimal(11));
    assert_ne!(decimal(100), decimal(10));
}

#[test]
fn quotes_are_doubled() {
    assert_eq!(double_quotes(""), "");
    assert_eq!(double_quotes("notepad"), "notepad");
    assert_eq!(double_quotes("say \"hi\""), "say \"\"hi\"\"");
    assert_eq!(double_quotes("\"\""), "\"\"\"\"");
    assert_eq!(double_quotes("启动 \"é\""), "启动 \"\"é\"\"");
}

#[test]
fn doubled_quotes_can_be_read_back() {
    for text in ["", "\"", "a\"b", "\"\"\"", "plain", "x\"\"y\""] {
        assert_eq!(double_quotes(text).replace("\"\"", "\""), text);
        assert_eq!(double_quotes(text), text.replace("\"", "\"\""));
    }
}

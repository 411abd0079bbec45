use xelix_log::log::{Writer, _print, _println, LOG_LEVEL_INFO};
use xelix_log::panic_bridge::{BridgeState, PanicBridge};
use xelix_log::render::{render, render_line};

fn strings(items: &[&str]) -> Vec<String> {
    items.iter().map(|s| s.to_string()).collect()
}

#[test]
fn write_bytes_forwards_every_byte_unmodified() {
    let mut w = Writer::new();
    let bytes: Vec<u8> = vec![0, 1, 123, 125, 10, 200, 255];
    let rec = w.write_bytes(&bytes);
    assert_eq!(rec.level, 1);
    assert_eq!(rec.level, LOG_LEVEL_INFO);
    assert_eq!(rec.text, bytes);
}

#[test]
fn write_str_forwards_utf8_bytes() {
    let mut w = Writer::new();
    let rec = w.write_str("h\u{e9}llo {}");
    assert_eq!(rec.level, LOG_LEVEL_INFO);
    assert_eq!(rec.text, "h\u{e9}llo {}".as_bytes().to_vec());
}

#[test]
fn write_empty_text() {
    let mut w = Writer::new();
    let rec = w.write_bytes(&[]);
    assert_eq!(rec.level, LOG_LEVEL_INFO);
    assert!(rec.text.is_empty());
}

#[test]
fn print_single_value_is_verbatim() {
    let mut w = Writer::new();
    let value = "a {} b }{ \u{1F600}";
    let rec = _print(&mut w, "{}", &strings(&[value])).unwrap();
    assert_eq!(rec.level, LOG_LEVEL_INFO);
    assert_eq!(rec.text, value.as_bytes().to_vec());
}

#[test]
fn println_without_arguments_is_one_terminator() {
    let mut w = Writer::new();
    let rec = _println(&mut w, "", &Vec::new()).unwrap();
    assert_eq!(rec.level, LOG_LEVEL_INFO);
    assert_eq!(rec.text, b"\n".to_vec());
}

#[test]
fn println_single_value_then_terminator() {
    let mut w = Writer::new();
    let rec = _println(&mut w, "{}", &strings(&["x"])).unwrap();
    assert_eq!(rec.text, b"x\n".to_vec());
}

#[test]
fn render_values_in_order() {
    let out = render("a{}b{}c", &strings(&["1", "22"])).unwrap();
    assert_eq!(out, b"a1b22c".to_vec());
}

#[test]
fn render_escaped_braces() {
    assert_eq!(render("{{}}", &Vec::new()).unwrap(), b"{}".to_vec());
    assert_eq!(render("{{{}}}", &strings(&["v"])).unwrap(), b"{v}".to_vec());
}

#[test]
fn render_lone_braces_are_literal() {
    assert_eq!(render("{x} }", &Vec::new()).unwrap(), b"{x} }".to_vec());
    assert_eq!(render("end {", &Vec::new()).unwrap(), b"end {".to_vec());
}

#[test]
fn render_empty_template() {
    assert_eq!(render("", &Vec::new()).unwrap(), Vec::<u8>::new());
}

#[test]
fn render_too_few_values() {
    assert!(render("{} and {}", &strings(&["one"])).is_none());
    let mut w = Writer::new();
    assert!(_print(&mut w, "{}", &Vec::new()).is_none());
}

#[test]
fn render_too_many_values() {
    assert!(render("plain", &strings(&["extra"])).is_none());
    let mut w = Writer::new();
    assert!(_println(&mut w, "{}", &strings(&["a", "b"])).is_none());
}

#[test]
fn render_line_appends_one_terminator() {
    assert_eq!(render_line("n={}", &strings(&["7"])).unwrap(), b"n=7\n".to_vec());
    assert!(render_line("{}", &Vec::new()).is_none());
}

#[test]
fn rendering_is_deterministic() {
    let values = strings(&["left", "right"]);
    let a = render("<{}|{}>", &values).unwrap();
    let b = render("<{}|{}>", &values).unwrap();
    assert_eq!(a, b);
    assert_eq!(a, b"<left|right>".to_vec());
}

#[test]
fn panic_bridge_starts_armed() {
    let bridge = PanicBridge::new();
    assert!(bridge.is_armed());
    assert_eq!(bridge.state, BridgeState::Armed);
}

#[test]
fn fault_renders_location_and_cause_then_halts() {
    let mut bridge = PanicBridge::new();
    let mut w = Writer::new();
    let action = bridge.on_fault(
        &mut w,
        "module X, line 12".to_string(),
        "index out of bounds".to_string(),
    );
    assert!(!bridge.is_armed());
    assert_eq!(bridge.state, BridgeState::Diverged);
    assert_eq!(action.diagnostic.level, LOG_LEVEL_INFO);
    let text = String::from_utf8(action.diagnostic.text.clone()).unwrap();
    assert!(text.contains("module X, line 12"));
    assert!(text.contains("index out of bounds"));
    assert_eq!(text, "panicked at module X, line 12:\nindex out of bounds\n");
    assert_eq!(action.halt_message, b"Rust panic\n".to_vec());
}

#[test]
fn fault_halt_message_is_fixed() {
    let mut w = Writer::new();
    let mut first = PanicBridge::new();
    let a = first.on_fault(&mut w, "a.rs:1:1".to_string(), "first".to_string());
    let mut second = PanicBridge::new();
    let b = second.on_fault(&mut w, "b.rs:9:3".to_string(), "{} braces kept".to_string());
    assert_eq!(a.halt_message, b.halt_message);
    assert_eq!(
        b.diagnostic.text,
        b"panicked at b.rs:9:3:\n{} braces kept\n".to_vec()
    );
}

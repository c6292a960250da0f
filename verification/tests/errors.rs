use afbv4::error::{afb_error_info, AfbError};

#[test]
fn an_error_keeps_label_message_and_status() {
    let e = AfbError::new("my-uid", -3, "went wrong");
    assert_eq!(e.get_uid(), "my-uid");
    assert_eq!(e.get_info(), "went wrong");
    assert_eq!(e.get_status(), -3);
    let e = AfbError::new("u", 4, String::from("owned"));
    assert_eq!(e.get_info(), "owned");
    assert_eq!(e.get_status(), 4);
    let e = AfbError::msg_string("u", String::from("m"));
    assert_eq!((e.get_uid().as_str(), e.get_info().as_str(), e.get_status()), ("u", "m", 0));
}

#[test]
fn add_trace_keeps_the_error_and_records_the_place() {
    let e = AfbError::msg("uid", "info");
    assert_eq!(e.get_dbg().line, 0);
    assert_eq!(e.get_dbg().file, "");
    let t = e.add_trace("fn_name", "src/file.rs", 12, 5);
    assert_eq!(t.get_uid(), "uid");
    assert_eq!(t.get_info(), "info");
    assert_eq!(t.get_status(), 0);
    let d = t.get_dbg();
    assert_eq!((d.name, d.file, d.line, d.column), ("fn_name", "src/file.rs", 12, 5));
}

#[test]
fn display_and_debug_texts() {
    let e = AfbError::msg("uid", "info").add_trace("f", "a.rs", 3, 9);
    assert_eq!(e.to_display(), "uid:info");
    assert_eq!(e.to_debug(), "uid:info a.rs:3:9");
}

#[test]
fn to_jsonc_holds_uid_and_info() {
    let e = AfbError::msg("the-uid", "the \"info\"");
    let j = e.to_jsonc().unwrap();
    assert_eq!(j.to_json_text(), "{\"uid\":\"the-uid\",\"info\":\"the \\\"info\\\"\"}");
    assert_eq!(j.get::<String>("info").unwrap(), "the \"info\"");
}

#[test]
fn error_info_names_the_status_codes() {
    assert_eq!(afb_error_info(0), "Success");
    assert_eq!(afb_error_info(-9), "Invalid Scope");
    assert_eq!(afb_error_info(-11), "No Reply");
    assert_eq!(afb_error_info(-17), "Api already exist");
    assert_eq!(afb_error_info(-62), "Watchdog expire");
    assert_eq!(afb_error_info(-110), "Connection timeout");
    assert_eq!(afb_error_info(-2), "File exist");
    assert_eq!(afb_error_info(-3), "Api not found");
    assert_eq!(afb_error_info(-4), "Verb not found");
    assert_eq!(afb_error_info(-99), "Invalid data type");
    assert_eq!(afb_error_info(-100), "subcall application error");
    assert_eq!(afb_error_info(42), "Unknown");
}

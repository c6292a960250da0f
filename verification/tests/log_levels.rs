use afbv4::error::{AfbError, DbgInfo};
use afbv4::log::{verbosity_to_mask, AfbLogLevel, AfbLogMsg};

fn all_levels() -> Vec<AfbLogLevel> {
    vec![
        AfbLogLevel::Emergency,
        AfbLogLevel::Alert,
        AfbLogLevel::Critical,
        AfbLogLevel::Error,
        AfbLogLevel::Warning,
        AfbLogLevel::Notice,
        AfbLogLevel::Info,
        AfbLogLevel::Debug,
    ]
}

#[test]
fn syslog_numbers_and_masks() {
    let expected = [(0u32, 1u32), (1, 2), (2, 4), (3, 8), (4, 16), (5, 32), (6, 64), (7, 128)];
    for (level, (sys, mask)) in all_levels().iter().zip(expected.iter()) {
        assert_eq!(level.to_syslog_level(), *sys);
        assert_eq!(level.to_afb_mask(), *mask);
    }
}

#[test]
fn syslog_roundtrip_for_every_level() {
    for level in all_levels() {
        let back = AfbLogLevel::from_syslog_level(level.to_syslog_level()).unwrap();
        assert_eq!(back.to_afb_mask(), level.to_afb_mask());
    }
}

#[test]
fn from_syslog_level_refuses_eight() {
    let e = AfbLogLevel::from_syslog_level(8).err().unwrap();
    assert_eq!(e.get_uid(), "afb-log-level");
    assert_eq!(e.get_info(), "invalid level:8 should be 0-7");
}

#[test]
fn verbosity_to_mask_ignores_the_sign() {
    assert_eq!(verbosity_to_mask(0).unwrap(), 1);
    assert_eq!(verbosity_to_mask(3).unwrap(), 8);
    assert_eq!(verbosity_to_mask(-3).unwrap(), 8);
    assert_eq!(verbosity_to_mask(7).unwrap(), 128);
    let e = verbosity_to_mask(-9).err().unwrap();
    assert_eq!(e.get_info(), "invalid level:9 should be 0-7");
    let e = verbosity_to_mask(i32::MIN).err().unwrap();
    assert_eq!(e.get_info(), "invalid level:2147483648 should be 0-7");
}

#[test]
fn verbosity_mask_of_a_level_matches_its_mask() {
    for level in all_levels() {
        assert_eq!(verbosity_to_mask(level.to_syslog_level() as i32).unwrap(), level.to_afb_mask());
    }
}

#[test]
fn a_level_mask_selects_only_that_level() {
    for a in all_levels() {
        for b in all_levels() {
            let through = AfbLogMsg::verbosity_satisfied(b, a.to_afb_mask());
            assert_eq!(through, a.to_syslog_level() == b.to_syslog_level());
        }
    }
    assert!(AfbLogMsg::verbosity_satisfied(AfbLogLevel::Debug, 0xff));
    assert!(!AfbLogMsg::verbosity_satisfied(AfbLogLevel::Debug, 0x7f));
}

#[test]
fn log_messages_carry_their_level() {
    assert_eq!(AfbLogMsg::get_level(AfbLogLevel::Notice), 5);
    let (level, text) = AfbLogMsg::message(AfbLogLevel::Critical, "boom");
    assert_eq!((level, text.as_str()), (2, "boom"));
    let e = AfbError::msg("uid", "info");
    let (level, text) = AfbLogMsg::message(AfbLogLevel::Error, &e);
    assert_eq!((level, text.as_str()), (3, "uid:info"));
    let (_, text) = AfbLogMsg::message(AfbLogLevel::Info, String::from("owned"));
    assert_eq!(text, "owned");
}

#[test]
fn unknown_level_is_sent_as_minus_one() {
    assert_eq!(AfbLogMsg::get_level(AfbLogLevel::Unknown), -1);
    assert_eq!(AfbLogMsg::get_level(AfbLogLevel::Emergency), 0);
    assert_eq!(AfbLogMsg::get_level(AfbLogLevel::Error), 3);
    assert_eq!(AfbLogMsg::get_level(AfbLogLevel::Debug), 7);
}

#[test]
fn message_at_carries_the_place() {
    let dbg = DbgInfo { name: "my_fn", file: "src/lib.rs", line: 42, column: 7 };
    let (level, text, file, line, name) = AfbLogMsg::message_at(AfbLogLevel::Warning, "hello", Some(&dbg));
    assert_eq!((level, text.as_str(), file.as_str(), line, name.as_str()), (4, "hello", "src/lib.rs", 42, "my_fn"));
    let (level, text, file, line, name) = AfbLogMsg::message_at(AfbLogLevel::Unknown, "bye", None);
    assert_eq!((level, text.as_str(), file.as_str(), line, name.as_str()), (-1, "bye", "", 0, ""));
}

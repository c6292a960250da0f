use afbv4::error::AfbError;
use afbv4::jsonc::{Jentry, JsoncObj};
use afbv4::tap::{
    strict_equal, AfbTapGroup, AfbTapOutput, AfbTapResponse, AfbTapSuite, AfbTapTest, TapCursor, TapNext, TapOutcome,
};

fn obj(members: Vec<(&str, JsoncObj)>) -> JsoncObj {
    JsoncObj::Object(members.into_iter().map(|(k, o)| Jentry { key: k.to_string(), obj: o }).collect())
}

#[test]
fn a_new_test_expects_status_zero() {
    let t = AfbTapTest::new("ping", "rust-api", "ping");
    assert_eq!((t.uid, t.api, t.verb, t.status, t.timeout, t.index), ("ping", "rust-api", "ping", 0, 0, 0));
    assert!(t.response.is_none());
    assert_eq!(t.get_timeout(7), 7);
}

#[test]
fn setters_chain() {
    let mut t = AfbTapTest::new("t", "api", "verb");
    t.set_info("about").set_status(-9).set_timeout(3).set_delay(2).set_onsuccess("next").set_onerror("fail");
    assert_eq!((t.info, t.status, t.timeout, t.delay), ("about", -9, 3, 2));
    assert_eq!((t.onsucess, t.onerror), (Some("next"), Some("fail")));
    assert_eq!(t.get_timeout(7), 3);
    assert!(t.finalize().is_ok());
}

#[test]
fn a_matching_reply_passes() {
    let mut t = AfbTapTest::new("t", "api", "verb");
    t.add_expect(obj(vec![("LANDER", JsoncObj::Str("BRITTANY".to_string()))])).unwrap();
    t.add_expect(5i64).unwrap();
    let reply: Vec<Result<JsoncObj, AfbError>> = vec![
        Ok(obj(vec![("LANDER", JsoncObj::Str("BRITTANY".to_string())), ("x", JsoncObj::Int(1))])),
        Ok(JsoncObj::Int(5)),
    ];
    let r = t.check_response(0, &reply);
    assert_eq!(r.status, 0);
    assert_eq!(r.diagnostic, "");
}

#[test]
fn a_wrong_status_fails() {
    let t = AfbTapTest::new("t", "api", "verb");
    let r = t.check_response(-62, &vec![]);
    assert_eq!(r.status, 1);
    assert_eq!(r.diagnostic, "status=-62 info=Watchdog expire");
}

#[test]
fn a_wrong_value_fails_with_its_diagnostic() {
    let mut t = AfbTapTest::new("t", "api", "verb");
    t.add_expect(1i64).unwrap();
    let r = t.check_response(0, &vec![Ok(JsoncObj::Int(2))]);
    assert_eq!(r.status, 1);
    assert_eq!(r.diagnostic, ",jsonc::equal:jtype not equal");
    let r = t.check_response(0, &vec![Ok(JsoncObj::Str("1".to_string()))]);
    assert_eq!(r.diagnostic, "jsonc::equal:jtype diverge");
    let r = t.check_response(0, &vec![Err(AfbError::msg("arg", "unreadable"))]);
    assert_eq!(r.status, 1);
    assert_eq!(r.diagnostic, "{\"uid\":\"arg\",\"info\":\"unreadable\"}");
}

#[test]
fn a_missing_member_fails() {
    let mut t = AfbTapTest::new("t", "api", "verb");
    t.add_expect(obj(vec![("k", JsoncObj::Int(1))])).unwrap();
    let r = t.check_response(0, &vec![Ok(JsoncObj::new())]);
    assert_eq!(r.diagnostic, "jsonc-key-missing:k");
}

#[test]
fn strict_equal_compares_type_and_text() {
    assert!(strict_equal(&JsoncObj::Int(3), &JsoncObj::Int(3)).is_ok());
    let e = strict_equal(&JsoncObj::Int(3), &JsoncObj::Bool(true)).err().unwrap();
    assert_eq!(e.get_uid(), "jsonc::equal");
    assert_eq!(e.get_info(), "jtype diverge");
}

#[test]
fn report_lines() {
    let mut t = AfbTapTest::new("skipped", "api", "verb");
    t.index = 3;
    assert_eq!(t.get_report().unwrap().to_json_text(), "\"ok 3 - skipped # SKIP\"");
    t.done(AfbTapResponse { status: 0, diagnostic: String::new() });
    assert_eq!(t.get_report().unwrap().get_as::<String>().unwrap(), "ok 3 - skipped");
    t.set_response(1, "bad value");
    assert_eq!(t.get_report().unwrap().get_as::<String>().unwrap(), "not ok 3 - skipped # bad value");
}

#[test]
fn next_step_follows_the_labels() {
    let mut t = AfbTapTest::new("t", "api", "verb");
    t.index = 2;
    t.set_response(0, "");
    assert!(matches!(t.get_next_step(), TapNext::InGroup(2)));
    t.set_onsuccess("after");
    assert!(matches!(t.get_next_step(), TapNext::GroupStart("after")));
    t.set_response(1, "x");
    assert!(matches!(t.get_next_step(), TapNext::InGroup(2)));
    t.set_onerror("recover");
    assert!(matches!(t.get_next_step(), TapNext::GroupStart("recover")));
}

#[test]
fn group_numbers_its_tests_in_order() {
    let mut g = AfbTapGroup::new("check-session");
    g.set_info("check session").set_timeout(4);
    g.add_test(AfbTapTest::new("a", "api", "v")).add_test(AfbTapTest::new("b", "api", "v"));
    g.add_test(AfbTapTest::new("c", "api", "v"));
    let numbers: Vec<usize> = g.tests.iter().map(|t| t.index).collect();
    assert_eq!(numbers, vec![1, 2, 3]);
    assert_eq!(g.index, 3);
    assert_eq!(g.get_test(1).unwrap().uid, "b");
    assert!(g.get_test(3).is_none());
    assert_eq!(g.launch().unwrap().uid, "a");
    assert!(g.finalize().is_ok());
}

#[test]
fn an_empty_group_cannot_launch() {
    let g = AfbTapGroup::new("empty");
    let e = g.launch().err().unwrap();
    assert_eq!(e.get_uid(), "empty");
    assert_eq!(e.get_info(), "no-test-found");
}

#[test]
fn group_report_has_the_plan_then_the_tests() {
    let mut g = AfbTapGroup::new("grp");
    let mut t = AfbTapTest::new("one", "api", "v");
    t.set_response(0, "");
    g.add_test(t);
    let mut t = AfbTapTest::new("two", "api", "v");
    t.set_response(1, "why");
    g.add_test(t);
    let report = g.get_report().unwrap();
    assert_eq!(report.to_json_text(), "[\"1..2 # grp\",\"ok 1 - one\",\"not ok 2 - two # why\"]");
}

#[test]
fn suite_defaults_and_setters() {
    let mut s = AfbTapSuite::new("suite");
    assert_eq!(s.get_uid(), "suite");
    assert!(s.get_autorun() && s.get_autoexit());
    assert_eq!(s.timeout, 5);
    assert!(matches!(s.output, AfbTapOutput::TAP));
    assert_eq!(s.autostart.uid, "autostart");
    s.set_timeout(9).set_autorun(false).set_autoexit(false).set_output(AfbTapOutput::JSON).set_info("i");
    assert!(!s.get_autorun() && !s.get_autoexit());
    assert_eq!((s.timeout, s.info), (9, "i"));
}

#[test]
fn suite_tests_go_to_autostart_with_the_suite_timeout() {
    let mut s = AfbTapSuite::new("suite");
    s.add_test(AfbTapTest::new("a", "api", "v"));
    let mut t = AfbTapTest::new("b", "api", "v");
    t.set_timeout(1);
    s.add_test(t);
    assert_eq!(s.autostart.tests[0].timeout, 5);
    assert_eq!(s.autostart.tests[1].timeout, 1);
    assert_eq!(s.autostart.tests[1].index, 2);
}

#[test]
fn suite_groups_are_found_by_name() {
    let mut s = AfbTapSuite::new("suite");
    let mut g = AfbTapGroup::new("loa");
    g.add_test(AfbTapTest::new("x", "api", "v"));
    s.add_group(g);
    s.add_group(AfbTapGroup::new("timer"));
    assert_eq!(s.groups[0].timeout, 5);
    assert_eq!(s.get_group("loa").unwrap().tests.len(), 1);
    assert_eq!(s.get_group("autostart").unwrap().uid, "autostart");
    assert!(s.get_group("none").is_none());
    s.add_group(AfbTapGroup::new("loa"));
    assert_eq!(s.groups.len(), 2);
    assert_eq!(s.get_group("loa").unwrap().tests.len(), 0);
    assert_eq!(s.launch("timer").unwrap().uid, "timer");
    let e = s.launch("missing").err().unwrap();
    assert_eq!(e.get_uid(), "group-label-not-found");
    assert_eq!(e.get_info(), "missing");
}

#[test]
fn suite_report_holds_every_group() {
    let mut s = AfbTapSuite::new("suite");
    let mut t = AfbTapTest::new("a", "api", "v");
    t.set_response(0, "");
    s.add_test(t);
    let mut g = AfbTapGroup::new("g1");
    g.add_test(AfbTapTest::new("b", "api", "v"));
    s.add_group(g);
    let report = s.get_report().unwrap();
    assert_eq!(
        report.to_json_text(),
        "{\"autostart\":[\"1..1 # autostart\",\"ok 1 - a\"],\"g1\":[\"1..1 # g1\",\"ok 1 - b # SKIP\"]}"
    );
    assert!(s.groups.is_empty());
}

#[test]
fn tap_print_frames_every_group() {
    let mut s = AfbTapSuite::new("suite");
    let mut t = AfbTapTest::new("a", "api", "v");
    t.set_response(0, "");
    s.add_test(t);
    let mut g = AfbTapGroup::new("g1");
    g.add_test(AfbTapTest::new("b", "api", "v"));
    s.add_group(g);
    let report = s.get_report().unwrap();
    let printed = afbv4::tap::tap_print("suite", &report);
    assert_eq!(
        printed,
        "-- start:suite --\n\n1..1 # autostart\nok 1 - a\n\n1..1 # g1\nok 1 - b # SKIP\n\n-- end:suite --\n"
    );
}

#[test]
fn tap_print_of_an_empty_report() {
    assert_eq!(afbv4::tap::tap_print("s", &JsoncObj::new()), "-- start:s --\n\n-- end:s --\n");
}

#[test]
fn a_reply_with_too_few_arguments_fails() {
    let mut t = AfbTapTest::new("t", "api", "verb");
    t.add_expect(1i64).unwrap();
    let r = t.check_response(0, &vec![]);
    assert_eq!(r.status, 1);
    assert_eq!(r.diagnostic, "{\"uid\":\"AfbRqtData.get\",\"info\":\"invalid argument index ask:1 max:0\"}");
}

#[test]
fn next_test_follows_labels_across_groups() {
    let mut s = AfbTapSuite::new("suite");
    let mut g = AfbTapGroup::new("loa");
    g.add_test(AfbTapTest::new("first", "api", "v"));
    s.add_group(g);
    let mut own = AfbTapGroup::new("own");
    own.add_test(AfbTapTest::new("one", "api", "v"));
    own.add_test(AfbTapTest::new("two", "api", "v"));
    let mut t = AfbTapTest::new("one", "api", "v");
    t.index = own.tests[0].index;
    t.set_response(0, "");
    assert_eq!(s.next_test(&own, &t).unwrap().uid, "two");
    t.set_onsuccess("loa");
    assert_eq!(s.next_test(&own, &t).unwrap().uid, "first");
    t.set_onsuccess("nowhere");
    assert!(s.next_test(&own, &t).is_none());
    let mut last = AfbTapTest::new("two", "api", "v");
    last.index = 2;
    last.set_response(1, "x");
    assert!(s.next_test(&own, &last).is_none());
}

#[test]
fn a_run_walks_the_suite_by_labels() {
    let mut s = AfbTapSuite::new("suite");
    let mut t1 = AfbTapTest::new("t1", "rust-api", "ping");
    t1.set_onsuccess("g");
    s.add_test(t1);
    let mut g = AfbTapGroup::new("g");
    g.set_timeout(7);
    let mut t2 = AfbTapTest::new("t2", "rust-api", "info");
    t2.add_expect(1i64).unwrap();
    g.add_test(t2);
    let mut t3 = AfbTapTest::new("t3", "rust-api", "info");
    t3.set_timeout(2);
    g.add_test(t3);
    s.add_group(g);

    let c = s.start("autostart").unwrap();
    assert_eq!(c, TapCursor::Autostart(0));
    assert_eq!(s.call_at(c), ("rust-api", "ping", 5));
    let c = s.record(c, TapOutcome::Reply(0, vec![])).unwrap();
    assert_eq!(c, TapCursor::Group(0, 0));
    assert_eq!(s.autostart.tests[0].response.as_ref().unwrap().status, 0);
    assert_eq!(s.call_at(c), ("rust-api", "info", 7));
    let c = s.record(c, TapOutcome::Timeout).unwrap();
    let r = s.test_at(TapCursor::Group(0, 0)).response.as_ref().unwrap();
    assert_eq!(r.status, 1);
    assert_eq!(r.diagnostic, "status=-62 info=Watchdog expire");
    assert_eq!(c, TapCursor::Group(0, 1));
    assert_eq!(s.call_at(c).2, 2);
    assert!(s.record(c, TapOutcome::Failed(0)).is_none());
    assert_eq!(s.test_at(c).response.as_ref().unwrap().status, 0);
}

#[test]
fn a_run_cannot_start_on_an_unknown_or_empty_group() {
    let mut s = AfbTapSuite::new("suite");
    let e = s.start("none").err().unwrap();
    assert_eq!((e.get_uid().as_str(), e.get_info().as_str()), ("group-label-not-found", "none"));
    let e = s.start("autostart").err().unwrap();
    assert_eq!((e.get_uid().as_str(), e.get_info().as_str()), ("autostart", "no-test-found"));
    s.add_group(AfbTapGroup::new("empty"));
    let e = s.start("empty").err().unwrap();
    assert_eq!((e.get_uid().as_str(), e.get_info().as_str()), ("empty", "no-test-found"));
}

#[test]
fn a_test_carries_its_arguments() {
    let mut s = AfbTapSuite::new("suite");
    let mut t = AfbTapTest::new("t", "rust-api", "verb_basic");
    t.add_arg(obj(vec![("x", JsoncObj::Int(1))])).unwrap();
    t.add_arg(5i64).unwrap();
    s.add_test(t);
    let args = s.args_at(TapCursor::Autostart(0));
    assert_eq!(args.len(), 2);
    assert_eq!(args[0].to_json_text(), "{\"x\":1}");
    assert_eq!(args[1].get_as::<i64>().unwrap(), 5);
}

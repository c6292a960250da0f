use afbv4::api::{config_status, control_action, AfbApi, AfbApiControls, ControlAction, ControlId, PreInitStep};
use afbv4::data::{check_index, index_error, AfbBuiltinType, BuiltinTypes};
use afbv4::error::AfbError;
use afbv4::event::{AfbEvent, AfbEvtHandler};
use afbv4::jsonc::{Jentry, JsoncObj};
use afbv4::permission::{AfbAuthV4, AfbPermission};
use afbv4::verb::{api_info, copy_auth, ping_reply, verbs_info, AfbGroup, AfbVerb, GroupStep};

fn is_perm(a: &Option<Box<AfbAuthV4>>, t: &str) -> bool {
    matches!(a.as_deref(), Some(AfbAuthV4::Permission(x)) if *x == t)
}

fn is_loa(a: &Option<Box<AfbAuthV4>>, v: u32) -> bool {
    matches!(a.as_deref(), Some(AfbAuthV4::Loa(x)) if *x == v)
}

#[test]
fn a_new_verb_is_named_after_its_uid() {
    let v = AfbVerb::new("ping");
    assert_eq!((v.get_uid(), v.get_name(), v.get_info(), v.get_verbosity()), ("ping", "ping", "", 0));
    assert!(v.get_usage().is_none());
    assert_eq!(v.get_samples().to_json_text(), "[]");
    assert_eq!(v.get_action().to_json_text(), "[]");
}

#[test]
fn verb_info_lists_usage_and_samples() {
    let mut v = AfbVerb::new("basic");
    v.set_name("verb_basic").set_info("basic verb").set_usage("{'x':1}").set_verbosity(2);
    assert_eq!(
        v.info_object().to_json_text(),
        "{\"uid\":\"basic\",\"verb\":\"verb_basic\",\"info\":\"basic verb\",\"usage\":{\"data\":\"{'x':1}\"}}"
    );
    v.set_sample("{\"x\":1}", Ok(JsoncObj::Object(vec![Jentry { key: "x".to_string(), obj: JsoncObj::Int(1) }])))
        .unwrap();
    v.set_action(Ok(JsoncObj::Array(vec![JsoncObj::Str("start".to_string())]))).unwrap();
    assert_eq!(
        v.info_object().to_json_text(),
        "{\"uid\":\"basic\",\"verb\":\"verb_basic\",\"info\":\"basic verb\",\"usage\":{\"action\":[\"start\"],\"data\":\"{'x':1}\"},\"sample\":[{\"x\":1}]}"
    );
}

#[test]
fn verb_without_countable_actions_shows_its_usage_alone() {
    let mut v = AfbVerb::new("u");
    v.actions = JsoncObj::Null;
    v.set_usage("no input");
    assert_eq!(v.info_object().to_json_text(), "{\"uid\":\"u\",\"verb\":\"u\",\"info\":\"\",\"usage\":\"no input\"}");
    v.usage = None;
    assert_eq!(v.info_object().to_json_text(), "{\"uid\":\"u\",\"verb\":\"u\",\"info\":\"\"}");
}

#[test]
fn set_sample_and_set_action_errors() {
    let mut v = AfbVerb::new("v");
    let e = v.set_sample("{bad", Err(AfbError::msg("jsonc-parse-fail", "{bad"))).err().unwrap();
    assert_eq!(e.get_uid(), "jsonc-parsing-error");
    assert_eq!(e.get_info(), "{bad");
    let e = v.set_action(Err(AfbError::msg("jsonc-parse-fail", "x"))).err().unwrap();
    assert_eq!(e.get_uid(), "jsonc-parse-fail");
    let e = v.set_action(Ok(JsoncObj::Int(1))).err().unwrap();
    assert_eq!(e.get_uid(), "verb-set-action");
    assert_eq!(e.get_info(), "not a valid json array");
    assert_eq!(v.get_action().to_json_text(), "[]");
}

#[test]
fn group_info_names_the_group_when_it_has_a_name() {
    let mut verbs = Vec::new();
    verbs.push(AfbVerb::new("a"));
    assert_eq!(verbs_info("", "", &verbs).to_json_text(), "{\"verbs\":[{\"uid\":\"a\",\"verb\":\"a\",\"info\":\"\",\"usage\":{}}]}");
    let mut g = AfbGroup::new("grp");
    g.set_info("about").add_verb(AfbVerb::new("b"));
    assert_eq!(
        g.info_object().to_json_text(),
        "{\"uid\":\"grp\",\"info\":\"about\",\"verbs\":[{\"uid\":\"b\",\"verb\":\"b\",\"info\":\"\",\"usage\":{}}]}"
    );
}

#[test]
fn api_info_gathers_metadata_and_groups() {
    let verbs: Vec<AfbVerb> = Vec::new();
    let mut g = AfbGroup::new("g");
    g.add_verb(AfbVerb::new("x"));
    let groups = vec![g];
    assert_eq!(
        api_info("rust-api", "demo", "1.0", &verbs, &groups).to_json_text(),
        "{\"metadata\":{\"uid\":\"rust-api\",\"info\":\"demo\",\"version\":\"1.0\"},\"groups\":[{\"verbs\":[]},{\"uid\":\"g\",\"verbs\":[{\"uid\":\"x\",\"verb\":\"x\",\"info\":\"\",\"usage\":{}}]}]}"
    );
}

#[test]
fn ping_reply_counts() {
    assert_eq!(ping_reply(3).to_json_text(), "{\"pong\":3}");
}

#[test]
fn group_declarations_prefix_names_and_join_rules() {
    let mut g = AfbGroup::new("session");
    g.set_prefix("session_group").set_verbosity(4).set_permission(AfbPermission::new("acl:group"));
    let mut v = AfbVerb::new("reset");
    v.set_verbosity(1).set_permission(AfbPermission::new("acl:verb"));
    g.add_verb(v);
    let mut w = AfbVerb::new("read");
    w.set_verbosity(-7);
    g.add_verb(w);
    let inherited = Some(Box::new(AfbAuthV4::Loa(1)));
    let first = g.declare_verb(0, &inherited);
    assert_eq!(first.name, "session_group/reset");
    assert_eq!(g.verbs[0].name, "session_group/reset");
    assert_eq!(g.verbs[0].verbosity, 4);
    assert_eq!(g.verbs[1].name, "read");
    assert_eq!(g.verbs[1].verbosity, -7);
    g.declare_verb(1, &inherited);
    assert_eq!(g.verbs[1].verbosity, 7);
    match first.auth.as_deref() {
        Some(AfbAuthV4::And { first, next }) => {
            assert!(is_perm(first, "acl:verb"));
            match next.as_deref() {
                Some(AfbAuthV4::And { first, next }) => {
                    assert!(is_perm(first, "acl:group"));
                    assert!(is_loa(next, 1));
                },
                _ => panic!("expected the group rule"),
            }
        },
        _ => panic!("expected a joined rule"),
    }
    let mut plain = AfbGroup::new("plain");
    plain.set_separator("-").add_verb(AfbVerb::new("v"));
    let decl = plain.declare_verb(0, &None);
    assert_eq!(decl.name, "v");
    assert!(decl.auth.is_none());
}

#[test]
fn copy_auth_copies_the_tree() {
    let a = Some(Box::new(AfbAuthV4::Or { first: Some(Box::new(AfbAuthV4::Loa(2))), next: None }));
    match copy_auth(&a).as_deref() {
        Some(AfbAuthV4::Or { first, next }) => {
            assert!(is_loa(first, 2));
            assert!(next.is_none());
        },
        _ => panic!("expected an Or node"),
    }
}

#[test]
fn a_new_api_has_the_default_settings() {
    let api = AfbApi::new("rust-api");
    assert_eq!((api.get_uid(), api.get_name(), api.get_info(), api.get_version()), ("rust-api", "rust-api", "", ""));
    assert_eq!(api.get_verbosity(), 5);
    assert!(api.do_info && api.do_ping && api.do_seal && api.do_concurrency);
    assert_eq!(api.noconcurrency(), 0);
    assert_eq!(api.get_apiv4(), 0);
}

#[test]
fn api_setters_and_requirements() {
    let mut api = AfbApi::new("a");
    api.set_name("name").set_info("info").set_class("class").set_version("2").set_verbosity(3);
    api.add_info_cb(false).add_ping_cb(false).seal(false).set_concurrency(false);
    api.require_api("other").require_api("").require_class("cls");
    assert_eq!((api.name, api.info, api.class, api.version, api.verbosity), ("name", "info", "class", "2", 3));
    assert!(!api.do_info && !api.do_ping && !api.do_seal);
    assert_eq!(api.noconcurrency(), 1);
    assert_eq!(api.require_apis, vec!["other"]);
    assert_eq!(api.require_classes, vec!["cls"]);
    api.set_apiv4(42);
    assert_eq!(api.get_apiv4(), 42);
}

#[test]
fn api_creation_failure_is_explained() {
    let api = AfbApi::new("rust-api");
    assert!(api.finalize(0).is_ok());
    let e = api.finalize(-17).err().unwrap();
    assert_eq!(e.get_uid(), "rust-api");
    assert_eq!(e.get_info(), "Fail to register api uid=rust-api status=-17 info=Api already exist ");
}

#[test]
fn api_items_inherit_the_api_verbosity_and_rule() {
    let mut api = AfbApi::new("a");
    api.set_permission(AfbPermission::new("acl:api")).set_verbosity(6);
    api.add_verb(AfbVerb::new("v"));
    let mut evt = AfbEvent::new("e");
    evt.inherit_verbosity(2);
    api.add_event(evt);
    api.add_evt_handler(AfbEvtHandler::new("h"));
    let d = api.prepare_verb(0);
    assert_eq!(d.name, "v");
    assert!(is_perm(&d.auth, "acl:api"));
    assert_eq!(api.verbs[0].verbosity, 6);
    assert!(is_perm(&api.api_auth(), "acl:api"));
    api.prepare_event(0);
    assert_eq!(api.events[0].get_verbosity(), 6);
    api.prepare_handler(0);
    assert_eq!(api.evthandlers[0].get_verbosity(), 6);
}

fn pre_init_run(api: &AfbApi, answers: &[i32]) -> (Vec<PreInitStep>, i32) {
    let mut steps = Vec::new();
    let mut step = PreInitStep::Config;
    let mut status = 0;
    let mut k = 0;
    loop {
        if let PreInitStep::Finished(s) = step {
            return (steps, s);
        }
        steps.push(step);
        match step {
            PreInitStep::Group(_) | PreInitStep::Handler(_) | PreInitStep::Event(_) | PreInitStep::Ping | PreInitStep::Info => {
                status = answers[k];
                k += 1;
            },
            _ => {},
        }
        step = api.pre_init_next(step, status);
    }
}

#[test]
fn pre_init_runs_in_order_and_stops_at_a_failure() {
    let mut api = AfbApi::new("a");
    api.add_verb(AfbVerb::new("v"));
    api.add_group(AfbGroup::new("g0"));
    api.add_group(AfbGroup::new("g1"));
    api.add_evt_handler(AfbEvtHandler::new("h"));
    api.add_event(AfbEvent::new("e"));
    let (steps, status) = pre_init_run(&api, &[0, 0, 0, 0, 0, 0]);
    assert_eq!(
        steps,
        vec![
            PreInitStep::Config,
            PreInitStep::RequireApis,
            PreInitStep::RequireClasses,
            PreInitStep::Verb(0),
            PreInitStep::Group(0),
            PreInitStep::Group(1),
            PreInitStep::Handler(0),
            PreInitStep::Event(0),
            PreInitStep::Ping,
            PreInitStep::Info,
            PreInitStep::Seal,
        ]
    );
    assert_eq!(status, 0);
    let (steps, status) = pre_init_run(&api, &[0, -17]);
    assert_eq!(steps.last(), Some(&PreInitStep::Group(1)));
    assert_eq!(status, -17);
    api.add_ping_cb(false).add_info_cb(false).seal(false);
    let (steps, status) = pre_init_run(&api, &[0, 0, 0, 3]);
    assert_eq!(steps.last(), Some(&PreInitStep::Event(0)));
    assert_eq!(status, 3);
    assert_eq!(api.pre_init_next(PreInitStep::Config, 1), PreInitStep::RequireApis);
    assert_eq!(api.pre_init_next(PreInitStep::Config, -1), PreInitStep::Finished(-1));
}

#[test]
fn pre_init_does_not_look_at_verb_answers() {
    let mut api = AfbApi::new("a");
    api.add_verb(AfbVerb::new("v0"));
    api.add_verb(AfbVerb::new("v1"));
    api.add_ping_cb(false).add_info_cb(false).seal(false);
    assert_eq!(api.pre_init_next(PreInitStep::RequireApis, -5), PreInitStep::RequireClasses);
    assert_eq!(api.pre_init_next(PreInitStep::RequireClasses, -5), PreInitStep::Verb(0));
    assert_eq!(api.pre_init_next(PreInitStep::Verb(0), -5), PreInitStep::Verb(1));
    assert_eq!(api.pre_init_next(PreInitStep::Verb(1), -5), PreInitStep::Finished(0));
    api.add_group(AfbGroup::new("g"));
    assert_eq!(api.pre_init_next(PreInitStep::Verb(1), -5), PreInitStep::Group(0));
    assert_eq!(api.pre_init_next(PreInitStep::Group(0), -5), PreInitStep::Finished(-5));
}

#[test]
fn group_registration_stops_at_a_failure() {
    let mut g = AfbGroup::new("g");
    g.add_verb(AfbVerb::new("a")).add_verb(AfbVerb::new("b"));
    g.add_evt_handler(AfbEvtHandler::new("h"));
    g.add_event(AfbEvent::new("e"));
    assert_eq!(g.first_step(), GroupStep::Verb(0));
    assert_eq!(g.next_step(GroupStep::Verb(0), 0), GroupStep::Verb(1));
    assert_eq!(g.next_step(GroupStep::Verb(1), 0), GroupStep::Handler(0));
    assert_eq!(g.next_step(GroupStep::Handler(0), 0), GroupStep::Event(0));
    assert_eq!(g.next_step(GroupStep::Event(0), 2), GroupStep::Finished(2));
    assert_eq!(g.next_step(GroupStep::Verb(0), -1), GroupStep::Finished(-1));
    assert_eq!(AfbGroup::new("empty").first_step(), GroupStep::Finished(0));
}

#[test]
fn control_actions() {
    assert_eq!(control_action(ControlId::PreInit, false), ControlAction::PreInit);
    assert_eq!(control_action(ControlId::Init, true), ControlAction::Start);
    assert_eq!(control_action(ControlId::Init, false), ControlAction::Reply(0));
    assert_eq!(control_action(ControlId::ClassReady, true), ControlAction::Ready);
    assert_eq!(control_action(ControlId::OrphanEvent, true), ControlAction::Orphan);
    assert_eq!(control_action(ControlId::Exiting(4), true), ControlAction::Exit(4));
    assert_eq!(control_action(ControlId::Exiting(4), false), ControlAction::Reply(0));
    assert_eq!(config_status(None), 0);
    assert_eq!(config_status(Some(Err(AfbError::msg("c", "bad")))), 1);
}

#[test]
fn argument_indexes() {
    assert!(check_index(0, 2).is_ok());
    assert!(check_index(1, 2).is_ok());
    assert_eq!(check_index(2, 2), Err(2));
    assert!(check_index(-1, 2).is_ok());
    assert_eq!(check_index(-2, 2), Err(2));
    let e = index_error(1, 1);
    assert_eq!(e.get_uid(), "AfbRqtData.get");
    assert_eq!(e.get_info(), "invalid argument index ask:2 max:1");
}

#[test]
fn builtin_types_take_the_binder_handles() {
    let types = BuiltinTypes {
        opaque: 1,
        stringz: 2,
        json: 3,
        json_c: 4,
        bytearray: 5,
        bool_type: 6,
        i32_type: 7,
        u32_type: 8,
        i64_type: 9,
        u64_type: 10,
        double: 11,
    };
    let c = AfbBuiltinType::get(&AfbBuiltinType::JsoncObj, &types);
    assert_eq!((c.uid, c.typev4), ("Builtin-JsoncObj", 4));
    let c = AfbBuiltinType::get(&AfbBuiltinType::NoType, &types);
    assert_eq!((c.uid, c.typev4), ("Builtin-None", 0));
    let c = AfbBuiltinType::get(&AfbBuiltinType::Double, &types);
    assert_eq!((c.uid, c.typev4), ("Builtin-Double", 11));
}

#[test]
fn arguments_of_a_failed_reply_are_not_read() {
    assert!(afbv4::data::status_check(0).is_ok());
    assert!(afbv4::data::status_check(3).is_ok());
    let e = afbv4::data::status_check(-4).err().unwrap();
    assert_eq!(e.get_uid(), "AfbRqtData.status");
    assert_eq!(e.get_info(), "value:-4 info:Verb not found");
}

#[test]
fn display_texts_of_verbs_and_apis() {
    let mut v = AfbVerb::new("v1");
    v.set_name("name").set_info("about");
    assert_eq!(v.to_display(), "uid:v1 name:name info:about");
    let api = AfbApi::new("rust-api");
    assert_eq!(api.to_display(), "uid:rust-api name:rust-api info:");
}

struct Quiet;

impl afbv4::api::AfbApiControls for Quiet {}

#[test]
fn control_steps_succeed_by_default() {
    let api = AfbApi::new("a");
    let mut q = Quiet;
    assert_eq!(afbv4::api::control_status(&q.config(&api, JsoncObj::new())), 0);
    assert_eq!(afbv4::api::control_status(&q.start(&api)), 0);
    assert_eq!(afbv4::api::control_status(&Err(AfbError::msg("x", "y"))), 1);
    assert_eq!(q.exit(&api, 3), 3);
}

#[test]
fn event_messages_are_counted_in_their_uid() {
    let mut api = AfbApi::new("demo");
    api.add_evt_handler(AfbEvtHandler::new("h0"));
    api.add_evt_handler(AfbEvtHandler::new("h1"));
    assert_eq!(api.event_msg_uid(1), "demo|0001|0001");
    api.count_request();
    assert_eq!(api.count, 2);
    assert_eq!(api.event_msg_uid(1), "demo|0003|0002");
    assert_eq!(api.event_msg_uid(0), "demo|0004|0001");
    assert_eq!(api.evthandlers[0].count, 1);
    assert_eq!(api.evthandlers[1].count, 2);
    api.count = 0x1A2;
    api.evthandlers[0].count = 0xFFFF;
    assert_eq!(api.event_msg_uid(0), "demo|01A3|10000");
    api.count = 0xBCDE;
    assert_eq!(api.event_msg_uid(1), "demo|BCDF|0003");
}

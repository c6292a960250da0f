use afbv4::event::{AfbEvent, GetApiV4};
use afbv4::registry::{group_verb_name, inherit_verbosity, RegisterRun, RegisterStep};

#[test]
fn verbosity_inheritance() {
    assert_eq!(inherit_verbosity(3, 1), 3);
    assert_eq!(inherit_verbosity(1, 3), 3);
    assert_eq!(inherit_verbosity(5, -2), 2);
    assert_eq!(inherit_verbosity(-4, 0), 0);
}

#[test]
fn group_verbs_are_prefixed() {
    assert_eq!(group_verb_name("session_group", "/", "reset"), "session_group/reset");
    assert_eq!(group_verb_name("", "/", "reset"), "reset");
    assert_eq!(group_verb_name("g", "-", "v"), "g-v");
}

fn run(statuses: &[i32], count: usize) -> (i32, usize) {
    let mut r = RegisterRun::new(count);
    let mut asked = 0;
    loop {
        match r.next_step() {
            RegisterStep::Finished(status) => return (status, asked),
            RegisterStep::Register(i) => {
                assert_eq!(i, asked);
                asked += 1;
                r.record(statuses[i]);
            },
        }
    }
}

#[test]
fn a_run_stops_at_the_first_failure() {
    assert_eq!(run(&[0, 0, -5, 0], 4), (-5, 3));
    assert_eq!(run(&[-1, 0], 2), (-1, 1));
}

#[test]
fn a_run_without_failure_ends_with_the_last_status() {
    assert_eq!(run(&[0, 2, 7], 3), (7, 3));
    assert_eq!(run(&[], 0), (0, 0));
}

#[test]
fn event_lifecycle() {
    let mut evt = AfbEvent::new("my-event");
    assert_eq!(evt.get_uid(), "my-event");
    assert_eq!(evt.get_verbosity(), 0);
    assert!(!evt.is_registered());
    let e = evt.check_registered().err().unwrap();
    assert_eq!(e.get_uid(), "my-event");
    assert_eq!(e.get_info(), "should register before usage");
    let e = evt.subscribe(0).err().unwrap();
    assert_eq!(e.get_info(), "should register before usage");
    assert_eq!(evt.register(17usize, 99usize, 0), 0);
    assert!(evt.is_registered());
    assert_eq!(evt.get_apiv4(), 17);
    assert!(evt.subscribe(0).is_ok());
    let e = evt.subscribe(-1).err().unwrap();
    assert_eq!(e.get_info(), "fail to subscribe event");
    let e = evt.unsubscribe(3).err().unwrap();
    assert_eq!(e.get_info(), "fail to unsubscribe event");
    assert!(evt.unsubscribe(0).is_ok());
    assert!(evt.finalize().is_ok());
    assert_eq!(<AfbEvent as GetApiV4<usize>>::set_apiv4(5), 5);
}

#[test]
fn event_verbosity_follows_its_api() {
    let mut evt = AfbEvent::new("e");
    evt.inherit_verbosity(4);
    assert_eq!(evt.get_verbosity(), 4);
    evt.inherit_verbosity(2);
    assert_eq!(evt.get_verbosity(), 4);
}

#[test]
fn an_event_pushes_only_once_registered() {
    let mut evt = AfbEvent::new("e");
    assert_eq!(evt.push(Some(0)), -1);
    assert_eq!(evt.push(None), -1);
    evt.register(3usize, 8usize, 0);
    assert_eq!(evt.push(Some(2)), 2);
    assert_eq!(evt.push(Some(0)), 0);
    assert_eq!(evt.push(None), -1);
}

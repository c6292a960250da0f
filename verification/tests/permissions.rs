use afbv4::permission::{AfbAuthV4, AfbPermisionV4, AfbPermission};

fn is_loa(a: &Option<Box<AfbAuthV4>>, v: u32) -> bool {
    matches!(a.as_deref(), Some(AfbAuthV4::Loa(x)) if *x == v)
}

fn is_perm(a: &Option<Box<AfbAuthV4>>, t: &str) -> bool {
    matches!(a.as_deref(), Some(AfbAuthV4::Permission(x)) if *x == t)
}

#[test]
fn from_builds_each_kind() {
    assert!(matches!(AfbPermission::from("acl:rust"), AfbPermission::Require("acl:rust")));
    assert!(matches!(AfbPermission::from(3), AfbPermission::Loa(3)));
    assert!(matches!(AfbPermission::from(0), AfbPermission::NoAuth()));
    assert!(matches!(AfbPermission::from(-7), AfbPermission::Loa(-7)));
    let inner: &'static AfbPermission = AfbPermission::new("x");
    assert!(matches!(AfbPermission::from(&*inner), AfbPermission::Inner(_)));
    let kept = AfbPermission::new(2);
    assert!(matches!(*kept, AfbPermission::Loa(2)));
}

#[test]
fn a_permission_without_inherited_rule_is_its_own_rule() {
    let r = AfbPermisionV4::new(&AfbPermission::Loa(2), None);
    assert!(is_loa(&r, 2));
    let r = AfbPermisionV4::new(&AfbPermission::Require("p"), None);
    assert!(is_perm(&r, "p"));
    assert!(AfbPermisionV4::new(&AfbPermission::NoAuth(), None).is_none());
}

#[test]
fn no_rule_of_its_own_passes_the_inherited_one() {
    let inherited = Some(Box::new(AfbAuthV4::Loa(1)));
    let r = AfbPermisionV4::new(&AfbPermission::NoAuth(), inherited);
    assert!(is_loa(&r, 1));
    let r = AfbPermisionV4::new(&AfbPermission::from(0), Some(Box::new(AfbAuthV4::Permission("q"))));
    assert!(is_perm(&r, "q"));
}

#[test]
fn both_rules_are_joined() {
    let r = AfbPermisionV4::new(&AfbPermission::Require("p"), Some(Box::new(AfbAuthV4::Loa(1))));
    match r.as_deref() {
        Some(AfbAuthV4::And { first, next }) => {
            assert!(is_perm(first, "p"));
            assert!(is_loa(next, 1));
        },
        _ => panic!("expected an And node"),
    }
}

#[test]
fn lists_chain_their_entries_last_first() {
    let any = AfbPermission::AnyOf(vec![AfbPermission::Require("a"), AfbPermission::Require("b")]);
    match AfbPermisionV4::new(&any, None).as_deref() {
        Some(AfbAuthV4::And { first, next }) => {
            assert!(is_perm(first, "b"));
            match next.as_deref() {
                Some(AfbAuthV4::And { first, next }) => {
                    assert!(is_perm(first, "a"));
                    assert!(next.is_none());
                },
                _ => panic!("expected a second And node"),
            }
        },
        _ => panic!("expected an And node"),
    }
    let all = AfbPermission::AllOf(vec![AfbPermission::Loa(1)]);
    match AfbPermisionV4::new(&all, None).as_deref() {
        Some(AfbAuthV4::Or { first, next }) => {
            assert!(is_loa(first, 1));
            assert!(next.is_none());
        },
        _ => panic!("expected an Or node"),
    }
    assert!(AfbPermisionV4::new(&AfbPermission::AnyOf(vec![]), None).is_none());
}

#[test]
fn inner_permission_is_the_inner_rule() {
    let inner: &'static AfbPermission = AfbPermission::new("inner");
    let r = AfbPermisionV4::new(&AfbPermission::Inner(inner), None);
    assert!(is_perm(&r, "inner"));
}

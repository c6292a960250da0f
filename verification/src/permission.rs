//! Access rules of verbs and groups, and the form the binder checks them in.

use vstd::prelude::*;
use crate::jsonc::no_nul;

verus! {

/// Who may call a verb.
pub enum AfbPermission {
    /// A level of assurance.
    Loa(i32),
    /// A named permission.
    Require(&'static str),
    AnyOf(Vec<AfbPermission>),
    AllOf(Vec<AfbPermission>),
    Inner(&'static AfbPermission),
    /// No restriction.
    NoAuth(),
}

/// A node of the binder's access rule; `None` in its place means no rule.
pub enum AfbAuthV4 {
    Loa(u32),
    Permission(&'static str),
    And { first: Option<Box<AfbAuthV4>>, next: Option<Box<AfbAuthV4>> },
    Or { first: Option<Box<AfbAuthV4>>, next: Option<Box<AfbAuthV4>> },
}

/// A combining node: `And` or `Or`.
pub open spec fn auth_node(is_and: bool, first: Option<Box<AfbAuthV4>>, next: Option<Box<AfbAuthV4>>) -> AfbAuthV4 {
    if is_and {
        AfbAuthV4::And { first, next }
    } else {
        AfbAuthV4::Or { first, next }
    }
}

/// The rule a permission stands for. A list becomes a chain of nodes of
/// one kind, its last entry first.
pub open spec fn auth_base(p: AfbPermission) -> Option<Box<AfbAuthV4>>
    decreases p,
{
    match p {
        AfbPermission::NoAuth() => None,
        AfbPermission::Loa(v) => Some(Box::new(AfbAuthV4::Loa(v as u32))),
        AfbPermission::Require(t) => Some(Box::new(AfbAuthV4::Permission(t))),
        AfbPermission::AnyOf(vs) => auth_chain(vs@, true),
        AfbPermission::AllOf(vs) => auth_chain(vs@, false),
        AfbPermission::Inner(q) => auth_base(*q),
    }
}

/// The chain of nodes of one kind for a list of permissions.
pub open spec fn auth_chain(slots: Seq<AfbPermission>, is_and: bool) -> Option<Box<AfbAuthV4>>
    decreases slots,
{
    if slots.len() == 0 {
        None
    } else {
        Some(Box::new(auth_node(is_and, auth_base(slots.last()), auth_chain(slots.drop_last(), is_and))))
    }
}

/// A rule joined with the rule it inherits: both must hold.
pub open spec fn auth_merge(auth: Option<Box<AfbAuthV4>>, inherited: Option<Box<AfbAuthV4>>) -> Option<Box<AfbAuthV4>> {
    if inherited is None {
        auth
    } else if auth is None {
        inherited
    } else {
        Some(Box::new(AfbAuthV4::And { first: auth, next: inherited }))
    }
}

/// No permission name in the rule holds a NUL character.
pub open spec fn perm_ok(p: AfbPermission) -> bool
    decreases p,
{
    match p {
        AfbPermission::Require(t) => no_nul(t@),
        AfbPermission::AnyOf(vs) => perms_ok(vs@),
        AfbPermission::AllOf(vs) => perms_ok(vs@),
        AfbPermission::Inner(q) => perm_ok(*q),
        _ => true,
    }
}

/// Every permission of a list is acceptable.
pub open spec fn perms_ok(slots: Seq<AfbPermission>) -> bool
    decreases slots,
{
    if slots.len() == 0 {
        true
    } else {
        perm_ok(slots.last()) && perms_ok(slots.drop_last())
    }
}

proof fn lemma_perms_ok_index(slots: Seq<AfbPermission>, i: int)
    requires
        perms_ok(slots),
        0 <= i < slots.len(),
    ensures
        perm_ok(slots[i]),
        perms_ok(slots.take(i)),
    decreases slots.len(),
{
    if i < slots.len() - 1 {
        lemma_perms_ok_index(slots.drop_last(), i);
        assert(slots.drop_last().take(i) =~= slots.take(i));
    } else {
        assert(slots.take(i) =~= slots.drop_last());
    }
}

/// Builds the binder form of access rules.
pub struct AfbPermisionV4 {}

impl AfbPermisionV4 {
    fn base(permission: &AfbPermission) -> (r: Option<Box<AfbAuthV4>>)
        requires
            perm_ok(*permission),
        ensures
            r == auth_base(*permission),
        decreases permission,
    {
        match permission {
            AfbPermission::NoAuth() => None,
            AfbPermission::Loa(value) => Some(Box::new(AfbAuthV4::Loa(*value as u32))),
            AfbPermission::Require(value) => Some(Box::new(AfbAuthV4::Permission(*value))),
            AfbPermission::AnyOf(values) => Self::chain(permission, values, true),
            AfbPermission::AllOf(values) => Self::chain(permission, values, false),
            AfbPermission::Inner(value) => {
                assert(decreases_to!(*permission => permission->Inner_0));
                Self::base(*value)
            },
        }
    }

    fn chain(permission: &AfbPermission, values: &Vec<AfbPermission>, is_and: bool) -> (r: Option<Box<AfbAuthV4>>)
        requires
            *permission == (if is_and {
                AfbPermission::AnyOf(*values)
            } else {
                AfbPermission::AllOf(*values)
            }),
            perms_ok(values@),
        ensures
            r == auth_chain(values@, is_and),
        decreases permission, 0nat,
    {
        let mut next: Option<Box<AfbAuthV4>> = None;
        let n = values.len();
        let mut i: usize = 0;
        proof {
            assert(values@.take(0) =~= Seq::<AfbPermission>::empty());
        }
        while i < n
            invariant
                n == values@.len(),
                i <= n,
                *permission == (if is_and {
                    AfbPermission::AnyOf(*values)
                } else {
                    AfbPermission::AllOf(*values)
                }),
                perms_ok(values@),
                next == auth_chain(values@.take(i as int), is_and),
            decreases n - i,
        {
            proof {
                lemma_perms_ok_index(values@, i as int);
                if is_and {
                    assert(decreases_to!(*permission => permission->AnyOf_0));
                    assert(decreases_to!(permission->AnyOf_0 => permission->AnyOf_0@));
                } else {
                    assert(decreases_to!(*permission => permission->AllOf_0));
                    assert(decreases_to!(permission->AllOf_0 => permission->AllOf_0@));
                }
                assert(decreases_to!(values@ => values@[i as int]));
            }
            let first = Self::base(&values[i]);
            let node = if is_and {
                AfbAuthV4::And { first, next }
            } else {
                AfbAuthV4::Or { first, next }
            };
            next = Some(Box::new(node));
            proof {
                let t = values@.take(i + 1);
                assert(t.drop_last() =~= values@.take(i as int));
                assert(t.last() == values@[i as int]);
            }
            i = i + 1;
        }
        assert(values@.take(n as int) =~= values@);
        next
    }

    /// The binder rule of a permission, joined with the rule it inherits.
    pub fn new(permission: &AfbPermission, inherited: Option<Box<AfbAuthV4>>) -> (r: Option<Box<AfbAuthV4>>)
        requires
            perm_ok(*permission),
        ensures
            r == auth_merge(auth_base(*permission), inherited),
    {
        let auth = Self::base(permission);
        if inherited.is_none() {
            auth
        } else if auth.is_none() {
            inherited
        } else {
            Some(Box::new(AfbAuthV4::And { first: auth, next: inherited }))
        }
    }
}

/// What a permission can be made from.
pub trait ToPermission<T>: Sized {
    spec fn from_allowed(value: T) -> bool;

    spec fn permission_of(value: T) -> AfbPermission;

    fn make(value: T) -> (r: AfbPermission)
        requires
            Self::from_allowed(value),
        ensures
            r == Self::permission_of(value),
    ;
}

impl ToPermission<&'static str> for AfbPermission {
    open spec fn from_allowed(value: &'static str) -> bool {
        true
    }

    open spec fn permission_of(value: &'static str) -> AfbPermission {
        AfbPermission::Require(value)
    }

    fn make(value: &'static str) -> (r: AfbPermission) {
        AfbPermission::Require(value)
    }
}

impl ToPermission<&'static AfbPermission> for AfbPermission {
    open spec fn from_allowed(value: &'static AfbPermission) -> bool {
        true
    }

    open spec fn permission_of(value: &'static AfbPermission) -> AfbPermission {
        AfbPermission::Inner(value)
    }

    fn make(value: &'static AfbPermission) -> (r: AfbPermission) {
        AfbPermission::Inner(value)
    }
}

impl ToPermission<i32> for AfbPermission {
    /// A level of assurance is within `-7..=7`.
    open spec fn from_allowed(value: i32) -> bool {
        -7 <= value <= 7
    }

    open spec fn permission_of(value: i32) -> AfbPermission {
        if value != 0 {
            AfbPermission::Loa(value)
        } else {
            AfbPermission::NoAuth()
        }
    }

    fn make(value: i32) -> (r: AfbPermission) {
        if value != 0 {
            AfbPermission::Loa(value)
        } else {
            AfbPermission::NoAuth()
        }
    }
}

impl ToPermission<AfbPermission> for AfbPermission {
    open spec fn from_allowed(value: AfbPermission) -> bool {
        true
    }

    open spec fn permission_of(value: AfbPermission) -> AfbPermission {
        value
    }

    fn make(value: AfbPermission) -> (r: AfbPermission) {
        value
    }
}

impl From<&'static str> for AfbPermission {
    fn from(value: &'static str) -> (r: AfbPermission) {
        AfbPermission::Require(value)
    }
}

impl vstd::std_specs::convert::FromSpecImpl<&'static str> for AfbPermission {
    open spec fn obeys_from_spec() -> bool {
        true
    }

    open spec fn from_spec(v: &'static str) -> AfbPermission {
        AfbPermission::Require(v)
    }
}

impl From<&'static AfbPermission> for AfbPermission {
    fn from(value: &'static AfbPermission) -> (r: AfbPermission) {
        AfbPermission::Inner(value)
    }
}

impl vstd::std_specs::convert::FromSpecImpl<&'static AfbPermission> for AfbPermission {
    open spec fn obeys_from_spec() -> bool {
        true
    }

    open spec fn from_spec(v: &'static AfbPermission) -> AfbPermission {
        AfbPermission::Inner(v)
    }
}

/// Keeps a permission for the rest of the program (`Box::leak`).
#[verifier::external_body]
fn leak_permission(value: AfbPermission) -> (r: &'static mut AfbPermission)
    ensures
        *r == value,
{
    Box::leak(Box::new(value))
}

impl AfbPermission {
    /// A permission made from a name, a level of assurance or another permission.
    pub fn from<T>(value: T) -> (r: AfbPermission)
        where AfbPermission: ToPermission<T>,
        requires
            <AfbPermission as ToPermission<T>>::from_allowed(value),
        ensures
            r == <AfbPermission as ToPermission<T>>::permission_of(value),
    {
        <AfbPermission as ToPermission<T>>::make(value)
    }

    /// A permission kept for the rest of the program.
    pub fn new<T>(permission: T) -> (r: &'static mut AfbPermission)
        where AfbPermission: ToPermission<T>,
        requires
            <AfbPermission as ToPermission<T>>::from_allowed(permission),
        ensures
            *r == <AfbPermission as ToPermission<T>>::permission_of(permission),
    {
        leak_permission(Self::from(permission))
    }
}

} // verus!

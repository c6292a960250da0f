//! An api of a binding: its description, what it requires, and what it
//! declares to the binder when the binder prepares it.

use crate::data::{AFB_FAIL, AFB_OK};
use crate::error::{afb_error_info, error_info_text, AfbError, AfbErrorView};
use crate::jsonc::JsoncObj;
use crate::event::{AfbApiV4, AfbEvent, AfbEventView, AfbEvtHandler};
use crate::permission::{auth_base, auth_merge, perm_ok, AfbAuthV4, AfbPermisionV4, AfbPermission};
use crate::registry::{inherit_verbosity, inherited_verbosity};
use crate::text::{int_text, padded_upper_hex, push_i64, push_str, push_upper_hex4};
use crate::verb::{AfbGroup, AfbVerb, VerbDecl};
use vstd::prelude::*;

verus! {

/// Verbosity of a new api: the syslog number of notices.
pub const DEFAULT_API_VERBOSITY: i32 = 5;

/// An api of a binding.
pub struct AfbApi {
    pub uid: &'static str,
    pub name: &'static str,
    pub info: &'static str,
    pub version: &'static str,
    pub class: &'static str,
    pub permission: &'static AfbPermission,
    pub verbosity: i32,
    pub do_info: bool,
    pub do_ping: bool,
    pub do_seal: bool,
    pub do_concurrency: bool,
    pub verbs: Vec<AfbVerb>,
    pub evthandlers: Vec<AfbEvtHandler>,
    pub events: Vec<AfbEvent>,
    pub groups: Vec<AfbGroup>,
    pub require_apis: Vec<&'static str>,
    pub require_classes: Vec<&'static str>,
    pub apiv4: AfbApiV4,
    /// How many requests and events the api was handed.
    pub count: usize,
}

/// The uid of an event message: the api's uid, then the api's count and
/// the handler's count, each after a `|`, in upper-case hexadecimal on at
/// least four digits.
pub open spec fn event_msg_uid_text(api_uid: Seq<char>, api_count: nat, handler_count: nat) -> Seq<char> {
    api_uid + "|"@ + padded_upper_hex(api_count, 4) + "|"@ + padded_upper_hex(handler_count, 4)
}

/// The text of the error when the binder refuses to create an api.
pub open spec fn create_fail_text(uid: Seq<char>, status: i32) -> Seq<char> {
    "Fail to register api uid="@ + uid + " status="@ + int_text(status as int) + " info="@ + error_info_text(status)
        + " "@
}

impl AfbApi {
    /// A new api named after its uid, answering `info` and `ping`, sealed,
    /// concurrent, with no restriction.
    pub fn new(uid: &'static str) -> (r: AfbApi)
        ensures
            r.uid == uid,
            r.name == uid,
            r.info@ == Seq::<char>::empty(),
            r.version@ == Seq::<char>::empty(),
            r.class@ == Seq::<char>::empty(),
            *r.permission == AfbPermission::NoAuth(),
            r.verbosity == DEFAULT_API_VERBOSITY,
            r.do_info && r.do_ping && r.do_seal && r.do_concurrency,
            r.verbs@.len() == 0,
            r.evthandlers@.len() == 0,
            r.events@.len() == 0,
            r.groups@.len() == 0,
            r.require_apis@.len() == 0,
            r.require_classes@.len() == 0,
            r.apiv4 == 0,
            r.count == 0,
    {
        let empty = "";
        proof {
            reveal_strlit("");
        }
        AfbApi {
            uid,
            name: uid,
            info: empty,
            version: empty,
            class: empty,
            permission: AfbPermission::new(0i32),
            verbosity: DEFAULT_API_VERBOSITY,
            do_info: true,
            do_ping: true,
            do_seal: true,
            do_concurrency: true,
            verbs: Vec::new(),
            evthandlers: Vec::new(),
            events: Vec::new(),
            groups: Vec::new(),
            require_apis: Vec::new(),
            require_classes: Vec::new(),
            apiv4: 0,
            count: 0,
        }
    }

    pub fn set_name(&mut self, value: &'static str) -> (r: &mut Self)
        ensures
            *r == (AfbApi { name: value, ..*old(self) }),
            *final(self) == *final(r),
    {
        self.name = value;
        self
    }

    pub fn set_info(&mut self, value: &'static str) -> (r: &mut Self)
        ensures
            *r == (AfbApi { info: value, ..*old(self) }),
            *final(self) == *final(r),
    {
        self.info = value;
        self
    }

    pub fn set_class(&mut self, value: &'static str) -> (r: &mut Self)
        ensures
            *r == (AfbApi { class: value, ..*old(self) }),
            *final(self) == *final(r),
    {
        self.class = value;
        self
    }

    pub fn add_info_cb(&mut self, value: bool) -> (r: &mut Self)
        ensures
            *r == (AfbApi { do_info: value, ..*old(self) }),
            *final(self) == *final(r),
    {
        self.do_info = value;
        self
    }

    pub fn add_ping_cb(&mut self, value: bool) -> (r: &mut Self)
        ensures
            *r == (AfbApi { do_ping: value, ..*old(self) }),
            *final(self) == *final(r),
    {
        self.do_ping = value;
        self
    }

    pub fn seal(&mut self, value: bool) -> (r: &mut Self)
        ensures
            *r == (AfbApi { do_seal: value, ..*old(self) }),
            *final(self) == *final(r),
    {
        self.do_seal = value;
        self
    }

    pub fn set_version(&mut self, value: &'static str) -> (r: &mut Self)
        ensures
            *r == (AfbApi { version: value, ..*old(self) }),
            *final(self) == *final(r),
    {
        self.version = value;
        self
    }

    pub fn set_permission(&mut self, value: &'static AfbPermission) -> (r: &mut Self)
        ensures
            *r == (AfbApi { permission: value, ..*old(self) }),
            *final(self) == *final(r),
    {
        self.permission = value;
        self
    }

    pub fn set_concurrency(&mut self, value: bool) -> (r: &mut Self)
        ensures
            *r == (AfbApi { do_concurrency: value, ..*old(self) }),
            *final(self) == *final(r),
    {
        self.do_concurrency = value;
        self
    }

    pub fn set_verbosity(&mut self, value: i32) -> (r: &mut Self)
        ensures
            *r == (AfbApi { verbosity: value, ..*old(self) }),
            *final(self) == *final(r),
    {
        self.verbosity = value;
        self
    }

    pub fn get_verbosity(&self) -> (r: i32)
        ensures
            r == self.verbosity,
    {
        self.verbosity
    }

    pub fn add_verb(&mut self, verb: AfbVerb) -> (r: &mut Self)
        ensures
            r.verbs@ == old(self).verbs@.push(verb),
            (AfbApi { verbs: old(self).verbs, ..*r }) == *old(self),
            *final(self) == *final(r),
    {
        self.verbs.push(verb);
        self
    }

    pub fn add_event(&mut self, event: AfbEvent) -> (r: &mut Self)
        ensures
            r.events@ == old(self).events@.push(event),
            (AfbApi { events: old(self).events, ..*r }) == *old(self),
            *final(self) == *final(r),
    {
        self.events.push(event);
        self
    }

    pub fn add_evt_handler(&mut self, handler: AfbEvtHandler) -> (r: &mut Self)
        ensures
            r.evthandlers@ == old(self).evthandlers@.push(handler),
            (AfbApi { evthandlers: old(self).evthandlers, ..*r }) == *old(self),
            *final(self) == *final(r),
    {
        self.evthandlers.push(handler);
        self
    }

    pub fn add_group(&mut self, group: AfbGroup) -> (r: &mut Self)
        ensures
            r.groups@ == old(self).groups@.push(group),
            (AfbApi { groups: old(self).groups, ..*r }) == *old(self),
            *final(self) == *final(r),
    {
        self.groups.push(group);
        self
    }

    /// Requires another api; an empty name is ignored.
    pub fn require_api(&mut self, value: &'static str) -> (r: &mut Self)
        ensures
            r.require_apis@ == if value@.len() == 0 {
                old(self).require_apis@
            } else {
                old(self).require_apis@.push(value)
            },
            (AfbApi { require_apis: old(self).require_apis, ..*r }) == *old(self),
            *final(self) == *final(r),
    {
        if value.unicode_len() > 0 {
            self.require_apis.push(value);
        }
        self
    }

    pub fn require_class(&mut self, value: &'static str) -> (r: &mut Self)
        ensures
            r.require_classes@ == old(self).require_classes@.push(value),
            (AfbApi { require_classes: old(self).require_classes, ..*r }) == *old(self),
            *final(self) == *final(r),
    {
        self.require_classes.push(value);
        self
    }

    /// Records the binder's handle of the api.
    pub fn set_apiv4(&mut self, apiv4: AfbApiV4)
        ensures
            *final(self) == (AfbApi { apiv4, ..*old(self) }),
    {
        self.apiv4 = apiv4;
    }

    pub fn get_uid(&self) -> (r: &'static str)
        ensures
            r == self.uid,
    {
        self.uid
    }

    pub fn get_name(&self) -> (r: &'static str)
        ensures
            r == self.name,
    {
        self.name
    }

    pub fn get_info(&self) -> (r: &'static str)
        ensures
            r == self.info,
    {
        self.info
    }

    pub fn get_version(&self) -> (r: &'static str)
        ensures
            r == self.version,
    {
        self.version
    }

    pub fn get_apiv4(&self) -> (r: AfbApiV4)
        ensures
            r == self.apiv4,
    {
        self.apiv4
    }

    /// Display text of the api: `uid:.. name:.. info:..`.
    pub fn to_display(&self) -> (r: String)
        ensures
            r@ == "uid:"@ + self.uid@ + " name:"@ + self.name@ + " info:"@ + self.info@,
    {
        let mut s = String::new();
        push_str(&mut s, "uid:");
        push_str(&mut s, self.uid);
        push_str(&mut s, " name:");
        push_str(&mut s, self.name);
        push_str(&mut s, " info:");
        push_str(&mut s, self.info);
        assert(s@ =~= "uid:"@ + self.uid@ + " name:"@ + self.name@ + " info:"@ + self.info@);
        s
    }

    /// The concurrency flag the binder creates the api with: 0 when
    /// requests may run concurrently, 1 otherwise.
    pub fn noconcurrency(&self) -> (r: i32)
        ensures
            r == if self.do_concurrency { 0i32 } else { 1i32 },
    {
        if self.do_concurrency {
            0
        } else {
            1
        }
    }

    /// The outcome of the creation of the api, given the status the binder
    /// answered.
    pub fn finalize(&self, status: i32) -> (r: Result<&Self, AfbError>)
        ensures
            status >= 0 ==> r == Ok::<&Self, AfbError>(self),
            status < 0 ==> r is Err && r->Err_0@ == (AfbErrorView {
                uid: self.uid@,
                info: create_fail_text(self.uid@, status),
                status: 0,
            }),
    {
        if status < 0 {
            let mut msg = String::new();
            push_str(&mut msg, "Fail to register api uid=");
            push_str(&mut msg, self.uid);
            push_str(&mut msg, " status=");
            push_i64(&mut msg, status as i64);
            push_str(&mut msg, " info=");
            push_str(&mut msg, afb_error_info(status));
            push_str(&mut msg, " ");
            assert(msg@ =~= create_fail_text(self.uid@, status));
            Err(AfbError::msg_string(self.uid, msg))
        } else {
            Ok(self)
        }
    }

    /// The access rule of the api itself, which its verbs and groups
    /// inherit.
    pub fn api_auth(&self) -> (r: Option<Box<AfbAuthV4>>)
        requires
            perm_ok(*self.permission),
        ensures
            r == auth_base(*self.permission),
    {
        AfbPermisionV4::new(self.permission, None)
    }

    /// Prepares verb `i` of the api for the binder, just before it is
    /// registered: the verb takes the api's verbosity when its own is
    /// lower, and is declared with its rule joined with the api's.
    pub fn prepare_verb(&mut self, i: usize) -> (r: VerbDecl)
        requires
            i < old(self).verbs@.len(),
            perm_ok(*old(self).permission),
            perm_ok(*old(self).verbs@[i as int].permission),
            old(self).verbs@[i as int].verbosity != i32::MIN,
        ensures
            ({
                let v = old(self).verbs@[i as int];
                &&& (AfbApi { verbs: old(self).verbs, ..*final(self) }) == *old(self)
                &&& final(self).verbs@ == old(self).verbs@.update(
                    i as int,
                    AfbVerb { verbosity: inherited_verbosity(old(self).verbosity, v.verbosity), ..v },
                )
                &&& r.name == v.name
                &&& r.info == v.info
                &&& r.auth == auth_merge(auth_base(*v.permission), auth_base(*old(self).permission))
            }),
    {
        let ghost orig = *self;
        let api_auth = self.api_auth();
        let verb = self.verbs.remove(i);
        let verbosity = inherit_verbosity(self.verbosity, verb.verbosity);
        let auth = AfbPermisionV4::new(verb.permission, api_auth);
        let decl = VerbDecl { name: verb.name, info: verb.info, auth };
        self.verbs.insert(i, AfbVerb { verbosity, ..verb });
        proof {
            assert(self.verbs@ =~= orig.verbs@.update(i as int, self.verbs@[i as int]));
        }
        decl
    }

    /// Prepares event handler `i` of the api, just before it is
    /// registered: it takes the api's verbosity when its own is lower.
    pub fn prepare_handler(&mut self, i: usize)
        requires
            i < old(self).evthandlers@.len(),
            old(self).evthandlers@[i as int].verbosity != i32::MIN,
        ensures
            (AfbApi { evthandlers: old(self).evthandlers, ..*final(self) }) == *old(self),
            final(self).evthandlers@ == old(self).evthandlers@.update(
                i as int,
                AfbEvtHandler {
                    verbosity: inherited_verbosity(old(self).verbosity, old(self).evthandlers@[i as int].verbosity),
                    ..old(self).evthandlers@[i as int]
                },
            ),
    {
        let ghost orig = *self;
        let mut handler = self.evthandlers.remove(i);
        handler.inherit_verbosity(self.verbosity);
        self.evthandlers.insert(i, handler);
        proof {
            assert(self.evthandlers@ =~= orig.evthandlers@.update(i as int, self.evthandlers@[i as int]));
        }
    }

    /// A request came in for one of the api's verbs: the api counts it.
    pub fn count_request(&mut self)
        requires
            old(self).count < usize::MAX,
        ensures
            *final(self) == (AfbApi { count: (old(self).count + 1) as usize, ..*old(self) }),
    {
        self.count = self.count + 1;
    }

    /// An event came in for event handler `h`: the api and the handler
    /// count it, and the message handed to the handler gets as uid the
    /// api's uid and the two counts, in upper-case hexadecimal on at least
    /// four digits, each after a `|`.
    pub fn event_msg_uid(&mut self, h: usize) -> (r: String)
        requires
            h < old(self).evthandlers@.len(),
            old(self).count < usize::MAX,
            old(self).evthandlers@[h as int].count < usize::MAX,
        ensures
            (AfbApi { evthandlers: old(self).evthandlers, count: old(self).count, ..*final(self) }) == *old(self),
            final(self).count == old(self).count + 1,
            final(self).evthandlers@ == old(self).evthandlers@.update(
                h as int,
                AfbEvtHandler { count: (old(self).evthandlers@[h as int].count + 1) as usize, ..old(self).evthandlers@[h as int] },
            ),
            r@ == event_msg_uid_text(old(self).uid@, final(self).count as nat, final(self).evthandlers@[h as int].count as nat),
    {
        let ghost orig = *self;
        self.count = self.count + 1;
        let mut handler = self.evthandlers.remove(h);
        handler.count = handler.count + 1;
        let handler_count = handler.count;
        self.evthandlers.insert(h, handler);
        proof {
            assert(self.evthandlers@ =~= orig.evthandlers@.update(h as int, self.evthandlers@[h as int]));
        }
        let mut uid = String::new();
        push_str(&mut uid, self.uid);
        push_str(&mut uid, "|");
        push_upper_hex4(&mut uid, self.count as u64);
        push_str(&mut uid, "|");
        push_upper_hex4(&mut uid, handler_count as u64);
        proof {
            reveal_strlit("|");
            assert(uid@ =~= event_msg_uid_text(orig.uid@, self.count as nat, handler_count as nat));
        }
        uid
    }

    /// Prepares event `i` of the api, just before it is registered: it
    /// takes the api's verbosity when its own is lower.
    pub fn prepare_event(&mut self, i: usize)
        requires
            i < old(self).events@.len(),
            old(self).events@[i as int]@.verbosity != i32::MIN,
        ensures
            (AfbApi { events: old(self).events, ..*final(self) }) == *old(self),
            final(self).events@.len() == old(self).events@.len(),
            forall|k: int| 0 <= k < old(self).events@.len() && k != i ==> final(self).events@[k] == old(self).events@[k],
            final(self).events@[i as int]@ == (AfbEventView {
                verbosity: inherited_verbosity(old(self).verbosity, old(self).events@[i as int]@.verbosity),
                ..old(self).events@[i as int]@
            }),
    {
        let ghost orig = *self;
        let mut event = self.events.remove(i);
        event.inherit_verbosity(self.verbosity);
        self.events.insert(i, event);
        proof {
            assert forall|k: int| 0 <= k < orig.events@.len() && k != i implies self.events@[k] == orig.events@[k] by {
                if k < i {
                } else {
                }
            }
        }
    }

    /// The step of the preparation that comes after `done`, given the
    /// status of the preparation so far: the status `config` gave after
    /// `Config`, what the binder answered the registration with after a
    /// group, a handler, an event, `ping` or `info`. What the binder
    /// answers the required apis and classes and the verbs with is not
    /// looked at: the preparation goes on with the success `config` gave.
    pub fn pre_init_next(&self, done: PreInitStep, status: i32) -> (r: PreInitStep)
        requires
            pre_init_step_ok(*self, done),
        ensures
            r == pre_init_next_spec(*self, done, status),
    {
        match done {
            PreInitStep::Config => if status < 0 {
                PreInitStep::Finished(status)
            } else {
                PreInitStep::RequireApis
            },
            PreInitStep::RequireApis => PreInitStep::RequireClasses,
            PreInitStep::RequireClasses => self.pre_from_verbs(0, AFB_OK),
            PreInitStep::Verb(i) => {
                let n = self.verbs.len();
                assert(i < n);
                self.pre_from_verbs(i + 1, AFB_OK)
            },
            PreInitStep::Group(i) => if status < 0 {
                PreInitStep::Finished(status)
            } else {
                let n = self.groups.len();
                assert(i < n);
                self.pre_from_groups(i + 1, status)
            },
            PreInitStep::Handler(i) => if status < 0 {
                PreInitStep::Finished(status)
            } else {
                let n = self.evthandlers.len();
                assert(i < n);
                self.pre_from_handlers(i + 1, status)
            },
            PreInitStep::Event(i) => if status < 0 {
                PreInitStep::Finished(status)
            } else {
                let n = self.events.len();
                assert(i < n);
                self.pre_from_events(i + 1, status)
            },
            PreInitStep::Ping => if status < 0 {
                PreInitStep::Finished(status)
            } else {
                self.pre_from_info(status)
            },
            PreInitStep::Info => if status < 0 {
                PreInitStep::Finished(status)
            } else {
                self.pre_from_seal(status)
            },
            PreInitStep::Seal => PreInitStep::Finished(status),
            PreInitStep::Finished(_) => PreInitStep::Finished(status),
        }
    }

    fn pre_from_verbs(&self, i: usize, status: i32) -> (r: PreInitStep)
        requires
            i <= self.verbs@.len(),
        ensures
            r == pre_from_verbs_spec(*self, i as int, status),
    {
        if i < self.verbs.len() {
            PreInitStep::Verb(i)
        } else {
            self.pre_from_groups(0, status)
        }
    }

    fn pre_from_groups(&self, i: usize, status: i32) -> (r: PreInitStep)
        requires
            i <= self.groups@.len(),
        ensures
            r == pre_from_groups_spec(*self, i as int, status),
    {
        if i < self.groups.len() {
            PreInitStep::Group(i)
        } else {
            self.pre_from_handlers(0, status)
        }
    }

    fn pre_from_handlers(&self, i: usize, status: i32) -> (r: PreInitStep)
        requires
            i <= self.evthandlers@.len(),
        ensures
            r == pre_from_handlers_spec(*self, i as int, status),
    {
        if i < self.evthandlers.len() {
            PreInitStep::Handler(i)
        } else {
            self.pre_from_events(0, status)
        }
    }

    fn pre_from_events(&self, i: usize, status: i32) -> (r: PreInitStep)
        requires
            i <= self.events@.len(),
        ensures
            r == pre_from_events_spec(*self, i as int, status),
    {
        if i < self.events.len() {
            PreInitStep::Event(i)
        } else {
            self.pre_from_ping(status)
        }
    }

    fn pre_from_ping(&self, status: i32) -> (r: PreInitStep)
        ensures
            r == pre_from_ping_spec(*self, status),
    {
        if self.do_ping {
            PreInitStep::Ping
        } else {
            self.pre_from_info(status)
        }
    }

    fn pre_from_info(&self, status: i32) -> (r: PreInitStep)
        ensures
            r == pre_from_info_spec(*self, status),
    {
        if self.do_info {
            PreInitStep::Info
        } else {
            self.pre_from_seal(status)
        }
    }

    fn pre_from_seal(&self, status: i32) -> (r: PreInitStep)
        ensures
            r == pre_from_seal_spec(*self, status),
    {
        if self.do_seal {
            PreInitStep::Seal
        } else {
            PreInitStep::Finished(status)
        }
    }
}

/// A step of the preparation of an api when the binder asks for it, in
/// this order: the binding's `config` (when it has controls; its status is
/// success or failure), the apis then the classes it requires (a refusal
/// is only logged), its own verbs (what the binder answers is not
/// looked at), its groups, its event handlers, its events, the `ping` and
/// `info` verbs and the sealing, these three only when the api asks for
/// them. A negative status from a group, a handler, an event or the
/// `ping` or `info` verb ends the preparation with that status.
#[derive(Debug, Clone, Copy, PartialEq, Eq, Structural)]
pub enum PreInitStep {
    Config,
    RequireApis,
    RequireClasses,
    Verb(usize),
    Group(usize),
    Handler(usize),
    Event(usize),
    Ping,
    Info,
    Seal,
    /// The preparation is over, with this status.
    Finished(i32),
}

/// The steps from verb `i` on.
pub open spec fn pre_from_verbs_spec(a: AfbApi, i: int, status: i32) -> PreInitStep {
    if i < a.verbs@.len() {
        PreInitStep::Verb(i as usize)
    } else {
        pre_from_groups_spec(a, 0, status)
    }
}

/// The steps from group `i` on.
pub open spec fn pre_from_groups_spec(a: AfbApi, i: int, status: i32) -> PreInitStep {
    if i < a.groups@.len() {
        PreInitStep::Group(i as usize)
    } else {
        pre_from_handlers_spec(a, 0, status)
    }
}

/// The steps from event handler `i` on.
pub open spec fn pre_from_handlers_spec(a: AfbApi, i: int, status: i32) -> PreInitStep {
    if i < a.evthandlers@.len() {
        PreInitStep::Handler(i as usize)
    } else {
        pre_from_events_spec(a, 0, status)
    }
}

/// The steps from event `i` on.
pub open spec fn pre_from_events_spec(a: AfbApi, i: int, status: i32) -> PreInitStep {
    if i < a.events@.len() {
        PreInitStep::Event(i as usize)
    } else {
        pre_from_ping_spec(a, status)
    }
}

/// The steps from the `ping` verb on.
pub open spec fn pre_from_ping_spec(a: AfbApi, status: i32) -> PreInitStep {
    if a.do_ping {
        PreInitStep::Ping
    } else {
        pre_from_info_spec(a, status)
    }
}

/// The steps from the `info` verb on.
pub open spec fn pre_from_info_spec(a: AfbApi, status: i32) -> PreInitStep {
    if a.do_info {
        PreInitStep::Info
    } else {
        pre_from_seal_spec(a, status)
    }
}

/// The sealing, when the api asks for it, then the end.
pub open spec fn pre_from_seal_spec(a: AfbApi, status: i32) -> PreInitStep {
    if a.do_seal {
        PreInitStep::Seal
    } else {
        PreInitStep::Finished(status)
    }
}

/// A step that stands on an item of the api.
pub open spec fn pre_init_step_ok(a: AfbApi, s: PreInitStep) -> bool {
    match s {
        PreInitStep::Verb(i) => i < a.verbs@.len(),
        PreInitStep::Group(i) => i < a.groups@.len(),
        PreInitStep::Handler(i) => i < a.evthandlers@.len(),
        PreInitStep::Event(i) => i < a.events@.len(),
        _ => true,
    }
}

/// The step after `done`, given the status so far. After `config`, a
/// group, a handler, an event, `ping` or `info`, a negative status ends the
/// preparation with that status; otherwise the next step in order comes.
/// After the required apis and classes and after a verb the status is not
/// looked at, and the preparation goes on with success.
pub open spec fn pre_init_next_spec(a: AfbApi, done: PreInitStep, status: i32) -> PreInitStep {
    match done {
        PreInitStep::Config => if status < 0 {
            PreInitStep::Finished(status)
        } else {
            PreInitStep::RequireApis
        },
        PreInitStep::RequireApis => PreInitStep::RequireClasses,
        PreInitStep::RequireClasses => pre_from_verbs_spec(a, 0, AFB_OK),
        PreInitStep::Verb(i) => pre_from_verbs_spec(a, i + 1, AFB_OK),
        PreInitStep::Group(i) => if status < 0 {
            PreInitStep::Finished(status)
        } else {
            pre_from_groups_spec(a, i + 1, status)
        },
        PreInitStep::Handler(i) => if status < 0 {
            PreInitStep::Finished(status)
        } else {
            pre_from_handlers_spec(a, i + 1, status)
        },
        PreInitStep::Event(i) => if status < 0 {
            PreInitStep::Finished(status)
        } else {
            pre_from_events_spec(a, i + 1, status)
        },
        PreInitStep::Ping => if status < 0 {
            PreInitStep::Finished(status)
        } else {
            pre_from_info_spec(a, status)
        },
        PreInitStep::Info => if status < 0 {
            PreInitStep::Finished(status)
        } else {
            pre_from_seal_spec(a, status)
        },
        PreInitStep::Seal => PreInitStep::Finished(status),
        PreInitStep::Finished(_) => PreInitStep::Finished(status),
    }
}

/// What the binder asks an api to do.
#[derive(Debug, Clone, Copy, PartialEq, Eq, Structural)]
pub enum ControlId {
    /// Prepare: declare the verbs, groups and events.
    PreInit,
    /// Start.
    Init,
    /// The classes the api belongs to are ready.
    ClassReady,
    /// An event nobody handles came in.
    OrphanEvent,
    /// The binder exits with this code.
    Exiting(i32),
}

/// What an api does for a control of the binder.
#[derive(Debug, Clone, Copy, PartialEq, Eq, Structural)]
pub enum ControlAction {
    /// Run the preparation, from `PreInitStep::Config`.
    PreInit,
    /// Call the binding's `start`; answer its status (`control_status`).
    Start,
    /// Call the binding's `ready`; answer its status (`control_status`).
    Ready,
    /// Call the binding's `orphan`; answer success.
    Orphan,
    /// Call the binding's `exit` with this code; answer what it returns.
    Exit(i32),
    /// Call nothing; answer this status.
    Reply(i32),
}

/// The action for a control of the binder, given whether the binding has
/// controls: without them every control but the preparation is answered
/// with success and nothing is called.
pub open spec fn control_action_spec(ctlid: ControlId, has_ctrl: bool) -> ControlAction {
    match ctlid {
        ControlId::PreInit => ControlAction::PreInit,
        ControlId::Init => if has_ctrl { ControlAction::Start } else { ControlAction::Reply(AFB_OK) },
        ControlId::ClassReady => if has_ctrl { ControlAction::Ready } else { ControlAction::Reply(AFB_OK) },
        ControlId::OrphanEvent => if has_ctrl { ControlAction::Orphan } else { ControlAction::Reply(AFB_OK) },
        ControlId::Exiting(code) => if has_ctrl { ControlAction::Exit(code) } else { ControlAction::Reply(AFB_OK) },
    }
}

/// Chooses what an api does for a control of the binder.
pub fn control_action(ctlid: ControlId, has_ctrl: bool) -> (r: ControlAction)
    ensures
        r == control_action_spec(ctlid, has_ctrl),
{
    match ctlid {
        ControlId::PreInit => ControlAction::PreInit,
        ControlId::Init => if has_ctrl { ControlAction::Start } else { ControlAction::Reply(AFB_OK) },
        ControlId::ClassReady => if has_ctrl { ControlAction::Ready } else { ControlAction::Reply(AFB_OK) },
        ControlId::OrphanEvent => if has_ctrl { ControlAction::Orphan } else { ControlAction::Reply(AFB_OK) },
        ControlId::Exiting(code) => if has_ctrl { ControlAction::Exit(code) } else { ControlAction::Reply(AFB_OK) },
    }
}

/// The status of the binding's `config` step: none without controls is
/// success.
pub fn config_status(result: Option<Result<(), AfbError>>) -> (r: i32)
    ensures
        r == match result {
            None => AFB_OK,
            Some(Ok(())) => AFB_OK,
            Some(Err(_)) => AFB_FAIL,
        },
{
    match result {
        None => AFB_OK,
        Some(res) => control_status(&res),
    }
}

/// What a binding does when the binder prepares, starts and stops its
/// api; each step succeeds unless the binding says otherwise.
pub trait AfbApiControls {
    fn config(&mut self, api: &AfbApi, config: JsoncObj) -> (r: Result<(), AfbError>)
        default_ensures
            r is Ok,
    {
        Ok(())
    }

    fn start(&mut self, api: &AfbApi) -> (r: Result<(), AfbError>)
        default_ensures
            r is Ok,
    {
        Ok(())
    }

    fn ready(&mut self, api: &AfbApi) -> (r: Result<(), AfbError>)
        default_ensures
            r is Ok,
    {
        Ok(())
    }

    fn orphan(&mut self, api: &AfbApi, signal: &str) {
    }

    fn exit(&mut self, api: &AfbApi, code: i32) -> (r: i32)
        default_ensures
            r == code,
    {
        code
    }
}

/// The status an api answers a control of the binder with: success when
/// the binding's step succeeded, failure otherwise.
pub fn control_status(result: &Result<(), AfbError>) -> (r: i32)
    ensures
        r == if result is Ok {
            AFB_OK
        } else {
            AFB_FAIL
        },
{
    match result {
        Ok(()) => AFB_OK,
        Err(_) => AFB_FAIL,
    }
}

} // verus!

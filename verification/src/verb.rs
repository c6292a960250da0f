//! Verbs and groups of verbs of an api: their descriptions, the names and
//! verbosities they are declared with, and the introspection the api
//! answers its `info` verb with.

use crate::error::{err_view, AfbError};
use crate::event::{AfbEvent, AfbEvtHandler};
use crate::jsonc::{entries_view, items_view, lemma_array_view, lemma_object_view, no_nul, Jentry, JsoncObj, Jval};
use crate::jsonc::to_static_str;
use crate::permission::{auth_base, auth_merge, perm_ok, AfbAuthV4, AfbPermisionV4, AfbPermission};
use crate::registry::{group_verb_name, inherit_verbosity, inherited_verbosity, prefixed_name};
use crate::text::push_str;
use vstd::prelude::*;

verus! {

/// How many items or members a value has, when it is an array or an object.
pub open spec fn countable(v: Jval) -> Option<nat> {
    match v {
        Jval::Array(a) => Some(a.len()),
        Jval::Object(o) => Some(o.len()),
        _ => None,
    }
}

/// An array or an object that holds something.
pub open spec fn has_entries(v: Jval) -> bool {
    match countable(v) {
        Some(n) => n > 0,
        None => false,
    }
}

/// One member when `present`, none otherwise.
pub open spec fn opt_member(present: bool, key: Seq<char>, v: Jval) -> Seq<(Seq<char>, Jval)> {
    if present {
        seq![(key, v)]
    } else {
        Seq::empty()
    }
}

/// An optional text, seen as characters.
pub open spec fn opt_text(t: Option<&'static str>) -> Option<Seq<char>> {
    match t {
        Some(s) => Some(s@),
        None => None,
    }
}

/// The usage a verb describes: its actions and its data when the actions
/// are a list, else its data alone.
pub open spec fn usage_view(actions: Jval, usage: Option<Seq<char>>) -> Option<Jval> {
    match countable(actions) {
        Some(n) => Some(
            Jval::Object(
                opt_member(n > 0, "action"@, actions) + match usage {
                    Some(u) => seq![("data"@, Jval::Str(u))],
                    None => Seq::empty(),
                },
            ),
        ),
        None => match usage {
            Some(u) => Some(Jval::Str(u)),
            None => None,
        },
    }
}

/// A verb and its group share this description scheme.
pub open spec fn verb_info_view(
    uid: Seq<char>,
    name: Seq<char>,
    info: Seq<char>,
    actions: Jval,
    usage: Option<Seq<char>>,
    samples: Jval,
) -> Jval {
    Jval::Object(
        seq![("uid"@, Jval::Str(uid)), ("verb"@, Jval::Str(name)), ("info"@, Jval::Str(info))]
            + match usage_view(actions, usage) {
            Some(u) => seq![("usage"@, u)],
            None => Seq::empty(),
        } + opt_member(has_entries(samples), "sample"@, samples),
    )
}

/// A verb of an api: how it is named and described. What it runs when
/// called is attached by the code that hosts the binding.
pub struct AfbVerb {
    pub uid: &'static str,
    pub name: &'static str,
    pub info: &'static str,
    pub permission: &'static AfbPermission,
    pub verbosity: i32,
    pub usage: Option<&'static str>,
    pub samples: JsoncObj,
    pub actions: JsoncObj,
}

/// The texts of a verb can cross into C strings.
pub open spec fn verb_texts_ok(v: AfbVerb) -> bool {
    &&& no_nul(v.uid@)
    &&& no_nul(v.name@)
    &&& no_nul(v.info@)
    &&& v.usage matches Some(u) ==> no_nul(u@)
}

/// The description of a verb in the api's introspection.
pub open spec fn verb_info_of(v: AfbVerb) -> Jval {
    verb_info_view(v.uid@, v.name@, v.info@, v.actions@, opt_text(v.usage), v.samples@)
}

impl AfbVerb {
    /// A verb named after its uid, with no description, no restriction
    /// and no samples or actions.
    pub fn new(uid: &'static str) -> (r: AfbVerb)
        ensures
            r.uid == uid,
            r.name == uid,
            r.info@ == Seq::<char>::empty(),
            *r.permission == AfbPermission::NoAuth(),
            r.verbosity == 0,
            r.usage is None,
            r.samples@ == Jval::Array(Seq::empty()),
            r.actions@ == Jval::Array(Seq::empty()),
    {
        let info = "";
        proof {
            reveal_strlit("");
        }
        AfbVerb {
            uid,
            name: uid,
            info,
            permission: AfbPermission::new(0i32),
            verbosity: 0,
            usage: None,
            samples: JsoncObj::array(),
            actions: JsoncObj::array(),
        }
    }

    pub fn set_name(&mut self, value: &'static str) -> (r: &mut Self)
        ensures
            *r == (AfbVerb { name: value, ..*old(self) }),
            *final(self) == *final(r),
    {
        self.name = value;
        self
    }

    pub fn set_info(&mut self, value: &'static str) -> (r: &mut Self)
        ensures
            *r == (AfbVerb { info: value, ..*old(self) }),
            *final(self) == *final(r),
    {
        self.info = value;
        self
    }

    pub fn set_permission(&mut self, value: &'static AfbPermission) -> (r: &mut Self)
        ensures
            *r == (AfbVerb { permission: value, ..*old(self) }),
            *final(self) == *final(r),
    {
        self.permission = value;
        self
    }

    pub fn set_usage(&mut self, value: &'static str) -> (r: &mut Self)
        ensures
            *r == (AfbVerb { usage: Some(value), ..*old(self) }),
            *final(self) == *final(r),
    {
        self.usage = Some(value);
        self
    }

    pub fn set_verbosity(&mut self, value: i32) -> (r: &mut Self)
        ensures
            *r == (AfbVerb { verbosity: value, ..*old(self) }),
            *final(self) == *final(r),
    {
        self.verbosity = value;
        self
    }

    pub fn get_verbosity(&self) -> (r: i32)
        ensures
            r == self.verbosity,
    {
        self.verbosity
    }

    /// Adds a sample of the verb's input, given the JSON text and what
    /// reading it gave.
    pub fn set_sample(&mut self, value: &'static str, parsed: Result<JsoncObj, AfbError>)
        -> (r: Result<&mut Self, AfbError>)
        requires
            old(self).samples@ is Array,
        ensures
            match parsed {
                Err(_) => r is Err && r->Err_0@ == err_view("jsonc-parsing-error"@, value@)
                    && *final(self) == *old(self),
                Ok(j) => r matches Ok(v) && (AfbVerb { samples: old(self).samples, ..*v }) == *old(self)
                    && v.samples@ == Jval::Array(old(self).samples@->Array_0.push(j@))
                    && *final(self) == *final(v),
            },
    {
        match parsed {
            Err(_error) => Err(AfbError::msg("jsonc-parsing-error", value)),
            Ok(jvalue) => {
                match self.samples.append(jvalue) {
                    Ok(()) => {},
                    Err(_) => {
                        assert(false);
                    },
                }
                Ok(self)
            },
        }
    }

    /// Sets the actions of the verb from what reading their JSON text gave;
    /// they must form an array.
    pub fn set_action(&mut self, parsed: Result<JsoncObj, AfbError>) -> (r: Result<&mut Self, AfbError>)
        ensures
            match parsed {
                Err(e) => r matches Err(x) && x@ == e@ && *final(self) == *old(self),
                Ok(j) => if j@ is Array {
                    r matches Ok(v) && *v == (AfbVerb { actions: j, ..*old(self) }) && *final(self) == *final(v)
                } else {
                    r is Err && r->Err_0@ == err_view("verb-set-action"@, "not a valid json array"@)
                        && *final(self) == *old(self)
                },
            },
    {
        match parsed {
            Err(error) => Err(error),
            Ok(jvalue) => {
                if jvalue.is_type(crate::jsonc::Jtype::Array) {
                    self.actions = jvalue;
                    Ok(self)
                } else {
                    Err(AfbError::msg("verb-set-action", "not a valid json array"))
                }
            },
        }
    }

    pub fn finalize(&mut self) -> (r: Result<&mut Self, AfbError>)
        ensures
            r matches Ok(v) && *v == *old(self) && *final(self) == *final(v),
    {
        Ok(self)
    }

    pub fn get_uid(&self) -> (r: &'static str)
        ensures
            r == self.uid,
    {
        self.uid
    }

    pub fn get_name(&self) -> (r: &'static str)
        ensures
            r == self.name,
    {
        self.name
    }

    pub fn get_info(&self) -> (r: &'static str)
        ensures
            r == self.info,
    {
        self.info
    }

    pub fn get_usage(&self) -> (r: Option<&'static str>)
        ensures
            r == self.usage,
    {
        self.usage
    }

    pub fn get_samples(&self) -> (r: JsoncObj)
        ensures
            r@ == self.samples@,
    {
        self.samples.clone()
    }

    pub fn get_action(&self) -> (r: JsoncObj)
        ensures
            r@ == self.actions@,
    {
        self.actions.clone()
    }

    /// Display text of the verb: `uid:.. name:.. info:..`.
    pub fn to_display(&self) -> (r: String)
        ensures
            r@ == "uid:"@ + self.uid@ + " name:"@ + self.name@ + " info:"@ + self.info@,
    {
        let mut s = String::new();
        push_str(&mut s, "uid:");
        push_str(&mut s, self.uid);
        push_str(&mut s, " name:");
        push_str(&mut s, self.name);
        push_str(&mut s, " info:");
        push_str(&mut s, self.info);
        assert(s@ =~= "uid:"@ + self.uid@ + " name:"@ + self.name@ + " info:"@ + self.info@);
        s
    }

    /// The description of the verb in the api's introspection.
    pub fn info_object(&self) -> (r: JsoncObj)
        requires
            verb_texts_ok(*self),
        ensures
            r@ == verb_info_of(*self),
    {
        broadcast use {lemma_array_view, lemma_object_view};
        let ghost base = seq![
            ("uid"@, Jval::Str(self.uid@)),
            ("verb"@, Jval::Str(self.name@)),
            ("info"@, Jval::Str(self.info@)),
        ];
        let ghost up = match usage_view(self.actions@, opt_text(self.usage)) {
            Some(u) => seq![("usage"@, u)],
            None => Seq::empty(),
        };
        let ghost sp = opt_member(has_entries(self.samples@), "sample"@, self.samples@);
        let mut members: Vec<Jentry> = Vec::new();
        members.push(Jentry { key: "uid".to_owned(), obj: JsoncObj::Str(self.uid.to_owned()) });
        members.push(Jentry { key: "verb".to_owned(), obj: JsoncObj::Str(self.name.to_owned()) });
        members.push(Jentry { key: "info".to_owned(), obj: JsoncObj::Str(self.info.to_owned()) });
        assert(entries_view(members@) =~= base);
        let counted = match &self.actions {
            JsoncObj::Array(v) => Some(v.len()),
            JsoncObj::Object(v) => Some(v.len()),
            _ => None,
        };
        assert(match counted {
            Some(c) => countable(self.actions@) == Some(c as nat),
            None => countable(self.actions@) is None,
        });
        match counted {
            Some(count) => {
                let mut usages: Vec<Jentry> = Vec::new();
                if count > 0 {
                    usages.push(Jentry { key: "action".to_owned(), obj: self.actions.clone() });
                }
                let ghost first = entries_view(usages@);
                assert(first =~= opt_member(count > 0, "action"@, self.actions@));
                match self.usage {
                    Some(u) => {
                        usages.push(Jentry { key: "data".to_owned(), obj: JsoncObj::Str(u.to_owned()) });
                        assert(entries_view(usages@) =~= first + seq![("data"@, Jval::Str(u@))]);
                    },
                    None => {
                        assert(entries_view(usages@) =~= first + Seq::<(Seq<char>, Jval)>::empty());
                    },
                }
                let uobj = JsoncObj::Object(usages);
                assert(Some(uobj@) == usage_view(self.actions@, opt_text(self.usage)));
                let ghost before = entries_view(members@);
                members.push(Jentry { key: "usage".to_owned(), obj: uobj });
                assert(entries_view(members@) =~= before.push(("usage"@, uobj@)));
            },
            None => {
                match self.usage {
                    Some(u) => {
                        let ghost before = entries_view(members@);
                        members.push(Jentry { key: "usage".to_owned(), obj: JsoncObj::Str(u.to_owned()) });
                        assert(entries_view(members@) =~= before.push(("usage"@, Jval::Str(u@))));
                    },
                    None => {},
                }
            },
        }
        assert(entries_view(members@) =~= base + up);
        let sampled = match &self.samples {
            JsoncObj::Array(v) => v.len() > 0,
            JsoncObj::Object(v) => v.len() > 0,
            _ => false,
        };
        assert(sampled == has_entries(self.samples@));
        if sampled {
            let ghost before = entries_view(members@);
            members.push(Jentry { key: "sample".to_owned(), obj: self.samples.clone() });
            assert(entries_view(members@) =~= before.push(("sample"@, self.samples@)));
        }
        assert(entries_view(members@) =~= base + up + sp);
        JsoncObj::Object(members)
    }
}

/// The description of a group of verbs: its name and text when it has
/// them, then its verbs.
pub open spec fn group_info_view(uid: Seq<char>, info: Seq<char>, verbs: Seq<AfbVerb>) -> Jval {
    Jval::Object(
        opt_member(uid.len() > 0, "uid"@, Jval::Str(uid)) + opt_member(info.len() > 0, "info"@, Jval::Str(info))
            + seq![("verbs"@, Jval::Array(Seq::new(verbs.len(), |i: int| verb_info_of(verbs[i]))))],
    )
}

/// The description of a group of verbs in the api's introspection.
pub fn verbs_info(uid: &str, info: &str, verbs: &Vec<AfbVerb>) -> (r: JsoncObj)
    requires
        no_nul(uid@),
        no_nul(info@),
        forall|i: int| 0 <= i < verbs@.len() ==> verb_texts_ok(#[trigger] verbs@[i]),
    ensures
        r@ == group_info_view(uid@, info@, verbs@),
{
    broadcast use {lemma_array_view, lemma_object_view};
    let mut members: Vec<Jentry> = Vec::new();
    if uid.unicode_len() > 0 {
        members.push(Jentry { key: "uid".to_owned(), obj: JsoncObj::Str(uid.to_owned()) });
    }
    let ghost first = entries_view(members@);
    assert(first =~= opt_member(uid@.len() > 0, "uid"@, Jval::Str(uid@)));
    if info.unicode_len() > 0 {
        members.push(Jentry { key: "info".to_owned(), obj: JsoncObj::Str(info.to_owned()) });
    }
    let ghost second = entries_view(members@);
    assert(second =~= first + opt_member(info@.len() > 0, "info"@, Jval::Str(info@)));
    let mut items: Vec<JsoncObj> = Vec::new();
    let n = verbs.len();
    let mut i: usize = 0;
    while i < n
        invariant
            n == verbs@.len(),
            i <= n,
            forall|k: int| 0 <= k < verbs@.len() ==> verb_texts_ok(#[trigger] verbs@[k]),
            items@.len() == i,
            forall|k: int| 0 <= k < i ==> #[trigger] items@[k]@ == verb_info_of(verbs@[k]),
        decreases n - i,
    {
        let ghost gi = i as int;
        assert(verb_texts_ok(verbs@[gi]));
        items.push(verbs[i].info_object());
        i = i + 1;
    }
    let jverbs = JsoncObj::Array(items);
    assert(items_view(items@) =~= Seq::new(verbs@.len(), |k: int| verb_info_of(verbs@[k])));
    assert(jverbs@ == Jval::Array(Seq::new(verbs@.len(), |k: int| verb_info_of(verbs@[k]))));
    members.push(Jentry { key: "verbs".to_owned(), obj: jverbs });
    assert(entries_view(members@) =~= second.push(("verbs"@, jverbs@)));
    assert(entries_view(members@) =~= group_info_view(uid@, info@, verbs@)->Object_0);
    JsoncObj::Object(members)
}

/// What the binder is handed to declare one verb.
pub struct VerbDecl {
    pub name: &'static str,
    pub info: &'static str,
    pub auth: Option<Box<AfbAuthV4>>,
}

/// A copy of an access rule.
pub fn copy_auth(a: &Option<Box<AfbAuthV4>>) -> (r: Option<Box<AfbAuthV4>>)
    ensures
        r == *a,
    decreases a,
{
    match a {
        None => None,
        Some(node) => {
            let copy = match &**node {
                AfbAuthV4::Loa(v) => AfbAuthV4::Loa(*v),
                AfbAuthV4::Permission(t) => AfbAuthV4::Permission(*t),
                AfbAuthV4::And { first, next } => {
                    assert(decreases_to!(*a => a->Some_0));
                    AfbAuthV4::And { first: copy_auth(first), next: copy_auth(next) }
                },
                AfbAuthV4::Or { first, next } => {
                    assert(decreases_to!(*a => a->Some_0));
                    AfbAuthV4::Or { first: copy_auth(first), next: copy_auth(next) }
                },
            };
            Some(Box::new(copy))
        },
    }
}

/// A group of verbs and events, declared together under a common prefix,
/// verbosity and permission.
pub struct AfbGroup {
    pub uid: &'static str,
    pub prefix: &'static str,
    pub info: &'static str,
    pub permission: &'static AfbPermission,
    pub verbosity: i32,
    pub separator: &'static str,
    pub verbs: Vec<AfbVerb>,
    pub evthandlers: Vec<AfbEvtHandler>,
    pub events: Vec<AfbEvent>,
}

/// A verb as a group declares it: its name prefixed, its verbosity
/// inherited from the group.
pub open spec fn declared_verb(g: AfbGroup, v: AfbVerb, name: &'static str) -> AfbVerb {
    AfbVerb { name, verbosity: inherited_verbosity(g.verbosity, v.verbosity), ..v }
}

impl AfbGroup {
    /// An empty group, with no prefix, `/` as separator and no restriction.
    pub fn new(uid: &'static str) -> (r: AfbGroup)
        ensures
            r.uid == uid,
            r.info@ == Seq::<char>::empty(),
            r.prefix@ == Seq::<char>::empty(),
            r.separator@ == seq!['/'],
            r.verbosity == 0,
            *r.permission == AfbPermission::NoAuth(),
            r.verbs@.len() == 0,
            r.evthandlers@.len() == 0,
            r.events@.len() == 0,
    {
        let empty = "";
        let slash = "/";
        proof {
            reveal_strlit("");
            reveal_strlit("/");
        }
        AfbGroup {
            uid,
            prefix: empty,
            info: empty,
            permission: AfbPermission::new(0i32),
            verbosity: 0,
            separator: slash,
            verbs: Vec::new(),
            evthandlers: Vec::new(),
            events: Vec::new(),
        }
    }

    pub fn set_prefix(&mut self, value: &'static str) -> (r: &mut Self)
        ensures
            *r == (AfbGroup { prefix: value, ..*old(self) }),
            *final(self) == *final(r),
    {
        self.prefix = value;
        self
    }

    pub fn set_permission(&mut self, value: &'static AfbPermission) -> (r: &mut Self)
        ensures
            *r == (AfbGroup { permission: value, ..*old(self) }),
            *final(self) == *final(r),
    {
        self.permission = value;
        self
    }

    pub fn set_info(&mut self, value: &'static str) -> (r: &mut Self)
        ensures
            *r == (AfbGroup { info: value, ..*old(self) }),
            *final(self) == *final(r),
    {
        self.info = value;
        self
    }

    pub fn set_separator(&mut self, value: &'static str) -> (r: &mut Self)
        ensures
            *r == (AfbGroup { separator: value, ..*old(self) }),
            *final(self) == *final(r),
    {
        self.separator = value;
        self
    }

    pub fn set_verbosity(&mut self, value: i32) -> (r: &mut Self)
        ensures
            *r == (AfbGroup { verbosity: value, ..*old(self) }),
            *final(self) == *final(r),
    {
        self.verbosity = value;
        self
    }

    pub fn add_verb(&mut self, verb: AfbVerb) -> (r: &mut Self)
        ensures
            r.verbs@ == old(self).verbs@.push(verb),
            (AfbGroup { verbs: old(self).verbs, ..*r }) == *old(self),
            *final(self) == *final(r),
    {
        self.verbs.push(verb);
        self
    }

    pub fn add_event(&mut self, event: AfbEvent) -> (r: &mut Self)
        ensures
            r.events@ == old(self).events@.push(event),
            (AfbGroup { events: old(self).events, ..*r }) == *old(self),
            *final(self) == *final(r),
    {
        self.events.push(event);
        self
    }

    pub fn add_evt_handler(&mut self, handler: AfbEvtHandler) -> (r: &mut Self)
        ensures
            r.evthandlers@ == old(self).evthandlers@.push(handler),
            (AfbGroup { evthandlers: old(self).evthandlers, ..*r }) == *old(self),
            *final(self) == *final(r),
    {
        self.evthandlers.push(handler);
        self
    }

    pub fn finalize(&mut self) -> (r: Result<&mut Self, AfbError>)
        ensures
            r matches Ok(g) && *g == *old(self) && *final(self) == *final(g),
    {
        Ok(self)
    }

    pub fn get_uid(&self) -> (r: &'static str)
        ensures
            r == self.uid,
    {
        self.uid
    }

    /// The description of the group in the api's introspection.
    pub fn info_object(&self) -> (r: JsoncObj)
        requires
            no_nul(self.uid@),
            no_nul(self.info@),
            forall|i: int| 0 <= i < self.verbs@.len() ==> verb_texts_ok(#[trigger] self.verbs@[i]),
        ensures
            r@ == group_info_view(self.uid@, self.info@, self.verbs@),
    {
        verbs_info(self.uid, self.info, &self.verbs)
    }

    /// Prepares verb `i` of the group for the binder, under the rule the
    /// group inherits, just before it is registered: the verb takes the
    /// group's verbosity when its own is lower and, when the group has a
    /// prefix, the name `prefix` + `separator` + `name`; it is declared with
    /// its own rule joined with the group's, itself joined with the
    /// inherited one. The other verbs are left as they are.
    pub fn declare_verb(&mut self, i: usize, inherited: &Option<Box<AfbAuthV4>>) -> (r: VerbDecl)
        requires
            i < old(self).verbs@.len(),
            perm_ok(*old(self).permission),
            perm_ok(*old(self).verbs@[i as int].permission),
            old(self).verbs@[i as int].verbosity != i32::MIN,
        ensures
            ({
                let v = old(self).verbs@[i as int];
                let w = final(self).verbs@[i as int];
                &&& (AfbGroup { verbs: old(self).verbs, ..*final(self) }) == *old(self)
                &&& final(self).verbs@ == old(self).verbs@.update(i as int, w)
                &&& w == declared_verb(*old(self), v, w.name)
                &&& w.name@ == prefixed_name(old(self).prefix@, old(self).separator@, v.name@)
                &&& r.name == w.name
                &&& r.info == v.info
                &&& r.auth == auth_merge(
                    auth_base(*v.permission),
                    auth_merge(auth_base(*old(self).permission), *inherited),
                )
            }),
    {
        let ghost orig = *self;
        let verb = self.verbs.remove(i);
        let verbosity = inherit_verbosity(self.verbosity, verb.verbosity);
        let name = if self.prefix.unicode_len() > 0 {
            to_static_str(group_verb_name(self.prefix, self.separator, verb.name))
        } else {
            verb.name
        };
        let group_auth = AfbPermisionV4::new(self.permission, copy_auth(inherited));
        let auth = AfbPermisionV4::new(verb.permission, group_auth);
        let info = verb.info;
        self.verbs.insert(i, AfbVerb { name, verbosity, ..verb });
        proof {
            assert(self.verbs@ =~= orig.verbs@.update(i as int, self.verbs@[i as int]));
        }
        VerbDecl { name, info, auth }
    }

    /// The first step of the group's registration.
    pub fn first_step(&self) -> (r: GroupStep)
        ensures
            r == group_from_verbs(*self, 0, 0),
    {
        self.steps_from_verbs(0, 0)
    }

    /// The step after `done` of the group's registration, given the status
    /// of the registration so far.
    pub fn next_step(&self, done: GroupStep, status: i32) -> (r: GroupStep)
        requires
            group_step_ok(*self, done),
        ensures
            r == group_next_spec(*self, done, status),
    {
        if status < 0 {
            return GroupStep::Finished(status);
        }
        match done {
            GroupStep::Verb(i) => {
                let n = self.verbs.len();
                assert(i < n);
                self.steps_from_verbs(i + 1, status)
            },
            GroupStep::Handler(i) => {
                let n = self.evthandlers.len();
                assert(i < n);
                self.steps_from_handlers(i + 1, status)
            },
            GroupStep::Event(i) => {
                let n = self.events.len();
                assert(i < n);
                self.steps_from_events(i + 1, status)
            },
            GroupStep::Finished(_) => GroupStep::Finished(status),
        }
    }

    fn steps_from_verbs(&self, i: usize, status: i32) -> (r: GroupStep)
        requires
            i <= self.verbs@.len(),
        ensures
            r == group_from_verbs(*self, i as int, status),
    {
        if i < self.verbs.len() {
            GroupStep::Verb(i)
        } else {
            self.steps_from_handlers(0, status)
        }
    }

    fn steps_from_handlers(&self, i: usize, status: i32) -> (r: GroupStep)
        requires
            i <= self.evthandlers@.len(),
        ensures
            r == group_from_handlers(*self, i as int, status),
    {
        if i < self.evthandlers.len() {
            GroupStep::Handler(i)
        } else {
            self.steps_from_events(0, status)
        }
    }

    fn steps_from_events(&self, i: usize, status: i32) -> (r: GroupStep)
        requires
            i <= self.events@.len(),
        ensures
            r == group_from_events(*self, i as int, status),
    {
        if i < self.events.len() {
            GroupStep::Event(i)
        } else {
            GroupStep::Finished(status)
        }
    }
}

/// A step of the registration of a group: its verbs, then its event
/// handlers, then its events, each registered with the binder in turn;
/// the first negative status ends it.
#[derive(Debug, Clone, Copy, PartialEq, Eq, Structural)]
pub enum GroupStep {
    Verb(usize),
    Handler(usize),
    Event(usize),
    /// The registration is over, with this status.
    Finished(i32),
}

/// The steps from verb `i` on.
pub open spec fn group_from_verbs(g: AfbGroup, i: int, status: i32) -> GroupStep {
    if i < g.verbs@.len() {
        GroupStep::Verb(i as usize)
    } else {
        group_from_handlers(g, 0, status)
    }
}

/// The steps from event handler `i` on.
pub open spec fn group_from_handlers(g: AfbGroup, i: int, status: i32) -> GroupStep {
    if i < g.evthandlers@.len() {
        GroupStep::Handler(i as usize)
    } else {
        group_from_events(g, 0, status)
    }
}

/// The steps from event `i` on.
pub open spec fn group_from_events(g: AfbGroup, i: int, status: i32) -> GroupStep {
    if i < g.events@.len() {
        GroupStep::Event(i as usize)
    } else {
        GroupStep::Finished(status)
    }
}

/// A step that stands on an item of the group.
pub open spec fn group_step_ok(g: AfbGroup, s: GroupStep) -> bool {
    match s {
        GroupStep::Verb(i) => i < g.verbs@.len(),
        GroupStep::Handler(i) => i < g.evthandlers@.len(),
        GroupStep::Event(i) => i < g.events@.len(),
        GroupStep::Finished(_) => true,
    }
}

/// The step after `done`, given the status so far: a negative status ends
/// the registration with that status.
pub open spec fn group_next_spec(g: AfbGroup, done: GroupStep, status: i32) -> GroupStep {
    if status < 0 {
        GroupStep::Finished(status)
    } else {
        match done {
            GroupStep::Verb(i) => group_from_verbs(g, i + 1, status),
            GroupStep::Handler(i) => group_from_handlers(g, i + 1, status),
            GroupStep::Event(i) => group_from_events(g, i + 1, status),
            GroupStep::Finished(_) => GroupStep::Finished(status),
        }
    }
}

/// The reply of the api's `ping` verb, the count of pings answered so far.
pub fn ping_reply(count: u32) -> (r: JsoncObj)
    ensures
        r@ == Jval::Object(seq![("pong"@, Jval::Int(count as i64))]),
{
    broadcast use lemma_object_view;
    let mut members: Vec<Jentry> = Vec::new();
    members.push(Jentry { key: "pong".to_owned(), obj: JsoncObj::Int(count as i64) });
    assert(entries_view(members@) =~= seq![("pong"@, Jval::Int(count as i64))]);
    JsoncObj::Object(members)
}

/// The introspection an api answers its `info` verb with: its metadata,
/// then its own verbs and each of its groups.
pub open spec fn api_info_view(
    uid: Seq<char>,
    info: Seq<char>,
    version: Seq<char>,
    verbs: Seq<AfbVerb>,
    groups: Seq<AfbGroup>,
) -> Jval {
    Jval::Object(
        seq![
            ("metadata"@, Jval::Object(seq![("uid"@, Jval::Str(uid)), ("info"@, Jval::Str(info)), ("version"@, Jval::Str(version))])),
            ("groups"@, Jval::Array(
                seq![group_info_view(Seq::empty(), Seq::empty(), verbs)]
                    + Seq::new(groups.len(), |i: int| group_info_view(groups[i].uid@, groups[i].info@, groups[i].verbs@)),
            )),
        ],
    )
}

/// Builds the introspection of an api from its metadata, verbs and groups.
pub fn api_info(uid: &str, info: &str, version: &str, verbs: &Vec<AfbVerb>, groups: &Vec<AfbGroup>) -> (r: JsoncObj)
    requires
        no_nul(uid@),
        no_nul(info@),
        no_nul(version@),
        forall|i: int| 0 <= i < verbs@.len() ==> verb_texts_ok(#[trigger] verbs@[i]),
        forall|j: int| 0 <= j < groups@.len() ==> {
            let g = #[trigger] groups@[j];
            &&& no_nul(g.uid@)
            &&& no_nul(g.info@)
            &&& forall|i: int| 0 <= i < g.verbs@.len() ==> verb_texts_ok(#[trigger] g.verbs@[i])
        },
    ensures
        r@ == api_info_view(uid@, info@, version@, verbs@, groups@),
{
    broadcast use {lemma_array_view, lemma_object_view};
    let mut meta: Vec<Jentry> = Vec::new();
    meta.push(Jentry { key: "uid".to_owned(), obj: JsoncObj::Str(uid.to_owned()) });
    meta.push(Jentry { key: "info".to_owned(), obj: JsoncObj::Str(info.to_owned()) });
    meta.push(Jentry { key: "version".to_owned(), obj: JsoncObj::Str(version.to_owned()) });
    let jmeta = JsoncObj::Object(meta);
    assert(entries_view(meta@) =~= seq![("uid"@, Jval::Str(uid@)), ("info"@, Jval::Str(info@)), ("version"@, Jval::Str(version@))]);
    let mut jgroups: Vec<JsoncObj> = Vec::new();
    let empty = "";
    proof {
        reveal_strlit("");
    }
    jgroups.push(verbs_info(empty, empty, verbs));
    let n = groups.len();
    let mut j: usize = 0;
    while j < n
        invariant
            n == groups@.len(),
            j <= n,
            forall|k: int| 0 <= k < groups@.len() ==> {
                let g = #[trigger] groups@[k];
                &&& no_nul(g.uid@)
                &&& no_nul(g.info@)
                &&& forall|i: int| 0 <= i < g.verbs@.len() ==> verb_texts_ok(#[trigger] g.verbs@[i])
            },
            jgroups@.len() == j + 1,
            jgroups@[0]@ == group_info_view(Seq::empty(), Seq::empty(), verbs@),
            forall|k: int| 1 <= k <= j ==> #[trigger] jgroups@[k]@ == group_info_view(groups@[k - 1].uid@, groups@[k - 1].info@, groups@[k - 1].verbs@),
        decreases n - j,
    {
        let ghost gj = j as int;
        assert(no_nul(groups@[gj].uid@));
        jgroups.push(groups[j].info_object());
        j = j + 1;
    }
    let ghost want = seq![group_info_view(Seq::empty(), Seq::empty(), verbs@)]
        + Seq::new(groups@.len(), |i: int| group_info_view(groups@[i].uid@, groups@[i].info@, groups@[i].verbs@));
    assert forall|k: int| 0 <= k < jgroups@.len() implies #[trigger] items_view(jgroups@)[k] == want[k] by {
        if k > 0 {
            assert(jgroups@[k]@ == group_info_view(groups@[k - 1].uid@, groups@[k - 1].info@, groups@[k - 1].verbs@));
        }
    }
    assert(items_view(jgroups@) =~= want);
    let jg = JsoncObj::Array(jgroups);
    let mut top: Vec<Jentry> = Vec::new();
    top.push(Jentry { key: "metadata".to_owned(), obj: jmeta });
    top.push(Jentry { key: "groups".to_owned(), obj: jg });
    assert(entries_view(top@) =~= api_info_view(uid@, info@, version@, verbs@, groups@)->Object_0);
    JsoncObj::Object(top)
}

} // verus!

//! Events an api declares, registers with the binder and pushes to the
//! sessions that subscribed to them.
//!
//! The binder's own calls (creating the event, subscribing a request,
//! pushing data) are made by the code that hosts the binding; what they
//! return is handed to the functions here, which keep the event's state
//! and decide the outcome.

use crate::error::{err_view, AfbError};
use crate::registry::{inherit_verbosity, inherited_verbosity};
use vstd::prelude::*;

verus! {

/// Handle of an api inside the binder (0 stands for none).
pub type AfbApiV4 = usize;

/// Handle of an event inside the binder (0 stands for none).
pub type AfbEvtV4 = usize;

/// How an event learns the handle of the api it belongs to.
pub trait GetApiV4<T>: Sized {
    spec fn apiv4_of(api: T) -> AfbApiV4;

    fn set_apiv4(api: T) -> (r: AfbApiV4)
        ensures
            r == Self::apiv4_of(api),
    ;
}

/// The fields of an event.
pub ghost struct AfbEventView {
    pub uid: Seq<char>,
    pub evtv4: AfbEvtV4,
    pub apiv4: AfbApiV4,
    pub verbosity: i32,
}

/// An event of an api; it has to be registered before it is used.
pub struct AfbEvent {
    uid: &'static str,
    evtv4: AfbEvtV4,
    apiv4: AfbApiV4,
    verbosity: i32,
}

impl View for AfbEvent {
    type V = AfbEventView;

    closed spec fn view(&self) -> AfbEventView {
        AfbEventView { uid: self.uid@, evtv4: self.evtv4, apiv4: self.apiv4, verbosity: self.verbosity }
    }
}

impl GetApiV4<AfbApiV4> for AfbEvent {
    open spec fn apiv4_of(api: AfbApiV4) -> AfbApiV4 {
        api
    }

    fn set_apiv4(api: AfbApiV4) -> (r: AfbApiV4) {
        api
    }
}

impl AfbEvent {
    /// A new event, not registered yet.
    pub fn new(uid: &'static str) -> (r: AfbEvent)
        ensures
            r@ == (AfbEventView { uid: uid@, evtv4: 0, apiv4: 0, verbosity: 0 }),
    {
        AfbEvent { uid, evtv4: 0, apiv4: 0, verbosity: 0 }
    }

    pub fn get_verbosity(&self) -> (r: i32)
        ensures
            r == self@.verbosity,
    {
        self.verbosity
    }

    pub fn get_uid(&self) -> (r: &'static str)
        ensures
            r@ == self@.uid,
    {
        self.uid
    }

    pub fn finalize(&self) -> (r: Result<&Self, AfbError>)
        ensures
            r == Ok::<&Self, AfbError>(self),
    {
        Ok(self)
    }

    pub fn get_apiv4(&self) -> (r: AfbApiV4)
        ensures
            r == self@.apiv4,
    {
        self.apiv4
    }

    /// The event has a handle in the binder.
    pub fn is_registered(&self) -> (r: bool)
        ensures
            r == (self@.evtv4 != 0),
    {
        self.evtv4 != 0
    }

    /// Takes the api's verbosity when the event's own is lower; a negative
    /// verbosity is the event's own and is kept, made positive.
    pub fn inherit_verbosity(&mut self, api_verbosity: i32)
        requires
            old(self)@.verbosity != i32::MIN,
        ensures
            final(self)@ == (AfbEventView {
                verbosity: inherited_verbosity(api_verbosity, old(self)@.verbosity),
                ..old(self)@
            }),
    {
        self.verbosity = inherit_verbosity(api_verbosity, self.verbosity);
    }

    /// Records the registration of the event under `api`: the binder gave
    /// it the handle `evtv4` and answered `status`, which is returned.
    pub fn register<T>(&mut self, api: T, evtv4: AfbEvtV4, status: i32) -> (r: i32)
        where
            AfbEvent: GetApiV4<T>,
        ensures
            r == status,
            final(self)@ == (AfbEventView {
                evtv4,
                apiv4: <AfbEvent as GetApiV4<T>>::apiv4_of(api),
                ..old(self)@
            }),
    {
        let apiv4 = <AfbEvent as GetApiV4<T>>::set_apiv4(api);
        self.evtv4 = evtv4;
        self.apiv4 = apiv4;
        status
    }

    /// Refuses an event that was never registered.
    pub fn check_registered(&self) -> (r: Result<&Self, AfbError>)
        ensures
            self@.evtv4 != 0 ==> r == Ok::<&Self, AfbError>(self),
            self@.evtv4 == 0 ==> r is Err && r->Err_0@ == err_view(self@.uid, "should register before usage"@),
    {
        if self.evtv4 == 0 {
            Err(AfbError::msg(self.uid, "should register before usage"))
        } else {
            Ok(self)
        }
    }

    /// The status of a push of data to the subscribers of the event:
    /// `pushed` is what the binder answered the push with, `None` when the
    /// data could not be turned into the binder's data (nothing is pushed
    /// then). An event that was never registered pushes nothing and gives
    /// -1, as does data that could not be turned.
    pub fn push(&self, pushed: Option<i32>) -> (r: i32)
        ensures
            r == (if self@.evtv4 == 0 {
                -1i32
            } else {
                match pushed {
                    Some(status) => status,
                    None => -1i32,
                }
            }),
    {
        if self.evtv4 == 0 {
            return -1;
        }
        match pushed {
            Some(status) => status,
            None => -1,
        }
    }

    /// The outcome of subscribing a request to the event, given the
    /// binder's status for the subscription.
    pub fn subscribe(&self, status: i32) -> (r: Result<&Self, AfbError>)
        ensures
            self@.evtv4 == 0 ==> r is Err && r->Err_0@ == err_view(self@.uid, "should register before usage"@),
            self@.evtv4 != 0 && status != 0 ==> r is Err && r->Err_0@ == err_view(self@.uid, "fail to subscribe event"@),
            self@.evtv4 != 0 && status == 0 ==> r == Ok::<&Self, AfbError>(self),
    {
        if self.evtv4 == 0 {
            return Err(AfbError::msg(self.uid, "should register before usage"));
        }
        if status != 0 {
            Err(AfbError::msg(self.uid, "fail to subscribe event"))
        } else {
            Ok(self)
        }
    }

    /// The outcome of unsubscribing a request from the event, given the
    /// binder's status for it.
    pub fn unsubscribe(&self, status: i32) -> (r: Result<&Self, AfbError>)
        ensures
            self@.evtv4 == 0 ==> r is Err && r->Err_0@ == err_view(self@.uid, "should register before usage"@),
            self@.evtv4 != 0 && status != 0 ==> r is Err && r->Err_0@ == err_view(self@.uid, "fail to unsubscribe event"@),
            self@.evtv4 != 0 && status == 0 ==> r == Ok::<&Self, AfbError>(self),
    {
        if self.evtv4 == 0 {
            return Err(AfbError::msg(self.uid, "should register before usage"));
        }
        if status != 0 {
            Err(AfbError::msg(self.uid, "fail to unsubscribe event"))
        } else {
            Ok(self)
        }
    }
}

/// A handler of the events whose names match a pattern; what it runs is
/// attached by the code that hosts the binding.
pub struct AfbEvtHandler {
    pub uid: &'static str,
    pub pattern: &'static str,
    pub info: &'static str,
    pub verbosity: i32,
    /// How many events the handler was handed.
    pub count: usize,
}

impl AfbEvtHandler {
    /// A handler of the events named as its uid.
    pub fn new(uid: &'static str) -> (r: AfbEvtHandler)
        ensures
            r.uid == uid,
            r.pattern == uid,
            r.info@ == Seq::<char>::empty(),
            r.verbosity == 0,
            r.count == 0,
    {
        let info = "";
        proof {
            reveal_strlit("");
        }
        AfbEvtHandler { uid, pattern: uid, info, verbosity: 0, count: 0 }
    }

    pub fn set_pattern(&mut self, value: &'static str) -> (r: &mut Self)
        ensures
            *r == (AfbEvtHandler { pattern: value, ..*old(self) }),
            *final(self) == *final(r),
    {
        self.pattern = value;
        self
    }

    pub fn set_info(&mut self, value: &'static str) -> (r: &mut Self)
        ensures
            *r == (AfbEvtHandler { info: value, ..*old(self) }),
            *final(self) == *final(r),
    {
        self.info = value;
        self
    }

    pub fn set_verbosity(&mut self, value: i32) -> (r: &mut Self)
        ensures
            *r == (AfbEvtHandler { verbosity: value, ..*old(self) }),
            *final(self) == *final(r),
    {
        self.verbosity = value;
        self
    }

    pub fn get_verbosity(&self) -> (r: i32)
        ensures
            r == self.verbosity,
    {
        self.verbosity
    }

    pub fn get_uid(&self) -> (r: &'static str)
        ensures
            r == self.uid,
    {
        self.uid
    }

    /// Takes the api's verbosity when the handler's own is lower; a
    /// negative verbosity is the handler's own and is kept, made positive.
    pub fn inherit_verbosity(&mut self, api_verbosity: i32)
        requires
            old(self).verbosity != i32::MIN,
        ensures
            *final(self) == (AfbEvtHandler {
                verbosity: inherited_verbosity(api_verbosity, old(self).verbosity),
                ..*old(self)
            }),
    {
        self.verbosity = inherit_verbosity(api_verbosity, self.verbosity);
    }
}

/// Data a request keeps in its session; `closing` runs when the session
/// ends.
pub trait AfbRqtSession {
    fn closing(&mut self) {
    }
}

} // verus!

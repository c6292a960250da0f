//! Test suites of verbs, reported in the Test Anything Protocol: which
//! test comes next, how a reply is judged, and the reports.

use vstd::prelude::*;
use crate::data::{arg_index_error, index_error, AFB_FAIL, AFB_OK};
use crate::error::{AfbError, AfbErrorView, afb_error_info, err_view, error_info_text, res_view};
use crate::jsonc::{
    Jtype, Jval, JsoncImport, JsoncObj, contains_spec, jtype_of, json_text, keys_no_nul, no_nul,
    members_set, lemma_key_pos_absent,
};
use crate::text::{int_text, nat_text, push_char, push_i64, push_str, push_u64};

verus! {

/// Group that holds the tests added to a suite directly.
pub const AUTOSTART: &'static str = "autostart";

/// Default timeout of a suite, in seconds.
pub const TIMEOUT: u32 = 5;

/// The outcome of one test.
#[derive(Debug)]
pub struct AfbTapResponse {
    pub status: i32,
    pub diagnostic: String,
}

/// How a suite prints its report.
#[derive(Clone, Copy)]
pub enum AfbTapOutput {
    JSON,
    TAP,
    NONE,
}

/// Equality of two texts (`str::eq`).
#[verifier::external_body]
pub(crate) fn same_text(a: &str, b: &str) -> (r: bool)
    ensures
        r == (a@ == b@),
{
    a == b
}

/// Outcome of the strict comparison of a received value with an expected
/// one: same type, same JSON text.
pub open spec fn strict_equal_spec(recv: Jval, exp: Jval) -> Result<(), AfbErrorView> {
    if jtype_of(recv) != jtype_of(exp) {
        Err(err_view("jsonc::equal"@, "jtype diverge"@))
    } else if json_text(recv) != json_text(exp) {
        Err(err_view(",jsonc::equal"@, "jtype not equal"@))
    } else {
        Ok(())
    }
}

/// Compares a received value with an expected one: same type, same text.
pub fn strict_equal(recv: &JsoncObj, exp: &JsoncObj) -> (r: Result<(), AfbError>)
    ensures
        res_view(r) == strict_equal_spec(recv@, exp@),
{
    if recv.get_type() != exp.get_type() {
        return Err(AfbError::msg("jsonc::equal", "jtype diverge"));
    }
    let a = recv.to_json_text();
    let b = exp.to_json_text();
    if a != b {
        return Err(AfbError::msg(",jsonc::equal", "jtype not equal"));
    }
    Ok(())
}

/// The JSON text of an error as an object `{"uid":..,"info":..}`.
pub open spec fn error_json_text(e: AfbErrorView) -> Seq<char> {
    json_text(Jval::Object(seq![("uid"@, Jval::Str(e.uid)), ("info"@, Jval::Str(e.info))]))
}

/// What goes wrong with one reply argument, if anything: it cannot be read
/// as JSON, or it does not match what is expected (an expected object must
/// be contained in the argument, another value must be equal to it).
pub open spec fn arg_diag(exp: Jval, got: Result<Jval, AfbErrorView>) -> Option<Seq<char>> {
    match got {
        Err(e) => Some(error_json_text(e)),
        Ok(v) => {
            let t = if exp is Object {
                contains_spec(v, exp)
            } else {
                strict_equal_spec(v, exp)
            };
            match t {
                Err(e) => Some(e.uid + seq![':'] + e.info),
                Ok(()) => None,
            }
        },
    }
}

/// The first `n` arguments of a reply as they are read: those it has,
/// then the error of reading past its last one.
pub open spec fn reply_args(reply: Seq<Result<JsoncObj, AfbError>>, n: nat) -> Seq<Result<Jval, AfbErrorView>> {
    Seq::new(
        n,
        |i: int|
            if i < reply.len() {
                res_view(reply[i])
            } else {
                Err(arg_index_error(i as nat, reply.len()))
            },
    )
}

/// The views of the expected values.
pub open spec fn expect_view(expect: Seq<JsoncObj>) -> Seq<Jval> {
    Seq::new(expect.len(), |i: int| expect[i]@)
}

/// The diagnostics of the expected arguments, in order.
pub open spec fn arg_diags(expect: Seq<Jval>, reply: Seq<Result<Jval, AfbErrorView>>) -> Seq<Option<Seq<char>>> {
    Seq::new(expect.len(), |i: int| arg_diag(expect[i], reply[i]))
}

/// `i` is the first argument that goes wrong.
pub open spec fn first_diag_at(ds: Seq<Option<Seq<char>>>, i: int) -> bool {
    &&& 0 <= i < ds.len()
    &&& ds[i] is Some
    &&& forall|j: int| 0 <= j < i ==> ds[j] is None
}

/// The first thing that goes wrong, if anything.
pub open spec fn first_diag(ds: Seq<Option<Seq<char>>>) -> Option<Seq<char>> {
    if exists|i: int| first_diag_at(ds, i) {
        ds[choose|i: int| first_diag_at(ds, i)]
    } else {
        None
    }
}

proof fn lemma_first_diag_found(ds: Seq<Option<Seq<char>>>, i: int)
    requires
        first_diag_at(ds, i),
    ensures
        first_diag(ds) == ds[i],
{
    let k = choose|k: int| first_diag_at(ds, k);
    assert(first_diag_at(ds, k));
    if k < i {
        assert(ds[k] is None);
    } else if i < k {
        assert(ds[i] is None);
    }
}

/// The diagnostic of a reply whose status is not the expected one.
pub open spec fn status_diag(status: i32) -> Seq<char> {
    "status="@ + int_text(status as int) + " info="@ + error_info_text(status)
}

/// The outcome of a test: its status and diagnostic.
pub open spec fn check_spec(
    want_status: i32,
    expect: Seq<Jval>,
    reply_status: i32,
    reply: Seq<Result<Jval, AfbErrorView>>,
) -> (i32, Seq<char>) {
    if reply_status != want_status {
        (AFB_FAIL, status_diag(reply_status))
    } else {
        match first_diag(arg_diags(expect, reply)) {
            Some(d) => (AFB_FAIL, d),
            None => (AFB_OK, Seq::empty()),
        }
    }
}

/// The text a test reports: `ok`, `not ok` with the diagnostic, or a skip
/// when it never ran.
pub open spec fn test_line(index: nat, uid: Seq<char>, response: Option<(i32, Seq<char>)>) -> Seq<char> {
    match response {
        None => "ok "@ + nat_text(index) + " - "@ + uid + " # SKIP"@,
        Some((status, diag)) => if status == AFB_OK {
            "ok "@ + nat_text(index) + " - "@ + uid
        } else {
            "not ok "@ + nat_text(index) + " - "@ + uid + " # "@ + diag
        },
    }
}

/// The outcome of a test, if it ran.
pub open spec fn response_view(r: Option<AfbTapResponse>) -> Option<(i32, Seq<char>)> {
    match r {
        Some(resp) => Some((resp.status, resp.diagnostic@)),
        None => None,
    }
}

/// Where a suite goes after a test.
pub enum TapNext {
    /// The test at this position of the same group.
    InGroup(usize),
    /// The first test of the group with this name.
    GroupStart(&'static str),
}

/// Where a suite goes after a test that answered.
pub open spec fn test_next_spec(t: AfbTapTest) -> TapNext {
    if t.response->Some_0.status == AFB_OK {
        match t.onsucess {
            None => TapNext::InGroup(t.index),
            Some(label) => TapNext::GroupStart(label),
        }
    } else {
        match t.onerror {
            None => TapNext::InGroup(t.index),
            Some(label) => TapNext::GroupStart(label),
        }
    }
}

/// One call of a verb, with what its reply must hold.
pub struct AfbTapTest {
    pub uid: &'static str,
    pub info: &'static str,
    pub api: &'static str,
    pub verb: &'static str,
    pub status: i32,
    /// The arguments the verb is called with.
    pub params: Vec<JsoncObj>,
    pub expect: Vec<JsoncObj>,
    pub onerror: Option<&'static str>,
    pub onsucess: Option<&'static str>,
    pub response: Option<AfbTapResponse>,
    pub timeout: u32,
    pub delay: u32,
    pub index: usize,
}

impl AfbTapTest {
    /// A test of verb `verb` of api `api`, expecting status 0.
    pub fn new(uid: &'static str, api: &'static str, verb: &'static str) -> (r: AfbTapTest)
        ensures
            r.uid == uid,
            r.api == api,
            r.verb == verb,
            r.info@ == Seq::<char>::empty(),
            r.status == 0,
            r.params@.len() == 0,
            r.expect@.len() == 0,
            r.onerror is None,
            r.onsucess is None,
            r.response is None,
            r.timeout == 0,
            r.delay == 0,
            r.index == 0,
    {
        let info = "";
        proof {
            reveal_strlit("");
        }
        AfbTapTest {
            uid,
            info,
            api,
            verb,
            status: 0,
            params: Vec::new(),
            expect: Vec::new(),
            onerror: None,
            onsucess: None,
            response: None,
            timeout: 0,
            delay: 0,
            index: 0,
        }
    }

    pub fn set_info(&mut self, value: &'static str) -> (r: &mut Self)
        ensures
            *r == (AfbTapTest { info: value, ..*old(self) }),
            *final(self) == *final(r),
    {
        self.info = value;
        self
    }

    pub fn finalize(&mut self) -> (r: Result<&mut Self, AfbError>)
        ensures
            r matches Ok(t) && *t == *old(self) && *final(self) == *final(t),
    {
        Ok(self)
    }

    pub fn set_response(&mut self, status: i32, diagnostic: &str) -> (r: &mut Self)
        ensures
            (AfbTapTest { response: None, ..*r }) == (AfbTapTest { response: None, ..*old(self) }),
            response_view(r.response) == Some((status, diagnostic@)),
            *final(self) == *final(r),
    {
        self.response = Some(AfbTapResponse { status, diagnostic: diagnostic.to_owned() });
        self
    }

    pub fn set_timeout(&mut self, value: u32) -> (r: &mut Self)
        ensures
            *r == (AfbTapTest { timeout: value, ..*old(self) }),
            *final(self) == *final(r),
    {
        self.timeout = value;
        self
    }

    pub fn set_delay(&mut self, value: u32) -> (r: &mut Self)
        ensures
            *r == (AfbTapTest { delay: value, ..*old(self) }),
            *final(self) == *final(r),
    {
        self.delay = value;
        self
    }

    pub fn set_onsuccess(&mut self, group: &'static str) -> (r: &mut Self)
        ensures
            *r == (AfbTapTest { onsucess: Some(group), ..*old(self) }),
            *final(self) == *final(r),
    {
        self.onsucess = Some(group);
        self
    }

    pub fn set_onerror(&mut self, group: &'static str) -> (r: &mut Self)
        ensures
            *r == (AfbTapTest { onerror: Some(group), ..*old(self) }),
            *final(self) == *final(r),
    {
        self.onerror = Some(group);
        self
    }

    pub fn set_status(&mut self, value: i32) -> (r: &mut Self)
        ensures
            *r == (AfbTapTest { status: value, ..*old(self) }),
            *final(self) == *final(r),
    {
        self.status = value;
        self
    }

    /// Adds an argument the verb is called with, after the others.
    pub fn add_arg<T>(&mut self, param: T) -> (r: Result<&mut Self, AfbError>)
        where JsoncObj: JsoncImport<T>,
        requires
            <JsoncObj as JsoncImport<T>>::import_allowed(param),
        ensures
            r is Ok,
            r matches Ok(t) && (AfbTapTest { params: old(self).params, ..*t }) == *old(self)
                && expect_view(t.params@) == expect_view(old(self).params@).push(<JsoncObj as JsoncImport<T>>::import_spec(param))
                && *final(self) == *final(t),
    {
        let jvalue = match <JsoncObj as JsoncImport<T>>::import(param) {
            Ok(v) => v,
            Err(e) => return Err(e),
        };
        let ghost before = self.params@;
        self.params.push(jvalue);
        assert(expect_view(self.params@) =~= expect_view(before).push(<JsoncObj as JsoncImport<T>>::import_spec(param)));
        Ok(self)
    }

    /// Adds a value the reply must hold, as its next argument.
    pub fn add_expect<T>(&mut self, data: T) -> (r: Result<&mut Self, AfbError>)
        where JsoncObj: JsoncImport<T>,
        requires
            <JsoncObj as JsoncImport<T>>::import_allowed(data),
        ensures
            r is Ok,
            r matches Ok(t) && (AfbTapTest { expect: old(self).expect, ..*t }) == *old(self)
                && expect_view(t.expect@) == expect_view(old(self).expect@).push(<JsoncObj as JsoncImport<T>>::import_spec(data))
                && *final(self) == *final(t),
    {
        let jvalue = match <JsoncObj as JsoncImport<T>>::import(data) {
            Ok(v) => v,
            Err(e) => return Err(e),
        };
        let ghost before = self.expect@;
        self.expect.push(jvalue);
        assert(expect_view(self.expect@) =~= expect_view(before).push(<JsoncObj as JsoncImport<T>>::import_spec(data)));
        Ok(self)
    }

    /// Records the outcome of the test.
    pub fn done(&mut self, response: AfbTapResponse)
        ensures
            *final(self) == (AfbTapTest { response: Some(response), ..*old(self) }),
    {
        self.response = Some(response);
    }

    /// The timeout of the test: its own, or the group's when it has none.
    pub fn get_timeout(&self, group_timeout: u32) -> (r: u32)
        ensures
            r == if self.timeout == 0 {
                group_timeout
            } else {
                self.timeout
            },
    {
        if self.timeout == 0 {
            group_timeout
        } else {
            self.timeout
        }
    }

    /// Judges a reply: its status, then each argument against what is expected.
    pub fn check_response(&self, reply_status: i32, reply: &Vec<Result<JsoncObj, AfbError>>) -> (r: AfbTapResponse)
        requires
            reply@.len() <= u32::MAX,
            forall|i: int| 0 <= i < reply@.len() ==> (#[trigger] reply@[i] matches Err(e) ==> no_nul(e@.uid) && no_nul(e@.info)),
            forall|i: int| 0 <= i < self.expect@.len() ==> keys_no_nul(#[trigger] self.expect@[i]@),
        ensures
            (r.status, r.diagnostic@) == check_spec(
                self.status,
                expect_view(self.expect@),
                reply_status,
                reply_args(reply@, self.expect@.len()),
            ),
    {
        if reply_status != self.status {
            let mut msg = String::new();
            push_str(&mut msg, "status=");
            push_i64(&mut msg, reply_status as i64);
            push_str(&mut msg, " info=");
            push_str(&mut msg, afb_error_info(reply_status));
            assert(msg@ =~= status_diag(reply_status));
            return AfbTapResponse { status: AFB_FAIL, diagnostic: msg };
        }
        let ghost ds = arg_diags(expect_view(self.expect@), reply_args(reply@, self.expect@.len()));
        let n = self.expect.len();
        let mut idx: usize = 0;
        while idx < n
            invariant
                n == self.expect@.len(),
                idx <= n,
                reply@.len() <= u32::MAX,
                reply_status == self.status,
                forall|i: int| 0 <= i < reply@.len() ==> (#[trigger] reply@[i] matches Err(e) ==> no_nul(e@.uid) && no_nul(e@.info)),
                forall|i: int| 0 <= i < self.expect@.len() ==> keys_no_nul(#[trigger] self.expect@[i]@),
                ds == arg_diags(expect_view(self.expect@), reply_args(reply@, self.expect@.len())),
                forall|j: int| 0 <= j < idx ==> #[trigger] ds[j] is None,
            decreases n - idx,
        {
            let jexpect = &self.expect[idx];
            let ghost gi = idx as int;
            if idx >= reply.len() {
                let error = index_error(idx, reply.len() as u32);
                assert(ds[gi] == arg_diag(self.expect@[gi]@, Err(error@)));
                let msg = match error.to_jsonc() {
                    Ok(j) => j.to_json_text(),
                    Err(_) => {
                        assert(false);
                        String::new()
                    },
                };
                proof {
                    lemma_first_diag_found(ds, gi);
                }
                return AfbTapResponse { status: AFB_FAIL, diagnostic: msg };
            }
            assert(ds[gi] == arg_diag(self.expect@[gi]@, res_view(reply@[gi])));
            match &reply[idx] {
                Err(error) => {
                    assert(no_nul(error@.uid) && no_nul(error@.info));
                    let msg = match error.to_jsonc() {
                        Ok(j) => j.to_json_text(),
                        Err(_) => {
                            assert(false);
                            String::new()
                        },
                    };
                    proof {
                        lemma_first_diag_found(ds, gi);
                    }
                    return AfbTapResponse { status: AFB_FAIL, diagnostic: msg };
                },
                Ok(jvalue) => {
                    assert(keys_no_nul(jexpect@));
                    let jtest = if jexpect.is_type(Jtype::Object) {
                        jvalue.contains(jexpect.clone())
                    } else {
                        strict_equal(jvalue, jexpect)
                    };
                    match jtest {
                        Err(error) => {
                            proof {
                                lemma_first_diag_found(ds, gi);
                            }
                            return AfbTapResponse { status: AFB_FAIL, diagnostic: error.to_display() };
                        },
                        Ok(()) => {},
                    }
                },
            }
            idx = idx + 1;
        }
        assert forall|k: int| !first_diag_at(ds, k) by {
            if first_diag_at(ds, k) {
                assert(ds[k] is None);
            }
        }
        let empty = String::new();
        AfbTapResponse { status: AFB_OK, diagnostic: empty }
    }

    /// Where the suite goes after this test: the group named by its success
    /// or error label, or else the next test of its own group.
    pub fn get_next_step(&self) -> (r: TapNext)
        requires
            self.response is Some,
        ensures
            r == test_next_spec(*self),
    {
        let ok = match &self.response {
            Some(response) => response.status == AFB_OK,
            None => true,
        };
        if ok {
            match self.onsucess {
                None => TapNext::InGroup(self.index),
                Some(label) => TapNext::GroupStart(label),
            }
        } else {
            match self.onerror {
                None => TapNext::InGroup(self.index),
                Some(label) => TapNext::GroupStart(label),
            }
        }
    }

    /// The report line of the test, as a JSON string.
    pub fn get_report(&self) -> (r: Result<JsoncObj, AfbError>)
        requires
            no_nul(self.uid@),
            self.response matches Some(resp) ==> no_nul(resp.diagnostic@),
        ensures
            r matches Ok(o) && o@ == Jval::Str(test_line(self.index as nat, self.uid@, response_view(self.response))),
    {
        let mut msg = String::new();
        match &self.response {
            None => {
                push_str(&mut msg, "ok ");
                push_u64(&mut msg, self.index as u64);
                push_str(&mut msg, " - ");
                push_str(&mut msg, self.uid);
                push_str(&mut msg, " # SKIP");
            },
            Some(response) => {
                if response.status == AFB_OK {
                    push_str(&mut msg, "ok ");
                    push_u64(&mut msg, self.index as u64);
                    push_str(&mut msg, " - ");
                    push_str(&mut msg, self.uid);
                } else {
                    push_str(&mut msg, "not ok ");
                    push_u64(&mut msg, self.index as u64);
                    push_str(&mut msg, " - ");
                    push_str(&mut msg, self.uid);
                    push_str(&mut msg, " # ");
                    push_str(&mut msg, response.diagnostic.as_str());
                }
            },
        }
        assert(msg@ =~= test_line(self.index as nat, self.uid@, response_view(self.response)));
        Ok(JsoncObj::Str(msg))
    }
}


/// A test can be reported: no NUL in its name or diagnostic.
pub open spec fn test_reportable(t: AfbTapTest) -> bool {
    &&& no_nul(t.uid@)
    &&& t.response matches Some(resp) ==> no_nul(resp.diagnostic@)
}

/// The first line of a group report: the plan `1..count`.
pub open spec fn plan_line(count: nat, uid: Seq<char>) -> Seq<char> {
    "1.."@ + nat_text(count) + " # "@ + uid
}

/// The report lines of tests.
pub open spec fn test_lines(tests: Seq<AfbTapTest>) -> Seq<Jval> {
    Seq::new(tests.len(), |i: int| Jval::Str(test_line(tests[i].index as nat, tests[i].uid@, response_view(tests[i].response))))
}

/// The report of a group: its plan, then one line per test.
pub open spec fn group_report(uid: Seq<char>, tests: Seq<AfbTapTest>) -> Jval {
    Jval::Array(seq![Jval::Str(plan_line(tests.len(), uid))] + test_lines(tests))
}

/// The tests that run in order, with a common timeout.
pub struct AfbTapGroup {
    pub uid: &'static str,
    pub info: &'static str,
    pub tests: Vec<AfbTapTest>,
    /// How many tests were added: the position given to the last one.
    pub index: usize,
    pub timeout: u32,
}

impl AfbTapGroup {
    pub fn new(uid: &'static str) -> (r: AfbTapGroup)
        ensures
            r.uid == uid,
            r.info@ == Seq::<char>::empty(),
            r.tests@.len() == 0,
            r.index == 0,
            r.timeout == 0,
    {
        let info = "";
        proof {
            reveal_strlit("");
        }
        AfbTapGroup { uid, info, tests: Vec::new(), index: 0, timeout: 0 }
    }

    pub fn finalize(&mut self) -> (r: Result<&mut Self, AfbError>)
        ensures
            r matches Ok(g) && *g == *old(self) && *final(self) == *final(g),
    {
        Ok(self)
    }

    pub fn set_info(&mut self, value: &'static str) -> (r: &mut Self)
        ensures
            *r == (AfbTapGroup { info: value, ..*old(self) }),
            *final(self) == *final(r),
    {
        self.info = value;
        self
    }

    pub fn set_timeout(&mut self, value: u32) -> (r: &mut Self)
        ensures
            *r == (AfbTapGroup { timeout: value, ..*old(self) }),
            *final(self) == *final(r),
    {
        self.timeout = value;
        self
    }

    /// Adds a test at the end of the group; it is numbered from 1.
    pub fn add_test(&mut self, test: AfbTapTest) -> (r: &mut Self)
        requires
            old(self).index < usize::MAX,
        ensures
            r.uid == old(self).uid,
            r.info == old(self).info,
            r.timeout == old(self).timeout,
            r.index == old(self).index + 1,
            r.tests@ == old(self).tests@.push(AfbTapTest { index: (old(self).index + 1) as usize, ..test }),
            *final(self) == *final(r),
    {
        self.index = self.index + 1;
        let mut test = test;
        test.index = self.index;
        self.tests.push(test);
        self
    }

    /// The test at position `index` (from 0).
    pub fn get_test(&self, index: usize) -> (r: Option<&AfbTapTest>)
        ensures
            index < self.tests@.len() ==> r == Some(&self.tests@[index as int]),
            index >= self.tests@.len() ==> r is None,
    {
        if self.tests.len() <= index {
            None
        } else {
            Some(&self.tests[index])
        }
    }

    /// The first test, where a run of the group starts.
    pub fn launch(&self) -> (r: Result<&AfbTapTest, AfbError>)
        ensures
            self.tests@.len() > 0 ==> r == Ok::<&AfbTapTest, AfbError>(&self.tests@[0]),
            self.tests@.len() == 0 ==> r is Err && r->Err_0@ == err_view(self.uid@, "no-test-found"@),
    {
        match self.get_test(0) {
            None => Err(AfbError::msg(self.uid, "no-test-found")),
            Some(value) => Ok(value),
        }
    }

    /// The report of the group: its plan and one line per test.
    pub fn get_report(&self) -> (r: Result<JsoncObj, AfbError>)
        requires
            no_nul(self.uid@),
            forall|i: int| 0 <= i < self.tests@.len() ==> test_reportable(#[trigger] self.tests@[i]),
        ensures
            r matches Ok(o) && o@ == group_report(self.uid@, self.tests@),
    {
        let mut jsonc = JsoncObj::array();
        let count = self.tests.len();
        let mut msg = String::new();
        push_str(&mut msg, "1..");
        push_u64(&mut msg, count as u64);
        push_str(&mut msg, " # ");
        push_str(&mut msg, self.uid);
        assert(msg@ =~= plan_line(count as nat, self.uid@));
        let mut items: Vec<JsoncObj> = Vec::new();
        items.push(JsoncObj::Str(msg));
        let mut idx: usize = 0;
        while idx < count
            invariant
                count == self.tests@.len(),
                idx <= count,
                forall|i: int| 0 <= i < self.tests@.len() ==> test_reportable(#[trigger] self.tests@[i]),
                items@.len() == idx + 1,
                items@[0]@ == Jval::Str(plan_line(count as nat, self.uid@)),
                forall|i: int| 0 <= i < idx ==> #[trigger] items@[i + 1]@ == test_lines(self.tests@)[i],
            decreases count - idx,
        {
            let ghost gi = idx as int;
            assert(test_reportable(self.tests@[gi]));
            let line = match self.tests[idx].get_report() {
                Ok(l) => l,
                Err(e) => return Err(e),
            };
            items.push(line);
            idx = idx + 1;
        }
        let r = JsoncObj::Array(items);
        proof {
            crate::jsonc::lemma_array_view(items);
            let want = seq![Jval::Str(plan_line(count as nat, self.uid@))] + test_lines(self.tests@);
            assert forall|k: int| 0 <= k < items@.len() implies #[trigger] crate::jsonc::items_view(items@)[k] == want[k] by {
                if k > 0 {
                    assert(items@[(k - 1) + 1]@ == test_lines(self.tests@)[k - 1]);
                }
            }
            assert(crate::jsonc::items_view(items@) =~= want);
        }
        Ok(r)
    }
}

/// `i` is the position of the first group named `label`.
pub open spec fn first_group_at(gs: Seq<AfbTapGroup>, label: Seq<char>, i: int) -> bool {
    &&& 0 <= i < gs.len()
    &&& gs[i].uid@ == label
    &&& forall|j: int| 0 <= j < i ==> gs[j].uid@ != label
}

/// Position of the first group named `label`, if any.
pub open spec fn group_pos(gs: Seq<AfbTapGroup>, label: Seq<char>) -> Option<int> {
    if exists|i: int| first_group_at(gs, label, i) {
        Some(choose|i: int| first_group_at(gs, label, i))
    } else {
        None
    }
}

proof fn lemma_group_pos_found(gs: Seq<AfbTapGroup>, label: Seq<char>, i: int)
    requires
        first_group_at(gs, label, i),
    ensures
        group_pos(gs, label) == Some(i),
{
    let k = choose|k: int| first_group_at(gs, label, k);
    assert(first_group_at(gs, label, k));
    if k < i {
        assert(gs[k].uid@ != label);
    } else if i < k {
        assert(gs[i].uid@ != label);
    }
}

fn find_group(gs: &Vec<AfbTapGroup>, label: &str) -> (r: Option<usize>)
    ensures
        match r {
            Some(i) => group_pos(gs@, label@) == Some(i as int),
            None => group_pos(gs@, label@) is None,
        },
{
    let n = gs.len();
    let mut i: usize = 0;
    while i < n
        invariant
            n == gs@.len(),
            i <= n,
            forall|j: int| 0 <= j < i ==> gs@[j].uid@ != label@,
        decreases n - i,
    {
        if same_text(gs[i].uid, label) {
            proof {
                lemma_group_pos_found(gs@, label@, i as int);
            }
            return Some(i);
        }
        i = i + 1;
    }
    None
}

/// Members of a suite report: the autostart group first, then each group
/// under its name, a later group of the same name replacing an earlier one.
pub open spec fn suite_members(auto: Jval, gs: Seq<AfbTapGroup>) -> Seq<(Seq<char>, Jval)>
    decreases gs.len(),
{
    if gs.len() == 0 {
        seq![("autostart"@, auto)]
    } else {
        members_set(suite_members(auto, gs.drop_last()), gs.last().uid@, group_report(gs.last().uid@, gs.last().tests@))
    }
}

/// A group can be reported.
pub open spec fn group_reportable(g: AfbTapGroup) -> bool {
    &&& no_nul(g.uid@)
    &&& forall|i: int| 0 <= i < g.tests@.len() ==> test_reportable(#[trigger] g.tests@[i])
}

/// Test groups run against an api, with a default group for tests added
/// directly.
pub struct AfbTapSuite {
    pub uid: &'static str,
    pub info: &'static str,
    pub autostart: AfbTapGroup,
    pub autorun: bool,
    pub autoexit: bool,
    pub timeout: u32,
    pub output: AfbTapOutput,
    /// The groups added to the suite, in order.
    pub groups: Vec<AfbTapGroup>,
}

impl AfbTapSuite {
    pub fn new(uid: &'static str) -> (r: AfbTapSuite)
        ensures
            r.uid == uid,
            r.info@ == Seq::<char>::empty(),
            r.autostart.uid@ == AUTOSTART@,
            r.autostart.tests@.len() == 0,
            r.autostart.index == 0,
            r.autorun,
            r.autoexit,
            r.timeout == TIMEOUT,
            r.output is TAP,
            r.groups@.len() == 0,
    {
        let info = "";
        proof {
            reveal_strlit("");
        }
        AfbTapSuite {
            uid,
            info,
            autostart: AfbTapGroup::new(AUTOSTART),
            autorun: true,
            autoexit: true,
            timeout: TIMEOUT,
            output: AfbTapOutput::TAP,
            groups: Vec::new(),
        }
    }

    pub fn set_timeout(&mut self, value: u32) -> (r: &mut Self)
        ensures
            *r == (AfbTapSuite { timeout: value, ..*old(self) }),
            *final(self) == *final(r),
    {
        self.timeout = value;
        self
    }

    pub fn set_autorun(&mut self, value: bool) -> (r: &mut Self)
        ensures
            *r == (AfbTapSuite { autorun: value, ..*old(self) }),
            *final(self) == *final(r),
    {
        self.autorun = value;
        self
    }

    pub fn set_autoexit(&mut self, value: bool) -> (r: &mut Self)
        ensures
            *r == (AfbTapSuite { autoexit: value, ..*old(self) }),
            *final(self) == *final(r),
    {
        self.autoexit = value;
        self
    }

    pub fn set_output(&mut self, value: AfbTapOutput) -> (r: &mut Self)
        ensures
            *r == (AfbTapSuite { output: value, ..*old(self) }),
            *final(self) == *final(r),
    {
        self.output = value;
        self
    }

    pub fn set_info(&mut self, value: &'static str) -> (r: &mut Self)
        ensures
            *r == (AfbTapSuite { info: value, ..*old(self) }),
            *final(self) == *final(r),
    {
        self.info = value;
        self
    }

    pub fn get_uid(&self) -> (r: &'static str)
        ensures
            r == self.uid,
    {
        self.uid
    }

    pub fn get_autoexit(&self) -> (r: bool)
        ensures
            r == self.autoexit,
    {
        self.autoexit
    }

    pub fn get_autorun(&self) -> (r: bool)
        ensures
            r == self.autorun,
    {
        self.autorun
    }

    /// Adds a test to the autostart group; a test without timeout gets the
    /// suite's.
    pub fn add_test(&mut self, test: AfbTapTest) -> (r: &mut Self)
        requires
            old(self).autostart.index < usize::MAX,
        ensures
            r.autostart.tests@ == old(self).autostart.tests@.push(AfbTapTest {
                index: (old(self).autostart.index + 1) as usize,
                timeout: if test.timeout == 0 {
                    old(self).timeout
                } else {
                    test.timeout
                },
                ..test
            }),
            r.autostart.index == old(self).autostart.index + 1,
            r.autostart.uid == old(self).autostart.uid,
            r.groups@ == old(self).groups@,
            r.timeout == old(self).timeout,
            *final(self) == *final(r),
    {
        let mut test = test;
        if test.timeout == 0 {
            test.timeout = self.timeout;
        }
        self.autostart.add_test(test);
        self
    }

    /// Adds a group under its name, replacing a group of the same name; a
    /// group without timeout gets the suite's.
    pub fn add_group(&mut self, group: AfbTapGroup) -> (r: &mut Self)
        ensures
            ({
                let g = AfbTapGroup {
                    timeout: if group.timeout == 0 {
                        old(self).timeout
                    } else {
                        group.timeout
                    },
                    ..group
                };
                r.groups@ == match group_pos(old(self).groups@, group.uid@) {
                    Some(i) => old(self).groups@.update(i, g),
                    None => old(self).groups@.push(g),
                }
            }),
            r.autostart == old(self).autostart,
            r.timeout == old(self).timeout,
            *final(self) == *final(r),
    {
        let mut group = group;
        if group.timeout == 0 {
            group.timeout = self.timeout;
        }
        match find_group(&self.groups, group.uid) {
            Some(i) => {
                self.groups.set(i, group);
            },
            None => {
                self.groups.push(group);
            },
        }
        self
    }

    /// The group named `label`: an added group, or the autostart group.
    pub fn get_group(&self, label: &str) -> (r: Option<&AfbTapGroup>)
        ensures
            r == match group_pos(self.groups@, label@) {
                Some(i) => Some(&self.groups@[i]),
                None => if label@ == AUTOSTART@ {
                    Some(&self.autostart)
                } else {
                    None
                },
            },
    {
        match find_group(&self.groups, label) {
            Some(i) => Some(&self.groups[i]),
            None => {
                if same_text(label, AUTOSTART) {
                    Some(&self.autostart)
                } else {
                    None
                }
            },
        }
    }

    /// The test a run goes on with after `test` of `group` answered: the
    /// first test of the group its success or error label names (none when
    /// no group has that name), or else the next test of its own group.
    pub fn next_test<'a>(&'a self, group: &'a AfbTapGroup, test: &AfbTapTest) -> (r: Option<&'a AfbTapTest>)
        requires
            test.response is Some,
        ensures
            r == match test_next_spec(*test) {
                TapNext::InGroup(i) => if i < group.tests@.len() {
                    Some(&group.tests@[i as int])
                } else {
                    None
                },
                TapNext::GroupStart(label) => match group_pos(self.groups@, label@) {
                    Some(k) => if self.groups@[k].tests@.len() > 0 {
                        Some(&self.groups@[k].tests@[0])
                    } else {
                        None
                    },
                    None => if label@ == AUTOSTART@ && self.autostart.tests@.len() > 0 {
                        Some(&self.autostart.tests@[0])
                    } else {
                        None
                    },
                },
            },
    {
        match test.get_next_step() {
            TapNext::InGroup(i) => group.get_test(i),
            TapNext::GroupStart(label) => match self.get_group(label) {
                None => None,
                Some(next_group) => next_group.get_test(0),
            },
        }
    }

    /// The group a run named `label` starts with.
    pub fn launch(&self, label: &str) -> (r: Result<&AfbTapGroup, AfbError>)
        ensures
            match group_pos(self.groups@, label@) {
                Some(i) => r == Ok::<&AfbTapGroup, AfbError>(&self.groups@[i]),
                None => if label@ == AUTOSTART@ {
                    r == Ok::<&AfbTapGroup, AfbError>(&self.autostart)
                } else {
                    r is Err && r->Err_0@ == err_view("group-label-not-found"@, label@)
                },
            },
    {
        match self.get_group(label) {
            None => Err(AfbError::msg("group-label-not-found", label)),
            Some(group) => Ok(group),
        }
    }

    /// The report of the suite, one member per group; the groups are
    /// handed over to it and the suite keeps none.
    pub fn get_report(&mut self) -> (r: Result<JsoncObj, AfbError>)
        requires
            group_reportable(old(self).autostart),
            forall|i: int| 0 <= i < old(self).groups@.len() ==> group_reportable(#[trigger] old(self).groups@[i]),
        ensures
            r matches Ok(o) && o@ == Jval::Object(suite_members(group_report(old(self).autostart.uid@, old(self).autostart.tests@), old(self).groups@)),
            final(self).groups@.len() == 0,
            final(self).autostart == old(self).autostart,
    {
        let mut jreport = JsoncObj::new();
        let auto = match self.autostart.get_report() {
            Ok(j) => j,
            Err(e) => return Err(e),
        };
        let ghost auto_view = auto@;
        proof {
            reveal_strlit("autostart");
            lemma_key_pos_absent(Seq::empty(), "autostart"@);
        }
        match jreport.add(AUTOSTART, auto) {
            Ok(()) => {},
            Err(e) => return Err(e),
        }
        assert(jreport@ == Jval::Object(suite_members(auto_view, Seq::empty())));
        let mut groups: Vec<AfbTapGroup> = Vec::new();
        std::mem::swap(&mut groups, &mut self.groups);
        let n = groups.len();
        let mut i: usize = 0;
        while i < n
            invariant
                n == groups@.len(),
                i <= n,
                forall|k: int| 0 <= k < groups@.len() ==> group_reportable(#[trigger] groups@[k]),
                jreport@ == Jval::Object(suite_members(auto_view, groups@.take(i as int))),
            decreases n - i,
        {
            let ghost gk = i as int;
            assert(group_reportable(groups@[gk]));
            let report = match groups[i].get_report() {
                Ok(j) => j,
                Err(e) => return Err(e),
            };
            match jreport.add(groups[i].uid, report) {
                Ok(()) => {},
                Err(e) => return Err(e),
            }
            proof {
                let t = groups@.take(i + 1);
                assert(t.drop_last() =~= groups@.take(i as int));
                assert(t.last() == groups@[gk]);
            }
            i = i + 1;
        }
        assert(groups@.take(n as int) =~= groups@);
        Ok(jreport)
    }
}

/// The lines of a group, each followed by a line break.
pub open spec fn lines_text(items: Seq<Jval>) -> Seq<char>
    decreases items.len(),
{
    if items.len() == 0 {
        Seq::empty()
    } else {
        lines_text(items.drop_last()) + items.last()->Str_0 + seq!['\n']
    }
}

/// The groups of a report, each after an empty line.
pub open spec fn groups_text(es: Seq<(Seq<char>, Jval)>) -> Seq<char>
    decreases es.len(),
{
    if es.len() == 0 {
        Seq::empty()
    } else {
        groups_text(es.drop_last()) + seq!['\n'] + lines_text(es.last().1->Array_0)
    }
}

/// The printed form of a suite report: a start line, the groups, an empty
/// line and an end line.
pub open spec fn tap_print_text(uid: Seq<char>, es: Seq<(Seq<char>, Jval)>) -> Seq<char> {
    "-- start:"@ + uid + " --\n"@ + groups_text(es) + "\n-- end:"@ + uid + " --\n"@
}

/// A report made of groups whose lines are all strings.
pub open spec fn printable_report(v: Jval) -> bool {
    &&& v is Object
    &&& forall|j: int| 0 <= j < v->Object_0.len() ==> {
        let g = #[trigger] v->Object_0[j].1;
        &&& g is Array
        &&& forall|i: int| 0 <= i < g->Array_0.len() ==> (#[trigger] g->Array_0[i]) is Str
    }
}

/// The text a suite prints of its report in the `TAP` output.
pub fn tap_print(uid: &str, report: &JsoncObj) -> (r: String)
    requires
        printable_report(report@),
    ensures
        r@ == tap_print_text(uid@, report@->Object_0),
{
    broadcast use {crate::jsonc::lemma_array_view, crate::jsonc::lemma_object_view};
    let mut out = String::new();
    push_str(&mut out, "-- start:");
    push_str(&mut out, uid);
    push_str(&mut out, " --\n");
    let ghost head = out@;
    match report {
        JsoncObj::Object(members) => {
            let ghost es = report@->Object_0;
            let n = members.len();
            let mut j: usize = 0;
            while j < n
                invariant
                    n == members@.len(),
                    j <= n,
                    report@ == Jval::Object(es),
                    es == crate::jsonc::entries_view(members@),
                    printable_report(report@),
                    out@ == head + groups_text(es.take(j as int)),
                decreases n - j,
            {
                let ghost gj = j as int;
                assert(es[gj] == members@[gj]@);
                let group = &members[j].obj;
                push_char(&mut out, '\n');
                let ghost mid = out@;
                match group {
                    JsoncObj::Array(lines) => {
                        let ghost items = es[gj].1->Array_0;
                        assert(items == crate::jsonc::items_view(lines@));
                        let m = lines.len();
                        let mut i: usize = 0;
                        while i < m
                            invariant
                                m == lines@.len(),
                                i <= m,
                                items == crate::jsonc::items_view(lines@),
                                forall|k: int| 0 <= k < items.len() ==> (#[trigger] items[k]) is Str,
                                out@ == mid + lines_text(items.take(i as int)),
                            decreases m - i,
                        {
                            let ghost gi = i as int;
                            assert(items[gi] is Str);
                            match &lines[i] {
                                JsoncObj::Str(line) => {
                                    push_str(&mut out, line.as_str());
                                },
                                _ => {
                                    assert(false);
                                },
                            }
                            push_char(&mut out, '\n');
                            proof {
                                let t = items.take(gi + 1);
                                assert(t.drop_last() =~= items.take(gi));
                                assert(t.last() == items[gi]);
                            }
                            i = i + 1;
                        }
                        assert(items.take(m as int) =~= items);
                    },
                    _ => {
                        assert(false);
                    },
                }
                proof {
                    let t = es.take(gj + 1);
                    assert(t.drop_last() =~= es.take(gj));
                    assert(t.last() == es[gj]);
                }
                j = j + 1;
            }
            assert(es.take(n as int) =~= es);
        },
        _ => {
            assert(false);
        },
    }
    push_str(&mut out, "\n-- end:");
    push_str(&mut out, uid);
    push_str(&mut out, " --\n");
    proof {
        reveal_strlit("-- start:");
        reveal_strlit(" --\n");
        reveal_strlit("\n-- end:");
    }
    assert(out@ =~= tap_print_text(uid@, report@->Object_0));
    out
}

/// Where a run of a suite stands: a test of the autostart group, or a
/// test of an added group, each by position.
#[derive(Debug, Clone, Copy, PartialEq, Eq, Structural)]
pub enum TapCursor {
    Autostart(usize),
    Group(usize, usize),
}

/// How the call of a test ended.
pub enum TapOutcome {
    /// The verb replied with this status and these arguments, as they
    /// were read.
    Reply(i32, Vec<Result<JsoncObj, AfbError>>),
    /// The call could not be made; the error had this status.
    Failed(i32),
    /// No reply came within the timeout.
    Timeout,
}

/// Status a test is judged with when no reply came in time.
pub open spec fn timeout_status() -> i32 {
    -62i32
}

/// The status and the arguments a test is judged on: a call that failed,
/// or got no reply in time, has no argument.
pub open spec fn outcome_reply(o: TapOutcome) -> (i32, Seq<Result<JsoncObj, AfbError>>) {
    match o {
        TapOutcome::Reply(status, args) => (status, args@),
        TapOutcome::Failed(status) => (status, Seq::empty()),
        TapOutcome::Timeout => (timeout_status(), Seq::empty()),
    }
}

/// A cursor stands on a test of the suite.
pub open spec fn cursor_ok(s: AfbTapSuite, c: TapCursor) -> bool {
    match c {
        TapCursor::Autostart(i) => i < s.autostart.tests@.len(),
        TapCursor::Group(g, i) => g < s.groups@.len() && i < s.groups@[g as int].tests@.len(),
    }
}

/// The group a cursor stands in.
pub open spec fn cursor_group(s: AfbTapSuite, c: TapCursor) -> AfbTapGroup {
    match c {
        TapCursor::Autostart(_) => s.autostart,
        TapCursor::Group(g, _) => s.groups@[g as int],
    }
}

/// The test a cursor stands on.
pub open spec fn cursor_test(s: AfbTapSuite, c: TapCursor) -> AfbTapTest {
    match c {
        TapCursor::Autostart(i) => s.autostart.tests@[i as int],
        TapCursor::Group(g, i) => s.groups@[g as int].tests@[i as int],
    }
}

/// The first test of the group a run named `label` starts with.
pub open spec fn start_spec(s: AfbTapSuite, label: Seq<char>) -> Result<TapCursor, AfbErrorView> {
    match group_pos(s.groups@, label) {
        Some(k) => if s.groups@[k].tests@.len() > 0 {
            Ok(TapCursor::Group(k as usize, 0))
        } else {
            Err(err_view(s.groups@[k].uid@, "no-test-found"@))
        },
        None => if label == AUTOSTART@ {
            if s.autostart.tests@.len() > 0 {
                Ok(TapCursor::Autostart(0))
            } else {
                Err(err_view(s.autostart.uid@, "no-test-found"@))
            }
        } else {
            Err(err_view("group-label-not-found"@, label))
        },
    }
}

/// Where a run goes after test `t`, which answered, at cursor `c`.
pub open spec fn next_cursor(s: AfbTapSuite, c: TapCursor, t: AfbTapTest) -> Option<TapCursor> {
    match test_next_spec(t) {
        TapNext::InGroup(i) => match c {
            TapCursor::Autostart(_) => if i < s.autostart.tests@.len() {
                Some(TapCursor::Autostart(i))
            } else {
                None
            },
            TapCursor::Group(g, _) => if i < s.groups@[g as int].tests@.len() {
                Some(TapCursor::Group(g, i))
            } else {
                None
            },
        },
        TapNext::GroupStart(label) => match group_pos(s.groups@, label@) {
            Some(k) => if s.groups@[k].tests@.len() > 0 {
                Some(TapCursor::Group(k as usize, 0))
            } else {
                None
            },
            None => if label@ == AUTOSTART@ && s.autostart.tests@.len() > 0 {
                Some(TapCursor::Autostart(0))
            } else {
                None
            },
        },
    }
}

/// The judgement of a test on what its call gave.
pub open spec fn judged(t: AfbTapTest, o: TapOutcome) -> (i32, Seq<char>) {
    check_spec(
        t.status,
        expect_view(t.expect@),
        outcome_reply(o).0,
        reply_args(outcome_reply(o).1, t.expect@.len()),
    )
}

/// The outcome can be judged: its arguments fit a reply, their errors and
/// the test's expected member names hold no NUL character.
pub open spec fn judgeable(t: AfbTapTest, o: TapOutcome) -> bool {
    &&& outcome_reply(o).1.len() <= u32::MAX
    &&& forall|i: int| 0 <= i < outcome_reply(o).1.len() ==> (#[trigger] outcome_reply(o).1[i] matches Err(e) ==> no_nul(e@.uid) && no_nul(e@.info))
    &&& forall|i: int| 0 <= i < t.expect@.len() ==> keys_no_nul(#[trigger] t.expect@[i]@)
}

impl AfbTapSuite {
    /// Where a run named `label` starts: the first test of that group.
    pub fn start(&self, label: &str) -> (r: Result<TapCursor, AfbError>)
        ensures
            match start_spec(*self, label@) {
                Ok(c) => r == Ok::<TapCursor, AfbError>(c),
                Err(e) => r is Err && r->Err_0@ == e,
            },
    {
        match find_group(&self.groups, label) {
            Some(k) => {
                if self.groups[k].tests.len() > 0 {
                    Ok(TapCursor::Group(k, 0))
                } else {
                    Err(AfbError::msg(self.groups[k].uid, "no-test-found"))
                }
            },
            None => {
                if same_text(label, AUTOSTART) {
                    if self.autostart.tests.len() > 0 {
                        Ok(TapCursor::Autostart(0))
                    } else {
                        Err(AfbError::msg(self.autostart.uid, "no-test-found"))
                    }
                } else {
                    Err(AfbError::msg("group-label-not-found", label))
                }
            },
        }
    }

    /// The test a cursor stands on.
    pub fn test_at(&self, cursor: TapCursor) -> (r: &AfbTapTest)
        requires
            cursor_ok(*self, cursor),
        ensures
            *r == cursor_test(*self, cursor),
    {
        match cursor {
            TapCursor::Autostart(i) => &self.autostart.tests[i],
            TapCursor::Group(g, i) => &self.groups[g].tests[i],
        }
    }

    /// The call a cursor asks for: the api, the verb, and the timeout (the
    /// test's own, else its group's).
    pub fn call_at(&self, cursor: TapCursor) -> (r: (&'static str, &'static str, u32))
        requires
            cursor_ok(*self, cursor),
        ensures
            r.0 == cursor_test(*self, cursor).api,
            r.1 == cursor_test(*self, cursor).verb,
            r.2 == if cursor_test(*self, cursor).timeout == 0 {
                cursor_group(*self, cursor).timeout
            } else {
                cursor_test(*self, cursor).timeout
            },
    {
        let (test, group_timeout) = match cursor {
            TapCursor::Autostart(i) => (&self.autostart.tests[i], self.autostart.timeout),
            TapCursor::Group(g, i) => (&self.groups[g].tests[i], self.groups[g].timeout),
        };
        (test.api, test.verb, test.get_timeout(group_timeout))
    }

    /// The arguments of the call a cursor asks for.
    pub fn args_at(&self, cursor: TapCursor) -> (r: &Vec<JsoncObj>)
        requires
            cursor_ok(*self, cursor),
        ensures
            *r == cursor_test(*self, cursor).params,
    {
        match cursor {
            TapCursor::Autostart(i) => &self.autostart.tests[i].params,
            TapCursor::Group(g, i) => &self.groups[g].tests[i].params,
        }
    }

    /// Judges the test a cursor stands on by what its call gave, records
    /// the judgement, and tells where the run goes next.
    pub fn record(&mut self, cursor: TapCursor, outcome: TapOutcome) -> (r: Option<TapCursor>)
        requires
            cursor_ok(*old(self), cursor),
            judgeable(cursor_test(*old(self), cursor), outcome),
        ensures
            ({
                let t = cursor_test(*old(self), cursor);
                let done = cursor_test(*final(self), cursor);
                &&& cursor_ok(*final(self), cursor)
                &&& done.response matches Some(resp) && (resp.status, resp.diagnostic@) == judged(t, outcome)
                &&& (AfbTapTest { response: None, ..done }) == (AfbTapTest { response: None, ..t })
                &&& final(self).autostart.tests@.len() == old(self).autostart.tests@.len()
                &&& final(self).groups@.len() == old(self).groups@.len()
                &&& (forall|i: int| 0 <= i < final(self).groups@.len() ==> #[trigger] final(self).groups@[i].tests@.len()
                    == old(self).groups@[i].tests@.len())
                &&& (forall|i: int| 0 <= i < final(self).groups@.len() ==> #[trigger] final(self).groups@[i].uid
                    == old(self).groups@[i].uid)
                &&& r == next_cursor(*final(self), cursor, done)
            }),
            (AfbTapSuite { autostart: old(self).autostart, groups: old(self).groups, ..*final(self) }) == *old(self),
            forall|c: TapCursor| cursor_ok(*old(self), c) && c != cursor ==> cursor_test(*final(self), c)
                == cursor_test(*old(self), c),
    {
        let (status, args) = match outcome {
            TapOutcome::Reply(status, args) => (status, args),
            TapOutcome::Failed(status) => (status, Vec::new()),
            TapOutcome::Timeout => (-62i32, Vec::new()),
        };
        let ghost before = *self;
        match cursor {
            TapCursor::Autostart(i) => {
                let mut test = self.autostart.tests.remove(i);
                let response = test.check_response(status, &args);
                test.done(response);
                self.autostart.tests.insert(i, test);
                proof {
                    assert(self.autostart.tests@ =~= before.autostart.tests@.update(i as int, self.autostart.tests@[i as int]));
                }
            },
            TapCursor::Group(g, i) => {
                let mut group = self.groups.remove(g);
                let ghost og = group;
                let mut test = group.tests.remove(i);
                let response = test.check_response(status, &args);
                test.done(response);
                group.tests.insert(i, test);
                proof {
                    assert(group.tests@ =~= og.tests@.update(i as int, group.tests@[i as int]));
                }
                self.groups.insert(g, group);
                proof {
                    assert(self.groups@ =~= before.groups@.update(g as int, self.groups@[g as int]));
                }
            },
        }
        let done = self.test_at(cursor);
        match done.get_next_step() {
            TapNext::InGroup(i) => match cursor {
                TapCursor::Autostart(_) => if i < self.autostart.tests.len() {
                    Some(TapCursor::Autostart(i))
                } else {
                    None
                },
                TapCursor::Group(g, _) => if i < self.groups[g].tests.len() {
                    Some(TapCursor::Group(g, i))
                } else {
                    None
                },
            },
            TapNext::GroupStart(label) => match find_group(&self.groups, label) {
                Some(k) => if self.groups[k].tests.len() > 0 {
                    Some(TapCursor::Group(k, 0))
                } else {
                    None
                },
                None => if same_text(label, AUTOSTART) && self.autostart.tests.len() > 0 {
                    Some(TapCursor::Autostart(0))
                } else {
                    None
                },
            },
        }
    }
}

} // verus!

//! What an api does when the binder asks it to declare itself: the
//! verbosity each verb, event and handler ends up with, the names of the
//! verbs of a group, and the run of registrations that stops at the first
//! failure.

use crate::text::push_str;
use vstd::prelude::*;

verus! {

/// The verbosity an item ends up with under a parent of verbosity
/// `parent`: a negative verbosity is the item's own and is kept, made
/// positive; otherwise the higher of the two.
pub open spec fn inherited_verbosity(parent: i32, own: i32) -> i32 {
    if own < 0 {
        (-own) as i32
    } else if parent > own {
        parent
    } else {
        own
    }
}

/// Computes `inherited_verbosity`.
pub fn inherit_verbosity(parent: i32, own: i32) -> (r: i32)
    requires
        own != i32::MIN,
    ensures
        r == inherited_verbosity(parent, own),
{
    if own < 0 {
        -own
    } else if parent > own {
        parent
    } else {
        own
    }
}

/// The name a verb of a group is declared under: the group's prefix, the
/// separator and the verb's name, or the verb's name alone when the group
/// has no prefix.
pub open spec fn prefixed_name(prefix: Seq<char>, separator: Seq<char>, name: Seq<char>) -> Seq<char> {
    if prefix.len() > 0 {
        prefix + separator + name
    } else {
        name
    }
}

/// Computes `prefixed_name`.
pub fn group_verb_name(prefix: &str, separator: &str, name: &str) -> (r: String)
    ensures
        r@ == prefixed_name(prefix@, separator@, name@),
{
    let mut out = String::new();
    if prefix.unicode_len() > 0 {
        push_str(&mut out, prefix);
        push_str(&mut out, separator);
    }
    push_str(&mut out, name);
    proof {
        if prefix@.len() > 0 {
            assert(out@ =~= prefix@ + separator@ + name@);
        } else {
            assert(out@ =~= name@);
        }
    }
    out
}

/// Status of a run of registrations after the statuses `s` were answered:
/// the first negative one, else the last one, else 0.
pub open spec fn run_status(s: Seq<i32>) -> i32
    decreases s.len(),
{
    if s.len() == 0 {
        0
    } else if s[0] < 0 || s.len() == 1 {
        s[0]
    } else {
        run_status(s.drop_first())
    }
}

/// The registrations of `count` items, made one after the other; the run
/// stops at the first negative status.
pub ghost struct RegisterRunView {
    pub count: nat,
    pub answered: Seq<i32>,
}

/// What the run asks for next.
pub enum RegisterStep {
    /// Register the item at this position.
    Register(usize),
    /// The run is over, with this status.
    Finished(i32),
}

/// A run of registrations in progress.
pub struct RegisterRun {
    count: usize,
    done: usize,
    status: i32,
    answered: Ghost<Seq<i32>>,
}

impl View for RegisterRun {
    type V = RegisterRunView;

    closed spec fn view(&self) -> RegisterRunView {
        RegisterRunView { count: self.count as nat, answered: self.answered@ }
    }
}

impl RegisterRun {
    /// The run can go on: its invariant holds.
    pub closed spec fn wf(&self) -> bool {
        &&& self.done == self.answered@.len()
        &&& self.done <= self.count
        &&& forall|i: int| 0 <= i < self.answered@.len() - 1 ==> self.answered@[i] >= 0
        &&& self.status == run_status(self.answered@)
    }

    /// The run is over: every item was registered or one failed.
    pub open spec fn is_over(&self) -> bool {
        self@.answered.len() == self@.count || (self@.answered.len() > 0 && self@.answered.last() < 0)
    }

    /// A run over `count` items, none registered yet.
    pub fn new(count: usize) -> (r: RegisterRun)
        ensures
            r.wf(),
            r@ == (RegisterRunView { count: count as nat, answered: Seq::empty() }),
    {
        RegisterRun { count, done: 0, status: 0, answered: Ghost(Seq::empty()) }
    }

    /// The next step: the next item to register, or the final status.
    pub fn next_step(&self) -> (r: RegisterStep)
        requires
            self.wf(),
        ensures
            !self.is_over() ==> r == RegisterStep::Register(self@.answered.len() as usize),
            self.is_over() ==> r == RegisterStep::Finished(run_status(self@.answered)),
    {
        proof {
            if self.answered@.len() > 0 {
                lemma_run_status_last(self.answered@);
            }
        }
        if self.status < 0 || self.done == self.count {
            RegisterStep::Finished(self.status)
        } else {
            RegisterStep::Register(self.done)
        }
    }

    /// Records the status the binder answered for the item last asked for.
    pub fn record(&mut self, status: i32)
        requires
            old(self).wf(),
            !old(self).is_over(),
        ensures
            final(self).wf(),
            final(self)@ == (RegisterRunView { answered: old(self)@.answered.push(status), ..old(self)@ }),
    {
        let ghost next = self.answered@.push(status);
        proof {
            assert forall|i: int| 0 <= i < next.len() - 1 implies next[i] >= 0 by {
                if i < self.answered@.len() - 1 {
                } else {
                    assert(i == self.answered@.len() - 1);
                }
            }
            lemma_run_status_last(next);
        }
        self.done = self.done + 1;
        self.status = status;
        self.answered = Ghost(next);
    }
}

/// When every status but the last succeeded, the run's status is the last.
pub proof fn lemma_run_status_last(s: Seq<i32>)
    requires
        s.len() > 0,
        forall|i: int| 0 <= i < s.len() - 1 ==> s[i] >= 0,
    ensures
        run_status(s) == s.last(),
    decreases s.len(),
{
    if s.len() > 1 {
        assert(s[0] >= 0);
        let t = s.drop_first();
        assert forall|i: int| 0 <= i < t.len() - 1 implies t[i] >= 0 by {
            assert(t[i] == s[i + 1]);
        }
        lemma_run_status_last(t);
        assert(t.last() == s.last());
    }
}

} // verus!

//! The order of work when a plan is carried out: every stage is started
//! once, from left to right, and then every process that did start is
//! waited for, in the order in which they started. A stage that cannot be
//! started is reported and passed over; nothing is tried twice and nothing
//! that runs is stopped. The caller does what an action says and reports
//! what came of it.

use vstd::prelude::*;

verus! {

/// What the caller has to do next.
#[derive(Clone, Copy, PartialEq, Eq, Debug)]
pub enum Action {
    /// Open the streams of this stage and start its program.
    Start(usize),
    /// Wait for the process of this stage to end.
    Wait(usize),
    /// Nothing is left to do.
    Finish,
}

/// What came of an action.
#[derive(Clone, Copy, PartialEq, Eq, Debug)]
pub enum Outcome {
    /// The stage's process runs.
    Started,
    /// A file that the stage redirects to or from could not be opened.
    FileNotFound,
    /// The streams were there, but the program could not be started.
    SpawnFailed,
    /// The process has ended.
    Waited,
    /// Waiting for the process failed.
    WaitFailed,
}

/// A failure to report. None of them ends the work on the line.
#[derive(Clone, Copy, PartialEq, Eq, Debug)]
pub enum RunError {
    FileNotFound(usize),
    ProcessSpawnError(usize),
    ProcessWaitError(usize),
}

/// How far the work on one pipeline has come.
#[derive(Clone, PartialEq, Eq, Debug)]
pub struct Launcher {
    /// The number of stages.
    pub stages: usize,
    /// The next stage to start.
    pub next: usize,
    /// The stages whose processes started, in that order.
    pub started: Vec<usize>,
    /// How many of them have been waited for.
    pub waited: usize,
}

/// A launcher as the contracts see it.
pub ghost struct LauncherView {
    pub stages: nat,
    pub next: nat,
    pub started: Seq<usize>,
    pub waited: nat,
}

impl View for Launcher {
    type V = LauncherView;

    open spec fn view(&self) -> LauncherView {
        LauncherView {
            stages: self.stages as nat,
            next: self.next as nat,
            started: self.started@,
            waited: self.waited as nat,
        }
    }
}

impl LauncherView {
    /// The state before anything is done for a pipeline of `stages` stages.
    pub open spec fn initial(stages: nat) -> LauncherView {
        LauncherView { stages, next: 0, started: Seq::empty(), waited: 0 }
    }

    /// No stage beyond the next has started, the started stages stand in
    /// rising order, and waiting begins only when every stage was tried.
    pub open spec fn wf(self) -> bool {
        &&& self.next <= self.stages <= usize::MAX
        &&& self.waited <= self.started.len()
        &&& self.waited > 0 ==> self.next == self.stages
        &&& forall|k: int| 0 <= k < self.started.len() ==> (#[trigger] self.started[k]) < self.next
        &&& forall|j: int, k: int|
            0 <= j < k < self.started.len() ==> (#[trigger] self.started[j]) < (
            #[trigger] self.started[k])
    }

    /// The action that is due.
    pub open spec fn pending(self) -> Action {
        if self.next < self.stages {
            Action::Start(self.next as usize)
        } else if self.waited < self.started.len() {
            Action::Wait(self.started[self.waited as int])
        } else {
            Action::Finish
        }
    }

    /// The state after `outcome` was reported for the pending action. An
    /// outcome that does not answer the pending action changes nothing.
    pub open spec fn after(self, outcome: Outcome) -> LauncherView {
        match (self.pending(), outcome) {
            (Action::Start(i), Outcome::Started) => LauncherView {
                next: self.next + 1,
                started: self.started.push(i),
                ..self
            },
            (Action::Start(_), Outcome::FileNotFound) => LauncherView {
                next: self.next + 1,
                ..self
            },
            (Action::Start(_), Outcome::SpawnFailed) => LauncherView {
                next: self.next + 1,
                ..self
            },
            (Action::Wait(_), Outcome::Waited) => LauncherView { waited: self.waited + 1, ..self },
            (Action::Wait(_), Outcome::WaitFailed) => LauncherView {
                waited: self.waited + 1,
                ..self
            },
            _ => self,
        }
    }

    /// What is to be reported when `outcome` answers the pending action.
    pub open spec fn report(self, outcome: Outcome) -> Option<RunError> {
        match (self.pending(), outcome) {
            (Action::Start(i), Outcome::FileNotFound) => Some(RunError::FileNotFound(i)),
            (Action::Start(i), Outcome::SpawnFailed) => Some(RunError::ProcessSpawnError(i)),
            (Action::Wait(i), Outcome::WaitFailed) => Some(RunError::ProcessWaitError(i)),
            _ => None,
        }
    }

    /// The state after a sequence of outcomes, each answering the action
    /// that was pending when it came.
    pub open spec fn after_all(self, outcomes: Seq<Outcome>) -> LauncherView
        decreases outcomes.len(),
    {
        if outcomes.len() == 0 {
            self
        } else {
            self.after_all(outcomes.drop_last()).after(outcomes.last())
        }
    }
}

impl Launcher {
    /// The launcher for a pipeline of `stages` stages.
    pub fn new(stages: usize) -> (l: Launcher)
        ensures
            l@ == LauncherView::initial(stages as nat),
            l@.wf(),
    {
        Launcher { stages, next: 0, started: Vec::new(), waited: 0 }
    }

    /// The action that is due.
    pub fn next_action(&self) -> (a: Action)
        ensures
            a == self@.pending(),
    {
        if self.next < self.stages {
            Action::Start(self.next)
        } else if self.waited < self.started.len() {
            Action::Wait(self.started[self.waited])
        } else {
            Action::Finish
        }
    }

    /// Takes note of what came of the pending action, and says what is to
    /// be reported to the user.
    pub fn record(&mut self, outcome: Outcome) -> (report: Option<RunError>)
        ensures
            final(self)@ == old(self)@.after(outcome),
            report == old(self)@.report(outcome),
            old(self)@.wf() ==> final(self)@.wf(),
    {
        let ghost before = self@;
        let report = if self.next < self.stages {
            let i: usize = self.next;
            match outcome {
                Outcome::Started => {
                    self.next = i + 1;
                    self.started.push(i);
                    None
                },
                Outcome::FileNotFound => {
                    self.next = i + 1;
                    Some(RunError::FileNotFound(i))
                },
                Outcome::SpawnFailed => {
                    self.next = i + 1;
                    Some(RunError::ProcessSpawnError(i))
                },
                _ => None,
            }
        } else if self.waited < self.started.len() {
            let i: usize = self.started[self.waited];
            match outcome {
                Outcome::Waited => {
                    self.waited = self.waited + 1;
                    None
                },
                Outcome::WaitFailed => {
                    self.waited = self.waited + 1;
                    Some(RunError::ProcessWaitError(i))
                },
                _ => None,
            }
        } else {
            None
        };
        proof {
            if before.wf() {
                step_keeps_order(before, outcome);
            }
        }
        report
    }
}

/// Every step keeps the launcher well formed.
pub proof fn step_keeps_order(v: LauncherView, outcome: Outcome)
    requires
        v.wf(),
    ensures
        v.after(outcome).wf(),
{
    let w = v.after(outcome);
    assert forall|k: int| 0 <= k < w.started.len() implies (#[trigger] w.started[k]) < w.next by {
        if k < v.started.len() {
            assert(w.started[k] == v.started[k]);
        }
    }
    assert forall|j: int, k: int| 0 <= j < k < w.started.len() implies (#[trigger] w.started[j]) < (
    #[trigger] w.started[k]) by {
        if k < v.started.len() {
            assert(w.started[j] == v.started[j]);
            assert(w.started[k] == v.started[k]);
        } else {
            assert(w.started[j] == v.started[j]);
        }
    }
}

/// Where every stage starts, a pipeline of N stages gives N processes, one
/// for each stage and in the order of the stages, and the first of them is
/// then the first to be waited for.
pub proof fn every_stage_starts_once(n: nat, k: nat)
    requires
        k <= n <= usize::MAX,
    ensures
        ({
            let v = LauncherView::initial(n).after_all(Seq::new(k, |i: int| Outcome::Started));
            &&& v.stages == n
            &&& v.next == k
            &&& v.waited == 0
            &&& v.started == Seq::new(k, |i: int| i as usize)
            &&& v.wf()
        }),
    decreases k,
{
    let all = Seq::new(k, |i: int| Outcome::Started);
    if k > 0 {
        every_stage_starts_once(n, (k - 1) as nat);
        let fewer = Seq::new((k - 1) as nat, |i: int| Outcome::Started);
        assert(all.drop_last() =~= fewer);
        let u = LauncherView::initial(n).after_all(fewer);
        let v = u.after(Outcome::Started);
        step_keeps_order(u, Outcome::Started);
        assert(v.started =~= Seq::new(k, |i: int| i as usize));
    }
}

/// Once every stage was tried, the processes are waited for in the order
/// in which they started, each once, whether or not a wait fails: after
/// `k` answers the next to wait for is the one that started as the `k`th.
pub proof fn waits_follow_launch_order(v: LauncherView, answers: Seq<Outcome>)
    requires
        v.wf(),
        v.next == v.stages,
        v.waited == 0,
        answers.len() <= v.started.len(),
        forall|i: int|
            0 <= i < answers.len() ==> (#[trigger] answers[i]) == Outcome::Waited || answers[i]
                == Outcome::WaitFailed,
    ensures
        ({
            let w = v.after_all(answers);
            &&& w.started == v.started
            &&& w.next == v.next
            &&& w.stages == v.stages
            &&& w.waited == answers.len()
            &&& w.pending() == if answers.len() < v.started.len() {
                Action::Wait(v.started[answers.len() as int])
            } else {
                Action::Finish
            }
        }),
    decreases answers.len(),
{
    if answers.len() > 0 {
        waits_follow_launch_order(v, answers.drop_last());
        assert(answers.last() == answers[answers.len() - 1]);
    }
}

} // verus!

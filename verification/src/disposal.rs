//! Outcomes and records of disposals.
use crate::error::CordisError;
use crate::state::{CleanupPhase, DisposalPhase};
use crate::text::{concat, join};
#[allow(unused_imports)]
use crate::text::{joined, views};
use std::sync::Arc;
use vstd::prelude::*;

verus! {

/// One diagnostic of a cleanup that went on in spite of it.
#[derive(Debug, PartialEq, Eq)]
pub struct CleanupIssue {
    pub phase: CleanupPhase,
    pub message: String,
    pub cause: Option<CordisError>,
}

impl CleanupIssue {
    /// The diagnostic that stands for `error` in `phase`.
    pub open spec fn records(self, phase: CleanupPhase, error: CordisError) -> bool {
        self.phase == phase && self.message@ == error.text() && self.cause == Some(error)
    }

    /// How the issue reads in a report.
    pub open spec fn text(self) -> Seq<char> {
        self.phase.text() + ": "@ + self.message@
    }

    /// The issue as an error: its cause, or its own words.
    pub open spec fn is_error(self, error: CordisError, words: Seq<char>) -> bool {
        match self.cause {
            Some(cause) => error == cause,
            None => error matches CordisError::PluginDisposeFailed(message) && message@ == words,
        }
    }

    /// The diagnostic that stands for `error` in `phase`.
    pub fn of(phase: CleanupPhase, error: CordisError) -> (issue: Self)
        ensures
            issue.records(phase, error),
    {
        CleanupIssue { phase, message: error.to_string(), cause: Some(error) }
    }

    /// How the issue reads in a report.
    pub fn report_text(&self) -> (text: String)
        ensures
            text@ == self.text(),
    {
        let mut text = concat(self.phase.debug_text(), ": ");
        text.append(self.message.as_str());
        text
    }
}

impl Clone for CleanupIssue {
    fn clone(&self) -> (issue: Self)
        ensures
            issue == *self,
    {
        CleanupIssue {
            phase: self.phase,
            message: self.message.clone(),
            cause: match &self.cause {
                Some(cause) => Some(cause.clone()),
                None => None,
            },
        }
    }
}

/// How each issue reads.
pub open spec fn issue_texts(issues: Seq<CleanupIssue>) -> Seq<Seq<char>> {
    Seq::new(issues.len(), |i: int| issues[i].text())
}

/// How a list of issues reads.
pub open spec fn issues_text(issues: Seq<CleanupIssue>) -> Seq<char> {
    joined(issue_texts(issues), "; "@)
}

/// A copy of `issues`.
pub fn clone_issues(issues: &Vec<CleanupIssue>) -> (copy: Vec<CleanupIssue>)
    ensures
        copy@ == issues@,
{
    let mut copy: Vec<CleanupIssue> = Vec::new();
    append_issues(&mut copy, issues);
    assert(copy@ =~= issues@);
    copy
}

/// Adds a copy of `more` to `issues`.
pub fn append_issues(issues: &mut Vec<CleanupIssue>, more: &Vec<CleanupIssue>)
    ensures
        final(issues)@ == old(issues)@ + more@,
{
    let mut i: usize = 0;
    while i < more.len()
        invariant
            i <= more@.len(),
            issues@ == old(issues)@ + more@.take(i as int),
        decreases more@.len() - i,
    {
        issues.push(more[i].clone());
        i += 1;
        proof {
            assert(issues@ =~= old(issues)@ + more@.take(i as int));
        }
    }
    proof {
        assert(more@.take(i as int) =~= more@);
    }
}

/// How a list of issues reads.
pub fn report(issues: &Vec<CleanupIssue>) -> (text: String)
    ensures
        text@ == issues_text(issues@),
{
    let mut parts: Vec<String> = Vec::new();
    let mut i: usize = 0;
    while i < issues.len()
        invariant
            i <= issues@.len(),
            parts@.len() == i,
            forall|k: int| 0 <= k < i ==> (#[trigger] parts@[k])@ == issues@[k].text(),
        decreases issues@.len() - i,
    {
        parts.push(issues[i].report_text());
        i += 1;
    }
    proof {
        assert(views(parts@) =~= issue_texts(issues@));
    }
    join(&parts, "; ")
}

/// Whether a disposal reached its end.
#[derive(Debug, PartialEq, Eq)]
pub enum DisposalTerminal {
    /// The disposal committed.
    Committed,
    /// The disposal ended early, for this reason.
    Incomplete(CordisError),
}

/// The durable truth of one disposal.
#[derive(Debug, PartialEq, Eq)]
pub struct DisposalObservation {
    pub legacy_result: Result<(), CordisError>,
    pub terminal: DisposalTerminal,
    pub issues: Vec<CleanupIssue>,
}

/// Outcome of a fiber disposal.
#[derive(Debug, PartialEq, Eq)]
pub enum DisposeOutcome {
    Disposed,
    CommittedWithCleanupIssues { issues: Vec<CleanupIssue> },
    Incomplete { primary: CordisError, issues: Vec<CleanupIssue> },
}

/// Outcome of a scope disposal.
#[derive(Debug, PartialEq, Eq)]
pub enum ScopeDisposeOutcome {
    Disposed,
    CommittedWithCleanupIssues { issues: Vec<CleanupIssue> },
    Incomplete { primary: CordisError, issues: Vec<CleanupIssue> },
}

impl DisposalObservation {
    /// The outcome of the fiber disposal that was observed.
    pub fn fiber_outcome(&self) -> (outcome: DisposeOutcome)
        ensures
            match self.terminal {
                DisposalTerminal::Incomplete(error) => outcome matches DisposeOutcome::Incomplete {
                    primary,
                    issues,
                } && primary == error && issues@ == self.issues@,
                DisposalTerminal::Committed => if self.issues@.len() == 0 {
                    outcome is Disposed
                } else {
                    outcome matches DisposeOutcome::CommittedWithCleanupIssues { issues }
                        && issues@ == self.issues@
                },
            },
    {
        match &self.terminal {
            DisposalTerminal::Incomplete(error) => DisposeOutcome::Incomplete {
                primary: error.clone(),
                issues: clone_issues(&self.issues),
            },
            DisposalTerminal::Committed => if self.issues.len() == 0 {
                DisposeOutcome::Disposed
            } else {
                DisposeOutcome::CommittedWithCleanupIssues { issues: clone_issues(&self.issues) }
            },
        }
    }

    /// The outcome of the scope disposal that was observed.
    pub fn scope_outcome(&self) -> (outcome: ScopeDisposeOutcome)
        ensures
            match self.terminal {
                DisposalTerminal::Incomplete(error) => outcome matches
                    ScopeDisposeOutcome::Incomplete { primary, issues } && primary == error
                    && issues@ == self.issues@,
                DisposalTerminal::Committed => if self.issues@.len() == 0 {
                    outcome is Disposed
                } else {
                    outcome matches ScopeDisposeOutcome::CommittedWithCleanupIssues { issues }
                        && issues@ == self.issues@
                },
            },
    {
        match &self.terminal {
            DisposalTerminal::Incomplete(error) => ScopeDisposeOutcome::Incomplete {
                primary: error.clone(),
                issues: clone_issues(&self.issues),
            },
            DisposalTerminal::Committed => if self.issues.len() == 0 {
                ScopeDisposeOutcome::Disposed
            } else {
                ScopeDisposeOutcome::CommittedWithCleanupIssues {
                    issues: clone_issues(&self.issues),
                }
            },
        }
    }
}

/// Record of a fiber's disposal.
#[derive(Debug)]
pub struct FiberDisposal {
    pub phase: DisposalPhase,
    pub wait_for_dependencies: bool,
    pub persistent_drain: bool,
    pub errors: Vec<CleanupIssue>,
    pub result: Option<Result<(), CordisError>>,
    pub observation: Option<Arc<DisposalObservation>>,
}

impl FiberDisposal {
    /// A disposal that nobody asked for yet.
    pub open spec fn is_idle(self) -> bool {
        &&& self.phase is Idle
        &&& self.wait_for_dependencies
        &&& !self.persistent_drain
        &&& self.errors@ == Seq::<CleanupIssue>::empty()
        &&& self.result is None
        &&& self.observation is None
    }

    pub fn idle() -> (disposal: Self)
        ensures
            disposal.is_idle(),
    {
        FiberDisposal {
            phase: DisposalPhase::Idle,
            wait_for_dependencies: true,
            persistent_drain: false,
            errors: Vec::new(),
            result: None,
            observation: None,
        }
    }
}

/// Record of a scope's disposal.
#[derive(Debug)]
pub struct ScopeDisposal {
    pub persistent: bool,
    pub issues: Vec<CleanupIssue>,
    pub result: Option<Result<(), CordisError>>,
    pub observation: Option<Arc<DisposalObservation>>,
}

impl ScopeDisposal {
    /// A disposal that nobody asked for yet.
    pub open spec fn is_idle(self) -> bool {
        &&& !self.persistent
        &&& self.issues@ == Seq::<CleanupIssue>::empty()
        &&& self.result is None
        &&& self.observation is None
    }

    pub fn idle() -> (disposal: Self)
        ensures
            disposal.is_idle(),
    {
        ScopeDisposal { persistent: false, issues: Vec::new(), result: None, observation: None }
    }
}

} // verus!

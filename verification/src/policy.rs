//! The self-update policy around the installation of a chosen release: it changes
//! just before the installation commits, and goes back only where the old
//! application is known to be in place.

use vstd::prelude::*;
use crate::errors::{AppError, ErrorView};
use crate::text::{chars_of, push_str, string_of};

verus! {

/// What is known of the installation.
#[derive(Debug, Clone, Copy, PartialEq, Eq, Structural)]
pub enum HistoricalPolicyInstallState {
    PreCommit,
    Mutated,
    RolledBack,
    OutcomeUnknown,
}

/// What the macOS installer reports.
#[derive(Debug, Clone, Copy, PartialEq, Eq, Structural)]
pub enum HistoricalMacEvidence {
    MutationStarted,
    MutationRolledBack,
}

/// What the Windows installer reports.
#[derive(Debug, Clone, Copy, PartialEq, Eq, Structural)]
pub enum OperationEvidence {
    MutationStarted,
    MutationRolledBack,
    OutcomeAmbiguous,
}

/// The number under which a state is kept.
pub open spec fn state_code(state: HistoricalPolicyInstallState) -> u8 {
    match state {
        HistoricalPolicyInstallState::PreCommit => 0u8,
        HistoricalPolicyInstallState::Mutated => 1u8,
        HistoricalPolicyInstallState::RolledBack => 2u8,
        HistoricalPolicyInstallState::OutcomeUnknown => 3u8,
    }
}

/// The state that a number stands for; an unknown number stands for the first.
pub open spec fn state_of(code: u8) -> HistoricalPolicyInstallState {
    if code == 1 {
        HistoricalPolicyInstallState::Mutated
    } else if code == 2 {
        HistoricalPolicyInstallState::RolledBack
    } else if code == 3 {
        HistoricalPolicyInstallState::OutcomeUnknown
    } else {
        HistoricalPolicyInstallState::PreCommit
    }
}

/// Whether the old policy may come back: nothing was changed, or it was undone.
pub open spec fn restorable(state: HistoricalPolicyInstallState) -> bool {
    state == HistoricalPolicyInstallState::PreCommit || state
        == HistoricalPolicyInstallState::RolledBack
}

impl HistoricalPolicyInstallState {
    /// The state that is kept in a cell.
    pub fn load(cell: &u8) -> (r: HistoricalPolicyInstallState)
        ensures
            r == state_of(*cell),
    {
        match *cell {
            1 => HistoricalPolicyInstallState::Mutated,
            2 => HistoricalPolicyInstallState::RolledBack,
            3 => HistoricalPolicyInstallState::OutcomeUnknown,
            _ => HistoricalPolicyInstallState::PreCommit,
        }
    }

    /// Keeps the state in a cell.
    pub fn store(self, cell: &mut u8)
        ensures
            *final(cell) == state_code(self),
            state_of(*final(cell)) == self,
    {
        *cell = match self {
            HistoricalPolicyInstallState::PreCommit => 0,
            HistoricalPolicyInstallState::Mutated => 1,
            HistoricalPolicyInstallState::RolledBack => 2,
            HistoricalPolicyInstallState::OutcomeUnknown => 3,
        };
    }

    /// Whether the old policy may come back.
    pub fn policy_may_be_restored(self) -> (r: bool)
        ensures
            r == restorable(self),
    {
        matches!(
            self,
            HistoricalPolicyInstallState::PreCommit | HistoricalPolicyInstallState::RolledBack
        )
    }
}

/// The state after a report of the macOS installer, whose swap is the only change.
pub open spec fn after_mac(evidence: HistoricalMacEvidence) -> HistoricalPolicyInstallState {
    match evidence {
        HistoricalMacEvidence::MutationStarted => HistoricalPolicyInstallState::Mutated,
        HistoricalMacEvidence::MutationRolledBack => HistoricalPolicyInstallState::RolledBack,
    }
}

/// The state after a report of the Windows installer. An unknown outcome stays
/// unknown, and only what was changed can be undone.
pub open spec fn after_windows(
    state: HistoricalPolicyInstallState,
    evidence: OperationEvidence,
) -> HistoricalPolicyInstallState {
    match evidence {
        OperationEvidence::OutcomeAmbiguous => HistoricalPolicyInstallState::OutcomeUnknown,
        OperationEvidence::MutationStarted => if state
            == HistoricalPolicyInstallState::OutcomeUnknown {
            state
        } else {
            HistoricalPolicyInstallState::Mutated
        },
        OperationEvidence::MutationRolledBack => if state
            == HistoricalPolicyInstallState::Mutated {
            HistoricalPolicyInstallState::RolledBack
        } else {
            state
        },
    }
}

/// Takes in a report of the macOS installer.
pub fn record_macos_policy_install_state(cell: &mut u8, evidence: HistoricalMacEvidence)
    ensures
        *final(cell) == state_code(after_mac(evidence)),
{
    match evidence {
        HistoricalMacEvidence::MutationStarted => {
            HistoricalPolicyInstallState::Mutated.store(cell);
        },
        HistoricalMacEvidence::MutationRolledBack => {
            HistoricalPolicyInstallState::RolledBack.store(cell);
        },
    }
}

/// Takes in a report of the Windows installer.
pub fn record_windows_policy_install_state(cell: &mut u8, evidence: OperationEvidence)
    ensures
        *final(cell) == state_code(after_windows(state_of(*old(cell)), evidence)),
{
    let current = HistoricalPolicyInstallState::load(cell);
    let next = match evidence {
        OperationEvidence::OutcomeAmbiguous => HistoricalPolicyInstallState::OutcomeUnknown,
        OperationEvidence::MutationStarted => if current
            == HistoricalPolicyInstallState::OutcomeUnknown {
            current
        } else {
            HistoricalPolicyInstallState::Mutated
        },
        OperationEvidence::MutationRolledBack => if current
            == HistoricalPolicyInstallState::Mutated {
            HistoricalPolicyInstallState::RolledBack
        } else {
            current
        },
    };
    next.store(cell);
}

/// The state after a row of reports.
pub open spec fn after_all(
    state: HistoricalPolicyInstallState,
    reports: Seq<OperationEvidence>,
) -> HistoricalPolicyInstallState
    decreases reports.len(),
{
    if reports.len() == 0 {
        state
    } else {
        after_windows(after_all(state, reports.drop_last()), reports.last())
    }
}

/// Once the outcome is unknown, no later report makes it known.
pub proof fn law_ambiguity_is_sticky(
    state: HistoricalPolicyInstallState,
    reports: Seq<OperationEvidence>,
)
    requires
        state == HistoricalPolicyInstallState::OutcomeUnknown,
    ensures
        after_all(state, reports) == HistoricalPolicyInstallState::OutcomeUnknown,
        !restorable(after_all(state, reports)),
    decreases reports.len(),
{
    if reports.len() > 0 {
        law_ambiguity_is_sticky(state, reports.drop_last());
    }
}

/// The old policy may come back only if no outcome is unknown and every change was
/// undone after it was begun.
pub proof fn law_restorable_only_when_undone(reports: Seq<OperationEvidence>)
    requires
        restorable(after_all(HistoricalPolicyInstallState::PreCommit, reports)),
    ensures
        forall|i: int|
            0 <= i < reports.len() ==> #[trigger] reports[i]
                != OperationEvidence::OutcomeAmbiguous,
        forall|i: int|
            0 <= i < reports.len() && #[trigger] reports[i] == OperationEvidence::MutationStarted
                ==> exists|j: int|
                i < j < reports.len() && #[trigger] reports[j]
                    == OperationEvidence::MutationRolledBack,
    decreases reports.len(),
{
    let first = HistoricalPolicyInstallState::PreCommit;
    if reports.len() > 0 {
        let less = reports.drop_last();
        let last = reports.last();
        let before = after_all(first, less);
        if before == HistoricalPolicyInstallState::Mutated {
            lemma_mutated(less);
            assert(last == OperationEvidence::MutationRolledBack);
            assert forall|i: int|
                0 <= i < reports.len() && #[trigger] reports[i]
                    == OperationEvidence::MutationStarted implies exists|j: int|
                i < j < reports.len() && #[trigger] reports[j]
                    == OperationEvidence::MutationRolledBack by {
                let n = reports.len() - 1;
                assert(reports[n] == OperationEvidence::MutationRolledBack);
            }
            assert forall|i: int| 0 <= i < reports.len() implies #[trigger] reports[i]
                != OperationEvidence::OutcomeAmbiguous by {
                if i < less.len() {
                    assert(less[i] == reports[i]);
                }
            }
        } else {
            law_restorable_only_when_undone(less);
            assert forall|i: int| 0 <= i < reports.len() implies #[trigger] reports[i]
                != OperationEvidence::OutcomeAmbiguous by {
                if i < less.len() {
                    assert(less[i] == reports[i]);
                }
            }
            assert forall|i: int|
                0 <= i < reports.len() && #[trigger] reports[i]
                    == OperationEvidence::MutationStarted implies exists|j: int|
                i < j < reports.len() && #[trigger] reports[j]
                    == OperationEvidence::MutationRolledBack by {
                assert(i < less.len());
                assert(less[i] == reports[i]);
                let j = choose|j: int|
                    i < j < less.len() && #[trigger] less[j]
                        == OperationEvidence::MutationRolledBack;
                assert(reports[j] == less[j]);
            }
        }
    }
}

proof fn lemma_mutated(reports: Seq<OperationEvidence>)
    requires
        after_all(HistoricalPolicyInstallState::PreCommit, reports)
            != HistoricalPolicyInstallState::OutcomeUnknown,
    ensures
        forall|i: int|
            0 <= i < reports.len() ==> #[trigger] reports[i]
                != OperationEvidence::OutcomeAmbiguous,
    decreases reports.len(),
{
    if reports.len() > 0 {
        let less = reports.drop_last();
        lemma_mutated(less);
        assert forall|i: int| 0 <= i < reports.len() implies #[trigger] reports[i]
            != OperationEvidence::OutcomeAmbiguous by {
            if i < less.len() {
                assert(less[i] == reports[i]);
            }
        }
    }
}

// ---------------------------------------------------------------------------
// Changing the policy and changing it back
// ---------------------------------------------------------------------------

/// A change of the self-update policy.
#[derive(Debug, Clone, Copy, PartialEq, Eq, Structural)]
pub struct SelfUpdatePolicyTransition {
    pub previous_disabled: bool,
    pub requested_disabled: bool,
}

/// The policy during one installation.
#[derive(Debug)]
pub struct PolicyTracker {
    pub previous: bool,
    pub requested: bool,
    /// The new policy was written, or it was tried.
    pub attempted: bool,
    /// The old policy came back with the rollback of the application.
    pub restored: bool,
    /// What is known of the installation.
    pub state: u8,
}

impl PolicyTracker {
    /// An installation that has not begun.
    pub fn new(previous: bool, requested: bool) -> (r: PolicyTracker)
        ensures
            r.previous == previous,
            r.requested == requested,
            !r.attempted,
            !r.restored,
            state_of(r.state) == HistoricalPolicyInstallState::PreCommit,
    {
        PolicyTracker { previous, requested, attempted: false, restored: false, state: 0 }
    }

    /// The change that the installation makes, if it makes one.
    pub fn transition(&self) -> (r: Option<SelfUpdatePolicyTransition>)
        ensures
            match r {
                Some(t) => self.previous != self.requested && t.previous_disabled
                    == self.previous && t.requested_disabled == self.requested,
                None => self.previous == self.requested,
            },
    {
        if self.previous != self.requested {
            Some(
                SelfUpdatePolicyTransition {
                    previous_disabled: self.previous,
                    requested_disabled: self.requested,
                },
            )
        } else {
            None
        }
    }

    /// The installation is about to commit: the policy to write.
    pub fn before_commit(&mut self) -> (r: bool)
        ensures
            r == old(self).requested,
            *final(self) == (PolicyTracker { attempted: true, ..*old(self) }),
    {
        self.attempted = true;
        self.requested
    }

    /// Whether the rollback of the application brings the old policy back.
    pub fn restores_with_rollback(&self) -> (r: bool)
        ensures
            r == (self.previous != self.requested && self.attempted),
    {
        self.previous != self.requested && self.attempted
    }

    /// The rollback of the application is done, the policy with it.
    pub fn rollback_done(&mut self)
        ensures
            *final(self) == (PolicyTracker { restored: true, ..*old(self) }),
    {
        self.restored = true;
    }

    /// The worker is gone: whether the application was changed is unknown.
    pub fn worker_lost(&mut self)
        ensures
            *final(self) == (PolicyTracker { state: 3, ..*old(self) }),
    {
        self.state = 3;
    }

    /// Whether the old policy comes back after a failure.
    pub fn must_restore(&self) -> (r: bool)
        ensures
            r == must_restore(*self),
    {
        self.previous != self.requested && self.attempted && !self.restored
            && HistoricalPolicyInstallState::load(&self.state).policy_may_be_restored()
    }
}

/// Whether the old policy comes back after a failure: it differs, the new one may be
/// in place, it has not come back yet, and the old application is known to be there.
pub open spec fn must_restore(t: PolicyTracker) -> bool {
    t.previous != t.requested && t.attempted && !t.restored && restorable(state_of(t.state))
}

/// The policy is left alone after a worker was lost.
pub proof fn law_lost_worker_keeps_policy(t: PolicyTracker)
    requires
        t.state == 3,
    ensures
        !must_restore(t),
{
}

/// The error after the old policy was brought back, or could not be.
pub fn rollback_historical_policy_after_failure(
    primary: AppError,
    rollback: &Result<(), AppError>,
) -> (r: AppError)
    ensures
        match *rollback {
            Ok(()) => r@ == primary@,
            Err(e) => r@ == ErrorView::Internal(
                primary@.words() + "；同时恢复安装前的 Codex 自更新策略失败："@ + e@.words(),
            ),
        },
{
    match rollback {
        Ok(()) => primary,
        Err(e) => {
            let first = primary.text();
            let second = e.text();
            let mut words = chars_of(first.as_str());
            push_str(&mut words, "；同时恢复安装前的 Codex 自更新策略失败：");
            push_str(&mut words, second.as_str());
            AppError::Internal(string_of(words.as_slice()))
        },
    }
}

} // verus!

//! Operations and their leases: who may begin one, what a download reports, and
//! what an operation that failed leaves behind.

use vstd::prelude::*;
use crate::errors::{internal, stale, AppError, ErrorView};
use crate::target::OperatingSystem;
use crate::text::{str_eq, text_of};
use crate::url_policy::text_view;

verus! {

/// What an operation does.
#[derive(Debug, Clone, Copy, PartialEq, Eq, Structural)]
pub enum OperationKind {
    Install,
    Update,
    Uninstall,
    Adopt,
    SetInstallRoot,
}

/// How far an operation has come.
#[derive(Debug, Clone, Copy, PartialEq, Eq, Structural)]
pub enum OperationPhase {
    Preparing,
    Downloading,
    Verifying,
    Committing,
    Finishing,
}

/// Why a lease was not given.
#[derive(Debug, Clone, Copy, PartialEq, Eq, Structural)]
pub enum LeaseFault {
    InvalidToken,
    BusySameProcess,
    BusyOtherProcess,
    Other,
}

/// A lease that was not given, with the error that it is by itself.
#[derive(Debug)]
pub struct OperationError {
    pub fault: LeaseFault,
    pub error: AppError,
}

/// The error that a refused token becomes: one that is not valid is a stale
/// expectation.
pub open spec fn token_error(e: OperationError) -> ErrorView {
    if e.fault == LeaseFault::InvalidToken {
        ErrorView::StaleExpectation("操作令牌无效或已过期，请重新检查后再确认"@)
    } else {
        e.error@
    }
}

/// The error that a refused token becomes.
pub fn destructive_token_error(e: OperationError) -> (r: AppError)
    ensures
        r@ == token_error(e),
{
    if e.fault == LeaseFault::InvalidToken {
        stale("操作令牌无效或已过期，请重新检查后再确认")
    } else {
        e.error
    }
}

/// Lets only updates and uninstallations have a destructive token.
pub fn arm_destructive(kind: OperationKind) -> (r: Result<(), AppError>)
    ensures
        match r {
            Ok(()) => kind == OperationKind::Update || kind == OperationKind::Uninstall,
            Err(e) => kind != OperationKind::Update && kind != OperationKind::Uninstall && e@
                == ErrorView::Internal("仅 update/uninstall 操作可使用破坏性令牌"@),
        },
{
    if kind == OperationKind::Update || kind == OperationKind::Uninstall {
        Ok(())
    } else {
        Err(internal("仅 update/uninstall 操作可使用破坏性令牌"))
    }
}

/// Lets a destructive command through only on its system and with confirmation.
pub fn require_confirmation(
    os: OperatingSystem,
    wanted: OperatingSystem,
    confirm: bool,
    refusal: &str,
) -> (r: Result<(), AppError>)
    ensures
        match r {
            Ok(()) => os == wanted && confirm,
            Err(e) => if os != wanted {
                e@ == ErrorView::UnsupportedPlatform
            } else {
                !confirm && e@ == ErrorView::Internal(refusal@)
            },
        },
{
    if os != wanted {
        return Err(AppError::UnsupportedPlatform);
    }
    if !confirm {
        return Err(internal(refusal));
    }
    Ok(())
}

// ---------------------------------------------------------------------------
// Progress
// ---------------------------------------------------------------------------

/// What a download reports, with the operation that it belongs to.
#[derive(Debug)]
pub struct DownloadProgressEvent {
    pub downloaded: u64,
    pub total: u64,
    pub source: String,
    pub operation_id: String,
}

/// Whether bytes are in flight.
pub open spec fn in_flight(downloaded: u64, total: u64) -> bool {
    total > 0 && downloaded < total
}

/// The report of a download, and the phase that it shows.
pub fn download_progress(
    operation_id: &str,
    downloaded: u64,
    total: u64,
    source: &str,
) -> (r: (DownloadProgressEvent, Option<OperationPhase>))
    ensures
        r.0.downloaded == downloaded,
        r.0.total == total,
        r.0.source@ == source@,
        r.0.operation_id@ == operation_id@,
        r.1 == (if in_flight(downloaded, total) {
            Some(OperationPhase::Downloading)
        } else {
            None::<OperationPhase>
        }),
{
    let event = DownloadProgressEvent {
        downloaded,
        total,
        source: text_of(source),
        operation_id: text_of(operation_id),
    };
    let phase = if total > 0 && downloaded < total {
        Some(OperationPhase::Downloading)
    } else {
        None
    };
    (event, phase)
}

// ---------------------------------------------------------------------------
// Pauses
// ---------------------------------------------------------------------------

/// Whether an error shows that a retained pause can never be resumed.
pub open spec fn is_stale(e: ErrorView) -> bool {
    e is StaleExpectation
}

/// Drops the retained pause if the error shows that it can never be resumed.
pub fn invalidate_retained_pause_if_stale(paused: &mut Option<String>, error: &AppError)
    ensures
        text_view(*final(paused)) == (if is_stale(error@) {
            None
        } else {
            text_view(*old(paused))
        }),
{
    match error {
        AppError::StaleExpectation(_) => {
            *paused = None;
        },
        _ => {},
    }
}

/// Whether an error is a stale expectation.
pub fn error_is_stale(error: &AppError) -> (r: bool)
    ensures
        r == is_stale(error@),
{
    matches!(error, AppError::StaleExpectation(_))
}

// ---------------------------------------------------------------------------
// Retrying what an installation left undone
// ---------------------------------------------------------------------------

/// Whether a list of actions holds one.
pub open spec fn lists(actions: Seq<String>, action: Seq<char>) -> bool {
    exists|i: int| 0 <= i < actions.len() && (#[trigger] actions[i])@ == action
}

/// What a retry holds while it runs.
#[derive(Debug, Clone, Copy, PartialEq, Eq, Structural)]
pub enum RetryGuard {
    /// An ordinary lease.
    Scoped,
    /// A destructive token, in the phase that cannot be interrupted.
    Destructive,
}

/// How a retry may run, or why not. Removing the user's data needs both an explicit
/// confirmation and a destructive token.
pub open spec fn retry_verdict(
    purge: bool,
    confirm: Option<bool>,
    has_token: bool,
) -> Result<RetryGuard, ErrorView> {
    if !purge {
        Ok(RetryGuard::Scoped)
    } else if confirm != Some(true) {
        Err(ErrorView::Internal("清除用户数据需要二次确认（confirm=true）"@))
    } else if !has_token {
        Err(ErrorView::Internal("清除用户数据需要破坏性令牌（先 arm_destructive uninstall）"@))
    } else {
        Ok(RetryGuard::Destructive)
    }
}

/// Whether a retry removes the user's data: it was asked for, and it is listed.
pub fn retry_purges(purge_user_data: bool, actions: &Vec<String>, purge_action: &str) -> (r: bool)
    ensures
        r == (purge_user_data && lists(actions@, purge_action@)),
{
    if !purge_user_data {
        return false;
    }
    let mut i: usize = 0;
    while i < actions.len()
        invariant
            purge_user_data,
            i <= actions@.len(),
            forall|j: int| 0 <= j < i ==> (#[trigger] actions@[j])@ != purge_action@,
        decreases actions@.len() - i,
    {
        if str_eq(actions[i].as_str(), purge_action) {
            return true;
        }
        i += 1;
    }
    false
}

/// How a retry may run.
pub fn retry_ancillary(purge: bool, confirm: Option<bool>, has_token: bool) -> (r: Result<
    RetryGuard,
    AppError,
>)
    ensures
        match r {
            Ok(g) => retry_verdict(purge, confirm, has_token) == Ok::<RetryGuard, ErrorView>(g),
            Err(e) => retry_verdict(purge, confirm, has_token) == Err::<RetryGuard, ErrorView>(e@),
        },
{
    if !purge {
        return Ok(RetryGuard::Scoped);
    }
    match confirm {
        Some(true) => {},
        _ => {
            return Err(internal("清除用户数据需要二次确认（confirm=true）"));
        },
    }
    if !has_token {
        return Err(internal("清除用户数据需要破坏性令牌（先 arm_destructive uninstall）"));
    }
    Ok(RetryGuard::Destructive)
}

/// The user's data is removed only with a confirmation and a destructive token.
pub proof fn law_purge_needs_both(purge: bool, confirm: Option<bool>, has_token: bool)
    ensures
        retry_verdict(purge, confirm, has_token) is Ok && purge ==> confirm == Some(true)
            && has_token && retry_verdict(purge, confirm, has_token)->Ok_0
            == RetryGuard::Destructive,
{
}

// ---------------------------------------------------------------------------
// Downloading in advance
// ---------------------------------------------------------------------------

/// What a download in advance came to before anything was downloaded.
#[derive(Debug)]
pub struct AutoStageReport {
    pub enabled: bool,
    pub allow_metered: bool,
    pub attempted: bool,
    pub skipped: bool,
    pub reason: String,
    pub notes: Vec<String>,
}

/// The report of a pre-download that was skipped because another operation runs.
pub open spec fn busy_report(r: AutoStageReport, enabled: bool, allow_metered: bool) -> bool {
    &&& r.enabled == enabled
    &&& r.allow_metered == allow_metered
    &&& !r.attempted
    &&& r.skipped
    &&& r.reason@ == "operation-busy"@
    &&& r.notes@.len() == 1
    &&& r.notes@[0]@
        == "Automatic Windows pre-download was skipped because another operation is running."@
}

/// The report when another operation is running.
pub fn auto_stage_busy_report(enabled: bool, allow_metered: bool) -> (r: AutoStageReport)
    ensures
        busy_report(r, enabled, allow_metered),
{
    AutoStageReport {
        enabled,
        allow_metered,
        attempted: false,
        skipped: true,
        reason: text_of("operation-busy"),
        notes: vec![
            text_of(
                "Automatic Windows pre-download was skipped because another operation is running.",
            ),
        ],
    }
}

/// What to do about a lease for downloading in advance.
#[derive(Debug)]
pub enum AutoStage {
    /// Go on; hold the lease if there is one.
    Proceed,
    /// Another operation is running: report that nothing was tried.
    Skip(AutoStageReport),
    Fail(AppError),
}

/// What to do after asking for the lease. Being busy is no failure.
pub fn win_auto_stage_update(
    enabled: bool,
    allow_metered: bool,
    lease: Result<(), OperationError>,
) -> (r: AutoStage)
    ensures
        match r {
            AutoStage::Proceed => !enabled || lease is Ok,
            AutoStage::Skip(report) => enabled && lease is Err && is_busy(lease->Err_0)
                && busy_report(report, enabled, allow_metered),
            AutoStage::Fail(e) => enabled && lease is Err && !is_busy(lease->Err_0) && e@
                == lease->Err_0.error@,
        },
{
    if !enabled {
        return AutoStage::Proceed;
    }
    match lease {
        Ok(()) => AutoStage::Proceed,
        Err(e) => {
            if e.fault == LeaseFault::BusySameProcess || e.fault == LeaseFault::BusyOtherProcess {
                AutoStage::Skip(auto_stage_busy_report(enabled, allow_metered))
            } else {
                AutoStage::Fail(e.error)
            }
        },
    }
}

/// Whether another operation holds the lease.
pub open spec fn is_busy(e: OperationError) -> bool {
    e.fault == LeaseFault::BusySameProcess || e.fault == LeaseFault::BusyOtherProcess
}

// ---------------------------------------------------------------------------
// Guards
// ---------------------------------------------------------------------------

/// A lease that is given up when the command ends.
#[derive(Debug)]
pub struct DetachedGuard {
    /// The end is recorded as a completion.
    pub completion_tracking: bool,
    pub succeeded: bool,
    pub token: Option<String>,
}

/// What is done when a guard is given up.
#[derive(Debug)]
pub struct Release {
    pub token: String,
    /// The completion to record first, if one is recorded.
    pub record: Option<bool>,
}

impl DetachedGuard {
    /// The guard for a token that was found valid.
    pub fn new(token: String, completion_tracking: bool) -> (r: DetachedGuard)
        ensures
            r.completion_tracking == completion_tracking,
            !r.succeeded,
            r.token == Some(token),
    {
        DetachedGuard { completion_tracking, succeeded: false, token: Some(token) }
    }

    /// The operation succeeded.
    pub fn mark_succeeded(&mut self)
        ensures
            final(self).succeeded,
            final(self).token == old(self).token,
            final(self).completion_tracking == old(self).completion_tracking,
    {
        self.succeeded = true;
    }

    /// The token whose pause is confirmed: only a cancelled download has been paused.
    pub fn confirm_pause_if_cancelled(&self, cancelled: bool) -> (r: Option<String>)
        ensures
            text_view(r) == (if cancelled {
                text_view(self.token)
            } else {
                None
            }),
    {
        if !cancelled {
            return None;
        }
        match &self.token {
            Some(t) => Some(text_of(t.as_str())),
            None => None,
        }
    }

    /// The token whose outcome is marked as unknown: only past the point of no return.
    pub fn mark_outcome_ambiguous_if_noninterruptible(&self, past_return: bool) -> (r: Option<
        String,
    >)
        ensures
            text_view(r) == (if past_return {
                text_view(self.token)
            } else {
                None
            }),
    {
        if !past_return {
            return None;
        }
        match &self.token {
            Some(t) => Some(text_of(t.as_str())),
            None => None,
        }
    }

    /// What is done when the guard is given up. It is done once: afterwards there is
    /// nothing left to give up.
    pub fn release(&mut self) -> (r: Option<Release>)
        ensures
            final(self).token is None,
            final(self).succeeded == old(self).succeeded,
            final(self).completion_tracking == old(self).completion_tracking,
            match r {
                Some(rel) => old(self).token == Some(rel.token) && rel.record == (if old(
                    self,
                ).completion_tracking {
                    Some(old(self).succeeded)
                } else {
                    None::<bool>
                }),
                None => old(self).token is None,
            },
    {
        let token = self.token.take();
        match token {
            Some(token) => {
                let record = if self.completion_tracking {
                    Some(self.succeeded)
                } else {
                    None
                };
                Some(Release { token, record })
            },
            None => None,
        }
    }
}

} // verus!

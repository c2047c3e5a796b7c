//! What a transaction on the appearance settings does over a whole run, told by what each
//! step achieved.

use vstd::prelude::*;
use crate::digest::{hex, sha256};
use crate::errors::ErrorView;
use crate::theme_tx::{
    first_step, pending_words, tx_end, Purpose, TxEvent, TxStep, TxTurn, TxView,
};

verus! {

/// What a transaction has done. Each is set by its step alone; where a step has to go well,
/// only if it did.
pub struct TxFacts {
    pub pending_checked: bool,
    pub turned_off: bool,
    pub located: bool,
    pub observed: bool,
    pub running: bool,
    pub quit: bool,
    pub settled: bool,
    pub paths: bool,
    pub baseline_there: bool,
    pub begun: bool,
    pub stop_marked: bool,
    pub captured: bool,
    pub read: bool,
    pub planned: bool,
    pub staged: bool,
    pub written: bool,
    pub read_back: bool,
    pub verified: bool,
    pub commit_marked: bool,
    pub launched: bool,
    pub launch_marked: bool,
    pub port: bool,
    pub sent: bool,
    pub confirmed: bool,
    pub verify_marked: bool,
    pub dropped: bool,
    pub committed: bool,
    pub stash_removed: bool,
    pub relaunched: bool,
    pub paths_again: bool,
    pub paths_lost: bool,
    pub located_again: bool,
    pub quit_again: bool,
    pub settled_again: bool,
    pub cause_noted: bool,
    pub rolling_marked: bool,
    pub preimage_read: bool,
    pub restored: bool,
    pub rolled_marked: bool,
    pub recovery_marked: bool,
    pub worker_lost: bool,
}

/// Nothing is done yet.
pub open spec fn nothing_tried() -> TxFacts {
    TxFacts {
        pending_checked: false,
        turned_off: false,
        located: false,
        observed: false,
        running: false,
        quit: false,
        settled: false,
        paths: false,
        baseline_there: false,
        begun: false,
        stop_marked: false,
        captured: false,
        read: false,
        planned: false,
        staged: false,
        written: false,
        read_back: false,
        verified: false,
        commit_marked: false,
        launched: false,
        launch_marked: false,
        port: false,
        sent: false,
        confirmed: false,
        verify_marked: false,
        dropped: false,
        committed: false,
        stash_removed: false,
        relaunched: false,
        paths_again: false,
        paths_lost: false,
        located_again: false,
        quit_again: false,
        settled_again: false,
        cause_noted: false,
        rolling_marked: false,
        preimage_read: false,
        restored: false,
        rolled_marked: false,
        recovery_marked: false,
        worker_lost: false,
    }
}

/// Whether an event brings a preimage that can be trusted: its digest is the one on record.
pub open spec fn brings_preimage(event: TxEvent) -> bool {
    event matches TxEvent::Preimage { bytes, expected } && hex(sha256(bytes@)) == expected@
}

/// What a step adds to what was done.
pub open spec fn tx_adds(step: TxStep, event: TxEvent, was: TxFacts) -> TxFacts {
    let well = !(event is Failed);
    let yes = event is Yes;
    if event is Lost {
        if step == TxStep::Finished {
            was
        } else {
            TxFacts { worker_lost: true, ..was }
        }
    } else {
        match step {
            TxStep::CheckPending => TxFacts { pending_checked: well, ..was },
            TxStep::TurnOffLive => TxFacts { turned_off: true, ..was },
            TxStep::LocateInstall => TxFacts { located: well, ..was },
            TxStep::ObserveRunning => TxFacts { observed: true, running: yes, ..was },
            TxStep::QuitCodex => TxFacts { quit: well, ..was },
            TxStep::Settle => TxFacts { settled: true, ..was },
            TxStep::LocatePaths => TxFacts { paths: well, ..was },
            TxStep::CheckBaseline => TxFacts { baseline_there: yes, ..was },
            TxStep::BeginTx => TxFacts { begun: well, ..was },
            TxStep::MarkStopped => TxFacts { stop_marked: well, ..was },
            TxStep::CaptureBaseline => TxFacts { captured: well, ..was },
            TxStep::ReadConfig => TxFacts { read: well, ..was },
            TxStep::PlanConfig => TxFacts { planned: well, ..was },
            TxStep::StageTx => TxFacts { staged: well, ..was },
            TxStep::WriteConfig => TxFacts { written: well, ..was },
            TxStep::ReadBack => TxFacts { read_back: well, ..was },
            TxStep::VerifyCommit => TxFacts { verified: well, ..was },
            TxStep::MarkCommitted => TxFacts { commit_marked: well, ..was },
            TxStep::LaunchDebuggable => TxFacts { launched: well, ..was },
            TxStep::MarkLaunched => TxFacts { launch_marked: true, ..was },
            TxStep::AwaitPort => TxFacts { port: well, ..was },
            TxStep::SendDirective => TxFacts { sent: well, ..was },
            TxStep::ConfirmTheme => TxFacts { confirmed: well, ..was },
            TxStep::MarkVerified => TxFacts { verify_marked: true, ..was },
            TxStep::DropBaseline => TxFacts { dropped: well, ..was },
            TxStep::CommitTx => TxFacts { committed: well, ..was },
            TxStep::RemoveStash => TxFacts { stash_removed: true, ..was },
            TxStep::ForgetStash => TxFacts { stash_removed: true, ..was },
            TxStep::RelaunchUnrestored => TxFacts { relaunched: well, ..was },
            TxStep::RelaunchPlain => TxFacts { relaunched: well, ..was },
            TxStep::RelaunchAnyway => TxFacts { relaunched: true, ..was },
            TxStep::FindPathsAgain => TxFacts { paths_again: well, paths_lost: !well, ..was },
            TxStep::FindInstallAgain => TxFacts { located_again: well, ..was },
            TxStep::QuitAgain => TxFacts { quit_again: true, ..was },
            TxStep::SettleAgain => TxFacts { settled_again: true, ..was },
            TxStep::NoteCause => TxFacts { cause_noted: true, ..was },
            TxStep::MarkRollingBack => TxFacts { rolling_marked: true, ..was },
            TxStep::ReadPreimage => TxFacts { preimage_read: brings_preimage(event), ..was },
            TxStep::RestorePreimage => TxFacts { restored: well, ..was },
            TxStep::MarkRolledBack => TxFacts { rolled_marked: true, ..was },
            TxStep::MarkRecovery => TxFacts { recovery_marked: true, ..was },
            TxStep::Finished => was,
        }
    }
}

/// No other transaction is open and live themes are off, where the appearance is restored.
pub open spec fn cleared(purpose: Purpose, facts: TxFacts) -> bool {
    purpose == Purpose::Off ==> facts.pending_checked && facts.turned_off
}

/// Codex is found and stopped, but where only a snapshot is put back.
pub open spec fn halted(purpose: Purpose, facts: TxFacts) -> bool {
    &&& cleared(purpose, facts)
    &&& purpose != Purpose::Snapshot ==> facts.located && facts.observed && facts.quit
        && facts.settled
}

/// The transaction is open, and what it needs is at hand.
pub open spec fn opened(purpose: Purpose, facts: TxFacts) -> bool {
    &&& halted(purpose, facts)
    &&& facts.paths && facts.begun
    &&& purpose == Purpose::Off ==> facts.baseline_there
}

/// The configuration may be read: the stop is on record, and the user's own appearance is
/// kept before a theme takes its place.
pub open spec fn readable(purpose: Purpose, facts: TxFacts) -> bool {
    &&& opened(purpose, facts)
    &&& purpose != Purpose::Snapshot ==> facts.stop_marked
    &&& purpose == Purpose::Apply ==> facts.captured
}

/// The new text is staged with its transaction.
pub open spec fn staged(purpose: Purpose, facts: TxFacts) -> bool {
    readable(purpose, facts) && facts.read && facts.planned && facts.staged
}

/// The new text is in place, it was read back and verified, and that is on record.
pub open spec fn settled_in(purpose: Purpose, facts: TxFacts) -> bool {
    staged(purpose, facts) && facts.written && facts.read_back && facts.verified
        && facts.commit_marked
}

/// The theme shows: Codex was launched, was reached, was told, and confirmed it.
pub open spec fn shows(facts: TxFacts) -> bool {
    facts.launched && facts.launch_marked && facts.port && facts.sent && facts.confirmed
        && facts.verify_marked
}

/// Nothing was undone so far.
pub open spec fn straight(flow: TxView, facts: TxFacts) -> bool {
    &&& flow.error is None
    &&& !facts.paths_lost && !facts.cause_noted && !facts.rolled_marked && !facts.recovery_marked
    &&& !facts.worker_lost && !facts.relaunched
    &&& flow.was_running == facts.running
    &&& !flow.paths_lost
}

/// Something failed once the transaction was open. If that was after the new text was in
/// place, Codex was looked for again, and stopped again where it was found.
pub open spec fn being_rolled_back(flow: TxView, facts: TxFacts) -> bool {
    &&& flow.error is Some
    &&& facts.begun && !facts.committed && !facts.worker_lost && !facts.relaunched
    &&& flow.was_running == facts.running
    &&& flow.paths_lost == facts.paths_lost
    &&& !facts.rolled_marked && !facts.recovery_marked
}

/// What was done by the time of each step.
pub open spec fn tx_thorough(flow: TxView, facts: TxFacts) -> bool {
    let purpose = flow.purpose;
    let apply = purpose == Purpose::Apply;
    let off = purpose == Purpose::Off;
    let young = straight(flow, facts) && !facts.begun && !facts.committed;
    let under_way = straight(flow, facts) && facts.begun && !facts.committed;
    match flow.step {
        TxStep::CheckPending => young && off && !facts.running && !facts.commit_marked,
        TxStep::TurnOffLive => young && off && facts.pending_checked && !facts.running
            && !facts.commit_marked,
        TxStep::LocateInstall => young && purpose != Purpose::Snapshot && cleared(purpose, facts)
            && !facts.running && !facts.commit_marked,
        TxStep::ObserveRunning => young && purpose != Purpose::Snapshot && cleared(purpose, facts)
            && facts.located && !facts.running && !facts.commit_marked,
        TxStep::QuitCodex => young && purpose != Purpose::Snapshot && cleared(purpose, facts)
            && facts.located && facts.observed && !facts.commit_marked,
        TxStep::Settle => young && purpose != Purpose::Snapshot && cleared(purpose, facts)
            && facts.located && facts.observed && facts.quit && !facts.commit_marked,
        TxStep::LocatePaths => young && halted(purpose, facts) && !facts.commit_marked,
        TxStep::CheckBaseline => young && off && halted(purpose, facts) && facts.paths
            && !facts.commit_marked,
        TxStep::RelaunchUnrestored => young && off && halted(purpose, facts) && facts.paths
            && !facts.baseline_there && facts.running,
        TxStep::ForgetStash => off && halted(purpose, facts) && facts.paths
            && !facts.baseline_there && flow.error is None && (facts.running
            ==> facts.relaunched) && !facts.begun && !facts.committed && !facts.worker_lost
            && flow.was_running == facts.running,
        TxStep::BeginTx => young && halted(purpose, facts) && facts.paths && (off
            ==> facts.baseline_there) && !facts.commit_marked,
        TxStep::MarkStopped => under_way && purpose != Purpose::Snapshot && opened(purpose, facts)
            && !facts.commit_marked,
        TxStep::CaptureBaseline => under_way && apply && opened(purpose, facts)
            && facts.stop_marked && !facts.commit_marked,
        TxStep::ReadConfig => under_way && readable(purpose, facts) && !facts.commit_marked,
        TxStep::PlanConfig => under_way && readable(purpose, facts) && facts.read
            && !facts.commit_marked,
        TxStep::StageTx => under_way && readable(purpose, facts) && facts.read && facts.planned
            && !facts.commit_marked,
        TxStep::WriteConfig => under_way && staged(purpose, facts) && !facts.commit_marked,
        TxStep::ReadBack => under_way && staged(purpose, facts) && facts.written
            && !facts.commit_marked,
        TxStep::VerifyCommit => under_way && staged(purpose, facts) && facts.written
            && facts.read_back && !facts.commit_marked,
        TxStep::MarkCommitted => under_way && staged(purpose, facts) && facts.written
            && facts.read_back && facts.verified && !facts.commit_marked,
        TxStep::LaunchDebuggable => under_way && apply && settled_in(purpose, facts),
        TxStep::MarkLaunched => under_way && apply && settled_in(purpose, facts) && facts.launched,
        TxStep::AwaitPort => under_way && apply && settled_in(purpose, facts) && facts.launched
            && facts.launch_marked,
        TxStep::SendDirective => under_way && apply && settled_in(purpose, facts)
            && facts.launched && facts.launch_marked && facts.port,
        TxStep::ConfirmTheme => under_way && apply && settled_in(purpose, facts)
            && facts.launched && facts.launch_marked && facts.port && facts.sent,
        TxStep::MarkVerified => under_way && apply && settled_in(purpose, facts)
            && facts.launched && facts.launch_marked && facts.port && facts.sent
            && facts.confirmed,
        TxStep::DropBaseline => under_way && off && settled_in(purpose, facts),
        TxStep::CommitTx => under_way && settled_in(purpose, facts) && (apply ==> shows(facts))
            && (off ==> facts.dropped),
        TxStep::RemoveStash => straight(flow, facts) && purpose != Purpose::Snapshot
            && settled_in(purpose, facts) && facts.committed && (apply ==> shows(facts)) && (off
            ==> facts.dropped),
        TxStep::RelaunchPlain => straight(flow, facts) && off && settled_in(purpose, facts)
            && facts.committed && facts.dropped && facts.stash_removed && facts.running,
        TxStep::FindPathsAgain => being_rolled_back(flow, facts) && apply && facts.commit_marked
            && !facts.paths_lost,
        TxStep::FindInstallAgain => being_rolled_back(flow, facts) && apply && facts.commit_marked
            && facts.paths_again && !facts.paths_lost,
        TxStep::QuitAgain => being_rolled_back(flow, facts) && apply && facts.commit_marked
            && facts.paths_again && facts.located_again && !facts.paths_lost,
        TxStep::SettleAgain => being_rolled_back(flow, facts) && apply && facts.commit_marked
            && facts.paths_again && facts.located_again && facts.quit_again && !facts.paths_lost,
        TxStep::NoteCause => being_rolled_back(flow, facts) && !facts.paths_lost
            && stopped_again(facts),
        TxStep::MarkRollingBack => being_rolled_back(flow, facts) && !facts.paths_lost
            && stopped_again(facts) && facts.cause_noted,
        TxStep::ReadPreimage => being_rolled_back(flow, facts) && !facts.paths_lost
            && stopped_again(facts) && facts.cause_noted && facts.rolling_marked,
        TxStep::RestorePreimage => being_rolled_back(flow, facts) && !facts.paths_lost
            && stopped_again(facts) && facts.cause_noted && facts.rolling_marked
            && facts.preimage_read,
        TxStep::MarkRolledBack => being_rolled_back(flow, facts) && !facts.paths_lost
            && stopped_again(facts) && facts.cause_noted && facts.rolling_marked
            && facts.preimage_read && facts.restored,
        TxStep::MarkRecovery => being_rolled_back(flow, facts) && (facts.paths_lost
            || !facts.preimage_read || !facts.restored),
        TxStep::RelaunchAnyway => flow.error is Some && facts.begun && !facts.committed
            && !facts.worker_lost && flow.was_running == facts.running && flow.paths_lost
            == facts.paths_lost && facts.running && !facts.paths_lost && undone(facts),
        TxStep::Finished => if flow.error is None {
            &&& !facts.worker_lost
            &&& apply ==> settled_in(purpose, facts) && shows(facts) && facts.committed
                && facts.stash_removed
            &&& purpose == Purpose::Snapshot ==> settled_in(purpose, facts) && facts.committed
            &&& off ==> halted(purpose, facts) && facts.paths && facts.stash_removed && (
            facts.running ==> facts.relaunched) && (if facts.baseline_there {
                settled_in(purpose, facts) && facts.dropped && facts.committed
            } else {
                !facts.begun && !facts.committed
            })
        } else {
            facts.worker_lost || !facts.begun || facts.committed || (purpose != Purpose::Apply
                && facts.commit_marked) || (undone(facts) && (facts.running && !facts.paths_lost
                ==> facts.relaunched))
        },
    }
}

/// Where the new text was in place already, Codex was looked for again, and if it was found,
/// it was stopped again.
pub open spec fn stopped_again(facts: TxFacts) -> bool {
    facts.commit_marked ==> facts.paths_again && (facts.located_again ==> facts.quit_again
        && facts.settled_again)
}

/// The old text was put back, or the evidence is kept because that could not be done.
pub open spec fn undone(facts: TxFacts) -> bool {
    ||| facts.rolled_marked && facts.restored && facts.preimage_read && stopped_again(facts)
    ||| facts.recovery_marked && (facts.paths_lost || !facts.preimage_read || !facts.restored)
}

/// What a row of steps has done.
pub open spec fn tx_done(flow: TxView, turns: Seq<TxTurn>) -> TxFacts
    decreases turns.len(),
{
    if turns.len() == 0 {
        nothing_tried()
    } else {
        let before = turns.drop_last();
        tx_adds(tx_end(flow, before).step, turns.last().event, tx_done(flow, before))
    }
}

#[verifier::spinoff_prover]
proof fn lemma_tx_early(flow: TxView, event: TxEvent, facts: TxFacts)
    requires
        tx_thorough(flow, facts),
        match flow.step {
            TxStep::CheckPending => true,
            TxStep::TurnOffLive => true,
            TxStep::LocateInstall => true,
            TxStep::ObserveRunning => true,
            TxStep::QuitCodex => true,
            TxStep::Settle => true,
            TxStep::LocatePaths => true,
            TxStep::CheckBaseline => true,
            TxStep::RelaunchUnrestored => true,
            TxStep::ForgetStash => true,
            TxStep::BeginTx => true,
            _ => false,
        },
    ensures
        tx_thorough(flow.next(event), tx_adds(flow.step, event, facts)),
        flow.next(event).purpose == flow.purpose,
{
}

#[verifier::spinoff_prover]
proof fn lemma_tx_writing(flow: TxView, event: TxEvent, facts: TxFacts)
    requires
        tx_thorough(flow, facts),
        match flow.step {
            TxStep::MarkStopped => true,
            TxStep::CaptureBaseline => true,
            TxStep::ReadConfig => true,
            TxStep::PlanConfig => true,
            TxStep::StageTx => true,
            TxStep::WriteConfig => true,
            TxStep::ReadBack => true,
            TxStep::VerifyCommit => true,
            TxStep::MarkCommitted => true,
            _ => false,
        },
    ensures
        tx_thorough(flow.next(event), tx_adds(flow.step, event, facts)),
        flow.next(event).purpose == flow.purpose,
{
}

#[verifier::spinoff_prover]
proof fn lemma_tx_showing(flow: TxView, event: TxEvent, facts: TxFacts)
    requires
        tx_thorough(flow, facts),
        match flow.step {
            TxStep::LaunchDebuggable => true,
            TxStep::MarkLaunched => true,
            TxStep::AwaitPort => true,
            TxStep::SendDirective => true,
            TxStep::ConfirmTheme => true,
            TxStep::MarkVerified => true,
            TxStep::DropBaseline => true,
            TxStep::CommitTx => true,
            TxStep::RemoveStash => true,
            TxStep::RelaunchPlain => true,
            _ => false,
        },
    ensures
        tx_thorough(flow.next(event), tx_adds(flow.step, event, facts)),
        flow.next(event).purpose == flow.purpose,
{
}

#[verifier::spinoff_prover]
proof fn lemma_tx_undoing(flow: TxView, event: TxEvent, facts: TxFacts)
    requires
        tx_thorough(flow, facts),
        match flow.step {
            TxStep::FindPathsAgain => true,
            TxStep::FindInstallAgain => true,
            TxStep::QuitAgain => true,
            TxStep::SettleAgain => true,
            TxStep::NoteCause => true,
            TxStep::MarkRollingBack => true,
            TxStep::ReadPreimage => true,
            TxStep::RestorePreimage => true,
            TxStep::MarkRolledBack => true,
            TxStep::MarkRecovery => true,
            TxStep::RelaunchAnyway => true,
            TxStep::Finished => true,
            _ => false,
        },
    ensures
        tx_thorough(flow.next(event), tx_adds(flow.step, event, facts)),
        flow.next(event).purpose == flow.purpose,
{
}

/// Over a whole run, whatever happens: the configuration is written only once Codex is
/// stopped, the transaction is open, the user's own appearance is kept and the new text is
/// staged. The flow ends without an error only if the new text was read back and verified, and
/// the transaction committed; for a theme, Codex has confirmed it by then. A failure in
/// between is undone, after Codex is stopped again where it was launched; where that cannot be
/// done, the evidence is kept.
pub proof fn law_every_tx_run_is_thorough(flow: TxView, turns: Seq<TxTurn>)
    requires
        flow.step == first_step(flow.purpose),
        flow.error is None,
        !flow.was_running,
        !flow.paths_lost,
    ensures
        tx_thorough(tx_end(flow, turns), tx_done(flow, turns)),
        tx_end(flow, turns).purpose == flow.purpose,
    decreases turns.len(),
{
    if turns.len() > 0 {
        let before = turns.drop_last();
        law_every_tx_run_is_thorough(flow, before);
        let now = tx_end(flow, before);
        let event = turns.last().event;
        let facts = tx_done(flow, before);
        match now.step {
            TxStep::CheckPending | TxStep::TurnOffLive | TxStep::LocateInstall
            | TxStep::ObserveRunning | TxStep::QuitCodex | TxStep::Settle | TxStep::LocatePaths
            | TxStep::CheckBaseline | TxStep::RelaunchUnrestored | TxStep::ForgetStash
            | TxStep::BeginTx => lemma_tx_early(now, event, facts),
            TxStep::MarkStopped | TxStep::CaptureBaseline | TxStep::ReadConfig
            | TxStep::PlanConfig | TxStep::StageTx | TxStep::WriteConfig | TxStep::ReadBack
            | TxStep::VerifyCommit | TxStep::MarkCommitted => lemma_tx_writing(now, event, facts),
            TxStep::LaunchDebuggable | TxStep::MarkLaunched | TxStep::AwaitPort
            | TxStep::SendDirective | TxStep::ConfirmTheme | TxStep::MarkVerified
            | TxStep::DropBaseline | TxStep::CommitTx | TxStep::RemoveStash
            | TxStep::RelaunchPlain => lemma_tx_showing(now, event, facts),
            _ => lemma_tx_undoing(now, event, facts),
        }
    }
}

/// The error of a flow is that of the step which failed: one before the transaction, one while
/// the text is written, or one while the theme is to show. No other failure is an error, and
/// undoing keeps the error that led to it.
pub proof fn law_tx_errors_have_a_cause(flow: TxView, event: TxEvent)
    requires
        flow.step != TxStep::Finished,
        !(event is Lost),
    ensures
        ({
            let counts = match flow.step {
                TxStep::CheckPending | TxStep::LocateInstall | TxStep::QuitCodex
                | TxStep::LocatePaths | TxStep::RelaunchUnrestored | TxStep::BeginTx
                | TxStep::DropBaseline | TxStep::RelaunchPlain | TxStep::MarkStopped
                | TxStep::CaptureBaseline | TxStep::ReadConfig | TxStep::PlanConfig
                | TxStep::StageTx | TxStep::WriteConfig | TxStep::ReadBack | TxStep::VerifyCommit
                | TxStep::MarkCommitted | TxStep::LaunchDebuggable | TxStep::AwaitPort
                | TxStep::SendDirective | TxStep::ConfirmTheme | TxStep::CommitTx => true,
                _ => false,
            };
            let next = flow.next(event);
            &&& counts && event is Failed ==> next.error == Some(event->Failed_0@)
            &&& !(counts && event is Failed) ==> next.error == flow.error
        }),
{
}

/// What is said of a worker that is gone, for each kind of flow.
pub proof fn law_lost_workers_are_told(flow: TxView, reason: String)
    requires
        flow.step != TxStep::Finished,
    ensures
        ({
            let next = flow.next(TxEvent::Lost(reason));
            let undoing = match flow.step {
                TxStep::FindPathsAgain | TxStep::FindInstallAgain | TxStep::QuitAgain
                | TxStep::SettleAgain | TxStep::NoteCause | TxStep::MarkRollingBack
                | TxStep::ReadPreimage | TxStep::RestorePreimage | TxStep::MarkRolledBack
                | TxStep::MarkRecovery | TxStep::RelaunchAnyway => true,
                _ => false,
            };
            &&& next.step == TxStep::Finished
            &&& flow.purpose == Purpose::Off ==> next.error == Some(
                ErrorView::Internal("主题还原任务失败: "@ + reason@),
            )
            &&& flow.purpose == Purpose::Snapshot ==> next.error == Some(
                ErrorView::Internal("试穿撤销任务失败: "@ + reason@),
            )
            &&& flow.purpose == Purpose::Apply && undoing ==> next.error == Some(
                ErrorView::Internal("回滚任务失败: "@ + reason@),
            )
            &&& flow.purpose == Purpose::Apply && !undoing ==> next.error == Some(
                ErrorView::Internal("主题应用任务失败: "@ + reason@),
            )
        }),
{
}

/// Why the evidence is kept: the error that led to undoing, and what kept it from being done.
pub proof fn law_kept_evidence_is_explained(flow: TxView, event: TxEvent)
    requires
        flow.error is Some,
        !(event is Lost),
    ensures
        ({
            let next = flow.next(event);
            let first = flow.error->0.words();
            let why = event->Failed_0@.words();
            &&& flow.step == TxStep::FindPathsAgain && event is Failed ==> next.step
                == TxStep::MarkRecovery && next.note == Some(first + ("; 回滚失败: "@ + why))
            &&& flow.step == TxStep::ReadPreimage && event is Failed ==> next.step
                == TxStep::MarkRecovery && next.note == Some(
                first + ("; 读取 preimage 失败: "@ + why),
            )
            &&& flow.step == TxStep::RestorePreimage && event is Failed ==> next.step
                == TxStep::MarkRecovery && next.note == Some(
                first + ("; 回滚写入失败: "@ + why),
            )
            &&& flow.step == TxStep::ReadPreimage && !(event is Failed) && !brings_preimage(event)
                ==> next.step == TxStep::MarkRecovery && next.note == Some(
                first + "; preimage 校验失败"@,
            )
            &&& flow.step == TxStep::ReadPreimage && brings_preimage(event) ==> next.step
                == TxStep::RestorePreimage && next.preimage == Some(event->bytes@)
        }),
{
}

/// What is said of a transaction that was never finished names it, its phase and its place.
pub proof fn law_pending_words_name_the_transaction(
    id: Seq<char>,
    phase: Seq<char>,
    dir: Seq<char>,
)
    ensures
        pending_words(id, phase, dir) == "存在未完结的原生主题事务（txId="@ + id + "，phase="@
            + phase + "）——重启 Manager 可触发自动恢复，或手动检查 "@ + dir,
{
}

} // verus!

//! What replacing a file, putting a backup back and resetting a store do over a whole run,
//! told by what each step achieved.

use vstd::prelude::*;
use crate::errors::ErrorView;
use crate::file_swap::{
    backup_name, replace_end, replace_next, reset_first, reset_next, restore_end, restore_next,
    store_named, temp_name, ConfigStore, DiskTurn, FileOutcome, ReplaceStep, ResetOutcome,
    ResetStep, RestoreStep,
};
use crate::text::decimal;

verus! {

// ---------------------------------------------------------------------------
// Writing a file anew
// ---------------------------------------------------------------------------

/// What a replacement has done. Each is set by its step alone; where a step has to go well,
/// only if it did.
pub struct ReplaceFacts {
    pub parent_made: bool,
    pub parent_is_new: bool,
    pub parent_restricted: bool,
    pub temp_made: bool,
    pub mode_set: bool,
    pub written: bool,
    pub synced: bool,
    pub target_there: bool,
    pub backup_dropped: bool,
    pub moved_aside: bool,
    pub moved_in: bool,
    pub move_in_failed: bool,
    pub lost: bool,
    pub moved_back: bool,
    pub temp_cleared: bool,
    pub backup_cleaned: bool,
    pub temp_cleaned: bool,
}

/// Nothing is done yet.
pub open spec fn nothing_replaced() -> ReplaceFacts {
    ReplaceFacts {
        parent_made: false,
        parent_is_new: false,
        parent_restricted: false,
        temp_made: false,
        mode_set: false,
        written: false,
        synced: false,
        target_there: false,
        backup_dropped: false,
        moved_aside: false,
        moved_in: false,
        move_in_failed: false,
        lost: false,
        moved_back: false,
        temp_cleared: false,
        backup_cleaned: false,
        temp_cleaned: false,
    }
}

/// What a step adds to what was done.
pub open spec fn replace_adds(
    step: ReplaceStep,
    outcome: FileOutcome,
    was: ReplaceFacts,
) -> ReplaceFacts {
    let well = !(outcome is Failed);
    let yes = outcome is Yes;
    match step {
        ReplaceStep::CreateParent => ReplaceFacts { parent_made: well, parent_is_new: yes, ..was },
        ReplaceStep::RestrictParent => ReplaceFacts { parent_restricted: true, ..was },
        ReplaceStep::CreateTemp => ReplaceFacts { temp_made: well, ..was },
        ReplaceStep::SetMode => ReplaceFacts { mode_set: well, ..was },
        ReplaceStep::WriteTemp => ReplaceFacts { written: well, ..was },
        ReplaceStep::SyncTemp => ReplaceFacts { synced: well, ..was },
        ReplaceStep::ProbeTarget => ReplaceFacts { target_there: yes, ..was },
        ReplaceStep::DropBackup => ReplaceFacts { backup_dropped: true, ..was },
        ReplaceStep::MoveAside => ReplaceFacts { moved_aside: well, ..was },
        ReplaceStep::MoveIn => ReplaceFacts { moved_in: well, move_in_failed: !well, ..was },
        ReplaceStep::ProbeLost => ReplaceFacts { lost: yes, ..was },
        ReplaceStep::MoveBack => ReplaceFacts { moved_back: true, ..was },
        ReplaceStep::ClearTemp => ReplaceFacts { temp_cleared: true, ..was },
        ReplaceStep::CleanBackup => ReplaceFacts { backup_cleaned: true, ..was },
        ReplaceStep::CleanTemp => ReplaceFacts { temp_cleaned: true, ..was },
        ReplaceStep::Finished => was,
    }
}

/// The new content is complete on the disk, under another name, with its mode set before it
/// was written.
pub open spec fn is_ready(facts: ReplaceFacts) -> bool {
    &&& facts.parent_made
    &&& facts.parent_is_new ==> facts.parent_restricted
    &&& facts.temp_made && facts.mode_set && facts.written && facts.synced
}

/// What was done by the time of each step.
pub open spec fn replace_thorough(
    step: ReplaceStep,
    error: Option<Seq<char>>,
    facts: ReplaceFacts,
) -> bool {
    let placed = facts.parent_made && (facts.parent_is_new ==> facts.parent_restricted);
    let begun = error is None && !facts.moved_in && !facts.move_in_failed && !facts.lost;
    match step {
        ReplaceStep::CreateParent => begun,
        ReplaceStep::RestrictParent => begun && facts.parent_made && facts.parent_is_new,
        ReplaceStep::CreateTemp => begun && placed,
        ReplaceStep::SetMode => begun && placed && facts.temp_made,
        ReplaceStep::WriteTemp => begun && placed && facts.temp_made && facts.mode_set,
        ReplaceStep::SyncTemp => begun && placed && facts.temp_made && facts.mode_set
            && facts.written,
        ReplaceStep::ProbeTarget => begun && is_ready(facts),
        ReplaceStep::DropBackup => begun && is_ready(facts) && facts.target_there,
        ReplaceStep::MoveAside => begun && is_ready(facts) && facts.target_there
            && facts.backup_dropped,
        ReplaceStep::MoveIn => begun && is_ready(facts) && (facts.target_there
            ==> facts.moved_aside),
        ReplaceStep::ProbeLost => error is Some && facts.move_in_failed && !facts.moved_in
            && !facts.lost,
        ReplaceStep::MoveBack => error is Some && facts.move_in_failed && !facts.moved_in
            && facts.lost,
        ReplaceStep::ClearTemp => error is Some && facts.move_in_failed && !facts.moved_in && (
        facts.lost ==> facts.moved_back),
        ReplaceStep::CleanBackup => error is None && is_ready(facts) && facts.moved_in
            && !facts.move_in_failed,
        ReplaceStep::CleanTemp => error is None && is_ready(facts) && facts.moved_in
            && !facts.move_in_failed && facts.backup_cleaned,
        ReplaceStep::Finished => {
            &&& error is None <==> facts.moved_in
            &&& facts.moved_in ==> is_ready(facts) && facts.backup_cleaned && facts.temp_cleaned
            &&& facts.move_in_failed ==> facts.temp_cleared && (facts.lost ==> facts.moved_back)
            &&& !facts.moved_in && !facts.move_in_failed ==> !(is_ready(facts) && (
            facts.target_there ==> facts.moved_aside))
        },
    }
}

/// How many steps can still come at most.
pub open spec fn replace_left(step: ReplaceStep) -> nat {
    match step {
        ReplaceStep::CreateParent => 14,
        ReplaceStep::RestrictParent => 13,
        ReplaceStep::CreateTemp => 12,
        ReplaceStep::SetMode => 11,
        ReplaceStep::WriteTemp => 10,
        ReplaceStep::SyncTemp => 9,
        ReplaceStep::ProbeTarget => 8,
        ReplaceStep::DropBackup => 7,
        ReplaceStep::MoveAside => 6,
        ReplaceStep::MoveIn => 5,
        ReplaceStep::ProbeLost => 3,
        ReplaceStep::MoveBack => 2,
        ReplaceStep::ClearTemp => 1,
        ReplaceStep::CleanBackup => 2,
        ReplaceStep::CleanTemp => 1,
        ReplaceStep::Finished => 0,
    }
}

/// What a row of steps has done.
pub open spec fn replace_done(turns: Seq<DiskTurn>) -> ReplaceFacts
    decreases turns.len(),
{
    if turns.len() == 0 {
        nothing_replaced()
    } else {
        let before = turns.drop_last();
        replace_adds(replace_end(before).0, turns.last().outcome, replace_done(before))
    }
}

#[verifier::spinoff_prover]
proof fn lemma_replace_writing(
    step: ReplaceStep,
    error: Option<Seq<char>>,
    outcome: FileOutcome,
    facts: ReplaceFacts,
)
    requires
        replace_thorough(step, error, facts),
        replace_ahead(step, facts),
        replace_left(step) >= 9,
    ensures
        ({
            let (next, err) = replace_next(step, error, outcome);
            &&& replace_thorough(next, err, replace_adds(step, outcome, facts))
            &&& step != ReplaceStep::Finished ==> replace_left(next) < replace_left(step)
        }),
{
}

#[verifier::spinoff_prover]
proof fn lemma_replace_moving(
    step: ReplaceStep,
    error: Option<Seq<char>>,
    outcome: FileOutcome,
    facts: ReplaceFacts,
)
    requires
        replace_thorough(step, error, facts),
        replace_ahead(step, facts),
        5 <= replace_left(step) < 9,
    ensures
        ({
            let (next, err) = replace_next(step, error, outcome);
            &&& replace_thorough(next, err, replace_adds(step, outcome, facts))
            &&& step != ReplaceStep::Finished ==> replace_left(next) < replace_left(step)
        }),
{
}

#[verifier::spinoff_prover]
proof fn lemma_replace_turning_back(
    step: ReplaceStep,
    error: Option<Seq<char>>,
    outcome: FileOutcome,
    facts: ReplaceFacts,
)
    requires
        replace_thorough(step, error, facts),
        step == ReplaceStep::ProbeLost || step == ReplaceStep::MoveBack || step
            == ReplaceStep::ClearTemp,
    ensures
        ({
            let (next, err) = replace_next(step, error, outcome);
            &&& replace_thorough(next, err, replace_adds(step, outcome, facts))
            &&& step != ReplaceStep::Finished ==> replace_left(next) < replace_left(step)
        }),
{
}

#[verifier::spinoff_prover]
proof fn lemma_replace_cleaning(
    step: ReplaceStep,
    error: Option<Seq<char>>,
    outcome: FileOutcome,
    facts: ReplaceFacts,
)
    requires
        replace_thorough(step, error, facts),
        step == ReplaceStep::CleanBackup || step == ReplaceStep::CleanTemp,
    ensures
        ({
            let (next, err) = replace_next(step, error, outcome);
            &&& replace_thorough(next, err, replace_adds(step, outcome, facts))
            &&& step != ReplaceStep::Finished ==> replace_left(next) < replace_left(step)
        }),
{
}

#[verifier::spinoff_prover]
proof fn lemma_replace_over(
    step: ReplaceStep,
    error: Option<Seq<char>>,
    outcome: FileOutcome,
    facts: ReplaceFacts,
)
    requires
        replace_thorough(step, error, facts),
        step == ReplaceStep::Finished,
    ensures
        ({
            let (next, err) = replace_next(step, error, outcome);
            &&& replace_thorough(next, err, replace_adds(step, outcome, facts))
            &&& step != ReplaceStep::Finished ==> replace_left(next) < replace_left(step)
        }),
{
}

/// Over a whole replacement: the mode is set before the content is written, the file is moved
/// only when the new content is complete and on the disk, and one that is there is moved aside
/// before. A replacement ends without an error if and only if the new content was moved in;
/// then the backup and the temporary file are cleaned up. Where moving in fails, the
/// temporary file is cleared, and the old file is moved back if its name is free.
pub proof fn law_every_replacement_is_thorough(turns: Seq<DiskTurn>)
    ensures
        replace_thorough(replace_end(turns).0, replace_end(turns).1, replace_done(turns)),
        replace_end(turns).0 == ReplaceStep::Finished || turns.len() + replace_left(
            replace_end(turns).0,
        ) <= 14,
    decreases turns.len(),
{
    if turns.len() > 0 {
        let before = turns.drop_last();
        law_every_replacement_is_thorough(before);
        lemma_replace_untouched(before);
        let (step, error) = replace_end(before);
        let outcome = turns.last().outcome;
        if replace_left(step) >= 9 {
            lemma_replace_writing(step, error, outcome, replace_done(before));
        } else if replace_left(step) >= 5 {
            lemma_replace_moving(step, error, outcome, replace_done(before));
        } else if step == ReplaceStep::CleanBackup || step == ReplaceStep::CleanTemp {
            lemma_replace_cleaning(step, error, outcome, replace_done(before));
        } else if step == ReplaceStep::Finished {
            lemma_replace_over(step, error, outcome, replace_done(before));
        } else {
            lemma_replace_turning_back(step, error, outcome, replace_done(before));
        }
    }
}

/// What is not done yet at the first steps.
pub open spec fn replace_ahead(step: ReplaceStep, facts: ReplaceFacts) -> bool {
    &&& step == ReplaceStep::CreateParent || step == ReplaceStep::RestrictParent ==> facts == (
    ReplaceFacts {
        parent_made: facts.parent_made,
        parent_is_new: facts.parent_is_new,
        ..nothing_replaced()
    })
    &&& step == ReplaceStep::CreateTemp ==> !facts.temp_made && !facts.mode_set && !facts.written
        && !facts.synced && !facts.target_there && !facts.moved_aside
    &&& step == ReplaceStep::SetMode ==> !facts.mode_set && !facts.written && !facts.synced
        && !facts.target_there && !facts.moved_aside
    &&& step == ReplaceStep::WriteTemp ==> !facts.written && !facts.synced && !facts.target_there
        && !facts.moved_aside
    &&& step == ReplaceStep::SyncTemp ==> !facts.synced && !facts.target_there
        && !facts.moved_aside
    &&& step == ReplaceStep::ProbeTarget ==> !facts.target_there && !facts.moved_aside
}

proof fn lemma_replace_untouched(turns: Seq<DiskTurn>)
    ensures
        replace_ahead(replace_end(turns).0, replace_done(turns)),
    decreases turns.len(),
{
    if turns.len() > 0 {
        lemma_replace_untouched(turns.drop_last());
    }
}

/// A replacement fails only for a directory that cannot be made, a temporary file that cannot
/// be made, restricted, written or synced, or a file that cannot be moved; and it tells why.
pub proof fn law_replacement_errors_have_a_cause(
    step: ReplaceStep,
    error: Option<Seq<char>>,
    outcome: FileOutcome,
)
    ensures
        ({
            let counts = step == ReplaceStep::CreateParent || step == ReplaceStep::CreateTemp || step
                == ReplaceStep::SetMode || step == ReplaceStep::WriteTemp || step
                == ReplaceStep::SyncTemp || step == ReplaceStep::MoveAside || step
                == ReplaceStep::MoveIn;
            let err = replace_next(step, error, outcome).1;
            &&& counts && outcome is Failed ==> err == Some(outcome->Failed_0@)
            &&& !(counts && outcome is Failed) ==> err == error
        }),
{
}

/// The names of the temporary file and of the backup, for a file with a name and for one
/// without.
pub proof fn law_names_beside_the_file(name: Seq<char>, process: u32)
    ensures
        temp_name(Some(name), process) == "."@ + name + "."@ + decimal(process as nat) + ".tmp"@,
        temp_name(None, process) == "."@ + "file"@ + "."@ + decimal(process as nat) + ".tmp"@,
        backup_name(Some(name)) == name + ".bak"@,
        backup_name(None) == "file"@ + ".bak"@,
{
}

// ---------------------------------------------------------------------------
// Putting a backup back
// ---------------------------------------------------------------------------

/// What a restoration has done.
pub struct RestoreFacts {
    pub backup_there: bool,
    pub parent_made: bool,
    pub target_there: bool,
    pub moved_aside: bool,
    pub moved_in: bool,
    pub move_in_failed: bool,
    pub aside_there: bool,
    pub moved_back: bool,
    pub left_there: bool,
    pub left_dropped: bool,
    pub rechecked: bool,
    pub corrupt: bool,
}

/// Nothing is done yet.
pub open spec fn nothing_restored() -> RestoreFacts {
    RestoreFacts {
        backup_there: false,
        parent_made: false,
        target_there: false,
        moved_aside: false,
        moved_in: false,
        move_in_failed: false,
        aside_there: false,
        moved_back: false,
        left_there: false,
        left_dropped: false,
        rechecked: false,
        corrupt: false,
    }
}

/// What a step adds to what was done.
pub open spec fn restore_adds(
    step: RestoreStep,
    outcome: FileOutcome,
    was: RestoreFacts,
) -> RestoreFacts {
    let well = !(outcome is Failed);
    let yes = outcome is Yes;
    match step {
        RestoreStep::ProbeBackup => RestoreFacts { backup_there: yes, ..was },
        RestoreStep::CreateParent => RestoreFacts { parent_made: well, ..was },
        RestoreStep::ProbeTarget => RestoreFacts { target_there: yes, ..was },
        RestoreStep::MoveAside => RestoreFacts { moved_aside: well, ..was },
        RestoreStep::MoveIn => RestoreFacts { moved_in: well, move_in_failed: !well, ..was },
        RestoreStep::ProbeAside => RestoreFacts { aside_there: yes, ..was },
        RestoreStep::MoveBack => RestoreFacts { moved_back: true, ..was },
        RestoreStep::ProbeLeft => RestoreFacts { left_there: yes, ..was },
        RestoreStep::DropAside => RestoreFacts { left_dropped: true, ..was },
        RestoreStep::Recheck => RestoreFacts { rechecked: true, corrupt: yes, ..was },
        RestoreStep::Finished => was,
    }
}

/// What was done by the time of each step.
pub open spec fn restore_thorough(
    step: RestoreStep,
    error: Option<ErrorView>,
    facts: RestoreFacts,
) -> bool {
    let begun = error is None && !facts.moved_in && !facts.move_in_failed && !facts.aside_there
        && !facts.left_there && !facts.corrupt && !facts.rechecked;
    let aside = facts.target_there ==> facts.moved_aside;
    match step {
        RestoreStep::ProbeBackup => begun && !facts.parent_made && !facts.target_there,
        RestoreStep::CreateParent => begun && facts.backup_there && !facts.parent_made
            && !facts.target_there,
        RestoreStep::ProbeTarget => begun && facts.backup_there && facts.parent_made,
        RestoreStep::MoveAside => begun && facts.backup_there && facts.parent_made
            && facts.target_there,
        RestoreStep::MoveIn => begun && facts.backup_there && facts.parent_made && aside,
        RestoreStep::ProbeAside => error is Some && facts.move_in_failed && !facts.moved_in
            && !facts.aside_there,
        RestoreStep::MoveBack => error is Some && facts.move_in_failed && !facts.moved_in
            && facts.aside_there,
        RestoreStep::ProbeLeft => error is None && facts.moved_in && !facts.move_in_failed
            && !facts.left_there && !facts.corrupt,
        RestoreStep::DropAside => error is None && facts.moved_in && !facts.move_in_failed
            && facts.left_there && !facts.corrupt,
        RestoreStep::Recheck => error is None && facts.moved_in && !facts.move_in_failed && (
        facts.left_there ==> facts.left_dropped) && !facts.corrupt,
        RestoreStep::Finished => {
            &&& error is None <==> facts.moved_in && facts.rechecked && !facts.corrupt
            &&& facts.moved_in ==> facts.rechecked && (facts.left_there ==> facts.left_dropped)
            &&& facts.move_in_failed && facts.aside_there ==> facts.moved_back
            &&& !facts.moved_in && !facts.move_in_failed ==> !facts.backup_there
                || !facts.parent_made || (facts.target_there && !facts.moved_aside)
        },
    }
}

/// How many steps can still come at most.
pub open spec fn restore_left(step: RestoreStep) -> nat {
    match step {
        RestoreStep::ProbeBackup => 8,
        RestoreStep::CreateParent => 7,
        RestoreStep::ProbeTarget => 6,
        RestoreStep::MoveAside => 5,
        RestoreStep::MoveIn => 4,
        RestoreStep::ProbeAside => 2,
        RestoreStep::MoveBack => 1,
        RestoreStep::ProbeLeft => 3,
        RestoreStep::DropAside => 2,
        RestoreStep::Recheck => 1,
        RestoreStep::Finished => 0,
    }
}

/// What a row of steps has done.
pub open spec fn restore_done(which: Seq<char>, turns: Seq<DiskTurn>) -> RestoreFacts
    decreases turns.len(),
{
    if turns.len() == 0 {
        nothing_restored()
    } else {
        let before = turns.drop_last();
        restore_adds(restore_end(which, before).0, turns.last().outcome, restore_done(which, before))
    }
}

/// Over a whole restoration: a backup that is there is moved in once the directory is there
/// and a current file is moved aside. The restoration ends without an error if and only if the
/// backup was moved in and was found to be sound. A file that was moved aside is dropped after
/// success, and moved back after a failure.
pub proof fn law_every_restoration_is_thorough(which: Seq<char>, turns: Seq<DiskTurn>)
    ensures
        restore_thorough(
            restore_end(which, turns).0,
            restore_end(which, turns).1,
            restore_done(which, turns),
        ),
        restore_end(which, turns).0 == RestoreStep::Finished || turns.len() + restore_left(
            restore_end(which, turns).0,
        ) <= 8,
    decreases turns.len(),
{
    if turns.len() > 0 {
        law_every_restoration_is_thorough(which, turns.drop_last());
    }
}

/// What a restoration says of each thing that can fail. Nothing else is an error.
pub proof fn law_restoration_errors_have_a_cause(
    which: Seq<char>,
    step: RestoreStep,
    error: Option<ErrorView>,
    outcome: FileOutcome,
)
    ensures
        ({
            let err = restore_next(which, step, error, outcome).1;
            let failed = outcome is Failed;
            let why = outcome->Failed_0@;
            &&& step == RestoreStep::ProbeBackup && !(outcome is Yes) ==> err == Some(
                ErrorView::Internal("找不到 "@ + which + " 的 .bak 备份"@),
            )
            &&& step == RestoreStep::ProbeBackup && outcome is Yes ==> err == error
            &&& step == RestoreStep::CreateParent && failed ==> err == Some(
                ErrorView::Internal("create data dir: "@ + why),
            )
            &&& step == RestoreStep::MoveAside && failed ==> err == Some(
                ErrorView::Internal("move current config aside: "@ + why),
            )
            &&& step == RestoreStep::MoveIn && failed ==> err == Some(
                ErrorView::Internal("restore config backup: "@ + why),
            )
            &&& step == RestoreStep::Recheck && outcome is Yes ==> err == Some(
                ErrorView::Internal(
                    "已从 .bak 还原 "@ + which + "，但重新读取仍判定为损坏"@,
                ),
            )
            &&& step == RestoreStep::Recheck && !(outcome is Yes) ==> err == error
            &&& !failed && step != RestoreStep::ProbeBackup && step != RestoreStep::Recheck
                ==> err == error
            &&& step == RestoreStep::ProbeTarget || step == RestoreStep::ProbeAside || step
                == RestoreStep::MoveBack || step == RestoreStep::ProbeLeft || step
                == RestoreStep::DropAside || step == RestoreStep::Finished ==> err == error
        }),
{
}

// ---------------------------------------------------------------------------
// Resetting a store
// ---------------------------------------------------------------------------

/// The two stores have these names, and nothing else names one.
pub proof fn law_stores_have_names(which: Seq<char>)
    ensures
        store_named("settings"@) == Some(ConfigStore::Settings),
        store_named("provenance"@) == Some(ConfigStore::Provenance),
        which != "settings"@ && which != "provenance"@ ==> store_named(which) is None,
        store_named(which) is None <==> reset_first(which) is None,
{
    reveal_strlit("settings");
    reveal_strlit("provenance");
    assert("settings"@.len() != "provenance"@.len());
}

/// What a reset has done.
pub struct ResetFacts {
    pub policy_synced: bool,
    pub settings_saved: bool,
    pub provenance_saved: bool,
    pub rechecked: bool,
    pub corrupt: bool,
}

/// What a step adds to what was done.
pub open spec fn reset_adds(step: ResetStep, outcome: ResetOutcome, was: ResetFacts) -> ResetFacts {
    let well = !(outcome is Failed);
    match step {
        ResetStep::SyncPolicy => ResetFacts { policy_synced: well, ..was },
        ResetStep::SaveSettings => ResetFacts { settings_saved: well, ..was },
        ResetStep::SaveProvenance => ResetFacts { provenance_saved: well, ..was },
        ResetStep::Recheck => ResetFacts { rechecked: true, corrupt: outcome is Corrupt, ..was },
        ResetStep::Finished => was,
    }
}

/// What was done by the time of each step.
pub open spec fn reset_thorough(
    which: Seq<char>,
    step: ResetStep,
    error: Option<ErrorView>,
    facts: ResetFacts,
) -> bool {
    let saved = (which == "settings"@ && facts.policy_synced && facts.settings_saved) || (which
        == "provenance"@ && facts.provenance_saved);
    match step {
        ResetStep::SyncPolicy => error is None && which == "settings"@ && !facts.rechecked,
        ResetStep::SaveSettings => error is None && which == "settings"@ && facts.policy_synced
            && !facts.rechecked,
        ResetStep::SaveProvenance => error is None && which == "provenance"@ && !facts.rechecked,
        ResetStep::Recheck => error is None && saved && !facts.rechecked,
        ResetStep::Finished => {
            &&& error is None <==> facts.rechecked && !facts.corrupt
            &&& facts.rechecked ==> saved
        },
    }
}

/// The step and the error of a reset after a row of steps, and what they did.
pub open spec fn reset_end(which: Seq<char>, outcomes: Seq<ResetOutcome>) -> (
    (ResetStep, Option<ErrorView>),
    ResetFacts,
)
    decreases outcomes.len(),
{
    if outcomes.len() == 0 {
        (
            (reset_first(which)->0, None),
            ResetFacts {
                policy_synced: false,
                settings_saved: false,
                provenance_saved: false,
                rechecked: false,
                corrupt: false,
            },
        )
    } else {
        let ((step, error), facts) = reset_end(which, outcomes.drop_last());
        (
            reset_next(which, step, error, outcomes.last()),
            reset_adds(step, outcomes.last(), facts),
        )
    }
}

/// Over a whole reset: a store is saved anew, the settings only once the platform follows the
/// default policy, and the reset ends without an error if and only if all of that went well
/// and the store was then found to be sound. It takes three steps at most.
pub proof fn law_every_reset_is_thorough(which: Seq<char>, outcomes: Seq<ResetOutcome>)
    requires
        which == "settings"@ || which == "provenance"@,
    ensures
        ({
            let ((step, error), facts) = reset_end(which, outcomes);
            &&& reset_thorough(which, step, error, facts)
            &&& outcomes.len() >= 3 ==> step == ResetStep::Finished
            &&& outcomes.len() >= 1 ==> step != ResetStep::SyncPolicy && step
                != ResetStep::SaveProvenance
            &&& outcomes.len() >= 2 ==> step != ResetStep::SaveSettings
        }),
    decreases outcomes.len(),
{
    law_stores_have_names(which);
    if outcomes.len() > 0 {
        law_every_reset_is_thorough(which, outcomes.drop_last());
    }
}

/// What a reset says of each thing that can fail.
pub proof fn law_reset_errors_have_a_cause(
    which: Seq<char>,
    step: ResetStep,
    error: Option<ErrorView>,
    outcome: ResetOutcome,
)
    requires
        step != ResetStep::Finished,
    ensures
        ({
            let err = reset_next(which, step, error, outcome).1;
            &&& step != ResetStep::Recheck && outcome is Failed ==> err == Some(
                outcome->Failed_0@,
            )
            &&& step == ResetStep::Recheck && outcome is Corrupt ==> err == Some(
                ErrorView::Internal("已重置 "@ + which + "，但重新读取仍判定为损坏"@),
            )
            &&& step == ResetStep::Recheck && !(outcome is Corrupt) ==> err == error
            &&& step != ResetStep::Recheck && !(outcome is Failed) ==> err == error
        }),
{
}

} // verus!

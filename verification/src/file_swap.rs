//! Replacing a file without ever losing both its old and its new content, and
//! putting a configuration back from its backup. Each flow says which file
//! operation comes next and is told how that operation went.

use vstd::prelude::*;
use crate::errors::{internal, said, said_around, AppError, ErrorView};
use crate::text::{chars_of, decimal, decimal_of, push_all, push_str, str_eq, string_of, text_of};
use crate::url_policy::text_view;

verus! {

/// How a file operation went. A probe is answered with yes or no.
#[derive(Debug)]
pub enum FileOutcome {
    Done,
    Yes,
    No,
    Failed(String),
}

/// The names under which a file's content may stand while it is replaced.
pub struct Disk {
    /// The file itself.
    pub target: Option<Seq<u8>>,
    /// Where it is moved while another content takes its place.
    pub aside: Option<Seq<u8>>,
    /// Where the other content comes from.
    pub source: Option<Seq<u8>>,
}

// ---------------------------------------------------------------------------
// Writing a file anew
// ---------------------------------------------------------------------------

/// The operations of a replacement. The temporary file is the source, the backup
/// file is where the old content is moved aside.
#[derive(Debug, Clone, Copy, PartialEq, Eq, Structural)]
pub enum ReplaceStep {
    /// Make the directory; yes if it was not there.
    CreateParent,
    /// Let only the user into the new directory.
    RestrictParent,
    CreateTemp,
    SetMode,
    WriteTemp,
    SyncTemp,
    /// Is there a file to replace?
    ProbeTarget,
    DropBackup,
    MoveAside,
    MoveIn,
    /// Is the file gone while its backup is there?
    ProbeLost,
    MoveBack,
    ClearTemp,
    CleanBackup,
    CleanTemp,
    Finished,
}

/// A replacement under way.
#[derive(Debug)]
pub struct ReplaceFlow {
    pub step: ReplaceStep,
    pub error: Option<String>,
}

/// Steps whose failure ends the replacement on the spot.
pub open spec fn replace_must_succeed(step: ReplaceStep) -> bool {
    match step {
        ReplaceStep::CreateParent => true,
        ReplaceStep::CreateTemp => true,
        ReplaceStep::SetMode => true,
        ReplaceStep::WriteTemp => true,
        ReplaceStep::SyncTemp => true,
        ReplaceStep::MoveAside => true,
        _ => false,
    }
}

/// The step after one that went well, or whose failure does not matter. `yes` is
/// the answer to a probe.
pub open spec fn replace_after(step: ReplaceStep, yes: bool) -> ReplaceStep {
    match step {
        ReplaceStep::CreateParent => if yes {
            ReplaceStep::RestrictParent
        } else {
            ReplaceStep::CreateTemp
        },
        ReplaceStep::RestrictParent => ReplaceStep::CreateTemp,
        ReplaceStep::CreateTemp => ReplaceStep::SetMode,
        ReplaceStep::SetMode => ReplaceStep::WriteTemp,
        ReplaceStep::WriteTemp => ReplaceStep::SyncTemp,
        ReplaceStep::SyncTemp => ReplaceStep::ProbeTarget,
        ReplaceStep::ProbeTarget => if yes {
            ReplaceStep::DropBackup
        } else {
            ReplaceStep::MoveIn
        },
        ReplaceStep::DropBackup => ReplaceStep::MoveAside,
        ReplaceStep::MoveAside => ReplaceStep::MoveIn,
        ReplaceStep::MoveIn => ReplaceStep::CleanBackup,
        ReplaceStep::ProbeLost => if yes {
            ReplaceStep::MoveBack
        } else {
            ReplaceStep::ClearTemp
        },
        ReplaceStep::MoveBack => ReplaceStep::ClearTemp,
        ReplaceStep::ClearTemp => ReplaceStep::Finished,
        ReplaceStep::CleanBackup => ReplaceStep::CleanTemp,
        ReplaceStep::CleanTemp => ReplaceStep::Finished,
        ReplaceStep::Finished => ReplaceStep::Finished,
    }
}

/// The next step and the error so far, after a step went one way or another.
pub open spec fn replace_next(
    step: ReplaceStep,
    error: Option<Seq<char>>,
    outcome: FileOutcome,
) -> (ReplaceStep, Option<Seq<char>>) {
    match outcome {
        FileOutcome::Failed(e) => if step == ReplaceStep::Finished {
            (step, error)
        } else if replace_must_succeed(step) {
            (ReplaceStep::Finished, Some(e@))
        } else if step == ReplaceStep::MoveIn {
            (ReplaceStep::ProbeLost, Some(e@))
        } else {
            (replace_after(step, false), error)
        },
        FileOutcome::Yes => (replace_after(step, true), error),
        _ => (replace_after(step, false), error),
    }
}

impl ReplaceFlow {
    /// A replacement that has not begun.
    pub fn start() -> (r: ReplaceFlow)
        ensures
            r.step == ReplaceStep::CreateParent,
            r.error is None,
            (r.step, text_view(r.error)) == replace_end(Seq::empty()),
    {
        ReplaceFlow { step: ReplaceStep::CreateParent, error: None }
    }

    /// Takes in how the current step went.
    pub fn advance(&mut self, outcome: FileOutcome)
        ensures
            replace_next(old(self).step, text_view(old(self).error), outcome) == (
                final(self).step,
                text_view(final(self).error),
            ),
    {
        let (yes, failure) = match outcome {
            FileOutcome::Failed(e) => (false, Some(e)),
            FileOutcome::Yes => (true, None),
            FileOutcome::Done => (false, None),
            FileOutcome::No => (false, None),
        };
        let must = matches!(
            self.step,
            ReplaceStep::CreateParent | ReplaceStep::CreateTemp | ReplaceStep::SetMode
                | ReplaceStep::WriteTemp | ReplaceStep::SyncTemp | ReplaceStep::MoveAside
        );
        match failure {
            Some(e) => {
                if must {
                    self.step = ReplaceStep::Finished;
                    self.error = Some(e);
                    return;
                }
                if self.step == ReplaceStep::MoveIn {
                    self.step = ReplaceStep::ProbeLost;
                    self.error = Some(e);
                    return;
                }
            },
            None => {},
        }
        self.step = match self.step {
            ReplaceStep::CreateParent => if yes {
                ReplaceStep::RestrictParent
            } else {
                ReplaceStep::CreateTemp
            },
            ReplaceStep::RestrictParent => ReplaceStep::CreateTemp,
            ReplaceStep::CreateTemp => ReplaceStep::SetMode,
            ReplaceStep::SetMode => ReplaceStep::WriteTemp,
            ReplaceStep::WriteTemp => ReplaceStep::SyncTemp,
            ReplaceStep::SyncTemp => ReplaceStep::ProbeTarget,
            ReplaceStep::ProbeTarget => if yes {
                ReplaceStep::DropBackup
            } else {
                ReplaceStep::MoveIn
            },
            ReplaceStep::DropBackup => ReplaceStep::MoveAside,
            ReplaceStep::MoveAside => ReplaceStep::MoveIn,
            ReplaceStep::MoveIn => ReplaceStep::CleanBackup,
            ReplaceStep::ProbeLost => if yes {
                ReplaceStep::MoveBack
            } else {
                ReplaceStep::ClearTemp
            },
            ReplaceStep::MoveBack => ReplaceStep::ClearTemp,
            ReplaceStep::ClearTemp => ReplaceStep::Finished,
            ReplaceStep::CleanBackup => ReplaceStep::CleanTemp,
            ReplaceStep::CleanTemp => ReplaceStep::Finished,
            ReplaceStep::Finished => ReplaceStep::Finished,
        };
    }

    /// What a replacement that ended with an error says.
    pub fn failure(&self) -> (r: Option<String>)
        ensures
            text_view(r) == match self.error {
                Some(e) => Some("写入 Codex 配置失败: "@ + e@),
                None => None,
            },
    {
        match &self.error {
            Some(e) => Some(said("写入 Codex 配置失败: ", e.as_str())),
            None => None,
        }
    }
}

/// What a step can do to the disk. A step that fails leaves the file and its backup
/// alone, and a probe is answered truly.
pub open spec fn replace_effect(
    step: ReplaceStep,
    outcome: FileOutcome,
    new: Seq<u8>,
    was: Disk,
    now: Disk,
) -> bool {
    match (step, outcome) {
        (ReplaceStep::ProbeTarget, FileOutcome::Yes) => now == was && was.target is Some,
        (ReplaceStep::ProbeTarget, FileOutcome::No) => now == was && was.target is None,
        (ReplaceStep::ProbeLost, FileOutcome::Yes) => now == was && was.target is None
            && was.aside is Some,
        (ReplaceStep::ProbeLost, FileOutcome::No) => now == was && !(was.target is None
            && was.aside is Some),
        (ReplaceStep::CreateParent, FileOutcome::Yes) => now == was,
        (ReplaceStep::CreateParent, FileOutcome::No) => now == was,
        (ReplaceStep::RestrictParent, FileOutcome::Done) => now == was,
        (ReplaceStep::CreateTemp, FileOutcome::Done) => now.target == was.target && now.aside
            == was.aside,
        (ReplaceStep::SetMode, FileOutcome::Done) => now == was,
        (ReplaceStep::WriteTemp, FileOutcome::Done) => now == (Disk { source: Some(new), ..was }),
        (ReplaceStep::SyncTemp, FileOutcome::Done) => now == was,
        (ReplaceStep::DropBackup, FileOutcome::Done) => now == (Disk { aside: None, ..was }),
        (ReplaceStep::MoveAside, FileOutcome::Done) => now == (Disk {
            target: None,
            aside: was.target,
            ..was
        }),
        (ReplaceStep::MoveIn, FileOutcome::Done) => now == (Disk {
            target: was.source,
            source: None,
            ..was
        }),
        (ReplaceStep::MoveBack, FileOutcome::Done) => now == (Disk {
            target: was.aside,
            aside: None,
            ..was
        }),
        (ReplaceStep::ClearTemp, FileOutcome::Done) => now == (Disk { source: None, ..was }),
        (ReplaceStep::CleanBackup, FileOutcome::Done) => now == (Disk { aside: None, ..was }),
        (ReplaceStep::CleanTemp, FileOutcome::Done) => now == (Disk { source: None, ..was }),
        (ReplaceStep::WriteTemp, FileOutcome::Failed(_)) => now.target == was.target && now.aside
            == was.aside,
        (ReplaceStep::ProbeTarget, FileOutcome::Failed(_)) => false,
        (ReplaceStep::ProbeLost, FileOutcome::Failed(_)) => false,
        (ReplaceStep::Finished, _) => false,
        (_, FileOutcome::Failed(_)) => now == was,
        _ => false,
    }
}

/// The file is as it was before, under its own name.
pub open spec fn untouched(disk: Disk, old: Option<Seq<u8>>) -> bool {
    disk.target == old
}

/// The file was moved aside and its name is free.
pub open spec fn set_aside(disk: Disk, old: Option<Seq<u8>>) -> bool {
    disk.target is None && disk.aside == old
}

/// What holds of the disk at each step of replacing `old` by `new`.
pub open spec fn replace_holds(
    step: ReplaceStep,
    error: Option<Seq<char>>,
    old: Option<Seq<u8>>,
    new: Seq<u8>,
    disk: Disk,
) -> bool {
    let written = disk.source == Some(new);
    match step {
        ReplaceStep::CreateParent => untouched(disk, old) && error is None,
        ReplaceStep::RestrictParent => untouched(disk, old) && error is None,
        ReplaceStep::CreateTemp => untouched(disk, old) && error is None,
        ReplaceStep::SetMode => untouched(disk, old) && error is None,
        ReplaceStep::WriteTemp => untouched(disk, old) && error is None,
        ReplaceStep::SyncTemp => untouched(disk, old) && written && error is None,
        ReplaceStep::ProbeTarget => untouched(disk, old) && written && error is None,
        ReplaceStep::DropBackup => untouched(disk, old) && written && error is None,
        ReplaceStep::MoveAside => untouched(disk, old) && written && error is None,
        ReplaceStep::MoveIn => (if old is Some {
            set_aside(disk, old)
        } else {
            disk.target is None
        }) && written && error is None,
        ReplaceStep::ProbeLost => (if old is Some {
            set_aside(disk, old)
        } else {
            disk.target is None
        }) && error is Some,
        ReplaceStep::MoveBack => disk.target is None && (old is Some ==> disk.aside == old)
            && error is Some,
        ReplaceStep::ClearTemp => (old is Some ==> untouched(disk, old) || set_aside(disk, old))
            && error is Some,
        ReplaceStep::CleanBackup => disk.target == Some(new) && error is None,
        ReplaceStep::CleanTemp => disk.target == Some(new) && error is None,
        ReplaceStep::Finished => match error {
            None => disk.target == Some(new),
            Some(_) => old is Some ==> untouched(disk, old) || set_aside(disk, old),
        },
    }
}

/// Whatever happens, each step of a replacement leaves the disk as the next step
/// expects it.
pub proof fn law_replacement_keeps_its_promise(
    step: ReplaceStep,
    error: Option<Seq<char>>,
    outcome: FileOutcome,
    old: Option<Seq<u8>>,
    new: Seq<u8>,
    was: Disk,
    now: Disk,
)
    requires
        replace_holds(step, error, old, new, was),
        replace_effect(step, outcome, new, was, now),
    ensures
        ({
            let (next, err) = replace_next(step, error, outcome);
            replace_holds(next, err, old, new, now)
        }),
{
}

/// At every moment of a replacement the old content is still there, under the
/// file's name or its backup's, or the new content is in place.
pub proof fn law_no_content_is_lost(
    step: ReplaceStep,
    error: Option<Seq<char>>,
    old: Seq<u8>,
    new: Seq<u8>,
    disk: Disk,
)
    requires
        replace_holds(step, error, Some(old), new, disk),
    ensures
        disk.target == Some(old) || disk.aside == Some(old) || disk.target == Some(new),
        step == ReplaceStep::Finished && error is None ==> disk.target == Some(new),
{
}

/// One step of a replacement: how it went, and the disk after it.
pub struct DiskTurn {
    pub outcome: FileOutcome,
    pub disk: Disk,
}

/// The disk after a row of steps.
pub open spec fn disk_after(disk: Disk, turns: Seq<DiskTurn>) -> Disk {
    if turns.len() == 0 {
        disk
    } else {
        turns.last().disk
    }
}

/// The step and the error after a row of steps.
pub open spec fn replace_end(turns: Seq<DiskTurn>) -> (ReplaceStep, Option<Seq<char>>)
    decreases turns.len(),
{
    if turns.len() == 0 {
        (ReplaceStep::CreateParent, None)
    } else {
        let (step, error) = replace_end(turns.drop_last());
        replace_next(step, error, turns.last().outcome)
    }
}

/// Whether a row of steps can happen.
pub open spec fn replace_possible(new: Seq<u8>, disk: Disk, turns: Seq<DiskTurn>) -> bool
    decreases turns.len(),
{
    turns.len() == 0 || {
        let before = turns.drop_last();
        &&& replace_possible(new, disk, before)
        &&& replace_effect(
            replace_end(before).0,
            turns.last().outcome,
            new,
            disk_after(disk, before),
            turns.last().disk,
        )
    }
}

/// Over a whole replacement, wherever it stops: the old content is still there, under
/// the file's name or its backup's, or the new content is in place; and once it has
/// ended without an error, the new content is.
pub proof fn law_every_replacement_keeps_the_content(
    new: Seq<u8>,
    disk: Disk,
    turns: Seq<DiskTurn>,
)
    requires
        replace_possible(new, disk, turns),
    ensures
        replace_holds(
            replace_end(turns).0,
            replace_end(turns).1,
            disk.target,
            new,
            disk_after(disk, turns),
        ),
        disk.target is Some ==> ({
            let now = disk_after(disk, turns);
            now.target == disk.target || now.aside == disk.target || now.target == Some(new)
        }),
    decreases turns.len(),
{
    if turns.len() > 0 {
        let before = turns.drop_last();
        law_every_replacement_keeps_the_content(new, disk, before);
        let (step, error) = replace_end(before);
        law_replacement_keeps_its_promise(
            step,
            error,
            turns.last().outcome,
            disk.target,
            new,
            disk_after(disk, before),
            turns.last().disk,
        );
    }
}

/// The name of the file that new content is written to first. A file without a name
/// that can be told counts as `file`.
pub open spec fn temp_name(name: Option<Seq<char>>, process: u32) -> Seq<char> {
    "."@ + plain_name(name) + "."@ + decimal(process as nat) + ".tmp"@
}

/// The name of the file that old content is moved to.
pub open spec fn backup_name(name: Option<Seq<char>>) -> Seq<char> {
    plain_name(name) + ".bak"@
}

/// A name, or the one that stands for none.
pub open spec fn plain_name(name: Option<Seq<char>>) -> Seq<char> {
    match name {
        Some(n) => n,
        None => "file"@,
    }
}

/// The name of the file that new content is written to first.
pub fn temp_path(name: &Option<String>, process: u32) -> (r: String)
    ensures
        r@ == temp_name(text_view(*name), process),
{
    let mut out = chars_of(".");
    match name {
        Some(n) => {
            push_str(&mut out, n.as_str());
        },
        None => {
            push_str(&mut out, "file");
        },
    }
    push_str(&mut out, ".");
    let digits = decimal_of(process as u64);
    push_all(&mut out, digits.as_slice());
    push_str(&mut out, ".tmp");
    string_of(out.as_slice())
}

/// The name of the file that old content is moved to.
pub fn backup_path(name: &Option<String>) -> (r: String)
    ensures
        r@ == backup_name(text_view(*name)),
{
    match name {
        Some(n) => said(n.as_str(), ".bak"),
        None => said("file", ".bak"),
    }
}


// ---------------------------------------------------------------------------
// Putting a configuration back from its backup
// ---------------------------------------------------------------------------

/// The stores that can be put back or reset.
#[derive(Debug, Clone, Copy, PartialEq, Eq, Structural)]
pub enum ConfigStore {
    Settings,
    Provenance,
}

/// The store that a name stands for.
pub open spec fn store_named(which: Seq<char>) -> Option<ConfigStore> {
    if which == "settings"@ {
        Some(ConfigStore::Settings)
    } else if which == "provenance"@ {
        Some(ConfigStore::Provenance)
    } else {
        None
    }
}

/// The store that a name stands for, or the error that it stands for none.
pub fn config_store(which: &str) -> (r: Result<ConfigStore, AppError>)
    ensures
        match r {
            Ok(store) => store_named(which@) == Some(store),
            Err(e) => store_named(which@) is None && e@ == ErrorView::Internal(
                "配置类型必须是 settings 或 provenance"@,
            ),
        },
{
    if str_eq(which, "settings") {
        Ok(ConfigStore::Settings)
    } else if str_eq(which, "provenance") {
        Ok(ConfigStore::Provenance)
    } else {
        Err(internal("配置类型必须是 settings 或 provenance"))
    }
}

/// The path of a store, given the paths that could be found.
pub fn config_path(
    which: &str,
    settings_path: Option<String>,
    provenance_path: Option<String>,
) -> (r: Result<String, AppError>)
    ensures
        match (store_named(which@), r) {
            (Some(ConfigStore::Settings), Ok(p)) => text_view(settings_path) == Some(p@),
            (Some(ConfigStore::Settings), Err(e)) => settings_path is None && e@
                == ErrorView::Internal("无法定位 settings.json 数据目录"@),
            (Some(ConfigStore::Provenance), Ok(p)) => text_view(provenance_path) == Some(p@),
            (Some(ConfigStore::Provenance), Err(e)) => provenance_path is None && e@
                == ErrorView::Internal("无法定位 provenance.json 数据目录"@),
            (None, Ok(_)) => false,
            (None, Err(e)) => e@ == ErrorView::Internal("配置类型必须是 settings 或 provenance"@),
        },
{
    match config_store(which) {
        Ok(ConfigStore::Settings) => match settings_path {
            Some(p) => Ok(p),
            None => Err(internal("无法定位 settings.json 数据目录")),
        },
        Ok(ConfigStore::Provenance) => match provenance_path {
            Some(p) => Ok(p),
            None => Err(internal("无法定位 provenance.json 数据目录")),
        },
        Err(e) => Err(e),
    }
}

/// The operations of putting a backup back. The backup is the source.
#[derive(Debug, Clone, Copy, PartialEq, Eq, Structural)]
pub enum RestoreStep {
    /// Is there a backup?
    ProbeBackup,
    CreateParent,
    /// Is there a current file?
    ProbeTarget,
    MoveAside,
    MoveIn,
    /// After a failure: is there a file that was moved aside?
    ProbeAside,
    MoveBack,
    /// After success: is there a file that was moved aside?
    ProbeLeft,
    DropAside,
    /// Read the store again; yes if it is corrupt.
    Recheck,
    Finished,
}

/// A restoration under way.
#[derive(Debug)]
pub struct RestoreFlow {
    pub which: String,
    pub step: RestoreStep,
    pub error: Option<AppError>,
}

/// An error that may be missing, with its text as characters.
pub open spec fn error_view(e: Option<AppError>) -> Option<ErrorView> {
    match e {
        Some(x) => Some(x@),
        None => None,
    }
}

/// The next step and the error so far.
pub open spec fn restore_next(
    which: Seq<char>,
    step: RestoreStep,
    error: Option<ErrorView>,
    outcome: FileOutcome,
) -> (RestoreStep, Option<ErrorView>) {
    let failed = outcome is Failed;
    let yes = outcome is Yes;
    match step {
        RestoreStep::ProbeBackup => if yes {
            (RestoreStep::CreateParent, error)
        } else {
            (
                RestoreStep::Finished,
                Some(ErrorView::Internal("找不到 "@ + which + " 的 .bak 备份"@)),
            )
        },
        RestoreStep::CreateParent => if failed {
            (
                RestoreStep::Finished,
                Some(ErrorView::Internal("create data dir: "@ + outcome->Failed_0@)),
            )
        } else {
            (RestoreStep::ProbeTarget, error)
        },
        RestoreStep::ProbeTarget => if yes {
            (RestoreStep::MoveAside, error)
        } else {
            (RestoreStep::MoveIn, error)
        },
        RestoreStep::MoveAside => if failed {
            (
                RestoreStep::Finished,
                Some(ErrorView::Internal("move current config aside: "@ + outcome->Failed_0@)),
            )
        } else {
            (RestoreStep::MoveIn, error)
        },
        RestoreStep::MoveIn => if failed {
            (
                RestoreStep::ProbeAside,
                Some(ErrorView::Internal("restore config backup: "@ + outcome->Failed_0@)),
            )
        } else {
            (RestoreStep::ProbeLeft, error)
        },
        RestoreStep::ProbeAside => if yes {
            (RestoreStep::MoveBack, error)
        } else {
            (RestoreStep::Finished, error)
        },
        RestoreStep::MoveBack => (RestoreStep::Finished, error),
        RestoreStep::ProbeLeft => if yes {
            (RestoreStep::DropAside, error)
        } else {
            (RestoreStep::Recheck, error)
        },
        RestoreStep::DropAside => (RestoreStep::Recheck, error),
        RestoreStep::Recheck => if yes {
            (
                RestoreStep::Finished,
                Some(
                    ErrorView::Internal("已从 .bak 还原 "@ + which + "，但重新读取仍判定为损坏"@),
                ),
            )
        } else {
            (RestoreStep::Finished, error)
        },
        RestoreStep::Finished => (RestoreStep::Finished, error),
    }
}

impl RestoreFlow {
    /// A restoration that has not begun.
    pub fn start(which: &str) -> (r: RestoreFlow)
        ensures
            r.which@ == which@,
            r.step == RestoreStep::ProbeBackup,
            r.error is None,
            (r.step, error_view(r.error)) == restore_end(which@, Seq::empty()),
    {
        RestoreFlow { which: text_of(which), step: RestoreStep::ProbeBackup, error: None }
    }

    /// Takes in how the current step went.
    pub fn advance(&mut self, outcome: FileOutcome)
        ensures
            final(self).which@ == old(self).which@,
            restore_next(old(self).which@, old(self).step, error_view(old(self).error), outcome)
                == (final(self).step, error_view(final(self).error)),
    {
        let (yes, failure) = match outcome {
            FileOutcome::Failed(e) => (false, Some(e)),
            FileOutcome::Yes => (true, None),
            FileOutcome::Done => (false, None),
            FileOutcome::No => (false, None),
        };
        match self.step {
            RestoreStep::ProbeBackup => {
                if yes {
                    self.step = RestoreStep::CreateParent;
                } else {
                    self.error = Some(
                        AppError::Internal(
                            said_around("找不到 ", self.which.as_str(), " 的 .bak 备份"),
                        ),
                    );
                    self.step = RestoreStep::Finished;
                }
            },
            RestoreStep::CreateParent => {
                match failure {
                    Some(e) => {
                        self.error = Some(AppError::Internal(said("create data dir: ", e.as_str())));
                        self.step = RestoreStep::Finished;
                    },
                    None => {
                        self.step = RestoreStep::ProbeTarget;
                    },
                }
            },
            RestoreStep::ProbeTarget => {
                if yes {
                    self.step = RestoreStep::MoveAside;
                } else {
                    self.step = RestoreStep::MoveIn;
                }
            },
            RestoreStep::MoveAside => {
                match failure {
                    Some(e) => {
                        self.error = Some(
                            AppError::Internal(said("move current config aside: ", e.as_str())),
                        );
                        self.step = RestoreStep::Finished;
                    },
                    None => {
                        self.step = RestoreStep::MoveIn;
                    },
                }
            },
            RestoreStep::MoveIn => {
                match failure {
                    Some(e) => {
                        self.error = Some(
                            AppError::Internal(said("restore config backup: ", e.as_str())),
                        );
                        self.step = RestoreStep::ProbeAside;
                    },
                    None => {
                        self.step = RestoreStep::ProbeLeft;
                    },
                }
            },
            RestoreStep::ProbeAside => {
                if yes {
                    self.step = RestoreStep::MoveBack;
                } else {
                    self.step = RestoreStep::Finished;
                }
            },
            RestoreStep::MoveBack => {
                self.step = RestoreStep::Finished;
            },
            RestoreStep::ProbeLeft => {
                if yes {
                    self.step = RestoreStep::DropAside;
                } else {
                    self.step = RestoreStep::Recheck;
                }
            },
            RestoreStep::DropAside => {
                self.step = RestoreStep::Recheck;
            },
            RestoreStep::Recheck => {
                if yes {
                    self.error = Some(
                        AppError::Internal(
                            said_around(
                                "已从 .bak 还原 ",
                                self.which.as_str(),
                                "，但重新读取仍判定为损坏",
                            ),
                        ),
                    );
                }
                self.step = RestoreStep::Finished;
            },
            RestoreStep::Finished => {},
        }
    }
}

/// What a step of a restoration can do to the disk.
pub open spec fn restore_effect(
    step: RestoreStep,
    outcome: FileOutcome,
    was: Disk,
    now: Disk,
) -> bool {
    match (step, outcome) {
        (RestoreStep::ProbeBackup, FileOutcome::Yes) => now == was && was.source is Some,
        (RestoreStep::ProbeBackup, FileOutcome::No) => now == was && was.source is None,
        (RestoreStep::CreateParent, FileOutcome::Done) => now == was,
        (RestoreStep::ProbeTarget, FileOutcome::Yes) => now == was && was.target is Some,
        (RestoreStep::ProbeTarget, FileOutcome::No) => now == was && was.target is None,
        (RestoreStep::MoveAside, FileOutcome::Done) => now == (Disk {
            target: None,
            aside: was.target,
            ..was
        }),
        (RestoreStep::MoveIn, FileOutcome::Done) => now == (Disk {
            target: was.source,
            source: None,
            ..was
        }),
        (RestoreStep::ProbeAside, FileOutcome::Yes) => now == was && was.aside is Some,
        (RestoreStep::ProbeAside, FileOutcome::No) => now == was && was.aside is None,
        (RestoreStep::MoveBack, FileOutcome::Done) => now == (Disk {
            target: was.aside,
            aside: None,
            ..was
        }),
        (RestoreStep::ProbeLeft, FileOutcome::Yes) => now == was && was.aside is Some,
        (RestoreStep::ProbeLeft, FileOutcome::No) => now == was && was.aside is None,
        (RestoreStep::DropAside, FileOutcome::Done) => now == (Disk { aside: None, ..was }),
        (RestoreStep::Recheck, FileOutcome::Yes) => now == was,
        (RestoreStep::Recheck, FileOutcome::No) => now == was,
        (RestoreStep::CreateParent, FileOutcome::Failed(_)) => now == was,
        (RestoreStep::MoveAside, FileOutcome::Failed(_)) => now == was,
        (RestoreStep::MoveIn, FileOutcome::Failed(_)) => now == was,
        (RestoreStep::MoveBack, FileOutcome::Failed(_)) => now == was,
        (RestoreStep::DropAside, FileOutcome::Failed(_)) => now == was,
        _ => false,
    }
}

/// What holds of the disk at each step of putting the backup `kept` in the place of
/// `old`, where the name for moving aside was free at first.
pub open spec fn restore_holds(
    step: RestoreStep,
    error: Option<ErrorView>,
    old: Option<Seq<u8>>,
    kept: Option<Seq<u8>>,
    disk: Disk,
) -> bool {
    match step {
        RestoreStep::ProbeBackup => untouched(disk, old) && disk.source == kept && disk.aside
            is None && error is None,
        RestoreStep::CreateParent => untouched(disk, old) && disk.source == kept && disk.aside
            is None && kept is Some && error is None,
        RestoreStep::ProbeTarget => untouched(disk, old) && disk.source == kept && disk.aside
            is None && kept is Some && error is None,
        RestoreStep::MoveAside => untouched(disk, old) && old is Some && disk.source == kept
            && disk.aside is None && kept is Some && error is None,
        RestoreStep::MoveIn => set_aside(disk, old) && disk.source == kept && kept is Some
            && error is None,
        RestoreStep::ProbeAside => set_aside(disk, old) && disk.source == kept && kept is Some
            && error is Some,
        RestoreStep::MoveBack => set_aside(disk, old) && disk.source == kept && kept is Some
            && error is Some,
        RestoreStep::ProbeLeft => disk.target == kept && kept is Some && error is None,
        RestoreStep::DropAside => disk.target == kept && kept is Some && error is None,
        RestoreStep::Recheck => disk.target == kept && kept is Some && error is None,
        RestoreStep::Finished => {
            ||| disk.target == kept && kept is Some
            ||| (untouched(disk, old) || set_aside(disk, old)) && disk.source == kept && error
                is Some
        },
    }
}

/// Each step of a restoration leaves the disk as the next step expects it.
pub proof fn law_restoration_keeps_its_promise(
    which: Seq<char>,
    step: RestoreStep,
    error: Option<ErrorView>,
    outcome: FileOutcome,
    old: Option<Seq<u8>>,
    kept: Option<Seq<u8>>,
    was: Disk,
    now: Disk,
)
    requires
        restore_holds(step, error, old, kept, was),
        restore_effect(step, outcome, was, now),
    ensures
        ({
            let (next, err) = restore_next(which, step, error, outcome);
            restore_holds(next, err, old, kept, now)
        }),
{
}

/// At every moment the backup is under its own name or in place, and until it is in
/// place the current file is not lost. A restoration without an error has put the
/// backup in place.
pub proof fn law_restoration_loses_nothing(
    step: RestoreStep,
    error: Option<ErrorView>,
    old: Option<Seq<u8>>,
    kept: Option<Seq<u8>>,
    disk: Disk,
)
    requires
        restore_holds(step, error, old, kept, disk),
    ensures
        disk.source == kept || disk.target == kept,
        disk.target == kept || disk.target == old || disk.aside == old,
        step == RestoreStep::Finished && error is None ==> disk.target == kept && kept is Some,
{
}

/// The step and the error after a row of steps.
pub open spec fn restore_end(which: Seq<char>, turns: Seq<DiskTurn>) -> (
    RestoreStep,
    Option<ErrorView>,
)
    decreases turns.len(),
{
    if turns.len() == 0 {
        (RestoreStep::ProbeBackup, None)
    } else {
        let (step, error) = restore_end(which, turns.drop_last());
        restore_next(which, step, error, turns.last().outcome)
    }
}

/// Whether a row of steps can happen.
pub open spec fn restore_possible(which: Seq<char>, disk: Disk, turns: Seq<DiskTurn>) -> bool
    decreases turns.len(),
{
    turns.len() == 0 || {
        let before = turns.drop_last();
        &&& restore_possible(which, disk, before)
        &&& restore_effect(
            restore_end(which, before).0,
            turns.last().outcome,
            disk_after(disk, before),
            turns.last().disk,
        )
    }
}

/// Over a whole restoration, wherever it stops: the backup is under its own name or in
/// place, and until it is in place the current file is not lost.
pub proof fn law_every_restoration_keeps_the_content(
    which: Seq<char>,
    disk: Disk,
    turns: Seq<DiskTurn>,
)
    requires
        disk.aside is None,
        restore_possible(which, disk, turns),
    ensures
        restore_holds(
            restore_end(which, turns).0,
            restore_end(which, turns).1,
            disk.target,
            disk.source,
            disk_after(disk, turns),
        ),
        ({
            let now = disk_after(disk, turns);
            &&& now.source == disk.source || now.target == disk.source
            &&& now.target == disk.source || now.target == disk.target || now.aside == disk.target
        }),
    decreases turns.len(),
{
    if turns.len() > 0 {
        let before = turns.drop_last();
        law_every_restoration_keeps_the_content(which, disk, before);
        let (step, error) = restore_end(which, before);
        law_restoration_keeps_its_promise(
            which,
            step,
            error,
            turns.last().outcome,
            disk.target,
            disk.source,
            disk_after(disk, before),
            turns.last().disk,
        );
    }
}


// ---------------------------------------------------------------------------
// Resetting a store
// ---------------------------------------------------------------------------

/// The operations of a reset.
#[derive(Debug, Clone, Copy, PartialEq, Eq, Structural)]
pub enum ResetStep {
    /// Bring the platform in line with the default update policy.
    SyncPolicy,
    SaveSettings,
    SaveProvenance,
    /// Read the store again; yes if it is corrupt.
    Recheck,
    Finished,
}

/// How a step of a reset went.
#[derive(Debug)]
pub enum ResetOutcome {
    Done,
    /// The store is corrupt.
    Corrupt,
    Failed(AppError),
}

/// A reset under way.
#[derive(Debug)]
pub struct ResetFlow {
    pub which: String,
    pub step: ResetStep,
    pub error: Option<AppError>,
}

/// The first step of a reset.
pub open spec fn reset_first(which: Seq<char>) -> Option<ResetStep> {
    match store_named(which) {
        Some(ConfigStore::Settings) => Some(ResetStep::SyncPolicy),
        Some(ConfigStore::Provenance) => Some(ResetStep::SaveProvenance),
        None => None,
    }
}

/// The next step of a reset and the error so far. Settings are saved only once the
/// platform follows the default policy.
pub open spec fn reset_next(
    which: Seq<char>,
    step: ResetStep,
    error: Option<ErrorView>,
    outcome: ResetOutcome,
) -> (ResetStep, Option<ErrorView>) {
    match (step, outcome) {
        (ResetStep::Finished, _) => (ResetStep::Finished, error),
        (ResetStep::Recheck, ResetOutcome::Corrupt) => (
            ResetStep::Finished,
            Some(ErrorView::Internal("已重置 "@ + which + "，但重新读取仍判定为损坏"@)),
        ),
        (ResetStep::Recheck, _) => (ResetStep::Finished, error),
        (_, ResetOutcome::Failed(e)) => (ResetStep::Finished, Some(e@)),
        (ResetStep::SyncPolicy, _) => (ResetStep::SaveSettings, error),
        (ResetStep::SaveSettings, _) => (ResetStep::Recheck, error),
        (ResetStep::SaveProvenance, _) => (ResetStep::Recheck, error),
    }
}

impl ResetFlow {
    /// A reset that has not begun, or why there is none.
    pub fn start(which: &str) -> (r: Result<ResetFlow, AppError>)
        ensures
            match r {
                Ok(flow) => reset_first(which@) == Some(flow.step) && flow.which@ == which@
                    && flow.error is None,
                Err(e) => reset_first(which@) is None && e@ == ErrorView::Internal(
                    "配置类型必须是 settings 或 provenance"@,
                ),
            },
    {
        match config_store(which) {
            Ok(ConfigStore::Settings) => Ok(
                ResetFlow { which: text_of(which), step: ResetStep::SyncPolicy, error: None },
            ),
            Ok(ConfigStore::Provenance) => Ok(
                ResetFlow { which: text_of(which), step: ResetStep::SaveProvenance, error: None },
            ),
            Err(e) => Err(e),
        }
    }

    /// Takes in how the current step went.
    pub fn advance(&mut self, outcome: ResetOutcome)
        ensures
            final(self).which@ == old(self).which@,
            reset_next(old(self).which@, old(self).step, error_view(old(self).error), outcome) == (
                final(self).step,
                error_view(final(self).error),
            ),
    {
        match self.step {
            ResetStep::Finished => {},
            ResetStep::Recheck => {
                match outcome {
                    ResetOutcome::Corrupt => {
                        self.error = Some(
                            AppError::Internal(
                                said_around(
                                    "已重置 ",
                                    self.which.as_str(),
                                    "，但重新读取仍判定为损坏",
                                ),
                            ),
                        );
                    },
                    _ => {},
                }
                self.step = ResetStep::Finished;
            },
            step => {
                match outcome {
                    ResetOutcome::Failed(e) => {
                        self.error = Some(e);
                        self.step = ResetStep::Finished;
                    },
                    _ => {
                        self.step = match step {
                            ResetStep::SyncPolicy => ResetStep::SaveSettings,
                            _ => ResetStep::Recheck,
                        };
                    },
                }
            },
        }
    }
}

} // verus!

//! Writing appearance settings into `config.toml` under a transaction: applying a
//! theme while Codex is stopped, restoring the user's own appearance, and putting a
//! snapshot back. The flow says which operation comes next and is told how it went.

use vstd::prelude::*;
use crate::digest::{hex, sha256, sha256_hex};
use crate::errors::{said, AppError, ErrorView};
use crate::file_swap::error_view;
use crate::text::{chars_of, push_str, str_eq, string_of};
use crate::url_policy::text_view;

verus! {

/// What the transaction is for.
#[derive(Debug, Clone, Copy, PartialEq, Eq, Structural)]
pub enum Purpose {
    /// Write a theme's native settings, then launch Codex and inject.
    Apply,
    /// Put every managed setting back from the baseline.
    Off,
    /// Write a snapshot of settings back while Codex is not running.
    Snapshot,
}

/// The operations of the flow.
#[derive(Debug, Clone, Copy, PartialEq, Eq, Structural)]
pub enum TxStep {
    /// Refuse to go on while another transaction is unresolved.
    CheckPending,
    TurnOffLive,
    LocateInstall,
    /// Is Codex running?
    ObserveRunning,
    QuitCodex,
    Settle,
    LocatePaths,
    /// Is there a baseline to restore from?
    CheckBaseline,
    /// Without a baseline: launch Codex again, as it was running.
    RelaunchUnrestored,
    ForgetStash,
    BeginTx,
    MarkStopped,
    CaptureBaseline,
    ReadConfig,
    PlanConfig,
    StageTx,
    WriteConfig,
    ReadBack,
    VerifyCommit,
    MarkCommitted,
    LaunchDebuggable,
    MarkLaunched,
    AwaitPort,
    SendDirective,
    ConfirmTheme,
    MarkVerified,
    DropBaseline,
    CommitTx,
    RemoveStash,
    RelaunchPlain,
    /// Undoing after the configuration was committed.
    FindPathsAgain,
    FindInstallAgain,
    QuitAgain,
    SettleAgain,
    /// Undoing: note why, then roll the preimage back.
    NoteCause,
    MarkRollingBack,
    ReadPreimage,
    RestorePreimage,
    MarkRolledBack,
    /// Keep the evidence: the rollback cannot be trusted.
    MarkRecovery,
    RelaunchAnyway,
    Finished,
}

/// How an operation went.
#[derive(Debug)]
pub enum TxEvent {
    Done,
    Yes,
    No,
    Failed(AppError),
    /// The preimage was read; with it comes the digest on record.
    Preimage { bytes: Vec<u8>, expected: String },
    /// The worker that ran the operation is gone.
    Lost(String),
}

/// What a failure of a step leads to.
#[derive(Debug, Clone, Copy, PartialEq, Eq, Structural)]
pub enum Rule {
    /// The flow ends with the error.
    Stop,
    /// The preimage is rolled back.
    Undo,
    /// Codex is stopped again, and the preimage is rolled back.
    UndoLaunched,
    /// The flow goes on.
    Skip,
}

/// The first step.
pub open spec fn first_step(purpose: Purpose) -> TxStep {
    match purpose {
        Purpose::Apply => TxStep::LocateInstall,
        Purpose::Off => TxStep::CheckPending,
        Purpose::Snapshot => TxStep::LocatePaths,
    }
}

/// The step after one that went well, or whose failure does not matter. `running`
/// tells whether Codex was running at first, `yes` is the answer of a probe, and
/// `lost` tells that the paths could not be found when undoing.
pub open spec fn step_after(
    purpose: Purpose,
    running: bool,
    lost: bool,
    step: TxStep,
    yes: bool,
) -> TxStep {
    match step {
        TxStep::CheckPending => TxStep::TurnOffLive,
        TxStep::TurnOffLive => TxStep::LocateInstall,
        TxStep::LocateInstall => TxStep::ObserveRunning,
        TxStep::ObserveRunning => TxStep::QuitCodex,
        TxStep::QuitCodex => TxStep::Settle,
        TxStep::Settle => TxStep::LocatePaths,
        TxStep::LocatePaths => if purpose == Purpose::Off {
            TxStep::CheckBaseline
        } else {
            TxStep::BeginTx
        },
        TxStep::CheckBaseline => if yes {
            TxStep::BeginTx
        } else if running {
            TxStep::RelaunchUnrestored
        } else {
            TxStep::ForgetStash
        },
        TxStep::RelaunchUnrestored => TxStep::ForgetStash,
        TxStep::ForgetStash => TxStep::Finished,
        TxStep::BeginTx => if purpose == Purpose::Snapshot {
            TxStep::ReadConfig
        } else {
            TxStep::MarkStopped
        },
        TxStep::MarkStopped => if purpose == Purpose::Apply {
            TxStep::CaptureBaseline
        } else {
            TxStep::ReadConfig
        },
        TxStep::CaptureBaseline => TxStep::ReadConfig,
        TxStep::ReadConfig => TxStep::PlanConfig,
        TxStep::PlanConfig => TxStep::StageTx,
        TxStep::StageTx => TxStep::WriteConfig,
        TxStep::WriteConfig => TxStep::ReadBack,
        TxStep::ReadBack => TxStep::VerifyCommit,
        TxStep::VerifyCommit => TxStep::MarkCommitted,
        TxStep::MarkCommitted => match purpose {
            Purpose::Apply => TxStep::LaunchDebuggable,
            Purpose::Off => TxStep::DropBaseline,
            Purpose::Snapshot => TxStep::CommitTx,
        },
        TxStep::LaunchDebuggable => TxStep::MarkLaunched,
        TxStep::MarkLaunched => TxStep::AwaitPort,
        TxStep::AwaitPort => TxStep::SendDirective,
        TxStep::SendDirective => TxStep::ConfirmTheme,
        TxStep::ConfirmTheme => TxStep::MarkVerified,
        TxStep::MarkVerified => TxStep::CommitTx,
        TxStep::DropBaseline => TxStep::CommitTx,
        TxStep::CommitTx => if purpose == Purpose::Snapshot {
            TxStep::Finished
        } else {
            TxStep::RemoveStash
        },
        TxStep::RemoveStash => if purpose == Purpose::Off && running {
            TxStep::RelaunchPlain
        } else {
            TxStep::Finished
        },
        TxStep::RelaunchPlain => TxStep::Finished,
        TxStep::FindPathsAgain => TxStep::FindInstallAgain,
        TxStep::FindInstallAgain => TxStep::QuitAgain,
        TxStep::QuitAgain => TxStep::SettleAgain,
        TxStep::SettleAgain => TxStep::NoteCause,
        TxStep::NoteCause => TxStep::MarkRollingBack,
        TxStep::MarkRollingBack => TxStep::ReadPreimage,
        TxStep::ReadPreimage => TxStep::RestorePreimage,
        TxStep::RestorePreimage => TxStep::MarkRolledBack,
        TxStep::MarkRolledBack => if running {
            TxStep::RelaunchAnyway
        } else {
            TxStep::Finished
        },
        TxStep::MarkRecovery => if running && !lost {
            TxStep::RelaunchAnyway
        } else {
            TxStep::Finished
        },
        TxStep::RelaunchAnyway => TxStep::Finished,
        TxStep::Finished => TxStep::Finished,
    }
}

/// What a failure of a step leads to. A step between the beginning of the
/// transaction and the commit of the configuration is undone. When a theme is
/// applied, every later failure is undone too.
pub open spec fn rule_for(purpose: Purpose, step: TxStep) -> Rule {
    match step {
        TxStep::CheckPending => Rule::Stop,
        TxStep::LocateInstall => Rule::Stop,
        TxStep::QuitCodex => Rule::Stop,
        TxStep::LocatePaths => Rule::Stop,
        TxStep::RelaunchUnrestored => Rule::Stop,
        TxStep::BeginTx => Rule::Stop,
        TxStep::DropBaseline => Rule::Stop,
        TxStep::RelaunchPlain => Rule::Stop,
        TxStep::MarkStopped => Rule::Undo,
        TxStep::CaptureBaseline => Rule::Undo,
        TxStep::ReadConfig => Rule::Undo,
        TxStep::PlanConfig => Rule::Undo,
        TxStep::StageTx => Rule::Undo,
        TxStep::WriteConfig => Rule::Undo,
        TxStep::ReadBack => Rule::Undo,
        TxStep::VerifyCommit => Rule::Undo,
        TxStep::MarkCommitted => Rule::Undo,
        TxStep::LaunchDebuggable => Rule::UndoLaunched,
        TxStep::AwaitPort => Rule::UndoLaunched,
        TxStep::SendDirective => Rule::UndoLaunched,
        TxStep::ConfirmTheme => Rule::UndoLaunched,
        TxStep::CommitTx => if purpose == Purpose::Apply {
            Rule::UndoLaunched
        } else {
            Rule::Stop
        },
        _ => Rule::Skip,
    }
}

/// The steps of undoing.
pub open spec fn is_undoing(step: TxStep) -> bool {
    match step {
        TxStep::FindPathsAgain => true,
        TxStep::FindInstallAgain => true,
        TxStep::QuitAgain => true,
        TxStep::SettleAgain => true,
        TxStep::NoteCause => true,
        TxStep::MarkRollingBack => true,
        TxStep::ReadPreimage => true,
        TxStep::RestorePreimage => true,
        TxStep::MarkRolledBack => true,
        TxStep::MarkRecovery => true,
        TxStep::RelaunchAnyway => true,
        _ => false,
    }
}

/// A transaction under way.
#[derive(Debug)]
pub struct ThemeTx {
    pub purpose: Purpose,
    pub step: TxStep,
    /// Codex was running when the flow looked.
    pub was_running: bool,
    /// The paths could not be found when undoing.
    pub paths_lost: bool,
    /// Why the flow fails.
    pub error: Option<AppError>,
    /// Why the evidence of the transaction is kept.
    pub note: Option<String>,
    /// The preimage whose digest was the one on record: what is written back.
    pub preimage: Option<Vec<u8>>,
}

/// A transaction with its texts as characters.
pub struct TxView {
    pub purpose: Purpose,
    pub step: TxStep,
    pub was_running: bool,
    pub paths_lost: bool,
    pub error: Option<ErrorView>,
    pub note: Option<Seq<char>>,
    pub preimage: Option<Seq<u8>>,
}

/// Bytes that may be missing, as a sequence.
pub open spec fn bytes_view(b: Option<Vec<u8>>) -> Option<Seq<u8>> {
    match b {
        Some(bytes) => Some(bytes@),
        None => None,
    }
}

impl View for ThemeTx {
    type V = TxView;

    open spec fn view(&self) -> TxView {
        TxView {
            purpose: self.purpose,
            step: self.step,
            was_running: self.was_running,
            paths_lost: self.paths_lost,
            error: error_view(self.error),
            note: text_view(self.note),
            preimage: bytes_view(self.preimage),
        }
    }
}

/// The bytes of a preimage whose digest is the one on record.
pub open spec fn trusted_preimage(event: TxEvent) -> Option<Seq<u8>> {
    match event {
        TxEvent::Preimage { bytes, expected } => if hex(sha256(bytes@)) == expected@ {
            Some(bytes@)
        } else {
            None
        },
        _ => None,
    }
}

impl TxView {
    /// The flow goes on to the next step.
    pub open spec fn onward(self, yes: bool) -> TxView {
        TxView {
            step: step_after(self.purpose, self.was_running, self.paths_lost, self.step, yes),
            ..self
        }
    }

    /// The flow ends with an error.
    pub open spec fn ended(self, e: ErrorView) -> TxView {
        TxView { step: TxStep::Finished, error: Some(e), ..self }
    }

    /// The words of the error so far.
    pub open spec fn cause(self) -> Seq<char> {
        match self.error {
            Some(e) => e.words(),
            None => Seq::empty(),
        }
    }

    /// The evidence is kept, and why.
    pub open spec fn kept(self, why: Seq<char>) -> TxView {
        TxView { step: TxStep::MarkRecovery, note: Some(self.cause() + why), ..self }
    }

    /// The error when a worker is gone.
    pub open spec fn worker_words(self, e: Seq<char>) -> Seq<char> {
        if self.purpose == Purpose::Off {
            "主题还原任务失败: "@ + e
        } else if self.purpose == Purpose::Snapshot {
            "试穿撤销任务失败: "@ + e
        } else if is_undoing(self.step) {
            "回滚任务失败: "@ + e
        } else {
            "主题应用任务失败: "@ + e
        }
    }

    /// A step failed.
    pub open spec fn failed(self, e: ErrorView) -> TxView {
        match self.step {
            TxStep::FindPathsAgain => TxView { paths_lost: true, ..self.kept(
                "; 回滚失败: "@ + e.words(),
            ) },
            TxStep::FindInstallAgain => TxView { step: TxStep::NoteCause, ..self },
            TxStep::ReadPreimage => self.kept("; 读取 preimage 失败: "@ + e.words()),
            TxStep::RestorePreimage => self.kept("; 回滚写入失败: "@ + e.words()),
            step => match rule_for(self.purpose, step) {
                Rule::Stop => self.ended(e),
                Rule::Undo => TxView { step: TxStep::NoteCause, error: Some(e), ..self },
                Rule::UndoLaunched => TxView {
                    step: TxStep::FindPathsAgain,
                    error: Some(e),
                    ..self
                },
                Rule::Skip => self.onward(false),
            },
        }
    }

    /// The flow after a step went one way or another. A preimage counts only if its
    /// digest is the one on record; then the flow holds it.
    pub open spec fn next(self, event: TxEvent) -> TxView {
        if self.step == TxStep::Finished {
            self
        } else {
            match event {
                TxEvent::Lost(e) => self.ended(ErrorView::Internal(self.worker_words(e@))),
                TxEvent::Failed(e) => self.failed(e@),
                _ => if self.step == TxStep::ReadPreimage {
                    match trusted_preimage(event) {
                        Some(bytes) => TxView { preimage: Some(bytes), ..self.onward(false) },
                        None => self.kept("; preimage 校验失败"@),
                    }
                } else {
                    TxView {
                        was_running: self.was_running || (self.step == TxStep::ObserveRunning
                            && event is Yes),
                        ..self.onward(event is Yes)
                    }
                },
            }
        }
    }
}

fn next_step(purpose: Purpose, running: bool, lost: bool, step: TxStep, yes: bool) -> (r: TxStep)
    ensures
        r == step_after(purpose, running, lost, step, yes),
{
    match step {
        TxStep::CheckPending => TxStep::TurnOffLive,
        TxStep::TurnOffLive => TxStep::LocateInstall,
        TxStep::LocateInstall => TxStep::ObserveRunning,
        TxStep::ObserveRunning => TxStep::QuitCodex,
        TxStep::QuitCodex => TxStep::Settle,
        TxStep::Settle => TxStep::LocatePaths,
        TxStep::LocatePaths => if purpose == Purpose::Off {
            TxStep::CheckBaseline
        } else {
            TxStep::BeginTx
        },
        TxStep::CheckBaseline => if yes {
            TxStep::BeginTx
        } else if running {
            TxStep::RelaunchUnrestored
        } else {
            TxStep::ForgetStash
        },
        TxStep::RelaunchUnrestored => TxStep::ForgetStash,
        TxStep::BeginTx => if purpose == Purpose::Snapshot {
            TxStep::ReadConfig
        } else {
            TxStep::MarkStopped
        },
        TxStep::MarkStopped => if purpose == Purpose::Apply {
            TxStep::CaptureBaseline
        } else {
            TxStep::ReadConfig
        },
        TxStep::CaptureBaseline => TxStep::ReadConfig,
        TxStep::ReadConfig => TxStep::PlanConfig,
        TxStep::PlanConfig => TxStep::StageTx,
        TxStep::StageTx => TxStep::WriteConfig,
        TxStep::WriteConfig => TxStep::ReadBack,
        TxStep::ReadBack => TxStep::VerifyCommit,
        TxStep::VerifyCommit => TxStep::MarkCommitted,
        TxStep::MarkCommitted => match purpose {
            Purpose::Apply => TxStep::LaunchDebuggable,
            Purpose::Off => TxStep::DropBaseline,
            Purpose::Snapshot => TxStep::CommitTx,
        },
        TxStep::LaunchDebuggable => TxStep::MarkLaunched,
        TxStep::MarkLaunched => TxStep::AwaitPort,
        TxStep::AwaitPort => TxStep::SendDirective,
        TxStep::SendDirective => TxStep::ConfirmTheme,
        TxStep::ConfirmTheme => TxStep::MarkVerified,
        TxStep::MarkVerified | TxStep::DropBaseline => TxStep::CommitTx,
        TxStep::CommitTx => if purpose == Purpose::Snapshot {
            TxStep::Finished
        } else {
            TxStep::RemoveStash
        },
        TxStep::RemoveStash => if purpose == Purpose::Off && running {
            TxStep::RelaunchPlain
        } else {
            TxStep::Finished
        },
        TxStep::FindPathsAgain => TxStep::FindInstallAgain,
        TxStep::FindInstallAgain => TxStep::QuitAgain,
        TxStep::QuitAgain => TxStep::SettleAgain,
        TxStep::SettleAgain => TxStep::NoteCause,
        TxStep::NoteCause => TxStep::MarkRollingBack,
        TxStep::MarkRollingBack => TxStep::ReadPreimage,
        TxStep::ReadPreimage => TxStep::RestorePreimage,
        TxStep::RestorePreimage => TxStep::MarkRolledBack,
        TxStep::MarkRolledBack => if running {
            TxStep::RelaunchAnyway
        } else {
            TxStep::Finished
        },
        TxStep::MarkRecovery => if running && !lost {
            TxStep::RelaunchAnyway
        } else {
            TxStep::Finished
        },
        TxStep::ForgetStash | TxStep::RelaunchPlain | TxStep::RelaunchAnyway
        | TxStep::Finished => TxStep::Finished,
    }
}

fn failure_rule(purpose: Purpose, step: TxStep) -> (r: Rule)
    ensures
        r == rule_for(purpose, step),
{
    match step {
        TxStep::CheckPending | TxStep::LocateInstall | TxStep::QuitCodex | TxStep::LocatePaths
        | TxStep::RelaunchUnrestored | TxStep::BeginTx | TxStep::DropBaseline
        | TxStep::RelaunchPlain => Rule::Stop,
        TxStep::MarkStopped | TxStep::CaptureBaseline | TxStep::ReadConfig | TxStep::PlanConfig
        | TxStep::StageTx | TxStep::WriteConfig | TxStep::ReadBack | TxStep::VerifyCommit
        | TxStep::MarkCommitted => Rule::Undo,
        TxStep::LaunchDebuggable | TxStep::AwaitPort | TxStep::SendDirective
        | TxStep::ConfirmTheme => Rule::UndoLaunched,
        TxStep::CommitTx => if purpose == Purpose::Apply {
            Rule::UndoLaunched
        } else {
            Rule::Stop
        },
        _ => Rule::Skip,
    }
}

fn undoing(step: TxStep) -> (r: bool)
    ensures
        r == is_undoing(step),
{
    matches!(
        step,
        TxStep::FindPathsAgain | TxStep::FindInstallAgain | TxStep::QuitAgain
            | TxStep::SettleAgain | TxStep::NoteCause | TxStep::MarkRollingBack
            | TxStep::ReadPreimage | TxStep::RestorePreimage | TxStep::MarkRolledBack
            | TxStep::MarkRecovery | TxStep::RelaunchAnyway
    )
}

fn checked_preimage(event: TxEvent) -> (r: Option<Vec<u8>>)
    ensures
        bytes_view(r) == trusted_preimage(event),
{
    match event {
        TxEvent::Preimage { bytes, expected } => {
            let digest = sha256_hex(bytes.as_slice());
            if str_eq(digest.as_str(), expected.as_str()) {
                Some(bytes)
            } else {
                None
            }
        },
        _ => None,
    }
}

impl ThemeTx {
    /// A transaction that has not begun. Restoring needs a platform that has themes.
    pub fn start(purpose: Purpose, supported: bool) -> (r: ThemeTx)
        ensures
            r.purpose == purpose,
            !r.was_running,
            !r.paths_lost,
            r.note is None,
            r.preimage is None,
            purpose == Purpose::Off && !supported ==> r.step == TxStep::Finished && error_view(
                r.error,
            ) == Some(ErrorView::UnsupportedPlatform),
            purpose != Purpose::Off || supported ==> r.step == first_step(purpose) && r.error
                is None,
    {
        if purpose == Purpose::Off && !supported {
            return ThemeTx {
                purpose,
                step: TxStep::Finished,
                was_running: false,
                paths_lost: false,
                error: Some(AppError::UnsupportedPlatform),
                note: None,
                preimage: None,
            };
        }
        let step = match purpose {
            Purpose::Apply => TxStep::LocateInstall,
            Purpose::Off => TxStep::CheckPending,
            Purpose::Snapshot => TxStep::LocatePaths,
        };
        ThemeTx {
            purpose,
            step,
            was_running: false,
            paths_lost: false,
            error: None,
            note: None,
            preimage: None,
        }
    }

    fn go_on(&mut self, yes: bool)
        ensures
            final(self)@ == old(self)@.onward(yes),
    {
        self.step = next_step(self.purpose, self.was_running, self.paths_lost, self.step, yes);
    }

    fn keep_evidence(&mut self, why: &str)
        ensures
            final(self)@ == old(self)@.kept(why@),
    {
        let cause = match &self.error {
            Some(e) => e.text(),
            None => String::new(),
        };
        self.note = Some(said(cause.as_str(), why));
        self.step = TxStep::MarkRecovery;
    }

    fn fail(&mut self, e: AppError)
        ensures
            final(self)@ == old(self)@.failed(e@),
    {
        match self.step {
            TxStep::FindPathsAgain => {
                let words = e.text();
                let why = said("; 回滚失败: ", words.as_str());
                self.keep_evidence(why.as_str());
                self.paths_lost = true;
            },
            TxStep::FindInstallAgain => {
                self.step = TxStep::NoteCause;
            },
            TxStep::ReadPreimage => {
                let words = e.text();
                let why = said("; 读取 preimage 失败: ", words.as_str());
                self.keep_evidence(why.as_str());
            },
            TxStep::RestorePreimage => {
                let words = e.text();
                let why = said("; 回滚写入失败: ", words.as_str());
                self.keep_evidence(why.as_str());
            },
            step => match failure_rule(self.purpose, step) {
                Rule::Stop => {
                    self.step = TxStep::Finished;
                    self.error = Some(e);
                },
                Rule::Undo => {
                    self.step = TxStep::NoteCause;
                    self.error = Some(e);
                },
                Rule::UndoLaunched => {
                    self.step = TxStep::FindPathsAgain;
                    self.error = Some(e);
                },
                Rule::Skip => {
                    self.go_on(false);
                },
            },
        }
    }

    /// Takes in how the current step went.
    pub fn advance(&mut self, event: TxEvent)
        ensures
            final(self)@ == old(self)@.next(event),
    {
        if self.step == TxStep::Finished {
            return;
        }
        match event {
            TxEvent::Lost(e) => {
                let before = if self.purpose == Purpose::Off {
                    "主题还原任务失败: "
                } else if self.purpose == Purpose::Snapshot {
                    "试穿撤销任务失败: "
                } else if undoing(self.step) {
                    "回滚任务失败: "
                } else {
                    "主题应用任务失败: "
                };
                self.error = Some(AppError::Internal(said(before, e.as_str())));
                self.step = TxStep::Finished;
            },
            TxEvent::Failed(e) => {
                self.fail(e);
            },
            other => {
                if self.step == TxStep::ReadPreimage {
                    match checked_preimage(other) {
                        Some(bytes) => {
                            self.preimage = Some(bytes);
                            self.go_on(false);
                        },
                        None => {
                            self.keep_evidence("; preimage 校验失败");
                        },
                    }
                    return;
                }
                let yes = matches!(other, TxEvent::Yes);
                let observed = self.step == TxStep::ObserveRunning;
                self.go_on(yes);
                if observed && yes {
                    self.was_running = true;
                }
            },
        }
    }
}

// ---------------------------------------------------------------------------
// What the flow does to the world
// ---------------------------------------------------------------------------

/// The state of the transaction's evidence.
pub enum Evidence {
    Absent,
    /// The journal and the preimage are there.
    Open,
    Committed,
    RolledBack,
    /// The journal and the preimage are there, marked for recovery.
    Recovery,
}

/// The part of the world that the flow acts on.
pub struct ThemeWorld {
    /// What `config.toml` held when the flow began.
    pub before: Seq<u8>,
    /// The text that is planned for it.
    pub planned: Seq<u8>,
    /// What it holds.
    pub config: Seq<u8>,
    pub evidence: Evidence,
    pub baseline_dropped: bool,
    pub stash_removed: bool,
    /// Codex was launched again without a debug port, or it was tried.
    pub relaunched: bool,
}

/// The world before the flow.
pub open spec fn calm(before: Seq<u8>, planned: Seq<u8>) -> ThemeWorld {
    ThemeWorld {
        before,
        planned,
        config: before,
        evidence: Evidence::Absent,
        baseline_dropped: false,
        stash_removed: false,
        relaunched: false,
    }
}

/// The world before the flow that led to this one.
pub open spec fn calm_of(world: ThemeWorld) -> ThemeWorld {
    calm(world.before, world.planned)
}

/// Whether `config.toml` is what it was, as far as its digest tells.
pub open spec fn as_before(world: ThemeWorld) -> bool {
    hex(sha256(world.config)) == hex(sha256(world.before))
}

/// Whether an event says that the step was carried out.
pub open spec fn carried_out(event: TxEvent) -> bool {
    !(event is Failed) && !(event is Lost)
}

/// What a step can do to the world. A write that fails may have landed, wholly or in
/// part. What is written back is the preimage that the flow holds. The digest on record is
/// that of what `config.toml` held before. A step that marks or removes something does so
/// if it is carried out.
pub open spec fn tx_effect(
    flow: TxView,
    event: TxEvent,
    was: ThemeWorld,
    now: ThemeWorld,
) -> bool {
    let done = carried_out(event);
    match flow.step {
        TxStep::BeginTx => now == (if done {
            ThemeWorld { evidence: Evidence::Open, ..was }
        } else {
            was
        }),
        TxStep::WriteConfig => if done {
            now == (ThemeWorld { config: was.planned, ..was })
        } else {
            now == (ThemeWorld { config: now.config, ..was })
        },
        TxStep::ReadPreimage => now == was && (event matches TxEvent::Preimage {
            expected,
            ..
        } ==> expected@ == hex(sha256(was.before))),
        TxStep::RestorePreimage => if done {
            now == (ThemeWorld { config: flow.preimage->0, ..was })
        } else {
            now == (ThemeWorld { config: now.config, ..was })
        },
        TxStep::MarkRolledBack => now == (if done {
            ThemeWorld { evidence: Evidence::RolledBack, ..was }
        } else {
            was
        }),
        TxStep::MarkRecovery => now == (if done {
            ThemeWorld { evidence: Evidence::Recovery, ..was }
        } else {
            was
        }),
        TxStep::CommitTx => now == (if done {
            ThemeWorld { evidence: Evidence::Committed, ..was }
        } else {
            was
        }),
        TxStep::DropBaseline => now == (if done {
            ThemeWorld { baseline_dropped: true, ..was }
        } else {
            was
        }),
        TxStep::RemoveStash => now == (if done {
            ThemeWorld { stash_removed: true, ..was }
        } else {
            was
        }),
        TxStep::ForgetStash => now == (if done {
            ThemeWorld { stash_removed: true, ..was }
        } else {
            was
        }),
        TxStep::RelaunchAnyway => now == (ThemeWorld { relaunched: true, ..was }),
        TxStep::RelaunchPlain => now == (ThemeWorld { relaunched: true, ..was }),
        TxStep::RelaunchUnrestored => now == (ThemeWorld { relaunched: true, ..was }),
        _ => now == was,
    }
}

/// The evidence of an unfinished transaction is there.
pub open spec fn evidence_there(world: ThemeWorld) -> bool {
    world.evidence is Open || world.evidence is Recovery
}

/// Before the transaction begins nothing has been touched.
pub open spec fn nothing_done(flow: TxView, world: ThemeWorld) -> bool {
    world == calm_of(world) && flow.error is None
}

/// The transaction is open and the configuration is still what it was.
pub open spec fn open_before(flow: TxView, world: ThemeWorld) -> bool {
    world == (ThemeWorld { evidence: Evidence::Open, ..calm_of(world) }) && flow.error is None
}

/// The transaction is open and the planned text is in place.
pub open spec fn open_planned(flow: TxView, world: ThemeWorld) -> bool {
    world == (ThemeWorld { evidence: Evidence::Open, config: world.planned, ..calm_of(world) })
        && flow.error is None
}

/// The transaction is being undone.
pub open spec fn being_undone(flow: TxView, world: ThemeWorld) -> bool {
    world.evidence is Open && !world.baseline_dropped && !world.stash_removed
        && !world.relaunched && flow.error is Some
}

/// What holds of the world at each step.
pub open spec fn tx_holds(flow: TxView, world: ThemeWorld) -> bool {
    &&& flow.purpose == Purpose::Snapshot ==> !flow.was_running
    &&& match flow.step {
        TxStep::CheckPending => nothing_done(flow, world) && flow.purpose == Purpose::Off,
        TxStep::TurnOffLive => nothing_done(flow, world) && flow.purpose == Purpose::Off,
        TxStep::LocateInstall => nothing_done(flow, world) && flow.purpose != Purpose::Snapshot,
        TxStep::ObserveRunning => nothing_done(flow, world) && flow.purpose != Purpose::Snapshot,
        TxStep::QuitCodex => nothing_done(flow, world) && flow.purpose != Purpose::Snapshot,
        TxStep::Settle => nothing_done(flow, world) && flow.purpose != Purpose::Snapshot,
        TxStep::LocatePaths => nothing_done(flow, world),
        TxStep::CheckBaseline => nothing_done(flow, world) && flow.purpose == Purpose::Off,
        TxStep::RelaunchUnrestored => nothing_done(flow, world) && flow.purpose == Purpose::Off
            && flow.was_running,
        TxStep::ForgetStash => world == (ThemeWorld {
            relaunched: flow.was_running,
            ..calm_of(world)
        }) && flow.error is None && flow.purpose == Purpose::Off,
        TxStep::BeginTx => nothing_done(flow, world),
        TxStep::MarkStopped => open_before(flow, world) && flow.purpose != Purpose::Snapshot,
        TxStep::CaptureBaseline => open_before(flow, world) && flow.purpose == Purpose::Apply,
        TxStep::ReadConfig => open_before(flow, world),
        TxStep::PlanConfig => open_before(flow, world),
        TxStep::StageTx => open_before(flow, world),
        TxStep::WriteConfig => open_before(flow, world),
        TxStep::ReadBack => open_planned(flow, world),
        TxStep::VerifyCommit => open_planned(flow, world),
        TxStep::MarkCommitted => open_planned(flow, world),
        TxStep::LaunchDebuggable => open_planned(flow, world) && flow.purpose == Purpose::Apply,
        TxStep::MarkLaunched => open_planned(flow, world) && flow.purpose == Purpose::Apply,
        TxStep::AwaitPort => open_planned(flow, world) && flow.purpose == Purpose::Apply,
        TxStep::SendDirective => open_planned(flow, world) && flow.purpose == Purpose::Apply,
        TxStep::ConfirmTheme => open_planned(flow, world) && flow.purpose == Purpose::Apply,
        TxStep::MarkVerified => open_planned(flow, world) && flow.purpose == Purpose::Apply,
        TxStep::DropBaseline => open_planned(flow, world) && flow.purpose == Purpose::Off,
        TxStep::CommitTx => world == (ThemeWorld {
            evidence: Evidence::Open,
            config: world.planned,
            baseline_dropped: flow.purpose == Purpose::Off,
            ..calm_of(world)
        }) && flow.error is None,
        TxStep::RemoveStash => world == (ThemeWorld {
            evidence: Evidence::Committed,
            config: world.planned,
            baseline_dropped: flow.purpose == Purpose::Off,
            ..calm_of(world)
        }) && flow.error is None && flow.purpose != Purpose::Snapshot,
        TxStep::RelaunchPlain => world.evidence is Committed && world.config == world.planned
            && world.baseline_dropped && flow.error is None && flow.purpose == Purpose::Off
            && flow.was_running,
        TxStep::FindPathsAgain => being_undone(flow, world) && flow.purpose == Purpose::Apply,
        TxStep::FindInstallAgain => being_undone(flow, world) && flow.purpose == Purpose::Apply,
        TxStep::QuitAgain => being_undone(flow, world) && flow.purpose == Purpose::Apply,
        TxStep::SettleAgain => being_undone(flow, world) && flow.purpose == Purpose::Apply,
        TxStep::NoteCause => being_undone(flow, world),
        TxStep::MarkRollingBack => being_undone(flow, world),
        TxStep::ReadPreimage => being_undone(flow, world),
        TxStep::RestorePreimage => being_undone(flow, world) && flow.preimage is Some && hex(
            sha256(flow.preimage->0),
        ) == hex(sha256(world.before)),
        TxStep::MarkRolledBack => being_undone(flow, world) && as_before(world) && flow.preimage
            == Some(world.config),
        TxStep::MarkRecovery => being_undone(flow, world) && flow.note is Some,
        TxStep::RelaunchAnyway => !world.baseline_dropped && !world.stash_removed && flow.error
            is Some && flow.was_running && (as_before(world) || evidence_there(world)),
        TxStep::Finished => if flow.error is None {
            succeeded(flow, world)
        } else {
            refused(flow, world)
        },
    }
}

/// What success means: the planned text is in place and the transaction committed.
/// Restoring has dropped the baseline and launched Codex again if it was running,
/// unless there was nothing to restore.
pub open spec fn succeeded(flow: TxView, world: ThemeWorld) -> bool {
    match flow.purpose {
        Purpose::Off => {
            &&& flow.was_running ==> world.relaunched
            &&& {
                ||| world.config == world.planned && world.evidence is Committed
                    && world.baseline_dropped
                ||| world.config == world.before && world.evidence is Absent
                    && !world.baseline_dropped
            }
        },
        _ => world.config == world.planned && world.evidence is Committed && !world.baseline_dropped
            && !world.relaunched,
    }
}

/// What failure means: the configuration is what it was, as far as its digest tells, or
/// the evidence for recovering it is there, or (when restoring) the restored text was committed and
/// only the launch failed. When undoing was possible, Codex was launched again if it
/// had been running.
pub open spec fn refused(flow: TxView, world: ThemeWorld) -> bool {
    &&& {
        ||| as_before(world)
        ||| evidence_there(world)
        ||| flow.purpose == Purpose::Off && world.config == world.planned && world.evidence is Committed
    }
    &&& world.stash_removed ==> flow.purpose == Purpose::Off && world.evidence is Committed
    &&& world.baseline_dropped ==> flow.purpose == Purpose::Off && world.config == world.planned
    &&& flow.purpose != Purpose::Off && !(world.evidence is Absent) && flow.was_running
        && !flow.paths_lost ==> world.relaunched
}

/// A flow that begins finds a world that fits it.
pub proof fn law_tx_begins_well(flow: TxView, before: Seq<u8>, planned: Seq<u8>)
    requires
        flow.step == first_step(flow.purpose),
        flow.error is None,
        !flow.was_running,
    ensures
        tx_holds(flow, calm(before, planned)),
{
}

/// Whatever happens short of losing the worker, each step leaves the world as the
/// next step expects it. So a flow that ends without an error has succeeded, and one
/// that ends with an error has left the configuration as it was or kept the evidence
/// for recovering it.
#[verifier::rlimit(50)]
pub proof fn law_tx_keeps_its_promise(
    flow: TxView,
    event: TxEvent,
    was: ThemeWorld,
    now: ThemeWorld,
)
    requires
        tx_holds(flow, was),
        tx_effect(flow, event, was, now),
        !(event is Lost),
        flow.step != TxStep::Finished,
    ensures
        tx_holds(flow.next(event), now),
{
}

/// What a rollback writes is the very preimage whose digest was checked, and its digest is
/// that of what the configuration held before.
pub proof fn law_rollback_writes_what_was_checked(
    flow: TxView,
    read: TxEvent,
    written: TxEvent,
    was: ThemeWorld,
    now: ThemeWorld,
)
    requires
        flow.step == TxStep::ReadPreimage,
        tx_effect(flow, read, was, was),
        flow.next(read).step == TxStep::RestorePreimage,
        tx_effect(flow.next(read), written, was, now),
        carried_out(written),
    ensures
        read matches TxEvent::Preimage { bytes, expected } && now.config == bytes@ && hex(
            sha256(bytes@),
        ) == expected@,
        as_before(now),
        flow.next(read).next(written).step == TxStep::MarkRolledBack,
{
}

/// When a theme is applied, every failure once the transaction is open either puts
/// the configuration back or keeps the evidence for doing so, and launches Codex
/// again if it had been running and the paths could be found.
pub proof fn law_failed_apply_is_undone(flow: TxView, world: ThemeWorld)
    requires
        tx_holds(flow, world),
        flow.purpose == Purpose::Apply,
        flow.step == TxStep::Finished,
        flow.error is Some,
    ensures
        as_before(world) || evidence_there(world),
        !world.stash_removed,
        !world.baseline_dropped,
        !(world.evidence is Absent) && flow.was_running && !flow.paths_lost ==> world.relaunched,
{
}

/// The baseline is dropped only after the restored text was read back and verified,
/// and the stash is removed only once the transaction is committed or nothing was to
/// restore.
pub proof fn law_baseline_outlives_the_restore(flow: TxView, world: ThemeWorld)
    requires
        tx_holds(flow, world),
    ensures
        world.baseline_dropped ==> flow.purpose == Purpose::Off && world.config == world.planned,
        world.stash_removed ==> world.evidence is Committed || (world.evidence is Absent
            && world.config == world.before),
{
}

/// One step of a run: how it went, and the world after it.
pub struct TxTurn {
    pub event: TxEvent,
    pub world: ThemeWorld,
}

/// The flow after a row of steps.
pub open spec fn tx_end(flow: TxView, turns: Seq<TxTurn>) -> TxView
    decreases turns.len(),
{
    if turns.len() == 0 {
        flow
    } else {
        tx_end(flow, turns.drop_last()).next(turns.last().event)
    }
}

/// The world after a row of steps.
pub open spec fn tx_world(start: ThemeWorld, turns: Seq<TxTurn>) -> ThemeWorld {
    if turns.len() == 0 {
        start
    } else {
        turns.last().world
    }
}

/// Whether a row of steps can happen: each does to the world what it can do, none comes
/// after the end, and no worker is lost.
pub open spec fn tx_possible(flow: TxView, start: ThemeWorld, turns: Seq<TxTurn>) -> bool
    decreases turns.len(),
{
    turns.len() == 0 || {
        let before = turns.drop_last();
        let turn = turns.last();
        &&& tx_possible(flow, start, before)
        &&& tx_end(flow, before).step != TxStep::Finished
        &&& tx_effect(tx_end(flow, before), turn.event, tx_world(start, before), turn.world)
        &&& !(turn.event is Lost)
    }
}

/// How many steps can still come at most.
pub open spec fn tx_rank(step: TxStep) -> nat {
    match step {
        TxStep::CheckPending => 40,
        TxStep::TurnOffLive => 39,
        TxStep::LocateInstall => 38,
        TxStep::ObserveRunning => 37,
        TxStep::QuitCodex => 36,
        TxStep::Settle => 35,
        TxStep::LocatePaths => 34,
        TxStep::CheckBaseline => 33,
        TxStep::BeginTx => 32,
        TxStep::MarkStopped => 31,
        TxStep::CaptureBaseline => 30,
        TxStep::ReadConfig => 29,
        TxStep::PlanConfig => 28,
        TxStep::StageTx => 27,
        TxStep::WriteConfig => 26,
        TxStep::ReadBack => 25,
        TxStep::VerifyCommit => 24,
        TxStep::MarkCommitted => 23,
        TxStep::LaunchDebuggable => 22,
        TxStep::MarkLaunched => 21,
        TxStep::AwaitPort => 20,
        TxStep::SendDirective => 19,
        TxStep::ConfirmTheme => 18,
        TxStep::MarkVerified => 17,
        TxStep::DropBaseline => 17,
        TxStep::CommitTx => 16,
        TxStep::FindPathsAgain => 12,
        TxStep::FindInstallAgain => 11,
        TxStep::QuitAgain => 10,
        TxStep::SettleAgain => 9,
        TxStep::NoteCause => 8,
        TxStep::MarkRollingBack => 7,
        TxStep::ReadPreimage => 6,
        TxStep::RestorePreimage => 5,
        TxStep::MarkRolledBack => 3,
        TxStep::MarkRecovery => 3,
        TxStep::RelaunchUnrestored => 2,
        TxStep::RemoveStash => 2,
        TxStep::ForgetStash => 1,
        TxStep::RelaunchPlain => 1,
        TxStep::RelaunchAnyway => 1,
        TxStep::Finished => 0,
    }
}

proof fn lemma_tx_rank(flow: TxView, event: TxEvent)
    requires
        flow.step != TxStep::Finished,
    ensures
        tx_rank(flow.next(event).step) < tx_rank(flow.step),
        flow.next(event).purpose == flow.purpose,
{
}

/// Over a whole run, from a flow that has not begun: the world is at every moment what
/// the current step expects, and the run comes to an end. So once it has ended, it has
/// succeeded, or the configuration is what it was, or the evidence is there.
pub proof fn law_every_tx_run_keeps_its_promise(
    flow: TxView,
    start: ThemeWorld,
    turns: Seq<TxTurn>,
)
    requires
        start == calm_of(start),
        flow.step == first_step(flow.purpose),
        flow.error is None,
        !flow.was_running,
        tx_possible(flow, start, turns),
    ensures
        tx_holds(tx_end(flow, turns), tx_world(start, turns)),
        tx_world(start, turns).before == start.before,
        tx_world(start, turns).planned == start.planned,
        tx_end(flow, turns).purpose == flow.purpose,
        turns.len() + tx_rank(tx_end(flow, turns).step) <= tx_rank(first_step(flow.purpose)),
    decreases turns.len(),
{
    if turns.len() == 0 {
        law_tx_begins_well(flow, start.before, start.planned);
    } else {
        let before = turns.drop_last();
        law_every_tx_run_keeps_its_promise(flow, start, before);
        law_tx_keeps_its_promise(
            tx_end(flow, before),
            turns.last().event,
            tx_world(start, before),
            turns.last().world,
        );
        lemma_tx_rank(tx_end(flow, before), turns.last().event);
    }
}


// ---------------------------------------------------------------------------
// Unresolved transactions
// ---------------------------------------------------------------------------

/// A transaction that was never finished.
#[derive(Debug)]
pub struct PendingTx {
    pub tx_id: String,
    pub phase: String,
    pub dir: String,
}

/// The words for a transaction that was never finished.
pub open spec fn pending_words(tx_id: Seq<char>, phase: Seq<char>, dir: Seq<char>) -> Seq<char> {
    "存在未完结的原生主题事务（txId="@ + tx_id + "，phase="@ + phase
        + "）——重启 Manager 可触发自动恢复，或手动检查 "@ + dir
}

/// Refuses a new transaction while another one is unresolved, or where that cannot be
/// told.
pub fn ensure_no_pending_tx(found: Result<Option<PendingTx>, String>) -> (r: Result<(), AppError>)
    ensures
        match (found, r) {
            (Ok(None), Ok(())) => true,
            (Ok(Some(p)), Err(e)) => e@ == ErrorView::Engine(
                pending_words(p.tx_id@, p.phase@, p.dir@),
            ),
            (Err(reason), Err(e)) => e@ == ErrorView::Engine(reason@),
            _ => false,
        },
{
    match found {
        Ok(None) => Ok(()),
        Ok(Some(p)) => {
            let mut words = chars_of("存在未完结的原生主题事务（txId=");
            push_str(&mut words, p.tx_id.as_str());
            push_str(&mut words, "，phase=");
            push_str(&mut words, p.phase.as_str());
            push_str(&mut words, "）——重启 Manager 可触发自动恢复，或手动检查 ");
            push_str(&mut words, p.dir.as_str());
            Err(AppError::Engine(string_of(words.as_slice())))
        },
        Err(reason) => Err(AppError::Engine(reason)),
    }
}

} // verus!

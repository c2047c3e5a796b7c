//! Installing and updating the application: which step comes next, what a failure
//! leaves behind, and what is recorded. The flow is told how each step went.

use vstd::prelude::*;
use crate::errors::{said, stale, AppError, ErrorView};
use crate::file_swap::error_view;
use crate::operations::{error_is_stale, is_stale, require_confirmation};
use crate::policy::{must_restore, rollback_historical_policy_after_failure, PolicyTracker};
use crate::target::{
    asks_compatibility, cannot_run, parse_release_architecture, require_os, runs,
    validate_historical_architecture, OperatingSystem, ReleaseArchitecture, Target,
};

verus! {

/// The commands that install.
#[derive(Debug, Clone, Copy, PartialEq, Eq, Structural)]
pub enum InstallKind {
    /// Update the macOS application.
    MacPerform,
    /// Install the macOS application for the first time.
    MacInstall,
    /// Install a chosen release on macOS.
    MacHistorical,
    /// Update or install the Windows application.
    WinPerform,
    /// Install a chosen release on Windows.
    WinHistorical,
}

// ---------------------------------------------------------------------------
// What is checked before anything is touched
// ---------------------------------------------------------------------------

/// The system of a command.
pub open spec fn system_of(kind: InstallKind) -> OperatingSystem {
    match kind {
        InstallKind::WinPerform => OperatingSystem::Windows,
        InstallKind::WinHistorical => OperatingSystem::Windows,
        _ => OperatingSystem::Macos,
    }
}

/// The words for a command that was not confirmed.
pub open spec fn unconfirmed(kind: InstallKind) -> Seq<char> {
    match kind {
        InstallKind::MacPerform => "拒绝执行：破坏性更新必须带显式 confirm"@,
        InstallKind::MacInstall => ""@,
        InstallKind::MacHistorical => "拒绝执行：历史版本安装必须带显式 confirm"@,
        InstallKind::WinPerform => "拒绝执行：Windows 更新必须带显式 confirm"@,
        InstallKind::WinHistorical => "拒绝执行：Windows 历史版本安装必须带显式 confirm"@,
    }
}

/// Whether a command installs a chosen release.
pub open spec fn is_historical(kind: InstallKind) -> bool {
    kind == InstallKind::MacHistorical || kind == InstallKind::WinHistorical
}

/// Lets a command through on its system only, and with a confirmation where it
/// replaces what is there.
pub fn gate(kind: InstallKind, os: OperatingSystem, confirm: bool) -> (r: Result<(), AppError>)
    ensures
        match r {
            Ok(()) => os == system_of(kind) && (confirm || kind == InstallKind::MacInstall),
            Err(e) => if os != system_of(kind) {
                e@ == ErrorView::UnsupportedPlatform
            } else {
                !confirm && kind != InstallKind::MacInstall && e@ == ErrorView::Internal(
                    unconfirmed(kind),
                )
            },
        },
{
    match kind {
        InstallKind::MacPerform => require_confirmation(
            os,
            OperatingSystem::Macos,
            confirm,
            "拒绝执行：破坏性更新必须带显式 confirm",
        ),
        InstallKind::MacInstall => require_os(os, OperatingSystem::Macos),
        InstallKind::MacHistorical => require_confirmation(
            os,
            OperatingSystem::Macos,
            confirm,
            "拒绝执行：历史版本安装必须带显式 confirm",
        ),
        InstallKind::WinPerform => require_confirmation(
            os,
            OperatingSystem::Windows,
            confirm,
            "拒绝执行：Windows 更新必须带显式 confirm",
        ),
        InstallKind::WinHistorical => require_confirmation(
            os,
            OperatingSystem::Windows,
            confirm,
            "拒绝执行：Windows 历史版本安装必须带显式 confirm",
        ),
    }
}

/// What is known of the compatibility layers.
#[derive(Debug, Clone, Copy, PartialEq, Eq, Structural)]
pub struct Compatibility {
    pub macos_x64: bool,
    pub windows_x64: bool,
}

/// Whether an x64 package counts as runnable.
pub open spec fn x64_runs(
    target: Target,
    selected: ReleaseArchitecture,
    c: Compatibility,
) -> bool {
    if asks_compatibility(target.os, target.arch, selected) {
        if target.os == OperatingSystem::Macos {
            c.macos_x64
        } else {
            c.windows_x64
        }
    } else {
        true
    }
}

/// The processor of a chosen release, or why the release is refused. `path_known`
/// and `build_known` tell of the current macOS installation; one without the other
/// is no snapshot.
pub open spec fn historical_verdict(
    kind: InstallKind,
    target: Target,
    confirm: bool,
    path_known: bool,
    build_known: bool,
    raw: Seq<char>,
    known: Option<ReleaseArchitecture>,
    c: Compatibility,
) -> Result<ReleaseArchitecture, ErrorView> {
    if target.os != system_of(kind) {
        Err(ErrorView::UnsupportedPlatform)
    } else if !confirm {
        Err(ErrorView::Internal(unconfirmed(kind)))
    } else if kind == InstallKind::MacHistorical && path_known != build_known {
        Err(ErrorView::StaleExpectation("当前 macOS 安装快照不完整，请重新检查后再确认"@))
    } else {
        match known {
            None => Err(
                ErrorView::Internal("不支持的安装包架构："@ + raw + "（仅支持 arm64 / x64）"@),
            ),
            Some(arch) => if runs(target.arch, arch, x64_runs(target, arch, c)) {
                Ok(arch)
            } else {
                Err(ErrorView::Engine(cannot_run(target.os, target.arch, arch)))
            },
        }
    }
}

/// Lets a chosen release through.
pub fn historical_gate(
    kind: InstallKind,
    target: &Target,
    confirm: bool,
    path_known: bool,
    build_known: bool,
    raw: &str,
    known: Option<ReleaseArchitecture>,
    c: Compatibility,
) -> (r: Result<ReleaseArchitecture, AppError>)
    requires
        is_historical(kind),
    ensures
        match r {
            Ok(arch) => historical_verdict(
                kind,
                *target,
                confirm,
                path_known,
                build_known,
                raw@,
                known,
                c,
            ) == Ok::<ReleaseArchitecture, ErrorView>(arch),
            Err(e) => historical_verdict(
                kind,
                *target,
                confirm,
                path_known,
                build_known,
                raw@,
                known,
                c,
            ) == Err::<ReleaseArchitecture, ErrorView>(e@),
        },
{
    match gate(kind, target.os, confirm) {
        Ok(()) => {},
        Err(e) => {
            return Err(e);
        },
    }
    if kind == InstallKind::MacHistorical && path_known != build_known {
        return Err(stale("当前 macOS 安装快照不完整，请重新检查后再确认"));
    }
    let arch = match parse_release_architecture(raw, known) {
        Ok(arch) => arch,
        Err(e) => {
            return Err(e);
        },
    };
    match validate_historical_architecture(target, arch, c.macos_x64, c.windows_x64) {
        Ok(()) => Ok(arch),
        Err(e) => Err(e),
    }
}

// ---------------------------------------------------------------------------
// The steps
// ---------------------------------------------------------------------------

/// The steps of an installation.
#[derive(Debug, Clone, Copy, PartialEq, Eq, Structural)]
pub enum InstallStep {
    TakeLease,
    SetPreparing,
    /// Take hold of the cancellation latch.
    ArmAbort,
    LoadEndpoints,
    ValidateRoot,
    SetResume,
    LoadNetwork,
    RunWorker,
    /// The download was paused: confirm it.
    ConfirmPause,
    /// The point of no return was passed: the outcome is unknown.
    MarkAmbiguous,
    /// The retained pause can never be resumed.
    ClearPaused,
    /// Bring the old self-update policy back.
    RestorePolicy,
    /// Remember the chosen installation root.
    SaveRoot,
    ClearCache,
    RecordCompletion,
    EndLease,
    Finished,
}

/// How a step went.
#[derive(Debug)]
pub enum InstallEvent {
    Done,
    Failed(AppError),
    /// The worker is done. `success` is what its report says, `portable` whether it
    /// installed the portable form.
    Installed { success: bool, portable: bool },
    /// The worker failed. `cancelled` is how its error is classified, and
    /// `past_return` whether the point of no return was passed.
    Broken { error: AppError, cancelled: bool, past_return: bool },
    /// The worker is gone.
    Lost { reason: String, cancelled: bool, past_return: bool },
}

/// An installation under way.
#[derive(Debug)]
pub struct InstallFlow {
    pub kind: InstallKind,
    pub step: InstallStep,
    /// An installation root was chosen for this installation.
    pub has_root: bool,
    /// The package is already on the disk.
    pub local: bool,
    pub policy: PolicyTracker,
    /// The worker has run.
    pub worked: bool,
    pub cancelled: bool,
    pub past_return: bool,
    pub success: bool,
    pub portable: bool,
    pub error: Option<AppError>,
}

/// An installation with its error as characters.
pub struct InstallView {
    pub kind: InstallKind,
    pub step: InstallStep,
    pub has_root: bool,
    pub local: bool,
    pub policy: PolicyTracker,
    pub worked: bool,
    pub cancelled: bool,
    pub past_return: bool,
    pub success: bool,
    pub portable: bool,
    pub error: Option<ErrorView>,
}

impl View for InstallFlow {
    type V = InstallView;

    open spec fn view(&self) -> InstallView {
        InstallView {
            kind: self.kind,
            step: self.step,
            has_root: self.has_root,
            local: self.local,
            policy: self.policy,
            worked: self.worked,
            cancelled: self.cancelled,
            past_return: self.past_return,
            success: self.success,
            portable: self.portable,
            error: error_view(self.error),
        }
    }
}

/// The step after one that went well, up to the worker.
pub open spec fn prepared(kind: InstallKind, has_root: bool, step: InstallStep) -> InstallStep {
    match step {
        InstallStep::TakeLease => InstallStep::SetPreparing,
        InstallStep::SetPreparing => match kind {
            InstallKind::MacPerform => InstallStep::SetResume,
            InstallKind::MacInstall => InstallStep::SetResume,
            InstallKind::WinPerform => InstallStep::LoadEndpoints,
            _ => InstallStep::ArmAbort,
        },
        InstallStep::ArmAbort => if kind == InstallKind::WinHistorical && has_root {
            InstallStep::ValidateRoot
        } else {
            InstallStep::LoadNetwork
        },
        InstallStep::LoadEndpoints => if has_root {
            InstallStep::ValidateRoot
        } else {
            InstallStep::SetResume
        },
        InstallStep::ValidateRoot => if kind == InstallKind::WinPerform {
            InstallStep::SetResume
        } else {
            InstallStep::LoadNetwork
        },
        InstallStep::SetResume => InstallStep::LoadNetwork,
        InstallStep::LoadNetwork => InstallStep::RunWorker,
        _ => step,
    }
}

impl InstallView {
    pub open spec fn at(self, step: InstallStep) -> InstallView {
        InstallView { step, ..self }
    }

    /// Whether a failure before the worker is recorded. A first installation that
    /// could not even say how to resume it leaves no record.
    pub open spec fn records_early_failure(self) -> bool {
        !(self.kind == InstallKind::MacInstall && self.step != InstallStep::LoadNetwork)
    }

    /// After the old policy was brought back, or where that is not needed.
    pub open spec fn after_policy(self) -> InstallView {
        if self.kind == InstallKind::MacInstall {
            self.at(InstallStep::EndLease)
        } else {
            self.at(InstallStep::RecordCompletion)
        }
    }

    /// After the retained pause was cleared, or where that is not needed.
    pub open spec fn after_clearing(self) -> InstallView {
        if is_historical(self.kind) && must_restore(self.policy) {
            self.at(InstallStep::RestorePolicy)
        } else {
            self.after_policy()
        }
    }

    /// Whether the retained pause is cleared.
    pub open spec fn clears_pause(self) -> bool {
        self.worked && self.error is Some && is_stale(self.error->0)
    }

    pub open spec fn before_clearing(self) -> InstallView {
        if self.clears_pause() {
            self.at(InstallStep::ClearPaused)
        } else {
            self.after_clearing()
        }
    }

    /// After an unknown outcome was marked, or where that is not needed.
    pub open spec fn after_marking(self) -> InstallView {
        if self.kind == InstallKind::MacInstall {
            self.at(InstallStep::RecordCompletion)
        } else {
            self.before_clearing()
        }
    }

    /// After a pause was confirmed, or where that is not needed.
    pub open spec fn after_pause(self) -> InstallView {
        if self.past_return && (self.kind == InstallKind::MacPerform || self.kind
            == InstallKind::MacInstall) {
            self.at(InstallStep::MarkAmbiguous)
        } else {
            self.after_marking()
        }
    }

    /// After the worker failed.
    pub open spec fn after_failure(self) -> InstallView {
        if self.cancelled {
            self.at(InstallStep::ConfirmPause)
        } else {
            self.after_pause()
        }
    }

    /// Whether the chosen root is remembered: only after an installation that used it.
    pub open spec fn saves_root(self) -> bool {
        self.has_root && self.success && match self.kind {
            InstallKind::WinPerform => true,
            InstallKind::WinHistorical => self.portable,
            _ => false,
        }
    }

    /// Whether the download cache is dropped: only after an installation that consumed
    /// a download.
    pub open spec fn clears_cache(self) -> bool {
        self.success && match self.kind {
            InstallKind::WinPerform => true,
            InstallKind::WinHistorical => !self.local,
            _ => false,
        }
    }

    pub open spec fn after_root(self) -> InstallView {
        if self.clears_cache() {
            self.at(InstallStep::ClearCache)
        } else {
            self.at(InstallStep::RecordCompletion)
        }
    }

    /// After the worker is done.
    pub open spec fn after_success(self) -> InstallView {
        if self.saves_root() {
            self.at(InstallStep::SaveRoot)
        } else {
            self.after_root()
        }
    }

    /// A step failed.
    pub open spec fn failed(self, e: ErrorView) -> InstallView {
        match self.step {
            InstallStep::TakeLease => InstallView { error: Some(e), ..self.at(
                InstallStep::Finished,
            ) },
            InstallStep::LoadEndpoints => InstallView { error: Some(e), ..self.at(
                InstallStep::RecordCompletion,
            ) },
            InstallStep::ValidateRoot => InstallView { error: Some(e), ..self.at(
                InstallStep::RecordCompletion,
            ) },
            InstallStep::SetResume => InstallView { error: Some(e), ..self.at(
                if self.records_early_failure() {
                    InstallStep::RecordCompletion
                } else {
                    InstallStep::EndLease
                },
            ) },
            InstallStep::LoadNetwork => InstallView { error: Some(e), ..self.at(
                InstallStep::RecordCompletion,
            ) },
            InstallStep::SaveRoot => InstallView { error: Some(e), ..self.at(
                InstallStep::RecordCompletion,
            ) },
            InstallStep::RestorePolicy => InstallView {
                error: match self.error {
                    Some(primary) => Some(
                        ErrorView::Internal(
                            primary.words() + "；同时恢复安装前的 Codex 自更新策略失败："@
                                + e.words(),
                        ),
                    ),
                    None => Some(e),
                },
                ..self.after_policy()
            },
            _ => self.onward(),
        }
    }

    /// The flow after a step that went well, or whose failure does not matter.
    pub open spec fn onward(self) -> InstallView {
        match self.step {
            InstallStep::RunWorker => self.after_success(),
            InstallStep::ConfirmPause => self.after_pause(),
            InstallStep::MarkAmbiguous => self.after_marking(),
            InstallStep::ClearPaused => self.after_clearing(),
            InstallStep::RestorePolicy => self.after_policy(),
            InstallStep::SaveRoot => self.after_root(),
            InstallStep::ClearCache => self.at(InstallStep::RecordCompletion),
            InstallStep::RecordCompletion => if self.kind == InstallKind::MacInstall
                && self.clears_pause() {
                self.at(InstallStep::ClearPaused)
            } else {
                self.at(InstallStep::EndLease)
            },
            InstallStep::EndLease => self.at(InstallStep::Finished),
            InstallStep::Finished => self,
            _ => self.at(prepared(self.kind, self.has_root, self.step)),
        }
    }

    /// The flow after the worker failed with an error.
    pub open spec fn broken(self, e: ErrorView, cancelled: bool, past_return: bool) -> InstallView {
        InstallView { worked: true, error: Some(e), cancelled, past_return, ..self }.after_failure()
    }

    /// The flow after the worker was lost. Whether a chosen release was installed is
    /// then unknown, so the self-update policy stays as it is. An update of the Windows
    /// application ends at once.
    pub open spec fn lost(
        self,
        reason: Seq<char>,
        cancelled: bool,
        past_return: bool,
    ) -> InstallView {
        let e = ErrorView::Internal("join: "@ + reason);
        if self.kind == InstallKind::WinPerform {
            InstallView { error: Some(e), ..self.at(InstallStep::RecordCompletion) }
        } else if is_historical(self.kind) {
            InstallView { policy: PolicyTracker { state: 3, ..self.policy }, ..self }.broken(
                e,
                cancelled,
                past_return,
            )
        } else {
            self.broken(e, cancelled, past_return)
        }
    }

    /// The flow after a step went one way or another.
    pub open spec fn next(self, event: InstallEvent) -> InstallView {
        if self.step == InstallStep::RunWorker {
            match event {
                InstallEvent::Installed { success, portable } => InstallView {
                    worked: true,
                    success,
                    portable,
                    ..self
                }.after_success(),
                InstallEvent::Broken { error, cancelled, past_return } => self.broken(
                    error@,
                    cancelled,
                    past_return,
                ),
                InstallEvent::Lost { reason, cancelled, past_return } => self.lost(
                    reason@,
                    cancelled,
                    past_return,
                ),
                InstallEvent::Failed(e) => self.broken(e@, false, false),
                InstallEvent::Done => InstallView { worked: true, ..self }.after_success(),
            }
        } else {
            match event {
                InstallEvent::Failed(e) => self.failed(e@),
                _ => self.onward(),
            }
        }
    }
}

impl InstallFlow {
    /// An installation that has passed its gate.
    pub fn start(kind: InstallKind, has_root: bool, local: bool, policy: PolicyTracker) -> (r:
        InstallFlow)
        ensures
            r@ == (InstallView {
                kind,
                step: InstallStep::TakeLease,
                has_root,
                local,
                policy,
                worked: false,
                cancelled: false,
                past_return: false,
                success: false,
                portable: false,
                error: None,
            }),
            install_fresh(r@),
    {
        InstallFlow {
            kind,
            step: InstallStep::TakeLease,
            has_root,
            local,
            policy,
            worked: false,
            cancelled: false,
            past_return: false,
            success: false,
            portable: false,
            error: None,
        }
    }

    /// What is recorded as the completion: whether there was no error.
    pub fn completion(&self) -> (r: bool)
        ensures
            r == (self@.error is None),
    {
        self.error.is_none()
    }

    fn historical(&self) -> (r: bool)
        ensures
            r == is_historical(self.kind),
    {
        self.kind == InstallKind::MacHistorical || self.kind == InstallKind::WinHistorical
    }

    fn pause_is_stale(&self) -> (r: bool)
        ensures
            r == self@.clears_pause(),
    {
        match &self.error {
            Some(e) => self.worked && error_is_stale(e),
            None => false,
        }
    }

    fn go_after_policy(&mut self)
        ensures
            final(self)@ == old(self)@.after_policy(),
    {
        self.step = if self.kind == InstallKind::MacInstall {
            InstallStep::EndLease
        } else {
            InstallStep::RecordCompletion
        };
    }

    fn go_after_clearing(&mut self)
        ensures
            final(self)@ == old(self)@.after_clearing(),
    {
        if self.historical() && self.policy.must_restore() {
            self.step = InstallStep::RestorePolicy;
        } else {
            self.go_after_policy();
        }
    }

    fn go_after_marking(&mut self)
        ensures
            final(self)@ == old(self)@.after_marking(),
    {
        if self.kind == InstallKind::MacInstall {
            self.step = InstallStep::RecordCompletion;
        } else if self.pause_is_stale() {
            self.step = InstallStep::ClearPaused;
        } else {
            self.go_after_clearing();
        }
    }

    fn go_after_pause(&mut self)
        ensures
            final(self)@ == old(self)@.after_pause(),
    {
        if self.past_return && (self.kind == InstallKind::MacPerform || self.kind
            == InstallKind::MacInstall) {
            self.step = InstallStep::MarkAmbiguous;
        } else {
            self.go_after_marking();
        }
    }

    fn go_after_root(&mut self)
        ensures
            final(self)@ == old(self)@.after_root(),
    {
        let clears = self.success && match self.kind {
            InstallKind::WinPerform => true,
            InstallKind::WinHistorical => !self.local,
            _ => false,
        };
        self.step = if clears {
            InstallStep::ClearCache
        } else {
            InstallStep::RecordCompletion
        };
    }

    fn go_after_success(&mut self)
        ensures
            final(self)@ == old(self)@.after_success(),
    {
        let saves = self.has_root && self.success && match self.kind {
            InstallKind::WinPerform => true,
            InstallKind::WinHistorical => self.portable,
            _ => false,
        };
        if saves {
            self.step = InstallStep::SaveRoot;
        } else {
            self.go_after_root();
        }
    }

    fn go_broken(&mut self, e: AppError, cancelled: bool, past_return: bool)
        ensures
            final(self)@ == old(self)@.broken(e@, cancelled, past_return),
    {
        self.worked = true;
        self.error = Some(e);
        self.cancelled = cancelled;
        self.past_return = past_return;
        if cancelled {
            self.step = InstallStep::ConfirmPause;
        } else {
            self.go_after_pause();
        }
    }

    fn go_on(&mut self)
        ensures
            final(self)@ == old(self)@.onward(),
    {
        match self.step {
            InstallStep::RunWorker => {
                self.go_after_success();
            },
            InstallStep::ConfirmPause => {
                self.go_after_pause();
            },
            InstallStep::MarkAmbiguous => {
                self.go_after_marking();
            },
            InstallStep::ClearPaused => {
                self.go_after_clearing();
            },
            InstallStep::RestorePolicy => {
                self.go_after_policy();
            },
            InstallStep::SaveRoot => {
                self.go_after_root();
            },
            InstallStep::ClearCache => {
                self.step = InstallStep::RecordCompletion;
            },
            InstallStep::RecordCompletion => {
                self.step = if self.kind == InstallKind::MacInstall && self.pause_is_stale() {
                    InstallStep::ClearPaused
                } else {
                    InstallStep::EndLease
                };
            },
            InstallStep::EndLease => {
                self.step = InstallStep::Finished;
            },
            InstallStep::Finished => {},
            InstallStep::TakeLease => {
                self.step = InstallStep::SetPreparing;
            },
            InstallStep::SetPreparing => {
                self.step = match self.kind {
                    InstallKind::MacPerform | InstallKind::MacInstall => InstallStep::SetResume,
                    InstallKind::WinPerform => InstallStep::LoadEndpoints,
                    InstallKind::MacHistorical | InstallKind::WinHistorical => {
                        InstallStep::ArmAbort
                    },
                };
            },
            InstallStep::ArmAbort => {
                self.step = if self.kind == InstallKind::WinHistorical && self.has_root {
                    InstallStep::ValidateRoot
                } else {
                    InstallStep::LoadNetwork
                };
            },
            InstallStep::LoadEndpoints => {
                self.step = if self.has_root {
                    InstallStep::ValidateRoot
                } else {
                    InstallStep::SetResume
                };
            },
            InstallStep::ValidateRoot => {
                self.step = if self.kind == InstallKind::WinPerform {
                    InstallStep::SetResume
                } else {
                    InstallStep::LoadNetwork
                };
            },
            InstallStep::SetResume => {
                self.step = InstallStep::LoadNetwork;
            },
            InstallStep::LoadNetwork => {
                self.step = InstallStep::RunWorker;
            },
        }
    }

    fn fail(&mut self, e: AppError)
        ensures
            final(self)@ == old(self)@.failed(e@),
    {
        match self.step {
            InstallStep::TakeLease => {
                self.error = Some(e);
                self.step = InstallStep::Finished;
            },
            InstallStep::LoadEndpoints | InstallStep::ValidateRoot | InstallStep::LoadNetwork
            | InstallStep::SaveRoot => {
                self.error = Some(e);
                self.step = InstallStep::RecordCompletion;
            },
            InstallStep::SetResume => {
                self.error = Some(e);
                self.step = if self.kind == InstallKind::MacInstall {
                    InstallStep::EndLease
                } else {
                    InstallStep::RecordCompletion
                };
            },
            InstallStep::RestorePolicy => {
                let first = self.error.take();
                match first {
                    Some(primary) => {
                        let outcome = Err(e);
                        self.error = Some(
                            rollback_historical_policy_after_failure(primary, &outcome),
                        );
                    },
                    None => {
                        self.error = Some(e);
                    },
                }
                self.go_after_policy();
            },
            _ => {
                self.go_on();
            },
        }
    }

    /// Takes in how the current step went.
    pub fn advance(&mut self, event: InstallEvent)
        ensures
            final(self)@ == old(self)@.next(event),
    {
        if self.step == InstallStep::RunWorker {
            match event {
                InstallEvent::Installed { success, portable } => {
                    self.worked = true;
                    self.success = success;
                    self.portable = portable;
                    self.go_after_success();
                },
                InstallEvent::Broken { error, cancelled, past_return } => {
                    self.go_broken(error, cancelled, past_return);
                },
                InstallEvent::Lost { reason, cancelled, past_return } => {
                    let e = AppError::Internal(said("join: ", reason.as_str()));
                    if self.kind == InstallKind::WinPerform {
                        self.error = Some(e);
                        self.step = InstallStep::RecordCompletion;
                    } else {
                        if self.historical() {
                            self.policy.worker_lost();
                        }
                        self.go_broken(e, cancelled, past_return);
                    }
                },
                InstallEvent::Failed(e) => {
                    self.go_broken(e, false, false);
                },
                InstallEvent::Done => {
                    self.worked = true;
                    self.go_after_success();
                },
            }
        } else {
            match event {
                InstallEvent::Failed(e) => {
                    self.fail(e);
                },
                _ => {
                    self.go_on();
                },
            }
        }
    }
}

// ---------------------------------------------------------------------------
// What the flow does to the world
// ---------------------------------------------------------------------------

/// The lease of the operation.
pub enum Lease {
    Free,
    Held,
    Ended,
}

/// What was made ready for the worker. Each is set only by its step, and only if that went
/// well.
pub struct Preparation {
    /// The operation shows that it is preparing.
    pub shown: bool,
    pub abort_armed: bool,
    pub endpoints_loaded: bool,
    /// The chosen installation root was found to be usable.
    pub root_validated: bool,
    /// It is noted how to resume the installation.
    pub resume_set: bool,
    pub network_loaded: bool,
}

/// How the worker ended.
pub enum WorkerEnd {
    Installed { success: bool, portable: bool },
    Broken { error: ErrorView, cancelled: bool, past_return: bool },
    Lost { error: ErrorView, cancelled: bool, past_return: bool },
}

/// The part of the world that the flow acts on.
pub struct InstallWorld {
    pub lease: Lease,
    pub ready: Preparation,
    /// How the worker ended, once it has.
    pub outcome: Option<WorkerEnd>,
    /// What was recorded as the completion.
    pub recorded: Option<bool>,
    /// How often a completion was recorded.
    pub records: nat,
    pub worker_ran: bool,
    pub root_saved: bool,
    pub cache_cleared: bool,
    pub pause_confirmed: bool,
    pub pause_cleared: bool,
    pub marked_ambiguous: bool,
    pub policy_brought_back: bool,
}

/// The world before the flow.
pub open spec fn untouched_world() -> InstallWorld {
    InstallWorld {
        lease: Lease::Free,
        ready: Preparation {
            shown: false,
            abort_armed: false,
            endpoints_loaded: false,
            root_validated: false,
            resume_set: false,
            network_loaded: false,
        },
        outcome: None,
        recorded: None,
        records: 0,
        worker_ran: false,
        root_saved: false,
        cache_cleared: false,
        pause_confirmed: false,
        pause_cleared: false,
        marked_ambiguous: false,
        policy_brought_back: false,
    }
}

/// How the worker ended, as it is told.
pub open spec fn worker_end(event: InstallEvent) -> WorkerEnd {
    match event {
        InstallEvent::Installed { success, portable } => WorkerEnd::Installed { success, portable },
        InstallEvent::Broken { error, cancelled, past_return } => WorkerEnd::Broken {
            error: error@,
            cancelled,
            past_return,
        },
        InstallEvent::Lost { reason, cancelled, past_return } => WorkerEnd::Lost {
            error: ErrorView::Internal("join: "@ + reason@),
            cancelled,
            past_return,
        },
        InstallEvent::Failed(e) => WorkerEnd::Broken {
            error: e@,
            cancelled: false,
            past_return: false,
        },
        InstallEvent::Done => WorkerEnd::Installed { success: false, portable: false },
    }
}

/// What a step does to the world: it makes something ready, takes or gives up the lease, runs
/// the worker, records whether there was an error, or does what it is named after.
pub open spec fn install_effect(
    flow: InstallView,
    event: InstallEvent,
    was: InstallWorld,
) -> InstallWorld {
    let failed = event is Failed;
    match flow.step {
        InstallStep::TakeLease => if failed {
            was
        } else {
            InstallWorld { lease: Lease::Held, ..was }
        },
        InstallStep::SetPreparing => InstallWorld {
            ready: Preparation { shown: true, ..was.ready },
            ..was
        },
        InstallStep::ArmAbort => InstallWorld {
            ready: Preparation { abort_armed: true, ..was.ready },
            ..was
        },
        InstallStep::LoadEndpoints => InstallWorld {
            ready: Preparation { endpoints_loaded: !failed, ..was.ready },
            ..was
        },
        InstallStep::ValidateRoot => InstallWorld {
            ready: Preparation { root_validated: !failed, ..was.ready },
            ..was
        },
        InstallStep::SetResume => InstallWorld {
            ready: Preparation { resume_set: !failed, ..was.ready },
            ..was
        },
        InstallStep::LoadNetwork => InstallWorld {
            ready: Preparation { network_loaded: !failed, ..was.ready },
            ..was
        },
        InstallStep::RunWorker => InstallWorld {
            worker_ran: true,
            outcome: Some(worker_end(event)),
            ..was
        },
        InstallStep::ConfirmPause => InstallWorld { pause_confirmed: true, ..was },
        InstallStep::MarkAmbiguous => InstallWorld { marked_ambiguous: true, ..was },
        InstallStep::ClearPaused => InstallWorld { pause_cleared: true, ..was },
        InstallStep::RestorePolicy => InstallWorld { policy_brought_back: true, ..was },
        InstallStep::SaveRoot => if failed {
            was
        } else {
            InstallWorld { root_saved: true, ..was }
        },
        InstallStep::ClearCache => InstallWorld { cache_cleared: true, ..was },
        InstallStep::RecordCompletion => InstallWorld {
            recorded: Some(flow.error is None),
            records: was.records + 1,
            ..was
        },
        InstallStep::EndLease => InstallWorld { lease: Lease::Ended, ..was },
        _ => was,
    }
}

/// The steps before the worker.
pub open spec fn is_preparing(step: InstallStep) -> bool {
    match step {
        InstallStep::SetPreparing => true,
        InstallStep::ArmAbort => true,
        InstallStep::LoadEndpoints => true,
        InstallStep::ValidateRoot => true,
        InstallStep::SetResume => true,
        InstallStep::LoadNetwork => true,
        InstallStep::RunWorker => true,
        _ => false,
    }
}

/// What holds at each step.
pub open spec fn install_holds(flow: InstallView, world: InstallWorld) -> bool {
    &&& flow.worked ==> world.worker_ran
    &&& world.recorded is Some <==> world.records == 1
    &&& world.records <= 1
    &&& world.root_saved ==> flow.saves_root()
    &&& world.cache_cleared ==> flow.clears_cache() && (flow.step == InstallStep::RecordCompletion
        || flow.step == InstallStep::EndLease || flow.step == InstallStep::Finished)
    &&& world.pause_confirmed ==> flow.cancelled && flow.error is Some
    &&& world.marked_ambiguous ==> flow.past_return && flow.error is Some
    &&& world.policy_brought_back ==> is_historical(flow.kind) && must_restore(flow.policy)
        && flow.error is Some
    &&& world.pause_cleared ==> flow.worked && flow.error is Some
    &&& match flow.step {
        InstallStep::TakeLease => world == untouched_world() && flow.error is None
            && !flow.worked,
        InstallStep::ConfirmPause => world.lease is Held && flow.worked && flow.error is Some
            && flow.cancelled && world.recorded is None,
        InstallStep::MarkAmbiguous => world.lease is Held && flow.worked && flow.error is Some
            && flow.past_return && world.recorded is None,
        InstallStep::ClearPaused => world.lease is Held && flow.clears_pause() && (if flow.kind
            == InstallKind::MacInstall {
            world.recorded == Some(false)
        } else {
            world.recorded is None
        }),
        InstallStep::RestorePolicy => world.lease is Held && flow.error is Some && is_historical(
            flow.kind,
        ) && must_restore(flow.policy) && world.recorded is None,
        InstallStep::SaveRoot => world.lease is Held && flow.worked && flow.error is None
            && flow.saves_root() && world.recorded is None && !world.cache_cleared,
        InstallStep::ClearCache => world.lease is Held && flow.worked && flow.error is None
            && flow.clears_cache() && world.recorded is None && (flow.saves_root()
            ==> world.root_saved),
        InstallStep::RecordCompletion => world.lease is Held && world.recorded is None && (
        flow.error is None ==> flow.worked && (flow.saves_root() ==> world.root_saved)),
        InstallStep::EndLease => world.lease is Held && well_recorded(flow, world),
        InstallStep::Finished => match world.lease {
            Lease::Free => flow.error is Some && world == untouched_world(),
            Lease::Held => false,
            Lease::Ended => well_recorded(flow, world),
        },
        step => is_preparing(step) && world == (InstallWorld {
            lease: Lease::Held,
            ready: world.ready,
            ..untouched_world()
        }) && flow.error is None && !flow.worked,
    }
}

/// The completion is on record, and it says whether there was an error. Only a first
/// installation whose way to resume could not be noted has no record. An installation
/// without an error ran its worker and remembered the root where it had to.
pub open spec fn well_recorded(flow: InstallView, world: InstallWorld) -> bool {
    &&& world.recorded == Some(flow.error is None) || (flow.kind == InstallKind::MacInstall
        && flow.error is Some && world.recorded is None && !world.worker_ran)
    &&& flow.error is None ==> world.worker_ran && (flow.saves_root() ==> world.root_saved)
}

#[verifier::spinoff_prover]
proof fn lemma_holds_before(flow: InstallView, event: InstallEvent, world: InstallWorld)
    requires
        install_holds(flow, world),
        is_preparing(flow.step) || flow.step == InstallStep::TakeLease,
        flow.step != InstallStep::RunWorker,
    ensures
        install_holds(flow.next(event), install_effect(flow, event, world)),
{
}

#[verifier::spinoff_prover]
proof fn lemma_holds_installed(flow: InstallView, event: InstallEvent, world: InstallWorld)
    requires
        install_holds(flow, world),
        flow.step == InstallStep::RunWorker,
        event is Installed || event is Done,
    ensures
        install_holds(flow.next(event), install_effect(flow, event, world)),
{
}

#[verifier::spinoff_prover]
proof fn lemma_holds_broken(flow: InstallView, event: InstallEvent, world: InstallWorld)
    requires
        install_holds(flow, world),
        flow.step == InstallStep::RunWorker,
        event is Broken || event is Failed,
    ensures
        install_holds(flow.next(event), install_effect(flow, event, world)),
{
}

#[verifier::spinoff_prover]
proof fn lemma_holds_lost(flow: InstallView, event: InstallEvent, world: InstallWorld)
    requires
        install_holds(flow, world),
        flow.step == InstallStep::RunWorker,
        event is Lost,
    ensures
        install_holds(flow.next(event), install_effect(flow, event, world)),
{
}

#[verifier::spinoff_prover]
proof fn lemma_holds_paused(flow: InstallView, event: InstallEvent, world: InstallWorld)
    requires
        install_holds(flow, world),
        flow.step == InstallStep::ConfirmPause,
    ensures
        install_holds(flow.next(event), install_effect(flow, event, world)),
{
}

#[verifier::spinoff_prover]
proof fn lemma_holds_marked(flow: InstallView, event: InstallEvent, world: InstallWorld)
    requires
        install_holds(flow, world),
        flow.step == InstallStep::MarkAmbiguous,
    ensures
        install_holds(flow.next(event), install_effect(flow, event, world)),
{
}

#[verifier::spinoff_prover]
proof fn lemma_holds_cleared(flow: InstallView, event: InstallEvent, world: InstallWorld)
    requires
        install_holds(flow, world),
        flow.step == InstallStep::ClearPaused,
    ensures
        install_holds(flow.next(event), install_effect(flow, event, world)),
{
}

#[verifier::spinoff_prover]
proof fn lemma_holds_restored(flow: InstallView, event: InstallEvent, world: InstallWorld)
    requires
        install_holds(flow, world),
        flow.step == InstallStep::RestorePolicy,
    ensures
        install_holds(flow.next(event), install_effect(flow, event, world)),
{
}

#[verifier::spinoff_prover]
proof fn lemma_holds_saved(flow: InstallView, event: InstallEvent, world: InstallWorld)
    requires
        install_holds(flow, world),
        flow.step == InstallStep::SaveRoot,
    ensures
        install_holds(flow.next(event), install_effect(flow, event, world)),
{
}

#[verifier::spinoff_prover]
proof fn lemma_holds_ending(flow: InstallView, event: InstallEvent, world: InstallWorld)
    requires
        install_holds(flow, world),
        flow.step == InstallStep::ClearCache || flow.step == InstallStep::RecordCompletion || flow.step
            == InstallStep::EndLease,
    ensures
        install_holds(flow.next(event), install_effect(flow, event, world)),
{
}

/// Whatever happens, each step leaves the world as the next step expects it. So an
/// installation that ends holds no lease, its completion is recorded once and truly,
/// the chosen root is remembered and the cache dropped only after an installation
/// that used them, and the old self-update policy comes back only where it must.
pub proof fn law_install_flow_keeps_its_promise(
    flow: InstallView,
    event: InstallEvent,
    world: InstallWorld,
)
    requires
        install_holds(flow, world),
        flow.step != InstallStep::Finished,
    ensures
        install_holds(flow.next(event), install_effect(flow, event, world)),
{
    match flow.step {
        InstallStep::RunWorker => match event {
            InstallEvent::Broken { .. } => lemma_holds_broken(flow, event, world),
            InstallEvent::Failed(_) => lemma_holds_broken(flow, event, world),
            InstallEvent::Lost { .. } => lemma_holds_lost(flow, event, world),
            _ => lemma_holds_installed(flow, event, world),
        },
        InstallStep::ConfirmPause => lemma_holds_paused(flow, event, world),
        InstallStep::MarkAmbiguous => lemma_holds_marked(flow, event, world),
        InstallStep::ClearPaused => lemma_holds_cleared(flow, event, world),
        InstallStep::RestorePolicy => lemma_holds_restored(flow, event, world),
        InstallStep::SaveRoot => lemma_holds_saved(flow, event, world),
        InstallStep::ClearCache => lemma_holds_ending(flow, event, world),
        InstallStep::RecordCompletion => lemma_holds_ending(flow, event, world),
        InstallStep::EndLease => lemma_holds_ending(flow, event, world),
        _ => lemma_holds_before(flow, event, world),
    }
}

/// Whether all is ready for the worker: an installation root that was chosen for Windows is
/// validated, an update of the Windows application knows its endpoints, all but a chosen
/// release can be resumed, a chosen release can be cancelled, and the network is known.
pub open spec fn ready_to_work(kind: InstallKind, has_root: bool, ready: Preparation) -> bool {
    &&& ready.shown
    &&& ready.network_loaded
    &&& has_root && (kind == InstallKind::WinPerform || kind == InstallKind::WinHistorical)
        ==> ready.root_validated
    &&& kind == InstallKind::WinPerform ==> ready.endpoints_loaded
    &&& kind == InstallKind::MacPerform || kind == InstallKind::MacInstall || kind
        == InstallKind::WinPerform ==> ready.resume_set
    &&& kind == InstallKind::MacHistorical || kind == InstallKind::WinHistorical
        ==> ready.abort_armed
}

/// What is ready at each step before the worker.
pub open spec fn ready_at(
    kind: InstallKind,
    has_root: bool,
    step: InstallStep,
    ready: Preparation,
) -> bool {
    let historical = kind == InstallKind::MacHistorical || kind == InstallKind::WinHistorical;
    let rooted = has_root && (kind == InstallKind::WinPerform || kind
        == InstallKind::WinHistorical);
    match step {
        InstallStep::TakeLease => true,
        InstallStep::SetPreparing => true,
        InstallStep::ArmAbort => ready.shown && historical,
        InstallStep::LoadEndpoints => ready.shown && kind == InstallKind::WinPerform,
        InstallStep::ValidateRoot => ready.shown && rooted && (kind == InstallKind::WinPerform
            ==> ready.endpoints_loaded) && (historical ==> ready.abort_armed),
        InstallStep::SetResume => ready.shown && !historical && (kind == InstallKind::WinPerform
            ==> ready.endpoints_loaded) && (rooted ==> ready.root_validated),
        InstallStep::LoadNetwork => ready_to_work(
            kind,
            has_root,
            Preparation { network_loaded: true, ..ready },
        ),
        _ => ready_to_work(kind, has_root, ready),
    }
}

/// Whether a worker's failure is one that can never be resumed.
pub open spec fn never_resumed(e: ErrorView) -> bool {
    e is StaleExpectation
}

/// What is owed for the way in which the worker ended: the pause is confirmed where the work
/// was cancelled, the outcome marked as unknown where the point of no return of macOS was
/// passed, the retained pause dropped where it can never be resumed, and the old policy
/// brought back where it must be.
pub open spec fn owes_pause(end: WorkerEnd, kind: InstallKind) -> bool {
    match end {
        WorkerEnd::Installed { .. } => false,
        WorkerEnd::Broken { cancelled, .. } => cancelled,
        WorkerEnd::Lost { cancelled, .. } => cancelled && kind != InstallKind::WinPerform,
    }
}

pub open spec fn owes_mark(end: WorkerEnd, kind: InstallKind) -> bool {
    (kind == InstallKind::MacPerform || kind == InstallKind::MacInstall) && match end {
        WorkerEnd::Installed { .. } => false,
        WorkerEnd::Broken { past_return, .. } => past_return,
        WorkerEnd::Lost { past_return, .. } => past_return,
    }
}

pub open spec fn owes_clearing(end: WorkerEnd) -> bool {
    end matches WorkerEnd::Broken { error, .. } && never_resumed(error)
}

pub open spec fn owes_policy(end: WorkerEnd, kind: InstallKind, policy: PolicyTracker) -> bool {
    end is Broken && (kind == InstallKind::MacHistorical || kind == InstallKind::WinHistorical)
        && must_restore(policy)
}

/// Whether the chosen root is to be remembered: the installation used it.
pub open spec fn owes_root(end: WorkerEnd, kind: InstallKind, has_root: bool) -> bool {
    end matches WorkerEnd::Installed { success, portable } && success && has_root && (kind
        == InstallKind::WinPerform || (kind == InstallKind::WinHistorical && portable))
}

/// Whether the download is to be dropped: the installation used it up.
pub open spec fn owes_cache(end: WorkerEnd, kind: InstallKind, local: bool) -> bool {
    end matches WorkerEnd::Installed { success, .. } && success && (kind == InstallKind::WinPerform
        || (kind == InstallKind::WinHistorical && !local))
}

/// The error that the worker ended with.
pub open spec fn end_error(end: WorkerEnd) -> Option<ErrorView> {
    match end {
        WorkerEnd::Installed { .. } => None,
        WorkerEnd::Broken { error, .. } => Some(error),
        WorkerEnd::Lost { error, .. } => Some(error),
    }
}

/// The place of a step after the worker: what is owed before it has been done.
pub open spec fn place(kind: InstallKind, step: InstallStep) -> nat {
    match step {
        InstallStep::ConfirmPause => 1,
        InstallStep::MarkAmbiguous => 2,
        InstallStep::ClearPaused => if kind == InstallKind::MacInstall {
            8
        } else {
            3
        },
        InstallStep::RestorePolicy => 4,
        InstallStep::SaveRoot => 5,
        InstallStep::ClearCache => 6,
        InstallStep::RecordCompletion => 7,
        InstallStep::EndLease => 9,
        InstallStep::Finished => 10,
        _ => 0,
    }
}

/// What was done and what not, for the way in which the worker ended.
pub open spec fn install_thorough(flow: InstallView, world: InstallWorld) -> bool {
    let at = place(flow.kind, flow.step);
    match world.outcome {
        None => {
            &&& !world.worker_ran
            &&& !world.root_saved && !world.cache_cleared && !world.pause_confirmed
            &&& !world.pause_cleared && !world.marked_ambiguous && !world.policy_brought_back
            &&& at == 0 || at == 7 || at == 9 || at == 10
            &&& at == 0 ==> ready_at(flow.kind, flow.has_root, flow.step, world.ready)
            &&& at > 0 ==> flow.error is Some
            &&& at == 0 ==> flow.error is None
            &&& !flow.worked && !flow.success && !flow.portable
            &&& !flow.cancelled && !flow.past_return
        },
        Some(end) => {
            let kind = flow.kind;
            &&& world.worker_ran
            &&& at > 0
            &&& ready_to_work(kind, flow.has_root, world.ready)
            &&& world.pause_confirmed == (owes_pause(end, kind) && at > 1)
            &&& world.marked_ambiguous == (owes_mark(end, kind) && at > 2)
            &&& world.pause_cleared == (owes_clearing(end) && at > place(
                kind,
                InstallStep::ClearPaused,
            ))
            &&& world.policy_brought_back == (owes_policy(end, kind, flow.policy) && at > 4)
            &&& world.root_saved ==> owes_root(end, kind, flow.has_root) && at > 5
            &&& world.cache_cleared ==> owes_cache(end, kind, flow.local) && at > 6
            &&& at == 1 ==> owes_pause(end, kind)
            &&& at == 2 ==> owes_mark(end, kind)
            &&& flow.step == InstallStep::ClearPaused ==> owes_clearing(end)
            &&& at == 4 ==> owes_policy(end, kind, flow.policy)
            &&& at == 5 ==> owes_root(end, kind, flow.has_root)
            &&& at == 6 ==> owes_cache(end, kind, flow.local) && (owes_root(
                end,
                kind,
                flow.has_root,
            ) ==> world.root_saved)
            &&& at > 6 && end is Installed && flow.error is None ==> world.root_saved == owes_root(
                end,
                kind,
                flow.has_root,
            ) && world.cache_cleared == owes_cache(end, kind, flow.local)
            &&& at > 6 && end is Installed && flow.error is Some ==> owes_root(
                end,
                kind,
                flow.has_root,
            ) && !world.root_saved && !world.cache_cleared
            &&& end is Installed && at <= 6 ==> flow.error is None
            &&& !(end is Installed) ==> flow.error is Some
            &&& !(end is Installed) && !owes_policy(end, kind, flow.policy) ==> flow.error
                == end_error(end)
            &&& !(end is Installed) && at <= 4 ==> flow.error == end_error(end)
            &&& end matches WorkerEnd::Installed { success, portable } ==> flow.success == success
                && flow.portable == portable && flow.worked
            &&& end matches WorkerEnd::Broken { cancelled, past_return, .. } ==> flow.cancelled
                == cancelled && flow.past_return == past_return && flow.worked
            &&& end matches WorkerEnd::Lost { error, .. } ==> error is Internal
            &&& end matches WorkerEnd::Lost { cancelled, past_return, .. } ==> (kind
                == InstallKind::WinPerform && !flow.worked && at >= 7) || (kind
                != InstallKind::WinPerform && flow.cancelled == cancelled && flow.past_return
                == past_return && flow.worked && (is_historical(kind) ==> !must_restore(
                flow.policy,
            )))
        },
    }
}

/// What one step owes to the next.
pub open spec fn thorough_step(flow: InstallView, event: InstallEvent, world: InstallWorld) -> bool {
    let next = flow.next(event);
    &&& install_thorough(next, install_effect(flow, event, world))
    &&& next.kind == flow.kind
    &&& next.has_root == flow.has_root
    &&& next.local == flow.local
}

#[verifier::spinoff_prover]
proof fn lemma_thorough_before(flow: InstallView, event: InstallEvent, world: InstallWorld)
    requires
        install_thorough(flow, world),
        place(flow.kind, flow.step) == 0,
        flow.step != InstallStep::RunWorker,
    ensures
        thorough_step(flow, event, world),
{
}

#[verifier::spinoff_prover]
proof fn lemma_thorough_installed(flow: InstallView, event: InstallEvent, world: InstallWorld)
    requires
        install_thorough(flow, world),
        flow.step == InstallStep::RunWorker,
        event is Installed || event is Done,
    ensures
        thorough_step(flow, event, world),
{
}

#[verifier::spinoff_prover]
proof fn lemma_thorough_broken(flow: InstallView, event: InstallEvent, world: InstallWorld)
    requires
        install_thorough(flow, world),
        flow.step == InstallStep::RunWorker,
        event is Broken || event is Failed,
    ensures
        thorough_step(flow, event, world),
{
}

#[verifier::spinoff_prover]
proof fn lemma_thorough_lost(flow: InstallView, event: InstallEvent, world: InstallWorld)
    requires
        install_thorough(flow, world),
        flow.step == InstallStep::RunWorker,
        event is Lost,
    ensures
        thorough_step(flow, event, world),
{
}

#[verifier::spinoff_prover]
proof fn lemma_thorough_paused(flow: InstallView, event: InstallEvent, world: InstallWorld)
    requires
        install_thorough(flow, world),
        flow.step == InstallStep::ConfirmPause,
    ensures
        thorough_step(flow, event, world),
{
}

#[verifier::spinoff_prover]
proof fn lemma_thorough_marked(flow: InstallView, event: InstallEvent, world: InstallWorld)
    requires
        install_thorough(flow, world),
        flow.step == InstallStep::MarkAmbiguous,
    ensures
        thorough_step(flow, event, world),
{
}

#[verifier::spinoff_prover]
proof fn lemma_thorough_cleared(flow: InstallView, event: InstallEvent, world: InstallWorld)
    requires
        install_thorough(flow, world),
        flow.step == InstallStep::ClearPaused,
    ensures
        thorough_step(flow, event, world),
{
}

#[verifier::spinoff_prover]
proof fn lemma_thorough_restored(flow: InstallView, event: InstallEvent, world: InstallWorld)
    requires
        install_thorough(flow, world),
        flow.step == InstallStep::RestorePolicy,
    ensures
        thorough_step(flow, event, world),
{
}

#[verifier::spinoff_prover]
proof fn lemma_thorough_saved(flow: InstallView, event: InstallEvent, world: InstallWorld)
    requires
        install_thorough(flow, world),
        flow.step == InstallStep::SaveRoot,
    ensures
        thorough_step(flow, event, world),
{
}

#[verifier::spinoff_prover]
proof fn lemma_thorough_ending(flow: InstallView, event: InstallEvent, world: InstallWorld)
    requires
        install_thorough(flow, world),
        flow.step == InstallStep::ClearCache || flow.step == InstallStep::RecordCompletion || flow.step
            == InstallStep::EndLease,
    ensures
        thorough_step(flow, event, world),
{
}

/// The worker runs only when all is ready for it, and once it has ended, all that is owed for
/// the way in which it ended is done, in order, and nothing else.
pub proof fn law_install_flow_is_thorough(
    flow: InstallView,
    event: InstallEvent,
    world: InstallWorld,
)
    requires
        install_thorough(flow, world),
        flow.step != InstallStep::Finished,
    ensures
        install_thorough(flow.next(event), install_effect(flow, event, world)),
        flow.next(event).kind == flow.kind,
        flow.next(event).has_root == flow.has_root,
        flow.next(event).local == flow.local,
{
    match flow.step {
        InstallStep::RunWorker => match event {
            InstallEvent::Broken { .. } => lemma_thorough_broken(flow, event, world),
            InstallEvent::Failed(_) => lemma_thorough_broken(flow, event, world),
            InstallEvent::Lost { .. } => lemma_thorough_lost(flow, event, world),
            _ => lemma_thorough_installed(flow, event, world),
        },
        InstallStep::ConfirmPause => lemma_thorough_paused(flow, event, world),
        InstallStep::MarkAmbiguous => lemma_thorough_marked(flow, event, world),
        InstallStep::ClearPaused => lemma_thorough_cleared(flow, event, world),
        InstallStep::RestorePolicy => lemma_thorough_restored(flow, event, world),
        InstallStep::SaveRoot => lemma_thorough_saved(flow, event, world),
        InstallStep::ClearCache => lemma_thorough_ending(flow, event, world),
        InstallStep::RecordCompletion => lemma_thorough_ending(flow, event, world),
        InstallStep::EndLease => lemma_thorough_ending(flow, event, world),
        _ => lemma_thorough_before(flow, event, world),
    }
}

/// A flow that has passed its gate and not begun.
pub open spec fn install_fresh(flow: InstallView) -> bool {
    &&& flow.step == InstallStep::TakeLease
    &&& flow.error is None
    &&& !flow.worked && !flow.success && !flow.portable
    &&& !flow.cancelled && !flow.past_return
}

/// Over a whole run: whenever the worker is to run, and whenever it has run, all was made
/// ready; in particular a root that was chosen for Windows was validated before. At the end
/// what is owed is done.
#[verifier::rlimit(40)]
pub proof fn law_every_install_run_is_thorough(flow: InstallView, events: Seq<InstallEvent>)
    requires
        install_fresh(flow),
        install_possible(flow, events),
    ensures
        install_thorough(install_end(flow, events), install_world(flow, events)),
        install_end(flow, events).has_root == flow.has_root,
        install_end(flow, events).local == flow.local,
        install_end(flow, events).kind == flow.kind,
        ({
            let end = install_end(flow, events);
            let world = install_world(flow, events);
            flow.has_root && (flow.kind == InstallKind::WinPerform || flow.kind
                == InstallKind::WinHistorical) && (end.step == InstallStep::RunWorker || end.step
                == InstallStep::SaveRoot || world.worker_ran || world.root_saved)
                ==> world.ready.root_validated
        }),
    decreases events.len(),
{
    if events.len() > 0 {
        let before = events.drop_last();
        law_every_install_run_is_thorough(flow, before);
        law_install_flow_is_thorough(
            install_end(flow, before),
            events.last(),
            install_world(flow, before),
        );
    }
}

/// An installation fails for a cause: a step before the worker that failed, the worker, the
/// root that could not be remembered, or the policy that could not be brought back. A failure
/// before the worker keeps it from running; it is recorded, unless there was no lease or a first
/// installation could not note how to resume it.
pub proof fn law_install_errors_have_a_cause(flow: InstallView, event: InstallEvent)
    requires
        flow.step != InstallStep::Finished,
    ensures
        ({
            let next = flow.next(event);
            let early = flow.step == InstallStep::TakeLease || flow.step
                == InstallStep::LoadEndpoints || flow.step == InstallStep::ValidateRoot || flow.step
                == InstallStep::SetResume || flow.step == InstallStep::LoadNetwork;
            &&& event is Failed && (early || flow.step == InstallStep::SaveRoot) ==> next.error
                == Some(event->Failed_0@) && next.step != InstallStep::RunWorker && place(
                flow.kind,
                next.step,
            ) >= 7
            &&& event is Failed && flow.step == InstallStep::TakeLease ==> next.step
                == InstallStep::Finished
            &&& event is Failed && flow.step == InstallStep::SetResume ==> next.step == (if flow.kind
                == InstallKind::MacInstall {
                InstallStep::EndLease
            } else {
                InstallStep::RecordCompletion
            })
            &&& event is Failed && (flow.step == InstallStep::LoadEndpoints || flow.step
                == InstallStep::ValidateRoot || flow.step == InstallStep::LoadNetwork || flow.step
                == InstallStep::SaveRoot) ==> next.step == InstallStep::RecordCompletion
            &&& flow.step == InstallStep::RunWorker ==> next.error == (match end_error(
                worker_end(event),
            ) {
                Some(e) => Some(e),
                None => flow.error,
            })
            &&& flow.step == InstallStep::RestorePolicy && event is Failed && flow.error is Some
                ==> next.error == Some(
                ErrorView::Internal(
                    flow.error->0.words() + "；同时恢复安装前的 Codex 自更新策略失败："@
                        + event->Failed_0@.words(),
                ),
            )
            &&& !(event is Failed) && flow.step != InstallStep::RunWorker ==> next.error
                == flow.error
            &&& event is Failed && !early && flow.step != InstallStep::SaveRoot && flow.step
                != InstallStep::RunWorker && flow.step != InstallStep::RestorePolicy ==> next.error
                == flow.error
        }),
{
}

/// When an installation has ended, nothing holds its lease.
pub proof fn law_lease_is_given_up(flow: InstallView, world: InstallWorld)
    requires
        install_holds(flow, world),
        flow.step == InstallStep::Finished,
    ensures
        !(world.lease is Held),
        flow.error is None ==> world.recorded == Some(true) && world.worker_ran,
        world.recorded == Some(true) ==> flow.error is None,
{
}

/// After a worker was lost while installing a chosen release, the self-update policy
/// is left as it is.
pub proof fn law_lost_worker_leaves_policy(
    flow: InstallView,
    reason: Seq<char>,
    cancelled: bool,
    past_return: bool,
)
    requires
        is_historical(flow.kind),
    ensures
        !must_restore(flow.lost(reason, cancelled, past_return).policy),
        flow.lost(reason, cancelled, past_return).step != InstallStep::RestorePolicy,
{
}

/// The flow after a row of steps.
pub open spec fn install_end(flow: InstallView, events: Seq<InstallEvent>) -> InstallView
    decreases events.len(),
{
    if events.len() == 0 {
        flow
    } else {
        install_end(flow, events.drop_last()).next(events.last())
    }
}

/// The world after a row of steps.
pub open spec fn install_world(flow: InstallView, events: Seq<InstallEvent>) -> InstallWorld
    decreases events.len(),
{
    if events.len() == 0 {
        untouched_world()
    } else {
        let before = events.drop_last();
        install_effect(install_end(flow, before), events.last(), install_world(flow, before))
    }
}

/// Whether no step comes after the end.
pub open spec fn install_possible(flow: InstallView, events: Seq<InstallEvent>) -> bool
    decreases events.len(),
{
    events.len() == 0 || (install_possible(flow, events.drop_last()) && install_end(
        flow,
        events.drop_last(),
    ).step != InstallStep::Finished)
}

/// How many steps can still come at most.
pub open spec fn install_rank(flow: InstallView) -> nat {
    match flow.step {
        InstallStep::TakeLease => 20,
        InstallStep::SetPreparing => 19,
        InstallStep::ArmAbort => 18,
        InstallStep::LoadEndpoints => 18,
        InstallStep::ValidateRoot => 17,
        InstallStep::SetResume => 16,
        InstallStep::LoadNetwork => 15,
        InstallStep::RunWorker => 14,
        InstallStep::ConfirmPause => 12,
        InstallStep::MarkAmbiguous => 10,
        InstallStep::SaveRoot => 8,
        InstallStep::ClearCache => 7,
        InstallStep::ClearPaused => if flow.kind == InstallKind::MacInstall {
            3
        } else {
            6
        },
        InstallStep::RestorePolicy => 5,
        InstallStep::RecordCompletion => 4,
        InstallStep::EndLease => 1,
        InstallStep::Finished => 0,
    }
}

#[verifier::rlimit(80)]
#[verifier::spinoff_prover]
proof fn lemma_install_rank(flow: InstallView, event: InstallEvent)
    requires
        flow.step != InstallStep::Finished,
        flow.step == InstallStep::RestorePolicy ==> flow.kind != InstallKind::MacInstall,
    ensures
        install_rank(flow.next(event)) < install_rank(flow),
        flow.next(event).kind == flow.kind,
{
}

/// Over a whole run, from a flow that has not begun: the world is at every moment what
/// the current step expects, and the run comes to an end.
pub proof fn law_every_install_run_keeps_its_promise(flow: InstallView, events: Seq<InstallEvent>)
    requires
        flow.step == InstallStep::TakeLease,
        flow.error is None,
        !flow.worked,
        install_possible(flow, events),
    ensures
        install_holds(install_end(flow, events), install_world(flow, events)),
        install_end(flow, events).kind == flow.kind,
        events.len() + install_rank(install_end(flow, events)) <= install_rank(flow),
    decreases events.len(),
{
    if events.len() > 0 {
        let before = events.drop_last();
        law_every_install_run_keeps_its_promise(flow, before);
        law_install_flow_keeps_its_promise(
            install_end(flow, before),
            events.last(),
            install_world(flow, before),
        );
        lemma_install_rank(install_end(flow, before), events.last());
    }
}

} // verus!

//! Trying on, applying and cancelling a theme. Each flow says which operation comes
//! next and is told how it went.

use vstd::prelude::*;
use crate::errors::{engine, internal, AppError, ErrorView};
use crate::file_swap::error_view;
use crate::resume::copy_text;
use crate::settings::AppSettings;
use crate::store::{store_dir, store_place, texts_of};
use crate::text::{chars_of, decimal, decimal_of, push_all, push_str, str_eq, string_of, text_of};
use crate::url_policy::text_view;

verus! {

/// How an operation went.
#[derive(Debug)]
pub enum ThemeEvent {
    Done,
    Yes,
    No,
    Failed(AppError),
}

// ---------------------------------------------------------------------------
// Writing native settings into a running Codex
// ---------------------------------------------------------------------------

/// The operations of a hot write.
#[derive(Debug, Clone, Copy, PartialEq, Eq, Structural)]
pub enum HotStep {
    LocatePaths,
    /// Capture the baseline from disk, before anything is written.
    CaptureBaseline,
    Connect,
    EnsureApi,
    ReadSnapshot,
    /// Is there a stash already?
    ProbeStash,
    WriteStash,
    WriteValues,
    /// Write the values back that were there before.
    Revert,
    Close,
    Finished,
}

/// A hot write under way.
#[derive(Debug)]
pub struct HotFlow {
    pub step: HotStep,
    /// Keep the values that are there now, once per try-on.
    pub stash_first: bool,
    pub error: Option<AppError>,
}

/// The step after one that went well, or whose failure does not matter.
pub open spec fn hot_after(step: HotStep, stash_first: bool, yes: bool) -> HotStep {
    match step {
        HotStep::LocatePaths => HotStep::CaptureBaseline,
        HotStep::CaptureBaseline => HotStep::Connect,
        HotStep::Connect => HotStep::EnsureApi,
        HotStep::EnsureApi => HotStep::ReadSnapshot,
        HotStep::ReadSnapshot => if stash_first {
            HotStep::ProbeStash
        } else {
            HotStep::WriteValues
        },
        HotStep::ProbeStash => if yes {
            HotStep::WriteValues
        } else {
            HotStep::WriteStash
        },
        HotStep::WriteStash => HotStep::WriteValues,
        HotStep::WriteValues => HotStep::Close,
        HotStep::Revert => HotStep::Close,
        HotStep::Close => HotStep::Finished,
        HotStep::Finished => HotStep::Finished,
    }
}

/// The step after one that failed: before a session is open the flow ends, later the
/// session is closed first, and values that were half written are written back.
pub open spec fn hot_after_failure(step: HotStep) -> HotStep {
    match step {
        HotStep::LocatePaths => HotStep::Finished,
        HotStep::CaptureBaseline => HotStep::Finished,
        HotStep::Connect => HotStep::Finished,
        HotStep::EnsureApi => HotStep::Close,
        HotStep::ReadSnapshot => HotStep::Close,
        HotStep::WriteStash => HotStep::Close,
        HotStep::WriteValues => HotStep::Revert,
        _ => hot_after(step, true, false),
    }
}

/// Steps whose failure is not reported.
pub open spec fn hot_ignores(step: HotStep) -> bool {
    step == HotStep::ProbeStash || step == HotStep::Revert || step == HotStep::Close || step
        == HotStep::Finished
}

/// The next step and the error so far.
pub open spec fn hot_next(
    step: HotStep,
    stash_first: bool,
    error: Option<ErrorView>,
    event: ThemeEvent,
) -> (HotStep, Option<ErrorView>) {
    match event {
        ThemeEvent::Failed(e) => if hot_ignores(step) {
            (hot_after_failure(step), error)
        } else {
            (hot_after_failure(step), Some(e@))
        },
        _ => (hot_after(step, stash_first, event is Yes), error),
    }
}

impl HotFlow {
    /// A hot write that has not begun.
    pub fn start(stash_first: bool) -> (r: HotFlow)
        ensures
            r.step == HotStep::LocatePaths,
            r.stash_first == stash_first,
            r.error is None,
            (r.step, error_view(r.error)) == hot_end(stash_first, Seq::empty()),
    {
        HotFlow { step: HotStep::LocatePaths, stash_first, error: None }
    }

    /// Takes in how the current step went.
    pub fn advance(&mut self, event: ThemeEvent)
        ensures
            final(self).stash_first == old(self).stash_first,
            hot_next(
                old(self).step,
                old(self).stash_first,
                error_view(old(self).error),
                event,
            ) == (final(self).step, error_view(final(self).error)),
    {
        let yes = matches!(event, ThemeEvent::Yes);
        match event {
            ThemeEvent::Failed(e) => {
                match self.step {
                    HotStep::LocatePaths | HotStep::CaptureBaseline | HotStep::Connect => {
                        self.step = HotStep::Finished;
                        self.error = Some(e);
                    },
                    HotStep::EnsureApi | HotStep::ReadSnapshot | HotStep::WriteStash => {
                        self.step = HotStep::Close;
                        self.error = Some(e);
                    },
                    HotStep::WriteValues => {
                        self.step = HotStep::Revert;
                        self.error = Some(e);
                    },
                    HotStep::ProbeStash => {
                        self.step = HotStep::WriteStash;
                    },
                    HotStep::Revert => {
                        self.step = HotStep::Close;
                    },
                    HotStep::Close | HotStep::Finished => {
                        self.step = HotStep::Finished;
                    },
                }
            },
            _ => {
                self.step = match self.step {
                    HotStep::LocatePaths => HotStep::CaptureBaseline,
                    HotStep::CaptureBaseline => HotStep::Connect,
                    HotStep::Connect => HotStep::EnsureApi,
                    HotStep::EnsureApi => HotStep::ReadSnapshot,
                    HotStep::ReadSnapshot => if self.stash_first {
                        HotStep::ProbeStash
                    } else {
                        HotStep::WriteValues
                    },
                    HotStep::ProbeStash => if yes {
                        HotStep::WriteValues
                    } else {
                        HotStep::WriteStash
                    },
                    HotStep::WriteStash => HotStep::WriteValues,
                    HotStep::WriteValues => HotStep::Close,
                    HotStep::Revert => HotStep::Close,
                    HotStep::Close | HotStep::Finished => HotStep::Finished,
                };
            },
        }
    }
}

/// What the live settings are.
pub enum LiveValues {
    /// What they were when the flow began.
    Own,
    /// The theme's.
    Theme,
    /// Some of both.
    Mixed,
}

/// The part of the world that a hot write acts on.
pub struct HotWorld {
    pub located: bool,
    pub api_there: bool,
    /// The values that were there before are known.
    pub snapshot_read: bool,
    /// Writing the theme's values failed in this hot write.
    pub write_failed: bool,
    /// It was tried in this hot write to write the old values back.
    pub reverted: bool,
    pub baseline_captured: bool,
    pub session_open: bool,
    pub stash_there: bool,
    pub values: LiveValues,
}

/// What a step can do to the world.
pub open spec fn hot_effect(
    step: HotStep,
    event: ThemeEvent,
    was: HotWorld,
    now: HotWorld,
) -> bool {
    let failed = event is Failed;
    match step {
        HotStep::LocatePaths => now == (HotWorld {
            located: !failed,
            write_failed: false,
            reverted: false,
            ..was
        }),
        HotStep::EnsureApi => now == (HotWorld { api_there: !failed, ..was }),
        HotStep::ReadSnapshot => now == (HotWorld { snapshot_read: !failed, ..was }),
        HotStep::CaptureBaseline => now == (if failed {
            was
        } else {
            HotWorld { baseline_captured: true, ..was }
        }),
        HotStep::Connect => now == (if failed {
            was
        } else {
            HotWorld { session_open: true, ..was }
        }),
        HotStep::ProbeStash => now == was && !failed && (event is Yes <==> was.stash_there),
        HotStep::WriteStash => now == (if failed {
            was
        } else {
            HotWorld { stash_there: true, ..was }
        }),
        HotStep::WriteValues => if failed {
            now == (HotWorld { values: now.values, write_failed: true, ..was })
        } else {
            now == (HotWorld { values: LiveValues::Theme, ..was })
        },
        HotStep::Revert => if failed {
            now == (HotWorld { values: now.values, reverted: true, ..was })
        } else {
            now == (HotWorld { values: LiveValues::Own, reverted: true, ..was })
        },
        HotStep::Close => now == (HotWorld { session_open: false, ..was }),
        _ => now == was,
    }
}

/// What holds of the world at each step.
pub open spec fn hot_holds(
    step: HotStep,
    stash_first: bool,
    error: Option<ErrorView>,
    world: HotWorld,
) -> bool {
    &&& hot_prepared(step, world)
    &&& match step {
        HotStep::LocatePaths => error is None && !world.session_open && world.values is Own,
        HotStep::CaptureBaseline => error is None && !world.session_open && world.values is Own,
        HotStep::Connect => error is None && !world.session_open && world.values is Own
            && world.baseline_captured,
        HotStep::EnsureApi => error is None && world.session_open && world.values is Own
            && world.baseline_captured,
        HotStep::ReadSnapshot => error is None && world.session_open && world.values is Own
            && world.baseline_captured,
        HotStep::ProbeStash => error is None && world.session_open && world.values is Own
            && world.baseline_captured && stash_first,
        HotStep::WriteStash => error is None && world.session_open && world.values is Own
            && world.baseline_captured && stash_first && !world.stash_there,
        HotStep::WriteValues => error is None && world.session_open && world.values is Own
            && world.baseline_captured && (stash_first ==> world.stash_there),
        HotStep::Revert => error is Some && world.session_open && world.baseline_captured && (
        stash_first ==> world.stash_there),
        HotStep::Close => world.session_open && world.baseline_captured && hot_ended(
            stash_first,
            error,
            world,
        ),
        HotStep::Finished => !world.session_open && hot_ended(stash_first, error, world),
    }
}

/// What was done before each step: the paths are known before the baseline is captured,
/// the values are read before anything is kept or written, and what was half written is
/// written back before the session is closed.
pub open spec fn hot_prepared(step: HotStep, world: HotWorld) -> bool {
    &&& match step {
        HotStep::LocatePaths => true,
        HotStep::CaptureBaseline => world.located,
        HotStep::Connect => world.located,
        HotStep::EnsureApi => world.located,
        HotStep::ReadSnapshot => world.located && world.api_there,
        HotStep::ProbeStash => world.located && world.api_there && world.snapshot_read,
        HotStep::WriteStash => world.located && world.api_there && world.snapshot_read,
        HotStep::WriteValues => world.located && world.api_there && world.snapshot_read,
        HotStep::Revert => world.snapshot_read && world.write_failed,
        _ => world.write_failed ==> world.reverted,
    }
    &&& world.write_failed ==> step == HotStep::Revert || step == HotStep::Close || step
        == HotStep::Finished || step == HotStep::LocatePaths
    &&& world.reverted && step != HotStep::LocatePaths ==> world.write_failed
}

/// What a hot write comes to. Without an error the theme's values are live, and the
/// user's own are on disk as the baseline and, for a try-on, in the stash. With an
/// error, whatever could be written was written after the baseline was captured.
pub open spec fn hot_ended(stash_first: bool, error: Option<ErrorView>, world: HotWorld) -> bool {
    if error is None {
        world.values is Theme && world.baseline_captured && (stash_first ==> world.stash_there)
            && world.api_there && !world.write_failed
    } else {
        world.values is Own || world.baseline_captured
    }
}

/// Each step of a hot write leaves the world as the next step expects it: nothing is
/// written before the baseline and the stash are there, and a session that was
/// opened is closed whatever happens.
pub proof fn law_hot_write_keeps_its_promise(
    step: HotStep,
    stash_first: bool,
    error: Option<ErrorView>,
    event: ThemeEvent,
    was: HotWorld,
    now: HotWorld,
)
    requires
        hot_holds(step, stash_first, error, was),
        hot_effect(step, event, was, now),
    ensures
        ({
            let (next, err) = hot_next(step, stash_first, error, event);
            hot_holds(next, stash_first, err, now)
        }),
{
}

/// One step of a hot write: how it went, and the world after it.
pub struct HotTurn {
    pub event: ThemeEvent,
    pub world: HotWorld,
}

/// The step and the error after a row of steps.
pub open spec fn hot_end(stash_first: bool, turns: Seq<HotTurn>) -> (HotStep, Option<ErrorView>)
    decreases turns.len(),
{
    if turns.len() == 0 {
        (HotStep::LocatePaths, None)
    } else {
        let (step, error) = hot_end(stash_first, turns.drop_last());
        hot_next(step, stash_first, error, turns.last().event)
    }
}

/// The world after a row of steps.
pub open spec fn hot_world(world: HotWorld, turns: Seq<HotTurn>) -> HotWorld {
    if turns.len() == 0 {
        world
    } else {
        turns.last().world
    }
}

/// Whether a row of steps can happen.
pub open spec fn hot_possible(stash_first: bool, world: HotWorld, turns: Seq<HotTurn>) -> bool
    decreases turns.len(),
{
    turns.len() == 0 || {
        let before = turns.drop_last();
        &&& hot_possible(stash_first, world, before)
        &&& hot_effect(
            hot_end(stash_first, before).0,
            turns.last().event,
            hot_world(world, before),
            turns.last().world,
        )
    }
}

/// Over a whole hot write: once it has ended its session is closed, and without an error
/// the theme's values are live while the user's own are safe.
pub proof fn law_every_hot_write_keeps_its_promise(
    stash_first: bool,
    world: HotWorld,
    turns: Seq<HotTurn>,
)
    requires
        !world.session_open,
        world.values is Own,
        hot_possible(stash_first, world, turns),
    ensures
        hot_holds(
            hot_end(stash_first, turns).0,
            stash_first,
            hot_end(stash_first, turns).1,
            hot_world(world, turns),
        ),
    decreases turns.len(),
{
    if turns.len() > 0 {
        let before = turns.drop_last();
        law_every_hot_write_keeps_its_promise(stash_first, world, before);
        let (step, error) = hot_end(stash_first, before);
        law_hot_write_keeps_its_promise(
            step,
            stash_first,
            error,
            turns.last().event,
            hot_world(world, before),
            turns.last().world,
        );
    }
}


/// A hot write fails with the error of the step that failed, and with no other; to look for
/// a stash, to write the old values back and to close the session cannot fail it.
pub proof fn law_hot_write_errors_have_a_cause(
    step: HotStep,
    stash_first: bool,
    error: Option<ErrorView>,
    event: ThemeEvent,
)
    ensures
        ({
            let (next, err) = hot_next(step, stash_first, error, event);
            let counts = step == HotStep::LocatePaths || step == HotStep::CaptureBaseline || step
                == HotStep::Connect || step == HotStep::EnsureApi || step == HotStep::ReadSnapshot
                || step == HotStep::WriteStash || step == HotStep::WriteValues;
            &&& event is Failed && counts ==> err == Some(event->Failed_0@)
            &&& !(event is Failed) || !counts ==> err == error
            &&& !(event is Failed) && step != HotStep::Finished ==> next != step
        }),
{
}

/// How many steps of a hot write can still come at most.
pub open spec fn hot_rank(step: HotStep) -> nat {
    match step {
        HotStep::LocatePaths => 10,
        HotStep::CaptureBaseline => 9,
        HotStep::Connect => 8,
        HotStep::EnsureApi => 7,
        HotStep::ReadSnapshot => 6,
        HotStep::ProbeStash => 5,
        HotStep::WriteStash => 4,
        HotStep::WriteValues => 3,
        HotStep::Revert => 2,
        HotStep::Close => 1,
        HotStep::Finished => 0,
    }
}

/// Every step of a hot write brings it nearer to its end.
pub proof fn law_hot_write_comes_to_an_end(
    step: HotStep,
    stash_first: bool,
    error: Option<ErrorView>,
    event: ThemeEvent,
)
    requires
        step != HotStep::Finished,
    ensures
        hot_rank(hot_next(step, stash_first, error, event).0) < hot_rank(step),
{
}

// ---------------------------------------------------------------------------
// The theme operations
// ---------------------------------------------------------------------------

/// What the user wants.
#[derive(Debug, Clone, Copy, PartialEq, Eq, Structural)]
pub enum Intent {
    /// Try a theme on in a Codex that is already debuggable.
    TryOn,
    /// Try a theme on after restarting Codex into debug mode.
    TryOnRestart,
    /// Apply a theme for good.
    Apply,
    /// Undo a try-on.
    Cancel,
}

/// The operations of the theme flows.
#[derive(Debug, Clone, Copy, PartialEq, Eq, Structural)]
pub enum ThemeStep {
    /// Refuse to go on while a transaction is unresolved.
    CheckPending,
    ResolveTheme,
    LoadTheme,
    /// Is there a native block? Applying needs a complete one.
    ParseNative,
    CheckShareStrings,
    /// Does a debug endpoint answer?
    ProbePort,
    LocateInstall,
    QuitCodex,
    LaunchDebuggable,
    AwaitPort,
    HotApply,
    SendDirective,
    ConfirmTheme,
    /// Write the configuration while Codex is stopped instead.
    FileApply,
    TurnOffLive,
    /// Is there a stash?
    ReadStash,
    ConnectTargets,
    WriteStashValues,
    /// Is Codex running?
    ProbeRunning,
    WriteSnapshot,
    RemoveStash,
    Finished,
}

/// A theme operation under way.
#[derive(Debug)]
pub struct ThemeFlow {
    pub intent: Intent,
    pub step: ThemeStep,
    /// Codex is restarted into debug mode first.
    pub restart: bool,
    /// The package has native settings to write.
    pub native: bool,
    pub error: Option<AppError>,
}

/// A theme operation with its error as characters.
pub struct ThemeView {
    pub intent: Intent,
    pub step: ThemeStep,
    pub restart: bool,
    pub native: bool,
    pub error: Option<ErrorView>,
}

impl View for ThemeFlow {
    type V = ThemeView;

    open spec fn view(&self) -> ThemeView {
        ThemeView {
            intent: self.intent,
            step: self.step,
            restart: self.restart,
            native: self.native,
            error: error_view(self.error),
        }
    }
}

impl ThemeView {
    /// The flow goes on with `step`.
    pub open spec fn at(self, step: ThemeStep) -> ThemeView {
        ThemeView { step, ..self }
    }

    /// The flow ends with an error.
    pub open spec fn ended(self, e: ErrorView) -> ThemeView {
        ThemeView { step: ThemeStep::Finished, error: Some(e), ..self }
    }

    /// The flow after a step that went well. `yes` is the answer of a probe.
    pub open spec fn onward(self, yes: bool) -> ThemeView {
        let apply = self.intent == Intent::Apply;
        match self.step {
            ThemeStep::CheckPending => self.at(ThemeStep::ResolveTheme),
            ThemeStep::ResolveTheme => self.at(ThemeStep::LoadTheme),
            ThemeStep::LoadTheme => if self.intent == Intent::TryOn {
                self.at(ThemeStep::ProbePort)
            } else {
                self.at(ThemeStep::ParseNative)
            },
            ThemeStep::ParseNative => {
                let told = ThemeView { native: yes || apply, ..self };
                match self.intent {
                    Intent::TryOn => if yes {
                        told.at(ThemeStep::HotApply)
                    } else {
                        told.at(ThemeStep::SendDirective)
                    },
                    Intent::Apply => told.at(ThemeStep::CheckShareStrings),
                    _ => told.at(ThemeStep::LocateInstall),
                }
            },
            ThemeStep::CheckShareStrings => if self.restart {
                self.at(ThemeStep::LocateInstall)
            } else {
                self.at(ThemeStep::ProbePort)
            },
            ThemeStep::ProbePort => match self.intent {
                Intent::TryOn => if yes {
                    self.at(ThemeStep::ParseNative)
                } else {
                    self.ended(
                        ErrorView::Engine("codex-not-debuggable: Codex 未以调试模式运行"@),
                    )
                },
                Intent::Cancel => if yes {
                    self.at(ThemeStep::ConnectTargets)
                } else {
                    self.at(ThemeStep::ProbeRunning)
                },
                _ => if yes {
                    self.at(ThemeStep::HotApply)
                } else {
                    ThemeView { restart: true, step: ThemeStep::CheckPending, ..self }
                },
            },
            ThemeStep::LocateInstall => self.at(ThemeStep::QuitCodex),
            ThemeStep::QuitCodex => self.at(ThemeStep::LaunchDebuggable),
            ThemeStep::LaunchDebuggable => self.at(ThemeStep::AwaitPort),
            ThemeStep::AwaitPort => if self.native {
                self.at(ThemeStep::HotApply)
            } else {
                self.at(ThemeStep::SendDirective)
            },
            ThemeStep::HotApply => self.at(ThemeStep::SendDirective),
            ThemeStep::SendDirective => if apply {
                self.at(ThemeStep::ConfirmTheme)
            } else {
                self.at(ThemeStep::Finished)
            },
            ThemeStep::ConfirmTheme => self.at(ThemeStep::RemoveStash),
            ThemeStep::FileApply => self.at(ThemeStep::Finished),
            ThemeStep::TurnOffLive => self.at(ThemeStep::ReadStash),
            ThemeStep::ReadStash => if yes {
                self.at(ThemeStep::ProbePort)
            } else {
                self.at(ThemeStep::Finished)
            },
            ThemeStep::ConnectTargets => self.at(ThemeStep::WriteStashValues),
            ThemeStep::WriteStashValues => self.at(ThemeStep::RemoveStash),
            ThemeStep::ProbeRunning => if yes {
                self.ended(
                    ErrorView::Engine(
                        "Codex 正在运行但没有调试端口，暂时无法撤销原生试穿——退出 Codex 后重试，或使用完全恢复"@,
                    ),
                )
            } else {
                self.at(ThemeStep::WriteSnapshot)
            },
            ThemeStep::WriteSnapshot => self.at(ThemeStep::RemoveStash),
            ThemeStep::RemoveStash => self.at(ThemeStep::Finished),
            ThemeStep::Finished => self,
        }
    }

    /// The flow after a step that failed. A hot write that fails while a theme is
    /// applied falls back to writing the configuration. A native block that cannot be
    /// read does not stop a try-on. Every other failure ends the flow.
    pub open spec fn failed(self, e: ErrorView) -> ThemeView {
        if self.step == ThemeStep::HotApply && self.intent == Intent::Apply {
            self.at(ThemeStep::FileApply)
        } else if self.step == ThemeStep::ParseNative && self.intent != Intent::Apply {
            self.onward(false)
        } else if self.step == ThemeStep::RemoveStash || self.step == ThemeStep::TurnOffLive
            || self.step == ThemeStep::ReadStash || self.step == ThemeStep::Finished {
            self.onward(false)
        } else if self.step == ThemeStep::SendDirective {
            self.ended(ErrorView::Internal("主题守护未运行"@))
        } else {
            self.ended(e)
        }
    }

    /// The flow after a step went one way or another.
    pub open spec fn next(self, event: ThemeEvent) -> ThemeView {
        match event {
            ThemeEvent::Failed(e) => self.failed(e@),
            _ => self.onward(event is Yes),
        }
    }
}

impl ThemeFlow {
    /// An operation that has not begun.
    pub fn start(intent: Intent, supported: bool) -> (r: ThemeFlow)
        ensures
            r.intent == intent,
            r.restart == (intent == Intent::TryOnRestart),
            !r.native,
            intent == Intent::Cancel ==> r.step == ThemeStep::TurnOffLive && r.error is None,
            intent != Intent::Cancel && supported ==> r.step == ThemeStep::CheckPending && r.error
                is None,
            intent != Intent::Cancel && !supported ==> r.step == ThemeStep::Finished
                && error_view(r.error) == Some(ErrorView::UnsupportedPlatform),
            intent == Intent::Cancel || supported ==> theme_fresh(r@),
    {
        let restart = intent == Intent::TryOnRestart;
        if intent == Intent::Cancel {
            ThemeFlow { intent, step: ThemeStep::TurnOffLive, restart, native: false, error: None }
        } else if supported {
            ThemeFlow { intent, step: ThemeStep::CheckPending, restart, native: false, error: None }
        } else {
            ThemeFlow {
                intent,
                step: ThemeStep::Finished,
                restart,
                native: false,
                error: Some(AppError::UnsupportedPlatform),
            }
        }
    }

    fn end(&mut self, e: AppError)
        ensures
            final(self)@ == old(self)@.ended(e@),
    {
        self.step = ThemeStep::Finished;
        self.error = Some(e);
    }

    fn go_on(&mut self, yes: bool)
        ensures
            final(self)@ == old(self)@.onward(yes),
    {
        let apply = self.intent == Intent::Apply;
        match self.step {
            ThemeStep::CheckPending => {
                self.step = ThemeStep::ResolveTheme;
            },
            ThemeStep::ResolveTheme => {
                self.step = ThemeStep::LoadTheme;
            },
            ThemeStep::LoadTheme => {
                self.step = if self.intent == Intent::TryOn {
                    ThemeStep::ProbePort
                } else {
                    ThemeStep::ParseNative
                };
            },
            ThemeStep::ParseNative => {
                self.native = yes || apply;
                self.step = match self.intent {
                    Intent::TryOn => if yes {
                        ThemeStep::HotApply
                    } else {
                        ThemeStep::SendDirective
                    },
                    Intent::Apply => ThemeStep::CheckShareStrings,
                    _ => ThemeStep::LocateInstall,
                };
            },
            ThemeStep::CheckShareStrings => {
                self.step = if self.restart {
                    ThemeStep::LocateInstall
                } else {
                    ThemeStep::ProbePort
                };
            },
            ThemeStep::ProbePort => {
                match self.intent {
                    Intent::TryOn => {
                        if yes {
                            self.step = ThemeStep::ParseNative;
                        } else {
                            self.end(engine("codex-not-debuggable: Codex 未以调试模式运行"));
                        }
                    },
                    Intent::Cancel => {
                        self.step = if yes {
                            ThemeStep::ConnectTargets
                        } else {
                            ThemeStep::ProbeRunning
                        };
                    },
                    _ => {
                        if yes {
                            self.step = ThemeStep::HotApply;
                        } else {
                            self.restart = true;
                            self.step = ThemeStep::CheckPending;
                        }
                    },
                }
            },
            ThemeStep::LocateInstall => {
                self.step = ThemeStep::QuitCodex;
            },
            ThemeStep::QuitCodex => {
                self.step = ThemeStep::LaunchDebuggable;
            },
            ThemeStep::LaunchDebuggable => {
                self.step = ThemeStep::AwaitPort;
            },
            ThemeStep::AwaitPort => {
                self.step = if self.native {
                    ThemeStep::HotApply
                } else {
                    ThemeStep::SendDirective
                };
            },
            ThemeStep::HotApply => {
                self.step = ThemeStep::SendDirective;
            },
            ThemeStep::SendDirective => {
                self.step = if apply {
                    ThemeStep::ConfirmTheme
                } else {
                    ThemeStep::Finished
                };
            },
            ThemeStep::ConfirmTheme => {
                self.step = ThemeStep::RemoveStash;
            },
            ThemeStep::FileApply => {
                self.step = ThemeStep::Finished;
            },
            ThemeStep::TurnOffLive => {
                self.step = ThemeStep::ReadStash;
            },
            ThemeStep::ReadStash => {
                self.step = if yes {
                    ThemeStep::ProbePort
                } else {
                    ThemeStep::Finished
                };
            },
            ThemeStep::ConnectTargets => {
                self.step = ThemeStep::WriteStashValues;
            },
            ThemeStep::WriteStashValues => {
                self.step = ThemeStep::RemoveStash;
            },
            ThemeStep::ProbeRunning => {
                if yes {
                    self.end(
                        engine(
                            "Codex 正在运行但没有调试端口，暂时无法撤销原生试穿——退出 Codex 后重试，或使用完全恢复",
                        ),
                    );
                } else {
                    self.step = ThemeStep::WriteSnapshot;
                }
            },
            ThemeStep::WriteSnapshot => {
                self.step = ThemeStep::RemoveStash;
            },
            ThemeStep::RemoveStash => {
                self.step = ThemeStep::Finished;
            },
            ThemeStep::Finished => {},
        }
    }

    /// Takes in how the current step went.
    pub fn advance(&mut self, event: ThemeEvent)
        ensures
            final(self)@ == old(self)@.next(event),
    {
        let yes = matches!(event, ThemeEvent::Yes);
        match event {
            ThemeEvent::Failed(e) => {
                if self.step == ThemeStep::HotApply && self.intent == Intent::Apply {
                    self.step = ThemeStep::FileApply;
                } else if self.step == ThemeStep::ParseNative && self.intent != Intent::Apply {
                    self.go_on(false);
                } else if self.step == ThemeStep::RemoveStash || self.step
                    == ThemeStep::TurnOffLive || self.step == ThemeStep::ReadStash || self.step
                    == ThemeStep::Finished {
                    self.go_on(false);
                } else if self.step == ThemeStep::SendDirective {
                    self.end(internal("主题守护未运行"));
                } else {
                    self.end(e);
                }
            },
            _ => {
                self.go_on(yes);
            },
        }
    }
}

/// What has happened so far.
pub struct ThemeFacts {
    /// No transaction was unresolved.
    pub pending_checked: bool,
    /// The theme was found.
    pub resolved: bool,
    /// The package was read.
    pub loaded: bool,
    /// The package has native settings.
    pub native_seen: bool,
    pub share_checked: bool,
    /// The debug endpoint answers.
    pub port_ready: bool,
    pub located: bool,
    pub quit: bool,
    pub launched: bool,
    /// The native settings were written into the running Codex.
    pub hot_written: bool,
    /// It was tried to write them there.
    pub hot_tried: bool,
    /// The native settings were written into the configuration under a transaction.
    pub file_applied: bool,
    /// The daemon was told which theme to keep.
    pub directive_sent: bool,
    /// The daemon confirmed the theme, or the configuration holds it.
    pub confirmed: bool,
    /// It was tried to turn the live theme off.
    pub turned_off: bool,
    pub connected: bool,
    /// Codex does not run.
    pub stopped: bool,
    /// The values from before the try-on are back.
    pub restored: bool,
    /// The configuration file was written.
    pub file_written: bool,
    /// There was a stash when cancelling began.
    pub stash_seen: bool,
    pub stash_removed: bool,
    /// It was tried to remove the stash.
    pub removal_tried: bool,
}

/// What a step adds to what has happened. A step that failed has only been tried. Where no
/// debug endpoint answers, what was read and checked so far counts no more.
pub open spec fn theme_effect(
    step: ThemeStep,
    event: ThemeEvent,
    was: ThemeFacts,
) -> ThemeFacts {
    if event is Failed {
        match step {
            ThemeStep::HotApply => ThemeFacts { hot_tried: true, ..was },
            ThemeStep::TurnOffLive => ThemeFacts { turned_off: true, ..was },
            ThemeStep::RemoveStash => ThemeFacts { removal_tried: true, ..was },
            _ => was,
        }
    } else {
        match step {
            ThemeStep::CheckPending => ThemeFacts { pending_checked: true, ..was },
            ThemeStep::ResolveTheme => ThemeFacts { resolved: true, ..was },
            ThemeStep::LoadTheme => ThemeFacts { loaded: true, ..was },
            ThemeStep::ParseNative => ThemeFacts { native_seen: event is Yes, ..was },
            ThemeStep::CheckShareStrings => ThemeFacts { share_checked: true, ..was },
            ThemeStep::ProbePort => if event is Yes {
                ThemeFacts { port_ready: true, ..was }
            } else {
                ThemeFacts {
                    port_ready: false,
                    pending_checked: false,
                    resolved: false,
                    loaded: false,
                    share_checked: false,
                    ..was
                }
            },
            ThemeStep::LocateInstall => ThemeFacts { located: true, ..was },
            ThemeStep::QuitCodex => ThemeFacts { quit: true, ..was },
            ThemeStep::LaunchDebuggable => ThemeFacts { launched: true, ..was },
            ThemeStep::AwaitPort => ThemeFacts { port_ready: true, ..was },
            ThemeStep::HotApply => ThemeFacts { hot_tried: true, hot_written: true, ..was },
            ThemeStep::SendDirective => ThemeFacts { directive_sent: true, ..was },
            ThemeStep::ConfirmTheme => ThemeFacts { confirmed: true, ..was },
            ThemeStep::FileApply => ThemeFacts {
                confirmed: true,
                file_written: true,
                file_applied: true,
                ..was
            },
            ThemeStep::TurnOffLive => ThemeFacts { turned_off: true, ..was },
            ThemeStep::ConnectTargets => ThemeFacts { connected: true, ..was },
            ThemeStep::ProbeRunning => ThemeFacts { stopped: !(event is Yes), ..was },
            ThemeStep::WriteStashValues => ThemeFacts { restored: true, ..was },
            ThemeStep::WriteSnapshot => ThemeFacts { restored: true, file_written: true, ..was },
            ThemeStep::ReadStash => ThemeFacts { stash_seen: event is Yes, ..was },
            ThemeStep::RemoveStash => ThemeFacts {
                stash_removed: true,
                removal_tried: true,
                ..was
            },
            ThemeStep::Finished => was,
        }
    }
}

/// Whether the theme's native settings are where they are wanted: for applying they were
/// written into Codex or into the configuration, and for trying on they were written into
/// Codex where the package has any.
pub open spec fn native_in_place(intent: Intent, facts: ThemeFacts) -> bool {
    match intent {
        Intent::Apply => facts.hot_written || facts.file_applied,
        Intent::Cancel => true,
        _ => facts.native_seen ==> facts.hot_written,
    }
}

/// The steps that can come after the native settings were to be written into Codex.
pub open spec fn past_hot(step: ThemeStep) -> bool {
    step == ThemeStep::SendDirective || step == ThemeStep::ConfirmTheme || step
        == ThemeStep::FileApply || step == ThemeStep::RemoveStash || step == ThemeStep::Finished
}

/// What must have happened before each step, and before a good end.
pub open spec fn theme_prepared(flow: ThemeView, facts: ThemeFacts) -> bool {
    let apply = flow.intent == Intent::Apply;
    let package = facts.pending_checked && facts.resolved && facts.loaded;
    let checked = package && (apply ==> facts.share_checked && flow.native);
    let restarted = facts.located && facts.quit && facts.launched;
    let shown = checked && facts.port_ready && native_in_place(flow.intent, facts) && (flow.restart
        ==> restarted);
    &&& match flow.step {
        ThemeStep::CheckPending => !facts.hot_tried && !facts.directive_sent && !facts.quit,
        ThemeStep::ResolveTheme => facts.pending_checked,
        ThemeStep::LoadTheme => facts.pending_checked && facts.resolved,
        ThemeStep::ParseNative => package && (flow.intent == Intent::TryOn ==> facts.port_ready),
        ThemeStep::CheckShareStrings => package && flow.native,
        ThemeStep::ProbePort => if flow.intent == Intent::Cancel {
            facts.turned_off && facts.stash_seen
        } else if apply {
            checked && !flow.restart
        } else {
            package
        },
        ThemeStep::LocateInstall => checked && flow.restart,
        ThemeStep::QuitCodex => checked && flow.restart && facts.located,
        ThemeStep::LaunchDebuggable => checked && flow.restart && facts.located && facts.quit,
        ThemeStep::AwaitPort => checked && flow.restart && restarted,
        ThemeStep::HotApply => checked && facts.port_ready && (flow.restart ==> restarted),
        ThemeStep::SendDirective => shown && !facts.file_applied,
        ThemeStep::ConfirmTheme => shown && facts.hot_written && facts.directive_sent,
        ThemeStep::FileApply => checked && facts.hot_tried && !facts.hot_written,
        ThemeStep::TurnOffLive => !facts.turned_off,
        ThemeStep::ReadStash => facts.turned_off,
        ThemeStep::ConnectTargets => facts.stash_seen && facts.port_ready,
        ThemeStep::WriteStashValues => facts.stash_seen && facts.port_ready && facts.connected,
        ThemeStep::ProbeRunning => facts.stash_seen && !facts.port_ready,
        ThemeStep::WriteSnapshot => facts.stash_seen && !facts.port_ready && facts.stopped,
        ThemeStep::RemoveStash => if apply {
            shown && facts.hot_written && facts.directive_sent && facts.confirmed
        } else {
            facts.turned_off && facts.stash_seen && facts.restored
        },
        ThemeStep::Finished => flow.error is None ==> match flow.intent {
            Intent::Cancel => facts.turned_off && (facts.stash_seen ==> facts.restored
                && facts.removal_tried),
            Intent::Apply => checked && native_in_place(flow.intent, facts) && (facts.file_applied
                || (shown && facts.hot_written && facts.directive_sent && facts.removal_tried)),
            _ => shown && facts.directive_sent,
        },
    }
    &&& facts.quit ==> flow.restart
    &&& facts.hot_written ==> facts.hot_tried
    &&& facts.hot_tried ==> past_hot(flow.step)
    &&& facts.directive_sent ==> flow.step == ThemeStep::ConfirmTheme || flow.step
        == ThemeStep::RemoveStash || flow.step == ThemeStep::Finished
    &&& facts.quit ==> past_hot(flow.step) || flow.step == ThemeStep::HotApply || flow.step
        == ThemeStep::LaunchDebuggable || flow.step == ThemeStep::AwaitPort
    &&& facts.file_applied ==> flow.step == ThemeStep::Finished
    &&& flow.intent == Intent::Cancel && flow.step != ThemeStep::TurnOffLive ==> facts.turned_off
    &&& !apply && (flow.step == ThemeStep::CheckPending || flow.step == ThemeStep::ResolveTheme
        || flow.step == ThemeStep::LoadTheme || flow.step == ThemeStep::ParseNative || flow.step
        == ThemeStep::ProbePort) ==> !facts.native_seen
    &&& flow.intent == Intent::TryOn ==> !flow.restart
    &&& flow.intent == Intent::TryOnRestart ==> flow.restart
    &&& flow.intent == Intent::Cancel ==> !flow.restart && !facts.hot_tried && !facts.directive_sent
        && !facts.native_seen
    &&& !apply ==> !facts.file_applied
    &&& facts.native_seen && flow.intent == Intent::TryOnRestart ==> flow.native
    &&& facts.hot_tried && !apply ==> facts.native_seen
    &&& flow.step == ThemeStep::HotApply && !apply ==> facts.native_seen
    &&& flow.intent == Intent::TryOnRestart && flow.native ==> facts.native_seen
}

/// The steps that an intent can come to.
pub open spec fn belongs(intent: Intent, step: ThemeStep) -> bool {
    match step {
        ThemeStep::Finished => true,
        ThemeStep::ProbePort => intent != Intent::TryOnRestart,
        ThemeStep::CheckShareStrings => intent == Intent::Apply,
        ThemeStep::ConfirmTheme => intent == Intent::Apply,
        ThemeStep::FileApply => intent == Intent::Apply,
        ThemeStep::RemoveStash => intent == Intent::Apply || intent == Intent::Cancel,
        ThemeStep::TurnOffLive => intent == Intent::Cancel,
        ThemeStep::ReadStash => intent == Intent::Cancel,
        ThemeStep::ConnectTargets => intent == Intent::Cancel,
        ThemeStep::WriteStashValues => intent == Intent::Cancel,
        ThemeStep::ProbeRunning => intent == Intent::Cancel,
        ThemeStep::WriteSnapshot => intent == Intent::Cancel,
        ThemeStep::LocateInstall => intent == Intent::Apply || intent == Intent::TryOnRestart,
        ThemeStep::QuitCodex => intent == Intent::Apply || intent == Intent::TryOnRestart,
        ThemeStep::LaunchDebuggable => intent == Intent::Apply || intent == Intent::TryOnRestart,
        ThemeStep::AwaitPort => intent == Intent::Apply || intent == Intent::TryOnRestart,
        _ => intent != Intent::Cancel,
    }
}

/// What holds of what has happened at each step.
pub open spec fn theme_holds(flow: ThemeView, facts: ThemeFacts) -> bool {
    &&& theme_prepared(flow, facts)
    &&& belongs(flow.intent, flow.step)
    &&& flow.step != ThemeStep::Finished ==> flow.error is None
    &&& facts.stash_removed ==> flow.step == ThemeStep::Finished && (facts.confirmed
        || facts.restored)
    &&& flow.step == ThemeStep::RemoveStash ==> (if flow.intent == Intent::Apply {
        facts.confirmed
    } else {
        facts.restored
    })
    &&& facts.confirmed ==> flow.intent == Intent::Apply
    &&& facts.restored ==> flow.intent == Intent::Cancel
    &&& facts.file_written ==> flow.intent == Intent::Apply || flow.intent == Intent::Cancel
    &&& flow.step == ThemeStep::Finished && flow.error is None ==> match flow.intent {
        Intent::Apply => facts.confirmed,
        Intent::Cancel => facts.restored || !facts.stash_seen,
        _ => !facts.file_written && !facts.stash_removed,
    }
    &&& flow.step == ThemeStep::TurnOffLive || flow.step == ThemeStep::ReadStash
        ==> !facts.stash_seen
    &&& flow.step == ThemeStep::ProbePort && flow.intent == Intent::Apply ==> !flow.restart
}

/// A theme operation that ends without an error has done what was wanted: applying
/// was confirmed and the native settings are written, a try-on has written those that
/// the package has and named the theme to the daemon, cancelling has put the values from
/// before the try-on back. Nothing is changed before the package is read and checked, and
/// Codex is stopped only to restart it. A try-on never writes the configuration and never
/// removes the stash, and the stash is removed only after a confirmed apply or a successful
/// cancel.
#[verifier::rlimit(60)]
pub proof fn law_theme_flow_keeps_its_promise(
    flow: ThemeView,
    event: ThemeEvent,
    facts: ThemeFacts,
)
    requires
        theme_holds(flow, facts),
        flow.step != ThemeStep::Finished,
    ensures
        theme_holds(flow.next(event), theme_effect(flow.step, event, facts)),
{
}

/// The flow after a row of steps.
pub open spec fn theme_end(flow: ThemeView, events: Seq<ThemeEvent>) -> ThemeView
    decreases events.len(),
{
    if events.len() == 0 {
        flow
    } else {
        theme_end(flow, events.drop_last()).next(events.last())
    }
}

/// What has happened after a row of steps.
pub open spec fn theme_facts(flow: ThemeView, events: Seq<ThemeEvent>) -> ThemeFacts
    decreases events.len(),
{
    if events.len() == 0 {
        ThemeFacts {
            pending_checked: false,
            resolved: false,
            loaded: false,
            native_seen: false,
            share_checked: false,
            port_ready: false,
            located: false,
            quit: false,
            launched: false,
            hot_written: false,
            hot_tried: false,
            file_applied: false,
            directive_sent: false,
            confirmed: false,
            turned_off: false,
            connected: false,
            stopped: false,
            restored: false,
            file_written: false,
            stash_seen: false,
            stash_removed: false,
            removal_tried: false,
        }
    } else {
        let before = events.drop_last();
        theme_effect(theme_end(flow, before).step, events.last(), theme_facts(flow, before))
    }
}

/// Whether no step comes after the end.
pub open spec fn theme_possible(flow: ThemeView, events: Seq<ThemeEvent>) -> bool
    decreases events.len(),
{
    events.len() == 0 || (theme_possible(flow, events.drop_last()) && theme_end(
        flow,
        events.drop_last(),
    ).step != ThemeStep::Finished)
}

/// How many steps can still come at most.
pub open spec fn theme_rank(flow: ThemeView) -> nat {
    let again: nat = if flow.restart {
        0
    } else {
        30
    };
    match flow.step {
        ThemeStep::CheckPending => again + 20,
        ThemeStep::ResolveTheme => again + 19,
        ThemeStep::LoadTheme => again + 18,
        ThemeStep::ParseNative => again + 16,
        ThemeStep::CheckShareStrings => again + 15,
        ThemeStep::TurnOffLive => again + 16,
        ThemeStep::ReadStash => again + 15,
        ThemeStep::ProbePort => if flow.intent == Intent::TryOn {
            again + 17
        } else {
            again + 14
        },
        ThemeStep::LocateInstall => 12,
        ThemeStep::QuitCodex => 11,
        ThemeStep::LaunchDebuggable => 10,
        ThemeStep::AwaitPort => 9,
        ThemeStep::HotApply => 8,
        ThemeStep::SendDirective => 7,
        ThemeStep::ConfirmTheme => 6,
        ThemeStep::ConnectTargets => 5,
        ThemeStep::ProbeRunning => 5,
        ThemeStep::WriteStashValues => 4,
        ThemeStep::WriteSnapshot => 4,
        ThemeStep::FileApply => 1,
        ThemeStep::RemoveStash => 1,
        ThemeStep::Finished => 0,
    }
}

proof fn lemma_theme_rank(flow: ThemeView, event: ThemeEvent, facts: ThemeFacts)
    requires
        theme_holds(flow, facts),
        flow.step != ThemeStep::Finished,
    ensures
        theme_rank(flow.next(event)) < theme_rank(flow),
        flow.next(event).intent == flow.intent,
{
}

/// A flow that has not begun.
pub open spec fn theme_fresh(flow: ThemeView) -> bool {
    &&& flow.step == (if flow.intent == Intent::Cancel {
        ThemeStep::TurnOffLive
    } else {
        ThemeStep::CheckPending
    })
    &&& flow.error is None
    &&& !flow.native
    &&& flow.restart == (flow.intent == Intent::TryOnRestart)
}

/// Over a whole run, from a flow that has not begun: what has happened is at every
/// moment what the current step expects, and the run comes to an end.
pub proof fn law_every_theme_run_keeps_its_promise(flow: ThemeView, events: Seq<ThemeEvent>)
    requires
        theme_fresh(flow),
        theme_possible(flow, events),
    ensures
        theme_holds(theme_end(flow, events), theme_facts(flow, events)),
        theme_end(flow, events).intent == flow.intent,
        events.len() + theme_rank(theme_end(flow, events)) <= theme_rank(flow),
    decreases events.len(),
{
    if events.len() > 0 {
        let before = events.drop_last();
        law_every_theme_run_keeps_its_promise(flow, before);
        law_theme_flow_keeps_its_promise(
            theme_end(flow, before),
            events.last(),
            theme_facts(flow, before),
        );
        lemma_theme_rank(theme_end(flow, before), events.last(), theme_facts(flow, before));
    }
}

/// Over every run that has ended without an error: where the package has native settings,
/// which it must have for applying, they were written into the running Codex, or for applying
/// into the configuration instead.
pub proof fn law_native_settings_are_written(flow: ThemeView, events: Seq<ThemeEvent>)
    requires
        theme_fresh(flow),
        theme_possible(flow, events),
        theme_end(flow, events).step == ThemeStep::Finished,
        theme_end(flow, events).error is None,
    ensures
        flow.intent == Intent::Apply ==> theme_facts(flow, events).hot_written || theme_facts(
            flow,
            events,
        ).file_applied,
        flow.intent == Intent::TryOn || flow.intent == Intent::TryOnRestart ==> (theme_facts(
            flow,
            events,
        ).native_seen ==> theme_facts(flow, events).hot_written),
        flow.intent != Intent::Cancel ==> theme_facts(flow, events).directive_sent || theme_facts(
            flow,
            events,
        ).file_applied,
{
    law_every_theme_run_keeps_its_promise(flow, events);
}

/// A theme operation fails for a cause: a step that failed, a try-on without a debug endpoint,
/// or cancelling while Codex runs without one. It ends then. Only five steps may fail without
/// failing it: the hot write of an apply, which the configuration stands in for, the native
/// block of a try-on, and turning off, reading and removing the stash.
pub proof fn law_theme_errors_have_a_cause(flow: ThemeView, event: ThemeEvent)
    requires
        flow.step != ThemeStep::Finished,
        flow.error is None,
    ensures
        ({
            let next = flow.next(event);
            let spared = (flow.step == ThemeStep::HotApply && flow.intent == Intent::Apply) || (
            flow.step == ThemeStep::ParseNative && flow.intent != Intent::Apply) || flow.step
                == ThemeStep::TurnOffLive || flow.step == ThemeStep::ReadStash || flow.step
                == ThemeStep::RemoveStash;
            let closed = flow.step == ThemeStep::ProbePort && flow.intent == Intent::TryOn && !(
            event is Yes);
            let busy = flow.step == ThemeStep::ProbeRunning && event is Yes;
            &&& next.error is Some ==> next.step == ThemeStep::Finished
            &&& event is Failed && spared ==> next.error is None
            &&& event is Failed && !spared ==> next.error == Some(
                if flow.step == ThemeStep::SendDirective {
                    ErrorView::Internal("主题守护未运行"@)
                } else {
                    event->Failed_0@
                },
            )
            &&& !(event is Failed) && closed ==> next.error == Some(
                ErrorView::Engine("codex-not-debuggable: Codex 未以调试模式运行"@),
            )
            &&& busy ==> next.error == Some(
                ErrorView::Engine(
                    "Codex 正在运行但没有调试端口，暂时无法撤销原生试穿——退出 Codex 后重试，或使用完全恢复"@,
                ),
            )
            &&& !(event is Failed) && !closed && !busy ==> next.error is None
        }),
{
}

/// Codex is restarted only where that is wanted: never for a try-on in a running Codex or for
/// cancelling, always for a try-on with restart, and for applying only where the debug
/// endpoint does not answer.
pub proof fn law_codex_is_restarted_only_where_wanted(flow: ThemeView, events: Seq<ThemeEvent>)
    requires
        theme_fresh(flow),
        theme_possible(flow, events),
    ensures
        flow.intent == Intent::TryOn || flow.intent == Intent::Cancel ==> !theme_facts(
            flow,
            events,
        ).quit,
        theme_end(flow, events).restart && flow.intent == Intent::Apply ==> exists|k: int|
            0 <= k < events.len() && #[trigger] theme_end(flow, events.take(k)).step
                == ThemeStep::ProbePort && !(events[k] is Yes),
        flow.intent == Intent::TryOnRestart && theme_end(flow, events).step == ThemeStep::Finished
            && theme_end(flow, events).error is None ==> theme_facts(flow, events).quit
            && theme_facts(flow, events).launched,
    decreases events.len(),
{
    law_every_theme_run_keeps_its_promise(flow, events);
    if events.len() > 0 && theme_end(flow, events).restart && flow.intent == Intent::Apply {
        let before = events.drop_last();
        law_codex_is_restarted_only_where_wanted(flow, before);
        law_every_theme_run_keeps_its_promise(flow, before);
        let n = before.len() as int;
        assert(events.take(n) =~= before);
        if theme_end(flow, before).restart {
            let k = choose|k: int|
                0 <= k < before.len() && #[trigger] theme_end(flow, before.take(k)).step
                    == ThemeStep::ProbePort && !(before[k] is Yes);
            assert(events.take(k) =~= before.take(k));
            assert(theme_end(flow, events.take(k)).step == ThemeStep::ProbePort);
        } else {
            assert(theme_end(flow, events.take(n)).step == ThemeStep::ProbePort);
        }
    }
}


// ---------------------------------------------------------------------------
// Smaller decisions
// ---------------------------------------------------------------------------

/// The daemon as the manager sees it.
#[derive(Debug)]
pub struct DaemonStatus {
    pub theme_id: Option<String>,
    pub connected_targets: usize,
    pub last_error: Option<String>,
}

/// Whether the daemon has the theme on at least one connected window, without error.
pub open spec fn confirms(status: DaemonStatus, theme_id: Seq<char>) -> bool {
    &&& text_view(status.theme_id) == Some(theme_id)
    &&& status.connected_targets > 0
    &&& status.last_error is None
}

/// What to do after looking at the daemon.
#[derive(Debug)]
pub enum Poll {
    Confirmed,
    Again,
    TimedOut(AppError),
}

/// Whether to go on waiting for the daemon. A confirmation counts even at the
/// deadline.
pub fn poll_daemon(status: &Option<DaemonStatus>, theme_id: &str, past_deadline: bool) -> (r: Poll)
    ensures
        match r {
            Poll::Confirmed => *status matches Some(s) && confirms(s, theme_id@),
            Poll::Again => !past_deadline && !(*status matches Some(s) && confirms(
                s,
                theme_id@,
            )),
            Poll::TimedOut(e) => past_deadline && !(*status matches Some(s) && confirms(
                s,
                theme_id@,
            )) && e@ == ErrorView::Engine("注入确认超时：守护未能在 Codex 窗口确认主题"@),
        },
{
    match status {
        Some(s) => {
            let same = match &s.theme_id {
                Some(id) => str_eq(id.as_str(), theme_id),
                None => false,
            };
            if same && s.connected_targets > 0 && s.last_error.is_none() {
                return Poll::Confirmed;
            }
        },
        None => {},
    }
    if past_deadline {
        return Poll::TimedOut(engine("注入确认超时：守护未能在 Codex 窗口确认主题"));
    }
    Poll::Again
}

/// Whether to go on waiting for the debug port.
pub fn poll_port(ready: bool, past_deadline: bool) -> (r: Poll)
    ensures
        match r {
            Poll::Confirmed => ready,
            Poll::Again => !ready && !past_deadline,
            Poll::TimedOut(e) => !ready && past_deadline && e@ == ErrorView::Engine(
                "Codex 已启动但调试端口未就绪"@,
            ),
        },
{
    if ready {
        Poll::Confirmed
    } else if past_deadline {
        Poll::TimedOut(engine("Codex 已启动但调试端口未就绪"))
    } else {
        Poll::Again
    }
}

/// Refuses a theme operation that restarts Codex while another operation runs.
pub fn ensure_theme_may_restart_codex(operation_running: bool) -> (r: Result<(), AppError>)
    ensures
        match r {
            Ok(()) => !operation_running,
            Err(e) => operation_running && e@ == ErrorView::Engine("有正在进行的操作，请稍后再试"@),
        },
{
    if operation_running {
        Err(engine("有正在进行的操作，请稍后再试"))
    } else {
        Ok(())
    }
}

/// Whether a launch goes through the theme: a theme is selected, the platform has
/// themes, and no operation is running.
pub fn launches_themed(selected: &Option<String>, supported: bool, operation_running: bool) -> (r:
    bool)
    ensures
        r == (selected is Some && supported && !operation_running),
{
    selected.is_some() && supported && !operation_running
}

/// Whether the launch was themed; a theme that could not be applied never stands in
/// the way of a plain launch.
pub fn themed_launch_done(selected: &Option<String>, supported: bool, applied: bool) -> (r: bool)
    ensures
        r == (selected is Some && supported && applied),
{
    selected.is_some() && supported && applied
}

/// Whether the stash of a try-on is written back at startup: a try-on was left
/// behind, nothing was kept, and Codex is not running.
pub fn restores_stash_on_startup(
    stash_there: bool,
    selected: &Option<String>,
    codex_running: bool,
) -> (r: bool)
    ensures
        r == (stash_there && selected is None && !codex_running),
{
    stash_there && selected.is_none() && !codex_running
}

/// The settings from before a try-on.
#[derive(Debug)]
pub struct TryOnStash {
    pub saved_at: String,
    /// The theme that was tried on.
    pub theme_id: String,
    pub settings: String,
}

/// When a stash was saved, in seconds since the epoch.
pub open spec fn saved_at(seconds: u64) -> Seq<char> {
    "unix:"@ + decimal(seconds as nat)
}

/// The stash once a try-on has begun: the one that is there, or else one of the
/// current settings. Switching themes keeps the first.
pub fn stash_for_try_on(
    stash: Option<TryOnStash>,
    theme_id: &str,
    settings: &str,
    seconds: u64,
) -> (r: TryOnStash)
    ensures
        match stash {
            Some(s) => r == s,
            None => r.saved_at@ == saved_at(seconds) && r.theme_id@ == theme_id@ && r.settings@
                == settings@,
        },
{
    match stash {
        Some(s) => s,
        None => {
            let mut when = chars_of("unix:");
            let digits = decimal_of(seconds);
            push_all(&mut when, digits.as_slice());
            TryOnStash {
                saved_at: string_of(when.as_slice()),
                theme_id: text_of(theme_id),
                settings: text_of(settings),
            }
        },
    }
}

/// Keeping a theme consumes the stash of its try-on.
pub fn consume_try_on_stash(stash: &mut Option<TryOnStash>)
    ensures
        *final(stash) is None,
{
    *stash = None;
}

/// The selection after a theme is turned off: only a full restore clears it.
pub fn selection_after_off(selected: Option<String>, full: bool) -> (r: Option<String>)
    ensures
        full ==> r is None,
        !full ==> text_view(r) == text_view(selected),
{
    if full {
        None
    } else {
        selected
    }
}

/// The state of theming, for the user interface.
#[derive(Debug)]
pub struct ThemeStatusReport {
    /// Whether this platform can theme Codex.
    pub supported: bool,
    /// The persisted selection, which launches will apply.
    pub active_theme: Option<String>,
    /// The daemon, when one is running.
    pub daemon: Option<DaemonStatus>,
    /// A debug endpoint answers.
    pub cdp_ready: bool,
    /// Codex is running.
    pub codex_running: bool,
    /// A baseline exists, so a full restore is possible.
    pub native_backup_present: bool,
    /// Where skins live.
    pub store_dir: Option<String>,
    /// A stash exists, so a try-on can be undone.
    pub try_on_stash: bool,
    /// An unresolved transaction blocks native theme operations.
    pub recovery_required: bool,
}

/// The state of theming. A baseline that could not be looked for counts as missing,
/// and so does a transaction.
pub fn theme_status(
    settings: &AppSettings,
    platform_store: &Option<String>,
    supported: bool,
    daemon: Option<DaemonStatus>,
    cdp_ready: bool,
    codex_running: bool,
    backup: Option<bool>,
    stash_there: bool,
    pending: Option<bool>,
) -> (r: ThemeStatusReport)
    ensures
        r.supported == supported,
        text_view(r.active_theme) == text_view(settings.codex_theme),
        r.daemon == daemon,
        r.cdp_ready == cdp_ready,
        r.codex_running == codex_running,
        r.native_backup_present == (backup == Some(true)),
        text_view(r.store_dir) == store_place(
            text_view(settings.codex_theme_store_dir),
            text_view(*platform_store),
        ),
        r.try_on_stash == stash_there,
        r.recovery_required == (pending == Some(true)),
{
    let store = match store_dir(settings, platform_store) {
        Ok(dir) => Some(dir),
        Err(_) => None,
    };
    ThemeStatusReport {
        supported,
        active_theme: copy_text(&settings.codex_theme),
        daemon,
        cdp_ready,
        codex_running,
        native_backup_present: matches!(backup, Some(true)),
        store_dir: store,
        try_on_stash: stash_there,
        recovery_required: matches!(pending, Some(true)),
    }
}

/// The native settings of a package for applying it: they must be there and whole.
/// `block` is what parsing made of them, where there are any.
pub fn strict_native<T>(block: Option<Result<T, String>>) -> (r: Result<T, AppError>)
    ensures
        match (block, r) {
            (Some(Ok(t)), Ok(u)) => t == u,
            (Some(Err(reason)), Err(e)) => e@ == ErrorView::Engine(reason@),
            (None, Err(e)) => e@ == ErrorView::Engine(
                "该主题包没有 codexTheme 原生主题块，无法完整应用"@,
            ),
            _ => false,
        },
{
    match block {
        Some(Ok(t)) => Ok(t),
        Some(Err(reason)) => Err(AppError::Engine(reason)),
        None => Err(engine("该主题包没有 codexTheme 原生主题块，无法完整应用")),
    }
}

/// The native settings of a package for trying it on: what cannot be read is left
/// out.
pub fn lenient_native<T>(block: Option<Result<T, String>>) -> (r: Option<T>)
    ensures
        match block {
            Some(Ok(t)) => r == Some(t),
            _ => r is None,
        },
{
    match block {
        Some(Ok(t)) => Some(t),
        _ => None,
    }
}

/// The arguments that open the macOS application with a debug port on the loopback
/// address.
pub open spec fn debug_launch_args(path: Seq<char>, port: u16) -> Seq<Seq<char>> {
    seq![
        "-n"@,
        "-a"@,
        path,
        "--args"@,
        "--remote-debugging-address=127.0.0.1"@,
        "--remote-debugging-port="@ + decimal(port as nat),
    ]
}

/// The arguments that open the macOS application with a debug port.
pub fn launch_codex_with_cdp(path: &str, port: u16) -> (r: Vec<String>)
    ensures
        texts_of(r@) == debug_launch_args(path@, port),
{
    let mut last = chars_of("--remote-debugging-port=");
    let digits = decimal_of(port as u64);
    push_all(&mut last, digits.as_slice());
    let mut args: Vec<String> = Vec::new();
    args.push(text_of("-n"));
    args.push(text_of("-a"));
    args.push(text_of(path));
    args.push(text_of("--args"));
    args.push(text_of("--remote-debugging-address=127.0.0.1"));
    args.push(string_of(last.as_slice()));
    assert(texts_of(args@) =~= debug_launch_args(path@, port));
    args
}

/// Refuses to launch an application that is no longer where it was.
pub fn check_launch_path(same: bool, installed: &str, detected: &str) -> (r: Result<(), AppError>)
    ensures
        match r {
            Ok(()) => same,
            Err(e) => !same && e@ == ErrorView::Engine(
                "Codex 安装位置在重启前发生变化："@ + installed@ + " -> "@ + detected@,
            ),
        },
{
    if same {
        return Ok(());
    }
    let mut words = chars_of("Codex 安装位置在重启前发生变化：");
    push_str(&mut words, installed);
    push_str(&mut words, " -> ");
    push_str(&mut words, detected);
    Err(AppError::Engine(string_of(words.as_slice())))
}

/// The port on which Codex is debugged.
pub const THEME_CDP_PORT: u16 = 9345;

} // verus!

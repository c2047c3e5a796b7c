//! The native shell: quitting, the main window, the handshake with the user
//! interface, the menu, and what happens when the manager starts.

use vstd::prelude::*;
use crate::errors::{said, said_around, AppError, ErrorView};
use crate::operations::OperationPhase;
use crate::text::{chars_of, push_str, str_eq, string_of, text_of};
use crate::url_policy::text_view;

verus! {

/// The name of the manager.
pub const PRODUCT_NAME: &'static str = "Codex App Manager";

/// The global that holds the readiness token of a document.
pub const FRONTEND_READY_GLOBAL: &'static str = "__CAM_FRONTEND_READY__";

/// The event that tells a document its readiness token.
pub const FRONTEND_READY_EVENT: &'static str = "cam:frontend-readiness";

// ---------------------------------------------------------------------------
// Quitting
// ---------------------------------------------------------------------------

/// Whether the manager may quit.
#[derive(Debug)]
pub enum QuitPolicy {
    Allow,
    /// Ask the user first.
    Confirm,
    /// A protected operation is running.
    Block {
        phase: OperationPhase,
        reason_code: String,
        reason: String,
        kind: Option<String>,
    },
}

/// A quit policy with its texts as characters.
pub enum QuitView {
    Allow,
    Confirm,
    Block {
        phase: OperationPhase,
        reason_code: Seq<char>,
        reason: Seq<char>,
        kind: Option<Seq<char>>,
    },
}

impl View for QuitPolicy {
    type V = QuitView;

    open spec fn view(&self) -> QuitView {
        match self {
            QuitPolicy::Allow => QuitView::Allow,
            QuitPolicy::Confirm => QuitView::Confirm,
            QuitPolicy::Block { phase, reason_code, reason, kind } => QuitView::Block {
                phase: *phase,
                reason_code: reason_code@,
                reason: reason@,
                kind: text_view(*kind),
            },
        }
    }
}

impl QuitPolicy {
    /// The same policy once more.
    pub fn copy(&self) -> (r: QuitPolicy)
        ensures
            r@ == self@,
    {
        match self {
            QuitPolicy::Allow => QuitPolicy::Allow,
            QuitPolicy::Confirm => QuitPolicy::Confirm,
            QuitPolicy::Block { phase, reason_code, reason, kind } => QuitPolicy::Block {
                phase: *phase,
                reason_code: text_of(reason_code.as_str()),
                reason: text_of(reason.as_str()),
                kind: match kind {
                    Some(k) => Some(text_of(k.as_str())),
                    None => None,
                },
            },
        }
    }
}

/// What the shell tells the user interface.
#[derive(Debug)]
pub enum ShellEvent {
    ConfirmQuit,
    QuitBlocked(QuitPolicy),
}

/// The policy in effect: once quitting is forced it is allowed, whatever the
/// operations say.
pub fn quit_policy(forced: bool, decided: QuitPolicy) -> (r: QuitPolicy)
    ensures
        r@ == (if forced {
            QuitView::Allow
        } else {
            decided@
        }),
{
    if forced {
        QuitPolicy::Allow
    } else {
        decided
    }
}

/// Whether a plain request to quit exits: only where nothing is to be asked.
pub open spec fn exits(policy: QuitView) -> bool {
    policy is Allow
}

/// Whether a confirmed request to quit exits: a protected operation never lets it.
pub open spec fn exits_confirmed(policy: QuitView) -> bool {
    !(policy is Block)
}

/// What follows from a quit policy: the manager exits, or the user interface is told.
pub fn apply_quit_policy(policy: &QuitPolicy) -> (r: Option<ShellEvent>)
    ensures
        r is None == exits(policy@),
        match (policy@, r) {
            (QuitView::Allow, None) => true,
            (QuitView::Confirm, Some(ShellEvent::ConfirmQuit)) => true,
            (QuitView::Block { .. }, Some(ShellEvent::QuitBlocked(p))) => p@ == policy@,
            _ => false,
        },
{
    match policy {
        QuitPolicy::Allow => None,
        QuitPolicy::Confirm => Some(ShellEvent::ConfirmQuit),
        QuitPolicy::Block { .. } => Some(ShellEvent::QuitBlocked(policy.copy())),
    }
}

/// Whether a confirmation in a native dialog lets the manager exit.
pub fn native_confirm_allows_exit(policy: &QuitPolicy) -> (r: bool)
    ensures
        r == exits_confirmed(policy@),
{
    match policy {
        QuitPolicy::Block { .. } => false,
        _ => true,
    }
}

/// What the user's confirmation comes to: the manager exits, or the error that it is
/// busy, for the reason that the policy gives.
pub fn confirm_quit(policy: &QuitPolicy) -> (r: Result<(), AppError>)
    ensures
        r is Ok == exits_confirmed(policy@),
        match r {
            Ok(()) => !(policy@ is Block),
            Err(e) => policy@ matches QuitView::Block { reason, .. } && e@ == ErrorView::Busy(
                reason,
            ),
        },
{
    match policy {
        QuitPolicy::Block { phase: _, reason_code: _, reason, kind: _ } => Err(
            AppError::Busy(text_of(reason.as_str())),
        ),
        _ => Ok(()),
    }
}

/// While a protected operation runs, no request to quit exits, confirmed or not,
/// unless quitting is forced.
pub proof fn law_protected_operations_block_every_exit(policy: QuitView)
    requires
        policy is Block,
    ensures
        !exits(policy),
        !exits_confirmed(policy),
{
}

/// The buttons of a dialog.
#[derive(Debug)]
pub enum DialogButtons {
    OkCancel(String, String),
    Acknowledge(String),
}

/// A native dialog.
#[derive(Debug)]
pub struct NativeDialog {
    pub title: String,
    pub message: String,
    pub buttons: DialogButtons,
}

/// The words of the dialog for a blocked quit.
pub open spec fn blocked_words(policy: QuitView) -> Seq<char> {
    "Codex App Manager must stay open until the protected step finishes.\n"@ + (match policy {
        QuitView::Block { reason, .. } => reason,
        _ => "A protected operation is still active."@,
    }) + "\n\n受保护步骤完成前，Codex App Manager 必须保持打开。"@
}

/// The native dialog for an event that the user interface did not take.
pub fn native_dialog(event: &ShellEvent) -> (r: NativeDialog)
    ensures
        r.title@ == PRODUCT_NAME@,
        match event {
            ShellEvent::ConfirmQuit => r.message@
                == "The interface is not responding. Quit Codex App Manager safely?\n\n界面没有响应。是否安全退出 Codex App Manager？"@
                && (r.buttons matches DialogButtons::OkCancel(a, b) && a@ == "Quit / 退出"@ && b@
                == "Keep Open / 保持打开"@),
            ShellEvent::QuitBlocked(policy) => r.message@ == blocked_words(policy@) && (
            r.buttons matches DialogButtons::Acknowledge(a) && a@ == "OK / 知道了"@),
        },
{
    match event {
        ShellEvent::ConfirmQuit => NativeDialog {
            title: text_of(PRODUCT_NAME),
            message: text_of(
                "The interface is not responding. Quit Codex App Manager safely?\n\n界面没有响应。是否安全退出 Codex App Manager？",
            ),
            buttons: DialogButtons::OkCancel(
                text_of("Quit / 退出"),
                text_of("Keep Open / 保持打开"),
            ),
        },
        ShellEvent::QuitBlocked(policy) => {
            let reason = match policy {
                QuitPolicy::Block { phase: _, reason_code: _, reason, kind: _ } => text_of(
                    reason.as_str(),
                ),
                _ => text_of("A protected operation is still active."),
            };
            NativeDialog {
                title: text_of(PRODUCT_NAME),
                message: said_around(
                    "Codex App Manager must stay open until the protected step finishes.\n",
                    reason.as_str(),
                    "\n\n受保护步骤完成前，Codex App Manager 必须保持打开。",
                ),
                buttons: DialogButtons::Acknowledge(text_of("OK / 知道了")),
            }
        },
    }
}

/// What follows when a native dialog is closed.
#[derive(Debug)]
pub enum DialogNext {
    Exit,
    /// Show that quitting is blocked, then go on with the next event.
    Blocked(QuitPolicy),
    /// Go on with the next event.
    Resume,
}

/// What follows when the dialog that asks about quitting is closed. `policy` is what
/// was decided again after the user confirmed.
pub fn after_quit_dialog(confirmed: bool, policy: QuitPolicy) -> (r: DialogNext)
    ensures
        match r {
            DialogNext::Exit => confirmed && exits_confirmed(policy@),
            DialogNext::Blocked(p) => confirmed && !exits_confirmed(policy@) && p@ == policy@,
            DialogNext::Resume => !confirmed,
        },
{
    if !confirmed {
        DialogNext::Resume
    } else if native_confirm_allows_exit(&policy) {
        DialogNext::Exit
    } else {
        DialogNext::Blocked(policy)
    }
}

// ---------------------------------------------------------------------------
// The main window
// ---------------------------------------------------------------------------

/// Whether the browser's own shortcuts work: in development only.
pub fn browser_accelerators_enabled(is_dev: bool) -> (r: bool)
    ensures
        r == is_dev,
{
    is_dev
}

/// Whether the main window is visible from the start. On Windows a release hides it
/// until the browser's shortcuts are off.
pub fn initial_main_window_visibility(
    configured_visible: bool,
    is_windows: bool,
    is_dev: bool,
) -> (r: bool)
    ensures
        r == (configured_visible && (!is_windows || is_dev)),
{
    configured_visible && (!is_windows || is_dev)
}

/// How bringing the window back went: which of the three steps worked, and whether
/// the window has the focus, if that could be told.
#[derive(Debug, Clone, Copy, PartialEq, Eq, Structural)]
pub struct WindowSteps {
    pub unminimized: bool,
    pub shown: bool,
    pub focus_set: bool,
    pub focused: Option<bool>,
}

/// Whether the window may be brought back at all.
#[derive(Debug, Clone, Copy, PartialEq, Eq, Structural)]
pub enum RestoreStart {
    /// The browser's shortcuts are not off yet.
    Deferred,
    /// There is no window.
    Missing,
    Go,
}

/// Whether the window may be brought back: on Windows only once the browser's
/// shortcuts are off.
pub fn may_restore_window(is_windows: bool, safe_to_show: bool, window_there: bool) -> (r:
    RestoreStart)
    ensures
        r == (if is_windows && !safe_to_show {
            RestoreStart::Deferred
        } else if !window_there {
            RestoreStart::Missing
        } else {
            RestoreStart::Go
        }),
{
    if is_windows && !safe_to_show {
        RestoreStart::Deferred
    } else if !window_there {
        RestoreStart::Missing
    } else {
        RestoreStart::Go
    }
}

/// Whether the user's attention is asked for: a step failed, or the window has no
/// focus.
pub fn restore_main_window(steps: WindowSteps) -> (r: bool)
    ensures
        r == !(steps.unminimized && steps.shown && steps.focus_set && steps.focused == Some(
            true,
        )),
{
    let focused = match steps.focused {
        Some(f) => f,
        None => false,
    };
    !(steps.unminimized && steps.shown && steps.focus_set && focused)
}

/// What follows when another instance was started.
#[derive(Debug, Clone, Copy, PartialEq, Eq, Structural)]
pub enum ActivationNext {
    AttentionGated,
    AttentionQueued,
    Restore,
}

/// What follows when another instance was started: the window comes back if it may be
/// shown and the user interface is ready.
pub fn on_second_instance(is_windows: bool, safe_to_show: bool, frontend_ready: bool) -> (r:
    ActivationNext)
    ensures
        r == (if is_windows && !safe_to_show {
            ActivationNext::AttentionGated
        } else if frontend_ready {
            ActivationNext::Restore
        } else {
            ActivationNext::AttentionQueued
        }),
{
    if is_windows && !safe_to_show {
        ActivationNext::AttentionGated
    } else if frontend_ready {
        ActivationNext::Restore
    } else {
        ActivationNext::AttentionQueued
    }
}

impl ActivationNext {
    /// The reason that is given for what follows.
    pub fn reason(self) -> (r: &'static str)
        ensures
            r@ == match self {
                ActivationNext::AttentionGated => "single-instance-webview-gated"@,
                ActivationNext::AttentionQueued => "single-instance-queued"@,
                ActivationNext::Restore => "single-instance"@,
            },
    {
        match self {
            ActivationNext::AttentionGated => "single-instance-webview-gated",
            ActivationNext::AttentionQueued => "single-instance-queued",
            ActivationNext::Restore => "single-instance",
        }
    }
}

/// What follows once the browser's shortcuts were to be turned off.
#[derive(Debug)]
pub enum AcceleratorNext {
    /// The window is safe; bring it back now.
    ShowWindow,
    /// The window is safe; wait for the user interface.
    WaitForFrontend,
    /// The window is not safe: close the manager, and say why.
    Abort(String),
}

/// What follows once the browser's shortcuts were to be turned off.
pub fn configure_windows_browser_accelerators(
    window: &str,
    turned_off: Result<(), String>,
    frontend_presentable: bool,
) -> (r: AcceleratorNext)
    ensures
        match (turned_off, r) {
            (Ok(()), AcceleratorNext::ShowWindow) => frontend_presentable,
            (Ok(()), AcceleratorNext::WaitForFrontend) => !frontend_presentable,
            (Err(e), AcceleratorNext::Abort(words)) => words@
                == "failed to disable browser accelerators window="@ + window@ + ": "@ + e@,
            _ => false,
        },
{
    match turned_off {
        Ok(()) => {
            if frontend_presentable {
                AcceleratorNext::ShowWindow
            } else {
                AcceleratorNext::WaitForFrontend
            }
        },
        Err(e) => {
            let mut words = chars_of("failed to disable browser accelerators window=");
            push_str(&mut words, window);
            push_str(&mut words, ": ");
            push_str(&mut words, e.as_str());
            AcceleratorNext::Abort(string_of(words.as_slice()))
        },
    }
}

// ---------------------------------------------------------------------------
// The handshake with the user interface
// ---------------------------------------------------------------------------

/// The token that a document must show.
#[derive(Debug)]
pub struct FrontendToken {
    pub generation: u64,
    pub token: String,
}

/// A JSON object with a number and a text.
pub uninterp spec fn json_pair(
    number_key: Seq<char>,
    number: u64,
    text_key: Seq<char>,
    text: Seq<char>,
) -> Seq<char>;

/// Calls `serde_json::to_string` on an object with a number and a text under the
/// given keys. The same keys and values always give the same JSON.
#[verifier::external_body]
fn encode_pair(number_key: &str, number: u64, text_key: &str, text: &str) -> (r: String)
    ensures
        r@ == json_pair(number_key@, number, text_key@, text@),
{
    let mut object = serde_json::Map::new();
    object.insert(number_key.to_string(), serde_json::Value::from(number));
    object.insert(text_key.to_string(), serde_json::Value::from(text));
    serde_json::to_string(&serde_json::Value::Object(object)).unwrap_or_default()
}

/// The script that gives a document its token, which is already encoded.
pub open spec fn token_script(encoded: Seq<char>) -> Seq<char> {
    "(() => { const readiness = Object.freeze("@ + encoded
        + "); Object.defineProperty(window, '"@ + FRONTEND_READY_GLOBAL@
        + "', { value: readiness, configurable: true }); window.dispatchEvent(new CustomEvent('"@
        + FRONTEND_READY_EVENT@ + "', { detail: readiness })); })();"@
}

/// The script that gives a document its encoded token.
pub fn readiness_script(encoded: &str) -> (r: String)
    ensures
        r@ == token_script(encoded@),
{
    let mut out = chars_of("(() => { const readiness = Object.freeze(");
    push_str(&mut out, encoded);
    push_str(&mut out, "); Object.defineProperty(window, '");
    push_str(&mut out, FRONTEND_READY_GLOBAL);
    push_str(
        &mut out,
        "', { value: readiness, configurable: true }); window.dispatchEvent(new CustomEvent('",
    );
    push_str(&mut out, FRONTEND_READY_EVENT);
    push_str(&mut out, "', { detail: readiness })); })();");
    string_of(out.as_slice())
}

/// The script that gives a document its token.
pub fn frontend_token_script(readiness: &FrontendToken) -> (r: String)
    ensures
        r@ == token_script(
            json_pair("generation"@, readiness.generation, "token"@, readiness.token@),
        ),
{
    let encoded = encode_pair(
        "generation",
        readiness.generation,
        "token",
        readiness.token.as_str(),
    );
    readiness_script(encoded.as_str())
}

/// A document that showed its token.
#[derive(Debug)]
pub struct FrontendReady {
    pub generation: u64,
    /// It is the first time.
    pub first_ready: bool,
    /// Another instance was started meanwhile.
    pub activation_pending: bool,
    /// What waited for the document.
    pub pending: Vec<ShellEvent>,
}

/// What becomes of a token that a document shows.
#[derive(Debug)]
pub enum FrontendReadyResult {
    Accepted(FrontendReady),
    Stale { current_generation: u64 },
}

/// What follows when a document is ready: bring the window back for a reason, if it is
/// the first time, and then emit what waited.
#[derive(Debug)]
pub struct ReadyActions {
    pub restore: Option<&'static str>,
    pub emit: Vec<ShellEvent>,
}

/// What follows when a document shows its token. An old token is refused.
pub fn frontend_ready(shown: FrontendReadyResult) -> (r: Result<ReadyActions, String>)
    ensures
        match (shown, r) {
            (FrontendReadyResult::Stale { .. }, Err(words)) => words@
                == "stale frontend readiness token"@,
            (FrontendReadyResult::Accepted(ready), Ok(actions)) => actions.emit == ready.pending
                && match actions.restore {
                Some(reason) => ready.first_ready && reason@ == (if ready.activation_pending {
                    "frontend-ready-single-instance"@
                } else {
                    "frontend-ready"@
                }),
                None => !ready.first_ready,
            },
            _ => false,
        },
{
    match shown {
        FrontendReadyResult::Stale { current_generation: _ } => Err(
            text_of("stale frontend readiness token"),
        ),
        FrontendReadyResult::Accepted(ready) => {
            let restore = if ready.first_ready {
                if ready.activation_pending {
                    Some("frontend-ready-single-instance")
                } else {
                    Some("frontend-ready")
                }
            } else {
                None
            };
            Ok(ReadyActions { restore, emit: ready.pending })
        },
    }
}

/// A user interface that has to be done without.
#[derive(Debug)]
pub struct Degraded {
    pub activation_pending: bool,
    pub next_native_event: Option<ShellEvent>,
}

/// Why the user interface has to be done without.
#[derive(Debug, Clone, Copy, PartialEq, Eq, Structural)]
pub enum DegradedCause {
    /// It reported that it failed.
    RootFailed,
    /// It was not ready in time.
    Timeout,
}

/// The reasons for which the window is brought back, in order.
pub open spec fn degraded_reasons(cause: DegradedCause, activation_pending: bool) -> Seq<
    Seq<char>,
> {
    let first = match cause {
        DegradedCause::RootFailed => "frontend-root-failed"@,
        DegradedCause::Timeout => "frontend-ready-timeout"@,
    };
    if activation_pending {
        seq![first, first + "-single-instance"@]
    } else {
        seq![first]
    }
}

/// What follows when the user interface has to be done without: the window is brought
/// back, and the next event is shown natively.
pub fn on_degraded(cause: DegradedCause, degraded: Degraded) -> (r: (
    Vec<String>,
    Option<ShellEvent>,
))
    ensures
        crate::store::texts_of(r.0@) == degraded_reasons(cause, degraded.activation_pending),
        r.1 == degraded.next_native_event,
{
    let first = match cause {
        DegradedCause::RootFailed => "frontend-root-failed",
        DegradedCause::Timeout => "frontend-ready-timeout",
    };
    let mut reasons: Vec<String> = Vec::new();
    reasons.push(text_of(first));
    if degraded.activation_pending {
        reasons.push(said(first, "-single-instance"));
    }
    assert(crate::store::texts_of(reasons@) =~= degraded_reasons(
        cause,
        degraded.activation_pending,
    ));
    (reasons, degraded.next_native_event)
}

/// What becomes of a report that a document failed. One from an old document is
/// refused.
pub fn frontend_failed(report: Option<Degraded>) -> (r: Result<Degraded, String>)
    ensures
        match r {
            Ok(degraded) => report == Some(degraded),
            Err(words) => report is None && words@ == "stale frontend failure token"@,
        },
{
    match report {
        Some(degraded) => Ok(degraded),
        None => Err(text_of("stale frontend failure token")),
    }
}

/// What a page does.
#[derive(Debug, Clone, Copy, PartialEq, Eq, Structural)]
pub enum PageLoad {
    Started,
    Finished,
}

/// What follows when a page loads.
#[derive(Debug)]
pub enum PageNext {
    Ignore,
    /// A new generation begins: wait for it to be ready.
    MarkLoading,
    /// Run this script in the page.
    Inject(String),
    /// The page has no token.
    NoToken,
}

/// What follows when a page of a window loads. Only the main window counts, and its
/// page gets the current token once it is there.
pub fn on_page_load(window: &str, event: PageLoad, token: &Option<FrontendToken>) -> (r: PageNext)
    ensures
        match r {
            PageNext::Ignore => window@ != "main"@,
            PageNext::MarkLoading => window@ == "main"@ && event == PageLoad::Started,
            PageNext::Inject(script) => window@ == "main"@ && event == PageLoad::Finished && (
            *token matches Some(t) && script@ == token_script(
                json_pair("generation"@, t.generation, "token"@, t.token@),
            )),
            PageNext::NoToken => window@ == "main"@ && event == PageLoad::Finished && *token
                is None,
        },
{
    if !str_eq(window, "main") {
        return PageNext::Ignore;
    }
    match event {
        PageLoad::Started => PageNext::MarkLoading,
        PageLoad::Finished => match token {
            Some(t) => PageNext::Inject(frontend_token_script(t)),
            None => PageNext::NoToken,
        },
    }
}

// ---------------------------------------------------------------------------
// The menu
// ---------------------------------------------------------------------------

/// What a menu item of the manager does.
#[derive(Debug, Clone, Copy, PartialEq, Eq, Structural)]
pub enum MenuAction {
    Quit,
    Minimize,
    Close,
    Nothing,
}

/// What the menu item with an id does.
pub fn menu_action(id: &str) -> (r: MenuAction)
    ensures
        r == (if id@ == "cam-quit"@ {
            MenuAction::Quit
        } else if id@ == "cam-minimize"@ {
            MenuAction::Minimize
        } else if id@ == "cam-close"@ {
            MenuAction::Close
        } else {
            MenuAction::Nothing
        }),
{
    if str_eq(id, "cam-quit") {
        MenuAction::Quit
    } else if str_eq(id, "cam-minimize") {
        MenuAction::Minimize
    } else if str_eq(id, "cam-close") {
        MenuAction::Close
    } else {
        MenuAction::Nothing
    }
}

/// An item of the macOS menu. The first kind is the manager's own, the others are the
/// system's.
#[derive(Debug, Clone, Copy, PartialEq, Eq, Structural)]
pub enum MenuItem {
    Own(MenuAction),
    About,
    Separator,
    Services,
    Hide,
    HideOthers,
    ShowAll,
    Undo,
    Redo,
    Cut,
    Copy,
    Paste,
    SelectAll,
}

/// A submenu of the macOS menu.
#[derive(Debug, Clone, Copy, PartialEq, Eq, Structural)]
pub enum Submenu {
    App,
    Edit,
    Window,
}

/// The items of a submenu, in order.
pub open spec fn items_of(submenu: Submenu) -> Seq<MenuItem> {
    match submenu {
        Submenu::App => seq![
            MenuItem::About,
            MenuItem::Separator,
            MenuItem::Services,
            MenuItem::Separator,
            MenuItem::Hide,
            MenuItem::HideOthers,
            MenuItem::ShowAll,
            MenuItem::Separator,
            MenuItem::Own(MenuAction::Quit),
        ],
        Submenu::Edit => seq![
            MenuItem::Undo,
            MenuItem::Redo,
            MenuItem::Separator,
            MenuItem::Cut,
            MenuItem::Copy,
            MenuItem::Paste,
            MenuItem::SelectAll,
        ],
        Submenu::Window => seq![
            MenuItem::Own(MenuAction::Minimize),
            MenuItem::Own(MenuAction::Close),
        ],
    }
}

/// The items of a submenu, in order.
pub fn menu_items(submenu: Submenu) -> (r: Vec<MenuItem>)
    ensures
        r@ == items_of(submenu),
{
    match submenu {
        Submenu::App => vec![
            MenuItem::About,
            MenuItem::Separator,
            MenuItem::Services,
            MenuItem::Separator,
            MenuItem::Hide,
            MenuItem::HideOthers,
            MenuItem::ShowAll,
            MenuItem::Separator,
            MenuItem::Own(MenuAction::Quit),
        ],
        Submenu::Edit => vec![
            MenuItem::Undo,
            MenuItem::Redo,
            MenuItem::Separator,
            MenuItem::Cut,
            MenuItem::Copy,
            MenuItem::Paste,
            MenuItem::SelectAll,
        ],
        Submenu::Window => vec![
            MenuItem::Own(MenuAction::Minimize),
            MenuItem::Own(MenuAction::Close),
        ],
    }
}

/// The id and the shortcut of one of the manager's own items.
pub fn own_item(action: MenuAction) -> (r: Option<(&'static str, &'static str)>)
    ensures
        match r {
            Some((id, keys)) => match action {
                MenuAction::Quit => id@ == "cam-quit"@ && keys@ == "Cmd+Q"@,
                MenuAction::Minimize => id@ == "cam-minimize"@ && keys@ == "Cmd+M"@,
                MenuAction::Close => id@ == "cam-close"@ && keys@ == "Cmd+W"@,
                MenuAction::Nothing => false,
            },
            None => action == MenuAction::Nothing,
        },
{
    match action {
        MenuAction::Quit => Some(("cam-quit", "Cmd+Q")),
        MenuAction::Minimize => Some(("cam-minimize", "Cmd+M")),
        MenuAction::Close => Some(("cam-close", "Cmd+W")),
        MenuAction::Nothing => None,
    }
}

// ---------------------------------------------------------------------------
// Starting
// ---------------------------------------------------------------------------

/// Whether recovery may begin.
#[derive(Debug, Clone, Copy, PartialEq, Eq, Structural)]
pub enum WebviewStartupGate {
    Proceed,
    Abort,
    Wait,
}

/// What is recovered at startup.
#[derive(Debug, Clone, Copy, PartialEq, Eq, Structural)]
pub enum RecoveryStep {
    /// Wait until the window is safe.
    AwaitGate,
    RecoverThemes,
    RecoverPackagePolicy,
    RecoverInstalls,
    CleanStaging,
    Finished,
}

/// The next step of recovery. Installations are recovered before anything that they
/// need is cleaned up; after a failed gate nothing is touched.
pub open spec fn recovery_after(
    is_windows: bool,
    step: RecoveryStep,
    gate: WebviewStartupGate,
) -> RecoveryStep {
    match step {
        RecoveryStep::AwaitGate => match gate {
            WebviewStartupGate::Proceed => RecoveryStep::RecoverThemes,
            WebviewStartupGate::Abort => RecoveryStep::Finished,
            WebviewStartupGate::Wait => RecoveryStep::AwaitGate,
        },
        RecoveryStep::RecoverThemes => if is_windows {
            RecoveryStep::RecoverPackagePolicy
        } else {
            RecoveryStep::RecoverInstalls
        },
        RecoveryStep::RecoverPackagePolicy => RecoveryStep::RecoverInstalls,
        RecoveryStep::RecoverInstalls => RecoveryStep::CleanStaging,
        RecoveryStep::CleanStaging => RecoveryStep::Finished,
        RecoveryStep::Finished => RecoveryStep::Finished,
    }
}

/// The first step of recovery.
pub fn first_recovery_step(is_windows: bool) -> (r: RecoveryStep)
    ensures
        r == (if is_windows {
            RecoveryStep::AwaitGate
        } else {
            RecoveryStep::RecoverThemes
        }),
{
    if is_windows {
        RecoveryStep::AwaitGate
    } else {
        RecoveryStep::RecoverThemes
    }
}

/// The next step of recovery.
pub fn next_recovery_step(is_windows: bool, step: RecoveryStep, gate: WebviewStartupGate) -> (r:
    RecoveryStep)
    ensures
        r == recovery_after(is_windows, step, gate),
{
    match step {
        RecoveryStep::AwaitGate => match gate {
            WebviewStartupGate::Proceed => RecoveryStep::RecoverThemes,
            WebviewStartupGate::Abort => RecoveryStep::Finished,
            WebviewStartupGate::Wait => RecoveryStep::AwaitGate,
        },
        RecoveryStep::RecoverThemes => if is_windows {
            RecoveryStep::RecoverPackagePolicy
        } else {
            RecoveryStep::RecoverInstalls
        },
        RecoveryStep::RecoverPackagePolicy => RecoveryStep::RecoverInstalls,
        RecoveryStep::RecoverInstalls => RecoveryStep::CleanStaging,
        RecoveryStep::CleanStaging | RecoveryStep::Finished => RecoveryStep::Finished,
    }
}

/// What recovery has done so far.
pub struct Recovered {
    pub themes: bool,
    pub policy: bool,
    pub installs: bool,
    pub cleaned: bool,
}

/// What a step of recovery adds.
pub open spec fn recovers(step: RecoveryStep, was: Recovered) -> Recovered {
    match step {
        RecoveryStep::RecoverThemes => Recovered { themes: true, ..was },
        RecoveryStep::RecoverPackagePolicy => Recovered { policy: true, ..was },
        RecoveryStep::RecoverInstalls => Recovered { installs: true, ..was },
        RecoveryStep::CleanStaging => Recovered { cleaned: true, ..was },
        _ => was,
    }
}

/// What holds at each step of recovery.
pub open spec fn recovery_holds(is_windows: bool, step: RecoveryStep, done: Recovered) -> bool {
    match step {
        RecoveryStep::AwaitGate => is_windows && !done.cleaned && !done.installs,
        RecoveryStep::RecoverThemes => !done.cleaned && !done.installs,
        RecoveryStep::RecoverPackagePolicy => is_windows && done.themes && !done.cleaned
            && !done.installs,
        RecoveryStep::RecoverInstalls => done.themes && (is_windows ==> done.policy)
            && !done.cleaned,
        RecoveryStep::CleanStaging => done.themes && (is_windows ==> done.policy)
            && done.installs && !done.cleaned,
        RecoveryStep::Finished => done.cleaned ==> done.themes && (is_windows ==> done.policy)
            && done.installs,
    }
}

/// Staging is cleaned up only after themes, package policies and installations were
/// recovered, so that nothing is deleted that they need.
pub proof fn law_recovery_precedes_cleanup(
    is_windows: bool,
    step: RecoveryStep,
    gate: WebviewStartupGate,
    done: Recovered,
)
    requires
        recovery_holds(is_windows, step, done),
    ensures
        recovery_holds(is_windows, recovery_after(is_windows, step, gate), recovers(step, done)),
{
}

// ---------------------------------------------------------------------------
// Errors of the user interface
// ---------------------------------------------------------------------------

/// An error that the user interface reports.
#[derive(Debug)]
pub struct FrontendErrorPayload {
    pub kind: String,
    pub message: String,
    pub stack: Option<String>,
    pub component_stack: Option<String>,
}

/// A text on one line: line breaks are spelled out.
pub open spec fn on_one_line(s: Seq<char>) -> Seq<char>
    decreases s.len(),
{
    if s.len() == 0 {
        Seq::empty()
    } else {
        let rest = on_one_line(s.drop_last());
        if s.last() == '\r' {
            rest.push('\\').push('r')
        } else if s.last() == '\n' {
            rest.push('\\').push('n')
        } else {
            rest.push(s.last())
        }
    }
}

/// A text on one line.
pub fn single_line(value: &str) -> (r: String)
    ensures
        r@ == on_one_line(value@),
{
    let all = chars_of(value);
    let mut out: Vec<char> = Vec::new();
    let mut i: usize = 0;
    while i < all.len()
        invariant
            i <= all@.len(),
            all@ == value@,
            out@ == on_one_line(value@.take(i as int)),
        decreases all@.len() - i,
    {
        let ghost more = value@.take(i + 1);
        assert(more.drop_last() == value@.take(i as int));
        let c = all[i];
        if c == '\r' {
            out.push('\\');
            out.push('r');
        } else if c == '\n' {
            out.push('\\');
            out.push('n');
        } else {
            out.push(c);
        }
        i += 1;
    }
    assert(value@.take(value@.len() as int) == value@);
    string_of(out.as_slice())
}

/// A text on one line holds no line break.
pub proof fn law_single_line_is_one_line(s: Seq<char>)
    ensures
        forall|i: int|
            0 <= i < on_one_line(s).len() ==> #[trigger] on_one_line(s)[i] != '\n' && on_one_line(
                s,
            )[i] != '\r',
    decreases s.len(),
{
    if s.len() > 0 {
        law_single_line_is_one_line(s.drop_last());
        let rest = on_one_line(s.drop_last());
        assert forall|i: int| 0 <= i < on_one_line(s).len() implies #[trigger] on_one_line(s)[i]
            != '\n' && on_one_line(s)[i] != '\r' by {
            if i < rest.len() {
                assert(on_one_line(s)[i] == rest[i]);
            }
        }
    }
}

/// A text that may be missing, on one line.
pub open spec fn line_or_none(t: Option<Seq<char>>) -> Seq<char> {
    match t {
        Some(s) => on_one_line(s),
        None => "none"@,
    }
}

fn optional_line(t: &Option<String>) -> (r: String)
    ensures
        r@ == line_or_none(text_view(*t)),
{
    match t {
        Some(s) => single_line(s.as_str()),
        None => text_of("none"),
    }
}

/// The line that is logged for an error of the user interface.
pub fn frontend_error_line(payload: &FrontendErrorPayload) -> (r: String)
    ensures
        r@ == "frontend error kind="@ + on_one_line(payload.kind@) + " message="@ + on_one_line(
            payload.message@,
        ) + " stack="@ + line_or_none(text_view(payload.stack)) + " component_stack="@
            + line_or_none(text_view(payload.component_stack)),
{
    let kind = single_line(payload.kind.as_str());
    let message = single_line(payload.message.as_str());
    let stack = optional_line(&payload.stack);
    let component_stack = optional_line(&payload.component_stack);
    let mut out = chars_of("frontend error kind=");
    push_str(&mut out, kind.as_str());
    push_str(&mut out, " message=");
    push_str(&mut out, message.as_str());
    push_str(&mut out, " stack=");
    push_str(&mut out, stack.as_str());
    push_str(&mut out, " component_stack=");
    push_str(&mut out, component_stack.as_str());
    string_of(out.as_slice())
}

/// The channel on which an event is told to the user interface.
pub fn event_channel(event: &ShellEvent) -> (r: &'static str)
    ensures
        r@ == match event {
            ShellEvent::ConfirmQuit => "app://confirm-quit"@,
            ShellEvent::QuitBlocked(_) => "app://quit-blocked"@,
        },
{
    match event {
        ShellEvent::ConfirmQuit => "app://confirm-quit",
        ShellEvent::QuitBlocked(_) => "app://quit-blocked",
    }
}

/// The words of the message when the window could not be made safe.
pub fn startup_error_text(detail: &str) -> (r: String)
    ensures
        r@
            == "The secure Windows interface could not be initialized. The app will close.\n\n"@
            + detail@,
{
    said(
        "The secure Windows interface could not be initialized. The app will close.\n\n",
        detail,
    )
}

} // verus!

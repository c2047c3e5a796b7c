//! What the shell promises over a whole start, and how it spells things, told by characters.

use vstd::prelude::*;
use crate::shell::{
    blocked_words, degraded_reasons, exits, exits_confirmed, items_of, line_or_none, on_one_line,
    recovery_after, token_script, DegradedCause, MenuAction, MenuItem, QuitView, Recovered,
    RecoveryStep, Submenu, WebviewStartupGate,
};

verus! {

/// A plain request exits exactly where nothing is to be asked, and a confirmed one exactly
/// where no operation is protected.
pub proof fn law_requests_to_quit_are_decided(policy: QuitView)
    ensures
        exits(QuitView::Allow),
        !exits(QuitView::Confirm),
        exits_confirmed(QuitView::Allow),
        exits_confirmed(QuitView::Confirm),
        policy is Block ==> !exits(policy) && !exits_confirmed(policy),
{
}

/// A blocked quit is told with the reason that the policy gives.
pub proof fn law_blocked_quit_tells_the_reason(policy: QuitView)
    ensures
        policy matches QuitView::Block { reason, .. } ==> blocked_words(policy)
            == "Codex App Manager must stay open until the protected step finishes.\n"@ + reason
            + "\n\n受保护步骤完成前，Codex App Manager 必须保持打开。"@,
{
}

/// The step and what was recovered after a row of gates. On Windows recovery waits for the
/// gate first.
pub open spec fn recovery_end(is_windows: bool, gates: Seq<WebviewStartupGate>) -> (
    RecoveryStep,
    Recovered,
)
    decreases gates.len(),
{
    if gates.len() == 0 {
        (
            if is_windows {
                RecoveryStep::AwaitGate
            } else {
                RecoveryStep::RecoverThemes
            },
            Recovered { themes: false, policy: false, installs: false, cleaned: false },
        )
    } else {
        let (step, was) = recovery_end(is_windows, gates.drop_last());
        (
            recovery_after(is_windows, step, gates.last()),
            match step {
                RecoveryStep::RecoverThemes => Recovered { themes: true, ..was },
                RecoveryStep::RecoverPackagePolicy => Recovered { policy: true, ..was },
                RecoveryStep::RecoverInstalls => Recovered { installs: true, ..was },
                RecoveryStep::CleanStaging => Recovered { cleaned: true, ..was },
                _ => was,
            },
        )
    }
}

/// What was recovered by the time of each step.
pub open spec fn recovery_thorough(
    is_windows: bool,
    step: RecoveryStep,
    done: Recovered,
    aborted: bool,
) -> bool {
    let nothing = !done.themes && !done.policy && !done.installs && !done.cleaned;
    match step {
        RecoveryStep::AwaitGate => is_windows && nothing && !aborted,
        RecoveryStep::RecoverThemes => nothing && !aborted,
        RecoveryStep::RecoverPackagePolicy => is_windows && done.themes && !done.policy
            && !done.installs && !done.cleaned && !aborted,
        RecoveryStep::RecoverInstalls => done.themes && done.policy == is_windows
            && !done.installs && !done.cleaned && !aborted,
        RecoveryStep::CleanStaging => done.themes && done.policy == is_windows && done.installs
            && !done.cleaned && !aborted,
        RecoveryStep::Finished => if aborted {
            nothing
        } else {
            done.themes && done.policy == is_windows && done.installs && done.cleaned
        },
    }
}

/// Whether recovery was still waiting when a gate said that it must not begin.
pub open spec fn was_aborted(is_windows: bool, gates: Seq<WebviewStartupGate>) -> bool
    decreases gates.len(),
{
    gates.len() > 0 && (was_aborted(is_windows, gates.drop_last()) || (recovery_end(
        is_windows,
        gates.drop_last(),
    ).0 == RecoveryStep::AwaitGate && gates.last() == WebviewStartupGate::Abort))
}

/// Over a whole start: recovery ends with themes, installations and staging recovered in this
/// order, and on Windows package policies after themes; only a gate that aborts keeps it from
/// that, and then nothing is touched.
pub proof fn law_every_recovery_is_thorough(is_windows: bool, gates: Seq<WebviewStartupGate>)
    ensures
        recovery_thorough(
            is_windows,
            recovery_end(is_windows, gates).0,
            recovery_end(is_windows, gates).1,
            was_aborted(is_windows, gates),
        ),
    decreases gates.len(),
{
    if gates.len() > 0 {
        law_every_recovery_is_thorough(is_windows, gates.drop_last());
    }
}

/// Recovery goes on at each step, except that it waits where it is told to wait.
pub proof fn law_recovery_goes_on(is_windows: bool, step: RecoveryStep, gate: WebviewStartupGate)
    ensures
        step != RecoveryStep::Finished && !(step == RecoveryStep::AwaitGate && gate
            == WebviewStartupGate::Wait) ==> recovery_after(is_windows, step, gate) != step,
        recovery_after(is_windows, RecoveryStep::AwaitGate, WebviewStartupGate::Wait)
            == RecoveryStep::AwaitGate,
{
}

/// A text on one line is spelled character by character: the two characters of line breaks as
/// a backslash and a letter, every other one as it is.
pub proof fn law_lines_are_spelled_out(s: Seq<char>, c: char)
    ensures
        on_one_line(Seq::empty()) == Seq::<char>::empty(),
        on_one_line(s.push('\n')) == on_one_line(s) + seq!['\\', 'n'],
        on_one_line(s.push('\r')) == on_one_line(s) + seq!['\\', 'r'],
        c != '\n' && c != '\r' ==> on_one_line(s.push(c)) == on_one_line(s).push(c),
        line_or_none(Some(s)) == on_one_line(s),
        line_or_none(None) == "none"@,
{
    assert(s.push('\n').drop_last() =~= s);
    assert(s.push('\r').drop_last() =~= s);
    assert(s.push(c).drop_last() =~= s);
    assert(on_one_line(s).push('\\').push('n') =~= on_one_line(s) + seq!['\\', 'n']);
    assert(on_one_line(s).push('\\').push('r') =~= on_one_line(s) + seq!['\\', 'r']);
}

/// A window is brought back for the cause, and once more where it was asked for meanwhile.
pub proof fn law_windows_are_brought_back()
    ensures
        degraded_reasons(DegradedCause::RootFailed, false) == seq!["frontend-root-failed"@],
        degraded_reasons(DegradedCause::Timeout, false) == seq!["frontend-ready-timeout"@],
        degraded_reasons(DegradedCause::RootFailed, true) == seq![
            "frontend-root-failed"@,
            "frontend-root-failed-single-instance"@,
        ],
        degraded_reasons(DegradedCause::Timeout, true) == seq![
            "frontend-ready-timeout"@,
            "frontend-ready-timeout-single-instance"@,
        ],
{
    reveal_strlit("frontend-root-failed");
    reveal_strlit("frontend-ready-timeout");
    reveal_strlit("-single-instance");
    reveal_strlit("frontend-root-failed-single-instance");
    reveal_strlit("frontend-ready-timeout-single-instance");
    assert("frontend-root-failed"@ + "-single-instance"@
        =~= "frontend-root-failed-single-instance"@);
    assert("frontend-ready-timeout"@ + "-single-instance"@
        =~= "frontend-ready-timeout-single-instance"@);
}

/// Whether a menu has an item.
pub open spec fn offers(submenu: Submenu, item: MenuItem) -> bool {
    items_of(submenu).contains(item)
}

/// Quitting is offered last in the menu of the application, and minimizing and closing in that
/// of the window, in this order.
pub proof fn law_menus_offer_their_items()
    ensures
        items_of(Submenu::App).len() == 9,
        items_of(Submenu::App).last() == MenuItem::Own(MenuAction::Quit),
        items_of(Submenu::App)[0] == MenuItem::About,
        offers(Submenu::App, MenuItem::Services),
        offers(Submenu::App, MenuItem::Hide),
        offers(Submenu::App, MenuItem::HideOthers),
        offers(Submenu::App, MenuItem::ShowAll),
        items_of(Submenu::Edit).len() == 7,
        offers(Submenu::Edit, MenuItem::Undo),
        offers(Submenu::Edit, MenuItem::Redo),
        offers(Submenu::Edit, MenuItem::Cut),
        offers(Submenu::Edit, MenuItem::Copy),
        offers(Submenu::Edit, MenuItem::Paste),
        offers(Submenu::Edit, MenuItem::SelectAll),
        items_of(Submenu::Window) == seq![
            MenuItem::Own(MenuAction::Minimize),
            MenuItem::Own(MenuAction::Close),
        ],
{
    let app = items_of(Submenu::App);
    assert(app[2] == MenuItem::Services && app[4] == MenuItem::Hide && app[5]
        == MenuItem::HideOthers && app[6] == MenuItem::ShowAll);
    let edit = items_of(Submenu::Edit);
    assert(edit[0] == MenuItem::Undo && edit[1] == MenuItem::Redo && edit[3] == MenuItem::Cut
        && edit[4] == MenuItem::Copy && edit[5] == MenuItem::Paste && edit[6]
        == MenuItem::SelectAll);
}

/// The script holds the encoded token, between what makes it known to the window and what
/// tells the page of it.
pub proof fn law_script_holds_the_token(a: Seq<char>, b: Seq<char>)
    ensures
        token_script(a) == token_script(b) ==> a == b,
        exists|front: Seq<char>, back: Seq<char>| token_script(a) == #[trigger] (front + a + back),
{
    let front = "(() => { const readiness = Object.freeze("@;
    let back = "); Object.defineProperty(window, '"@ + crate::shell::FRONTEND_READY_GLOBAL@
        + "', { value: readiness, configurable: true }); window.dispatchEvent(new CustomEvent('"@
        + crate::shell::FRONTEND_READY_EVENT@ + "', { detail: readiness })); })();"@;
    assert(token_script(a) =~= front + a + back);
    assert(token_script(b) =~= front + b + back);
    if token_script(a) == token_script(b) {
        assert forall|i: int| 0 <= i < a.len() implies a[i] == b[i] by {
            assert((front + a + back)[front.len() + i] == a[i]);
            assert((front + b + back)[front.len() + i] == b[i]);
        }
        assert(a =~= b);
    }
}

} // verus!

use codex_app_manager::operations::OperationPhase;
use codex_app_manager::shell::{
    after_quit_dialog, apply_quit_policy, browser_accelerators_enabled,
    configure_windows_browser_accelerators, confirm_quit, event_channel, first_recovery_step,
    frontend_error_line, frontend_failed, frontend_ready, frontend_token_script,
    initial_main_window_visibility, may_restore_window, menu_action, menu_items,
    native_confirm_allows_exit, native_dialog, next_recovery_step, on_degraded, on_page_load,
    on_second_instance, own_item, quit_policy, readiness_script, restore_main_window, single_line,
    startup_error_text, AcceleratorNext, ActivationNext, Degraded, DegradedCause, DialogButtons,
    DialogNext, FrontendErrorPayload, FrontendReady, FrontendReadyResult, FrontendToken,
    MenuAction, MenuItem, PageLoad, PageNext, QuitPolicy, RecoveryStep, RestoreStart, ShellEvent,
    Submenu, WebviewStartupGate, WindowSteps, FRONTEND_READY_EVENT, FRONTEND_READY_GLOBAL,
};

fn block() -> QuitPolicy {
    QuitPolicy::Block {
        phase: OperationPhase::Committing,
        reason_code: "committing".to_string(),
        reason: "protected".to_string(),
        kind: Some("update".to_string()),
    }
}

#[test]
fn readiness_token_script_uses_json_encoding_and_a_document_event() {
    let script = frontend_token_script(&FrontendToken {
        generation: 7,
        token: "token-'\\-value".to_string(),
    });
    assert!(script.contains(FRONTEND_READY_GLOBAL));
    assert!(script.contains(FRONTEND_READY_EVENT));
    assert!(script.contains(r#""generation":7"#));
    assert!(script.contains(r#"token-'\\-value"#));
    assert!(script.contains("configurable: true"));
    assert!(script.contains("Object.freeze"));
}

#[test]
fn native_confirmation_never_exits_a_protected_phase() {
    assert!(native_confirm_allows_exit(&QuitPolicy::Allow));
    assert!(native_confirm_allows_exit(&QuitPolicy::Confirm));
    assert!(!native_confirm_allows_exit(&block()));
}

#[test]
fn native_browser_accelerators_are_release_only_disabled() {
    assert!(!browser_accelerators_enabled(false));
    assert!(browser_accelerators_enabled(true));
}

#[test]
fn windows_release_window_stays_hidden_until_the_native_gate_succeeds() {
    assert!(!initial_main_window_visibility(true, true, false));
    assert!(initial_main_window_visibility(true, true, true));
    assert!(initial_main_window_visibility(true, false, false));
    assert!(!initial_main_window_visibility(false, true, true));
}

#[test]
fn the_whole_readiness_script() {
    let script = frontend_token_script(&FrontendToken {
        generation: 1,
        token: "a\"b".to_string(),
    });
    assert_eq!(
        script,
        "(() => { const readiness = Object.freeze({\"generation\":1,\"token\":\"a\\\"b\"}); \
         Object.defineProperty(window, '__CAM_FRONTEND_READY__', \
         { value: readiness, configurable: true }); \
         window.dispatchEvent(new CustomEvent('cam:frontend-readiness', \
         { detail: readiness })); })();"
    );
    assert!(readiness_script("{}").contains("Object.freeze({})"));
}

#[test]
fn quitting_follows_the_policy() {
    assert!(matches!(quit_policy(true, block()), QuitPolicy::Allow));
    assert!(matches!(quit_policy(false, QuitPolicy::Confirm), QuitPolicy::Confirm));
    assert!(apply_quit_policy(&QuitPolicy::Allow).is_none());
    assert!(matches!(
        apply_quit_policy(&QuitPolicy::Confirm),
        Some(ShellEvent::ConfirmQuit)
    ));
    match apply_quit_policy(&block()) {
        Some(ShellEvent::QuitBlocked(QuitPolicy::Block { reason, kind, .. })) => {
            assert_eq!(reason, "protected");
            assert_eq!(kind.as_deref(), Some("update"));
        }
        other => panic!("{other:?}"),
    }
    assert!(confirm_quit(&QuitPolicy::Confirm).is_ok());
    assert_eq!(confirm_quit(&block()).unwrap_err().text(), "protected");
    assert_eq!(event_channel(&ShellEvent::ConfirmQuit), "app://confirm-quit");
    assert_eq!(
        event_channel(&ShellEvent::QuitBlocked(block())),
        "app://quit-blocked"
    );
}

#[test]
fn a_protected_operation_blocks_both_ways_out() {
    assert!(apply_quit_policy(&block()).is_some());
    assert!(confirm_quit(&block()).is_err());
    assert!(matches!(after_quit_dialog(true, block()), DialogNext::Blocked(_)));
    assert!(matches!(after_quit_dialog(false, block()), DialogNext::Resume));
    assert!(matches!(
        after_quit_dialog(true, QuitPolicy::Confirm),
        DialogNext::Exit
    ));
}

#[test]
fn native_dialogs() {
    let ask = native_dialog(&ShellEvent::ConfirmQuit);
    assert_eq!(ask.title, "Codex App Manager");
    assert_eq!(
        ask.message,
        "The interface is not responding. Quit Codex App Manager safely?\n\n界面没有响应。是否安全退出 Codex App Manager？"
    );
    match ask.buttons {
        DialogButtons::OkCancel(yes, no) => {
            assert_eq!(yes, "Quit / 退出");
            assert_eq!(no, "Keep Open / 保持打开");
        }
        other => panic!("{other:?}"),
    }
    let told = native_dialog(&ShellEvent::QuitBlocked(block()));
    assert_eq!(
        told.message,
        "Codex App Manager must stay open until the protected step finishes.\nprotected\n\n受保护步骤完成前，Codex App Manager 必须保持打开。"
    );
    let other = native_dialog(&ShellEvent::QuitBlocked(QuitPolicy::Allow));
    assert!(other.message.contains("A protected operation is still active."));
}

#[test]
fn the_window_comes_back_only_when_it_may() {
    assert_eq!(may_restore_window(true, false, true), RestoreStart::Deferred);
    assert_eq!(may_restore_window(true, true, false), RestoreStart::Missing);
    assert_eq!(may_restore_window(false, false, true), RestoreStart::Go);
    let good = WindowSteps {
        unminimized: true,
        shown: true,
        focus_set: true,
        focused: Some(true),
    };
    assert!(!restore_main_window(good));
    assert!(restore_main_window(WindowSteps { focused: None, ..good }));
    assert!(restore_main_window(WindowSteps { shown: false, ..good }));
    assert_eq!(
        on_second_instance(true, false, true).reason(),
        "single-instance-webview-gated"
    );
    assert_eq!(on_second_instance(false, false, true), ActivationNext::Restore);
    assert_eq!(
        on_second_instance(false, true, false).reason(),
        "single-instance-queued"
    );
    assert_eq!(ActivationNext::Restore.reason(), "single-instance");
}

#[test]
fn the_browser_shortcuts_decide_over_the_window() {
    let next = |result, ready| configure_windows_browser_accelerators("main", result, ready);
    assert!(matches!(next(Ok(()), true), AcceleratorNext::ShowWindow));
    assert!(matches!(next(Ok(()), false), AcceleratorNext::WaitForFrontend));
    match next(Err("E_FAIL".to_string()), true) {
        AcceleratorNext::Abort(words) => assert_eq!(
            words,
            "failed to disable browser accelerators window=main: E_FAIL"
        ),
        other => panic!("{other:?}"),
    }
    assert_eq!(
        startup_error_text("x"),
        "The secure Windows interface could not be initialized. The app will close.\n\nx"
    );
}

#[test]
fn a_document_shows_its_token() {
    let ready = |first_ready, activation_pending| {
        FrontendReadyResult::Accepted(FrontendReady {
            generation: 1,
            first_ready,
            activation_pending,
            pending: vec![ShellEvent::ConfirmQuit],
        })
    };
    let actions = frontend_ready(ready(true, true)).unwrap();
    assert_eq!(actions.restore, Some("frontend-ready-single-instance"));
    assert_eq!(actions.emit.len(), 1);
    assert_eq!(
        frontend_ready(ready(true, false)).unwrap().restore,
        Some("frontend-ready")
    );
    assert_eq!(frontend_ready(ready(false, true)).unwrap().restore, None);
    assert_eq!(
        frontend_ready(FrontendReadyResult::Stale {
            current_generation: 3
        })
        .unwrap_err(),
        "stale frontend readiness token"
    );
}

#[test]
fn a_document_fails() {
    assert_eq!(
        frontend_failed(None).unwrap_err(),
        "stale frontend failure token"
    );
    let degraded = frontend_failed(Some(Degraded {
        activation_pending: true,
        next_native_event: None,
    }))
    .unwrap();
    let (reasons, event) = on_degraded(DegradedCause::RootFailed, degraded);
    assert_eq!(
        reasons,
        vec!["frontend-root-failed", "frontend-root-failed-single-instance"]
    );
    assert!(event.is_none());
    let late = Degraded {
        activation_pending: false,
        next_native_event: Some(ShellEvent::ConfirmQuit),
    };
    let (reasons, event) = on_degraded(DegradedCause::Timeout, late);
    assert_eq!(reasons, vec!["frontend-ready-timeout"]);
    assert!(event.is_some());
}

#[test]
fn pages_load() {
    let token = Some(FrontendToken {
        generation: 2,
        token: "t".to_string(),
    });
    assert!(matches!(
        on_page_load("other", PageLoad::Finished, &token),
        PageNext::Ignore
    ));
    assert!(matches!(
        on_page_load("main", PageLoad::Started, &token),
        PageNext::MarkLoading
    ));
    assert!(matches!(
        on_page_load("main", PageLoad::Finished, &None),
        PageNext::NoToken
    ));
    match on_page_load("main", PageLoad::Finished, &token) {
        PageNext::Inject(script) => assert!(script.contains("\"generation\":2")),
        other => panic!("{other:?}"),
    }
}

#[test]
fn the_menu() {
    assert_eq!(menu_action("cam-quit"), MenuAction::Quit);
    assert_eq!(menu_action("cam-minimize"), MenuAction::Minimize);
    assert_eq!(menu_action("cam-close"), MenuAction::Close);
    assert_eq!(menu_action("cam"), MenuAction::Nothing);
    assert_eq!(own_item(MenuAction::Quit), Some(("cam-quit", "Cmd+Q")));
    assert_eq!(own_item(MenuAction::Minimize), Some(("cam-minimize", "Cmd+M")));
    assert_eq!(own_item(MenuAction::Close), Some(("cam-close", "Cmd+W")));
    assert_eq!(own_item(MenuAction::Nothing), None);
    assert_eq!(
        menu_items(Submenu::App).last(),
        Some(&MenuItem::Own(MenuAction::Quit))
    );
    assert_eq!(menu_items(Submenu::Edit).len(), 7);
    assert_eq!(
        menu_items(Submenu::Window),
        vec![
            MenuItem::Own(MenuAction::Minimize),
            MenuItem::Own(MenuAction::Close)
        ]
    );
}

#[test]
fn recovery_comes_before_cleaning_up() {
    let walk = |windows: bool| {
        let mut step = first_recovery_step(windows);
        let mut steps = vec![step];
        while step != RecoveryStep::Finished {
            step = next_recovery_step(windows, step, WebviewStartupGate::Proceed);
            steps.push(step);
        }
        steps
    };
    assert_eq!(
        walk(true),
        vec![
            RecoveryStep::AwaitGate,
            RecoveryStep::RecoverThemes,
            RecoveryStep::RecoverPackagePolicy,
            RecoveryStep::RecoverInstalls,
            RecoveryStep::CleanStaging,
            RecoveryStep::Finished
        ]
    );
    assert_eq!(walk(false).len(), 4);
    assert_eq!(
        next_recovery_step(true, RecoveryStep::AwaitGate, WebviewStartupGate::Abort),
        RecoveryStep::Finished
    );
    assert_eq!(
        next_recovery_step(true, RecoveryStep::AwaitGate, WebviewStartupGate::Wait),
        RecoveryStep::AwaitGate
    );
}

#[test]
fn errors_are_logged_on_one_line() {
    assert_eq!(single_line("a\r\nb\\n"), "a\\r\\nb\\n");
    let line = frontend_error_line(&FrontendErrorPayload {
        kind: "react".to_string(),
        message: "x\ny".to_string(),
        stack: Some("s\r".to_string()),
        component_stack: None,
    });
    assert_eq!(
        line,
        "frontend error kind=react message=x\\ny stack=s\\r component_stack=none"
    );
    assert!(!line.contains('\n'));
}

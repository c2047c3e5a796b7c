use codex_app_manager::errors::{engine, internal, stale, AppError};
use codex_app_manager::operations::{
    arm_destructive, auto_stage_busy_report, destructive_token_error, download_progress,
    invalidate_retained_pause_if_stale, require_confirmation, retry_ancillary, retry_purges,
    win_auto_stage_update, AutoStage, DetachedGuard, LeaseFault, OperationError, OperationKind,
    OperationPhase, RetryGuard,
};
use codex_app_manager::policy::{
    record_macos_policy_install_state, record_windows_policy_install_state,
    rollback_historical_policy_after_failure, HistoricalMacEvidence, HistoricalPolicyInstallState,
    OperationEvidence, PolicyTracker,
};
use codex_app_manager::settings::{
    accept_settings, confirm_manager_update, judge_updater_network,
    manager_update_matches_confirmation, manager_update_or_stale, manager_updater_network,
    network_for_settings, normalize_settings_for_target, policy_changes,
    select_install_root, select_store, select_theme, settings_or_strict_error,
    validated_custom_proxy_for_settings, windows_domain_settings, windows_endpoints_for_settings,
    windows_install_mode_for_settings, AppSettings, EndpointChoice, ManagerUpdateMetadata,
    NetworkChoice, ProxyMode, StoreLoadHealth, UpdateSource,
};
use codex_app_manager::url_policy::url_problem;
use codex_app_manager::target::{
    historical_release_platform, package_filter, parse_release_architecture, require_os,
    validate_historical_architecture, validate_historical_architecture_with_compatibility,
    Architecture, OperatingSystem, ReleaseArchitecture, ReleasePlatform, Target,
};

fn settings() -> AppSettings {
    AppSettings {
        source: UpdateSource::Auto,
        custom_url: String::new(),
        proxy_mode: ProxyMode::System,
        custom_proxy_url: String::new(),
        signed_only: true,
        confirm_close: true,
        windows_install_mode: "msix".to_string(),
        install_root: "C:\\Codex".to_string(),
        disable_codex_self_updates: false,
        codex_theme: None,
        codex_theme_dir: None,
        codex_theme_store_dir: None,
    }
}

#[test]
fn historical_architecture_rejects_unrunnable_host_combinations() {
    let target = |os, arch| Target {
        os,
        arch,
        label: "test".to_string(),
    };
    assert!(validate_historical_architecture_with_compatibility(
        &target(OperatingSystem::Macos, Architecture::X64),
        ReleaseArchitecture::X64,
        false,
    )
    .is_ok());
    assert!(validate_historical_architecture_with_compatibility(
        &target(OperatingSystem::Macos, Architecture::X64),
        ReleaseArchitecture::Arm64,
        true,
    )
    .is_err());
    assert!(validate_historical_architecture_with_compatibility(
        &target(OperatingSystem::Macos, Architecture::Arm64),
        ReleaseArchitecture::Arm64,
        false,
    )
    .is_ok());
    assert!(validate_historical_architecture_with_compatibility(
        &target(OperatingSystem::Macos, Architecture::Arm64),
        ReleaseArchitecture::X64,
        true,
    )
    .is_ok());
    let missing_rosetta = validate_historical_architecture_with_compatibility(
        &target(OperatingSystem::Macos, Architecture::Arm64),
        ReleaseArchitecture::X64,
        false,
    )
    .unwrap_err();
    assert!(missing_rosetta.text().contains("Rosetta 2"));
    assert!(validate_historical_architecture_with_compatibility(
        &target(OperatingSystem::Windows, Architecture::Arm64),
        ReleaseArchitecture::X64,
        true,
    )
    .is_ok());
    let missing_windows_emulation = validate_historical_architecture_with_compatibility(
        &target(OperatingSystem::Windows, Architecture::Arm64),
        ReleaseArchitecture::X64,
        false,
    )
    .unwrap_err();
    assert!(missing_windows_emulation.text().contains("不支持 x64 仿真"));
    assert!(validate_historical_architecture_with_compatibility(
        &target(OperatingSystem::Macos, Architecture::Unknown),
        ReleaseArchitecture::X64,
        true,
    )
    .is_err());
}

#[test]
fn macos_policy_is_restorable_only_before_mutation_or_after_rollback() {
    let mut state: u8 = 0;
    HistoricalPolicyInstallState::PreCommit.store(&mut state);
    assert!(HistoricalPolicyInstallState::load(&state).policy_may_be_restored());

    record_macos_policy_install_state(&mut state, HistoricalMacEvidence::MutationStarted);
    assert_eq!(
        HistoricalPolicyInstallState::load(&state),
        HistoricalPolicyInstallState::Mutated
    );
    assert!(!HistoricalPolicyInstallState::load(&state).policy_may_be_restored());

    record_macos_policy_install_state(&mut state, HistoricalMacEvidence::MutationRolledBack);
    assert_eq!(
        HistoricalPolicyInstallState::load(&state),
        HistoricalPolicyInstallState::RolledBack
    );
    assert!(HistoricalPolicyInstallState::load(&state).policy_may_be_restored());
}

#[test]
fn windows_policy_keeps_add_appx_ambiguity_sticky_across_fallback() {
    let mut state: u8 = 0;
    HistoricalPolicyInstallState::PreCommit.store(&mut state);
    record_windows_policy_install_state(&mut state, OperationEvidence::OutcomeAmbiguous);
    record_windows_policy_install_state(&mut state, OperationEvidence::MutationStarted);
    record_windows_policy_install_state(&mut state, OperationEvidence::MutationRolledBack);
    assert_eq!(
        HistoricalPolicyInstallState::load(&state),
        HistoricalPolicyInstallState::OutcomeUnknown
    );
    assert!(!HistoricalPolicyInstallState::load(&state).policy_may_be_restored());
}

#[test]
fn windows_policy_is_restorable_after_a_confirmed_portable_rollback() {
    let mut state: u8 = 0;
    HistoricalPolicyInstallState::PreCommit.store(&mut state);
    record_windows_policy_install_state(&mut state, OperationEvidence::MutationStarted);
    record_windows_policy_install_state(&mut state, OperationEvidence::MutationRolledBack);
    assert_eq!(
        HistoricalPolicyInstallState::load(&state),
        HistoricalPolicyInstallState::RolledBack
    );
    assert!(HistoricalPolicyInstallState::load(&state).policy_may_be_restored());
}

#[test]
fn stale_resume_invalidates_the_retained_backend_pause() {
    let mut paused = Some("operation".to_string());

    invalidate_retained_pause_if_stale(
        &mut paused,
        &AppError::Engine("network unavailable".to_string()),
    );
    assert!(paused.is_some());

    invalidate_retained_pause_if_stale(
        &mut paused,
        &AppError::StaleExpectation("install changed".to_string()),
    );
    assert!(paused.is_none());
}

#[test]
fn settings_custom_proxy_requires_a_url() {
    let err = validated_custom_proxy_for_settings("  ", Ok("  ".to_string())).unwrap_err();
    assert!(err.text().contains("代理不能为空"));
    let reason = Err("代理不能为空：请填写".to_string());
    let err = validated_custom_proxy_for_settings("  ", reason).unwrap_err();
    assert_eq!(err.text(), "代理不能为空：请填写");
    assert_eq!(
        validated_custom_proxy_for_settings(
            "socks5h://127.0.0.1:1080",
            Ok("socks5h://127.0.0.1:1080".to_string())
        )
        .unwrap(),
        "socks5h://127.0.0.1:1080"
    );
}

#[test]
fn manager_self_update_confirmation_must_match_latest_check() {
    assert!(manager_update_matches_confirmation(
        "0.2.1", "0.2.0", "0.2.1", "0.2.0"
    ));
    assert!(!manager_update_matches_confirmation(
        "0.2.2", "0.2.0", "0.2.1", "0.2.0"
    ));
    assert!(!manager_update_matches_confirmation(
        "0.2.1", "0.2.1", "0.2.1", "0.2.0"
    ));
    assert!(matches!(
        manager_update_or_stale::<()>(None),
        Err(AppError::StaleExpectation(_))
    ));
}

#[test]
fn automatic_manager_check_rejects_uncertain_settings() {
    assert!(settings_or_strict_error(settings(), StoreLoadHealth::ok()).is_ok());
    assert!(settings_or_strict_error(
        settings(),
        StoreLoadHealth::corrupt("settings.json unavailable".to_string())
    )
    .is_err());

    let mut newer_schema = StoreLoadHealth::ok();
    newer_schema.detail = Some("settings schema is newer than supported".to_string());
    assert!(settings_or_strict_error(settings(), newer_schema).is_err());

    let mut unknown_source = StoreLoadHealth::ok();
    unknown_source.unknown_source = Some("future-source".to_string());
    assert!(settings_or_strict_error(settings(), unknown_source).is_err());
}

#[test]
fn uncertain_settings_say_why() {
    let corrupt = StoreLoadHealth::corrupt("broken".to_string());
    assert_eq!(
        settings_or_strict_error(settings(), corrupt).unwrap_err().text(),
        "无法可靠读取自动更新设置：broken"
    );
    let mut unknown = StoreLoadHealth::ok();
    unknown.unknown_source = Some("x".to_string());
    assert_eq!(
        settings_or_strict_error(settings(), unknown).unwrap_err().text(),
        "无法可靠读取自动更新设置：设置存储状态异常"
    );
}

#[test]
fn the_official_source_is_automatic_on_windows() {
    let mut s = settings();
    s.source = UpdateSource::Official;
    normalize_settings_for_target(&mut s, OperatingSystem::Macos);
    assert_eq!(s.source, UpdateSource::Official);
    normalize_settings_for_target(&mut s, OperatingSystem::Windows);
    assert_eq!(s.source, UpdateSource::Auto);
}

#[test]
fn windows_endpoints_follow_the_source() {
    let mut s = settings();
    let guard = || Ok("https://own.test/latest/win".to_string());
    let mirror = "https://mirror.test";
    for source in [UpdateSource::Auto, UpdateSource::Mirror, UpdateSource::Official] {
        s.source = source;
        assert!(matches!(
            windows_endpoints_for_settings(&s, OperatingSystem::Windows, guard(), mirror),
            Ok(EndpointChoice::Configured)
        ));
    }
    s.source = UpdateSource::Official;
    assert!(
        windows_endpoints_for_settings(&s, OperatingSystem::Linux, guard(), mirror)
            .unwrap_err()
            .text()
            .starts_with("Windows official update source is not available yet")
    );
    s.source = UpdateSource::Custom;
    let base = |s: &AppSettings, g: Result<String, String>| {
        match windows_endpoints_for_settings(s, OperatingSystem::Windows, g, mirror) {
            Ok(EndpointChoice::Base(base)) => base,
            other => panic!("{other:?}"),
        }
    };
    assert_eq!(base(&s, guard()), "https://mirror.test");
    s.custom_url = "https://own.test/latest/win".to_string();
    assert_eq!(base(&s, guard()), "https://own.test");
    assert_eq!(base(&s, Ok("/latest".to_string())), "https://mirror.test");
    assert_eq!(
        windows_endpoints_for_settings(
            &s,
            OperatingSystem::Windows,
            Err("private host".to_string()),
            mirror
        )
        .unwrap_err()
        .text(),
        "private host"
    );
}

#[test]
fn the_updater_needs_a_proxy_that_is_a_url() {
    let mut s = settings();
    assert!(matches!(
        manager_updater_network(&s, Ok(String::new())),
        Ok(NetworkChoice::System)
    ));
    s.proxy_mode = ProxyMode::Custom;
    s.custom_proxy_url = "p".to_string();
    match manager_updater_network(&s, Ok("http://p:1".to_string())) {
        Ok(NetworkChoice::Proxy(url)) => assert_eq!(url, "http://p:1"),
        other => panic!("{other:?}"),
    }
    let words = |guard: Result<String, String>| {
        manager_updater_network(&s, guard).unwrap_err().text()
    };
    assert_eq!(words(Ok("http://".to_string())), "invalid proxy URL: empty host");
    assert_eq!(words(Err("no".to_string())), "no");
    assert_eq!(
        judge_updater_network(
            NetworkChoice::Proxy("x".to_string()),
            Some("why".to_string())
        )
        .unwrap_err()
        .text(),
        "invalid proxy URL: why"
    );
    assert!(matches!(
        judge_updater_network(NetworkChoice::Direct, Some("why".to_string())),
        Ok(NetworkChoice::Direct)
    ));
    assert_eq!(url_problem("http://p:1"), None);
    assert_eq!(url_problem("no url").unwrap(), "relative URL without a base");
}

#[test]
fn the_network_follows_the_proxy_mode() {
    let mut s = settings();
    let guard = || Ok("http://p:1".to_string());
    assert!(matches!(
        network_for_settings(&s, false, guard()),
        Ok(NetworkChoice::System)
    ));
    s.proxy_mode = ProxyMode::Direct;
    assert!(matches!(
        network_for_settings(&s, false, guard()),
        Ok(NetworkChoice::Direct)
    ));
    s.proxy_mode = ProxyMode::Custom;
    assert_eq!(
        network_for_settings(&s, false, guard()).unwrap_err().text(),
        "代理不能为空"
    );
    assert!(matches!(
        network_for_settings(&s, true, guard()),
        Ok(NetworkChoice::System)
    ));
    s.custom_proxy_url = "p:1".to_string();
    match network_for_settings(&s, false, guard()) {
        Ok(NetworkChoice::Proxy(url)) => assert_eq!(url, "http://p:1"),
        other => panic!("{other:?}"),
    }
    assert_eq!(
        network_for_settings(&s, false, Err("bad".to_string()))
            .unwrap_err()
            .text(),
        "bad"
    );
}

#[test]
fn accepted_settings_always_require_signatures() {
    let mut s = settings();
    s.signed_only = false;
    s.source = UpdateSource::Official;
    let saved = accept_settings(
        s,
        OperatingSystem::Windows,
        Err("unused".to_string()),
        Err("unused".to_string()),
    )
    .unwrap();
    assert!(saved.signed_only);
    assert_eq!(saved.source, UpdateSource::Auto);

    let mut s = settings();
    s.source = UpdateSource::Custom;
    s.proxy_mode = ProxyMode::Custom;
    s.custom_proxy_url = "p".to_string();
    let saved = accept_settings(
        s,
        OperatingSystem::Macos,
        Ok("https://own.test".to_string()),
        Ok("http://p".to_string()),
    )
    .unwrap();
    assert_eq!(saved.custom_url, "https://own.test");
    assert_eq!(saved.custom_proxy_url, "http://p");

    let mut s = settings();
    s.source = UpdateSource::Custom;
    let refused = accept_settings(
        s,
        OperatingSystem::Macos,
        Err("no source".to_string()),
        Ok(String::new()),
    );
    assert_eq!(refused.unwrap_err().text(), "no source");
}

#[test]
fn single_settings_change_alone() {
    let s = select_theme(settings(), Some("aurora".to_string()));
    assert_eq!(s.codex_theme.as_deref(), Some("aurora"));
    let s = select_store(s, "/skins".to_string());
    assert_eq!(s.codex_theme_store_dir.as_deref(), Some("/skins"));
    let s = select_install_root(s, "D:\\Codex".to_string());
    assert_eq!(s.install_root, "D:\\Codex");
    assert_eq!(s.codex_theme.as_deref(), Some("aurora"));
    assert_eq!(windows_install_mode_for_settings(&s), "msix");
    let mut portable = settings();
    portable.windows_install_mode = "portable".to_string();
    assert_eq!(windows_install_mode_for_settings(&portable), "portable");
    portable.disable_codex_self_updates = true;
    assert!(policy_changes(&s, &portable));
    assert!(!policy_changes(&s, &s));
    let told = windows_domain_settings("https://m", &portable, &None);
    assert_eq!(told.install_root, "C:\\Codex");
    assert_eq!(told.mirror_base_url, "https://m");
    assert!(told.disable_codex_self_updates);
    let once = windows_domain_settings("", &portable, &Some("E:\\".to_string()));
    assert_eq!(once.install_root, "E:\\");
}

#[test]
fn a_changed_manager_update_is_stale() {
    let update = ManagerUpdateMetadata {
        version: "2".to_string(),
        current_version: "1".to_string(),
        body: None,
    };
    assert!(confirm_manager_update(&update, " 2 ", "1\n").is_ok());
    assert_eq!(
        confirm_manager_update(&update, "3", "1").unwrap_err().text(),
        "管理器更新内容已变化，请重新检查后再确认。"
    );
    assert_eq!(
        manager_update_or_stale::<u8>(None).unwrap_err().text(),
        "管理器更新已不可用，请重新检查后再确认。"
    );
    assert_eq!(manager_update_or_stale(Some(7)).unwrap(), 7);
}

#[test]
fn machines_and_packages() {
    let target = Target {
        os: OperatingSystem::Linux,
        arch: Architecture::Unknown,
        label: String::new(),
    };
    assert_eq!(
        validate_historical_architecture(&target, ReleaseArchitecture::Arm64, true, true)
            .unwrap_err()
            .text(),
        "安装包架构 arm64 无法在当前设备架构 Unknown 上运行"
    );
    let arm = |os| Target {
        os,
        arch: Architecture::Arm64,
        label: String::new(),
    };
    let x64 = ReleaseArchitecture::X64;
    assert!(validate_historical_architecture(&arm(OperatingSystem::Macos), x64, true, false).is_ok());
    assert!(validate_historical_architecture(&arm(OperatingSystem::Macos), x64, false, true).is_err());
    assert!(validate_historical_architecture(&arm(OperatingSystem::Windows), x64, false, true).is_ok());
    assert!(validate_historical_architecture(&arm(OperatingSystem::Linux), x64, false, false).is_ok());
    assert_eq!(
        parse_release_architecture("mips", None).unwrap_err().text(),
        "不支持的安装包架构：mips（仅支持 arm64 / x64）"
    );
    assert_eq!(parse_release_architecture("x64", Some(x64)).unwrap(), x64);
    assert_eq!(
        historical_release_platform(OperatingSystem::Windows).unwrap(),
        ReleasePlatform::Windows
    );
    assert!(matches!(
        historical_release_platform(OperatingSystem::Linux),
        Err(AppError::UnsupportedPlatform)
    ));
    assert!(require_os(OperatingSystem::Macos, OperatingSystem::Macos).is_ok());
    assert_eq!(
        require_os(OperatingSystem::Linux, OperatingSystem::Macos)
            .unwrap_err()
            .text(),
        "unsupported platform"
    );
    assert_eq!(
        package_filter(ReleasePlatform::Macos),
        ("Codex DMG / ZIP", vec!["dmg", "zip"])
    );
    assert_eq!(
        package_filter(ReleasePlatform::Windows),
        ("Codex MSIX", vec!["msix"])
    );
}

#[test]
fn tokens_and_confirmations() {
    let invalid = OperationError {
        fault: LeaseFault::InvalidToken,
        error: internal("gone"),
    };
    assert_eq!(
        destructive_token_error(invalid).text(),
        "操作令牌无效或已过期，请重新检查后再确认"
    );
    let busy = OperationError {
        fault: LeaseFault::BusyOtherProcess,
        error: AppError::Busy("busy".to_string()),
    };
    assert!(matches!(destructive_token_error(busy), AppError::Busy(_)));
    assert!(arm_destructive(OperationKind::Update).is_ok());
    assert!(arm_destructive(OperationKind::Uninstall).is_ok());
    for kind in [
        OperationKind::Install,
        OperationKind::Adopt,
        OperationKind::SetInstallRoot,
    ] {
        assert_eq!(
            arm_destructive(kind).unwrap_err().text(),
            "仅 update/uninstall 操作可使用破坏性令牌"
        );
    }
    let mac = OperatingSystem::Macos;
    let words = "拒绝执行：卸载必须带显式 confirm";
    assert!(require_confirmation(mac, mac, true, words).is_ok());
    assert_eq!(require_confirmation(mac, mac, false, words).unwrap_err().text(), words);
    assert!(matches!(
        require_confirmation(OperatingSystem::Linux, mac, true, words),
        Err(AppError::UnsupportedPlatform)
    ));
}

#[test]
fn purging_needs_a_confirmation_and_a_token() {
    let actions = vec!["relink".to_string(), "purge-user-data".to_string()];
    assert!(retry_purges(true, &actions, "purge-user-data"));
    assert!(!retry_purges(false, &actions, "purge-user-data"));
    assert!(!retry_purges(true, &actions, "other"));
    assert_eq!(retry_ancillary(false, None, false).unwrap(), RetryGuard::Scoped);
    assert_eq!(
        retry_ancillary(true, Some(true), true).unwrap(),
        RetryGuard::Destructive
    );
    assert_eq!(
        retry_ancillary(true, Some(false), true).unwrap_err().text(),
        "清除用户数据需要二次确认（confirm=true）"
    );
    assert_eq!(
        retry_ancillary(true, Some(true), false).unwrap_err().text(),
        "清除用户数据需要破坏性令牌（先 arm_destructive uninstall）"
    );
}

#[test]
fn downloads_report_their_operation() {
    let (event, phase) = download_progress("op-1", 5, 10, "mirror");
    assert_eq!(event.operation_id, "op-1");
    assert_eq!(event.source, "mirror");
    assert_eq!((event.downloaded, event.total), (5, 10));
    assert_eq!(phase, Some(OperationPhase::Downloading));
    assert_eq!(download_progress("op-1", 10, 10, "").1, None);
    assert_eq!(download_progress("op-1", 0, 0, "").1, None);
}

#[test]
fn a_busy_download_in_advance_is_skipped() {
    let fault = |fault| {
        Err(OperationError {
            fault,
            error: internal("lock"),
        })
    };
    match win_auto_stage_update(true, false, fault(LeaseFault::BusySameProcess)) {
        AutoStage::Skip(report) => {
            assert_eq!(report.reason, "operation-busy");
            assert!(report.enabled && report.skipped);
            assert!(!report.attempted && !report.allow_metered);
        }
        other => panic!("{other:?}"),
    }
    assert!(matches!(
        win_auto_stage_update(true, false, Ok(())),
        AutoStage::Proceed
    ));
    assert!(matches!(
        win_auto_stage_update(false, false, fault(LeaseFault::Other)),
        AutoStage::Proceed
    ));
    match win_auto_stage_update(true, false, fault(LeaseFault::Other)) {
        AutoStage::Fail(error) => assert_eq!(error.text(), "lock"),
        other => panic!("{other:?}"),
    }
    assert_eq!(
        auto_stage_busy_report(true, true).notes,
        vec![
            "Automatic Windows pre-download was skipped because another operation is running."
                .to_string()
        ]
    );
}

#[test]
fn a_guard_is_given_up_once() {
    let mut guard = DetachedGuard::new("t".to_string(), true);
    assert_eq!(guard.confirm_pause_if_cancelled(true).as_deref(), Some("t"));
    assert_eq!(guard.confirm_pause_if_cancelled(false), None);
    assert_eq!(
        guard.mark_outcome_ambiguous_if_noninterruptible(true).as_deref(),
        Some("t")
    );
    assert_eq!(guard.mark_outcome_ambiguous_if_noninterruptible(false), None);
    guard.mark_succeeded();
    let release = guard.release().unwrap();
    assert_eq!(release.token, "t");
    assert_eq!(release.record, Some(true));
    assert!(guard.release().is_none());
    let mut untracked = DetachedGuard::new("u".to_string(), false);
    assert_eq!(untracked.release().unwrap().record, None);
}

#[test]
fn the_old_policy_comes_back_only_where_it_must() {
    let mut policy = PolicyTracker::new(false, true);
    assert!(policy.transition().unwrap().requested_disabled);
    assert!(!policy.must_restore());
    assert!(policy.before_commit());
    assert!(policy.must_restore());
    assert!(policy.restores_with_rollback());
    record_windows_policy_install_state(&mut policy.state, OperationEvidence::MutationStarted);
    assert!(!policy.must_restore());
    record_windows_policy_install_state(&mut policy.state, OperationEvidence::MutationRolledBack);
    assert!(policy.must_restore());
    policy.rollback_done();
    assert!(!policy.must_restore());

    let mut lost = PolicyTracker::new(true, false);
    lost.before_commit();
    lost.worker_lost();
    assert!(!lost.must_restore());
    assert!(PolicyTracker::new(true, true).transition().is_none());
}

#[test]
fn a_failed_rollback_of_the_policy_is_told() {
    let kept = rollback_historical_policy_after_failure(engine("a"), &Ok(()));
    assert!(matches!(kept, AppError::Engine(_)));
    assert_eq!(kept.text(), "a");
    let both = rollback_historical_policy_after_failure(stale("a"), &Err(engine("b")));
    assert!(matches!(both, AppError::Internal(_)));
    assert_eq!(both.text(), "a；同时恢复安装前的 Codex 自更新策略失败：b");
}

use codex_app_manager::errors::{engine, internal, stale, AppError};
use codex_app_manager::file_swap::{
    backup_path, config_path, config_store, temp_path, ConfigStore, FileOutcome, ReplaceFlow,
    ReplaceStep, ResetFlow, ResetOutcome, ResetStep, RestoreFlow, RestoreStep,
};
use codex_app_manager::install_flow::{
    gate, historical_gate, Compatibility, InstallEvent, InstallFlow, InstallKind, InstallStep,
};
use codex_app_manager::install_root::{
    first_existing, fresh_probe_names, install_root_from_picked_dir, is_filesystem_root, is_protected_install_root,
    listing_failed, look_at_picked_dir, nearest_existing_dir, path_is_equal_or_child, path_key,
    probe_names, ParentProbe, PathShape, PickedPlace, ProbeEvent, ProbeStep, RootCheck, RootEvent,
    RootLook, RootStep, INSTALL_LOCATION_PROBE_PREFIX, MIN_PORTABLE_FREE_SPACE_BYTES,
};
use codex_app_manager::policy::{
    record_windows_policy_install_state, OperationEvidence, PolicyTracker,
};
use codex_app_manager::resume::{
    confirm_local_package, historical_resume_context, mac_engine_expectation, mac_install_context,
    mac_perform_context, win_perform_context, HistoricalResumeExpectation,
    MacPerformResumeExpectation, OperationResumeExpectation, OperationResumeKind, ReleaseFormat,
    ResolvedReleaseAsset, WinPerformExpectation,
};
use codex_app_manager::settings::{AppSettings, ProxyMode, UpdateSource};
use codex_app_manager::target::{Architecture, OperatingSystem, ReleaseArchitecture, Target};
use codex_app_manager::theme_flow::{
    check_launch_path, consume_try_on_stash, ensure_theme_may_restart_codex, launch_codex_with_cdp,
    launches_themed, lenient_native, poll_daemon, poll_port, restores_stash_on_startup,
    selection_after_off, stash_for_try_on, strict_native, theme_status, themed_launch_done,
    DaemonStatus, HotFlow, HotStep, Intent, Poll, ThemeEvent, ThemeFlow, ThemeStep, THEME_CDP_PORT,
};
use codex_app_manager::theme_tx::{
    ensure_no_pending_tx, PendingTx, Purpose, ThemeTx, TxEvent, TxStep,
};

/// A disk with three names, on which file operations are carried out.
struct Disk {
    target: Option<String>,
    aside: Option<String>,
    source: Option<String>,
}

fn replace(disk: &mut Disk, new: &str, broken: Option<ReplaceStep>) -> ReplaceFlow {
    let mut flow = ReplaceFlow::start();
    while flow.step != ReplaceStep::Finished {
        let step = flow.step;
        let probe = |yes: bool| if yes { FileOutcome::Yes } else { FileOutcome::No };
        let outcome = if broken == Some(step) {
            FileOutcome::Failed("disk full".to_string())
        } else {
            match step {
                ReplaceStep::CreateParent => FileOutcome::No,
                ReplaceStep::ProbeTarget => probe(disk.target.is_some()),
                ReplaceStep::ProbeLost => probe(disk.target.is_none() && disk.aside.is_some()),
                ReplaceStep::WriteTemp => {
                    disk.source = Some(new.to_string());
                    FileOutcome::Done
                }
                ReplaceStep::DropBackup | ReplaceStep::CleanBackup => {
                    disk.aside = None;
                    FileOutcome::Done
                }
                ReplaceStep::MoveAside => {
                    disk.aside = disk.target.take();
                    FileOutcome::Done
                }
                ReplaceStep::MoveIn => {
                    disk.target = disk.source.take();
                    FileOutcome::Done
                }
                ReplaceStep::MoveBack => {
                    disk.target = disk.aside.take();
                    FileOutcome::Done
                }
                ReplaceStep::ClearTemp | ReplaceStep::CleanTemp => {
                    disk.source = None;
                    FileOutcome::Done
                }
                _ => FileOutcome::Done,
            }
        };
        flow.advance(outcome);
    }
    flow
}

#[test]
fn a_file_is_replaced() {
    let mut disk = Disk {
        target: Some("old".to_string()),
        aside: Some("older".to_string()),
        source: None,
    };
    let flow = replace(&mut disk, "new", None);
    assert!(flow.error.is_none() && flow.failure().is_none());
    assert_eq!(disk.target.as_deref(), Some("new"));
    assert!(disk.aside.is_none() && disk.source.is_none());
    let mut empty = Disk {
        target: None,
        aside: None,
        source: None,
    };
    replace(&mut empty, "new", None);
    assert_eq!(empty.target.as_deref(), Some("new"));
}

#[test]
fn a_failed_replacement_keeps_the_old_content() {
    for step in [
        ReplaceStep::CreateParent,
        ReplaceStep::CreateTemp,
        ReplaceStep::SetMode,
        ReplaceStep::WriteTemp,
        ReplaceStep::SyncTemp,
        ReplaceStep::MoveAside,
        ReplaceStep::MoveIn,
    ] {
        let mut disk = Disk {
            target: Some("old".to_string()),
            aside: None,
            source: None,
        };
        let flow = replace(&mut disk, "new", Some(step));
        assert_eq!(disk.target.as_deref(), Some("old"), "{step:?}");
        assert_eq!(
            flow.failure().as_deref(),
            Some("写入 Codex 配置失败: disk full")
        );
    }
    assert_eq!(
        temp_path(&Some("config.toml".to_string()), 42),
        ".config.toml.42.tmp"
    );
    assert_eq!(temp_path(&None, 0), ".file.0.tmp");
    assert_eq!(backup_path(&Some(".env".to_string())), ".env.bak");
    assert_eq!(backup_path(&None), "file.bak");
}

#[test]
fn a_backup_is_put_back() {
    let mut flow = RestoreFlow::start("settings");
    for (step, outcome) in [
        (RestoreStep::ProbeBackup, FileOutcome::Yes),
        (RestoreStep::CreateParent, FileOutcome::Done),
        (RestoreStep::ProbeTarget, FileOutcome::Yes),
        (RestoreStep::MoveAside, FileOutcome::Done),
        (RestoreStep::MoveIn, FileOutcome::Done),
        (RestoreStep::ProbeLeft, FileOutcome::Yes),
        (RestoreStep::DropAside, FileOutcome::Done),
        (RestoreStep::Recheck, FileOutcome::Yes),
    ] {
        assert_eq!(flow.step, step);
        flow.advance(outcome);
    }
    assert_eq!(flow.step, RestoreStep::Finished);
    assert_eq!(
        flow.error.unwrap().text(),
        "已从 .bak 还原 settings，但重新读取仍判定为损坏"
    );
}

#[test]
fn every_refusal_of_a_restoration() {
    let run = |outcomes: Vec<FileOutcome>| {
        let mut flow = RestoreFlow::start("provenance");
        for outcome in outcomes {
            flow.advance(outcome);
        }
        assert_eq!(flow.step, RestoreStep::Finished);
        flow.error.unwrap().text()
    };
    let failed = || FileOutcome::Failed("x".to_string());
    assert_eq!(run(vec![FileOutcome::No]), "找不到 provenance 的 .bak 备份");
    assert_eq!(run(vec![FileOutcome::Yes, failed()]), "create data dir: x");
    assert_eq!(
        run(vec![FileOutcome::Yes, FileOutcome::Done, FileOutcome::Yes, failed()]),
        "move current config aside: x"
    );
    assert_eq!(
        run(vec![
            FileOutcome::Yes,
            FileOutcome::Done,
            FileOutcome::Yes,
            FileOutcome::Done,
            failed(),
            FileOutcome::Yes,
            FileOutcome::Done
        ]),
        "restore config backup: x"
    );
}

#[test]
fn stores_and_their_paths() {
    assert_eq!(config_store("settings").unwrap(), ConfigStore::Settings);
    assert_eq!(config_store("provenance").unwrap(), ConfigStore::Provenance);
    let path = |which: &str| config_path(which, Some("/s".to_string()), None);
    assert_eq!(path("settings").unwrap(), "/s");
    assert_eq!(
        path("provenance").unwrap_err().text(),
        "无法定位 provenance.json 数据目录"
    );
    assert_eq!(
        config_path("settings", None, None).unwrap_err().text(),
        "无法定位 settings.json 数据目录"
    );
    assert_eq!(
        path("other").unwrap_err().text(),
        "配置类型必须是 settings 或 provenance"
    );
}

#[test]
fn a_store_is_reset() {
    let mut flow = ResetFlow::start("settings").unwrap();
    assert_eq!(flow.step, ResetStep::SyncPolicy);
    flow.advance(ResetOutcome::Done);
    assert_eq!(flow.step, ResetStep::SaveSettings);
    flow.advance(ResetOutcome::Done);
    assert_eq!(flow.step, ResetStep::Recheck);
    flow.advance(ResetOutcome::Corrupt);
    assert_eq!(
        flow.error.unwrap().text(),
        "已重置 settings，但重新读取仍判定为损坏"
    );
    let mut flow = ResetFlow::start("provenance").unwrap();
    assert_eq!(flow.step, ResetStep::SaveProvenance);
    flow.advance(ResetOutcome::Failed(internal("no")));
    assert_eq!(flow.step, ResetStep::Finished);
    assert_eq!(flow.error.unwrap().text(), "no");
    assert_eq!(
        ResetFlow::start("x").unwrap_err().text(),
        "配置类型必须是 settings 或 provenance"
    );
}

// -- installation roots ------------------------------------------------------

fn look(exists: bool) -> RootLook {
    RootLook {
        absolute: true,
        exists,
        is_dir: exists,
        protected: false,
    }
}

fn checked(path: &str, events: Vec<RootEvent>) -> Result<String, AppError> {
    let mut check = RootCheck::start(path);
    for event in events {
        check.advance(event);
    }
    check.verdict().unwrap()
}

#[test]
fn rejects_non_empty_non_codex_install_root() {
    let err = checked(
        "/tmp/codex-manager-non-empty-root",
        vec![RootEvent::Seen(look(true)), RootEvent::No, RootEvent::No],
    )
    .unwrap_err();
    assert!(err
        .text()
        .contains("安装位置必须是空文件夹，或已有的 Codex 免安装版目录"));
}

#[test]
fn accepts_existing_codex_portable_install_root() {
    let root = "/tmp/codex-manager-existing-portable-root";
    let validated = checked(
        root,
        vec![
            RootEvent::Seen(look(true)),
            RootEvent::No,
            RootEvent::Yes,
            RootEvent::Yes,
            RootEvent::Space(Some(MIN_PORTABLE_FREE_SPACE_BYTES)),
        ],
    )
    .unwrap();
    assert_eq!(validated, root);
}

#[test]
fn rejects_portable_root_with_foreign_identity() {
    let mut check = RootCheck::start("/tmp/codex-manager-foreign-portable-root");
    check.advance(RootEvent::Seen(look(true)));
    check.advance(RootEvent::No);
    assert_eq!(check.step, RootStep::ProbePortable);
    check.advance(RootEvent::No);
    let err = check.verdict().unwrap().unwrap_err();
    assert!(err
        .text()
        .contains("安装位置必须是空文件夹，或已有的 Codex 免安装版目录"));
}

#[test]
fn picked_non_empty_folder_installs_into_codex_child() {
    let parent = "/tmp/codex-manager-picked-parent";
    assert!(look_at_picked_dir(parent, look(true)).unwrap());
    assert_eq!(
        install_root_from_picked_dir(true, false, false),
        PickedPlace::Child
    );
    assert_eq!(PickedPlace::Child.child_name(), Some("Codex"));
    assert_eq!(PickedPlace::Itself.child_name(), None);
    let child = "/tmp/codex-manager-picked-parent/Codex";
    let validated = checked(
        child,
        vec![
            RootEvent::Seen(look(false)),
            RootEvent::Yes,
            RootEvent::Space(None),
        ],
    )
    .unwrap();
    assert_eq!(validated, child);
}

#[test]
fn validation_does_not_create_the_target_directory() {
    let mut check = RootCheck::start("/tmp/codex-manager-validate-no-create/Codex");
    check.advance(RootEvent::Seen(look(false)));
    assert_eq!(check.step, RootStep::ProbeParent);
    check.advance(RootEvent::Yes);
    assert_eq!(check.step, RootStep::MeasureSpace);
    check.advance(RootEvent::Space(Some(u64::MAX)));
    assert_eq!(
        check.verdict().unwrap().unwrap(),
        "/tmp/codex-manager-validate-no-create/Codex"
    );
}

/// Carries the trial out on two directories; gives what is left of them.
fn trial(broken: Option<ProbeStep>) -> (ParentProbe, bool, bool) {
    let mut probe = ParentProbe::start();
    let (mut source, mut destination) = (false, false);
    while probe.step != ProbeStep::Finished {
        let answer = |yes: bool| if yes { ProbeEvent::Yes } else { ProbeEvent::No };
        let event = if broken == Some(probe.step) {
            ProbeEvent::Failed("denied".to_string())
        } else {
            match probe.step {
                ProbeStep::CreateSource => {
                    source = true;
                    ProbeEvent::Done
                }
                ProbeStep::Rename => {
                    source = false;
                    destination = true;
                    ProbeEvent::Done
                }
                ProbeStep::LookSource => answer(source),
                ProbeStep::LookDestination => answer(destination),
                ProbeStep::CleanSource => {
                    source = false;
                    ProbeEvent::Done
                }
                ProbeStep::CleanDestination => {
                    destination = false;
                    ProbeEvent::Done
                }
                _ => ProbeEvent::Done,
            }
        };
        probe.advance(event);
    }
    (probe, source, destination)
}

#[test]
fn validation_removes_parent_replace_probe() {
    for broken in [
        None,
        Some(ProbeStep::CreateSource),
        Some(ProbeStep::WriteFile),
        Some(ProbeStep::Rename),
    ] {
        let (probe, source, destination) = trial(broken);
        assert!(!source && !destination);
        assert_eq!(probe.verdict().is_ok(), broken.is_none());
    }
    let (source, destination) = probe_names("id");
    assert!(source.starts_with(INSTALL_LOCATION_PROBE_PREFIX));
    assert_eq!(source, ".codex-manager-install-test-id-source");
    assert_eq!(destination, ".codex-manager-install-test-id-destination");
}

#[test]
fn fresh_probe_names_are_random_and_plain() {
    let (source, destination) = fresh_probe_names();
    let id = source
        .strip_prefix(INSTALL_LOCATION_PROBE_PREFIX)
        .and_then(|rest| rest.strip_suffix("-source"))
        .unwrap();
    let parsed = uuid::Uuid::parse_str(id).unwrap();
    assert_eq!(parsed.get_version_num(), 4);
    assert_eq!(parsed.to_string(), id);
    assert_eq!(
        destination,
        format!("{INSTALL_LOCATION_PROBE_PREFIX}{id}-destination")
    );
    assert_ne!(fresh_probe_names().0, source);
}

#[test]
fn rejects_windows_protected_install_root() {
    let roots = vec!["C:\\Program Files".to_string()];
    let shape = PathShape {
        has_parent: true,
        has_root: true,
        components: 4,
    };
    let root = "C:\\Program Files\\Codex";
    let protected = is_protected_install_root(root, shape, &roots);
    let err = checked(
        root,
        vec![RootEvent::Seen(RootLook {
            protected,
            ..look(false)
        })],
    )
    .unwrap_err();
    assert!(err
        .text()
        .contains("安装位置不能放在系统目录、管理员目录或磁盘根目录"));
}

#[test]
fn every_other_refusal_of_a_root() {
    assert_eq!(checked("  ", vec![]).unwrap_err().text(), "安装位置不能为空");
    let words = |seen: RootLook| checked("x", vec![RootEvent::Seen(seen)]).unwrap_err().text();
    assert_eq!(
        words(RootLook { absolute: false, ..look(false) }),
        "安装位置必须是绝对路径"
    );
    assert_eq!(
        words(RootLook { exists: true, ..look(false) }),
        "安装位置必须是文件夹"
    );
    assert_eq!(
        checked(
            "/x",
            vec![
                RootEvent::Seen(look(false)),
                RootEvent::Yes,
                RootEvent::Space(Some(MIN_PORTABLE_FREE_SPACE_BYTES - 1))
            ]
        )
        .unwrap_err()
        .text(),
        "安装位置所在磁盘剩余空间不足"
    );
    assert_eq!(
        checked(
            "/x",
            vec![
                RootEvent::Seen(look(true)),
                RootEvent::Failed(listing_failed("denied"))
            ]
        )
        .unwrap_err()
        .text(),
        "读取安装位置失败: denied"
    );
    assert_eq!(
        look_at_picked_dir(" ", look(true)).unwrap_err().text(),
        "安装位置不能为空"
    );
    assert!(!look_at_picked_dir("/x", RootLook { protected: true, ..look(true) }).unwrap());
    assert_eq!(
        install_root_from_picked_dir(true, true, false),
        PickedPlace::Itself
    );
    assert!(RootCheck::start("/x").verdict().is_none());
}

#[test]
fn a_failed_trial_says_what_went_wrong() {
    let words = |broken| trial(Some(broken)).0.verdict().unwrap_err().text();
    assert_eq!(
        words(ProbeStep::Rename),
        "安装位置父目录不可写或不支持目录替换: denied"
    );
    assert_eq!(
        words(ProbeStep::CleanDestination),
        "安装位置探测目录清理失败: denied"
    );
    let both = ParentProbe {
        step: ProbeStep::Finished,
        probe_error: Some("a".to_string()),
        cleanup_error: Some("b".to_string()),
    };
    assert_eq!(
        both.verdict().unwrap_err().text(),
        "安装位置父目录不可写或不支持目录替换: a; 探测目录清理也失败: b"
    );
}

#[test]
fn paths_are_compared_without_case_and_slashes() {
    let key: String = path_key("C:/Program Files/\\").iter().collect();
    assert_eq!(key, "c:\\program files");
    assert!(path_is_equal_or_child("c:/program files/x", "C:\\Program Files\\"));
    assert!(!path_is_equal_or_child("c:\\program files2", "C:\\Program Files"));
    let shape = |has_parent, has_root, components| PathShape {
        has_parent,
        has_root,
        components,
    };
    assert!(is_filesystem_root(shape(false, true, 1)));
    assert!(is_filesystem_root(shape(true, true, 2)));
    assert!(!is_filesystem_root(shape(true, true, 3)));
    assert_eq!(nearest_existing_dir(&vec![false, true, true]), 1);
    assert_eq!(nearest_existing_dir(&vec![false, false]), 1);
    assert_eq!(first_existing(&vec![false, true]), Some(1));
    assert_eq!(first_existing(&vec![false]), None);
}

// -- installing --------------------------------------------------------------

fn install(kind: InstallKind, root: bool, events: Vec<InstallEvent>) -> (Vec<InstallStep>, InstallFlow) {
    let mut policy = PolicyTracker::new(false, true);
    policy.before_commit();
    let mut flow = InstallFlow::start(kind, root, false, policy);
    let mut worker = events.into_iter();
    let mut steps = Vec::new();
    while flow.step != InstallStep::Finished {
        steps.push(flow.step);
        let event = match flow.step {
            InstallStep::RunWorker => worker.next().unwrap(),
            _ => InstallEvent::Done,
        };
        flow.advance(event);
    }
    (steps, flow)
}

#[test]
fn an_update_of_the_windows_application() {
    let (steps, flow) = install(
        InstallKind::WinPerform,
        true,
        vec![InstallEvent::Installed {
            success: true,
            portable: false,
        }],
    );
    assert_eq!(
        steps,
        vec![
            InstallStep::TakeLease,
            InstallStep::SetPreparing,
            InstallStep::LoadEndpoints,
            InstallStep::ValidateRoot,
            InstallStep::SetResume,
            InstallStep::LoadNetwork,
            InstallStep::RunWorker,
            InstallStep::SaveRoot,
            InstallStep::ClearCache,
            InstallStep::RecordCompletion,
            InstallStep::EndLease
        ]
    );
    assert!(flow.completion());
    let (steps, _) = install(
        InstallKind::WinPerform,
        true,
        vec![InstallEvent::Installed {
            success: false,
            portable: true,
        }],
    );
    assert!(!steps.contains(&InstallStep::SaveRoot));
    assert!(!steps.contains(&InstallStep::ClearCache));
}

#[test]
fn a_chosen_release_remembers_only_a_portable_root() {
    let run = |portable| {
        install(
            InstallKind::WinHistorical,
            true,
            vec![InstallEvent::Installed {
                success: true,
                portable,
            }],
        )
        .0
    };
    assert!(run(true).contains(&InstallStep::SaveRoot));
    assert!(!run(false).contains(&InstallStep::SaveRoot));
    assert!(run(false).contains(&InstallStep::ClearCache));
}

#[test]
fn a_failed_chosen_release_brings_the_policy_back() {
    let broken = InstallEvent::Broken {
        error: stale("moved"),
        cancelled: true,
        past_return: false,
    };
    let (steps, flow) = install(InstallKind::MacHistorical, false, vec![broken]);
    assert_eq!(
        steps[4..],
        [
            InstallStep::RunWorker,
            InstallStep::ConfirmPause,
            InstallStep::ClearPaused,
            InstallStep::RestorePolicy,
            InstallStep::RecordCompletion,
            InstallStep::EndLease
        ]
    );
    assert!(!flow.completion());
    assert_eq!(flow.error.unwrap().text(), "moved");

    let lost = InstallEvent::Lost {
        reason: "panic".to_string(),
        cancelled: false,
        past_return: true,
    };
    let (steps, flow) = install(InstallKind::WinHistorical, false, vec![lost]);
    assert!(!steps.contains(&InstallStep::RestorePolicy));
    assert_eq!(flow.error.unwrap().text(), "join: panic");
}

#[test]
fn a_failed_first_installation() {
    let broken = InstallEvent::Broken {
        error: stale("moved"),
        cancelled: false,
        past_return: true,
    };
    let (steps, flow) = install(InstallKind::MacInstall, false, vec![broken]);
    assert_eq!(
        steps,
        vec![
            InstallStep::TakeLease,
            InstallStep::SetPreparing,
            InstallStep::SetResume,
            InstallStep::LoadNetwork,
            InstallStep::RunWorker,
            InstallStep::MarkAmbiguous,
            InstallStep::RecordCompletion,
            InstallStep::ClearPaused,
            InstallStep::EndLease
        ]
    );
    assert!(!flow.completion());
    let mut early = InstallFlow::start(
        InstallKind::MacInstall,
        false,
        false,
        PolicyTracker::new(true, true),
    );
    early.advance(InstallEvent::Done);
    early.advance(InstallEvent::Done);
    early.advance(InstallEvent::Failed(internal("lease")));
    assert_eq!(early.step, InstallStep::EndLease);
}

#[test]
fn a_policy_that_does_not_come_back_is_told() {
    let mut policy = PolicyTracker::new(false, true);
    policy.before_commit();
    record_windows_policy_install_state(&mut policy.state, OperationEvidence::MutationStarted);
    record_windows_policy_install_state(&mut policy.state, OperationEvidence::MutationRolledBack);
    let mut flow = InstallFlow::start(InstallKind::WinHistorical, false, true, policy);
    while flow.step != InstallStep::RunWorker {
        flow.advance(InstallEvent::Done);
    }
    flow.advance(InstallEvent::Broken {
        error: engine("swap"),
        cancelled: false,
        past_return: false,
    });
    assert_eq!(flow.step, InstallStep::RestorePolicy);
    flow.advance(InstallEvent::Failed(engine("registry")));
    assert_eq!(
        flow.error.as_ref().unwrap().text(),
        "swap；同时恢复安装前的 Codex 自更新策略失败：registry"
    );
}

#[test]
fn gates_of_the_installations() {
    let mac = OperatingSystem::Macos;
    let win = OperatingSystem::Windows;
    assert!(gate(InstallKind::MacInstall, mac, false).is_ok());
    for (kind, os, words) in [
        (InstallKind::MacPerform, mac, "拒绝执行：破坏性更新必须带显式 confirm"),
        (InstallKind::MacHistorical, mac, "拒绝执行：历史版本安装必须带显式 confirm"),
        (InstallKind::WinPerform, win, "拒绝执行：Windows 更新必须带显式 confirm"),
        (
            InstallKind::WinHistorical,
            win,
            "拒绝执行：Windows 历史版本安装必须带显式 confirm",
        ),
    ] {
        assert!(gate(kind, os, true).is_ok());
        assert_eq!(gate(kind, os, false).unwrap_err().text(), words);
        assert!(matches!(
            gate(kind, OperatingSystem::Linux, true),
            Err(AppError::UnsupportedPlatform)
        ));
    }
}

#[test]
fn gates_of_chosen_releases() {
    let target = Target {
        os: OperatingSystem::Macos,
        arch: Architecture::Arm64,
        label: "test".to_string(),
    };
    let layers = Compatibility {
        macos_x64: false,
        windows_x64: true,
    };
    let kind = InstallKind::MacHistorical;
    let go = |path, build, known| {
        historical_gate(kind, &target, true, path, build, "x", known, layers)
    };
    assert_eq!(
        go(true, true, Some(ReleaseArchitecture::Arm64)).unwrap(),
        ReleaseArchitecture::Arm64
    );
    assert_eq!(
        go(true, false, Some(ReleaseArchitecture::Arm64)).unwrap_err().text(),
        "当前 macOS 安装快照不完整，请重新检查后再确认"
    );
    assert_eq!(
        go(false, false, None).unwrap_err().text(),
        "不支持的安装包架构：x（仅支持 arm64 / x64）"
    );
    assert!(go(false, false, Some(ReleaseArchitecture::X64))
        .unwrap_err()
        .text()
        .contains("Rosetta 2"));
}

// -- resuming ----------------------------------------------------------------

#[test]
fn what_is_remembered_of_an_update() {
    let expected = MacPerformResumeExpectation {
        from_build: 1,
        to_build: 2,
        path: "/Applications/Codex.app".to_string(),
        from_version: "1.0".to_string(),
        to_version: "2.0".to_string(),
    };
    let engine = mac_engine_expectation(&expected);
    assert_eq!((engine.from_build, engine.to_build), (1, 2));
    assert_eq!(engine.install_path, "/Applications/Codex.app");
    let context = mac_perform_context(&expected);
    assert_eq!(context.kind, OperationResumeKind::Perform);
    match context.expectation {
        OperationResumeExpectation::Macos {
            current_build,
            target_build,
            install_path,
            current_version,
            target_version,
        } => {
            assert_eq!((current_build, target_build), (Some(1), 2));
            assert_eq!(install_path.as_deref(), Some("/Applications/Codex.app"));
            assert_eq!(current_version.as_deref(), Some("1.0"));
            assert_eq!(target_version, "2.0");
        }
        other => panic!("{other:?}"),
    }
    match mac_install_context(9, "3.0").expectation {
        OperationResumeExpectation::Macos {
            current_build,
            target_build,
            ..
        } => assert_eq!((current_build, target_build), (None, 9)),
        other => panic!("{other:?}"),
    }
    let context = win_perform_context(
        OperationResumeKind::Install,
        &Some("D:\\".to_string()),
        &WinPerformExpectation {
            current_version: None,
            latest_version: "5".to_string(),
            package_moniker: "m".to_string(),
            route: "msix".to_string(),
        },
    );
    assert_eq!(context.install_root.as_deref(), Some("D:\\"));
    match context.expectation {
        OperationResumeExpectation::Windows {
            target_version,
            package_moniker,
            route,
            ..
        } => assert_eq!(
            (target_version.as_str(), package_moniker.as_str(), route.as_str()),
            ("5", "m", "msix")
        ),
        other => panic!("{other:?}"),
    }
}

#[test]
fn what_is_remembered_of_a_chosen_release() {
    let resolved = ResolvedReleaseAsset {
        release_tag: "v1".to_string(),
        version: "1".to_string(),
        name: "codex.msix".to_string(),
        architecture: ReleaseArchitecture::X64,
        format: ReleaseFormat::Msix,
        package_version: Some("1.0.0.0".to_string()),
    };
    let context = |path: Option<&str>| {
        historical_resume_context(
            &resolved,
            &path.map(str::to_string),
            &Some("codex.msix".to_string()),
            true,
            HistoricalResumeExpectation::Macos {
                current_path: None,
                current_build: None,
            },
            &None,
        )
    };
    let local = context(Some("/d/codex.msix"));
    assert_eq!(local.selection.local_file_name.as_deref(), Some("codex.msix"));
    assert_eq!(local.selection.asset_name, "codex.msix");
    assert_eq!(local.selection.package_version.as_deref(), Some("1.0.0.0"));
    assert!(local.block_updates);
    assert_eq!(context(None).selection.local_file_name, None);
    assert!(confirm_local_package(&resolved, "v1", "codex.msix").is_ok());
    assert_eq!(
        confirm_local_package(&resolved, "v2", "codex.msix")
            .unwrap_err()
            .text(),
        "本地 MSIX 在确认后发生变化，请重新选择并确认"
    );
}

// -- themes ------------------------------------------------------------------

const CONFIG: &[u8] = b"abc";
const DIGEST: &str = "ba7816bf8f01cfea414140de5dae2223b00361a396177a9cb410ff61f20015ad";

fn run_tx(purpose: Purpose, running: bool, broken: Option<TxStep>, digest: &str) -> (Vec<TxStep>, ThemeTx) {
    let mut tx = ThemeTx::start(purpose, true);
    let mut steps = Vec::new();
    while tx.step != TxStep::Finished {
        steps.push(tx.step);
        let event = if broken == Some(tx.step) {
            TxEvent::Failed(engine("broken"))
        } else {
            match tx.step {
                TxStep::ObserveRunning if running => TxEvent::Yes,
                TxStep::ObserveRunning => TxEvent::No,
                TxStep::CheckBaseline => TxEvent::Yes,
                TxStep::ReadPreimage => TxEvent::Preimage {
                    bytes: CONFIG.to_vec(),
                    expected: digest.to_string(),
                },
                _ => TxEvent::Done,
            }
        };
        tx.advance(event);
    }
    (steps, tx)
}

#[test]
fn a_theme_is_applied_under_a_transaction() {
    let (steps, tx) = run_tx(Purpose::Apply, true, None, DIGEST);
    assert!(tx.error.is_none());
    assert_eq!(
        steps,
        vec![
            TxStep::LocateInstall,
            TxStep::ObserveRunning,
            TxStep::QuitCodex,
            TxStep::Settle,
            TxStep::LocatePaths,
            TxStep::BeginTx,
            TxStep::MarkStopped,
            TxStep::CaptureBaseline,
            TxStep::ReadConfig,
            TxStep::PlanConfig,
            TxStep::StageTx,
            TxStep::WriteConfig,
            TxStep::ReadBack,
            TxStep::VerifyCommit,
            TxStep::MarkCommitted,
            TxStep::LaunchDebuggable,
            TxStep::MarkLaunched,
            TxStep::AwaitPort,
            TxStep::SendDirective,
            TxStep::ConfirmTheme,
            TxStep::MarkVerified,
            TxStep::CommitTx,
            TxStep::RemoveStash
        ]
    );
}

#[test]
fn a_failed_apply_is_undone_and_codex_relaunched() {
    for broken in [
        TxStep::WriteConfig,
        TxStep::VerifyCommit,
        TxStep::LaunchDebuggable,
        TxStep::ConfirmTheme,
        TxStep::CommitTx,
    ] {
        let (steps, tx) = run_tx(Purpose::Apply, true, Some(broken), DIGEST);
        assert_eq!(tx.error.unwrap().text(), "broken");
        assert!(steps.contains(&TxStep::RestorePreimage), "{broken:?}");
        assert_eq!(tx.preimage.as_deref(), Some(CONFIG));
        assert!(steps.contains(&TxStep::MarkRolledBack));
        assert!(!steps.contains(&TxStep::RemoveStash));
        assert_eq!(steps.last(), Some(&TxStep::RelaunchAnyway));
    }
    let (steps, _) = run_tx(Purpose::Apply, false, Some(TxStep::ReadBack), DIGEST);
    assert_eq!(steps.last(), Some(&TxStep::MarkRolledBack));
}

#[test]
fn an_untrusted_preimage_is_not_written_back() {
    let (steps, tx) = run_tx(Purpose::Snapshot, false, Some(TxStep::VerifyCommit), "00");
    assert!(!steps.contains(&TxStep::RestorePreimage));
    assert!(steps.contains(&TxStep::MarkRecovery));
    assert_eq!(tx.note.as_deref(), Some("broken; preimage 校验失败"));
    assert!(tx.preimage.is_none());
}

#[test]
fn the_baseline_is_dropped_after_the_restore() {
    let (steps, tx) = run_tx(Purpose::Off, true, None, DIGEST);
    assert!(tx.error.is_none());
    let at = |step| steps.iter().position(|s| *s == step).unwrap();
    assert!(at(TxStep::VerifyCommit) < at(TxStep::DropBaseline));
    assert!(at(TxStep::DropBaseline) < at(TxStep::CommitTx));
    assert_eq!(steps.last(), Some(&TxStep::RelaunchPlain));
    let unsupported = ThemeTx::start(Purpose::Off, false);
    assert!(matches!(
        unsupported.error,
        Some(AppError::UnsupportedPlatform)
    ));
    let mut lost = ThemeTx::start(Purpose::Off, true);
    lost.advance(TxEvent::Lost("panic".to_string()));
    assert_eq!(lost.error.unwrap().text(), "主题还原任务失败: panic");
}

#[test]
fn a_pending_transaction_stands_in_the_way() {
    assert!(ensure_no_pending_tx(Ok(None)).is_ok());
    let pending = PendingTx {
        tx_id: "7".to_string(),
        phase: "Staged".to_string(),
        dir: "/d".to_string(),
    };
    assert_eq!(
        ensure_no_pending_tx(Ok(Some(pending))).unwrap_err().text(),
        "存在未完结的原生主题事务（txId=7，phase=Staged）——重启 Manager 可触发自动恢复，或手动检查 /d"
    );
    assert_eq!(
        ensure_no_pending_tx(Err("io".to_string())).unwrap_err().text(),
        "io"
    );
}

fn run_theme(intent: Intent, yes: &[ThemeStep], broken: &[ThemeStep]) -> (Vec<ThemeStep>, ThemeFlow) {
    let mut flow = ThemeFlow::start(intent, true);
    let mut steps = Vec::new();
    while flow.step != ThemeStep::Finished {
        steps.push(flow.step);
        let event = if broken.contains(&flow.step) {
            ThemeEvent::Failed(engine("broken"))
        } else if yes.contains(&flow.step) {
            ThemeEvent::Yes
        } else {
            ThemeEvent::No
        };
        flow.advance(event);
    }
    (steps, flow)
}

#[test]
fn a_try_on_needs_a_debug_port() {
    let (_, flow) = run_theme(Intent::TryOn, &[], &[]);
    assert_eq!(
        flow.error.unwrap().text(),
        "codex-not-debuggable: Codex 未以调试模式运行"
    );
    let (steps, flow) = run_theme(
        Intent::TryOn,
        &[ThemeStep::ProbePort, ThemeStep::ParseNative],
        &[],
    );
    assert!(flow.error.is_none());
    assert_eq!(
        steps,
        vec![
            ThemeStep::CheckPending,
            ThemeStep::ResolveTheme,
            ThemeStep::LoadTheme,
            ThemeStep::ProbePort,
            ThemeStep::ParseNative,
            ThemeStep::HotApply,
            ThemeStep::SendDirective
        ]
    );
    assert!(matches!(
        ThemeFlow::start(Intent::TryOn, false).error,
        Some(AppError::UnsupportedPlatform)
    ));
}

#[test]
fn a_try_on_after_a_restart() {
    let (steps, flow) = run_theme(Intent::TryOnRestart, &[], &[]);
    assert!(flow.error.is_none());
    assert!(steps.contains(&ThemeStep::LaunchDebuggable));
    assert!(!steps.contains(&ThemeStep::HotApply));
    assert!(!steps.contains(&ThemeStep::RemoveStash));
}

#[test]
fn applying_falls_back_to_the_file() {
    let (steps, flow) = run_theme(
        Intent::Apply,
        &[ThemeStep::ProbePort],
        &[ThemeStep::HotApply],
    );
    assert!(flow.error.is_none());
    assert_eq!(steps.last(), Some(&ThemeStep::FileApply));
    let (steps, flow) = run_theme(Intent::Apply, &[], &[]);
    assert!(flow.error.is_none());
    assert_eq!(steps.iter().filter(|s| **s == ThemeStep::CheckPending).count(), 2);
    assert_eq!(
        steps[steps.len() - 2..],
        [ThemeStep::ConfirmTheme, ThemeStep::RemoveStash]
    );
    let (_, flow) = run_theme(
        Intent::Apply,
        &[ThemeStep::ProbePort],
        &[ThemeStep::SendDirective],
    );
    assert_eq!(flow.error.unwrap().text(), "主题守护未运行");
}

#[test]
fn a_try_on_is_cancelled() {
    let (steps, flow) = run_theme(Intent::Cancel, &[], &[]);
    assert!(flow.error.is_none());
    assert_eq!(steps, vec![ThemeStep::TurnOffLive, ThemeStep::ReadStash]);
    let (steps, _) = run_theme(
        Intent::Cancel,
        &[ThemeStep::ReadStash, ThemeStep::ProbePort],
        &[],
    );
    assert_eq!(
        steps[3..],
        [
            ThemeStep::ConnectTargets,
            ThemeStep::WriteStashValues,
            ThemeStep::RemoveStash
        ]
    );
    let (steps, _) = run_theme(Intent::Cancel, &[ThemeStep::ReadStash], &[]);
    assert!(steps.contains(&ThemeStep::WriteSnapshot));
    let (_, flow) = run_theme(
        Intent::Cancel,
        &[ThemeStep::ReadStash, ThemeStep::ProbeRunning],
        &[],
    );
    assert!(flow.error.unwrap().text().starts_with("Codex 正在运行但没有调试端口"));
}

#[test]
fn a_hot_write_reverts_what_was_half_written() {
    let run = |stash_first, broken: Option<HotStep>| {
        let mut flow = HotFlow::start(stash_first);
        let mut steps = Vec::new();
        while flow.step != HotStep::Finished {
            steps.push(flow.step);
            let event = if broken == Some(flow.step) {
                ThemeEvent::Failed(engine("broken"))
            } else {
                ThemeEvent::Done
            };
            flow.advance(event);
        }
        (steps, flow)
    };
    let (steps, flow) = run(true, None);
    assert!(flow.error.is_none());
    assert_eq!(
        steps,
        vec![
            HotStep::LocatePaths,
            HotStep::CaptureBaseline,
            HotStep::Connect,
            HotStep::EnsureApi,
            HotStep::ReadSnapshot,
            HotStep::ProbeStash,
            HotStep::WriteStash,
            HotStep::WriteValues,
            HotStep::Close
        ]
    );
    let (steps, flow) = run(false, Some(HotStep::WriteValues));
    assert_eq!(flow.error.unwrap().text(), "broken");
    assert_eq!(steps[steps.len() - 2..], [HotStep::Revert, HotStep::Close]);
    assert!(!steps.contains(&HotStep::WriteStash));
}

#[test]
fn waiting_for_the_daemon_and_the_port() {
    let status = |connected_targets, last_error: Option<&str>| {
        Some(DaemonStatus {
            theme_id: Some("a".to_string()),
            connected_targets,
            last_error: last_error.map(str::to_string),
        })
    };
    assert!(matches!(poll_daemon(&status(1, None), "a", true), Poll::Confirmed));
    assert!(matches!(poll_daemon(&status(1, None), "b", false), Poll::Again));
    assert!(matches!(poll_daemon(&status(0, None), "a", false), Poll::Again));
    assert!(matches!(poll_daemon(&None, "a", false), Poll::Again));
    match poll_daemon(&status(1, Some("e")), "a", true) {
        Poll::TimedOut(error) => {
            assert_eq!(error.text(), "注入确认超时：守护未能在 Codex 窗口确认主题")
        }
        other => panic!("{other:?}"),
    }
    assert!(matches!(poll_port(true, true), Poll::Confirmed));
    assert!(matches!(poll_port(false, false), Poll::Again));
    match poll_port(false, true) {
        Poll::TimedOut(error) => assert_eq!(error.text(), "Codex 已启动但调试端口未就绪"),
        other => panic!("{other:?}"),
    }
}

#[test]
fn smaller_decisions_about_themes() {
    let some = Some("a".to_string());
    assert!(ensure_theme_may_restart_codex(false).is_ok());
    assert_eq!(
        ensure_theme_may_restart_codex(true).unwrap_err().text(),
        "有正在进行的操作，请稍后再试"
    );
    assert!(launches_themed(&some, true, false));
    assert!(!launches_themed(&some, true, true));
    assert!(!launches_themed(&None, true, false));
    assert!(themed_launch_done(&some, true, true));
    assert!(!themed_launch_done(&some, true, false));
    assert!(restores_stash_on_startup(true, &None, false));
    assert!(!restores_stash_on_startup(true, &some, false));
    assert!(!restores_stash_on_startup(true, &None, true));
    assert_eq!(selection_after_off(some.clone(), true), None);
    assert_eq!(selection_after_off(some.clone(), false), some);
    assert_eq!(
        strict_native::<u8>(None).unwrap_err().text(),
        "该主题包没有 codexTheme 原生主题块，无法完整应用"
    );
    assert_eq!(
        strict_native::<u8>(Some(Err("bad".to_string()))).unwrap_err().text(),
        "bad"
    );
    assert_eq!(strict_native(Some(Ok(3))).unwrap(), 3);
    assert_eq!(lenient_native::<u8>(Some(Err("bad".to_string()))), None);
    assert_eq!(lenient_native(Some(Ok(3))), Some(3));
    assert_eq!(
        launch_codex_with_cdp("/Applications/Codex.app", THEME_CDP_PORT),
        vec![
            "-n",
            "-a",
            "/Applications/Codex.app",
            "--args",
            "--remote-debugging-address=127.0.0.1",
            "--remote-debugging-port=9345"
        ]
    );
    assert!(check_launch_path(true, "a", "b").is_ok());
    assert_eq!(
        check_launch_path(false, "a", "b").unwrap_err().text(),
        "Codex 安装位置在重启前发生变化：a -> b"
    );
}

#[test]
fn the_stash_of_a_try_on() {
    let first = stash_for_try_on(None, "a", "{}", 12);
    assert_eq!(first.saved_at, "unix:12");
    assert_eq!(first.settings, "{}");
    let second = stash_for_try_on(Some(first), "b", "{1}", 99);
    assert_eq!(second.theme_id, "a");
    assert_eq!(second.settings, "{}");
    let mut stash = Some(second);
    consume_try_on_stash(&mut stash);
    assert!(stash.is_none());
}

#[test]
fn the_state_of_theming() {
    let settings = AppSettings {
        source: UpdateSource::Auto,
        custom_url: String::new(),
        proxy_mode: ProxyMode::System,
        custom_proxy_url: String::new(),
        signed_only: true,
        confirm_close: true,
        windows_install_mode: "msix".to_string(),
        install_root: String::new(),
        disable_codex_self_updates: false,
        codex_theme: Some("a".to_string()),
        codex_theme_dir: None,
        codex_theme_store_dir: None,
    };
    let report = theme_status(
        &settings,
        &Some("/skins".to_string()),
        true,
        None,
        false,
        true,
        None,
        true,
        Some(true),
    );
    assert!(report.supported && report.codex_running && report.try_on_stash);
    assert!(!report.cdp_ready && !report.native_backup_present);
    assert!(report.recovery_required);
    assert_eq!(report.active_theme.as_deref(), Some("a"));
    assert_eq!(report.store_dir.as_deref(), Some("/skins"));
    assert!(report.daemon.is_none());
}

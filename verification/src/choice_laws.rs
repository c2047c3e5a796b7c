//! What is decided about settings, policies, operations and machines, case by case.

use vstd::prelude::*;
use crate::errors::ErrorView;
use crate::install_flow::{
    historical_verdict, is_historical, system_of, unconfirmed, x64_runs, Compatibility,
    InstallKind,
};
use crate::operations::{
    busy_report, in_flight, is_busy, is_stale, lists, retry_verdict, token_error, AutoStageReport,
    LeaseFault, OperationError, RetryGuard,
};
use crate::policy::{
    after_all, after_mac, after_windows, must_restore, restorable, state_code, state_of,
    HistoricalMacEvidence, HistoricalPolicyInstallState, OperationEvidence, PolicyTracker,
};
use crate::settings::{
    accepted_settings, certain, custom_base, proxy_verdict, updater_network, usable_source,
    ConfigStatus, NetworkChoice, ProxyMode, SettingsView, StoreLoadHealth, UpdateSource,
};
use crate::target::{
    arch_name, asks_compatibility, cannot_run, release_arch_name, runs, Architecture,
    OperatingSystem, ReleaseArchitecture, Target,
};
use crate::text::{decimal, is_white, trimmed};
use crate::text_laws::{all_white, law_trimming_takes_white_space};
use crate::theme_flow::{confirms, debug_launch_args, saved_at, DaemonStatus};
use crate::url_policy::source_base;

verus! {

// ---------------------------------------------------------------------------
// The self-update policy
// ---------------------------------------------------------------------------

/// Each state has a number of its own and is read back from it; a number that no state has
/// stands for the first.
pub proof fn law_states_have_numbers(state: HistoricalPolicyInstallState, code: u8)
    ensures
        state_of(state_code(state)) == state,
        state_code(HistoricalPolicyInstallState::PreCommit) == 0,
        state_code(HistoricalPolicyInstallState::Mutated) == 1,
        state_code(HistoricalPolicyInstallState::RolledBack) == 2,
        state_code(HistoricalPolicyInstallState::OutcomeUnknown) == 3,
        code > 3 ==> state_of(code) == HistoricalPolicyInstallState::PreCommit,
{
}

/// Whether none of the reports leaves the outcome open.
pub open spec fn all_clear(reports: Seq<OperationEvidence>) -> bool {
    forall|i: int|
        0 <= i < reports.len() ==> #[trigger] reports[i] != OperationEvidence::OutcomeAmbiguous
}

proof fn lemma_clear_stays_known(reports: Seq<OperationEvidence>)
    requires
        all_clear(reports),
    ensures
        after_all(HistoricalPolicyInstallState::PreCommit, reports)
            != HistoricalPolicyInstallState::OutcomeUnknown,
        (forall|i: int|
            0 <= i < reports.len() ==> #[trigger] reports[i]
                != OperationEvidence::MutationStarted) ==> after_all(
            HistoricalPolicyInstallState::PreCommit,
            reports,
        ) == HistoricalPolicyInstallState::PreCommit,
    decreases reports.len(),
{
    if reports.len() > 0 {
        let less = reports.drop_last();
        assert forall|i: int| 0 <= i < less.len() implies #[trigger] less[i]
            != OperationEvidence::OutcomeAmbiguous by {
            assert(less[i] == reports[i]);
        }
        lemma_clear_stays_known(less);
        if forall|i: int|
            0 <= i < reports.len() ==> #[trigger] reports[i]
                != OperationEvidence::MutationStarted {
            assert forall|i: int| 0 <= i < less.len() implies #[trigger] less[i]
                != OperationEvidence::MutationStarted by {
                assert(less[i] == reports[i]);
            }
        }
        assert(reports.last() == reports[reports.len() - 1]);
    }
}

/// Where no report leaves the outcome open, the last word decides: after a change was begun
/// the application is changed, after one was undone the old policy may come back, and where
/// none was begun nothing has changed.
pub proof fn law_last_report_decides(reports: Seq<OperationEvidence>)
    requires
        all_clear(reports),
    ensures
        reports.len() > 0 && reports.last() == OperationEvidence::MutationStarted ==> after_all(
            HistoricalPolicyInstallState::PreCommit,
            reports,
        ) == HistoricalPolicyInstallState::Mutated,
        reports.len() > 0 && reports.last() == OperationEvidence::MutationRolledBack
            ==> restorable(after_all(HistoricalPolicyInstallState::PreCommit, reports)),
        (forall|i: int|
            0 <= i < reports.len() ==> #[trigger] reports[i]
                != OperationEvidence::MutationStarted) ==> after_all(
            HistoricalPolicyInstallState::PreCommit,
            reports,
        ) == HistoricalPolicyInstallState::PreCommit,
        !restorable(HistoricalPolicyInstallState::Mutated),
        !restorable(HistoricalPolicyInstallState::OutcomeUnknown),
{
    lemma_clear_stays_known(reports);
    if reports.len() > 0 {
        let less = reports.drop_last();
        assert forall|i: int| 0 <= i < less.len() implies #[trigger] less[i]
            != OperationEvidence::OutcomeAmbiguous by {
            assert(less[i] == reports[i]);
        }
        lemma_clear_stays_known(less);
    }
}

/// What a single report makes of a state.
pub proof fn law_reports_change_the_state(state: HistoricalPolicyInstallState)
    ensures
        after_mac(HistoricalMacEvidence::MutationStarted) == HistoricalPolicyInstallState::Mutated,
        after_mac(HistoricalMacEvidence::MutationRolledBack)
            == HistoricalPolicyInstallState::RolledBack,
        after_windows(state, OperationEvidence::OutcomeAmbiguous)
            == HistoricalPolicyInstallState::OutcomeUnknown,
        state != HistoricalPolicyInstallState::OutcomeUnknown ==> after_windows(
            state,
            OperationEvidence::MutationStarted,
        ) == HistoricalPolicyInstallState::Mutated,
        after_windows(
            HistoricalPolicyInstallState::Mutated,
            OperationEvidence::MutationRolledBack,
        ) == HistoricalPolicyInstallState::RolledBack,
        state != HistoricalPolicyInstallState::Mutated ==> after_windows(
            state,
            OperationEvidence::MutationRolledBack,
        ) == state,
{
}

/// The old policy comes back exactly where it is another one, the new one was tried, it is not
/// back yet, and the application was not changed or was changed back.
pub proof fn law_policy_comes_back(t: PolicyTracker)
    ensures
        must_restore(t) <==> t.previous != t.requested && t.attempted && !t.restored && t.state
            != 1 && t.state != 3,
{
}

// ---------------------------------------------------------------------------
// Settings
// ---------------------------------------------------------------------------

/// A source is used as it is chosen, but the official one on Windows counts as automatic.
pub proof fn law_sources_are_used_as_chosen(source: UpdateSource, os: OperatingSystem)
    ensures
        usable_source(UpdateSource::Official, OperatingSystem::Windows) == UpdateSource::Auto,
        source != UpdateSource::Official ==> usable_source(source, os) == source,
        os != OperatingSystem::Windows ==> usable_source(source, os) == source,
{
}

/// Settings are beyond doubt exactly where the store was healthy and there is nothing to
/// remark.
pub proof fn law_doubtful_settings_are_told(health: StoreLoadHealth)
    ensures
        health.status != ConfigStatus::Healthy ==> !certain(health),
        health.detail is Some ==> !certain(health),
        health.unknown_source is Some ==> !certain(health),
        health.status == ConfigStatus::Healthy && health.detail is None
            && health.unknown_source is None ==> certain(health),
{
}

/// A proxy that the guard passes is used in the form that the guard gives, unless it is blank;
/// one that the guard refuses is refused for the guard's reason.
pub proof fn law_proxies_are_used_as_guarded(
    a: Seq<char>,
    proxy: Seq<char>,
    b: Seq<char>,
    url: Seq<char>,
    raw: Seq<char>,
    reason: Seq<char>,
)
    requires
        all_white(a),
        all_white(b),
        proxy.len() > 0,
        !is_white(proxy[0]),
        !is_white(proxy.last()),
    ensures
        proxy_verdict(a + proxy + b, Ok(url)) == Ok::<Seq<char>, ErrorView>(url),
        proxy_verdict(a, Ok(url)) == Err::<Seq<char>, ErrorView>(
            ErrorView::Engine("代理不能为空"@),
        ),
        proxy_verdict(raw, Err(reason)) == Err::<Seq<char>, ErrorView>(ErrorView::Engine(reason)),
{
    let none = Seq::<char>::empty();
    law_trimming_takes_white_space(a, proxy, b);
    law_trimming_takes_white_space(a, none, none);
    assert(a + none + none =~= a);
}

/// The updater takes the network that was chosen; only a proxy that is no URL is refused.
pub proof fn law_updater_takes_the_chosen_network(
    chosen: NetworkChoice,
    problem: Option<Seq<char>>,
)
    ensures
        problem is None ==> updater_network(chosen, problem) == Ok::<NetworkChoice, ErrorView>(
            chosen,
        ),
        !(chosen is Proxy) ==> updater_network(chosen, problem) == Ok::<NetworkChoice, ErrorView>(
            chosen,
        ),
        chosen is Proxy && problem is Some ==> updater_network(chosen, problem) == Err::<
            NetworkChoice,
            ErrorView,
        >(ErrorView::Engine("invalid proxy URL: "@ + problem->0)),
{
}

/// A custom source is used by its base; a blank one, or one of which no base is left, gives way
/// to the mirror, and one that the guard refuses is refused for the guard's reason.
pub proof fn law_custom_sources_are_used_by_their_base(
    raw: Seq<char>,
    guard: Result<Seq<char>, Seq<char>>,
    mirror: Seq<char>,
)
    ensures
        trimmed(raw).len() == 0 ==> custom_base(raw, guard, mirror) == Ok::<Seq<char>, ErrorView>(
            mirror,
        ),
        trimmed(raw).len() > 0 && guard is Err ==> custom_base(raw, guard, mirror) == Err::<
            Seq<char>,
            ErrorView,
        >(ErrorView::Engine(guard->Err_0)),
        trimmed(raw).len() > 0 && guard is Ok && source_base(guard->Ok_0) is Some ==> custom_base(
            raw,
            guard,
            mirror,
        ) == Ok::<Seq<char>, ErrorView>(source_base(guard->Ok_0)->0),
        trimmed(raw).len() > 0 && guard is Ok && source_base(guard->Ok_0) is None ==> custom_base(
            raw,
            guard,
            mirror,
        ) == Ok::<Seq<char>, ErrorView>(mirror),
{
}

/// Settings are saved exactly where a custom source and a custom proxy have passed their
/// guards; a guard that is not asked does not matter. Saved settings require signed packages,
/// hold what the guards gave, and are otherwise those that were to be saved.
pub proof fn law_settings_are_saved_where_the_guards_pass(
    s: SettingsView,
    os: OperatingSystem,
    source_guard: Result<Seq<char>, Seq<char>>,
    proxy_guard: Result<Seq<char>, Seq<char>>,
)
    ensures
        ({
            let r = accepted_settings(s, os, source_guard, proxy_guard);
            let source_passes = s.source == UpdateSource::Custom ==> source_guard is Ok;
            let proxy_passes = s.proxy_mode == ProxyMode::Custom ==> proxy_guard is Ok && trimmed(
                s.custom_proxy_url,
            ).len() > 0;
            &&& r is Ok <==> source_passes && proxy_passes
            &&& !source_passes ==> r == Err::<SettingsView, ErrorView>(
                ErrorView::Engine(source_guard->Err_0),
            )
            &&& source_passes && !proxy_passes && proxy_guard is Err ==> r == Err::<
                SettingsView,
                ErrorView,
            >(ErrorView::Engine(proxy_guard->Err_0))
            &&& source_passes && !proxy_passes && proxy_guard is Ok ==> r == Err::<
                SettingsView,
                ErrorView,
            >(ErrorView::Engine("代理不能为空"@))
            &&& r is Ok ==> ({
                let saved = r->Ok_0;
                &&& saved.signed_only
                &&& saved.source == (if os == OperatingSystem::Windows && s.source
                    == UpdateSource::Official {
                    UpdateSource::Auto
                } else {
                    s.source
                })
                &&& s.source == UpdateSource::Custom ==> saved.custom_url == source_guard->Ok_0
                &&& s.source != UpdateSource::Custom ==> saved.custom_url == s.custom_url
                &&& s.proxy_mode == ProxyMode::Custom ==> saved.custom_proxy_url
                    == proxy_guard->Ok_0
                &&& s.proxy_mode != ProxyMode::Custom ==> saved.custom_proxy_url
                    == s.custom_proxy_url
                &&& saved.proxy_mode == s.proxy_mode
                &&& saved.confirm_close == s.confirm_close
                &&& saved.windows_install_mode == s.windows_install_mode
                &&& saved.install_root == s.install_root
                &&& saved.disable_codex_self_updates == s.disable_codex_self_updates
                &&& saved.codex_theme == s.codex_theme
                &&& saved.codex_theme_dir == s.codex_theme_dir
                &&& saved.codex_theme_store_dir == s.codex_theme_store_dir
            })
        }),
{
}

// ---------------------------------------------------------------------------
// Operations
// ---------------------------------------------------------------------------

/// A token that is not valid becomes a stale expectation; every other refusal stays what it is.
pub proof fn law_refused_tokens_are_told(e: OperationError)
    ensures
        e.fault == LeaseFault::InvalidToken ==> token_error(e) == ErrorView::StaleExpectation(
            "操作令牌无效或已过期，请重新检查后再确认"@,
        ),
        e.fault != LeaseFault::InvalidToken ==> token_error(e) == e.error@,
        is_busy(e) <==> e.fault == LeaseFault::BusySameProcess || e.fault
            == LeaseFault::BusyOtherProcess,
{
}

/// Bytes are in flight exactly while fewer than all have come and it is known how many there
/// are.
pub proof fn law_bytes_are_in_flight(downloaded: u64, total: u64)
    ensures
        downloaded < total ==> in_flight(downloaded, total),
        downloaded >= total ==> !in_flight(downloaded, total),
{
}

/// What is reported of a download in advance that another operation kept from being tried.
pub proof fn law_busy_downloads_are_reported(
    r: AutoStageReport,
    enabled: bool,
    allow_metered: bool,
)
    requires
        busy_report(r, enabled, allow_metered),
    ensures
        r.enabled == enabled,
        r.allow_metered == allow_metered,
        !r.attempted,
        r.skipped,
        r.reason@ == "operation-busy"@,
        r.notes@.len() == 1,
        r.notes@[0]@
            == "Automatic Windows pre-download was skipped because another operation is running."@,
{
}

/// Only a stale expectation is one that can never be resumed.
pub proof fn law_stale_errors_are_told(words: Seq<char>)
    ensures
        is_stale(ErrorView::StaleExpectation(words)),
        !is_stale(ErrorView::Engine(words)),
        !is_stale(ErrorView::Internal(words)),
        !is_stale(ErrorView::Busy(words)),
        !is_stale(ErrorView::UnsupportedPlatform),
{
}

/// A retry that removes nothing of the user runs under an ordinary lease; one that removes the
/// user's data runs where it is confirmed and has a token, and is else refused for what is
/// missing.
pub proof fn law_retries_are_decided(confirm: Option<bool>, has_token: bool)
    ensures
        retry_verdict(false, confirm, has_token) == Ok::<RetryGuard, ErrorView>(
            RetryGuard::Scoped,
        ),
        retry_verdict(true, Some(true), true) == Ok::<RetryGuard, ErrorView>(
            RetryGuard::Destructive,
        ),
        confirm != Some(true) ==> retry_verdict(true, confirm, has_token) == Err::<
            RetryGuard,
            ErrorView,
        >(ErrorView::Internal("清除用户数据需要二次确认（confirm=true）"@)),
        retry_verdict(true, Some(true), false) == Err::<RetryGuard, ErrorView>(
            ErrorView::Internal(
                "清除用户数据需要破坏性令牌（先 arm_destructive uninstall）"@,
            ),
        ),
{
}

/// An action is listed where some entry is that very text.
pub proof fn law_actions_are_listed(actions: Seq<String>, i: int, action: Seq<char>)
    ensures
        0 <= i < actions.len() ==> lists(actions, actions[i]@),
        (forall|k: int| 0 <= k < actions.len() ==> (#[trigger] actions[k])@ != action)
            ==> !lists(actions, action),
{
}

// ---------------------------------------------------------------------------
// Machines and packages
// ---------------------------------------------------------------------------

/// A machine runs the packages of its own kind, an ARM64 machine those for x64 too where the
/// compatibility layer is there, and nothing else.
pub proof fn law_machines_run_their_packages(arch: Architecture, compatible: bool)
    ensures
        runs(Architecture::X64, ReleaseArchitecture::X64, compatible),
        runs(Architecture::Arm64, ReleaseArchitecture::Arm64, compatible),
        runs(Architecture::Arm64, ReleaseArchitecture::X64, compatible) == compatible,
        !runs(Architecture::X64, ReleaseArchitecture::Arm64, compatible),
        !runs(Architecture::Unknown, ReleaseArchitecture::X64, compatible),
        !runs(Architecture::Unknown, ReleaseArchitecture::Arm64, compatible),
{
}

/// Why a package does not run: on an ARM64 machine of each system the missing layer is named,
/// else the two kinds.
pub proof fn law_unrunnable_packages_are_explained(
    os: OperatingSystem,
    arch: Architecture,
    selected: ReleaseArchitecture,
)
    ensures
        cannot_run(OperatingSystem::Macos, Architecture::Arm64, ReleaseArchitecture::X64)
            == "当前 Apple Silicon 设备未安装或无法使用 Rosetta 2，拒绝替换为无法运行的 x64 Codex；请改选 arm64，或先安装 Rosetta 2"@,
        cannot_run(OperatingSystem::Windows, Architecture::Arm64, ReleaseArchitecture::X64)
            == "当前 Windows ARM64 设备不支持 x64 仿真，拒绝替换为无法运行的 x64 Codex；请改选 arm64，或升级到支持 x64 仿真的 Windows 版本"@,
        arch != Architecture::Arm64 || selected != ReleaseArchitecture::X64 ==> cannot_run(
            os,
            arch,
            selected,
        ) == "安装包架构 "@ + release_arch_name(selected) + " 无法在当前设备架构 "@ + arch_name(
            arch,
        ) + " 上运行"@,
        asks_compatibility(OperatingSystem::Macos, arch, selected) == (arch == Architecture::Arm64
            && selected == ReleaseArchitecture::X64),
        asks_compatibility(OperatingSystem::Windows, arch, selected) == (arch
            == Architecture::Arm64 && selected == ReleaseArchitecture::X64),
        os != OperatingSystem::Macos && os != OperatingSystem::Windows ==> !asks_compatibility(
            os,
            arch,
            selected,
        ),
        release_arch_name(ReleaseArchitecture::Arm64) == "arm64"@,
        release_arch_name(ReleaseArchitecture::X64) == "x64"@,
        arch_name(Architecture::Arm64) == "Arm64"@,
        arch_name(Architecture::X64) == "X64"@,
        arch_name(Architecture::Unknown) == "Unknown"@,
{
}

/// Each command has one system; the words for one that was not confirmed name it.
pub proof fn law_commands_belong_to_a_system()
    ensures
        system_of(InstallKind::MacPerform) == OperatingSystem::Macos,
        system_of(InstallKind::MacInstall) == OperatingSystem::Macos,
        system_of(InstallKind::MacHistorical) == OperatingSystem::Macos,
        system_of(InstallKind::WinPerform) == OperatingSystem::Windows,
        system_of(InstallKind::WinHistorical) == OperatingSystem::Windows,
        unconfirmed(InstallKind::MacPerform) == "拒绝执行：破坏性更新必须带显式 confirm"@,
        unconfirmed(InstallKind::MacHistorical)
            == "拒绝执行：历史版本安装必须带显式 confirm"@,
        unconfirmed(InstallKind::WinPerform)
            == "拒绝执行：Windows 更新必须带显式 confirm"@,
        unconfirmed(InstallKind::WinHistorical)
            == "拒绝执行：Windows 历史版本安装必须带显式 confirm"@,
        is_historical(InstallKind::MacHistorical) && is_historical(InstallKind::WinHistorical),
        !is_historical(InstallKind::MacPerform) && !is_historical(InstallKind::MacInstall),
        !is_historical(InstallKind::WinPerform),
{
}

/// A chosen release passes exactly where the system is the command's, it is confirmed, the
/// macOS installation is known wholly or not at all, the processor is known, and the machine
/// runs its packages: those of its own kind, and on an ARM64 machine those for x64 where the
/// layer of the system is there. Each other one is refused for what is wrong with it.
pub proof fn law_chosen_releases_pass(
    windows: bool,
    target: Target,
    confirm: bool,
    path_known: bool,
    build_known: bool,
    raw: Seq<char>,
    known: Option<ReleaseArchitecture>,
    c: Compatibility,
)
    ensures
        ({
            let kind = if windows {
                InstallKind::WinHistorical
            } else {
                InstallKind::MacHistorical
            };
            let here = if windows {
                target.os == OperatingSystem::Windows
            } else {
                target.os == OperatingSystem::Macos
            };
            let layer = if windows {
                c.windows_x64
            } else {
                c.macos_x64
            };
            let whole = windows || path_known == build_known;
            let fits = match known {
                Some(ReleaseArchitecture::Arm64) => target.arch == Architecture::Arm64,
                Some(ReleaseArchitecture::X64) => target.arch == Architecture::X64 || (target.arch
                    == Architecture::Arm64 && layer),
                None => false,
            };
            let r = historical_verdict(
                kind,
                target,
                confirm,
                path_known,
                build_known,
                raw,
                known,
                c,
            );
            &&& r is Ok <==> here && confirm && whole && fits
            &&& r is Ok ==> known == Some(r->Ok_0)
            &&& !here ==> r == Err::<ReleaseArchitecture, ErrorView>(
                ErrorView::UnsupportedPlatform,
            )
            &&& here && !confirm ==> r == Err::<ReleaseArchitecture, ErrorView>(
                ErrorView::Internal(unconfirmed(kind)),
            )
            &&& here && confirm && !whole ==> r == Err::<ReleaseArchitecture, ErrorView>(
                ErrorView::StaleExpectation(
                    "当前 macOS 安装快照不完整，请重新检查后再确认"@,
                ),
            )
            &&& here && confirm && whole && known is None ==> r == Err::<
                ReleaseArchitecture,
                ErrorView,
            >(
                ErrorView::Internal(
                    "不支持的安装包架构："@ + raw + "（仅支持 arm64 / x64）"@,
                ),
            )
            &&& here && confirm && whole && known is Some && !fits ==> r == Err::<
                ReleaseArchitecture,
                ErrorView,
            >(ErrorView::Engine(cannot_run(target.os, target.arch, known->0)))
        }),
{
}

/// The layer of a system decides only about an x64 package on an ARM64 machine of that system.
pub proof fn law_layers_decide_on_their_system(
    target: Target,
    selected: ReleaseArchitecture,
    c: Compatibility,
)
    ensures
        target.arch == Architecture::Arm64 && selected == ReleaseArchitecture::X64 && target.os
            == OperatingSystem::Macos ==> x64_runs(target, selected, c) == c.macos_x64,
        target.arch == Architecture::Arm64 && selected == ReleaseArchitecture::X64 && target.os
            == OperatingSystem::Windows ==> x64_runs(target, selected, c) == c.windows_x64,
        target.arch != Architecture::Arm64 || selected != ReleaseArchitecture::X64 ==> x64_runs(
            target,
            selected,
            c,
        ),
{
}

// ---------------------------------------------------------------------------
// Themes
// ---------------------------------------------------------------------------

/// The daemon confirms a theme exactly where it has that very theme, reports no error, and a
/// window is connected.
pub proof fn law_daemon_confirms_the_theme(status: DaemonStatus, id: Seq<char>)
    ensures
        confirms(status, id) ==> status.theme_id is Some && status.theme_id->0@ == id,
        status.theme_id is Some && status.theme_id->0@ == id && status.connected_targets >= 1
            && status.last_error is None ==> confirms(status, id),
        status.theme_id is None || status.connected_targets == 0 || status.last_error is Some
            ==> !confirms(status, id),
{
}

/// The application is opened anew by its path, with its debug port on the loopback address
/// alone; a stash says when it was saved in seconds.
pub proof fn law_debug_port_is_local(path: Seq<char>, port: u16, seconds: u64)
    ensures
        debug_launch_args(path, port) == seq![
            "-n"@,
            "-a"@,
            path,
            "--args"@,
            "--remote-debugging-address=127.0.0.1"@,
            "--remote-debugging-port="@ + decimal(port as nat),
        ],
        saved_at(seconds) == "unix:"@ + decimal(seconds as nat),
{
}

/// The words of an error are those that it was made with.
pub proof fn law_errors_keep_their_words(words: Seq<char>)
    ensures
        ErrorView::Engine(words).words() == words,
        ErrorView::Internal(words).words() == words,
        ErrorView::StaleExpectation(words).words() == words,
        ErrorView::Busy(words).words() == words,
        ErrorView::UnsupportedPlatform.words() == "unsupported platform"@,
{
}

} // verus!

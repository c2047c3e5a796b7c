//! The manager's settings: what is accepted, and what follows from them.

use vstd::prelude::*;
use crate::errors::{engine, said, stale, AppError, ErrorView};
use crate::target::OperatingSystem;
use crate::text::{chars_of, same, str_eq, text_of, trim, trimmed};
use crate::url_policy::{
    normalize_windows_source_base, source_base, text_view, url_fault, url_problem,
};

verus! {

/// Where updates come from.
#[derive(Debug, Clone, Copy, PartialEq, Eq, Structural)]
pub enum UpdateSource {
    Auto,
    Official,
    Mirror,
    Custom,
}

/// How the network is reached.
#[derive(Debug, Clone, Copy, PartialEq, Eq, Structural)]
pub enum ProxyMode {
    System,
    Direct,
    Custom,
}

/// The settings that the manager keeps.
#[derive(Debug)]
pub struct AppSettings {
    pub source: UpdateSource,
    pub custom_url: String,
    pub proxy_mode: ProxyMode,
    pub custom_proxy_url: String,
    pub signed_only: bool,
    pub confirm_close: bool,
    pub windows_install_mode: String,
    pub install_root: String,
    pub disable_codex_self_updates: bool,
    pub codex_theme: Option<String>,
    pub codex_theme_dir: Option<String>,
    pub codex_theme_store_dir: Option<String>,
}

/// The settings, with texts as characters.
pub struct SettingsView {
    pub source: UpdateSource,
    pub custom_url: Seq<char>,
    pub proxy_mode: ProxyMode,
    pub custom_proxy_url: Seq<char>,
    pub signed_only: bool,
    pub confirm_close: bool,
    pub windows_install_mode: Seq<char>,
    pub install_root: Seq<char>,
    pub disable_codex_self_updates: bool,
    pub codex_theme: Option<Seq<char>>,
    pub codex_theme_dir: Option<Seq<char>>,
    pub codex_theme_store_dir: Option<Seq<char>>,
}

impl View for AppSettings {
    type V = SettingsView;

    open spec fn view(&self) -> SettingsView {
        SettingsView {
            source: self.source,
            custom_url: self.custom_url@,
            proxy_mode: self.proxy_mode,
            custom_proxy_url: self.custom_proxy_url@,
            signed_only: self.signed_only,
            confirm_close: self.confirm_close,
            windows_install_mode: self.windows_install_mode@,
            install_root: self.install_root@,
            disable_codex_self_updates: self.disable_codex_self_updates,
            codex_theme: text_view(self.codex_theme),
            codex_theme_dir: text_view(self.codex_theme_dir),
            codex_theme_store_dir: text_view(self.codex_theme_store_dir),
        }
    }
}

/// The source that a system can use: Windows has no official one.
pub open spec fn usable_source(source: UpdateSource, os: OperatingSystem) -> UpdateSource {
    if os == OperatingSystem::Windows && source == UpdateSource::Official {
        UpdateSource::Auto
    } else {
        source
    }
}

/// Brings the source in line with the system.
pub fn normalize_settings_for_target(settings: &mut AppSettings, os: OperatingSystem)
    ensures
        final(settings)@ == (SettingsView {
            source: usable_source(old(settings)@.source, os),
            ..old(settings)@
        }),
{
    if os == OperatingSystem::Windows && settings.source == UpdateSource::Official {
        settings.source = UpdateSource::Auto;
    }
}

/// How the store of the settings was found.
#[derive(Debug, Clone, Copy, PartialEq, Eq, Structural)]
pub enum ConfigStatus {
    Healthy,
    Missing,
    Recovered,
    Corrupt,
}

/// How the settings were loaded.
#[derive(Debug)]
pub struct StoreLoadHealth {
    pub status: ConfigStatus,
    /// A source that this version does not know.
    pub unknown_source: Option<String>,
    pub detail: Option<String>,
}

impl StoreLoadHealth {
    /// Nothing to remark.
    pub fn ok() -> (r: StoreLoadHealth)
        ensures
            r.status == ConfigStatus::Healthy,
            r.unknown_source is None,
            r.detail is None,
    {
        StoreLoadHealth { status: ConfigStatus::Healthy, unknown_source: None, detail: None }
    }

    /// The store cannot be read.
    pub fn corrupt(detail: String) -> (r: StoreLoadHealth)
        ensures
            r.status == ConfigStatus::Corrupt,
            r.unknown_source is None,
            r.detail == Some(detail),
    {
        StoreLoadHealth { status: ConfigStatus::Corrupt, unknown_source: None, detail: Some(detail) }
    }
}

/// Whether the settings are what the user chose, beyond doubt.
pub open spec fn certain(health: StoreLoadHealth) -> bool {
    health.status == ConfigStatus::Healthy && health.detail is None && health.unknown_source is None
}

/// The settings for an automatic network check, refused where they are in doubt.
pub fn settings_or_strict_error(settings: AppSettings, health: StoreLoadHealth) -> (r: Result<
    AppSettings,
    AppError,
>)
    ensures
        match r {
            Ok(s) => certain(health) && s == settings,
            Err(e) => !certain(health) && e@ == ErrorView::Internal(
                "无法可靠读取自动更新设置："@ + match health.detail {
                    Some(d) => d@,
                    None => "设置存储状态异常"@,
                },
            ),
        },
{
    if health.status != ConfigStatus::Healthy || health.detail.is_some()
        || health.unknown_source.is_some() {
        let words = match &health.detail {
            Some(d) => said("无法可靠读取自动更新设置：", d.as_str()),
            None => said("无法可靠读取自动更新设置：", "设置存储状态异常"),
        };
        return Err(AppError::Internal(words));
    }
    Ok(settings)
}

/// The installation mode: portable where it was chosen, else packaged.
pub fn windows_install_mode_for_settings(settings: &AppSettings) -> (r: &'static str)
    ensures
        r@ == (if settings@.windows_install_mode == "portable"@ {
            "portable"@
        } else {
            "msix"@
        }),
{
    if str_eq(settings.windows_install_mode.as_str(), "portable") {
        "portable"
    } else {
        "msix"
    }
}

/// What a guard says of a URL: the form to use, or the reason to refuse it.
pub open spec fn guard_view(verdict: Result<String, String>) -> Result<Seq<char>, Seq<char>> {
    match verdict {
        Ok(t) => Ok(t@),
        Err(t) => Err(t@),
    }
}

/// The proxy to use: what the guard makes of it, or its reason. A blank one is refused,
/// whatever the guard says.
pub open spec fn proxy_verdict(raw: Seq<char>, guard: Result<Seq<char>, Seq<char>>) -> Result<
    Seq<char>,
    ErrorView,
> {
    match guard {
        Err(reason) => Err(ErrorView::Engine(reason)),
        Ok(url) => if trimmed(raw).len() == 0 {
            Err(ErrorView::Engine("代理不能为空"@))
        } else {
            Ok(url)
        },
    }
}

/// The proxy to use, given what the URL guard says of it.
pub fn validated_custom_proxy_for_settings(raw: &str, guard: Result<String, String>) -> (r: Result<
    String,
    AppError,
>)
    ensures
        match r {
            Ok(url) => proxy_verdict(raw@, guard_view(guard)) == Ok::<Seq<char>, ErrorView>(url@),
            Err(e) => proxy_verdict(raw@, guard_view(guard)) == Err::<Seq<char>, ErrorView>(e@),
        },
{
    let url = match guard {
        Ok(url) => url,
        Err(reason) => {
            return Err(AppError::Engine(reason));
        },
    };
    let all = chars_of(raw);
    if trim(all.as_slice()).len() == 0 {
        return Err(engine("代理不能为空"));
    }
    Ok(url)
}

/// How the network is reached.
#[derive(Debug)]
pub enum NetworkChoice {
    System,
    Direct,
    Proxy(String),
}

/// How the network is reached under the settings; a package that is already on the
/// disk needs no choice. `guard` is what the URL guard says of the custom proxy.
pub fn network_for_settings(
    settings: &AppSettings,
    local_package: bool,
    guard: Result<String, String>,
) -> (r: Result<NetworkChoice, AppError>)
    ensures
        match r {
            Ok(NetworkChoice::System) => local_package || settings.proxy_mode
                == ProxyMode::System,
            Ok(NetworkChoice::Direct) => !local_package && settings.proxy_mode
                == ProxyMode::Direct,
            Ok(NetworkChoice::Proxy(url)) => !local_package && settings.proxy_mode
                == ProxyMode::Custom && proxy_verdict(
                settings@.custom_proxy_url,
                guard_view(guard),
            ) == Ok::<Seq<char>, ErrorView>(url@),
            Err(e) => !local_package && settings.proxy_mode == ProxyMode::Custom
                && proxy_verdict(settings@.custom_proxy_url, guard_view(guard)) == Err::<
                Seq<char>,
                ErrorView,
            >(e@),
        },
{
    if local_package {
        return Ok(NetworkChoice::System);
    }
    match settings.proxy_mode {
        ProxyMode::System => Ok(NetworkChoice::System),
        ProxyMode::Direct => Ok(NetworkChoice::Direct),
        ProxyMode::Custom => match validated_custom_proxy_for_settings(
            settings.custom_proxy_url.as_str(),
            guard,
        ) {
            Ok(url) => Ok(NetworkChoice::Proxy(url)),
            Err(e) => Err(e),
        },
    }
}

/// The network of the manager's own updater. A proxy must be a URL; `problem` says why it
/// is none.
pub open spec fn updater_network(
    chosen: NetworkChoice,
    problem: Option<Seq<char>>,
) -> Result<NetworkChoice, ErrorView> {
    match (chosen, problem) {
        (NetworkChoice::Proxy(_), Some(words)) => Err(
            ErrorView::Engine("invalid proxy URL: "@ + words),
        ),
        _ => Ok(chosen),
    }
}

/// The network of the manager's own updater, once its proxy was parsed.
pub fn judge_updater_network(chosen: NetworkChoice, problem: Option<String>) -> (r: Result<
    NetworkChoice,
    AppError,
>)
    ensures
        match r {
            Ok(n) => updater_network(chosen, text_view(problem)) == Ok::<NetworkChoice, ErrorView>(
                n,
            ),
            Err(e) => updater_network(chosen, text_view(problem)) == Err::<
                NetworkChoice,
                ErrorView,
            >(e@),
        },
{
    match (&chosen, problem) {
        (NetworkChoice::Proxy(_), Some(words)) => Err(
            AppError::Engine(said("invalid proxy URL: ", words.as_str())),
        ),
        _ => Ok(chosen),
    }
}

/// The network of the manager's own updater under the settings.
pub fn manager_updater_network(settings: &AppSettings, guard: Result<String, String>) -> (r: Result<
    NetworkChoice,
    AppError,
>)
    ensures
        match r {
            Ok(NetworkChoice::System) => settings.proxy_mode == ProxyMode::System,
            Ok(NetworkChoice::Direct) => settings.proxy_mode == ProxyMode::Direct,
            Ok(NetworkChoice::Proxy(url)) => settings.proxy_mode == ProxyMode::Custom
                && proxy_verdict(settings@.custom_proxy_url, guard_view(guard)) == Ok::<
                Seq<char>,
                ErrorView,
            >(url@) && url_fault(url@) is None,
            Err(e) => settings.proxy_mode == ProxyMode::Custom && match proxy_verdict(
                settings@.custom_proxy_url,
                guard_view(guard),
            ) {
                Ok(url) => url_fault(url) is Some && e@ == ErrorView::Engine(
                    "invalid proxy URL: "@ + url_fault(url)->0,
                ),
                Err(refused) => e@ == refused,
            },
        },
{
    let chosen = match network_for_settings(settings, false, guard) {
        Ok(chosen) => chosen,
        Err(e) => {
            return Err(e);
        },
    };
    let problem = match &chosen {
        NetworkChoice::Proxy(url) => url_problem(url.as_str()),
        _ => None,
    };
    judge_updater_network(chosen, problem)
}

/// Where Windows updates come from.
#[derive(Debug)]
pub enum EndpointChoice {
    /// The endpoints that the manager was built with.
    Configured,
    /// The endpoints below this base.
    Base(String),
}

/// The base of a custom source, or the mirror where none is left.
pub open spec fn custom_base(
    custom_url: Seq<char>,
    guard: Result<Seq<char>, Seq<char>>,
    mirror: Seq<char>,
) -> Result<Seq<char>, ErrorView> {
    if trimmed(custom_url).len() == 0 {
        Ok(mirror)
    } else {
        match guard {
            Err(reason) => Err(ErrorView::Engine(reason)),
            Ok(url) => match source_base(url) {
                Some(base) => Ok(base),
                None => Ok(mirror),
            },
        }
    }
}

/// Where Windows updates come from under the settings. `guard` is what the URL guard
/// says of the custom source. On Windows the official source counts as the automatic
/// one; elsewhere it is refused.
pub fn windows_endpoints_for_settings(
    settings: &AppSettings,
    os: OperatingSystem,
    guard: Result<String, String>,
    mirror: &str,
) -> (r: Result<EndpointChoice, AppError>)
    ensures
        match (usable_source(settings.source, os), r) {
            (UpdateSource::Auto, Ok(EndpointChoice::Configured)) => true,
            (UpdateSource::Mirror, Ok(EndpointChoice::Configured)) => true,
            (UpdateSource::Official, Err(e)) => e@ == ErrorView::Engine(
                "Windows official update source is not available yet; choose mirror, auto, or a custom source that serves latest/manifest, latest/checksums, and latest/win."@,
            ),
            (UpdateSource::Custom, Ok(EndpointChoice::Base(base))) => custom_base(
                settings@.custom_url,
                guard_view(guard),
                mirror@,
            ) == Ok::<Seq<char>, ErrorView>(base@),
            (UpdateSource::Custom, Err(e)) => custom_base(
                settings@.custom_url,
                guard_view(guard),
                mirror@,
            ) == Err::<Seq<char>, ErrorView>(e@),
            _ => false,
        },
{
    if settings.source == UpdateSource::Official && os != OperatingSystem::Windows {
        return Err(
            engine(
                "Windows official update source is not available yet; choose mirror, auto, or a custom source that serves latest/manifest, latest/checksums, and latest/win.",
            ),
        );
    }
    if settings.source != UpdateSource::Custom {
        return Ok(EndpointChoice::Configured);
    }
    let all = chars_of(settings.custom_url.as_str());
    if trim(all.as_slice()).len() == 0 {
        return Ok(EndpointChoice::Base(text_of(mirror)));
    }
    match guard {
        Err(reason) => Err(AppError::Engine(reason)),
        Ok(url) => match normalize_windows_source_base(url.as_str()) {
            Some(base) => Ok(EndpointChoice::Base(base)),
            None => Ok(EndpointChoice::Base(text_of(mirror))),
        },
    }
}

/// What is saved when the user saves settings, or why nothing is. Signed packages
/// are always required, and a custom source or proxy has passed its guard.
pub open spec fn accepted_settings(
    s: SettingsView,
    os: OperatingSystem,
    source_guard: Result<Seq<char>, Seq<char>>,
    proxy_guard: Result<Seq<char>, Seq<char>>,
) -> Result<SettingsView, ErrorView> {
    let source = usable_source(s.source, os);
    if source == UpdateSource::Custom && source_guard is Err {
        Err(ErrorView::Engine(source_guard->Err_0))
    } else if s.proxy_mode == ProxyMode::Custom && proxy_verdict(
        s.custom_proxy_url,
        proxy_guard,
    ) is Err {
        Err(proxy_verdict(s.custom_proxy_url, proxy_guard)->Err_0)
    } else {
        Ok(
            SettingsView {
                source,
                signed_only: true,
                custom_url: if source == UpdateSource::Custom {
                    source_guard->Ok_0
                } else {
                    s.custom_url
                },
                custom_proxy_url: if s.proxy_mode == ProxyMode::Custom {
                    proxy_verdict(s.custom_proxy_url, proxy_guard)->Ok_0
                } else {
                    s.custom_proxy_url
                },
                ..s
            },
        )
    }
}

/// The settings to save. The guards' verdicts on the custom source and the custom
/// proxy are given.
pub fn accept_settings(
    settings: AppSettings,
    os: OperatingSystem,
    source_guard: Result<String, String>,
    proxy_guard: Result<String, String>,
) -> (r: Result<AppSettings, AppError>)
    ensures
        match r {
            Ok(s) => accepted_settings(
                settings@,
                os,
                guard_view(source_guard),
                guard_view(proxy_guard),
            ) == Ok::<SettingsView, ErrorView>(s@),
            Err(e) => accepted_settings(
                settings@,
                os,
                guard_view(source_guard),
                guard_view(proxy_guard),
            ) == Err::<SettingsView, ErrorView>(e@),
        },
        r is Ok ==> r->Ok_0.signed_only,
{
    let mut s = settings;
    normalize_settings_for_target(&mut s, os);
    if s.source == UpdateSource::Custom {
        match source_guard {
            Ok(url) => {
                s.custom_url = url;
            },
            Err(reason) => {
                return Err(AppError::Engine(reason));
            },
        }
    }
    if s.proxy_mode == ProxyMode::Custom {
        match validated_custom_proxy_for_settings(s.custom_proxy_url.as_str(), proxy_guard) {
            Ok(url) => {
                s.custom_proxy_url = url;
            },
            Err(e) => {
                return Err(e);
            },
        }
    }
    s.signed_only = true;
    Ok(s)
}

/// Whether saving changes the self-update policy of the platform.
pub fn policy_changes(previous: &AppSettings, next: &AppSettings) -> (r: bool)
    ensures
        r == (previous.disable_codex_self_updates != next.disable_codex_self_updates),
{
    previous.disable_codex_self_updates != next.disable_codex_self_updates
}

// ---------------------------------------------------------------------------
// Updating the manager itself
// ---------------------------------------------------------------------------

/// An update of the manager.
#[derive(Debug)]
pub struct ManagerUpdateMetadata {
    pub version: String,
    pub current_version: String,
    pub body: Option<String>,
}

/// Whether the update that is there is the one that the user confirmed.
pub fn manager_update_matches_confirmation(
    latest_version: &str,
    current_version: &str,
    expected_version: &str,
    expected_current_version: &str,
) -> (r: bool)
    ensures
        r == (latest_version@ == trimmed(expected_version@) && current_version@ == trimmed(
            expected_current_version@,
        )),
{
    let latest = chars_of(latest_version);
    let current = chars_of(current_version);
    let wanted = chars_of(expected_version);
    let from = chars_of(expected_current_version);
    same(latest.as_slice(), trim(wanted.as_slice())) && same(
        current.as_slice(),
        trim(from.as_slice()),
    )
}

/// The update, or the error that it is no longer there.
pub fn manager_update_or_stale<T>(update: Option<T>) -> (r: Result<T, AppError>)
    ensures
        match r {
            Ok(u) => update == Some(u),
            Err(e) => update is None && e@ == ErrorView::StaleExpectation(
                "管理器更新已不可用，请重新检查后再确认。"@,
            ),
        },
{
    match update {
        Some(u) => Ok(u),
        None => Err(stale("管理器更新已不可用，请重新检查后再确认。")),
    }
}

/// Lets the installation go on only with the update that the user confirmed.
pub fn confirm_manager_update(
    update: &ManagerUpdateMetadata,
    expected_version: &str,
    expected_current_version: &str,
) -> (r: Result<(), AppError>)
    ensures
        match r {
            Ok(()) => update.version@ == trimmed(expected_version@) && update.current_version@
                == trimmed(expected_current_version@),
            Err(e) => !(update.version@ == trimmed(expected_version@) && update.current_version@
                == trimmed(expected_current_version@)) && e@ == ErrorView::StaleExpectation(
                "管理器更新内容已变化，请重新检查后再确认。"@,
            ),
        },
{
    if manager_update_matches_confirmation(
        update.version.as_str(),
        update.current_version.as_str(),
        expected_version,
        expected_current_version,
    ) {
        Ok(())
    } else {
        Err(stale("管理器更新内容已变化，请重新检查后再确认。"))
    }
}

// ---------------------------------------------------------------------------
// Changing single settings
// ---------------------------------------------------------------------------

/// The settings with another selected theme, or none.
pub fn select_theme(settings: AppSettings, theme: Option<String>) -> (r: AppSettings)
    ensures
        r@ == (SettingsView { codex_theme: text_view(theme), ..settings@ }),
{
    let mut s = settings;
    s.codex_theme = theme;
    s
}

/// The settings with another skin store.
pub fn select_store(settings: AppSettings, dir: String) -> (r: AppSettings)
    ensures
        r@ == (SettingsView { codex_theme_store_dir: Some(dir@), ..settings@ }),
{
    let mut s = settings;
    s.codex_theme_store_dir = Some(dir);
    s
}

/// The settings with another installation root.
pub fn select_install_root(settings: AppSettings, root: String) -> (r: AppSettings)
    ensures
        r@ == (SettingsView { install_root: root@, ..settings@ }),
{
    let mut s = settings;
    s.install_root = root;
    s
}

/// What the Windows engine is told of the settings.
#[derive(Debug)]
pub struct DomainSettings {
    pub mirror_base_url: String,
    pub install_root: String,
    pub disable_codex_self_updates: bool,
}

/// What the Windows engine is told of the settings: the mirror that the manager was
/// built with, the root that was chosen for this once or else the saved one, and the
/// saved policy.
pub fn windows_domain_settings(
    mirror_base_url: &str,
    saved: &AppSettings,
    chosen_root: &Option<String>,
) -> (r: DomainSettings)
    ensures
        r.mirror_base_url@ == mirror_base_url@,
        r.install_root@ == match *chosen_root {
            Some(root) => root@,
            None => saved.install_root@,
        },
        r.disable_codex_self_updates == saved.disable_codex_self_updates,
{
    let install_root = match chosen_root {
        Some(root) => text_of(root.as_str()),
        None => text_of(saved.install_root.as_str()),
    };
    DomainSettings {
        mirror_base_url: text_of(mirror_base_url),
        install_root,
        disable_codex_self_updates: saved.disable_codex_self_updates,
    }
}

} // verus!

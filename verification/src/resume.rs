//! What is remembered of an operation so that it can be resumed.

use vstd::prelude::*;
use crate::errors::{stale, AppError, ErrorView};
use crate::target::ReleaseArchitecture;
use crate::text::{str_eq, text_of};
use crate::url_policy::text_view;

verus! {

/// What the user confirmed before an update of the macOS application.
#[derive(Debug)]
pub struct MacPerformResumeExpectation {
    pub from_build: u64,
    pub to_build: u64,
    pub path: String,
    pub from_version: String,
    pub to_version: String,
}

/// What the engine checks again before it replaces the application.
#[derive(Debug)]
pub struct PerformExpectation {
    pub from_build: u64,
    pub to_build: u64,
    pub install_path: String,
}

/// What the user confirmed before an update of the Windows application.
#[derive(Debug)]
pub struct WinPerformExpectation {
    pub current_version: Option<String>,
    pub latest_version: String,
    pub package_moniker: String,
    pub route: String,
}

/// What kind of operation is resumed.
#[derive(Debug, Clone, Copy, PartialEq, Eq, Structural)]
pub enum OperationResumeKind {
    Perform,
    Install,
}

/// What must still hold for an operation to be resumed.
#[derive(Debug)]
pub enum OperationResumeExpectation {
    Macos {
        current_build: Option<u64>,
        target_build: u64,
        install_path: Option<String>,
        current_version: Option<String>,
        target_version: String,
    },
    Windows {
        current_version: Option<String>,
        target_version: String,
        package_moniker: String,
        route: String,
    },
}

/// What is remembered of an update or an installation.
#[derive(Debug)]
pub struct OperationResumeContext {
    pub kind: OperationResumeKind,
    pub install_root: Option<String>,
    pub expectation: OperationResumeExpectation,
}

/// A copy of a text that may be missing.
pub fn copy_text(t: &Option<String>) -> (r: Option<String>)
    ensures
        text_view(r) == text_view(*t),
{
    match t {
        Some(s) => Some(text_of(s.as_str())),
        None => None,
    }
}

/// What the engine checks again.
pub fn mac_engine_expectation(expected: &MacPerformResumeExpectation) -> (r: PerformExpectation)
    ensures
        r.from_build == expected.from_build,
        r.to_build == expected.to_build,
        r.install_path@ == expected.path@,
{
    PerformExpectation {
        from_build: expected.from_build,
        to_build: expected.to_build,
        install_path: text_of(expected.path.as_str()),
    }
}

/// What is remembered of an update of the macOS application.
pub fn mac_perform_context(expected: &MacPerformResumeExpectation) -> (r: OperationResumeContext)
    ensures
        r.kind == OperationResumeKind::Perform,
        r.install_root is None,
        r.expectation matches OperationResumeExpectation::Macos {
            current_build,
            target_build,
            install_path,
            current_version,
            target_version,
        } && current_build == Some(expected.from_build) && target_build == expected.to_build
            && text_view(install_path) == Some(expected.path@) && text_view(current_version)
            == Some(expected.from_version@) && target_version@ == expected.to_version@,
{
    OperationResumeContext {
        kind: OperationResumeKind::Perform,
        install_root: None,
        expectation: OperationResumeExpectation::Macos {
            current_build: Some(expected.from_build),
            target_build: expected.to_build,
            install_path: Some(text_of(expected.path.as_str())),
            current_version: Some(text_of(expected.from_version.as_str())),
            target_version: text_of(expected.to_version.as_str()),
        },
    }
}

/// What is remembered of a first installation of the macOS application.
pub fn mac_install_context(target_build: u64, target_version: &str) -> (r: OperationResumeContext)
    ensures
        r.kind == OperationResumeKind::Install,
        r.install_root is None,
        r.expectation matches OperationResumeExpectation::Macos {
            current_build,
            target_build: to,
            install_path,
            current_version,
            target_version: version,
        } && current_build is None && to == target_build && install_path is None
            && current_version is None && version@ == target_version@,
{
    OperationResumeContext {
        kind: OperationResumeKind::Install,
        install_root: None,
        expectation: OperationResumeExpectation::Macos {
            current_build: None,
            target_build,
            install_path: None,
            current_version: None,
            target_version: text_of(target_version),
        },
    }
}

/// What is remembered of an update of the Windows application.
pub fn win_perform_context(
    kind: OperationResumeKind,
    install_root: &Option<String>,
    expected: &WinPerformExpectation,
) -> (r: OperationResumeContext)
    ensures
        r.kind == kind,
        text_view(r.install_root) == text_view(*install_root),
        r.expectation matches OperationResumeExpectation::Windows {
            current_version,
            target_version,
            package_moniker,
            route,
        } && text_view(current_version) == text_view(expected.current_version)
            && target_version@ == expected.latest_version@ && package_moniker@
            == expected.package_moniker@ && route@ == expected.route@,
{
    OperationResumeContext {
        kind,
        install_root: copy_text(install_root),
        expectation: OperationResumeExpectation::Windows {
            current_version: copy_text(&expected.current_version),
            target_version: text_of(expected.latest_version.as_str()),
            package_moniker: text_of(expected.package_moniker.as_str()),
            route: text_of(expected.route.as_str()),
        },
    }
}

// ---------------------------------------------------------------------------
// Chosen releases
// ---------------------------------------------------------------------------

/// The format of a package.
#[derive(Debug, Clone, Copy, PartialEq, Eq, Structural)]
pub enum ReleaseFormat {
    Dmg,
    Zip,
    Msix,
}

/// A package that was found.
#[derive(Debug)]
pub struct ResolvedReleaseAsset {
    pub release_tag: String,
    pub version: String,
    pub name: String,
    pub architecture: ReleaseArchitecture,
    pub format: ReleaseFormat,
    pub package_version: Option<String>,
}

/// The package that the user chose.
#[derive(Debug)]
pub struct HistoricalResumeSelection {
    pub release_tag: String,
    pub version: String,
    pub asset_name: String,
    pub architecture: ReleaseArchitecture,
    pub format: ReleaseFormat,
    pub package_version: Option<String>,
    pub local_path: Option<String>,
    pub local_file_name: Option<String>,
}

/// What was installed when the user chose.
#[derive(Debug)]
pub enum HistoricalResumeExpectation {
    Macos { current_path: Option<String>, current_build: Option<u64> },
    Windows {
        current_path: Option<String>,
        current_version: Option<String>,
        current_source: Option<String>,
    },
}

/// What is remembered of the installation of a chosen release.
#[derive(Debug)]
pub struct HistoricalResumeContext {
    pub selection: HistoricalResumeSelection,
    pub block_updates: bool,
    pub expectation: HistoricalResumeExpectation,
    pub install_root: Option<String>,
}

/// What is remembered of the installation of a chosen release. A package on the disk
/// is remembered with its path and its file name.
pub fn historical_resume_context(
    resolved: &ResolvedReleaseAsset,
    local_path: &Option<String>,
    local_file_name: &Option<String>,
    block_updates: bool,
    expectation: HistoricalResumeExpectation,
    install_root: &Option<String>,
) -> (r: HistoricalResumeContext)
    ensures
        r.selection.release_tag@ == resolved.release_tag@,
        r.selection.version@ == resolved.version@,
        r.selection.asset_name@ == resolved.name@,
        r.selection.architecture == resolved.architecture,
        r.selection.format == resolved.format,
        text_view(r.selection.package_version) == text_view(resolved.package_version),
        text_view(r.selection.local_path) == text_view(*local_path),
        text_view(r.selection.local_file_name) == (if *local_path is Some {
            text_view(*local_file_name)
        } else {
            None
        }),
        r.block_updates == block_updates,
        r.expectation == expectation,
        text_view(r.install_root) == text_view(*install_root),
{
    let file_name = if local_path.is_some() {
        copy_text(local_file_name)
    } else {
        None
    };
    HistoricalResumeContext {
        selection: HistoricalResumeSelection {
            release_tag: text_of(resolved.release_tag.as_str()),
            version: text_of(resolved.version.as_str()),
            asset_name: text_of(resolved.name.as_str()),
            architecture: resolved.architecture,
            format: resolved.format,
            package_version: copy_text(&resolved.package_version),
            local_path: copy_text(local_path),
            local_file_name: file_name,
        },
        block_updates,
        expectation,
        install_root: copy_text(install_root),
    }
}

/// Lets a local Windows package through only if it is still the one that the user
/// confirmed.
pub fn confirm_local_package(
    resolved: &ResolvedReleaseAsset,
    release_tag: &str,
    asset_name: &str,
) -> (r: Result<(), AppError>)
    ensures
        match r {
            Ok(()) => resolved.release_tag@ == release_tag@ && resolved.name@ == asset_name@,
            Err(e) => !(resolved.release_tag@ == release_tag@ && resolved.name@ == asset_name@)
                && e@ == ErrorView::StaleExpectation("本地 MSIX 在确认后发生变化，请重新选择并确认"@),
        },
{
    if str_eq(resolved.release_tag.as_str(), release_tag) && str_eq(
        resolved.name.as_str(),
        asset_name,
    ) {
        Ok(())
    } else {
        Err(stale("本地 MSIX 在确认后发生变化，请重新选择并确认"))
    }
}

} // verus!

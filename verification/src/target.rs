//! The machine that the manager runs on, and the packages that it can run.

use vstd::prelude::*;
use crate::errors::{engine, said_around, AppError, ErrorView};
use crate::text::{chars_of, push_str, string_of};

verus! {

/// The operating system.
#[derive(Debug, Clone, Copy, PartialEq, Eq, Structural)]
pub enum OperatingSystem {
    Macos,
    Windows,
    Linux,
    Unknown,
}

/// The processor of the machine.
#[derive(Debug, Clone, Copy, PartialEq, Eq, Structural)]
pub enum Architecture {
    Arm64,
    X64,
    Unknown,
}

/// The processor that a package is built for.
#[derive(Debug, Clone, Copy, PartialEq, Eq, Structural)]
pub enum ReleaseArchitecture {
    Arm64,
    X64,
}

/// The platforms that have packages.
#[derive(Debug, Clone, Copy, PartialEq, Eq, Structural)]
pub enum ReleasePlatform {
    Macos,
    Windows,
}

/// The machine.
#[derive(Debug)]
pub struct Target {
    pub os: OperatingSystem,
    pub arch: Architecture,
    pub label: String,
}

/// The name of a package's processor.
pub open spec fn release_arch_name(arch: ReleaseArchitecture) -> Seq<char> {
    match arch {
        ReleaseArchitecture::Arm64 => "arm64"@,
        ReleaseArchitecture::X64 => "x64"@,
    }
}

impl ReleaseArchitecture {
    /// The name of the processor.
    pub fn as_str(self) -> (r: &'static str)
        ensures
            r@ == release_arch_name(self),
    {
        match self {
            ReleaseArchitecture::Arm64 => "arm64",
            ReleaseArchitecture::X64 => "x64",
        }
    }
}

/// The name of the machine's processor in messages.
pub open spec fn arch_name(arch: Architecture) -> Seq<char> {
    match arch {
        Architecture::Arm64 => "Arm64"@,
        Architecture::X64 => "X64"@,
        Architecture::Unknown => "Unknown"@,
    }
}

fn arch_text(arch: Architecture) -> (r: &'static str)
    ensures
        r@ == arch_name(arch),
{
    match arch {
        Architecture::Arm64 => "Arm64",
        Architecture::X64 => "X64",
        Architecture::Unknown => "Unknown",
    }
}

/// The platform whose packages the machine takes.
pub fn historical_release_platform(os: OperatingSystem) -> (r: Result<ReleasePlatform, AppError>)
    ensures
        match r {
            Ok(ReleasePlatform::Macos) => os == OperatingSystem::Macos,
            Ok(ReleasePlatform::Windows) => os == OperatingSystem::Windows,
            Err(e) => os != OperatingSystem::Macos && os != OperatingSystem::Windows && e@
                == ErrorView::UnsupportedPlatform,
        },
{
    match os {
        OperatingSystem::Macos => Ok(ReleasePlatform::Macos),
        OperatingSystem::Windows => Ok(ReleasePlatform::Windows),
        _ => Err(AppError::UnsupportedPlatform),
    }
}

/// Refuses a command on every platform but one.
pub fn require_os(os: OperatingSystem, wanted: OperatingSystem) -> (r: Result<(), AppError>)
    ensures
        match r {
            Ok(()) => os == wanted,
            Err(e) => os != wanted && e@ == ErrorView::UnsupportedPlatform,
        },
{
    if os == wanted {
        Ok(())
    } else {
        Err(AppError::UnsupportedPlatform)
    }
}

/// The processor that a text names; `known` is the one that its lookup gave.
pub fn parse_release_architecture(raw: &str, known: Option<ReleaseArchitecture>) -> (r: Result<
    ReleaseArchitecture,
    AppError,
>)
    ensures
        match r {
            Ok(arch) => known == Some(arch),
            Err(e) => known is None && e@ == ErrorView::Internal(
                "不支持的安装包架构："@ + raw@ + "（仅支持 arm64 / x64）"@,
            ),
        },
{
    match known {
        Some(arch) => Ok(arch),
        None => Err(
            AppError::Internal(
                said_around("不支持的安装包架构：", raw, "（仅支持 arm64 / x64）"),
            ),
        ),
    }
}

/// Whether a machine runs a package: its own kind always, and an x64 package on an
/// ARM64 machine where the compatibility layer is there.
pub open spec fn runs(
    arch: Architecture,
    selected: ReleaseArchitecture,
    x64_compatible: bool,
) -> bool {
    match (arch, selected) {
        (Architecture::X64, ReleaseArchitecture::X64) => true,
        (Architecture::Arm64, ReleaseArchitecture::Arm64) => true,
        (Architecture::Arm64, ReleaseArchitecture::X64) => x64_compatible,
        _ => false,
    }
}

/// Why a machine does not run a package.
pub open spec fn cannot_run(
    os: OperatingSystem,
    arch: Architecture,
    selected: ReleaseArchitecture,
) -> Seq<char> {
    if arch == Architecture::Arm64 && selected == ReleaseArchitecture::X64 && os
        == OperatingSystem::Macos {
        "当前 Apple Silicon 设备未安装或无法使用 Rosetta 2，拒绝替换为无法运行的 x64 Codex；请改选 arm64，或先安装 Rosetta 2"@
    } else if arch == Architecture::Arm64 && selected == ReleaseArchitecture::X64 && os
        == OperatingSystem::Windows {
        "当前 Windows ARM64 设备不支持 x64 仿真，拒绝替换为无法运行的 x64 Codex；请改选 arm64，或升级到支持 x64 仿真的 Windows 版本"@
    } else {
        "安装包架构 "@ + release_arch_name(selected) + " 无法在当前设备架构 "@ + arch_name(arch)
            + " 上运行"@
    }
}

/// Refuses a package that the machine cannot run.
pub fn validate_historical_architecture_with_compatibility(
    target: &Target,
    selected: ReleaseArchitecture,
    x64_compatible: bool,
) -> (r: Result<(), AppError>)
    ensures
        match r {
            Ok(()) => runs(target.arch, selected, x64_compatible),
            Err(e) => !runs(target.arch, selected, x64_compatible) && e@ == ErrorView::Engine(
                cannot_run(target.os, target.arch, selected),
            ),
        },
{
    let supported = match (target.arch, selected) {
        (Architecture::X64, ReleaseArchitecture::X64) => true,
        (Architecture::Arm64, ReleaseArchitecture::Arm64) => true,
        (Architecture::Arm64, ReleaseArchitecture::X64) => x64_compatible,
        _ => false,
    };
    if supported {
        return Ok(());
    }
    let emulated = target.arch == Architecture::Arm64 && selected == ReleaseArchitecture::X64;
    if emulated && target.os == OperatingSystem::Macos {
        Err(
            engine(
                "当前 Apple Silicon 设备未安装或无法使用 Rosetta 2，拒绝替换为无法运行的 x64 Codex；请改选 arm64，或先安装 Rosetta 2",
            ),
        )
    } else if emulated && target.os == OperatingSystem::Windows {
        Err(
            engine(
                "当前 Windows ARM64 设备不支持 x64 仿真，拒绝替换为无法运行的 x64 Codex；请改选 arm64，或升级到支持 x64 仿真的 Windows 版本",
            ),
        )
    } else {
        let mut words = chars_of("安装包架构 ");
        push_str(&mut words, selected.as_str());
        push_str(&mut words, " 无法在当前设备架构 ");
        push_str(&mut words, arch_text(target.arch));
        push_str(&mut words, " 上运行");
        Err(AppError::Engine(string_of(words.as_slice())))
    }
}

/// Whether the compatibility layer decides, and if so of which system.
pub open spec fn asks_compatibility(
    os: OperatingSystem,
    arch: Architecture,
    selected: ReleaseArchitecture,
) -> bool {
    arch == Architecture::Arm64 && selected == ReleaseArchitecture::X64 && (os
        == OperatingSystem::Macos || os == OperatingSystem::Windows)
}

/// Refuses a package that the machine cannot run, given what the compatibility
/// layers of the two systems offer.
pub fn validate_historical_architecture(
    target: &Target,
    selected: ReleaseArchitecture,
    macos_x64: bool,
    windows_x64: bool,
) -> (r: Result<(), AppError>)
    ensures
        ({
            let compatible = if asks_compatibility(target.os, target.arch, selected) {
                if target.os == OperatingSystem::Macos {
                    macos_x64
                } else {
                    windows_x64
                }
            } else {
                true
            };
            match r {
                Ok(()) => runs(target.arch, selected, compatible),
                Err(e) => !runs(target.arch, selected, compatible) && e@ == ErrorView::Engine(
                    cannot_run(target.os, target.arch, selected),
                ),
            }
        }),
{
    let emulated = target.arch == Architecture::Arm64 && selected == ReleaseArchitecture::X64;
    let compatible = if emulated && target.os == OperatingSystem::Macos {
        macos_x64
    } else if emulated && target.os == OperatingSystem::Windows {
        windows_x64
    } else {
        true
    };
    validate_historical_architecture_with_compatibility(target, selected, compatible)
}

/// An ARM64 package never runs on a machine that is not ARM64, and on a machine of
/// unknown kind nothing runs.
pub proof fn law_unrunnable_packages_are_refused(
    arch: Architecture,
    selected: ReleaseArchitecture,
    x64_compatible: bool,
)
    ensures
        arch != Architecture::Arm64 && selected == ReleaseArchitecture::Arm64 ==> !runs(
            arch,
            selected,
            x64_compatible,
        ),
        arch == Architecture::Unknown ==> !runs(arch, selected, x64_compatible),
{
}

/// The name and the extensions under which packages of a platform are picked.
pub fn package_filter(platform: ReleasePlatform) -> (r: (&'static str, Vec<&'static str>))
    ensures
        match platform {
            ReleasePlatform::Macos => r.0@ == "Codex DMG / ZIP"@ && r.1@.len() == 2 && r.1@[0]@
                == "dmg"@ && r.1@[1]@ == "zip"@,
            ReleasePlatform::Windows => r.0@ == "Codex MSIX"@ && r.1@.len() == 1 && r.1@[0]@
                == "msix"@,
        },
{
    match platform {
        ReleasePlatform::Macos => ("Codex DMG / ZIP", vec!["dmg", "zip"]),
        ReleasePlatform::Windows => ("Codex MSIX", vec!["msix"]),
    }
}

} // verus!

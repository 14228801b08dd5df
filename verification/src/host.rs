//! The machine the tool runs on: operating system and architecture.

use vstd::prelude::*;
use crate::error::GdvmError;
use crate::text::{chars_of, eq_str};

verus! {

/// A supported operating system.
#[derive(Debug, Clone, Copy, PartialEq, Eq, Structural)]
pub enum HostOs {
    Windows,
    Macos,
    Linux,
}

/// A supported processor architecture.
#[derive(Debug, Clone, Copy, PartialEq, Eq, Structural)]
pub enum HostArch {
    X86_64,
    X86,
    Aarch64,
}

/// Operating system and architecture together.
#[derive(Debug, Clone, Copy, PartialEq, Eq, Structural)]
pub struct HostPlatform {
    pub os: HostOs,
    pub arch: HostArch,
}

/// The distribution triple of the tool for a host; there is none for
/// 32-bit macOS.
pub open spec fn target_triple_spec(host: HostPlatform) -> Option<Seq<char>> {
    match (host.os, host.arch) {
        (HostOs::Windows, HostArch::Aarch64) => Some("aarch64-pc-windows-msvc"@),
        (HostOs::Windows, HostArch::X86_64) => Some("x86_64-pc-windows-msvc"@),
        (HostOs::Windows, HostArch::X86) => Some("i686-pc-windows-msvc"@),
        (HostOs::Linux, HostArch::Aarch64) => Some("aarch64-unknown-linux-gnu"@),
        (HostOs::Linux, HostArch::X86_64) => Some("x86_64-unknown-linux-gnu"@),
        (HostOs::Linux, HostArch::X86) => Some("i686-unknown-linux-gnu"@),
        (HostOs::Macos, HostArch::Aarch64) => Some("aarch64-apple-darwin"@),
        (HostOs::Macos, HostArch::X86_64) => Some("x86_64-apple-darwin"@),
        (HostOs::Macos, HostArch::X86) => None,
    }
}

/// The operating system that a platform name stands for.
pub open spec fn os_named(name: Seq<char>) -> Option<HostOs> {
    if name == "windows"@ {
        Some(HostOs::Windows)
    } else if name == "macos"@ {
        Some(HostOs::Macos)
    } else if name == "linux"@ {
        Some(HostOs::Linux)
    } else {
        None
    }
}

/// The architecture that an architecture name stands for.
pub open spec fn arch_named(name: Seq<char>) -> Option<HostArch> {
    if name == "x86_64"@ {
        Some(HostArch::X86_64)
    } else if name == "x86"@ {
        Some(HostArch::X86)
    } else if name == "aarch64"@ {
        Some(HostArch::Aarch64)
    } else {
        None
    }
}

impl HostPlatform {
    /// The triple under which the tool itself is distributed for this
    /// host, or the unsupported-architecture error where it is not distributed.
    pub fn gdvm_target_triple(self) -> (r: Result<&'static str, GdvmError>)
        ensures
            match target_triple_spec(self) {
                Some(t) => r is Ok && r->Ok_0@ == t,
                None => r is Err && r->Err_0 is UnsupportedArch,
            },
    {
        match (self.os, self.arch) {
            (HostOs::Windows, HostArch::Aarch64) => Ok("aarch64-pc-windows-msvc"),
            (HostOs::Windows, HostArch::X86_64) => Ok("x86_64-pc-windows-msvc"),
            (HostOs::Windows, HostArch::X86) => Ok("i686-pc-windows-msvc"),
            (HostOs::Linux, HostArch::Aarch64) => Ok("aarch64-unknown-linux-gnu"),
            (HostOs::Linux, HostArch::X86_64) => Ok("x86_64-unknown-linux-gnu"),
            (HostOs::Linux, HostArch::X86) => Ok("i686-unknown-linux-gnu"),
            (HostOs::Macos, HostArch::Aarch64) => Ok("aarch64-apple-darwin"),
            (HostOs::Macos, HostArch::X86_64) => Ok("x86_64-apple-darwin"),
            (HostOs::Macos, HostArch::X86) => Err(GdvmError::UnsupportedArch),
        }
    }
}

/// The host that the names of the running system stand for: `windows`,
/// `macos` or `linux`, and `x86_64`, `x86` or `aarch64`. Another system
/// name is an unsupported platform; with a known system, another
/// architecture name is an unsupported architecture.
pub fn detect_host(os_name: &str, arch_name: &str) -> (r: Result<HostPlatform, GdvmError>)
    ensures
        match (os_named(os_name@), arch_named(arch_name@)) {
            (Some(os), Some(arch)) => r == Ok::<HostPlatform, GdvmError>(
                HostPlatform { os, arch },
            ),
            (Some(_), None) => r is Err && r->Err_0 is UnsupportedArch,
            (None, _) => r is Err && r->Err_0 is UnsupportedPlatform,
        },
{
    let os_chars = chars_of(os_name);
    let os = if eq_str(os_chars.as_slice(), "windows") {
        HostOs::Windows
    } else if eq_str(os_chars.as_slice(), "macos") {
        HostOs::Macos
    } else if eq_str(os_chars.as_slice(), "linux") {
        HostOs::Linux
    } else {
        return Err(GdvmError::UnsupportedPlatform);
    };
    let arch_chars = chars_of(arch_name);
    let arch = if eq_str(arch_chars.as_slice(), "x86_64") {
        HostArch::X86_64
    } else if eq_str(arch_chars.as_slice(), "x86") {
        HostArch::X86
    } else if eq_str(arch_chars.as_slice(), "aarch64") {
        HostArch::Aarch64
    } else {
        return Err(GdvmError::UnsupportedArch);
    };
    proof {
        reveal_strlit("windows");
        reveal_strlit("macos");
        reveal_strlit("linux");
        reveal_strlit("x86_64");
        reveal_strlit("x86");
        reveal_strlit("aarch64");
    }
    Ok(HostPlatform { os, arch })
}

} // verus!

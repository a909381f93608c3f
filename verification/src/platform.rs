//! The host platform, in the names the version catalog uses.

use vstd::prelude::*;
use crate::text::str_eq;

verus! {

/// An operating system and CPU architecture, named as in the catalog.
pub struct Platform {
    pub os: &'static str,
    pub arch: &'static str,
}

/// The catalog's OS name for a Rust target OS: `windows`, `macos`, else `linux`.
pub open spec fn catalog_os(target_os: Seq<char>) -> Seq<char> {
    if target_os == "windows"@ {
        "windows"@
    } else if target_os == "macos"@ {
        "macos"@
    } else {
        "linux"@
    }
}

/// The catalog's architecture name for a Rust target architecture.
pub open spec fn catalog_arch(target_arch: Seq<char>) -> Seq<char> {
    if target_arch == "x86_64"@ {
        "x64"@
    } else if target_arch == "aarch64"@ {
        "aarch64"@
    } else if target_arch == "s390x"@ {
        "s390x"@
    } else if target_arch == "powerpc64"@ {
        "ppc64le"@
    } else if target_arch == "riscv64"@ {
        "riscv64"@
    } else {
        "unknown"@
    }
}

impl Platform {
    /// The platform for a Rust target OS and architecture (as
    /// `target_os` / `target_arch` name them).
    pub fn from_target(target_os: &str, target_arch: &str) -> (r: Platform)
        ensures
            r.os@ == catalog_os(target_os@),
            r.arch@ == catalog_arch(target_arch@),
    {
        let os = if str_eq(target_os, "windows") {
            "windows"
        } else if str_eq(target_os, "macos") {
            "macos"
        } else {
            "linux"
        };
        let arch = if str_eq(target_arch, "x86_64") {
            "x64"
        } else if str_eq(target_arch, "aarch64") {
            "aarch64"
        } else if str_eq(target_arch, "s390x") {
            "s390x"
        } else if str_eq(target_arch, "powerpc64") {
            "ppc64le"
        } else if str_eq(target_arch, "riscv64") {
            "riscv64"
        } else {
            "unknown"
        };
        Platform { os, arch }
    }
}

} // verus!

//! Operating systems and processor architectures that binaries are chosen for.

use vstd::prelude::*;
use vstd::string::*;
use crate::text::str_eq;

verus! {

/// An operating system.
#[derive(Clone, Debug)]
pub enum Platform {
    Windows,
    Linux,
    Mac,
    /// An operating system this library knows no binaries for, by its name.
    Unknown(String),
}

/// A processor architecture.
#[derive(Clone, Debug)]
pub enum Architecture {
    X64,
    X86,
    Armv7l,
    Aarch64,
    /// An architecture this library knows no binaries for, by its name.
    Unknown(String),
}

impl Platform {
    /// Whether `self` is the platform that the operating-system name `os` stands for.
    pub open spec fn is_named(self, os: Seq<char>) -> bool {
        match self {
            Platform::Windows => os == "windows"@,
            Platform::Linux => os == "linux"@,
            Platform::Mac => os == "macos"@,
            Platform::Unknown(other) => other@ == os && os != "windows"@ && os != "linux"@ && os
                != "macos"@,
        }
    }

    /// Reads a platform from the operating-system name the toolchain reports.
    pub fn from_os_name(os: &str) -> (r: Platform)
        ensures
            r.is_named(os@),
    {
        if str_eq(os, "windows") {
            Platform::Windows
        } else if str_eq(os, "linux") {
            Platform::Linux
        } else if str_eq(os, "macos") {
            Platform::Mac
        } else {
            Platform::Unknown(String::from_str(os))
        }
    }

    /// The platform's display text.
    pub open spec fn spec_name(self) -> Seq<char> {
        match self {
            Platform::Windows => "Windows"@,
            Platform::Linux => "Linux"@,
            Platform::Mac => "MacOS"@,
            Platform::Unknown(os) => "Unknown: "@ + os@,
        }
    }

    /// The platform's display text.
    pub fn name(&self) -> (r: String)
        ensures
            r@ == self.spec_name(),
    {
        match self {
            Platform::Windows => String::from_str("Windows"),
            Platform::Linux => String::from_str("Linux"),
            Platform::Mac => String::from_str("MacOS"),
            Platform::Unknown(os) => String::from_str("Unknown: ").concat(os.as_str()),
        }
    }
}

impl Architecture {
    /// Whether `self` is the architecture that the name `arch` stands for.
    pub open spec fn is_named(self, arch: Seq<char>) -> bool {
        match self {
            Architecture::X64 => arch == "x86_64"@,
            Architecture::X86 => arch == "x86"@,
            Architecture::Armv7l => arch == "armv7l"@,
            Architecture::Aarch64 => arch == "aarch64"@,
            Architecture::Unknown(other) => other@ == arch && arch != "x86_64"@ && arch != "x86"@
                && arch != "armv7l"@ && arch != "aarch64"@,
        }
    }

    /// Reads an architecture from the name the toolchain reports.
    pub fn from_arch_name(arch: &str) -> (r: Architecture)
        ensures
            r.is_named(arch@),
    {
        if str_eq(arch, "x86_64") {
            Architecture::X64
        } else if str_eq(arch, "x86") {
            Architecture::X86
        } else if str_eq(arch, "armv7l") {
            Architecture::Armv7l
        } else if str_eq(arch, "aarch64") {
            Architecture::Aarch64
        } else {
            Architecture::Unknown(String::from_str(arch))
        }
    }

    /// The architecture's display text.
    pub open spec fn spec_name(self) -> Seq<char> {
        match self {
            Architecture::X64 => "x64"@,
            Architecture::X86 => "x86"@,
            Architecture::Armv7l => "armv7l"@,
            Architecture::Aarch64 => "aarch64"@,
            Architecture::Unknown(arch) => "Unknown: "@ + arch@,
        }
    }

    /// The architecture's display text.
    pub fn name(&self) -> (r: String)
        ensures
            r@ == self.spec_name(),
    {
        match self {
            Architecture::X64 => String::from_str("x64"),
            Architecture::X86 => String::from_str("x86"),
            Architecture::Armv7l => String::from_str("armv7l"),
            Architecture::Aarch64 => String::from_str("aarch64"),
            Architecture::Unknown(arch) => String::from_str("Unknown: ").concat(arch.as_str()),
        }
    }
}

} // verus!

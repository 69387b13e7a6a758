use vstd::prelude::*;

use crate::text::same_text;

verus! {

/// An operating system the browser driver is published for.
#[derive(Debug, PartialEq, Eq, Structural, Clone, Copy)]
pub enum OS {
    Windows,
    Linux,
    Mac,
}

/// A processor architecture the browser driver is published for.
#[derive(Debug, PartialEq, Eq, Structural, Clone, Copy)]
pub enum Arch {
    X64,
    X86,
    Arm64,
}

/// The operating system that std names `name`.
pub open spec fn os_named(name: Seq<char>) -> Option<OS> {
    if name == "windows"@ {
        Some(OS::Windows)
    } else if name == "linux"@ {
        Some(OS::Linux)
    } else if name == "macos"@ {
        Some(OS::Mac)
    } else {
        None
    }
}

/// The architecture that std names `name`.
pub open spec fn arch_named(name: Seq<char>) -> Option<Arch> {
    if name == "x86_64"@ {
        Some(Arch::X64)
    } else if name == "x86"@ {
        Some(Arch::X86)
    } else if name == "aarch64"@ {
        Some(Arch::Arm64)
    } else {
        None
    }
}

/// The platform part of the name of a browser-driver release.
pub open spec fn geckodriver_platform(os: OS, arch: Arch) -> Seq<char> {
    match os {
        OS::Windows => match arch {
            Arch::X64 => "win32"@,
            Arch::X86 => "win32"@,
            Arch::Arm64 => "win64-aarch64"@,
        },
        OS::Linux => match arch {
            Arch::X64 => "linux64"@,
            Arch::X86 => "linux32"@,
            Arch::Arm64 => "linux64-aarch64"@,
        },
        OS::Mac => match arch {
            Arch::X64 => "macos"@,
            Arch::X86 => "macos"@,
            Arch::Arm64 => "macos-aarch64"@,
        },
    }
}

/// The operating system named `name` (as `std::env::consts::OS` names it),
/// if it is supported.
pub fn get_os(name: &str) -> (r: Option<OS>)
    ensures
        r == os_named(name@),
{
    if same_text(name, "windows") {
        Some(OS::Windows)
    } else if same_text(name, "linux") {
        Some(OS::Linux)
    } else if same_text(name, "macos") {
        Some(OS::Mac)
    } else {
        None
    }
}

/// The architecture named `name` (as `std::env::consts::ARCH` names it), if
/// it is supported.
pub fn get_arch(name: &str) -> (r: Option<Arch>)
    ensures
        r == arch_named(name@),
{
    if same_text(name, "x86_64") {
        Some(Arch::X64)
    } else if same_text(name, "x86") {
        Some(Arch::X86)
    } else if same_text(name, "aarch64") {
        Some(Arch::Arm64)
    } else {
        None
    }
}

/// The platform part of the name of the browser-driver release for `os` and
/// `arch`.
pub fn get_os_arch_for_geckodriver(os: OS, arch: Arch) -> (r: String)
    ensures
        r@ == geckodriver_platform(os, arch),
{
    let name = match os {
        OS::Windows => match arch {
            Arch::X64 => "win32",
            Arch::X86 => "win32",
            Arch::Arm64 => "win64-aarch64",
        },
        OS::Linux => match arch {
            Arch::X64 => "linux64",
            Arch::X86 => "linux32",
            Arch::Arm64 => "linux64-aarch64",
        },
        OS::Mac => match arch {
            Arch::X64 => "macos",
            Arch::X86 => "macos",
            Arch::Arm64 => "macos-aarch64",
        },
    };
    String::from_str(name)
}

/// Messages shown to the operator while the application starts.
#[derive(Debug, Clone)]
pub struct AppState {
    pub self_update_log: String,
    pub geckodriver_update_log: String,
    pub config_log: String,
    pub self_update_complete: bool,
}

impl AppState {
    /// Empty logs, no update done.
    pub fn new() -> (r: Self)
        ensures
            r.self_update_log@.len() == 0,
            r.geckodriver_update_log@.len() == 0,
            r.config_log@.len() == 0,
            !r.self_update_complete,
    {
        AppState {
            self_update_log: String::new(),
            geckodriver_update_log: String::new(),
            config_log: String::new(),
            self_update_complete: false,
        }
    }

    /// Adds a line to the self-update log.
    pub fn add_to_self_update_log(&mut self, message: &str)
        ensures
            final(self).self_update_log@ == old(self).self_update_log@ + message@ + "\n"@,
            final(self).geckodriver_update_log == old(self).geckodriver_update_log,
            final(self).config_log == old(self).config_log,
            final(self).self_update_complete == old(self).self_update_complete,
    {
        self.self_update_log.append(message);
        self.self_update_log.append("\n");
    }

    /// Adds a line to the browser-driver update log.
    pub fn add_to_geckodriver_update_log(&mut self, message: &str)
        ensures
            final(self).geckodriver_update_log@ == old(self).geckodriver_update_log@ + message@ + "\n"@,
            final(self).self_update_log == old(self).self_update_log,
            final(self).config_log == old(self).config_log,
            final(self).self_update_complete == old(self).self_update_complete,
    {
        self.geckodriver_update_log.append(message);
        self.geckodriver_update_log.append("\n");
    }

    /// Adds a line to the configuration log.
    pub fn add_to_config_log(&mut self, message: &str)
        ensures
            final(self).config_log@ == old(self).config_log@ + message@ + "\n"@,
            final(self).self_update_log == old(self).self_update_log,
            final(self).geckodriver_update_log == old(self).geckodriver_update_log,
            final(self).self_update_complete == old(self).self_update_complete,
    {
        self.config_log.append(message);
        self.config_log.append("\n");
    }
}

} // verus!

//! The machine the launcher runs on, as the download and launch rules name it.
use vstd::prelude::*;

use crate::text::{concat3, decimal, str_eq, str_to_string, u64_to_string};

verus! {

/// The operating system and architecture (as Rust names them: `linux`,
/// `macos`, `windows`; `x86_64`, `aarch64`, ...) and the pointer width.
#[derive(Debug)]
pub struct Platform {
    pub os: String,
    pub arch: String,
    pub pointer_width: u32,
}

/// The operating system as Minecraft's manifests name it.
pub open spec fn minecraft_os_name(os: Seq<char>) -> Seq<char> {
    if os == "macos"@ {
        "osx"@
    } else {
        os
    }
}

impl Platform {
    pub open spec fn is_windows_spec(&self) -> bool {
        self.os@ == "windows"@
    }

    pub fn is_windows(&self) -> (b: bool)
        ensures
            b == self.is_windows_spec(),
    {
        str_eq(self.os.as_str(), "windows")
    }

    /// The operating system as Minecraft's manifests name it.
    pub fn current_minecraft_os_name(&self) -> (r: String)
        ensures
            r@ == minecraft_os_name(self.os@),
    {
        if str_eq(self.os.as_str(), "macos") {
            str_to_string("osx")
        } else {
            self.os.clone()
        }
    }

    /// The folder name for native libraries: Minecraft's OS name and the
    /// architecture.
    pub fn current_native_platform_dir_name(&self) -> (r: String)
        ensures
            r@ == minecraft_os_name(self.os@) + "-"@ + self.arch@,
    {
        let os = self.current_minecraft_os_name();
        concat3(os.as_str(), "-", self.arch.as_str())
    }

    /// The folder name for a Java runtime: the OS and the architecture.
    pub fn current_platform_dir_name(&self) -> (r: String)
        ensures
            r@ == self.os@ + "-"@ + self.arch@,
    {
        concat3(self.os.as_str(), "-", self.arch.as_str())
    }

    /// The pointer width in decimal, for the `${arch}` of native classifiers.
    pub fn current_arch_bits(&self) -> (r: String)
        ensures
            r@ == decimal(self.pointer_width as nat),
    {
        u64_to_string(self.pointer_width as u64)
    }
}

} // verus!

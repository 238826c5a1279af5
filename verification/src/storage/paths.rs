//! The dropbox directories of each supported platform.

use vstd::prelude::*;

verus! {

/// The platform families that have dropbox directories.
#[derive(Clone, Copy, Debug, PartialEq, Eq, Structural)]
pub enum Platform {
    /// Any Unix other than macOS.
    Unix,
    /// macOS, which is a Unix without a shared-memory file system.
    MacOs,
    /// Windows.
    Windows,
}

/// The text of the persistent dropbox path of `platform`.
pub open spec fn persistent_path(platform: Platform) -> Seq<char> {
    match platform {
        Platform::Unix | Platform::MacOs => "/tmp/Oxylos/"@,
        Platform::Windows => "C:\\ProgramData\\Oxylos\\"@,
    }
}

/// The text of the ephemeral dropbox path of `platform`.
pub open spec fn ram_path(platform: Platform) -> Seq<char> {
    match platform {
        Platform::Unix => "/dev/shm/Oxylos/"@,
        Platform::MacOs => "/tmp/Oxylos.shm/"@,
        Platform::Windows => "Global\\Oxylos"@,
    }
}

/// The directory that survives a reboot and serves as the persistent dropbox.
pub fn persistent_dir(platform: Platform) -> (dir: &'static str)
    ensures
        dir@ == persistent_path(platform),
{
    match platform {
        Platform::Unix | Platform::MacOs => "/tmp/Oxylos/",
        Platform::Windows => "C:\\ProgramData\\Oxylos\\",
    }
}

/// The directory backed by volatile storage that serves as the ephemeral
/// dropbox.
pub fn ram_dir(platform: Platform) -> (dir: &'static str)
    ensures
        dir@ == ram_path(platform),
{
    match platform {
        Platform::Unix => "/dev/shm/Oxylos/",
        Platform::MacOs => "/tmp/Oxylos.shm/",
        Platform::Windows => "Global\\Oxylos",
    }
}

} // verus!

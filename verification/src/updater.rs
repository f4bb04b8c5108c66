//! Messages of the update checker (talking to GitHub Releases is the
//! application's business).
use vstd::prelude::*;
use crate::player::Platform;

verus! {

/// Messages from the update thread.
#[derive(Debug)]
pub enum UpdateMsg {
    Available(String),
    UpToDate,
    Downloading,
    Done,
    Error(String),
}

/// The processor the application runs on.
#[derive(Clone, Copy, Debug, PartialEq, Eq, Structural)]
pub enum Arch {
    Aarch64,
    X86_64,
    Other,
}

/// The release asset's target name for a platform and processor.
pub open spec fn target_spec(platform: Platform, arch: Arch) -> Seq<char> {
    match (platform, arch) {
        (Platform::MacOs, Arch::Aarch64) => "silicon-apple"@,
        (Platform::MacOs, Arch::X86_64) => "intel-apple"@,
        (Platform::Windows, _) => "x86_64-windows"@,
        _ => "unknown"@,
    }
}

/// The release asset's target name: Apple silicon, Intel Mac, Windows,
/// or unknown.
pub fn platform_target(platform: Platform, arch: Arch) -> (r: &'static str)
    ensures
        r@ == target_spec(platform, arch),
{
    match (platform, arch) {
        (Platform::MacOs, Arch::Aarch64) => "silicon-apple",
        (Platform::MacOs, Arch::X86_64) => "intel-apple",
        (Platform::Windows, _) => "x86_64-windows",
        _ => "unknown",
    }
}

} // verus!

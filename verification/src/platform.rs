//! The platform name in the portal's format.
use vstd::prelude::*;

use crate::text::{append_text, push_char, text_eq, text_from};

verus! {

/// The portal's name for an operating system as Rust names it.
pub open spec fn portal_os(os: Seq<char>) -> Seq<char> {
    if os == "linux"@ {
        "linux"@
    } else if os == "macos"@ {
        "darwin"@
    } else if os == "windows"@ {
        "windows"@
    } else {
        os
    }
}

/// The portal's name for an architecture as Rust names it.
pub open spec fn portal_arch(arch: Seq<char>) -> Seq<char> {
    if arch == "x86_64"@ {
        "amd64"@
    } else if arch == "aarch64"@ {
        "arm64"@
    } else if arch == "arm"@ {
        "armv7"@
    } else {
        arch
    }
}

fn os_name(os: &str) -> (r: String)
    ensures
        r@ == portal_os(os@),
{
    if text_eq(os, "linux") {
        text_from("linux")
    } else if text_eq(os, "macos") {
        text_from("darwin")
    } else if text_eq(os, "windows") {
        text_from("windows")
    } else {
        text_from(os)
    }
}

fn arch_name(arch: &str) -> (r: String)
    ensures
        r@ == portal_arch(arch@),
{
    if text_eq(arch, "x86_64") {
        text_from("amd64")
    } else if text_eq(arch, "aarch64") {
        text_from("arm64")
    } else if text_eq(arch, "arm") {
        text_from("armv7")
    } else {
        text_from(arch)
    }
}

/// The platform in portal format (e.g. "linux-amd64") for the operating
/// system and architecture names that Rust reports (`std::env::consts`).
pub fn detect_platform(os: &str, arch: &str) -> (r: String)
    ensures
        r@ == portal_os(os@) + seq!['-'] + portal_arch(arch@),
{
    let mut r = os_name(os);
    push_char(&mut r, '-');
    let a = arch_name(arch);
    append_text(&mut r, a.as_str());
    r
}

} // verus!

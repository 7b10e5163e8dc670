use vstd::prelude::*;

use crate::paths::{java_dir, join_path, joined, JAVA_DIR};
use crate::text::{lower_of, lowercase, same_text};

verus! {

/// Operating systems a runtime can be fetched for.
#[derive(Clone, Copy, Debug, PartialEq, Eq, Structural)]
pub enum Os {
    Windows,
    Linux,
    Mac,
}

/// Processor architectures a runtime can be fetched for.
#[derive(Clone, Copy, Debug, PartialEq, Eq, Structural)]
pub enum Arch {
    X64,
    Aarch64,
}

/// The host a runtime is fetched for.
#[derive(Clone, Copy, Debug, PartialEq, Eq, Structural)]
pub struct Platform {
    pub os: Os,
    pub arch: Arch,
}

/// The host named by the operating system and architecture identifiers
/// that Rust's `std::env::consts::{OS, ARCH}` use; `None` for a host no
/// runtime is offered for.
pub open spec fn platform_of(os: Seq<char>, arch: Seq<char>) -> Option<Platform> {
    let o = if os == "windows"@ {
        Some(Os::Windows)
    } else if os == "linux"@ {
        Some(Os::Linux)
    } else if os == "macos"@ {
        Some(Os::Mac)
    } else {
        None
    };
    let a = if arch == "x86_64"@ {
        Some(Arch::X64)
    } else if arch == "aarch64"@ {
        Some(Arch::Aarch64)
    } else {
        None
    };
    match (o, a) {
        (Some(o), Some(a)) => Some(Platform { os: o, arch: a }),
        _ => None,
    }
}

/// Recognises the host from its operating system and architecture
/// identifiers.
pub fn platform(os: &str, arch: &str) -> (r: Option<Platform>)
    ensures
        r == platform_of(os@, arch@),
{
    let o = if same_text(os, "windows") {
        Os::Windows
    } else if same_text(os, "linux") {
        Os::Linux
    } else if same_text(os, "macos") {
        Os::Mac
    } else {
        return None;
    };
    let a = if same_text(arch, "x86_64") {
        Arch::X64
    } else if same_text(arch, "aarch64") {
        Arch::Aarch64
    } else {
        return None;
    };
    Some(Platform { os: o, arch: a })
}

/// How the runtime services name an operating system.
pub open spec fn os_name(o: Os) -> Seq<char> {
    match o {
        Os::Windows => "windows"@,
        Os::Linux => "linux"@,
        Os::Mac => "mac"@,
    }
}

/// How the runtime services name an architecture.
pub open spec fn arch_name(a: Arch) -> Seq<char> {
    match a {
        Arch::X64 => "x64"@,
        Arch::Aarch64 => "aarch64"@,
    }
}

fn os_text(o: Os) -> (r: &'static str)
    ensures
        r@ == os_name(o),
{
    match o {
        Os::Windows => "windows",
        Os::Linux => "linux",
        Os::Mac => "mac",
    }
}

fn arch_text(a: Arch) -> (r: &'static str)
    ensures
        r@ == arch_name(a),
{
    match a {
        Arch::X64 => "x64",
        Arch::Aarch64 => "aarch64",
    }
}

/// The metadata query that names the latest Azul runtime for a host.
pub open spec fn azul_url_of(p: Platform) -> Seq<char> {
    "https://api.azul.com/zulu/download/community/v1.0/bundles/latest?java_version=25&os="@
        + os_name(p.os) + "&arch="@ + arch_name(p.arch) + "&ext=zip&bundle_type=jdk"@
}

/// The download of the latest Adoptium runtime for a host.
pub open spec fn adoptium_url_of(p: Platform) -> Seq<char> {
    "https://api.adoptium.net/v3/binary/latest/25/ga/"@ + os_name(p.os) + "/"@ + arch_name(p.arch)
        + "/jdk/hotspot/normal/eclipse?project=jdk"@
}

/// GraalVM names the Mac builds `darwin`.
pub open spec fn graalvm_os_name(o: Os) -> Seq<char> {
    match o {
        Os::Windows => "windows"@,
        Os::Linux => "linux"@,
        Os::Mac => "darwin"@,
    }
}

/// The download of the GraalVM community runtime for a host.
pub open spec fn graalvm_url_of(p: Platform) -> Seq<char> {
    "https://github.com/graalvm/graalvm-ce-builds/releases/download/jdk-25.0.1/graalvm-community-jdk-25.0.1_"@
        + graalvm_os_name(p.os) + "-"@ + arch_name(p.arch) + "_bin.zip"@
}

/// The Azul metadata query for a host.
pub fn azul_url(p: Platform) -> (r: String)
    ensures
        r@ == azul_url_of(p),
{
    let mut r = String::from_str(
        "https://api.azul.com/zulu/download/community/v1.0/bundles/latest?java_version=25&os=",
    );
    r.append(os_text(p.os));
    r.append("&arch=");
    r.append(arch_text(p.arch));
    r.append("&ext=zip&bundle_type=jdk");
    r
}

/// The Adoptium download for a host.
pub fn adoptium_url(p: Platform) -> (r: String)
    ensures
        r@ == adoptium_url_of(p),
{
    let mut r = String::from_str("https://api.adoptium.net/v3/binary/latest/25/ga/");
    r.append(os_text(p.os));
    r.append("/");
    r.append(arch_text(p.arch));
    r.append("/jdk/hotspot/normal/eclipse?project=jdk");
    r
}

/// The GraalVM download for a host.
pub fn graalvm_url(p: Platform) -> (r: String)
    ensures
        r@ == graalvm_url_of(p),
{
    let os = match p.os {
        Os::Windows => "windows",
        Os::Linux => "linux",
        Os::Mac => "darwin",
    };
    let mut r = String::from_str(
        "https://github.com/graalvm/graalvm-ce-builds/releases/download/jdk-25.0.1/graalvm-community-jdk-25.0.1_",
    );
    r.append(os);
    r.append("-");
    r.append(arch_text(p.arch));
    r.append("_bin.zip");
    r
}

/// Where a runtime distribution comes from.
#[derive(Clone, Debug, PartialEq, Eq)]
pub enum RuntimeSource {
    /// A metadata query whose JSON answer holds the download under `url`.
    Lookup(String),
    /// The download itself.
    Direct(String),
}

/// A source as (looked up through metadata, address).
pub open spec fn source_view(s: RuntimeSource) -> (bool, Seq<char>) {
    match s {
        RuntimeSource::Lookup(u) => (true, u@),
        RuntimeSource::Direct(u) => (false, u@),
    }
}

/// The source of each known distribution: Azul through its metadata
/// service, Adoptium and GraalVM by direct download. Unknown names have
/// none.
pub open spec fn runtime_source_of(distribution: Seq<char>, p: Platform) -> Option<(bool, Seq<char>)> {
    if distribution == "Azul"@ {
        Some((true, azul_url_of(p)))
    } else if distribution == "Adoptium"@ {
        Some((false, adoptium_url_of(p)))
    } else if distribution == "Graalvm"@ {
        Some((false, graalvm_url_of(p)))
    } else {
        None
    }
}

/// Picks the download strategy for a distribution on a host.
pub fn runtime_source(distribution: &str, p: Platform) -> (r: Option<RuntimeSource>)
    ensures
        r is None <==> runtime_source_of(distribution@, p) is None,
        r matches Some(s) ==> runtime_source_of(distribution@, p) == Some(source_view(s)),
{
    if same_text(distribution, "Azul") {
        Some(RuntimeSource::Lookup(azul_url(p)))
    } else if same_text(distribution, "Adoptium") {
        Some(RuntimeSource::Direct(adoptium_url(p)))
    } else if same_text(distribution, "Graalvm") {
        Some(RuntimeSource::Direct(graalvm_url(p)))
    } else {
        None
    }
}

/// Where a distribution's archive is kept while it is unpacked: next to
/// its directory, with a `.zip` suffix.
pub fn runtime_archive_path(working_dir: &str, distribution: &str) -> (r: String)
    ensures
        r@ == joined(joined(working_dir@, JAVA_DIR@), lower_of(distribution@) + ".zip"@),
{
    let j = java_dir(working_dir);
    let mut name = lowercase(distribution);
    name.append(".zip");
    join_path(j.as_str(), name.as_str())
}

} // verus!

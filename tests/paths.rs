use subchunker::paths::{
    data_dir, installed_minecraft_versions, java_dir, main_dir, mc_ver_installed, runtime_dir,
    server_dir, version_entry,
};
use subchunker::runtime::{
    adoptium_url, azul_url, graalvm_url, platform, runtime_archive_path, runtime_source, Arch, Os,
    Platform, RuntimeSource,
};
use subchunker::versions::{get_fabric_loader_versions, get_minecraft_versions, VersionEntry};

#[test]
fn directories_under_the_working_directory() {
    assert_eq!(main_dir("/w"), "/w/subchunker");
    assert_eq!(server_dir("/w"), "/w/subchunker/server");
    assert_eq!(data_dir("/w"), "/w/subchunker/data");
    assert_eq!(java_dir("/w"), "/w/subchunker/java");
    assert_eq!(runtime_dir("/w", "Adoptium"), "/w/subchunker/java/adoptium");
    assert_eq!(version_entry("/w", "1.21", "eula.txt"), "/w/subchunker/server/1.21/eula.txt");
    assert_eq!(runtime_archive_path("/w", "Azul"), "/w/subchunker/java/azul.zip");
}

#[test]
fn installed_versions_skip_unreadable_entries() {
    let entries = vec![Some("1.21".to_string()), None, Some("1.20.1".to_string())];
    let v = installed_minecraft_versions(entries);
    assert_eq!(v, vec!["1.21".to_string(), "1.20.1".to_string()]);
    assert!(mc_ver_installed(&v, "1.20.1"));
    assert!(!mc_ver_installed(&v, "1.20"));
    assert!(!mc_ver_installed(&vec![], "1.20"));
}

#[test]
fn host_recognition() {
    assert_eq!(platform("linux", "x86_64"), Some(Platform { os: Os::Linux, arch: Arch::X64 }));
    assert_eq!(platform("macos", "aarch64"), Some(Platform { os: Os::Mac, arch: Arch::Aarch64 }));
    assert_eq!(platform("windows", "x86_64"), Some(Platform { os: Os::Windows, arch: Arch::X64 }));
    assert_eq!(platform("freebsd", "x86_64"), None);
    assert_eq!(platform("linux", "riscv64"), None);
}

#[test]
fn runtime_download_addresses() {
    let p = Platform { os: Os::Mac, arch: Arch::Aarch64 };
    assert_eq!(
        azul_url(p),
        "https://api.azul.com/zulu/download/community/v1.0/bundles/latest?java_version=25&os=mac&arch=aarch64&ext=zip&bundle_type=jdk"
    );
    assert_eq!(
        adoptium_url(p),
        "https://api.adoptium.net/v3/binary/latest/25/ga/mac/aarch64/jdk/hotspot/normal/eclipse?project=jdk"
    );
    assert_eq!(
        graalvm_url(p),
        "https://github.com/graalvm/graalvm-ce-builds/releases/download/jdk-25.0.1/graalvm-community-jdk-25.0.1_darwin-aarch64_bin.zip"
    );
    let l = Platform { os: Os::Linux, arch: Arch::X64 };
    assert_eq!(
        graalvm_url(l),
        "https://github.com/graalvm/graalvm-ce-builds/releases/download/jdk-25.0.1/graalvm-community-jdk-25.0.1_linux-x64_bin.zip"
    );
}

#[test]
fn runtime_strategies() {
    let p = Platform { os: Os::Linux, arch: Arch::X64 };
    assert_eq!(runtime_source("Azul", p), Some(RuntimeSource::Lookup(azul_url(p))));
    assert_eq!(runtime_source("Adoptium", p), Some(RuntimeSource::Direct(adoptium_url(p))));
    assert_eq!(runtime_source("Graalvm", p), Some(RuntimeSource::Direct(graalvm_url(p))));
    assert_eq!(runtime_source("azul", p), None);
}

#[test]
fn stable_versions_in_listed_order() {
    let entries = vec![
        VersionEntry { version: "25w01a".to_string(), stable: false },
        VersionEntry { version: "1.21.4".to_string(), stable: true },
        VersionEntry { version: "1.21.3".to_string(), stable: true },
    ];
    assert_eq!(get_minecraft_versions(&entries), vec!["1.21.4".to_string(), "1.21.3".to_string()]);
    assert_eq!(get_fabric_loader_versions(&vec![]), Vec::<String>::new());
}

use gdvm::error::GdvmError;
use gdvm::host::{detect_host, HostArch, HostOs, HostPlatform};
use gdvm::registry::{
    check_index_status, check_release_status, index_url, registry_arch_key,
    registry_platform_key, release_url, select_binary, select_binary_or_error, ArchBinary,
    BinaryInfo, BinarySelectionError, PlatformBinaries, ReleaseMetadata,
};

fn make_meta(platform_key: &str, arch_key: &str) -> ReleaseMetadata {
    ReleaseMetadata {
        id: 1,
        name: "4.0.stable".to_string(),
        url: "http://example.com".to_string(),
        binaries: vec![PlatformBinaries {
            platform: platform_key.to_string(),
            arches: vec![ArchBinary {
                arch: arch_key.to_string(),
                info: BinaryInfo {
                    sha512: "abc".to_string(),
                    urls: vec!["http://example.com/godot.zip".to_string()],
                },
            }],
        }],
    }
}

#[test]
fn selects_macos_universal_when_present() {
    let mut meta = make_meta("macos", "x86_64");
    meta.binaries[0].arches.push(ArchBinary {
        arch: "universal".to_string(),
        info: BinaryInfo {
            sha512: "def".to_string(),
            urls: vec!["http://example.com/universal.zip".to_string()],
        },
    });

    let host = HostPlatform { os: HostOs::Macos, arch: HostArch::X86_64 };

    let selected = select_binary(&meta, host, false).unwrap();
    assert_eq!(selected.urls[0], "http://example.com/universal.zip");
}

#[test]
fn errors_when_platform_missing() {
    let meta = make_meta("linux", "x86_64");
    let host = HostPlatform { os: HostOs::Windows, arch: HostArch::X86_64 };

    let err = select_binary(&meta, host, false).unwrap_err();
    assert_eq!(err, BinarySelectionError::UnsupportedPlatform);
}

#[test]
fn errors_when_arch_or_url_missing() {
    let meta = make_meta("linux", "x86_64");
    let arm = HostPlatform { os: HostOs::Linux, arch: HostArch::Aarch64 };
    assert_eq!(select_binary(&meta, arm, false).unwrap_err(), BinarySelectionError::UnsupportedArch);
    assert_eq!(select_binary_or_error(&meta, arm, false).unwrap_err(), GdvmError::UnsupportedArch);
    let x64 = HostPlatform { os: HostOs::Linux, arch: HostArch::X86_64 };
    assert_eq!(
        select_binary(&meta, x64, true).unwrap_err(),
        BinarySelectionError::UnsupportedPlatform
    );
    assert_eq!(
        select_binary_or_error(&meta, x64, true).unwrap_err(),
        GdvmError::UnsupportedPlatform
    );
    let mut empty = make_meta("linux", "x86_64");
    empty.binaries[0].arches[0].info.urls.clear();
    assert_eq!(select_binary(&empty, x64, false).unwrap_err(), BinarySelectionError::MissingUrl);
    assert_eq!(select_binary_or_error(&empty, x64, false).unwrap_err(), GdvmError::MissingBinaryUrl);
    assert_eq!(select_binary_or_error(&meta, x64, false).unwrap().sha512, "abc");
}

#[test]
fn universal_is_only_taken_on_macos() {
    let mut meta = make_meta("linux", "universal");
    meta.binaries[0].arches.push(ArchBinary {
        arch: "x86_64".to_string(),
        info: BinaryInfo { sha512: "x".to_string(), urls: vec!["http://e/x.zip".to_string()] },
    });
    let host = HostPlatform { os: HostOs::Linux, arch: HostArch::X86_64 };
    assert_eq!(select_binary(&meta, host, false).unwrap().sha512, "x");
    let mac = make_meta("macos-csharp", "arm64");
    let host = HostPlatform { os: HostOs::Macos, arch: HostArch::Aarch64 };
    assert_eq!(select_binary(&mac, host, true).unwrap().sha512, "abc");
}

#[test]
fn registry_keys() {
    let host = |os, arch| HostPlatform { os, arch };
    assert_eq!(registry_platform_key(host(HostOs::Windows, HostArch::X86), false), "windows");
    assert_eq!(registry_platform_key(host(HostOs::Windows, HostArch::X86), true), "windows-csharp");
    assert_eq!(registry_platform_key(host(HostOs::Macos, HostArch::X86), false), "macos");
    assert_eq!(registry_platform_key(host(HostOs::Macos, HostArch::X86), true), "macos-csharp");
    assert_eq!(registry_platform_key(host(HostOs::Linux, HostArch::X86), false), "linux");
    assert_eq!(registry_platform_key(host(HostOs::Linux, HostArch::X86), true), "linux-csharp");
    assert_eq!(registry_arch_key(host(HostOs::Linux, HostArch::X86_64)), "x86_64");
    assert_eq!(registry_arch_key(host(HostOs::Linux, HostArch::X86)), "x86");
    assert_eq!(registry_arch_key(host(HostOs::Linux, HostArch::Aarch64)), "arm64");
}

#[test]
fn registry_addresses() {
    assert_eq!(
        index_url(),
        "https://raw.githubusercontent.com/adalinesimonian/gdvm/refs/heads/registry/v1/index.json"
    );
    assert_eq!(
        release_url(7, "4.3-stable"),
        "https://raw.githubusercontent.com/adalinesimonian/gdvm/refs/heads/registry/v1/releases/7_4.3-stable.json"
    );
    assert_eq!(
        release_url(18446744073709551615, "x"),
        "https://raw.githubusercontent.com/adalinesimonian/gdvm/refs/heads/registry/v1/releases/18446744073709551615_x.json"
    );
    assert!(release_url(0, "x").ends_with("/releases/0_x.json"));
}

#[test]
fn registry_answers() {
    assert_eq!(check_index_status(200), Ok(()));
    assert_eq!(check_index_status(404), Err(GdvmError::IndexFetchFailed));
    assert_eq!(check_index_status(204), Err(GdvmError::IndexFetchFailed));
    assert_eq!(check_release_status(200), Ok(()));
    assert_eq!(check_release_status(500), Err(GdvmError::ReleaseFetchFailed));
}

#[test]
fn hosts_and_triples() {
    assert_eq!(
        detect_host("linux", "x86_64"),
        Ok(HostPlatform { os: HostOs::Linux, arch: HostArch::X86_64 })
    );
    assert_eq!(
        detect_host("macos", "aarch64"),
        Ok(HostPlatform { os: HostOs::Macos, arch: HostArch::Aarch64 })
    );
    assert_eq!(
        detect_host("windows", "x86"),
        Ok(HostPlatform { os: HostOs::Windows, arch: HostArch::X86 })
    );
    assert_eq!(detect_host("freebsd", "x86_64"), Err(GdvmError::UnsupportedPlatform));
    assert_eq!(detect_host("freebsd", "mips"), Err(GdvmError::UnsupportedPlatform));
    assert_eq!(detect_host("linux", "mips"), Err(GdvmError::UnsupportedArch));
    let triple = |os, arch| HostPlatform { os, arch }.gdvm_target_triple();
    assert_eq!(triple(HostOs::Windows, HostArch::Aarch64), Ok("aarch64-pc-windows-msvc"));
    assert_eq!(triple(HostOs::Windows, HostArch::X86_64), Ok("x86_64-pc-windows-msvc"));
    assert_eq!(triple(HostOs::Windows, HostArch::X86), Ok("i686-pc-windows-msvc"));
    assert_eq!(triple(HostOs::Linux, HostArch::Aarch64), Ok("aarch64-unknown-linux-gnu"));
    assert_eq!(triple(HostOs::Linux, HostArch::X86_64), Ok("x86_64-unknown-linux-gnu"));
    assert_eq!(triple(HostOs::Linux, HostArch::X86), Ok("i686-unknown-linux-gnu"));
    assert_eq!(triple(HostOs::Macos, HostArch::Aarch64), Ok("aarch64-apple-darwin"));
    assert_eq!(triple(HostOs::Macos, HostArch::X86_64), Ok("x86_64-apple-darwin"));
    assert_eq!(triple(HostOs::Macos, HostArch::X86), Err(GdvmError::UnsupportedArch));
}

use zknet_core::platform::{map_platform_arch, platform_kind, platform_prefix, PlatformKind};

#[test]
fn test_known_mappings() {
    assert_eq!(map_platform_arch("linux", "x86_64"), Ok("linux-x64".into()));
    assert_eq!(
        map_platform_arch("linux", "aarch64"),
        Ok("linux-arm64".into())
    );
    assert_eq!(map_platform_arch("macos", "x86_64"), Ok("macos".into()));
    assert_eq!(map_platform_arch("macos", "aarch64"), Ok("macos".into()));
    assert_eq!(
        map_platform_arch("windows", "x86_64"),
        Ok("windows-x64".into())
    );
}

#[test]
fn test_unsupported_platform() {
    let result = map_platform_arch("plan9", "mips");
    assert!(result.is_err());
    assert!(result.unwrap_err().contains("Unsupported platform"));
}

#[test]
fn platform_prefix_stops_at_first_dash() {
    assert_eq!(platform_prefix("linux-x64"), "linux");
    assert_eq!(platform_prefix("linux-arm64"), "linux");
    assert_eq!(platform_prefix("macos"), "macos");
    assert_eq!(platform_prefix(""), "");
}

#[test]
fn platform_kind_classification() {
    assert_eq!(platform_kind("linux-x64"), PlatformKind::Unix);
    assert_eq!(platform_kind("linux-arm64"), PlatformKind::Unix);
    assert_eq!(platform_kind("macos"), PlatformKind::Unix);
    assert_eq!(platform_kind("windows-x64"), PlatformKind::Windows);
    assert_eq!(platform_kind("plan9-mips"), PlatformKind::Other);
}

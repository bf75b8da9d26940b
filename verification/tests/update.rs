use beehive::update::{asset_name, check_for_update, manual_update_message, release_asset_url, version_newer};

#[test]
fn newer_versions() {
    assert!(version_newer("0.2.0", "0.1.5"));
    assert!(!version_newer("0.1.5", "0.2.0"));
    assert!(!version_newer("1.0.0", "1.0.0"));
    assert!(version_newer("1.0.1", "1.0"));
    assert!(!version_newer("1.0", "1.0.0"));
    assert!(version_newer("1.10", "1.9"));
    // Pieces that are not numbers are skipped.
    assert!(!version_newer("1.x.0", "1.0"));
    assert!(version_newer("+2", "1"));
}

#[test]
fn update_check_reads_the_tag() {
    assert_eq!(check_for_update(Some(" v0.3.0\n".to_string()), "0.2.9"), Some("0.3.0".to_string()));
    assert_eq!(check_for_update(Some("v0.2.9".to_string()), "0.2.9"), None);
    assert_eq!(check_for_update(None, "0.2.9"), None);
}

#[test]
fn update_assets_urls_and_manual_instructions() {
    assert_eq!(asset_name("macos", "aarch64"), Some("beehive-tui-darwin-arm64"));
    assert_eq!(asset_name("linux", "x86_64"), Some("beehive-tui-linux-x64"));
    assert_eq!(asset_name("windows", "x86_64"), None);
    assert_eq!(
        release_asset_url("0.3.1", "beehive-tui-linux-x64"),
        "https://github.com/storozhenko98/beehive/releases/download/v0.3.1/beehive-tui-linux-x64"
    );
    assert_eq!(
        manual_update_message("Download failed."),
        "Download failed. Update manually:\n  curl -fsSL https://raw.githubusercontent.com/storozhenko98/beehive/main/install.sh | bash"
    );
}

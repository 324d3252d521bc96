use squad_ready::update_checker::{
    evaluate_release, find_dll_asset, get_current_version, is_newer, parse_version,
    select_release, version_to_string, ReleaseAsset, ReleaseInfo, UpdateStatus, Version,
};

#[test]
fn test_parse_version() {
    assert_eq!(parse_version("1.2.3"), Some([1, 2, 3, 0]));
    assert_eq!(parse_version("v1.2.3"), Some([1, 2, 3, 0]));
    assert_eq!(parse_version("v10.20.30"), Some([10, 20, 30, 0]));
    assert_eq!(parse_version("1.2"), None);
    assert_eq!(parse_version("1.2.3-beta"), Some([1, 2, 3, 0]));
}

#[test]
fn test_is_newer() {
    assert!(is_newer(&[2, 0, 0, 0], &[1, 0, 0, 0]));
    assert!(is_newer(&[1, 1, 0, 0], &[1, 0, 0, 0]));
    assert!(is_newer(&[1, 0, 1, 0], &[1, 0, 0, 0]));
    assert!(!is_newer(&[1, 0, 0, 0], &[1, 0, 0, 0]));
    assert!(!is_newer(&[1, 0, 0, 0], &[2, 0, 0, 0]));
}

#[test]
fn test_version_to_string() {
    assert_eq!(version_to_string(&[1, 2, 3, 0]), "1.2.3");
    assert_eq!(version_to_string(&[10, 20, 30, 0]), "10.20.30");
}

#[test]
fn parse_version_edge_cases() {
    assert_eq!(parse_version(""), None);
    assert_eq!(parse_version("v"), None);
    assert_eq!(parse_version("1.2."), None);
    assert_eq!(parse_version("1.2.x"), None);
    assert_eq!(parse_version("a.2.3"), None);
    assert_eq!(parse_version("1.2.3.4"), Some([1, 2, 3, 0]));
    assert_eq!(parse_version("65535.0.0"), Some([65535, 0, 0, 0]));
    assert_eq!(parse_version("65536.0.0"), None);
    assert_eq!(parse_version("007.08.09"), Some([7, 8, 9, 0]));
}

#[test]
fn version_to_string_shows_zero() {
    assert_eq!(version_to_string(&[0, 0, 0, 0]), "0.0.0");
    assert_eq!(version_to_string(&[65535, 1, 0, 7]), "65535.1.0");
}

#[test]
fn build_component_is_ignored() {
    assert!(!is_newer(&[1, 0, 0, 9], &[1, 0, 0, 0]));
    assert!(is_newer(&[1, 0, 1, 0], &[1, 0, 0, 9]));
}

#[test]
fn current_version_matches_package() {
    let version: Version = get_current_version();
    assert_eq!(version, [0, 1, 0, 0]);
}

fn asset(name: &str, url: &str) -> ReleaseAsset {
    ReleaseAsset {
        name: name.to_string(),
        browser_download_url: url.to_string(),
    }
}

#[test]
fn find_dll_asset_picks_first_dll() {
    let assets = vec![
        asset("readme.txt", "u0"),
        asset("plugin.dll", "u1"),
        asset("other.dll", "u2"),
    ];
    assert_eq!(find_dll_asset(&assets), Some(1));
    assert_eq!(find_dll_asset(&vec![asset("a.txt", "u0")]), None);
    assert_eq!(find_dll_asset(&Vec::new()), None);
}

#[test]
fn select_release_skips_releases_without_dll() {
    let releases = vec![
        ReleaseInfo {
            tag_name: "v2.0.0".to_string(),
            assets: vec![asset("notes.md", "u0")],
        },
        ReleaseInfo {
            tag_name: "v1.9.0".to_string(),
            assets: vec![asset("plugin.dll", "u1")],
        },
    ];
    assert_eq!(select_release(&releases), Some(1));
    assert_eq!(select_release(&Vec::new()), None);
}

#[test]
fn evaluate_release_offers_newer_version() {
    let assets = vec![asset("notes.md", "u0"), asset("plugin.dll", "u1")];
    let update = evaluate_release("v2.0.0", &assets, Some([1, 0, 0, 0])).unwrap();
    assert_eq!(update.version, [2, 0, 0, 0]);
    assert_eq!(update.download_url, "u1");
}

#[test]
fn evaluate_release_rejects_stale_or_broken() {
    let assets = vec![asset("plugin.dll", "u1")];
    // Not newer than the installed version.
    assert!(evaluate_release("v1.0.0", &assets, Some([1, 0, 0, 0])).is_none());
    // Unparseable tag.
    assert!(evaluate_release("nightly", &assets, Some([1, 0, 0, 0])).is_none());
    // No plugin binary among the assets.
    assert!(evaluate_release("v2.0.0", &vec![asset("a.txt", "u0")], Some([1, 0, 0, 0])).is_none());
    // Without a known current version any parseable release qualifies.
    let update = evaluate_release("0.0.1", &assets, None).unwrap();
    assert_eq!(update.version, [0, 0, 1, 0]);
}

#[test]
fn update_status_is_comparable() {
    assert_eq!(UpdateStatus::Unknown, UpdateStatus::Unknown);
    assert!(UpdateStatus::UpdateAvailable != UpdateStatus::Dismissed);
}

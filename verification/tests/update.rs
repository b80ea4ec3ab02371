use dsondt::update::{
    checked_info, latest_tag_from_metadata, pick_dmg, Release, ReleaseAsset, UpdateAction,
    UpdateCheck, UpdateInfo, UpdatePhase,
};

fn asset(name: &str, url: &str) -> ReleaseAsset {
    ReleaseAsset { name: name.to_string(), browser_download_url: url.to_string() }
}

fn release(tag: &str, assets: Vec<ReleaseAsset>, html: &str) -> Release {
    Release { tag_name: tag.to_string(), body: "notes".to_string(), html_url: html.to_string(), assets }
}

#[test]
fn pick_dmg_finds_first_disk_image() {
    let r = release("v1", vec![asset("a.zip", "u1"), asset("B.DMG", "u2"), asset("c.dmg", "u3")], "");
    assert_eq!(pick_dmg(&r), Some("u2".to_string()));
    let r = release("v1", vec![asset("a.zip", "u1")], "");
    assert_eq!(pick_dmg(&r), None);
}

#[test]
fn direct_release_with_update() {
    let (mut c, a) = UpdateCheck::start("0.3.3");
    match a {
        UpdateAction::FetchRelease(u) => assert_eq!(u, "https://api.github.com/repos/wolfprince12/DSonDT/releases/latest"),
        _ => panic!(),
    }
    let r = release("v0.3.4", vec![asset("DSonDT.dmg", "https://github.com/x.dmg")], "https://page");
    match c.on_release(true, Some(r)) {
        UpdateAction::Finish(info) => {
            assert!(info.checked && info.has_update && info.github_reachable);
            assert_eq!(info.latest, "0.3.4");
            assert_eq!(info.current, "0.3.3");
            assert_eq!(info.notes, "notes");
            assert_eq!(info.download_url, "https://github.com/x.dmg");
            assert_eq!(
                info.mirror_urls,
                vec![
                    "https://ghfast.top/https://github.com/x.dmg".to_string(),
                    "https://gh-proxy.com/https://github.com/x.dmg".to_string(),
                    "https://ghproxy.net/https://github.com/x.dmg".to_string(),
                ]
            );
            assert_eq!(info.release_url, "https://github.com/wolfprince12/DSonDT/releases/latest");
        }
        _ => panic!(),
    }
    assert_eq!(c.phase, UpdatePhase::Finished);
}

#[test]
fn unreachable_github_uses_mirror_then_jsdelivr() {
    let (mut c, _) = UpdateCheck::start("0.3.3");
    match c.on_release(false, None) {
        UpdateAction::FetchRelease(u) => {
            assert_eq!(u, "https://gh-proxy.com/https://api.github.com/repos/wolfprince12/DSonDT/releases/latest")
        }
        _ => panic!(),
    }
    match c.on_release(true, None) {
        UpdateAction::FetchLatestTag(u) => assert_eq!(u, "https://data.jsdelivr.com/v1/packages/gh/wolfprince12/DSonDT"),
        _ => panic!(),
    }
    assert!(!c.github_reachable);
    match c.on_latest_tag(Some("v0.4.0".to_string())) {
        UpdateAction::Finish(info) => {
            assert!(info.checked && info.has_update && !info.github_reachable);
            assert_eq!(info.latest, "0.4.0");
            assert_eq!(info.notes, "");
            assert_eq!(
                info.download_url,
                "https://ghfast.top/https://github.com/wolfprince12/DSonDT/releases/download/v0.4.0/DSonDT-0.4.0-aarch64.dmg"
            );
        }
        _ => panic!(),
    }
}

#[test]
fn everything_failing_is_unchecked() {
    let (mut c, _) = UpdateCheck::start("0.3.3");
    let _ = c.on_release(false, None);
    let _ = c.on_release(false, None);
    match c.on_latest_tag(None) {
        UpdateAction::Finish(info) => {
            assert!(!info.checked && !info.has_update);
            assert_eq!(info.current, "0.3.3");
            assert_eq!(info.latest, "");
            assert!(info.download_url.is_empty() && info.mirror_urls.is_empty());
        }
        _ => panic!(),
    }
}

#[test]
fn no_update_gives_no_download() {
    let (mut c, _) = UpdateCheck::start("0.3.3");
    let r = release("0.3.3", vec![], "");
    match c.on_release(true, Some(r)) {
        UpdateAction::Finish(info) => {
            assert!(info.checked && !info.has_update);
            assert!(info.download_url.is_empty() && info.mirror_urls.is_empty());
        }
        _ => panic!(),
    }
}

#[test]
fn release_without_dmg_points_to_page() {
    let info = checked_info(&"0.1".to_string(), true, "v0.2", String::new(), "dl".to_string());
    assert_eq!(info.download_url, "dl");
    let (mut c, _) = UpdateCheck::start("0.1");
    match c.on_release(true, Some(release("v0.2", vec![], ""))) {
        UpdateAction::Finish(info) => assert_eq!(info.download_url, "https://github.com/wolfprince12/DSonDT/releases/latest"),
        _ => panic!(),
    }
    let (mut c, _) = UpdateCheck::start("0.1");
    match c.on_release(true, Some(release("v0.2", vec![], "https://page"))) {
        UpdateAction::Finish(info) => assert_eq!(info.download_url, "https://page"),
        _ => panic!(),
    }
}

#[test]
fn jsdelivr_metadata() {
    assert_eq!(latest_tag_from_metadata(Some("v9".to_string()), vec!["1.0".to_string()]), Some("v9".to_string()));
    assert_eq!(
        latest_tag_from_metadata(None, vec!["0.3.3".to_string(), "0.3.10".to_string(), "0.3.9".to_string()]),
        Some("0.3.10".to_string())
    );
    assert_eq!(latest_tag_from_metadata(None, vec![]), None);
    // The largest version wins over the `latest` tag; the first one on ties.
    assert_eq!(
        latest_tag_from_metadata(Some("v0.3.3".to_string()), vec!["0.3.2".to_string(), "0.3.10".to_string()]),
        Some("0.3.10".to_string())
    );
    assert_eq!(latest_tag_from_metadata(Some("v0.3.3".to_string()), vec!["0.3.3".to_string()]), Some("v0.3.3".to_string()));
}

#[test]
fn default_info_is_empty() {
    let d = UpdateInfo::default();
    assert!(!d.checked && !d.has_update && !d.github_reachable && d.current.is_empty());
}

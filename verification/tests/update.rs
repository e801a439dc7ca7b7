use insanity::options::{
    display_name, merge_configs, merge_values, needs_renewal, IpVersion, OptionalRunOptions,
    RunOptions, Sources, ValueSource,
};
use insanity::text::{ends_with, push_decimal, starts_with};
use insanity::update::{
    entry_is_directory, executable_mode, fetch_failure, find_executable, finishing_steps,
    plan_from_document, plan_update, read_release, user_agent, version_tag, Asset, DirEntry,
    FinishingStep, Release, UpdatablePlatform, UpdateFault, UpdatePlan,
};

const DOCUMENT: &str = r#"{
    "tag_name": "v2",
    "assets": [
        {"name": "insanity-linux-musl.zip", "browser_download_url": "http://musl"},
        {"name": "insanity-linux-gnu.zip", "browser_download_url": "http://gnu"},
        {"name": "insanity-linux-gnu-2.zip", "browser_download_url": "http://gnu2"}
    ]
}"#;

fn asset(name: Option<&str>, url: Option<&str>) -> Asset {
    Asset {
        name: name.map(str::to_owned),
        browser_download_url: url.map(str::to_owned),
    }
}

fn release(tag: Option<&str>, assets: Option<Vec<Asset>>) -> Release {
    Release {
        tag_name: tag.map(str::to_owned),
        assets,
    }
}

fn fault(release: &Release, platform: Option<UpdatablePlatform>) -> UpdateFault {
    plan_update(release, &"v1".to_owned(), platform, false)
        .err()
        .expect("a fault")
}

#[test]
fn documents_are_read() {
    let release = read_release(DOCUMENT).expect("JSON");
    assert_eq!(release.tag_name.as_deref(), Some("v2"));
    let assets = release.assets.expect("assets");
    assert_eq!(assets.len(), 3);
    assert_eq!(assets[1].name.as_deref(), Some("insanity-linux-gnu.zip"));
    assert_eq!(
        assets[2].browser_download_url.as_deref(),
        Some("http://gnu2")
    );
    assert!(read_release("no JSON").is_none());
    let empty = read_release("{}").expect("JSON");
    assert!(empty.tag_name.is_none());
    assert!(empty.assets.is_none());
    let odd = read_release(r#"{"tag_name": 2, "assets": [{}, 3]}"#).expect("JSON");
    assert!(odd.tag_name.is_none());
    assert!(odd.assets.expect("assets").iter().all(|a| a.name.is_none()));
}

#[test]
fn first_fitting_asset_is_downloaded() {
    let plan = plan_from_document(
        DOCUMENT,
        &"v1".to_owned(),
        Some(UpdatablePlatform::LinuxGNU),
        false,
    );
    match plan {
        Some(Ok(UpdatePlan::Download { asset_name, url })) => {
            assert_eq!(asset_name, "insanity-linux-gnu");
            assert_eq!(url, "http://gnu");
        }
        other => panic!("unexpected {other:?}"),
    }
    assert!(plan_from_document("[", &"v1".to_owned(), None, false).is_none());
}

#[test]
fn up_to_date_unless_forced() {
    let platform = Some(UpdatablePlatform::LinuxMusl);
    let current = "v2".to_owned();
    assert!(matches!(
        plan_from_document(DOCUMENT, &current, platform, false),
        Some(Ok(UpdatePlan::UpToDate))
    ));
    assert!(matches!(
        plan_from_document(DOCUMENT, &current, platform, true),
        Some(Ok(UpdatePlan::Download { .. }))
    ));
}

#[test]
fn faults_are_told_apart() {
    let gnu = Some(UpdatablePlatform::LinuxGNU);
    assert_eq!(fault(&release(None, None), gnu), UpdateFault::TagMissing);
    assert_eq!(
        fault(&release(Some("v2"), None), gnu),
        UpdateFault::AssetsMissing
    );
    assert_eq!(
        fault(&release(Some("v2"), Some(Vec::new())), None),
        UpdateFault::PlatformUnsupported
    );
    let nameless = release(Some("v2"), Some(vec![asset(None, Some("u"))]));
    assert_eq!(fault(&nameless, gnu), UpdateFault::AssetNameMissing);
    let other = release(Some("v2"), Some(vec![asset(Some("source"), Some("u"))]));
    assert_eq!(fault(&other, gnu), UpdateFault::AssetNotFound);
    let broken = release(
        Some("v2"),
        Some(vec![asset(Some("insanity-linux-gnu"), None)]),
    );
    assert_eq!(fault(&broken, gnu), UpdateFault::UrlMissing);
    assert_eq!(
        UpdateFault::UrlMissing.message(),
        "asset download url is not a string"
    );
    assert_eq!(
        UpdateFault::TagMissing.message(),
        "tag_name is not a string"
    );
}

#[test]
fn platforms_have_their_assets() {
    assert_eq!(
        UpdatablePlatform::WindowsMSVC.get_asset_name(),
        "insanity-windows-msvc"
    );
    assert_eq!(
        UpdatablePlatform::WindowsMingw.get_asset_name(),
        "insanity-windows-mingw"
    );
    assert_eq!(
        UpdatablePlatform::MacOSAppleSilicon.get_asset_name(),
        "insanity-macos-apple-silicon"
    );
}

#[test]
fn archives_and_directories() {
    assert!(entry_is_directory("insanity-linux-gnu/"));
    assert!(!entry_is_directory("insanity-linux-gnu/insanity"));
    assert!(!entry_is_directory(""));
    let entry = |is_file, name: Option<&str>| DirEntry {
        is_file,
        name: name.map(str::to_owned),
    };
    let entries = vec![
        entry(false, Some("insanity")),
        entry(true, None),
        entry(true, Some("README")),
        entry(true, Some("insanity.exe")),
        entry(true, Some("insanity")),
    ];
    assert_eq!(find_executable(&entries), Some(3));
    assert_eq!(find_executable(&vec![entry(true, Some("ins"))]), None);
    assert_eq!(executable_mode(0o644), 0o755);
    assert_eq!(version_tag("1.2.3"), "v1.2.3");
    assert_eq!(user_agent("x"), "insanity-updater-x");
    assert_eq!(
        finishing_steps(false, true),
        vec![FinishingStep::Replace, FinishingStep::AllowExecution]
    );
    assert_eq!(finishing_steps(true, true), vec![FinishingStep::AllowExecution]);
    assert_eq!(finishing_steps(false, false), vec![FinishingStep::Replace]);
    assert_eq!(finishing_steps(true, false), vec![]);
    assert_eq!(fetch_failure(true, "200 OK"), None);
    assert_eq!(
        fetch_failure(false, "404 Not Found"),
        Some("Failed to fetch latest release: 404 Not Found".to_owned())
    );
}

#[test]
fn texts_and_numbers() {
    assert!(starts_with("größe", "grö"));
    assert!(!starts_with("grö", "größe"));
    assert!(!starts_with("grob", "grö"));
    assert!(starts_with("", ""));
    assert!(ends_with("naß", 'ß'));
    for n in [0, 9, 10, 99, 100, 12345, u64::MAX] {
        let mut text = "n=".to_owned();
        push_decimal(&mut text, n);
        assert_eq!(text, format!("n={n}"));
    }
}

#[test]
fn explicit_options_come_first() {
    let line = Some(ValueSource::CommandLine);
    let env = Some(ValueSource::EnvVariable);
    let default = Some(ValueSource::DefaultValue);
    assert_eq!(merge_values(1, None, default), 1);
    assert_eq!(merge_values(1, Some(2), default), 2);
    assert_eq!(merge_values(1, Some(2), None), 2);
    assert_eq!(merge_values(1, Some(2), line), 1);
    assert_eq!(merge_values(1, Some(2), env), 1);
    let primary = RunOptions {
        port: 0,
        no_tui: true,
        bridge: Vec::new(),
        room: None,
        ip_version: IpVersion::Dualstack,
    };
    let secondary = OptionalRunOptions {
        port: Some(7),
        no_tui: Some(false),
        room: Some(Some("room".to_owned())),
        ..OptionalRunOptions::default()
    };
    let sources = Sources {
        port: default,
        no_tui: line,
        bridge: None,
        room: None,
        ip_version: default,
    };
    let options = merge_configs(primary, secondary, sources);
    assert_eq!(options.port, 7);
    assert!(options.no_tui);
    assert!(options.bridge.is_empty());
    assert_eq!(options.room.as_deref(), Some("room"));
    assert_eq!(options.ip_version, IpVersion::Dualstack);
}

#[test]
fn other_versions_are_renewed() {
    assert!(needs_renewal(None));
    assert!(needs_renewal(Some("0".to_owned())));
    assert!(needs_renewal(Some("1\n".to_owned())));
    assert!(!needs_renewal(Some("1".to_owned())));
}

#[test]
fn users_are_shown_with_their_machine() {
    assert_eq!(
        display_name("Ada".to_owned(), Some("box".to_owned())),
        "Ada [box]"
    );
    assert_eq!(display_name("Ada".to_owned(), None), "Ada [unknown]");
}

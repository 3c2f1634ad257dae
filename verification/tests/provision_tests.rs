use jinja_rs::provision::{detect_target, provision_fish, select_asset, Asset, PkgRepoIndex};
use jinja_rs::report::{ErrorFrame, LibReport, ReportExt};

#[test]
fn test_mock_jsonl_parsing() {
    let line = r#"{"name":"fish","path":"All/fish-4.3.3.pkg"}"#;
    let path = line.split("\"path\":\"").nth(1).and_then(|s| s.split('"').next());
    assert_eq!(path, Some("All/fish-4.3.3.pkg"));
}

#[test]
fn index_finds_package_path() {
    let index = PkgRepoIndex::new(vec![
        r#"{"name":"zsh","path":"All/zsh-5.9.pkg"}"#.to_string(),
        r#"{"name":"fish","path":"All/fish-4.3.3.pkg"}"#.to_string(),
    ]);
    let path = index.find_package_path("fish");
    assert_eq!(path.as_deref(), Some("All/fish-4.3.3.pkg"));
}

#[test]
fn index_misses_absent_package() {
    let index = PkgRepoIndex::new(vec![r#"{"name":"zsh","path":"All/zsh-5.9.pkg"}"#.to_string()]);
    assert!(index.find_package_path("fish").is_none());
}

#[test]
fn index_stops_at_first_matching_line() {
    let index = PkgRepoIndex::new(vec![
        r#"{"name":"fish","origin":"shells/fish"}"#.to_string(),
        r#"{"name":"fish","path":"All/fish-4.3.3.pkg"}"#.to_string(),
    ]);
    assert!(index.find_package_path("fish").is_none());
}

#[test]
fn select_asset_takes_first_fitting() {
    let assets = vec![
        Asset {
            name: "fish-4.0.0-macos.tar.xz".to_string(),
            url: "https://example.com/macos".to_string(),
        },
        Asset {
            name: "fish-4.0.0-linux-x86_64.tar.xz".to_string(),
            url: "https://example.com/linux".to_string(),
        },
        Asset {
            name: "fish-4.0.1-linux-x86_64.tar.xz".to_string(),
            url: "https://example.com/later".to_string(),
        },
    ];
    let chosen = select_asset(&assets, "x86_64", "gnu").unwrap();
    assert_eq!(chosen.0, "fish-4.0.0-linux-x86_64.tar.xz");
    assert_eq!(chosen.1, "https://example.com/linux");
}

#[test]
fn select_asset_lowers_the_name() {
    let assets = vec![Asset {
        name: "Fish-4.0.0-Linux-x86_64.TAR.XZ".to_string(),
        url: "https://example.com/mixed".to_string(),
    }];
    let chosen = select_asset(&assets, "x86_64", "gnu").unwrap();
    assert_eq!(chosen.0, "fish-4.0.0-linux-x86_64.tar.xz");
}

#[test]
fn select_asset_honours_musl_flavour() {
    let assets = vec![
        Asset {
            name: "fish-4.0.0-linux-x86_64.tar.xz".to_string(),
            url: "https://example.com/gnu".to_string(),
        },
        Asset {
            name: "fish-4.0.0-linux-musl-x86_64.tar.xz".to_string(),
            url: "https://example.com/musl".to_string(),
        },
    ];
    let musl = select_asset(&assets, "x86_64", "musl").unwrap();
    assert_eq!(musl.1, "https://example.com/musl");
    let gnu = select_asset(&assets, "x86_64", "gnu").unwrap();
    assert_eq!(gnu.1, "https://example.com/gnu");
}

#[test]
fn select_asset_wants_archive_suffix() {
    let assets = vec![Asset {
        name: "fish-4.0.0-linux-x86_64.zip".to_string(),
        url: "https://example.com/zip".to_string(),
    }];
    assert!(select_asset(&assets, "x86_64", "gnu").is_none());
}

#[test]
fn provision_plan_names_the_target_on_failure() {
    let assets: Vec<Asset> = Vec::new();
    let err = provision_fish(&assets, "x86_64", "gnu").unwrap_err();
    assert_eq!(err, "No matching fish asset found for x86_64-gnu on Linux");
}

#[test]
fn provision_plan_carries_the_selection() {
    let assets = vec![Asset {
        name: "fish-4.0.0-linux-aarch64.txz".to_string(),
        url: "https://example.com/arm".to_string(),
    }];
    let plan = provision_fish(&assets, "aarch64", "gnu").unwrap();
    assert_eq!(plan.asset_name, "fish-4.0.0-linux-aarch64.txz");
    assert_eq!(plan.asset_url, "https://example.com/arm");
}

#[test]
fn target_detection_classifies_flavour() {
    let (arch, env) = detect_target("x86_64", "musl");
    assert_eq!(arch, "x86_64");
    assert_eq!(env, "musl");
    let (arch, env) = detect_target("aarch64", "");
    assert_eq!(arch, "aarch64");
    assert_eq!(env, "gnu");
}

#[test]
fn api_error_carries_report_facts() {
    let report = LibReport {
        title: "Failed to parse config".to_string(),
        code: Some("config::invalid_format".to_string()),
        help: Some("Ensure the configuration file is valid JSON.".to_string()),
        attachments: vec!["The application cannot proceed without a valid config.".to_string()],
        git_hash: "deadbeef".to_string(),
        docs_url: "https://example.com/errors".to_string(),
    };
    let api = report.to_api_error();
    assert_eq!(api.title, "Failed to parse config");
    assert_eq!(api.code.as_deref(), Some("config::invalid_format"));
    assert_eq!(api.help.as_deref(), Some("Ensure the configuration file is valid JSON."));
    assert_eq!(api.git_hash, "deadbeef");
    assert_eq!(api.docs_url, "https://example.com/errors");
    assert_eq!(api.correlation_id.len(), 8);
    assert_eq!(api.history.len(), 1);
    assert_eq!(
        api.history[0].message,
        "The application cannot proceed without a valid config."
    );
}

#[test]
fn report_url_points_code_into_docs() {
    let report = LibReport {
        title: "t".to_string(),
        code: Some("config::invalid_format".to_string()),
        help: None,
        attachments: Vec::new(),
        git_hash: "h".to_string(),
        docs_url: "https://example.com/errors".to_string(),
    };
    assert_eq!(
        report.url().as_deref(),
        Some("https://example.com/errors/#config::invalid_format")
    );
    let uncoded = LibReport {
        title: "t".to_string(),
        code: None,
        help: None,
        attachments: Vec::new(),
        git_hash: "h".to_string(),
        docs_url: "https://example.com/errors".to_string(),
    };
    assert!(uncoded.url().is_none());
}

#[test]
fn history_frames_flatten_in_order() {
    let frames = vec![
        ErrorFrame { message: "first".to_string() },
        ErrorFrame { message: "second".to_string() },
    ];
    let flat = jinja_rs::report::history_messages(&frames);
    assert_eq!(flat, vec!["first".to_string(), "second".to_string()]);
}

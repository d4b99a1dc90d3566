use xmind_cli::infra::fs::backup::{
    backup_metadata_in_dir, default_backup_dir, default_backup_metadata, BackupError,
};
use xmind_cli::infra::fs::cloud::{
    hidden_icloud_placeholder_path, logical_path_from_icloud_placeholder, CloudFileResolver,
    CloudMaterializationAttempt, CloudResolution,
};
use xmind_cli::infra::xmind::assets::{detect_supported_image_media_type, image_checksum};

#[test]
fn detects_png_jpeg_gif_and_svg_media_types() {
    assert_eq!(
        detect_supported_image_media_type(b"\x89PNG\r\n\x1a\nrest"),
        Some("image/png")
    );
    assert_eq!(
        detect_supported_image_media_type(b"\xff\xd8\xff\xe0rest"),
        Some("image/jpeg")
    );
    assert_eq!(
        detect_supported_image_media_type(b"GIF89arest"),
        Some("image/gif")
    );
    assert_eq!(
        detect_supported_image_media_type(br#"<?xml version="1.0"?><svg></svg>"#),
        Some("image/svg+xml")
    );
}

#[test]
fn rejects_unknown_image_media_type() {
    assert_eq!(detect_supported_image_media_type(b"BMbitmap"), None);
}

#[test]
fn svg_detection_skips_byte_order_mark_and_space_but_needs_utf8() {
    assert_eq!(
        detect_supported_image_media_type("\u{feff}  <svg/>".as_bytes()),
        Some("image/svg+xml")
    );
    assert_eq!(detect_supported_image_media_type(b"GIF87a"), Some("image/gif"));
    assert_eq!(detect_supported_image_media_type(b"<?xml version=\"1.0\"?><html/>"), None);
    assert_eq!(detect_supported_image_media_type(b"\xfe<svg"), None);
    assert_eq!(detect_supported_image_media_type(b""), None);
}

#[test]
fn image_checksum_returns_sha256_hex_digest() {
    assert_eq!(
        image_checksum(b"abc"),
        "sha256:ba7816bf8f01cfea414140de5dae2223b00361a396177a9cb410ff61f20015ad"
    );
}

#[test]
fn image_checksum_of_empty_input() {
    assert_eq!(
        image_checksum(b""),
        "sha256:e3b0c44298fc1c149afbf4c8996fb92427ae41e4649b934ca495991b7852b855"
    );
}

#[test]
fn hidden_icloud_placeholder_path_matches_cloud_docs_naming() {
    assert_eq!(
        hidden_icloud_placeholder_path("/tmp/roadmap.xmind"),
        Some("/tmp/.roadmap.xmind.icloud".to_owned())
    );
}

#[test]
fn logical_path_from_icloud_placeholder_strips_hidden_prefix_and_suffix() {
    assert_eq!(
        logical_path_from_icloud_placeholder("/tmp/.roadmap.xmind.icloud"),
        Some("/tmp/roadmap.xmind".to_owned())
    );
}

#[test]
fn non_xmind_icloud_placeholder_is_not_treated_as_workbook() {
    assert_eq!(
        logical_path_from_icloud_placeholder("/tmp/.notes.txt.icloud"),
        None
    );
}

#[test]
fn placeholder_and_logical_path_undo_each_other() {
    let placeholder = hidden_icloud_placeholder_path("/tmp/plan.xmind").expect("placeholder");
    assert_eq!(
        logical_path_from_icloud_placeholder(&placeholder),
        Some("/tmp/plan.xmind".to_owned())
    );
    assert_eq!(logical_path_from_icloud_placeholder("/tmp/roadmap.xmind"), None);
}

#[test]
fn cloud_resolution_downloads_only_missing_workbooks_with_placeholders() {
    let resolver = CloudFileResolver::default();
    assert_eq!(resolver.timeout_millis, 120000);
    assert_eq!(
        resolver.resolve_workbook_path("/tmp/.roadmap.xmind.icloud", true, true, true),
        CloudResolution::Ready("/tmp/roadmap.xmind".to_owned())
    );
    assert_eq!(
        resolver.resolve_workbook_path("/tmp/roadmap.xmind", false, false, true),
        CloudResolution::Ready("/tmp/roadmap.xmind".to_owned())
    );
    assert_eq!(
        resolver.resolve_workbook_path("/tmp/roadmap.xmind", false, true, false),
        CloudResolution::Ready("/tmp/roadmap.xmind".to_owned())
    );
    assert_eq!(
        resolver.resolve_workbook_path("/tmp/roadmap.xmind", false, true, true),
        CloudResolution::Download {
            logical_path: "/tmp/roadmap.xmind".to_owned(),
            placeholder_path: "/tmp/.roadmap.xmind.icloud".to_owned(),
        }
    );
}

#[test]
fn download_attempts_are_judged_by_status_and_error() {
    let resolver = CloudFileResolver::default();
    let ok = CloudMaterializationAttempt {
        tool: "fileproviderctl".to_owned(),
        subcommand: "materialize".to_owned(),
        status: Some(0),
        stderr: String::new(),
        error: None,
    };
    let failed = CloudMaterializationAttempt { status: Some(1), ..ok.clone() };
    assert!(ok.succeeded());
    assert!(!failed.succeeded());
    assert!(resolver.first_download_suffices(&ok, true));
    assert!(!resolver.first_download_suffices(&ok, false));
    assert!(!resolver.first_download_suffices(&failed, true));
    let err = resolver
        .finish_download(
            "/tmp/.roadmap.xmind.icloud",
            "/tmp/roadmap.xmind".to_owned(),
            "/tmp/.roadmap.xmind.icloud".to_owned(),
            vec![failed.clone()],
            false,
        )
        .expect_err("missing workbook is an error");
    assert_eq!(err.attempts, vec![failed]);
    assert_eq!(err.message(), "cloud workbook could not be downloaded");
}

#[test]
fn backup_goes_to_timestamped_file_beside_workbook() {
    assert_eq!(default_backup_dir("/tmp/work/roadmap.xmind"), "/tmp/work/.xmind-backups");
    let backup = default_backup_metadata("/tmp/work/roadmap.xmind", "20260522-153000");
    assert_eq!(
        backup.path,
        "/tmp/work/.xmind-backups/roadmap.20260522-153000.xmind"
    );
    let other = backup_metadata_in_dir("notes", "/b", "t1");
    assert_eq!(other.path, "/b/notes.t1.xmind");
    assert_eq!(
        BackupError::Io("disk full".to_owned()).message(),
        "backup could not be created: disk full"
    );
}

#[test]
fn download_tries_fileproviderctl_then_brctl_on_the_workbook() {
    let resolver = CloudFileResolver::default();
    let plan = resolver.download_plan("/cloud/roadmap.xmind");
    assert_eq!(plan.len(), 2);
    assert_eq!((plan[0].tool.as_str(), plan[0].subcommand.as_str()), ("fileproviderctl", "materialize"));
    assert_eq!((plan[1].tool.as_str(), plan[1].subcommand.as_str()), ("brctl", "download"));
    assert_eq!(plan[0].path, "/cloud/roadmap.xmind");
    assert_eq!(plan[1].path, "/cloud/roadmap.xmind");
    let failed = plan[0].attempt(Some(1), "no provider".to_owned(), None);
    assert_eq!(failed.tool, "fileproviderctl");
    assert!(!resolver.waits_after(&failed));
    let ok = plan[1].attempt(Some(0), String::new(), None);
    assert!(resolver.waits_after(&ok));
}

#[test]
fn placeholder_and_workbook_paths_round_trip() {
    for p in ["/tmp/roadmap.xmind", "docs/plan.v2.xmind", "solo.xmind"] {
        let placeholder = hidden_icloud_placeholder_path(p).expect("a placeholder");
        assert_eq!(logical_path_from_icloud_placeholder(&placeholder), Some(p.to_owned()));
    }
    let q = "/cloud/.map.xmind.icloud";
    let logical = logical_path_from_icloud_placeholder(q).expect("a workbook");
    assert_eq!(logical, "/cloud/map.xmind");
    assert_eq!(hidden_icloud_placeholder_path(&logical), Some(q.to_owned()));
}

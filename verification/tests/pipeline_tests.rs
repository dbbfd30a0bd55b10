use ycbust::download::{archive_file_name, download_file_types, local_artifact_path, server_length};
use ycbust::{
    check_status, plan_download, start_item, status_is_success, step_item, DownloadOptions,
    ItemAction, ItemEvent, ItemFailure, ItemStage, WorkItem,
};

fn item(object: &str, file_type: &str) -> WorkItem {
    WorkItem {
        object: object.to_string(),
        file_type: file_type.to_string(),
    }
}

const GOOGLE_URL: &str =
    "https://ycb-benchmarks.s3.amazonaws.com/data/google/003_cracker_box_google_16k.tgz";

#[test]
fn present_mesh_is_checked_first_and_ends_the_item() {
    let options = DownloadOptions::default();
    let work = item("003_cracker_box", "google_16k");
    let (stage, action) = start_item("/data/ycb", &work, &options);
    assert_eq!(stage, ItemStage::AwaitArtifact);
    match action {
        ItemAction::CheckArtifact { path } => {
            assert_eq!(path, "/data/ycb/003_cracker_box/google_16k/textured.obj")
        }
        other => panic!("unexpected {:?}", other),
    }
    let (stage, action) = step_item("/data/ycb", &work, &options, stage, ItemEvent::ArtifactPresent(true));
    assert_eq!(stage, ItemStage::Finished);
    assert!(matches!(action, ItemAction::Succeed));
}

#[test]
fn cached_archive_with_wrong_size_is_downloaded_again_and_extracted() {
    let options = DownloadOptions::default();
    let work = item("003_cracker_box", "google_16k");
    let (stage, _) = start_item("out", &work, &options);
    let (stage, action) = step_item("out", &work, &options, stage, ItemEvent::ArtifactPresent(false));
    assert_eq!(stage, ItemStage::AwaitArchive);
    match action {
        ItemAction::CheckArchive { path } => assert_eq!(path, "out/003_cracker_box_google_16k.tgz"),
        other => panic!("unexpected {:?}", other),
    }
    let (stage, action) = step_item("out", &work, &options, stage, ItemEvent::ArchivePresent(true));
    assert_eq!(stage, ItemStage::AwaitServerLength);
    match action {
        ItemAction::FetchServerLength { url } => assert_eq!(url, GOOGLE_URL),
        other => panic!("unexpected {:?}", other),
    }
    let (stage, action) = step_item("out", &work, &options, stage, ItemEvent::ServerLength(Some(1024)));
    assert_eq!(stage, ItemStage::AwaitArchiveSize { expected: 1024 });
    assert!(matches!(action, ItemAction::MeasureArchive { .. }));
    let (stage, action) = step_item("out", &work, &options, stage, ItemEvent::ArchiveSize(512));
    assert_eq!(stage, ItemStage::AwaitDownload);
    match action {
        ItemAction::Download { url, path, remove_stale } => {
            assert_eq!(url, GOOGLE_URL);
            assert_eq!(path, "out/003_cracker_box_google_16k.tgz");
            assert!(remove_stale);
        }
        other => panic!("unexpected {:?}", other),
    }
    let (stage, action) = step_item("out", &work, &options, stage, ItemEvent::Downloaded);
    assert_eq!(stage, ItemStage::AwaitExtract);
    match action {
        ItemAction::Extract { archive, output_dir, delete_archive } => {
            assert_eq!(archive, "out/003_cracker_box_google_16k.tgz");
            assert_eq!(output_dir, "out");
            assert!(delete_archive);
        }
        other => panic!("unexpected {:?}", other),
    }
    let (stage, action) = step_item("out", &work, &options, stage, ItemEvent::Extracted);
    assert_eq!(stage, ItemStage::Finished);
    assert!(matches!(action, ItemAction::Succeed));
}

#[test]
fn cached_archive_with_matching_size_is_reused() {
    let options = DownloadOptions::default();
    let work = item("011_banana", "google_16k");
    let (stage, action) = step_item(
        "out",
        &work,
        &options,
        ItemStage::AwaitArchiveSize { expected: 77 },
        ItemEvent::ArchiveSize(77),
    );
    assert_eq!(stage, ItemStage::Finished);
    assert!(matches!(action, ItemAction::Succeed));
}

#[test]
fn server_without_length_means_the_cache_is_trusted() {
    let options = DownloadOptions::default();
    let work = item("011_banana", "google_16k");
    let (stage, action) =
        step_item("out", &work, &options, ItemStage::AwaitServerLength, ItemEvent::ServerLength(None));
    assert_eq!(stage, ItemStage::Finished);
    assert!(matches!(action, ItemAction::Succeed));
}

#[test]
fn integrity_off_reuses_any_cached_archive() {
    let mut options = DownloadOptions::default();
    options.verify_integrity = false;
    let work = item("011_banana", "google_16k");
    let (stage, action) = step_item("out", &work, &options, ItemStage::AwaitArchive, ItemEvent::ArchivePresent(true));
    assert_eq!(stage, ItemStage::Finished);
    assert!(matches!(action, ItemAction::Succeed));
}

#[test]
fn overwrite_downloads_without_checking_the_disk() {
    let mut options = DownloadOptions::default();
    options.overwrite = true;
    let work = item("003_cracker_box", "google_16k");
    let (stage, action) = start_item("out", &work, &options);
    assert_eq!(stage, ItemStage::AwaitDownload);
    match action {
        ItemAction::Download { url, path, remove_stale } => {
            assert_eq!(url, GOOGLE_URL);
            assert_eq!(path, "out/003_cracker_box_google_16k.tgz");
            assert!(!remove_stale);
        }
        other => panic!("unexpected {:?}", other),
    }
}

#[test]
fn berkeley_archives_have_no_artifact_shortcut() {
    let options = DownloadOptions::default();
    let work = item("003_cracker_box", "berkeley_processed");
    let (stage, action) = start_item("out", &work, &options);
    assert_eq!(stage, ItemStage::AwaitArchive);
    match action {
        ItemAction::CheckArchive { path } => {
            assert_eq!(path, "out/003_cracker_box_berkeley_processed.tgz")
        }
        other => panic!("unexpected {:?}", other),
    }
    let (_, action) = step_item("out", &work, &options, stage, ItemEvent::ArchivePresent(false));
    match action {
        ItemAction::Download { url, remove_stale, .. } => {
            assert_eq!(
                url,
                "https://ycb-benchmarks.s3.amazonaws.com/data/berkeley/003_cracker_box/003_cracker_box_berkeley_meshes.tgz"
            );
            assert!(!remove_stale);
        }
        other => panic!("unexpected {:?}", other),
    }
}

#[test]
fn missing_upstream_archive_is_skipped_other_refusals_fail() {
    let options = DownloadOptions::default();
    let work = item("003_cracker_box", "google_16k");
    let (stage, action) =
        step_item("out", &work, &options, ItemStage::AwaitDownload, ItemEvent::DownloadRefused(404));
    assert_eq!(stage, ItemStage::Finished);
    assert!(matches!(action, ItemAction::Succeed));
    let (stage, action) =
        step_item("out", &work, &options, ItemStage::AwaitDownload, ItemEvent::DownloadRefused(503));
    assert_eq!(stage, ItemStage::Finished);
    match action {
        ItemAction::Fail(ItemFailure::HttpStatus { status, url }) => {
            assert_eq!(status, 503);
            assert_eq!(url, GOOGLE_URL);
        }
        other => panic!("unexpected {:?}", other),
    }
}

#[test]
fn failures_are_passed_on() {
    let options = DownloadOptions::default();
    let work = item("003_cracker_box", "google_16k");
    let (stage, action) = step_item("out", &work, &options, ItemStage::AwaitExtract, ItemEvent::Failed);
    assert_eq!(stage, ItemStage::Finished);
    assert!(matches!(action, ItemAction::Fail(ItemFailure::Propagate)));
}

#[test]
fn empty_object_list_plans_nothing() {
    assert!(plan_download(&[], &DownloadOptions::default()).is_none());
}

#[test]
fn full_download_pairs_each_object_with_both_file_types() {
    let mut options = DownloadOptions::default();
    options.full = true;
    options.concurrency = 0;
    let plan = plan_download(&["a", "b"], &options).unwrap();
    let pairs: Vec<(String, String)> = plan
        .items
        .iter()
        .map(|w| (w.object.clone(), w.file_type.clone()))
        .collect();
    assert_eq!(
        pairs,
        vec![
            ("a".to_string(), "berkeley_processed".to_string()),
            ("a".to_string(), "google_16k".to_string()),
            ("b".to_string(), "berkeley_processed".to_string()),
            ("b".to_string(), "google_16k".to_string()),
        ]
    );
    assert_eq!(plan.concurrency, 1);
    assert!(!plan.multi_progress);
}

#[test]
fn concurrent_download_with_progress_uses_a_multi_bar() {
    let mut options = DownloadOptions::default();
    options.concurrency = 4;
    let plan = plan_download(&["a"], &options).unwrap();
    assert_eq!(plan.items.len(), 1);
    assert_eq!(plan.items[0].file_type, "google_16k");
    assert_eq!(plan.concurrency, 4);
    assert!(plan.multi_progress);
}

#[test]
fn file_types_and_names() {
    assert_eq!(download_file_types(false), vec!["google_16k"]);
    assert_eq!(download_file_types(true), vec!["berkeley_processed", "google_16k"]);
    assert_eq!(archive_file_name("011_banana", "google_16k"), "011_banana_google_16k.tgz");
    assert_eq!(
        local_artifact_path("d", "011_banana", "google_16k"),
        Some("d/011_banana/google_16k/textured.obj".to_string())
    );
    assert_eq!(local_artifact_path("d", "011_banana", "berkeley_processed"), None);
}

#[test]
fn http_status_decisions() {
    assert!(status_is_success(200));
    assert!(status_is_success(299));
    assert!(!status_is_success(199));
    assert!(!status_is_success(300));
    assert!(check_status(204, "u").is_ok());
    let err = check_status(404, "https://x/objects.json").unwrap_err();
    assert_eq!(err.status, 404);
    assert_eq!(err.url, "https://x/objects.json");
    assert_eq!(server_length(200, Some(5)), Some(5));
    assert_eq!(server_length(403, Some(5)), None);
}

use ycbust::s3::{
    record_archive, ArchiveNotice, ArchiveOutcome,
    error_reports_missing, mask_access_key, plan_s3_entry, summarize_credentials,
    upload_after_check, CredentialProblem, EntryPlan, ExistenceAnswer, S3Destination,
    S3UploadStats, S3UrlError,
};
use ycbust::text::trim_text;

#[test]
fn surrounding_whitespace_is_ignored() {
    assert_eq!(trim_text("  \t s3://b/p \n"), "s3://b/p");
    let dest = S3Destination::from_url("  s3://bucket/data  ").unwrap();
    assert_eq!(dest.bucket, "bucket");
    assert_eq!(dest.prefix, "data/");
    assert_eq!(dest.region, "us-east-1");
}

#[test]
fn url_refusals_name_their_reason() {
    match S3Destination::from_url(" http://example.com ") {
        Err(S3UrlError::MissingScheme { url }) => assert_eq!(url, "http://example.com"),
        other => panic!("unexpected {:?}", other),
    }
    assert!(matches!(S3Destination::from_url("s3://"), Err(S3UrlError::MissingBucket)));
    assert!(matches!(S3Destination::from_url("s3:///prefix"), Err(S3UrlError::MissingBucket)));
    assert_eq!(
        S3UrlError::MissingBucket.message(),
        "S3 URL must include a bucket name"
    );
    assert_eq!(
        S3UrlError::MissingScheme { url: "x".to_string() }.message(),
        "S3 URL must start with 's3://', got: x"
    );
}

#[test]
fn region_and_paths() {
    let dest = S3Destination::from_url("s3://b").unwrap().with_region("eu-west-1".to_string());
    assert_eq!(dest.region, "eu-west-1");
    assert_eq!(dest.to_url(), "s3://b/");
    assert_eq!(dest.full_path("k"), "k");
}

#[test]
fn entries_are_planned() {
    assert!(matches!(plan_s3_entry(true, "dir/", "p/", false), EntryPlan::SkipDirectory));
    assert!(matches!(plan_s3_entry(false, "../x", "p/", false), EntryPlan::SkipUnsafe));
    match plan_s3_entry(false, "obj/google_16k/textured.obj", "ycb/", false) {
        EntryPlan::Upload { key, content_type, check_existing } => {
            assert_eq!(key, "ycb/obj/google_16k/textured.obj");
            assert_eq!(content_type, "model/obj");
            assert!(check_existing);
        }
        other => panic!("unexpected {:?}", other),
    }
    match plan_s3_entry(false, "a\\b.jpeg", "", true) {
        EntryPlan::Upload { key, content_type, check_existing } => {
            assert_eq!(key, "a/b.jpeg");
            assert_eq!(content_type, "image/jpeg");
            assert!(!check_existing);
        }
        other => panic!("unexpected {:?}", other),
    }
}

#[test]
fn tallies_add_up() {
    let mut stats = S3UploadStats::default();
    assert!(!upload_after_check(&mut stats, ExistenceAnswer::Present));
    assert!(upload_after_check(&mut stats, ExistenceAnswer::Absent));
    assert!(upload_after_check(&mut stats, ExistenceAnswer::Unknown));
    stats.count_upload(100);
    stats.count_upload(20);
    assert_eq!(stats.files_skipped, 1);
    assert_eq!(stats.files_uploaded, 2);
    assert_eq!(stats.bytes_uploaded, 120);
    let mut total = S3UploadStats::default();
    total.absorb(&stats);
    total.absorb(&stats);
    assert_eq!(total.files_uploaded, 4);
    assert_eq!(total.files_skipped, 2);
    assert_eq!(total.bytes_uploaded, 240);
}

#[test]
fn credentials_are_summarized_with_a_masked_key() {
    assert_eq!(mask_access_key("AKIAABCDEFGH1234"), "AKIA...1234");
    assert_eq!(mask_access_key("SHORTKEY"), "****");
    assert_eq!(
        summarize_credentials(Some("AKIAABCDEFGH1234"), Some("secret")).unwrap(),
        "AWS credentials loaded (access key: AKIA...1234)"
    );
    assert_eq!(summarize_credentials(None, Some("s")), Err(CredentialProblem::NoAccessKey));
    assert_eq!(summarize_credentials(Some("k"), None), Err(CredentialProblem::NoSecretKey));
    assert_eq!(summarize_credentials(Some(""), Some("s")), Err(CredentialProblem::EmptyAccessKey));
    assert_eq!(summarize_credentials(Some("k"), Some("")), Err(CredentialProblem::EmptySecretKey));
    assert_eq!(CredentialProblem::EmptySecretKey.message(), "AWS secret key is empty");
    // A key that could not be masked is fine while the secret is missing or empty.
    assert_eq!(summarize_credentials(Some("€€€"), None), Err(CredentialProblem::NoSecretKey));
    assert_eq!(summarize_credentials(Some("€€€"), Some("")), Err(CredentialProblem::EmptySecretKey));
}

#[test]
fn missing_object_errors_are_recognised() {
    assert!(error_reports_missing("HTTP 404"));
    assert!(error_reports_missing("Not Found"));
    assert!(error_reports_missing("NoSuchKey: the key"));
    assert!(!error_reports_missing("403 Forbidden"));
}

#[test]
fn archive_outcomes_are_recorded() {
    let mut stats = S3UploadStats::default();
    let mut tally = S3UploadStats::default();
    tally.count_upload(10);
    assert_eq!(record_archive(&mut stats, ArchiveOutcome::Streamed(tally), true), ArchiveNotice::Silent);
    assert_eq!(record_archive(&mut stats, ArchiveOutcome::SourceMissing, true), ArchiveNotice::SkippedMissing);
    assert_eq!(record_archive(&mut stats, ArchiveOutcome::SourceMissing, false), ArchiveNotice::Silent);
    assert_eq!(record_archive(&mut stats, ArchiveOutcome::Failed, false), ArchiveNotice::ReportFailure);
    assert_eq!(stats.files_uploaded, 1);
    assert_eq!(stats.bytes_uploaded, 10);
    assert_eq!(stats.files_skipped, 0);
}

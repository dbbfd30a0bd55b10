use ycbust::s3::{guess_content_type, sanitize_tar_path, S3Destination};

#[test]
fn test_s3_destination_from_url_basic() {
    let dest = S3Destination::from_url("s3://my-bucket/prefix/path/").unwrap();
    assert_eq!(dest.bucket, "my-bucket");
    assert_eq!(dest.prefix, "prefix/path/");
}

#[test]
fn test_s3_destination_from_url_no_trailing_slash() {
    let dest = S3Destination::from_url("s3://my-bucket/prefix/path").unwrap();
    assert_eq!(dest.bucket, "my-bucket");
    assert_eq!(dest.prefix, "prefix/path/");
}

#[test]
fn test_s3_destination_from_url_bucket_only() {
    let dest = S3Destination::from_url("s3://my-bucket").unwrap();
    assert_eq!(dest.bucket, "my-bucket");
    assert_eq!(dest.prefix, "");
}

#[test]
fn test_s3_destination_from_url_bucket_with_slash() {
    let dest = S3Destination::from_url("s3://my-bucket/").unwrap();
    assert_eq!(dest.bucket, "my-bucket");
    assert_eq!(dest.prefix, "");
}

#[test]
fn test_s3_destination_from_url_invalid() {
    assert!(S3Destination::from_url("http://example.com").is_err());
    assert!(S3Destination::from_url("s3://").is_err());
    assert!(S3Destination::from_url("/local/path").is_err());
}

#[test]
fn test_s3_destination_full_path() {
    let dest = S3Destination::from_url("s3://my-bucket/ycb/").unwrap();
    assert_eq!(
        dest.full_path("003_cracker_box/google_16k/textured.obj"),
        "ycb/003_cracker_box/google_16k/textured.obj"
    );
}

#[test]
fn test_s3_destination_to_url() {
    let dest = S3Destination::from_url("s3://my-bucket/prefix/").unwrap();
    assert_eq!(dest.to_url(), "s3://my-bucket/prefix/");
}

#[test]
fn test_guess_content_type() {
    assert_eq!(guess_content_type("model.obj"), "model/obj");
    assert_eq!(guess_content_type("texture.png"), "image/png");
    assert_eq!(guess_content_type("data.json"), "application/json");
    assert_eq!(
        guess_content_type("unknown.xyz"),
        "application/octet-stream"
    );
}

#[test]
fn test_sanitize_tar_path_valid() {
    assert_eq!(
        sanitize_tar_path("foo/bar/file.txt"),
        Some("foo/bar/file.txt".to_string())
    );
    assert_eq!(
        sanitize_tar_path("file.obj"),
        Some("file.obj".to_string())
    );
}

#[test]
fn test_sanitize_tar_path_traversal() {
    // Parent directory traversal should be rejected
    assert_eq!(sanitize_tar_path("../etc/passwd"), None);
    assert_eq!(sanitize_tar_path("foo/../bar"), None);
    assert_eq!(sanitize_tar_path("foo/bar/../../baz"), None);
    // Backslash-separated traversal is rejected too, once normalized
    assert_eq!(sanitize_tar_path("foo\\..\\bar"), None);
    assert_eq!(sanitize_tar_path("..\\etc"), None);
}

#[test]
fn test_sanitize_tar_path_absolute() {
    // Absolute paths should be rejected
    assert_eq!(sanitize_tar_path("/etc/passwd"), None);
}

#[test]
fn test_sanitize_tar_path_empty() {
    assert_eq!(sanitize_tar_path(""), None);
}

#[test]
fn test_sanitize_tar_path_windows_separators() {
    // Windows-style separators are normalized to forward slashes
    let result = sanitize_tar_path("foo\\bar\\file.txt");
    assert_eq!(result, Some("foo/bar/file.txt".to_string()));
}

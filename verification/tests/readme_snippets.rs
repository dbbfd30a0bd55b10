//! Compile-check for the README's library snippets.

use ycbust::DownloadOptions;

// --- README §Library Usage: parallel + no-integrity snippet
fn readme_parallel_noverify_snippet() -> DownloadOptions {
    let mut options = DownloadOptions::default();
    options.concurrency = 4;
    options.verify_integrity = false;
    options
}

#[test]
fn readme_snippets_compile() {
    let options = readme_parallel_noverify_snippet();
    assert_eq!(options.concurrency, 4);
    assert!(!options.verify_integrity);
}

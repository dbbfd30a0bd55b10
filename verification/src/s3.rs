//! S3 destinations: parsing `s3://` URLs, naming uploaded objects, screening
//! archive entries before upload and tallying what was uploaded.
//!
//! The transfers themselves (HTTP download, gzip/tar streaming and S3 calls)
//! are performed by the caller, which asks this module what to do with each
//! archive entry and records the outcome here.

use vstd::prelude::*;
use vstd::string::*;
use vstd::utf8::*;
use crate::paths::{has_parent_dir, has_parent_segment};
use crate::text::{
    backslashes_to_slashes, contains_text, ends_with, find_char, index_of, is_suffix,
    is_white_space, lemma_index_of, lemma_index_of_skip, occurs_in, replace_char, trim,
    starts_with, trim_end, trim_start, trim_text,
};

verus! {

/// Represents an S3 destination for uploading YCB objects.
#[derive(Clone, Debug)]
pub struct S3Destination {
    /// The S3 bucket name
    pub bucket: String,
    /// The prefix (path) within the bucket
    pub prefix: String,
    /// AWS region (defaults to us-east-1)
    pub region: String,
}

/// Why an S3 URL was refused.
#[derive(Clone, Debug)]
pub enum S3UrlError {
    /// The (trimmed) URL does not start with `s3://`.
    MissingScheme { url: String },
    /// The URL names no bucket.
    MissingBucket,
}

impl S3UrlError {
    /// The message describing the refusal.
    pub fn message(&self) -> (r: String)
        ensures
            r@ == match self {
                S3UrlError::MissingScheme { url } => "S3 URL must start with 's3://', got: "@ + url@,
                S3UrlError::MissingBucket => "S3 URL must include a bucket name"@,
            },
    {
        match self {
            S3UrlError::MissingScheme { url } => {
                let mut m = String::from_str("S3 URL must start with 's3://', got: ");
                m.append(url.as_str());
                m
            },
            S3UrlError::MissingBucket => String::from_str("S3 URL must include a bucket name"),
        }
    }
}

/// The part of a trimmed `s3://` URL after the scheme.
pub open spec fn url_body(url: Seq<char>) -> Seq<char> {
    trim(url).skip("s3://"@.len() as int)
}

/// The bucket named by a URL body: everything before the first `/`.
pub open spec fn body_bucket(body: Seq<char>) -> Seq<char> {
    body.take(index_of(body, '/') as int)
}

/// The prefix named by a URL body: everything after the first `/`, ending in
/// `/` unless empty.
pub open spec fn body_prefix(body: Seq<char>) -> Seq<char> {
    let k = index_of(body, '/') as int;
    if k == body.len() {
        seq![]
    } else {
        let rest = body.skip(k + 1);
        if rest.len() > 0 && rest.last() != '/' {
            rest.push('/')
        } else {
            rest
        }
    }
}

/// Whether `url` is accepted as an S3 destination.
pub open spec fn s3_url_accepted(url: Seq<char>) -> bool {
    is_prefix_of_trimmed(url) && url_body(url).len() > 0 && body_bucket(url_body(url)).len() > 0
}

/// Whether the trimmed `url` starts with `s3://`.
pub open spec fn is_prefix_of_trimmed(url: Seq<char>) -> bool {
    crate::text::is_prefix("s3://"@, trim(url))
}

/// The region used when none is chosen.
pub open spec fn default_region() -> Seq<char> {
    "us-east-1"@
}

impl S3Destination {
    /// Parse an S3 URL into bucket and prefix components.
    ///
    /// Surrounding whitespace is ignored. Supported formats:
    /// `s3://bucket-name/prefix/path/`, `s3://bucket-name/prefix/path`
    /// (a trailing slash is added), `s3://bucket-name/` and `s3://bucket-name`
    /// (root of bucket). The region defaults to `us-east-1`.
    pub fn from_url(url: &str) -> (r: Result<Self, S3UrlError>)
        ensures
            r is Ok <==> s3_url_accepted(url@),
            !is_prefix_of_trimmed(url@) ==> (r matches Err(S3UrlError::MissingScheme { url: u }) && u@ == trim(url@)),
            is_prefix_of_trimmed(url@) && !s3_url_accepted(url@) ==> r matches Err(S3UrlError::MissingBucket),
            r matches Ok(d) ==> {
                &&& d.bucket@ == body_bucket(url_body(url@))
                &&& d.prefix@ == body_prefix(url_body(url@))
                &&& d.region@ == default_region()
            },
    {
        let trimmed = trim_text(url);
        let t = trimmed.as_str();
        proof {
            reveal_strlit("s3://");
        }
        if !starts_with(t, "s3://") {
            return Err(S3UrlError::MissingScheme { url: trimmed });
        }
        let n = t.unicode_len();
        let body = t.substring_char(5, n);
        assert(body@ == url_body(url@));
        if body.unicode_len() == 0 {
            return Err(S3UrlError::MissingBucket);
        }
        let m = body.unicode_len();
        let (bucket, prefix) = match find_char(body, '/') {
            Some(idx) => {
                let bucket = String::from_str(body.substring_char(0, idx));
                let mut prefix = String::from_str(body.substring_char(idx + 1, m));
                proof {
                    reveal_strlit("/");
                }
                let plen = prefix.as_str().unicode_len();
                if plen > 0 && prefix.as_str().get_char(plen - 1) != '/' {
                    prefix.append("/");
                }
                (bucket, prefix)
            },
            None => {
                assert(body@.take(m as int) =~= body@);
                (String::from_str(body), String::new())
            },
        };
        if bucket.as_str().unicode_len() == 0 {
            return Err(S3UrlError::MissingBucket);
        }
        Ok(S3Destination { bucket, prefix, region: String::from_str("us-east-1") })
    }

    /// Set the AWS region for this destination.
    pub fn with_region(self, region: String) -> (r: Self)
        ensures
            r.bucket == self.bucket,
            r.prefix == self.prefix,
            r.region == region,
    {
        S3Destination { region, ..self }
    }

    /// Get the full S3 path for a given object path: the prefix followed by `path`.
    pub fn full_path(&self, path: &str) -> (r: String)
        ensures
            r@ == self.prefix@ + path@,
    {
        let mut p = self.prefix.clone();
        p.append(path);
        p
    }

    /// Get the S3 URL representation of this destination: `s3://<bucket>/<prefix>`.
    pub fn to_url(&self) -> (r: String)
        ensures
            r@ == "s3://"@ + self.bucket@ + "/"@ + self.prefix@,
    {
        let mut u = String::from_str("s3://");
        u.append(self.bucket.as_str());
        u.append("/");
        u.append(self.prefix.as_str());
        u
    }
}

/// Statistics from an S3 upload operation.
#[derive(Clone, Debug)]
pub struct S3UploadStats {
    /// Number of files uploaded
    pub files_uploaded: usize,
    /// Number of files skipped (already exist)
    pub files_skipped: usize,
    /// Total bytes uploaded
    pub bytes_uploaded: u64,
}

impl Default for S3UploadStats {
    fn default() -> (r: Self)
        ensures
            r.files_uploaded == 0,
            r.files_skipped == 0,
            r.bytes_uploaded == 0,
    {
        S3UploadStats { files_uploaded: 0, files_skipped: 0, bytes_uploaded: 0 }
    }
}

impl S3UploadStats {
    /// Counts one uploaded file of `bytes` bytes.
    pub fn count_upload(&mut self, bytes: u64)
        requires
            old(self).files_uploaded < usize::MAX,
            old(self).bytes_uploaded + bytes <= u64::MAX,
        ensures
            final(self).files_uploaded == old(self).files_uploaded + 1,
            final(self).files_skipped == old(self).files_skipped,
            final(self).bytes_uploaded == old(self).bytes_uploaded + bytes,
    {
        self.files_uploaded = self.files_uploaded + 1;
        self.bytes_uploaded = self.bytes_uploaded + bytes;
    }

    /// Counts one file skipped because it already exists.
    pub fn count_skip(&mut self)
        requires
            old(self).files_skipped < usize::MAX,
        ensures
            final(self).files_uploaded == old(self).files_uploaded,
            final(self).files_skipped == old(self).files_skipped + 1,
            final(self).bytes_uploaded == old(self).bytes_uploaded,
    {
        self.files_skipped = self.files_skipped + 1;
    }

    /// Adds the counts of one streamed archive to the totals.
    pub fn absorb(&mut self, other: &S3UploadStats)
        requires
            old(self).files_uploaded + other.files_uploaded <= usize::MAX,
            old(self).files_skipped + other.files_skipped <= usize::MAX,
            old(self).bytes_uploaded + other.bytes_uploaded <= u64::MAX,
        ensures
            final(self).files_uploaded == old(self).files_uploaded + other.files_uploaded,
            final(self).files_skipped == old(self).files_skipped + other.files_skipped,
            final(self).bytes_uploaded == old(self).bytes_uploaded + other.bytes_uploaded,
    {
        self.files_uploaded = self.files_uploaded + other.files_uploaded;
        self.files_skipped = self.files_skipped + other.files_skipped;
        self.bytes_uploaded = self.bytes_uploaded + other.bytes_uploaded;
    }
}

/// The object key for an archive entry path, or `None` when the entry is
/// refused. Backslashes are first turned into slashes; the result is refused
/// when it has a `..` component, is empty or starts with `/` (which also
/// refuses an absolute entry path).
pub open spec fn sanitized_entry(path: Seq<char>) -> Option<Seq<char>> {
    let normalized = replace_char(path, '\\', '/');
    if has_parent_segment(normalized) {
        None
    } else if normalized.len() == 0 || normalized[0] == '/' {
        None
    } else {
        Some(normalized)
    }
}

/// Validate and sanitize a path from a tar archive entry.
/// Returns `None` if the path is invalid or attempts path traversal.
pub fn sanitize_tar_path(path: &str) -> (r: Option<String>)
    ensures
        r is None <==> sanitized_entry(path@) is None,
        r matches Some(p) ==> sanitized_entry(path@) == Some(p@),
{
    let normalized = backslashes_to_slashes(path);
    if has_parent_dir(normalized.as_str()) {
        return None;
    }
    let n = normalized.as_str().unicode_len();
    if n == 0 || normalized.as_str().get_char(0) == '/' {
        return None;
    }
    Some(normalized)
}

/// The MIME content type guessed from a file name's extension.
pub open spec fn content_type_for(path: Seq<char>) -> Seq<char> {
    if is_suffix(".obj"@, path) {
        "model/obj"@
    } else if is_suffix(".mtl"@, path) {
        "model/mtl"@
    } else if is_suffix(".png"@, path) {
        "image/png"@
    } else if is_suffix(".jpg"@, path) || is_suffix(".jpeg"@, path) {
        "image/jpeg"@
    } else if is_suffix(".ply"@, path) {
        "application/ply"@
    } else if is_suffix(".json"@, path) {
        "application/json"@
    } else if is_suffix(".txt"@, path) {
        "text/plain"@
    } else {
        "application/octet-stream"@
    }
}

/// Guess MIME content type from file extension.
pub fn guess_content_type(path: &str) -> (r: &'static str)
    ensures
        r@ == content_type_for(path@),
{
    if ends_with(path, ".obj") {
        "model/obj"
    } else if ends_with(path, ".mtl") {
        "model/mtl"
    } else if ends_with(path, ".png") {
        "image/png"
    } else if ends_with(path, ".jpg") || ends_with(path, ".jpeg") {
        "image/jpeg"
    } else if ends_with(path, ".ply") {
        "application/ply"
    } else if ends_with(path, ".json") {
        "application/json"
    } else if ends_with(path, ".txt") {
        "text/plain"
    } else {
        "application/octet-stream"
    }
}

/// What to do with one entry of a streamed archive.
#[derive(Clone, Debug)]
pub enum EntryPlan {
    /// A directory: nothing to upload.
    SkipDirectory,
    /// An invalid or unsafe path: skipped with a warning.
    SkipUnsafe,
    /// Upload the entry under `key` with `content_type`; when `check_existing`,
    /// first ask whether `key` already exists and skip it if it does.
    Upload { key: String, content_type: &'static str, check_existing: bool },
}

/// Plans the upload of one archive entry to the destination `prefix`.
pub fn plan_s3_entry(is_dir: bool, entry_path: &str, prefix: &str, overwrite: bool) -> (r: EntryPlan)
    ensures
        is_dir ==> r is SkipDirectory,
        !is_dir && sanitized_entry(entry_path@) is None ==> r is SkipUnsafe,
        !is_dir ==> (sanitized_entry(entry_path@) matches Some(p) ==> r matches EntryPlan::Upload { key, content_type, check_existing } && {
            &&& key@ == prefix@ + p
            &&& content_type@ == content_type_for(p)
            &&& check_existing == !overwrite
        }),
{
    if is_dir {
        return EntryPlan::SkipDirectory;
    }
    match sanitize_tar_path(entry_path) {
        None => EntryPlan::SkipUnsafe,
        Some(p) => {
            let mut key = String::from_str(prefix);
            key.append(p.as_str());
            let content_type = guess_content_type(p.as_str());
            EntryPlan::Upload { key, content_type, check_existing: !overwrite }
        },
    }
}

/// What an existence check on an S3 object answered.
#[derive(Clone, Copy, Debug, PartialEq, Eq, Structural)]
pub enum ExistenceAnswer {
    /// The object exists.
    Present,
    /// The object does not exist.
    Absent,
    /// The check failed; the upload goes ahead after a warning.
    Unknown,
}

/// After an existence check: whether to upload. An existing object is counted
/// as skipped instead.
pub fn upload_after_check(stats: &mut S3UploadStats, answer: ExistenceAnswer) -> (r: bool)
    requires
        answer is Present ==> old(stats).files_skipped < usize::MAX,
    ensures
        r == !(answer is Present),
        final(stats).files_uploaded == old(stats).files_uploaded,
        final(stats).bytes_uploaded == old(stats).bytes_uploaded,
        final(stats).files_skipped == old(stats).files_skipped + if answer is Present { 1int } else { 0int },
{
    match answer {
        ExistenceAnswer::Present => {
            stats.count_skip();
            false
        },
        _ => true,
    }
}

/// Why AWS credentials were found unusable.
#[derive(Clone, Copy, Debug, PartialEq, Eq, Structural)]
pub enum CredentialProblem {
    NoAccessKey,
    NoSecretKey,
    EmptyAccessKey,
    EmptySecretKey,
}

impl CredentialProblem {
    /// The message describing the problem.
    pub fn message(&self) -> (r: &'static str)
        ensures
            r@ == match self {
                CredentialProblem::NoAccessKey => "No AWS access key found"@,
                CredentialProblem::NoSecretKey => "No AWS secret key found"@,
                CredentialProblem::EmptyAccessKey => "AWS access key is empty"@,
                CredentialProblem::EmptySecretKey => "AWS secret key is empty"@,
            },
    {
        match self {
            CredentialProblem::NoAccessKey => "No AWS access key found",
            CredentialProblem::NoSecretKey => "No AWS secret key found",
            CredentialProblem::EmptyAccessKey => "AWS access key is empty",
            CredentialProblem::EmptySecretKey => "AWS secret key is empty",
        }
    }
}

/// Whether the key can be masked: a key of more than 8 bytes is cut after its
/// 4th byte and before its 4 last bytes, which must fall between characters
/// (and, as for any string in memory, its length fits in `usize`).
pub open spec fn maskable(key: &str) -> bool {
    let b = key.spec_bytes();
    &&& b.len() <= usize::MAX
    &&& b.len() > 8 ==> is_char_boundary(b, 4) && is_char_boundary(b, b.len() - 4)
}

/// The access key as shown to the user: its first and last 4 bytes around
/// `...` when it is longer than 8 bytes, `****` otherwise.
pub open spec fn masked_key(bytes: Seq<u8>) -> Seq<char> {
    if bytes.len() > 8 {
        decode_utf8(bytes.subrange(0, 4)) + "..."@ + decode_utf8(bytes.subrange(bytes.len() - 4, bytes.len() as int))
    } else {
        "****"@
    }
}

/// Masks an access key for display.
pub fn mask_access_key(key: &str) -> (r: String)
    requires
        maskable(key),
    ensures
        r@ == masked_key(key.spec_bytes()),
{
    broadcast use group_utf8_lib;
    let n = key.len();
    if n > 8 {
        let (head, _) = key.split_at(4);
        let (_, tail) = key.split_at(n - 4);
        proof {
            assert(decode_utf8(encode_utf8(head@)) == head@);
            assert(decode_utf8(encode_utf8(tail@)) == tail@);
        }
        let mut m = String::from_str(head);
        m.append("...");
        m.append(tail);
        m
    } else {
        String::from_str("****")
    }
}

/// The characters of an optional string.
pub open spec fn text_of(s: Option<&str>) -> Option<Seq<char>> {
    match s {
        Some(t) => Some(t@),
        None => None,
    }
}

/// The report of usable credentials, or the problem found with them.
pub open spec fn credential_report(access: Option<Seq<char>>, secret: Option<Seq<char>>, masked: Seq<char>) -> Result<Seq<char>, CredentialProblem> {
    if access is None {
        Err(CredentialProblem::NoAccessKey)
    } else if secret is None {
        Err(CredentialProblem::NoSecretKey)
    } else if access->0.len() == 0 {
        Err(CredentialProblem::EmptyAccessKey)
    } else if secret->0.len() == 0 {
        Err(CredentialProblem::EmptySecretKey)
    } else {
        Ok("AWS credentials loaded (access key: "@ + masked + ")"@)
    }
}

/// Checks that both keys are present and non-empty, and reports the masked access key.
pub fn summarize_credentials(access_key: Option<&str>, secret_key: Option<&str>) -> (r: Result<String, CredentialProblem>)
    requires
        access_key matches Some(k) ==> (secret_key matches Some(t) && t@.len() > 0 ==> maskable(k)),
    ensures
        ({
            let masked = match access_key { Some(k) => masked_key(k.spec_bytes()), None => seq![] };
            let expected = credential_report(text_of(access_key), text_of(secret_key), masked);
            &&& (r is Ok <==> expected is Ok)
            &&& (r matches Ok(s) ==> expected == Ok::<Seq<char>, CredentialProblem>(s@))
            &&& (r matches Err(p) ==> expected == Err::<Seq<char>, CredentialProblem>(p))
        }),
{
    let access = match access_key {
        Some(k) => k,
        None => return Err(CredentialProblem::NoAccessKey),
    };
    let secret = match secret_key {
        Some(k) => k,
        None => return Err(CredentialProblem::NoSecretKey),
    };
    if access.is_empty() {
        return Err(CredentialProblem::EmptyAccessKey);
    }
    if secret.is_empty() {
        return Err(CredentialProblem::EmptySecretKey);
    }
    let masked = mask_access_key(access);
    let mut report = String::from_str("AWS credentials loaded (access key: ");
    report.append(masked.as_str());
    report.append(")");
    Ok(report)
}

/// What became of one archive during an upload run.
#[derive(Clone, Debug)]
pub enum ArchiveOutcome {
    /// The archive does not exist at the source (its HEAD request failed).
    SourceMissing,
    /// The archive was streamed; these are its counts.
    Streamed(S3UploadStats),
    /// Streaming the archive failed.
    Failed,
}

/// What the caller tells the user about one archive.
#[derive(Clone, Copy, Debug, PartialEq, Eq, Structural)]
pub enum ArchiveNotice {
    /// Nothing to say.
    Silent,
    /// Say that the archive was skipped because the source lacks it.
    SkippedMissing,
    /// Report the streaming error and go on with the next archive.
    ReportFailure,
}

/// Whether the totals can take in an outcome without overflow.
pub open spec fn outcome_fits(stats: S3UploadStats, outcome: ArchiveOutcome) -> bool {
    match outcome {
        ArchiveOutcome::Streamed(t) => {
            &&& stats.files_uploaded + t.files_uploaded <= usize::MAX
            &&& stats.files_skipped + t.files_skipped <= usize::MAX
            &&& stats.bytes_uploaded + t.bytes_uploaded <= u64::MAX
        },
        _ => true,
    }
}

/// Records the outcome of one archive in the run's totals: a streamed
/// archive adds its counts; a missing or failed one changes nothing and the
/// run goes on, with a notice (a missing archive is announced only when
/// progress is shown).
pub fn record_archive(stats: &mut S3UploadStats, outcome: ArchiveOutcome, show_progress: bool) -> (r: ArchiveNotice)
    requires
        outcome_fits(*old(stats), outcome),
    ensures
        match outcome {
            ArchiveOutcome::Streamed(t) => {
                &&& r == ArchiveNotice::Silent
                &&& final(stats).files_uploaded == old(stats).files_uploaded + t.files_uploaded
                &&& final(stats).files_skipped == old(stats).files_skipped + t.files_skipped
                &&& final(stats).bytes_uploaded == old(stats).bytes_uploaded + t.bytes_uploaded
            },
            ArchiveOutcome::SourceMissing => {
                &&& r == if show_progress { ArchiveNotice::SkippedMissing } else { ArchiveNotice::Silent }
                &&& *final(stats) == *old(stats)
            },
            ArchiveOutcome::Failed => {
                &&& r == ArchiveNotice::ReportFailure
                &&& *final(stats) == *old(stats)
            },
        },
{
    match outcome {
        ArchiveOutcome::Streamed(t) => {
            stats.absorb(&t);
            ArchiveNotice::Silent
        },
        ArchiveOutcome::SourceMissing => if show_progress {
            ArchiveNotice::SkippedMissing
        } else {
            ArchiveNotice::Silent
        },
        ArchiveOutcome::Failed => ArchiveNotice::ReportFailure,
    }
}

/// Whether an S3 error message says that the object does not exist.
pub open spec fn reports_missing(message: Seq<char>) -> bool {
    occurs_in("404"@, message) || occurs_in("Not Found"@, message) || occurs_in("NoSuchKey"@, message)
}

/// Whether an S3 error message says that the object does not exist: it
/// mentions `404`, `Not Found` or `NoSuchKey`.
pub fn error_reports_missing(message: &str) -> (r: bool)
    ensures
        r == reports_missing(message@),
{
    contains_text(message, "404") || contains_text(message, "Not Found") || contains_text(message, "NoSuchKey")
}

proof fn lemma_trim_unchanged(u: Seq<char>)
    requires
        u.len() > 0,
        !is_white_space(u[0]),
        !is_white_space(u.last()),
    ensures
        trim(u) == u,
{
    assert(trim_start(u) == u);
    assert(trim_end(u) == u);
}

proof fn lemma_prefix_ends_with_slash(body: Seq<char>)
    ensures
        body_prefix(body).len() > 0 ==> body_prefix(body).last() == '/',
{
}

/// Printing a parsed destination with `to_url` and parsing it again gives
/// back the same bucket and prefix.
pub proof fn lemma_s3_url_round_trip(url: Seq<char>)
    requires
        s3_url_accepted(url),
    ensures
        ({
            let bucket = body_bucket(url_body(url));
            let prefix = body_prefix(url_body(url));
            let again = "s3://"@ + bucket + "/"@ + prefix;
            &&& s3_url_accepted(again)
            &&& body_bucket(url_body(again)) == bucket
            &&& body_prefix(url_body(again)) == prefix
        }),
{
    reveal_strlit("s3://");
    reveal_strlit("/");
    let body = url_body(url);
    lemma_index_of(body, '/');
    let bucket = body_bucket(body);
    let prefix = body_prefix(body);
    lemma_prefix_ends_with_slash(body);
    let again = "s3://"@ + bucket + "/"@ + prefix;
    assert(again[0] == 's');
    if prefix.len() > 0 {
        assert(again.last() == prefix.last());
    } else {
        assert(again.last() == '/');
    }
    lemma_trim_unchanged(again);
    let body2 = url_body(again);
    assert(body2 =~= bucket + seq!['/'] + prefix);
    assert forall|j: int| 0 <= j < bucket.len() implies body2[j] != '/' by {
        assert(body2[j] == bucket[j]);
        assert(bucket[j] == body[j]);
    }
    lemma_index_of_skip(body2, '/', bucket.len() as int);
    assert(body2.skip(bucket.len() as int)[0] == '/');
    assert(index_of(body2.skip(bucket.len() as int), '/') == 0);
    assert(body_bucket(body2) =~= bucket);
    assert(body2.skip(bucket.len() as int + 1) =~= prefix);
    assert(again.subrange(0, "s3://"@.len() as int) =~= "s3://"@);
}

/// A key made from an archive entry is never empty, never starts with `/`,
/// holds no backslash and has no `..` component, whatever separators the
/// entry path used.
pub proof fn lemma_sanitized_entry_is_relative(path: Seq<char>)
    requires
        sanitized_entry(path) is Some,
    ensures
        ({
            let key = sanitized_entry(path)->0;
            &&& key.len() > 0
            &&& key[0] != '/'
            &&& forall|i: int| 0 <= i < key.len() ==> key[i] != '\\'
            &&& !has_parent_segment(key)
        }),
{
}


proof fn lemma_suffixes_agree(s: Seq<char>, a: Seq<char>, b: Seq<char>)
    requires
        is_suffix(a, s),
        is_suffix(b, s),
        a.len() <= b.len(),
    ensures
        b.subrange(b.len() - a.len(), b.len() as int) == a,
{
    assert(b.subrange(b.len() - a.len(), b.len() as int) =~= a) by {
        assert forall|i: int| 0 <= i < a.len() implies b[b.len() - a.len() + i] == a[i] by {
            assert(s[s.len() - a.len() + i] == a[i]);
            assert(s[s.len() - b.len() + (b.len() - a.len() + i)] == b[b.len() - a.len() + i]);
        }
    }
}

/// Each known extension gives its own content type, whatever the other
/// extensions are: `.obj` model/obj, `.mtl` model/mtl, `.png` image/png,
/// `.jpg` and `.jpeg` image/jpeg, `.ply` application/ply, `.json`
/// application/json, `.txt` text/plain; any other name
/// application/octet-stream.
pub proof fn lemma_content_type_by_extension(path: Seq<char>)
    ensures
        is_suffix(".obj"@, path) ==> content_type_for(path) == "model/obj"@,
        is_suffix(".mtl"@, path) ==> content_type_for(path) == "model/mtl"@,
        is_suffix(".png"@, path) ==> content_type_for(path) == "image/png"@,
        is_suffix(".jpg"@, path) ==> content_type_for(path) == "image/jpeg"@,
        is_suffix(".jpeg"@, path) ==> content_type_for(path) == "image/jpeg"@,
        is_suffix(".ply"@, path) ==> content_type_for(path) == "application/ply"@,
        is_suffix(".json"@, path) ==> content_type_for(path) == "application/json"@,
        is_suffix(".txt"@, path) ==> content_type_for(path) == "text/plain"@,
        (!is_suffix(".obj"@, path) && !is_suffix(".mtl"@, path) && !is_suffix(".png"@, path) && !is_suffix(".jpg"@, path) && !is_suffix(".jpeg"@, path) && !is_suffix(".ply"@, path) && !is_suffix(".json"@, path) && !is_suffix(".txt"@, path)) ==> content_type_for(path) == "application/octet-stream"@,
{
    reveal_strlit(".obj");
    reveal_strlit(".mtl");
    reveal_strlit(".png");
    reveal_strlit(".jpg");
    reveal_strlit(".jpeg");
    reveal_strlit(".ply");
    reveal_strlit(".json");
    reveal_strlit(".txt");
    if is_suffix(".mtl"@, path) && is_suffix(".obj"@, path) {
        lemma_suffixes_agree(path, ".mtl"@, ".obj"@);
        assert(".obj"@.subrange(0, 4)[1] == ".mtl"@[1]);
        assert(false);
    }
    if is_suffix(".png"@, path) && is_suffix(".obj"@, path) {
        lemma_suffixes_agree(path, ".png"@, ".obj"@);
        assert(".obj"@.subrange(0, 4)[1] == ".png"@[1]);
        assert(false);
    }
    if is_suffix(".png"@, path) && is_suffix(".mtl"@, path) {
        lemma_suffixes_agree(path, ".png"@, ".mtl"@);
        assert(".mtl"@.subrange(0, 4)[1] == ".png"@[1]);
        assert(false);
    }
    if is_suffix(".jpg"@, path) && is_suffix(".obj"@, path) {
        lemma_suffixes_agree(path, ".jpg"@, ".obj"@);
        assert(".obj"@.subrange(0, 4)[1] == ".jpg"@[1]);
        assert(false);
    }
    if is_suffix(".jpg"@, path) && is_suffix(".mtl"@, path) {
        lemma_suffixes_agree(path, ".jpg"@, ".mtl"@);
        assert(".mtl"@.subrange(0, 4)[1] == ".jpg"@[1]);
        assert(false);
    }
    if is_suffix(".jpg"@, path) && is_suffix(".png"@, path) {
        lemma_suffixes_agree(path, ".jpg"@, ".png"@);
        assert(".png"@.subrange(0, 4)[1] == ".jpg"@[1]);
        assert(false);
    }
    if is_suffix(".jpeg"@, path) && is_suffix(".obj"@, path) {
        lemma_suffixes_agree(path, ".obj"@, ".jpeg"@);
        assert(".jpeg"@.subrange(1, 5)[0] == ".obj"@[0]);
        assert(false);
    }
    if is_suffix(".jpeg"@, path) && is_suffix(".mtl"@, path) {
        lemma_suffixes_agree(path, ".mtl"@, ".jpeg"@);
        assert(".jpeg"@.subrange(1, 5)[0] == ".mtl"@[0]);
        assert(false);
    }
    if is_suffix(".jpeg"@, path) && is_suffix(".png"@, path) {
        lemma_suffixes_agree(path, ".png"@, ".jpeg"@);
        assert(".jpeg"@.subrange(1, 5)[0] == ".png"@[0]);
        assert(false);
    }
    if is_suffix(".jpeg"@, path) && is_suffix(".jpg"@, path) {
        lemma_suffixes_agree(path, ".jpg"@, ".jpeg"@);
        assert(".jpeg"@.subrange(1, 5)[0] == ".jpg"@[0]);
        assert(false);
    }
    if is_suffix(".ply"@, path) && is_suffix(".obj"@, path) {
        lemma_suffixes_agree(path, ".ply"@, ".obj"@);
        assert(".obj"@.subrange(0, 4)[1] == ".ply"@[1]);
        assert(false);
    }
    if is_suffix(".ply"@, path) && is_suffix(".mtl"@, path) {
        lemma_suffixes_agree(path, ".ply"@, ".mtl"@);
        assert(".mtl"@.subrange(0, 4)[1] == ".ply"@[1]);
        assert(false);
    }
    if is_suffix(".ply"@, path) && is_suffix(".png"@, path) {
        lemma_suffixes_agree(path, ".ply"@, ".png"@);
        assert(".png"@.subrange(0, 4)[2] == ".ply"@[2]);
        assert(false);
    }
    if is_suffix(".ply"@, path) && is_suffix(".jpg"@, path) {
        lemma_suffixes_agree(path, ".ply"@, ".jpg"@);
        assert(".jpg"@.subrange(0, 4)[1] == ".ply"@[1]);
        assert(false);
    }
    if is_suffix(".ply"@, path) && is_suffix(".jpeg"@, path) {
        lemma_suffixes_agree(path, ".ply"@, ".jpeg"@);
        assert(".jpeg"@.subrange(1, 5)[0] == ".ply"@[0]);
        assert(false);
    }
    if is_suffix(".json"@, path) && is_suffix(".obj"@, path) {
        lemma_suffixes_agree(path, ".obj"@, ".json"@);
        assert(".json"@.subrange(1, 5)[0] == ".obj"@[0]);
        assert(false);
    }
    if is_suffix(".json"@, path) && is_suffix(".mtl"@, path) {
        lemma_suffixes_agree(path, ".mtl"@, ".json"@);
        assert(".json"@.subrange(1, 5)[0] == ".mtl"@[0]);
        assert(false);
    }
    if is_suffix(".json"@, path) && is_suffix(".png"@, path) {
        lemma_suffixes_agree(path, ".png"@, ".json"@);
        assert(".json"@.subrange(1, 5)[0] == ".png"@[0]);
        assert(false);
    }
    if is_suffix(".json"@, path) && is_suffix(".jpg"@, path) {
        lemma_suffixes_agree(path, ".jpg"@, ".json"@);
        assert(".json"@.subrange(1, 5)[0] == ".jpg"@[0]);
        assert(false);
    }
    if is_suffix(".json"@, path) && is_suffix(".jpeg"@, path) {
        lemma_suffixes_agree(path, ".json"@, ".jpeg"@);
        assert(".jpeg"@.subrange(0, 5)[2] == ".json"@[2]);
        assert(false);
    }
    if is_suffix(".json"@, path) && is_suffix(".ply"@, path) {
        lemma_suffixes_agree(path, ".ply"@, ".json"@);
        assert(".json"@.subrange(1, 5)[0] == ".ply"@[0]);
        assert(false);
    }
    if is_suffix(".txt"@, path) && is_suffix(".obj"@, path) {
        lemma_suffixes_agree(path, ".txt"@, ".obj"@);
        assert(".obj"@.subrange(0, 4)[1] == ".txt"@[1]);
        assert(false);
    }
    if is_suffix(".txt"@, path) && is_suffix(".mtl"@, path) {
        lemma_suffixes_agree(path, ".txt"@, ".mtl"@);
        assert(".mtl"@.subrange(0, 4)[1] == ".txt"@[1]);
        assert(false);
    }
    if is_suffix(".txt"@, path) && is_suffix(".png"@, path) {
        lemma_suffixes_agree(path, ".txt"@, ".png"@);
        assert(".png"@.subrange(0, 4)[1] == ".txt"@[1]);
        assert(false);
    }
    if is_suffix(".txt"@, path) && is_suffix(".jpg"@, path) {
        lemma_suffixes_agree(path, ".txt"@, ".jpg"@);
        assert(".jpg"@.subrange(0, 4)[1] == ".txt"@[1]);
        assert(false);
    }
    if is_suffix(".txt"@, path) && is_suffix(".jpeg"@, path) {
        lemma_suffixes_agree(path, ".txt"@, ".jpeg"@);
        assert(".jpeg"@.subrange(1, 5)[0] == ".txt"@[0]);
        assert(false);
    }
    if is_suffix(".txt"@, path) && is_suffix(".ply"@, path) {
        lemma_suffixes_agree(path, ".txt"@, ".ply"@);
        assert(".ply"@.subrange(0, 4)[1] == ".txt"@[1]);
        assert(false);
    }
    if is_suffix(".txt"@, path) && is_suffix(".json"@, path) {
        lemma_suffixes_agree(path, ".txt"@, ".json"@);
        assert(".json"@.subrange(1, 5)[0] == ".txt"@[0]);
        assert(false);
    }
}

} // verus!

//! The local download pipeline: which archives to fetch, and the decisions
//! taken for each (object, file type) pair as the cache, the server and the
//! extractor answer.
//!
//! The I/O itself (HTTP requests, file checks, extraction) is performed by the
//! caller, which runs the loop: it performs each [`ItemAction`] and hands the
//! outcome back as an [`ItemEvent`].

use vstd::prelude::*;
use vstd::string::*;
use crate::catalog::{get_tgz_url, tgz_url, BERKELEY_PROCESSED, GOOGLE_16K};
use crate::paths::{join, join_path, mesh_path, object_mesh_path};
use crate::text::same_text;

verus! {

/// Options for downloading YCB objects.
///
/// Construct with `DownloadOptions::default()` and override the fields you care about.
#[derive(Clone, Debug)]
#[non_exhaustive]
pub struct DownloadOptions {
    /// Overwrite existing files.
    pub overwrite: bool,
    /// Download all file types (`berkeley_processed` and `google_16k`);
    /// if false, only `google_16k`.
    pub full: bool,
    /// Show progress bars during download.
    pub show_progress: bool,
    /// Delete archive files after extraction.
    pub delete_archives: bool,
    /// Maximum number of concurrent per-object downloads; `0` counts as `1`.
    pub concurrency: usize,
    /// Compare the size of a cached archive against the server-reported
    /// `Content-Length` before reusing it.
    pub verify_integrity: bool,
}

impl Default for DownloadOptions {
    fn default() -> (o: Self)
        ensures
            !o.overwrite,
            !o.full,
            o.show_progress,
            o.delete_archives,
            o.concurrency == 1,
            o.verify_integrity,
    {
        DownloadOptions {
            overwrite: false,
            full: false,
            show_progress: true,
            delete_archives: true,
            concurrency: 1,
            verify_integrity: true,
        }
    }
}

/// The file types fetched for each object.
pub open spec fn file_types(full: bool) -> Seq<Seq<char>> {
    if full {
        seq![BERKELEY_PROCESSED@, GOOGLE_16K@]
    } else {
        seq![GOOGLE_16K@]
    }
}

/// The file types fetched for each object: `google_16k`, preceded by
/// `berkeley_processed` for a full download.
pub fn download_file_types(full: bool) -> (r: Vec<&'static str>)
    ensures
        r@.map_values(|t: &str| t@) == file_types(full),
{
    let mut types: Vec<&'static str> = Vec::new();
    if full {
        types.push(BERKELEY_PROCESSED);
    }
    types.push(GOOGLE_16K);
    assert(types@.map_values(|t: &str| t@) =~= file_types(full));
    types
}

/// One archive to obtain: an object and one of its file types.
#[derive(Clone, Debug)]
pub struct WorkItem {
    pub object: String,
    pub file_type: String,
}

impl View for WorkItem {
    type V = (Seq<char>, Seq<char>);

    open spec fn view(&self) -> (Seq<char>, Seq<char>) {
        (self.object@, self.file_type@)
    }
}

/// The work list of a download: every object paired with every file type,
/// objects in the given order and, within an object, file types in order.
pub open spec fn work_list(objects: Seq<Seq<char>>, full: bool) -> Seq<(Seq<char>, Seq<char>)> {
    let types = file_types(full);
    Seq::new(objects.len() * types.len(), |k: int| (objects[k / types.len() as int], types[k % types.len() as int]))
}

/// The number of requests that may be in flight at once.
pub open spec fn effective_concurrency(requested: usize) -> usize {
    if requested == 0 { 1 } else { requested }
}

/// How a download of a non-empty object list proceeds.
pub struct DownloadPlan {
    /// The archives to obtain, in order.
    pub items: Vec<WorkItem>,
    /// How many items may be processed at once (at least 1).
    pub concurrency: usize,
    /// Whether progress bars are grouped under one multi-bar display.
    pub multi_progress: bool,
}

proof fn lemma_work_list_step(objects: Seq<Seq<char>>, full: bool, i: int)
    requires
        0 <= i < objects.len(),
    ensures
        ({
            let m = file_types(full).len() as int;
            let w = work_list(objects, full);
            let wp = work_list(objects.take(i + 1), full);
            &&& wp.len() == (i + 1) * m
            &&& (i + 1) * m == i * m + m
            &&& work_list(objects.take(i), full).len() == i * m
            &&& forall|k: int| 0 <= k < i * m ==> wp[k] == work_list(objects.take(i), full)[k]
            &&& forall|t: int| 0 <= t < m ==> wp[i * m + t] == (objects[i], file_types(full)[t])
        }),
{
    let m = file_types(full).len() as int;
    assert(m == 1 || m == 2);
    let wp = work_list(objects.take(i + 1), full);
    let wq = work_list(objects.take(i), full);
    assert(wp.len() == (i + 1) * m) by (nonlinear_arith)
        requires wp.len() == (objects.take(i + 1).len() * m), objects.take(i + 1).len() == i + 1;
    assert(wq.len() == i * m) by (nonlinear_arith)
        requires wq.len() == (objects.take(i).len() * m), objects.take(i).len() == i;
    assert((i + 1) * m == i * m + m) by (nonlinear_arith);
    assert forall|k: int| 0 <= k < i * m implies wp[k] == wq[k] by {
        assert(k / m < i) by (nonlinear_arith) requires 0 <= k < i * m, m == 1 || m == 2;
        assert(0 <= k / m) by (nonlinear_arith) requires 0 <= k, m == 1 || m == 2;
        assert(k < (i + 1) * m) by (nonlinear_arith) requires 0 <= k < i * m, m == 1 || m == 2;
    }
    assert forall|t: int| 0 <= t < m implies wp[i * m + t] == (objects[i], file_types(full)[t]) by {
        assert((i * m + t) / m == i && (i * m + t) % m == t) by (nonlinear_arith)
            requires 0 <= t < m, m == 1 || m == 2, 0 <= i;
        assert(i * m + t < (i + 1) * m) by (nonlinear_arith) requires 0 <= t < m, m == 1 || m == 2;
    }
}

/// The work list holds every object paired with every file type, object by
/// object: object `i` with file type `t` stands at position `i * m + t`,
/// where `m` is the number of file types.
pub proof fn lemma_work_list_shape(objects: Seq<Seq<char>>, full: bool, i: int, t: int)
    requires
        0 <= i < objects.len(),
        0 <= t < file_types(full).len(),
    ensures
        work_list(objects, full).len() == objects.len() * file_types(full).len(),
        work_list(objects, full)[i * file_types(full).len() + t] == (objects[i], file_types(full)[t]),
{
    let m = file_types(full).len() as int;
    let n = objects.len() as int;
    assert((i * m + t) / m == i && (i * m + t) % m == t) by (nonlinear_arith)
        requires 0 <= t < m, m == 1 || m == 2, 0 <= i;
    assert(i * m + t < n * m) by (nonlinear_arith)
        requires 0 <= t < m, m == 1 || m == 2, 0 <= i < n;
    assert(0 <= i * m + t) by (nonlinear_arith)
        requires 0 <= t, m == 1 || m == 2, 0 <= i;
}

/// Plans the download of `objects`: `None` for an empty list, which is a
/// no-op (not even the output directory is created).
pub fn plan_download(objects: &[&str], options: &DownloadOptions) -> (r: Option<DownloadPlan>)
    ensures
        r is None <==> objects@.len() == 0,
        r matches Some(p) ==> {
            &&& p.items@.map_values(|w: WorkItem| w@) == work_list(objects@.map_values(|o: &str| o@), options.full)
            &&& p.concurrency == effective_concurrency(options.concurrency)
            &&& (options.concurrency >= 1 ==> p.concurrency == options.concurrency)
            &&& (options.concurrency == 0 ==> p.concurrency == 1)
            &&& p.multi_progress == (options.show_progress && p.concurrency > 1)
        },
{
    if objects.len() == 0 {
        return None;
    }
    let types = download_file_types(options.full);
    let ghost names = objects@.map_values(|o: &str| o@);
    let ghost m = file_types(options.full).len() as int;
    let mut items: Vec<WorkItem> = Vec::new();
    let n = objects.len();
    for i in 0..n
        invariant
            n == objects@.len(),
            names == objects@.map_values(|o: &str| o@),
            m == file_types(options.full).len(),
            types@.map_values(|t: &str| t@) == file_types(options.full),
            items@.map_values(|w: WorkItem| w@) =~= work_list(names.take(i as int), options.full),
    {
        proof {
            lemma_work_list_step(names, options.full, i as int);
        }
        let ghost before = items@;
        let nt = types.len();
        for t in 0..nt
            invariant
                nt == types@.len(),
                n == objects@.len(),
                0 <= i < n,
                names == objects@.map_values(|o: &str| o@),
                m == file_types(options.full).len(),
                m == nt,
                types@.map_values(|t: &str| t@) == file_types(options.full),
                before.map_values(|w: WorkItem| w@) =~= work_list(names.take(i as int), options.full),
                items@.len() == before.len() + t,
                forall|k: int| 0 <= k < before.len() ==> #[trigger] items@[k] == before[k],
                forall|u: int| 0 <= u < t ==> #[trigger] items@[before.len() + u]@ == (names[i as int], file_types(options.full)[u]),
        {
            items.push(WorkItem { object: objects[i].to_owned(), file_type: types[t].to_owned() });
            assert(types@.map_values(|t: &str| t@)[t as int] == types@[t as int]@);
        }
        assert(items@.map_values(|w: WorkItem| w@) =~= work_list(names.take(i + 1), options.full)) by {
            let wp = work_list(names.take(i + 1), options.full);
            assert(before.map_values(|w: WorkItem| w@).len() == before.len());
            assert(before.len() == i * m);
            assert forall|k: int| 0 <= k < wp.len() implies items@.map_values(|w: WorkItem| w@)[k] == wp[k] by {
                if k < i * m {
                    assert(items@[k] == before[k]);
                    assert(before.map_values(|w: WorkItem| w@)[k] == before[k]@);
                } else {
                    let u = k - i * m;
                    assert(items@[before.len() + u]@ == (names[i as int], file_types(options.full)[u]));
                }
            }
        }
    }
    assert(names.take(n as int) =~= names);
    let concurrency = if options.concurrency == 0 { 1 } else { options.concurrency };
    Some(DownloadPlan {
        items,
        concurrency,
        multi_progress: options.show_progress && concurrency > 1,
    })
}

/// Where the processing of one work item stands.
#[derive(Clone, Copy, Debug, PartialEq, Eq, Structural)]
pub enum ItemStage {
    /// Waiting to learn whether the extracted artifact is on disk.
    AwaitArtifact,
    /// Waiting to learn whether a cached archive is on disk.
    AwaitArchive,
    /// Waiting for the server-reported length of the archive.
    AwaitServerLength,
    /// Waiting for the size of the cached archive; the server reported `expected`.
    AwaitArchiveSize { expected: u64 },
    /// Waiting for the archive download.
    AwaitDownload,
    /// Waiting for the archive extraction.
    AwaitExtract,
    /// Nothing left to do.
    Finished,
}

/// What the caller learned by performing the last action.
#[derive(Clone, Copy, Debug, PartialEq, Eq, Structural)]
pub enum ItemEvent {
    /// Whether the extracted artifact exists.
    ArtifactPresent(bool),
    /// Whether the cached archive exists.
    ArchivePresent(bool),
    /// The `Content-Length` the server reported, if it answered with success and one.
    ServerLength(Option<u64>),
    /// The size in bytes of the cached archive.
    ArchiveSize(u64),
    /// The archive was downloaded.
    Downloaded,
    /// The server answered the download with this non-success status.
    DownloadRefused(u16),
    /// The archive was extracted.
    Extracted,
    /// The action raised an error (network, I/O or extraction).
    Failed,
}

/// Why a work item failed.
#[derive(Clone, Debug)]
pub enum ItemFailure {
    /// Pass on the error raised by the action just performed.
    Propagate,
    /// The server answered the download with a non-success status.
    HttpStatus { status: u16, url: String },
}

/// The next thing the caller has to do for a work item.
#[derive(Clone, Debug)]
pub enum ItemAction {
    /// Check whether the file at `path` exists; answer with `ArtifactPresent`.
    CheckArtifact { path: String },
    /// Check whether the archive at `path` exists; answer with `ArchivePresent`.
    CheckArchive { path: String },
    /// Ask the server (HEAD) for the length of `url`; answer with `ServerLength`.
    FetchServerLength { url: String },
    /// Read the size of the archive at `path`; answer with `ArchiveSize`.
    MeasureArchive { path: String },
    /// Download `url` to `path`, first removing the stale archive there (ignoring
    /// a failure to remove it) if `remove_stale`; answer with `Downloaded` or `DownloadRefused`.
    Download { url: String, path: String, remove_stale: bool },
    /// Extract `archive` into `output_dir`, deleting the archive afterwards if
    /// `delete_archive`; answer with `Extracted`.
    Extract { archive: String, output_dir: String, delete_archive: bool },
    /// The work item is done.
    Succeed,
    /// The work item failed.
    Fail(ItemFailure),
}

/// [`ItemFailure`] with its text as characters.
pub enum FailureView {
    Propagate,
    HttpStatus { status: u16, url: Seq<char> },
}

/// [`ItemAction`] with its text as characters.
pub enum ActionView {
    CheckArtifact { path: Seq<char> },
    CheckArchive { path: Seq<char> },
    FetchServerLength { url: Seq<char> },
    MeasureArchive { path: Seq<char> },
    Download { url: Seq<char>, path: Seq<char>, remove_stale: bool },
    Extract { archive: Seq<char>, output_dir: Seq<char>, delete_archive: bool },
    Succeed,
    Fail(FailureView),
}

impl View for ItemFailure {
    type V = FailureView;

    open spec fn view(&self) -> FailureView {
        match self {
            ItemFailure::Propagate => FailureView::Propagate,
            ItemFailure::HttpStatus { status, url } => FailureView::HttpStatus { status: *status, url: url@ },
        }
    }
}

impl View for ItemAction {
    type V = ActionView;

    open spec fn view(&self) -> ActionView {
        match self {
            ItemAction::CheckArtifact { path } => ActionView::CheckArtifact { path: path@ },
            ItemAction::CheckArchive { path } => ActionView::CheckArchive { path: path@ },
            ItemAction::FetchServerLength { url } => ActionView::FetchServerLength { url: url@ },
            ItemAction::MeasureArchive { path } => ActionView::MeasureArchive { path: path@ },
            ItemAction::Download { url, path, remove_stale } =>
                ActionView::Download { url: url@, path: path@, remove_stale: *remove_stale },
            ItemAction::Extract { archive, output_dir, delete_archive } =>
                ActionView::Extract { archive: archive@, output_dir: output_dir@, delete_archive: *delete_archive },
            ItemAction::Succeed => ActionView::Succeed,
            ItemAction::Fail(f) => ActionView::Fail(f@),
        }
    }
}

/// The file name of an object's archive: `<object>_<file_type>.tgz`.
pub open spec fn archive_name(object: Seq<char>, file_type: Seq<char>) -> Seq<char> {
    object + "_"@ + file_type + ".tgz"@
}

/// Where an object's archive is cached.
pub open spec fn archive_path(dir: Seq<char>, object: Seq<char>, file_type: Seq<char>) -> Seq<char> {
    join(dir, archive_name(object, file_type))
}

/// The extracted file whose presence means the work item is already done:
/// the mesh, for `google_16k`; no other file type has one.
pub open spec fn artifact_path(dir: Seq<char>, object: Seq<char>, file_type: Seq<char>) -> Option<Seq<char>> {
    if file_type == GOOGLE_16K@ {
        Some(mesh_path(dir, object))
    } else {
        None
    }
}

/// Downloading the archive.
pub open spec fn download_step(dir: Seq<char>, object: Seq<char>, file_type: Seq<char>, remove_stale: bool) -> (ItemStage, ActionView) {
    (ItemStage::AwaitDownload, ActionView::Download {
        url: tgz_url(object, file_type),
        path: archive_path(dir, object, file_type),
        remove_stale,
    })
}

/// Once no extracted artifact short-cuts the work: look for a cached archive,
/// unless overwriting, which always downloads.
pub open spec fn cache_step(dir: Seq<char>, object: Seq<char>, file_type: Seq<char>, options: DownloadOptions) -> (ItemStage, ActionView) {
    if options.overwrite {
        download_step(dir, object, file_type, false)
    } else {
        (ItemStage::AwaitArchive, ActionView::CheckArchive { path: archive_path(dir, object, file_type) })
    }
}

/// The first step of a work item.
pub open spec fn item_start(dir: Seq<char>, object: Seq<char>, file_type: Seq<char>, options: DownloadOptions) -> (ItemStage, ActionView) {
    if !options.overwrite && artifact_path(dir, object, file_type) is Some {
        (ItemStage::AwaitArtifact, ActionView::CheckArtifact { path: artifact_path(dir, object, file_type)->0 })
    } else {
        cache_step(dir, object, file_type, options)
    }
}

/// Whether `event` answers the action that leads into `stage`.
pub open spec fn answers(stage: ItemStage, event: ItemEvent) -> bool {
    match event {
        ItemEvent::ArtifactPresent(_) => stage is AwaitArtifact,
        ItemEvent::ArchivePresent(_) => stage is AwaitArchive,
        ItemEvent::ServerLength(_) => stage is AwaitServerLength,
        ItemEvent::ArchiveSize(_) => stage is AwaitArchiveSize,
        ItemEvent::Downloaded => stage is AwaitDownload,
        ItemEvent::DownloadRefused(_) => stage is AwaitDownload,
        ItemEvent::Extracted => stage is AwaitExtract,
        ItemEvent::Failed => !(stage is Finished),
    }
}

/// The step taken on `event` in `stage`.
pub open spec fn item_step(
    dir: Seq<char>,
    object: Seq<char>,
    file_type: Seq<char>,
    options: DownloadOptions,
    stage: ItemStage,
    event: ItemEvent,
) -> (ItemStage, ActionView) {
    match event {
        ItemEvent::Failed => (ItemStage::Finished, ActionView::Fail(FailureView::Propagate)),
        ItemEvent::ArtifactPresent(present) => if present {
            (ItemStage::Finished, ActionView::Succeed)
        } else {
            cache_step(dir, object, file_type, options)
        },
        ItemEvent::ArchivePresent(present) => if !present {
            download_step(dir, object, file_type, false)
        } else if options.verify_integrity {
            (ItemStage::AwaitServerLength, ActionView::FetchServerLength { url: tgz_url(object, file_type) })
        } else {
            (ItemStage::Finished, ActionView::Succeed)
        },
        ItemEvent::ServerLength(length) => match length {
            None => (ItemStage::Finished, ActionView::Succeed),
            Some(expected) => (
                ItemStage::AwaitArchiveSize { expected },
                ActionView::MeasureArchive { path: archive_path(dir, object, file_type) },
            ),
        },
        ItemEvent::ArchiveSize(actual) => if actual == stage->expected {
            (ItemStage::Finished, ActionView::Succeed)
        } else {
            download_step(dir, object, file_type, true)
        },
        ItemEvent::Downloaded => (ItemStage::AwaitExtract, ActionView::Extract {
            archive: archive_path(dir, object, file_type),
            output_dir: dir,
            delete_archive: options.delete_archives,
        }),
        ItemEvent::DownloadRefused(status) => if status == 404 {
            (ItemStage::Finished, ActionView::Succeed)
        } else {
            (ItemStage::Finished, ActionView::Fail(FailureView::HttpStatus { status, url: tgz_url(object, file_type) }))
        },
        ItemEvent::Extracted => (ItemStage::Finished, ActionView::Succeed),
    }
}

/// The file name of an object's archive.
pub fn archive_file_name(object: &str, file_type: &str) -> (r: String)
    ensures
        r@ == archive_name(object@, file_type@),
{
    let mut name = String::from_str(object);
    name.append("_");
    name.append(file_type);
    name.append(".tgz");
    name
}

/// Where an object's archive is cached under `output_dir`.
pub fn archive_file_path(output_dir: &str, object: &str, file_type: &str) -> (r: String)
    ensures
        r@ == archive_path(output_dir@, object@, file_type@),
{
    let name = archive_file_name(object, file_type);
    join_path(output_dir, name.as_str())
}

/// The extracted file whose presence means the work item is already done.
pub fn local_artifact_path(output_dir: &str, object: &str, file_type: &str) -> (r: Option<String>)
    ensures
        r is None <==> artifact_path(output_dir@, object@, file_type@) is None,
        r matches Some(p) ==> artifact_path(output_dir@, object@, file_type@) == Some(p@),
{
    if same_text(file_type, GOOGLE_16K) {
        Some(object_mesh_path(output_dir, object))
    } else {
        None
    }
}

fn download_action(output_dir: &str, object: &str, file_type: &str, remove_stale: bool) -> (r: (ItemStage, ItemAction))
    ensures
        (r.0, r.1@) == download_step(output_dir@, object@, file_type@, remove_stale),
{
    (ItemStage::AwaitDownload, ItemAction::Download {
        url: get_tgz_url(object, file_type),
        path: archive_file_path(output_dir, object, file_type),
        remove_stale,
    })
}

fn cache_action(output_dir: &str, object: &str, file_type: &str, options: &DownloadOptions) -> (r: (ItemStage, ItemAction))
    ensures
        (r.0, r.1@) == cache_step(output_dir@, object@, file_type@, *options),
{
    if options.overwrite {
        download_action(output_dir, object, file_type, false)
    } else {
        (ItemStage::AwaitArchive, ItemAction::CheckArchive { path: archive_file_path(output_dir, object, file_type) })
    }
}

/// The first step of work item `item` downloaded into `output_dir`.
///
/// Unless overwriting, an extracted `google_16k` mesh already on disk is
/// checked for first, before any network request.
pub fn start_item(output_dir: &str, item: &WorkItem, options: &DownloadOptions) -> (r: (ItemStage, ItemAction))
    ensures
        (r.0, r.1@) == item_start(output_dir@, item.object@, item.file_type@, *options),
{
    let object = item.object.as_str();
    let file_type = item.file_type.as_str();
    if !options.overwrite {
        if let Some(path) = local_artifact_path(output_dir, object, file_type) {
            return (ItemStage::AwaitArtifact, ItemAction::CheckArtifact { path });
        }
    }
    cache_action(output_dir, object, file_type, options)
}

/// The step taken for work item `item` when `event` answers the action of `stage`.
pub fn step_item(
    output_dir: &str,
    item: &WorkItem,
    options: &DownloadOptions,
    stage: ItemStage,
    event: ItemEvent,
) -> (r: (ItemStage, ItemAction))
    requires
        answers(stage, event),
    ensures
        (r.0, r.1@) == item_step(output_dir@, item.object@, item.file_type@, *options, stage, event),
{
    let object = item.object.as_str();
    let file_type = item.file_type.as_str();
    match event {
        ItemEvent::Failed => (ItemStage::Finished, ItemAction::Fail(ItemFailure::Propagate)),
        ItemEvent::ArtifactPresent(present) => if present {
            (ItemStage::Finished, ItemAction::Succeed)
        } else {
            cache_action(output_dir, object, file_type, options)
        },
        ItemEvent::ArchivePresent(present) => if !present {
            download_action(output_dir, object, file_type, false)
        } else if options.verify_integrity {
            (ItemStage::AwaitServerLength, ItemAction::FetchServerLength { url: get_tgz_url(object, file_type) })
        } else {
            (ItemStage::Finished, ItemAction::Succeed)
        },
        ItemEvent::ServerLength(length) => match length {
            None => (ItemStage::Finished, ItemAction::Succeed),
            Some(expected) => (
                ItemStage::AwaitArchiveSize { expected },
                ItemAction::MeasureArchive { path: archive_file_path(output_dir, object, file_type) },
            ),
        },
        ItemEvent::ArchiveSize(actual) => {
            let expected = match stage {
                ItemStage::AwaitArchiveSize { expected } => expected,
                _ => 0,
            };
            if actual == expected {
                (ItemStage::Finished, ItemAction::Succeed)
            } else {
                download_action(output_dir, object, file_type, true)
            }
        },
        ItemEvent::Downloaded => (ItemStage::AwaitExtract, ItemAction::Extract {
            archive: archive_file_path(output_dir, object, file_type),
            output_dir: String::from_str(output_dir),
            delete_archive: options.delete_archives,
        }),
        ItemEvent::DownloadRefused(status) => if status == 404 {
            (ItemStage::Finished, ItemAction::Succeed)
        } else {
            (ItemStage::Finished, ItemAction::Fail(ItemFailure::HttpStatus { status, url: get_tgz_url(object, file_type) }))
        },
        ItemEvent::Extracted => (ItemStage::Finished, ItemAction::Succeed),
    }
}

/// How far a stage is from the end of a work item.
pub open spec fn stage_rank(stage: ItemStage) -> nat {
    match stage {
        ItemStage::AwaitArtifact => 6,
        ItemStage::AwaitArchive => 5,
        ItemStage::AwaitServerLength => 4,
        ItemStage::AwaitArchiveSize { .. } => 3,
        ItemStage::AwaitDownload => 2,
        ItemStage::AwaitExtract => 1,
        ItemStage::Finished => 0,
    }
}

/// Whether `stage` is the stage that waits for the answer to `action`.
pub open spec fn awaits(stage: ItemStage, action: ActionView) -> bool {
    match action {
        ActionView::CheckArtifact { .. } => stage is AwaitArtifact,
        ActionView::CheckArchive { .. } => stage is AwaitArchive,
        ActionView::FetchServerLength { .. } => stage is AwaitServerLength,
        ActionView::MeasureArchive { .. } => stage is AwaitArchiveSize,
        ActionView::Download { .. } => stage is AwaitDownload,
        ActionView::Extract { .. } => stage is AwaitExtract,
        ActionView::Succeed => stage is Finished,
        ActionView::Fail(_) => stage is Finished,
    }
}

/// Whether an action ends the work item.
pub open spec fn ends_item(action: ActionView) -> bool {
    action is Succeed || action is Fail
}

/// With overwriting off, an object whose extracted `google_16k` mesh is
/// already on disk is done after checking that one file: no HEAD or GET
/// request is made for it, whatever the integrity setting and whatever
/// archive lies beside it.
pub proof fn lemma_present_mesh_skips_network(dir: Seq<char>, object: Seq<char>, options: DownloadOptions)
    requires
        !options.overwrite,
    ensures
        item_start(dir, object, GOOGLE_16K@, options)
            == (ItemStage::AwaitArtifact, ActionView::CheckArtifact { path: mesh_path(dir, object) }),
        item_step(dir, object, GOOGLE_16K@, options, ItemStage::AwaitArtifact, ItemEvent::ArtifactPresent(true))
            == (ItemStage::Finished, ActionView::Succeed),
{
}

/// With integrity checking off, no step of a work item ever asks the server
/// for an archive's length: a cached archive is reused as it is.
pub proof fn lemma_no_length_request_without_integrity(
    dir: Seq<char>,
    object: Seq<char>,
    file_type: Seq<char>,
    options: DownloadOptions,
    stage: ItemStage,
    event: ItemEvent,
)
    requires
        !options.verify_integrity,
        answers(stage, event),
    ensures
        !(item_start(dir, object, file_type, options).1 is FetchServerLength),
        !(item_step(dir, object, file_type, options, stage, event).1 is FetchServerLength),
        item_step(dir, object, file_type, options, ItemStage::AwaitArchive, ItemEvent::ArchivePresent(true))
            == (ItemStage::Finished, ActionView::Succeed),
{
}

/// With overwriting on, a work item starts by downloading its archive,
/// without looking at what is already on disk.
pub proof fn lemma_overwrite_downloads_first(dir: Seq<char>, object: Seq<char>, file_type: Seq<char>, options: DownloadOptions)
    requires
        options.overwrite,
    ensures
        item_start(dir, object, file_type, options) == (ItemStage::AwaitDownload, ActionView::Download {
            url: tgz_url(object, file_type),
            path: archive_path(dir, object, file_type),
            remove_stale: false,
        }),
{
}

/// A download answered with 404 ends the work item successfully (the archive
/// does not exist upstream and is skipped); any other refusal fails it with
/// that status and the archive's URL.
pub proof fn lemma_download_refusals(
    dir: Seq<char>,
    object: Seq<char>,
    file_type: Seq<char>,
    options: DownloadOptions,
    status: u16,
)
    ensures
        status == 404 ==> item_step(dir, object, file_type, options, ItemStage::AwaitDownload, ItemEvent::DownloadRefused(status))
            == (ItemStage::Finished, ActionView::Succeed),
        status != 404 ==> item_step(dir, object, file_type, options, ItemStage::AwaitDownload, ItemEvent::DownloadRefused(status))
            == (ItemStage::Finished, ActionView::Fail(FailureView::HttpStatus { status, url: tgz_url(object, file_type) })),
{
}

/// A cached archive is reused exactly when its size equals the length the
/// server reports; otherwise it is removed and downloaded again.
pub proof fn lemma_cached_archive_size_check(
    dir: Seq<char>,
    object: Seq<char>,
    file_type: Seq<char>,
    options: DownloadOptions,
    expected: u64,
    actual: u64,
)
    ensures
        ({
            let r = item_step(dir, object, file_type, options, ItemStage::AwaitArchiveSize { expected }, ItemEvent::ArchiveSize(actual));
            &&& (actual == expected ==> r == (ItemStage::Finished, ActionView::Succeed))
            &&& (actual != expected ==> r == download_step(dir, object, file_type, true))
        }),
{
}

/// Every step moves a work item strictly closer to its end, and a step ends
/// the item exactly when it reports success or failure: a work item is done
/// after at most six actions, and never stops while an action is pending.
/// Each step's stage is the one that waits for the answer to its action, so
/// answering the action (or reporting its failure) is always a valid next event.
pub proof fn lemma_item_progress(
    dir: Seq<char>,
    object: Seq<char>,
    file_type: Seq<char>,
    options: DownloadOptions,
    stage: ItemStage,
    event: ItemEvent,
)
    requires
        answers(stage, event),
    ensures
        stage_rank(item_start(dir, object, file_type, options).0) <= 6,
        !ends_item(item_start(dir, object, file_type, options).1),
        !(item_start(dir, object, file_type, options).0 is Finished),
        stage_rank(item_step(dir, object, file_type, options, stage, event).0) < stage_rank(stage),
        (item_step(dir, object, file_type, options, stage, event).0 is Finished)
            <==> ends_item(item_step(dir, object, file_type, options, stage, event).1),
        awaits(item_start(dir, object, file_type, options).0, item_start(dir, object, file_type, options).1),
        awaits(item_step(dir, object, file_type, options, stage, event).0, item_step(dir, object, file_type, options, stage, event).1),
{
}

/// Whether an HTTP status is a success (`200..=299`), as `StatusCode::is_success` decides.
pub open spec fn is_success_status(status: u16) -> bool {
    200 <= status < 300
}

/// Whether an HTTP status is a success (`200..=299`).
pub fn status_is_success(status: u16) -> (r: bool)
    ensures
        r == is_success_status(status),
{
    200 <= status && status < 300
}

/// A request answered with a non-success HTTP status.
#[derive(Clone, Debug)]
pub struct HttpStatusError {
    /// HTTP status code returned by the server.
    pub status: u16,
    /// URL that returned the status.
    pub url: String,
}

/// Accepts a success status for `url`; any other status is an error naming it and the URL.
pub fn check_status(status: u16, url: &str) -> (r: Result<(), HttpStatusError>)
    ensures
        r is Ok <==> is_success_status(status),
        r matches Err(e) ==> e.status == status && e.url@ == url@,
{
    if status_is_success(status) {
        Ok(())
    } else {
        Err(HttpStatusError { status, url: String::from_str(url) })
    }
}

/// The `Content-Length` answer of a HEAD request: none unless the status is a success.
pub fn server_length(status: u16, content_length: Option<u64>) -> (r: Option<u64>)
    ensures
        r == if is_success_status(status) { content_length } else { None },
{
    if status_is_success(status) {
        content_length
    } else {
        None
    }
}


/// The requested concurrency is used as it is, except that 0 counts as 1:
/// the effective value is never below 1 and never differs from a request of
/// at least 1.
pub proof fn lemma_concurrency_only_raises_zero(requested: usize)
    ensures
        effective_concurrency(requested) >= 1,
        requested >= 1 ==> effective_concurrency(requested) == requested,
        requested == 0 ==> effective_concurrency(requested) == 1,
{
}

/// A cached archive is one file throughout a work item: the file checked for
/// presence, the file measured against the server's length, the file
/// (re-)downloaded into and the file extracted are all the same, namely
/// `<object>_<file_type>.tgz` directly in the output directory.
pub proof fn lemma_one_archive_file(
    dir: Seq<char>,
    object: Seq<char>,
    file_type: Seq<char>,
    options: DownloadOptions,
    expected: u64,
    actual: u64,
)
    requires
        !options.overwrite,
        actual != expected,
    ensures
        ({
            let checked = item_step(dir, object, file_type, options, ItemStage::AwaitArtifact, ItemEvent::ArtifactPresent(false)).1;
            let measured = item_step(dir, object, file_type, options, ItemStage::AwaitServerLength, ItemEvent::ServerLength(Some(expected))).1;
            let fetched = item_step(dir, object, file_type, options, ItemStage::AwaitArchive, ItemEvent::ArchivePresent(false)).1;
            let refetched = item_step(
                dir, object, file_type, options, ItemStage::AwaitArchiveSize { expected }, ItemEvent::ArchiveSize(actual)).1;
            let extracted = item_step(dir, object, file_type, options, ItemStage::AwaitDownload, ItemEvent::Downloaded).1;
            &&& checked is CheckArchive
            &&& measured is MeasureArchive
            &&& fetched is Download
            &&& refetched is Download
            &&& extracted is Extract
            &&& measured->MeasureArchive_path == checked->CheckArchive_path
            &&& fetched->Download_path == checked->CheckArchive_path
            &&& refetched->Download_path == checked->CheckArchive_path
            &&& extracted->Extract_archive == checked->CheckArchive_path
            &&& extracted->Extract_output_dir == dir
            &&& (dir.len() > 0 && dir.last() != '/' && !(object.len() > 0 && object[0] == '/') ==>
                checked->CheckArchive_path == dir + seq!['/'] + object + seq!['_'] + file_type + seq!['.', 't', 'g', 'z'])
        }),
{
    reveal_strlit("_");
    reveal_strlit(".tgz");
    let name = object + "_"@ + file_type + ".tgz"@;
    if dir.len() > 0 && dir.last() != '/' && !(object.len() > 0 && object[0] == '/') {
        if name.len() > 0 {
            if object.len() > 0 {
                assert(name[0] == object[0]);
            } else {
                assert(name[0] == '_');
            }
        }
        assert(join(dir, name) =~= dir + seq!['/'] + object + seq!['_'] + file_type + seq!['.', 't', 'g', 'z']);
    }
}

} // verus!

//! The decisions of the command-line tool: naming subsets, choosing what a
//! `download`, `validate` or `list` command does, and summarising a validation.

use vstd::prelude::*;
use vstd::string::*;
use crate::catalog::{get_subset_objects, string_views, subset_objects, Subset};
use crate::download::DownloadOptions;
use crate::validate::ObjectValidation;

verus! {

/// The human-readable name of a subset.
pub open spec fn display_name(subset: Subset) -> Seq<char> {
    match subset {
        Subset::Representative => "representative (3 objects)"@,
        Subset::TbpStandard => "TBP standard 10-object benchmark"@,
        Subset::TbpSimilar => "TBP similar 10-object benchmark"@,
        Subset::All => "full dataset (~77 objects)"@,
    }
}

/// The command-line spelling of a subset.
pub open spec fn cli_name(subset: Subset) -> Seq<char> {
    match subset {
        Subset::Representative => "representative"@,
        Subset::TbpStandard => "tbp-standard"@,
        Subset::TbpSimilar => "tbp-similar"@,
        Subset::All => "all"@,
    }
}

/// The human-readable name of a subset.
pub fn subset_display_name(subset: Subset) -> (r: &'static str)
    ensures
        r@ == display_name(subset),
{
    match subset {
        Subset::Representative => "representative (3 objects)",
        Subset::TbpStandard => "TBP standard 10-object benchmark",
        Subset::TbpSimilar => "TBP similar 10-object benchmark",
        Subset::All => "full dataset (~77 objects)",
    }
}

/// The command-line spelling of a subset.
pub fn subset_cli_name(subset: Subset) -> (r: &'static str)
    ensures
        r@ == cli_name(subset),
{
    match subset {
        Subset::Representative => "representative",
        Subset::TbpStandard => "tbp-standard",
        Subset::TbpSimilar => "tbp-similar",
        Subset::All => "all",
    }
}

/// What a `download` command fetches.
pub enum LocalDownload {
    /// The objects named on the command line.
    Objects(Vec<String>),
    /// A preset subset.
    Subset(Subset),
}

/// Decides what a `download` command fetches and with which options: the
/// named objects if any were given, else the chosen subset (TBP standard by
/// default); the options are the defaults with `overwrite`, `full` and
/// `concurrency` taken from the command line.
pub fn plan_local_download(
    objects: Vec<String>,
    subset: Option<Subset>,
    overwrite: bool,
    full: bool,
    concurrency: usize,
) -> (r: (LocalDownload, DownloadOptions))
    ensures
        objects@.len() > 0 ==> (r.0 matches LocalDownload::Objects(v) && v@ == objects@),
        objects@.len() == 0 ==> (r.0 matches LocalDownload::Subset(s) && s == match subset {
            Some(s) => s,
            None => Subset::TbpStandard,
        }),
        r.1.overwrite == overwrite,
        r.1.full == full,
        r.1.concurrency == concurrency,
        r.1.show_progress,
        r.1.delete_archives,
        r.1.verify_integrity,
{
    let mut options = DownloadOptions::default();
    options.overwrite = overwrite;
    options.full = full;
    options.concurrency = concurrency;
    if objects.len() > 0 {
        return (LocalDownload::Objects(objects), options);
    }
    let chosen = match subset {
        Some(s) => s,
        None => Subset::TbpStandard,
    };
    (LocalDownload::Subset(chosen), options)
}

/// What a `list` command shows.
pub enum ListPlan {
    /// Fetch the full object list from the remote index.
    FetchAll,
    /// Show this fixed list.
    Show(Vec<String>),
    /// The list needs the remote index, which was not asked for.
    NeedFetch,
}

/// Decides what a `list` command shows: the remote index when asked to fetch
/// or for `all`, the subset's fixed list otherwise.
pub fn plan_list(subset: Subset, fetch: bool) -> (r: ListPlan)
    ensures
        (fetch || subset is All) <==> r is FetchAll,
        r matches ListPlan::Show(v) ==> Some(string_views(v@)) == subset_objects(subset),
        !(r is NeedFetch),
{
    if fetch {
        return ListPlan::FetchAll;
    }
    match get_subset_objects(subset) {
        Some(list) => ListPlan::Show(list),
        None => ListPlan::FetchAll,
    }
}

/// A `validate` command was asked to check every object, whose list it does not have.
#[derive(Clone, Copy, Debug, PartialEq, Eq, Structural)]
pub struct NoFullList;

impl NoFullList {
    /// The message describing the refusal.
    pub fn message(&self) -> (r: &'static str)
        ensures
            r@ == "Cannot validate 'all' without a full object list.\nUse --subset tbp-standard or tbp-similar."@,
    {
        "Cannot validate 'all' without a full object list.\nUse --subset tbp-standard or tbp-similar."
    }
}

/// The objects a `validate` command checks: the subset's fixed list; `all` is refused.
pub fn validation_targets(subset: Subset) -> (r: Result<Vec<String>, NoFullList>)
    ensures
        r is Err <==> subset is All,
        r matches Ok(v) ==> Some(string_views(v@)) == subset_objects(subset),
{
    match get_subset_objects(subset) {
        Some(list) => Ok(list),
        None => Err(NoFullList),
    }
}

/// How one validated object is reported.
#[derive(Clone, Copy, Debug, PartialEq, Eq, Structural)]
pub enum ObjectStatus {
    /// Mesh and texture are present.
    Complete,
    /// The mesh is present but the texture is missing.
    TextureMissing,
    /// The mesh is missing.
    Missing,
}

/// How a validated object is reported.
pub open spec fn status_of(v: ObjectValidation) -> ObjectStatus {
    if v.mesh_present && v.texture_present {
        ObjectStatus::Complete
    } else if v.mesh_present {
        ObjectStatus::TextureMissing
    } else {
        ObjectStatus::Missing
    }
}

/// Whether a validated object is complete.
pub open spec fn complete(v: ObjectValidation) -> bool {
    v.mesh_present && v.texture_present
}

/// The number of complete objects.
pub open spec fn present_count(rs: Seq<ObjectValidation>) -> nat
    decreases rs.len(),
{
    if rs.len() == 0 {
        0
    } else {
        present_count(rs.drop_last()) + if complete(rs.last()) { 1nat } else { 0nat }
    }
}

/// The names of the incomplete objects, in order.
pub open spec fn missing_names(rs: Seq<ObjectValidation>) -> Seq<Seq<char>>
    decreases rs.len(),
{
    if rs.len() == 0 {
        seq![]
    } else if complete(rs.last()) {
        missing_names(rs.drop_last())
    } else {
        missing_names(rs.drop_last()).push(rs.last().name@)
    }
}

/// The report of a validation run.
pub struct ValidationSummary {
    /// How each object is reported, in order.
    pub statuses: Vec<ObjectStatus>,
    /// How many objects are complete.
    pub present: usize,
    /// The names of the incomplete objects, in order.
    pub missing: Vec<String>,
}

/// Summarises validation results: each object's status, the number of
/// complete objects and the names of the others.
pub fn summarize_validation(results: &[ObjectValidation]) -> (r: ValidationSummary)
    ensures
        r.statuses@.len() == results@.len(),
        forall|i: int| 0 <= i < results@.len() ==> #[trigger] r.statuses@[i] == status_of(results@[i]),
        r.present == present_count(results@),
        string_views(r.missing@) == missing_names(results@),
{
    let mut statuses: Vec<ObjectStatus> = Vec::new();
    let mut present: usize = 0;
    let mut missing: Vec<String> = Vec::new();
    let n = results.len();
    for i in 0..n
        invariant
            n == results@.len(),
            statuses@.len() == i,
            forall|j: int| 0 <= j < i ==> #[trigger] statuses@[j] == status_of(results@[j]),
            present == present_count(results@.take(i as int)),
            present <= i,
            string_views(missing@) == missing_names(results@.take(i as int)),
    {
        let r = &results[i];
        assert(results@.take(i + 1).drop_last() =~= results@.take(i as int));
        if r.mesh_present && r.texture_present {
            statuses.push(ObjectStatus::Complete);
            present = present + 1;
        } else {
            if r.mesh_present {
                statuses.push(ObjectStatus::TextureMissing);
            } else {
                statuses.push(ObjectStatus::Missing);
            }
            missing.push(r.name.clone());
            assert(string_views(missing@) =~= missing_names(results@.take(i as int)).push(r.name@));
        }
    }
    assert(results@.take(n as int) =~= results@);
    ValidationSummary { statuses, present, missing }
}

/// Every validated object is either counted as present or named as missing.
pub proof fn lemma_validation_partition(rs: Seq<ObjectValidation>)
    ensures
        present_count(rs) + missing_names(rs).len() == rs.len(),
    decreases rs.len(),
{
    if rs.len() > 0 {
        lemma_validation_partition(rs.drop_last());
    }
}

/// Names joined with a separator between consecutive names.
pub open spec fn joined(names: Seq<Seq<char>>, sep: Seq<char>) -> Seq<char>
    decreases names.len(),
{
    if names.len() == 0 {
        seq![]
    } else if names.len() == 1 {
        names[0]
    } else {
        joined(names.drop_last(), sep) + sep + names.last()
    }
}

/// Joins names with `sep` between consecutive names.
pub fn join_names(names: &[String], sep: &str) -> (r: String)
    ensures
        r@ == joined(string_views(names@), sep@),
{
    let mut out = String::new();
    let n = names.len();
    let ghost views = string_views(names@);
    for i in 0..n
        invariant
            n == names@.len(),
            views == string_views(names@),
            out@ == joined(views.take(i as int), sep@),
    {
        assert(views.take(i + 1).drop_last() =~= views.take(i as int));
        if i > 0 {
            out.append(sep);
        } else {
            assert(out@ =~= seq![]);
        }
        out.append(names[i].as_str());
        assert(out@ =~= joined(views.take(i + 1), sep@));
    }
    assert(views.take(n as int) =~= views);
    out
}

/// The command that downloads the missing objects into `output_dir`.
pub fn download_hint(output_dir: &str, missing: &[String]) -> (r: String)
    ensures
        r@ == "  ycbust download --output-dir "@ + output_dir@ + " --objects "@ + joined(string_views(missing@), " "@),
{
    let mut hint = String::from_str("  ycbust download --output-dir ");
    hint.append(output_dir);
    hint.append(" --objects ");
    let names = join_names(missing, " ");
    hint.append(names.as_str());
    hint
}

} // verus!

//! # ycbust
//!
//! The verified core of a downloader for the YCB (Yale-CMU-Berkeley) Object
//! and Model Set: the catalogue of subsets and archive URLs, the on-disk
//! layout, the decisions of the download pipeline, the screening of archive
//! entries, S3 destinations, and the validation of what was downloaded.
//!
//! Network and file-system work is left to the caller, which performs the
//! actions these functions decide on and reports back what happened.

pub mod catalog;
pub mod cli;
pub mod download;
pub mod paths;
pub mod s3;
pub mod text;
pub mod validate;

pub use catalog::{
    get_subset_objects, get_tgz_url, Subset, BASE_URL, GOOGLE_16K_MESH_RELATIVE,
    GOOGLE_16K_TEXTURE_RELATIVE, OBJECTS_URL, REPRESENTATIVE_OBJECTS, TBP_SIMILAR_OBJECTS,
    TBP_STANDARD_OBJECTS,
};
pub use download::{
    check_status, plan_download, start_item, status_is_success, step_item, DownloadOptions,
    DownloadPlan, HttpStatusError, ItemAction, ItemEvent, ItemFailure, ItemStage, WorkItem,
};
pub use paths::{object_mesh_path, object_texture_path};
pub use validate::{validate_objects, validation_probes, ObjectValidation};

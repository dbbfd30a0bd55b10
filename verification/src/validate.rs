//! Checking which downloaded objects are complete on disk.
//!
//! The caller probes the file system for the paths listed by
//! [`validation_probes`] and hands the answers to [`validate_objects`].

use vstd::prelude::*;
use vstd::string::*;
use crate::paths::{mesh_path, object_mesh_path, object_texture_path, texture_path};

verus! {

/// Result of validating a single object.
#[derive(Debug, Clone)]
pub struct ObjectValidation {
    /// Object name (e.g. "006_mustard_bottle")
    pub name: String,
    /// Whether the mesh file exists
    pub mesh_present: bool,
    /// Whether the texture file exists
    pub texture_present: bool,
}

impl ObjectValidation {
    /// Returns `true` if the object is fully present (mesh + texture).
    pub fn is_complete(&self) -> (r: bool)
        ensures
            r == (self.mesh_present && self.texture_present),
    {
        self.mesh_present && self.texture_present
    }
}

/// The files whose presence makes each object complete: its mesh and its texture.
pub fn validation_probes(ycb_dir: &str, objects: &[&str]) -> (r: Vec<(String, String)>)
    ensures
        r@.len() == objects@.len(),
        forall|i: int| 0 <= i < objects@.len() ==> {
            &&& (#[trigger] r@[i]).0@ == mesh_path(ycb_dir@, objects@[i]@)
            &&& r@[i].1@ == texture_path(ycb_dir@, objects@[i]@)
        },
{
    let mut probes: Vec<(String, String)> = Vec::new();
    let n = objects.len();
    for i in 0..n
        invariant
            n == objects@.len(),
            probes@.len() == i,
            forall|j: int| 0 <= j < i ==> {
                &&& (#[trigger] probes@[j]).0@ == mesh_path(ycb_dir@, objects@[j]@)
                &&& probes@[j].1@ == texture_path(ycb_dir@, objects@[j]@)
            },
    {
        let name = objects[i];
        probes.push((object_mesh_path(ycb_dir, name), object_texture_path(ycb_dir, name)));
    }
    probes
}

/// Validates objects given whether each one's mesh and texture exist
/// (`presence[i]` answers the probes of `objects[i]`).
pub fn validate_objects(objects: &[&str], presence: &[(bool, bool)]) -> (r: Vec<ObjectValidation>)
    requires
        presence@.len() == objects@.len(),
    ensures
        r@.len() == objects@.len(),
        forall|i: int| 0 <= i < objects@.len() ==> {
            &&& (#[trigger] r@[i]).name@ == objects@[i]@
            &&& r@[i].mesh_present == presence@[i].0
            &&& r@[i].texture_present == presence@[i].1
        },
{
    let mut results: Vec<ObjectValidation> = Vec::new();
    let n = objects.len();
    for i in 0..n
        invariant
            n == objects@.len(),
            presence@.len() == n,
            results@.len() == i,
            forall|j: int| 0 <= j < i ==> {
                &&& (#[trigger] results@[j]).name@ == objects@[j]@
                &&& results@[j].mesh_present == presence@[j].0
                &&& results@[j].texture_present == presence@[j].1
            },
    {
        let (mesh_present, texture_present) = presence[i];
        results.push(ObjectValidation { name: objects[i].to_owned(), mesh_present, texture_present });
    }
    results
}

} // verus!

//! The YCB catalogue: where archives live and which objects form each subset.

use vstd::prelude::*;
use vstd::string::*;
use crate::text::same_text;

verus! {

/// Base URL for the YCB dataset on S3.
pub const BASE_URL: &'static str = "https://ycb-benchmarks.s3.amazonaws.com/data/";

/// URL for the objects index JSON file.
pub const OBJECTS_URL: &'static str = "https://ycb-benchmarks.s3.amazonaws.com/data/objects.json";

/// Relative path from a per-object directory to the `google_16k` mesh file.
pub const GOOGLE_16K_MESH_RELATIVE: &'static str = "google_16k/textured.obj";

/// Relative path from a per-object directory to the `google_16k` texture file.
pub const GOOGLE_16K_TEXTURE_RELATIVE: &'static str = "google_16k/texture_map.png";

/// The file type whose extracted mesh marks an object as present on disk.
pub const GOOGLE_16K: &'static str = "google_16k";

/// The extra file type fetched by a full download.
pub const BERKELEY_PROCESSED: &'static str = "berkeley_processed";

/// Representative subset of 3 commonly used objects.
pub const REPRESENTATIVE_OBJECTS: [&'static str; 3] = [
    "003_cracker_box",
    "004_sugar_box",
    "005_tomato_soup_can",
];

/// TBP standard 10-object benchmark set (distinct objects).
///
/// The canonical object set used by the Thousand Brains Project for their
/// standard accuracy benchmark, chosen for geometric and color diversity.
pub const TBP_STANDARD_OBJECTS: [&'static str; 10] = [
    "025_mug",
    "024_bowl",
    "010_potted_meat_can",
    "031_spoon",
    "012_strawberry",
    "006_mustard_bottle",
    "062_dice",
    "058_golf_ball",
    "073-c_lego_duplo",
    "011_banana",
];

/// TBP similar 10-object benchmark set (harder: similar geometry).
pub const TBP_SIMILAR_OBJECTS: [&'static str; 10] = [
    "003_cracker_box",
    "004_sugar_box",
    "009_gelatin_box",
    "021_bleach_cleanser",
    "036_wood_block",
    "039_key",
    "040_large_marker",
    "051_large_clamp",
    "052_extra_large_clamp",
    "061_foam_brick",
];

/// Subset of objects to download.
#[derive(Copy, Clone, PartialEq, Eq, Structural, PartialOrd, Ord, Debug)]
pub enum Subset {
    /// 3 representative objects (default).
    Representative,
    /// TBP standard 10-object benchmark set (distinct objects).
    TbpStandard,
    /// TBP similar 10-object benchmark set (harder discrimination).
    TbpSimilar,
    /// All available objects (~77), known only from the remote index.
    All,
}

impl Default for Subset {
    fn default() -> (s: Self)
        ensures
            s == Subset::Representative,
    {
        Subset::Representative
    }
}

/// The characters of each name in a list of string slices.
pub open spec fn name_views(names: Seq<&str>) -> Seq<Seq<char>> {
    names.map_values(|s: &str| s@)
}

/// The characters of each name in a list of owned strings.
pub open spec fn string_views(names: Seq<String>) -> Seq<Seq<char>> {
    names.map_values(|s: String| s@)
}

/// The fixed object list of a subset; `None` for `All`, whose list lives in the remote index.
pub open spec fn subset_objects(subset: Subset) -> Option<Seq<Seq<char>>> {
    match subset {
        Subset::Representative => Some(name_views(REPRESENTATIVE_OBJECTS@)),
        Subset::TbpStandard => Some(name_views(TBP_STANDARD_OBJECTS@)),
        Subset::TbpSimilar => Some(name_views(TBP_SIMILAR_OBJECTS@)),
        Subset::All => None,
    }
}

/// Copies a list of names into owned strings.
pub fn to_owned_names(names: &[&str]) -> (r: Vec<String>)
    ensures
        string_views(r@) == name_views(names@),
{
    let mut out: Vec<String> = Vec::new();
    let n = names.len();
    for i in 0..n
        invariant
            n == names@.len(),
            out@.len() == i,
            forall|j: int| 0 <= j < i ==> #[trigger] out@[j]@ == names@[j]@,
    {
        out.push(names[i].to_owned());
    }
    assert(string_views(out@) =~= name_views(names@));
    out
}

/// Returns the list of objects for a given subset without fetching from the network.
///
/// For `Subset::All` this returns `None`, since the full list requires a network fetch.
pub fn get_subset_objects(subset: Subset) -> (r: Option<Vec<String>>)
    ensures
        r is None <==> subset_objects(subset) is None,
        r matches Some(v) ==> Some(string_views(v@)) == subset_objects(subset),
{
    match subset {
        Subset::Representative => Some(to_owned_names(REPRESENTATIVE_OBJECTS.as_slice())),
        Subset::TbpStandard => Some(to_owned_names(TBP_STANDARD_OBJECTS.as_slice())),
        Subset::TbpSimilar => Some(to_owned_names(TBP_SIMILAR_OBJECTS.as_slice())),
        Subset::All => None,
    }
}

/// The archive URL of an object's file type.
pub open spec fn tgz_url(object: Seq<char>, file_type: Seq<char>) -> Seq<char> {
    if file_type == "berkeley_rgbd"@ || file_type == "berkeley_rgb_highres"@ {
        BASE_URL@ + "berkeley/"@ + object + "/"@ + object + "_"@ + file_type + ".tgz"@
    } else if file_type == BERKELEY_PROCESSED@ {
        BASE_URL@ + "berkeley/"@ + object + "/"@ + object + "_berkeley_meshes.tgz"@
    } else {
        BASE_URL@ + "google/"@ + object + "_"@ + file_type + ".tgz"@
    }
}

/// Constructs the download URL for a specific object and file type.
///
/// Berkeley RGB-D and high-resolution RGB archives live under
/// `berkeley/<object>/`, the processed Berkeley meshes under the name
/// `<object>_berkeley_meshes.tgz`, and every other file type under `google/`.
pub fn get_tgz_url(object: &str, file_type: &str) -> (r: String)
    ensures
        r@ == tgz_url(object@, file_type@),
{
    let mut url = String::from_str(BASE_URL);
    if same_text(file_type, "berkeley_rgbd") || same_text(file_type, "berkeley_rgb_highres") {
        url.append("berkeley/");
        url.append(object);
        url.append("/");
        url.append(object);
        url.append("_");
        url.append(file_type);
        url.append(".tgz");
    } else if same_text(file_type, BERKELEY_PROCESSED) {
        url.append("berkeley/");
        url.append(object);
        url.append("/");
        url.append(object);
        url.append("_berkeley_meshes.tgz");
    } else {
        url.append("google/");
        url.append(object);
        url.append("_");
        url.append(file_type);
        url.append(".tgz");
    }
    url
}


/// Whether a file type's archives live under `berkeley/`.
pub open spec fn is_berkeley_type(file_type: Seq<char>) -> bool {
    file_type == "berkeley_rgbd"@ || file_type == "berkeley_rgb_highres"@ || file_type == BERKELEY_PROCESSED@
}

/// An archive URL starts with the dataset's base URL, then `google/` or
/// `berkeley/`, then the object name exactly as given (whatever characters
/// it holds); it ends in `.tgz`; and two objects share a URL for a file type
/// only if they are the same object.
pub proof fn lemma_url_names_object(object: Seq<char>, other: Seq<char>, file_type: Seq<char>)
    ensures
        ({
            let url = tgz_url(object, file_type);
            let base = BASE_URL@.len() as int;
            let dir: Seq<char> = if is_berkeley_type(file_type) { "berkeley/"@ } else { "google/"@ };
            let start = base + dir.len();
            &&& url.subrange(0, base) == BASE_URL@
            &&& url.subrange(base, start) == dir
            &&& url.subrange(start, start + object.len()) == object
            &&& url.len() >= 4 && url.subrange(url.len() - 4, url.len() as int) == ".tgz"@
            &&& (tgz_url(other, file_type) == url ==> other == object)
        }),
{
    reveal_strlit("berkeley/");
    reveal_strlit("google/");
    reveal_strlit("/");
    reveal_strlit("_");
    reveal_strlit(".tgz");
    reveal_strlit("_berkeley_meshes.tgz");
    let url = tgz_url(object, file_type);
    let url2 = tgz_url(other, file_type);
    let base = BASE_URL@.len() as int;
    let dir: Seq<char> = if is_berkeley_type(file_type) { "berkeley/"@ } else { "google/"@ };
    let start = base + dir.len();
    if file_type == "berkeley_rgbd"@ || file_type == "berkeley_rgb_highres"@ {
        assert(url =~= BASE_URL@ + "berkeley/"@ + object + "/"@ + object + "_"@ + file_type + ".tgz"@);
        assert(url.subrange(0, base) =~= BASE_URL@);
        assert(url.subrange(base, start) =~= dir);
        assert(url.subrange(start, start + object.len()) =~= object);
        assert(url.subrange(url.len() - 4, url.len() as int) =~= ".tgz"@);
        if url2 == url {
            assert(url2 =~= BASE_URL@ + "berkeley/"@ + other + "/"@ + other + "_"@ + file_type + ".tgz"@);
            assert(other.len() == object.len());
            assert(url2.subrange(start, start + other.len()) =~= other);
        }
    } else if file_type == BERKELEY_PROCESSED@ {
        assert(url =~= BASE_URL@ + "berkeley/"@ + object + "/"@ + object + "_berkeley_meshes.tgz"@);
        assert(url.subrange(0, base) =~= BASE_URL@);
        assert(url.subrange(base, start) =~= dir);
        assert(url.subrange(start, start + object.len()) =~= object);
        assert(url.subrange(url.len() - 4, url.len() as int) =~= ".tgz"@);
        if url2 == url {
            assert(url2 =~= BASE_URL@ + "berkeley/"@ + other + "/"@ + other + "_berkeley_meshes.tgz"@);
            assert(other.len() == object.len());
            assert(url2.subrange(start, start + other.len()) =~= other);
        }
    } else {
        assert(url =~= BASE_URL@ + "google/"@ + object + "_"@ + file_type + ".tgz"@);
        assert(url.subrange(0, base) =~= BASE_URL@);
        assert(url.subrange(base, start) =~= dir);
        assert(url.subrange(start, start + object.len()) =~= object);
        assert(url.subrange(url.len() - 4, url.len() as int) =~= ".tgz"@);
        if url2 == url {
            assert(url2 =~= BASE_URL@ + "google/"@ + other + "_"@ + file_type + ".tgz"@);
            assert(other.len() == object.len());
            assert(url2.subrange(start, start + other.len()) =~= other);
        }
    }
}

} // verus!

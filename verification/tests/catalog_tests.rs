use std::path::Path;

use ycbust::{
    get_subset_objects, get_tgz_url, object_mesh_path, object_texture_path, DownloadOptions,
    Subset, GOOGLE_16K_MESH_RELATIVE, GOOGLE_16K_TEXTURE_RELATIVE, REPRESENTATIVE_OBJECTS,
    TBP_SIMILAR_OBJECTS, TBP_STANDARD_OBJECTS,
};

#[test]
fn test_get_tgz_url_google_16k() {
    let url = get_tgz_url("003_cracker_box", "google_16k");
    assert_eq!(
        url,
        "https://ycb-benchmarks.s3.amazonaws.com/data/google/003_cracker_box_google_16k.tgz"
    );
}

#[test]
fn test_get_tgz_url_berkeley_processed() {
    let url = get_tgz_url("003_cracker_box", "berkeley_processed");
    assert_eq!(
        url,
        "https://ycb-benchmarks.s3.amazonaws.com/data/berkeley/003_cracker_box/003_cracker_box_berkeley_meshes.tgz"
    );
}

#[test]
fn test_get_tgz_url_berkeley_rgbd() {
    let url = get_tgz_url("003_cracker_box", "berkeley_rgbd");
    assert_eq!(
        url,
        "https://ycb-benchmarks.s3.amazonaws.com/data/berkeley/003_cracker_box/003_cracker_box_berkeley_rgbd.tgz"
    );
}

#[test]
fn test_get_tgz_url_berkeley_rgb_highres() {
    let url = get_tgz_url("003_cracker_box", "berkeley_rgb_highres");
    assert_eq!(
        url,
        "https://ycb-benchmarks.s3.amazonaws.com/data/berkeley/003_cracker_box/003_cracker_box_berkeley_rgb_highres.tgz"
    );
}

#[test]
fn test_get_tgz_url_different_objects() {
    let url1 = get_tgz_url("004_sugar_box", "google_16k");
    assert!(url1.contains("004_sugar_box"));

    let url2 = get_tgz_url("005_tomato_soup_can", "google_16k");
    assert!(url2.contains("005_tomato_soup_can"));
}

#[test]
fn test_subset_default() {
    let subset = Subset::default();
    assert_eq!(subset, Subset::Representative);
}

#[test]
fn test_download_options_default() {
    let options = DownloadOptions::default();
    assert!(!options.overwrite);
    assert!(!options.full);
    assert!(options.show_progress);
    assert!(options.delete_archives);
    assert_eq!(options.concurrency, 1);
    assert!(options.verify_integrity);
}

#[test]
fn test_get_subset_objects_representative() {
    let objects = get_subset_objects(Subset::Representative);
    assert_eq!(objects.unwrap().len(), 3);
}

#[test]
fn test_get_subset_objects_tbp_standard() {
    let objects = get_subset_objects(Subset::TbpStandard);
    assert_eq!(objects.unwrap().len(), 10);
}

#[test]
fn test_get_subset_objects_tbp_similar() {
    let objects = get_subset_objects(Subset::TbpSimilar);
    assert_eq!(objects.unwrap().len(), 10);
}

#[test]
fn test_get_subset_objects_all() {
    let objects = get_subset_objects(Subset::All);
    assert!(objects.is_none());
}

#[test]
fn test_path_consts_compose_with_object_helpers() {
    let root = Path::new("ycb-root");
    let object = "006_mustard_bottle";

    assert_eq!(
        Path::new(&object_mesh_path("ycb-root", object)),
        root.join(object).join(GOOGLE_16K_MESH_RELATIVE)
    );
    assert_eq!(
        Path::new(&object_texture_path("ycb-root", object)),
        root.join(object).join(GOOGLE_16K_TEXTURE_RELATIVE)
    );
}

#[test]
fn test_path_consts_have_expected_values() {
    assert_eq!(GOOGLE_16K_MESH_RELATIVE, "google_16k/textured.obj");
    assert_eq!(GOOGLE_16K_TEXTURE_RELATIVE, "google_16k/texture_map.png");
}

#[test]
fn contract_google_16k_const_literal_values() {
    assert_eq!(GOOGLE_16K_MESH_RELATIVE, "google_16k/textured.obj");
    assert_eq!(GOOGLE_16K_TEXTURE_RELATIVE, "google_16k/texture_map.png");
}

#[test]
fn contract_path_const_compose_matches_helpers() {
    let root = Path::new("ycb-root");
    let id = "006_mustard_bottle";
    let object_dir = root.join(id);

    assert_eq!(
        object_dir.join(GOOGLE_16K_MESH_RELATIVE),
        Path::new(&object_mesh_path("ycb-root", id))
    );
    assert_eq!(
        object_dir.join(GOOGLE_16K_TEXTURE_RELATIVE),
        Path::new(&object_texture_path("ycb-root", id))
    );
}

#[test]
fn contract_representative_objects_exact_content() {
    assert_eq!(
        REPRESENTATIVE_OBJECTS,
        ["003_cracker_box", "004_sugar_box", "005_tomato_soup_can"]
    );
}

#[test]
fn contract_tbp_standard_set_canonical_entries() {
    assert_eq!(TBP_STANDARD_OBJECTS.len(), 10);
    assert!(TBP_STANDARD_OBJECTS.contains(&"025_mug"));
    assert!(TBP_STANDARD_OBJECTS.contains(&"011_banana"));
}

#[test]
fn contract_tbp_similar_set_canonical_entries() {
    assert_eq!(TBP_SIMILAR_OBJECTS.len(), 10);
    assert!(TBP_SIMILAR_OBJECTS.contains(&"003_cracker_box"));
    assert!(TBP_SIMILAR_OBJECTS.contains(&"051_large_clamp"));
}

#[test]
fn contract_subset_default_is_representative() {
    assert_eq!(Subset::default(), Subset::Representative);
}

#[test]
fn contract_download_options_default_field_values() {
    let o = DownloadOptions::default();
    assert!(!o.overwrite);
    assert!(!o.full);
    assert!(o.show_progress);
    assert!(o.delete_archives);
    assert_eq!(o.concurrency, 1);
    assert!(o.verify_integrity);
}

#[test]
fn contract_get_subset_objects_invariants() {
    assert!(get_subset_objects(Subset::All).is_none());

    let rep: Vec<String> = REPRESENTATIVE_OBJECTS
        .iter()
        .map(|s| s.to_string())
        .collect();
    assert_eq!(get_subset_objects(Subset::Representative), Some(rep));
}

#[test]
fn contract_get_tgz_url_google_16k_format() {
    assert_eq!(
        get_tgz_url("003_cracker_box", "google_16k"),
        "https://ycb-benchmarks.s3.amazonaws.com/data/google/003_cracker_box_google_16k.tgz"
    );
}

#[test]
fn contract_object_validation_shape() {
    let v = ycbust::ObjectValidation {
        name: "003_cracker_box".to_string(),
        mesh_present: true,
        texture_present: false,
    };
    assert_eq!(v.name, "003_cracker_box");
    assert!(v.mesh_present);
    assert!(!v.texture_present);
    assert!(!v.is_complete());
}

#[test]
fn subset_lists_hold_the_catalogue_in_order() {
    let standard = get_subset_objects(Subset::TbpStandard).unwrap();
    assert_eq!(standard[0], "025_mug");
    assert_eq!(standard[9], "011_banana");
    let similar = get_subset_objects(Subset::TbpSimilar).unwrap();
    assert_eq!(similar[0], "003_cracker_box");
    assert_eq!(similar[9], "061_foam_brick");
}

#[test]
fn tgz_url_for_unknown_file_type_goes_under_google() {
    assert_eq!(
        get_tgz_url("011_banana", "google_64k"),
        "https://ycb-benchmarks.s3.amazonaws.com/data/google/011_banana_google_64k.tgz"
    );
}

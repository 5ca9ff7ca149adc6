use hypercircuit::layout::{flip_side, namespaced_id, path_text, pcb_3d_model_format_from_uri};
use hypercircuit::materialize::side_process_role;
use hypercircuit::{
    BoardBoundaryGeometryError, BoardSide, LegacyCsgrsElectronicsImport,
    LegacyCsgrsElectronicsImportError, LegacyCsgrsElectronicsOmission, PlacementGroupId,
    Pcb3dModelFormat, ProcessLayerRole, ProductionTextEvidence, ProductionTextPolicy,
    SubcircuitInstanceId, LEGACY_CSGRS_ELECTRONICS_SCHEMA,
};

#[test]
fn flipping_a_side_twice_restores_it() {
    assert_eq!(flip_side(BoardSide::Front), BoardSide::Back);
    assert_eq!(flip_side(BoardSide::Back), BoardSide::Front);
    for side in [BoardSide::Front, BoardSide::Back] {
        assert_eq!(flip_side(flip_side(side)), side);
    }
}

#[test]
fn model_format_follows_extension_case_insensitively() {
    assert_eq!(pcb_3d_model_format_from_uri("pkg/R0603.STEP"), Pcb3dModelFormat::Step);
    assert_eq!(pcb_3d_model_format_from_uri("a.stp"), Pcb3dModelFormat::Step);
    assert_eq!(pcb_3d_model_format_from_uri("a.Obj"), Pcb3dModelFormat::WavefrontObj);
    assert_eq!(pcb_3d_model_format_from_uri("a.wrl"), Pcb3dModelFormat::Vrml);
    assert_eq!(pcb_3d_model_format_from_uri("a.VRML"), Pcb3dModelFormat::Vrml);
    assert_eq!(pcb_3d_model_format_from_uri("a.glb"), Pcb3dModelFormat::Gltf);
    assert_eq!(pcb_3d_model_format_from_uri("a.gltf"), Pcb3dModelFormat::Gltf);
    assert_eq!(pcb_3d_model_format_from_uri("a.stl"), Pcb3dModelFormat::Unspecified);
    assert_eq!(pcb_3d_model_format_from_uri(""), Pcb3dModelFormat::Unspecified);
}

#[test]
fn hierarchy_paths_join_with_slashes() {
    let path = vec![SubcircuitInstanceId::new("top"), SubcircuitInstanceId::new("psu")];
    assert_eq!(path_text(&path), "top/psu");
    assert_eq!(path_text(&path[..1]), "top");
    assert_eq!(path_text(&[]), "");
    let group: PlacementGroupId = namespaced_id("top/psu", "caps");
    assert_eq!(group.as_str(), "top/psu/caps");
}

#[test]
fn process_roles_per_side() {
    assert_eq!(side_process_role(BoardSide::Front, true), ProcessLayerRole::FrontSolderMask);
    assert_eq!(side_process_role(BoardSide::Back, true), ProcessLayerRole::BackSolderMask);
    assert_eq!(side_process_role(BoardSide::Front, false), ProcessLayerRole::FrontPaste);
    assert_eq!(side_process_role(BoardSide::Back, false), ProcessLayerRole::BackPaste);
}

#[test]
fn production_text_evidence_digests_font_bytes() {
    let policy = ProductionTextPolicy { font_name: "Mono".to_string(), font_data: b"abc".to_vec() };
    let evidence = ProductionTextEvidence::of_policy(&policy);
    assert_eq!(evidence.font_name, "Mono");
    assert_eq!(evidence.sha256, "ba7816bf8f01cfea414140de5dae2223b00361a396177a9cb410ff61f20015ad");
    let empty = ProductionTextPolicy { font_name: String::new(), font_data: vec![] };
    assert_eq!(
        ProductionTextEvidence::of_policy(&empty).sha256,
        "e3b0c44298fc1c149afbf4c8996fb92427ae41e4649b934ca495991b7852b855"
    );
}

#[test]
fn boundary_error_keeps_its_context() {
    let error = BoardBoundaryGeometryError::new("exterior is not closed".to_string());
    assert_eq!(error.message(), "exterior is not closed");
}

fn legacy(schema: &str, version: u32, omissions: Vec<LegacyCsgrsElectronicsOmission>) -> LegacyCsgrsElectronicsImport {
    LegacyCsgrsElectronicsImport {
        schema: schema.to_string(),
        version,
        source_handle: "h".to_string(),
        family_id: "f".to_string(),
        variant_id: "v".to_string(),
        package_aspects: vec![],
        electrical_aspects: vec![],
        terminal_claims: vec![],
        omissions,
    }
}

#[test]
fn legacy_review_is_owed_while_omissions_remain() {
    assert!(!legacy(LEGACY_CSGRS_ELECTRONICS_SCHEMA, 1, vec![]).requires_review());
    let pending = vec![LegacyCsgrsElectronicsOmission::DeviceModelRequiresAuthoring { aspect: "a".to_string() }];
    assert!(legacy(LEGACY_CSGRS_ELECTRONICS_SCHEMA, 1, pending).requires_review());
}

#[test]
fn legacy_revision_check() {
    let good = legacy(LEGACY_CSGRS_ELECTRONICS_SCHEMA, 1, vec![]);
    assert_eq!(good.clone().check_revision(), Ok(good));
    assert_eq!(
        legacy("other", 2, vec![]).check_revision(),
        Err(LegacyCsgrsElectronicsImportError::Schema("other".to_string()))
    );
    assert_eq!(
        legacy(LEGACY_CSGRS_ELECTRONICS_SCHEMA, 2, vec![]).check_revision(),
        Err(LegacyCsgrsElectronicsImportError::Version(2))
    );
}

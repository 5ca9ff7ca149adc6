//! Vocabulary of PCB geometry materialization: production-text evidence,
//! copper and process feature identities, 3D review evidence, and the
//! side-aware process-layer roles.

use vstd::prelude::*;

use crate::fingerprint::{hex_byte, push_hex_byte};
use crate::identity::{
    CircuitInstanceId, LandPatternGraphicId, LandPatternId, PadId, PinRef, RouteId, ViaId, ZoneId,
};
use crate::layout::{BoardSide, Pcb3dModelFormat, Plating};

verus! {

/// Reproducible caller-selected font policy for production artwork.
#[derive(Clone, Debug, PartialEq, Eq)]
pub struct ProductionTextPolicy {
    /// Stable human-readable font identity recorded in release evidence.
    pub font_name: String,
    /// Complete OpenType/TrueType font bytes used by the outline importer.
    pub font_data: Vec<u8>,
}

/// Digest evidence for the exact font bytes used during materialization.
#[derive(Clone, Debug, PartialEq, Eq)]
pub struct ProductionTextEvidence {
    /// Caller-declared font identity.
    pub font_name: String,
    /// Lowercase SHA-256 of the exact font bytes.
    pub sha256: String,
}

/// The SHA-256 digest of a byte string, as computed by `sha2`.
pub uninterp spec fn sha256_digest(bytes: Seq<u8>) -> Seq<u8>;

/// `sha2::Sha256::digest`: the SHA-256 digest of `bytes`, whose output size
/// is fixed at 32 bytes by the hasher's type.
#[verifier::external_body]
fn sha256(bytes: &[u8]) -> (digest: Vec<u8>)
    ensures
        digest@ == sha256_digest(bytes@),
        digest@.len() == 32,
{
    <sha2::Sha256 as sha2::Digest>::digest(bytes).to_vec()
}

/// Bytes spelled as lowercase hexadecimal, two digits each.
pub open spec fn hex_bytes(bytes: Seq<u8>) -> Seq<char>
    decreases bytes.len(),
{
    if bytes.len() == 0 {
        seq![]
    } else {
        hex_bytes(bytes.drop_last()) + hex_byte(bytes.last())
    }
}

/// Lowercase hexadecimal of a byte string.
pub fn hex_text(bytes: &[u8]) -> (text: String)
    ensures
        text@ == hex_bytes(bytes@),
{
    let mut text = String::new();
    let mut i: usize = 0;
    while i < bytes.len()
        invariant
            i <= bytes@.len(),
            text@ == hex_bytes(bytes@.take(i as int)),
        decreases bytes.len() - i,
    {
        push_hex_byte(&mut text, bytes[i]);
        proof {
            assert(bytes@.take(i + 1).drop_last() =~= bytes@.take(i as int));
        }
        i = i + 1;
    }
    proof {
        assert(bytes@.take(i as int) =~= bytes@);
    }
    text
}

impl ProductionTextEvidence {
    /// Release evidence of a font policy: its declared name and the
    /// lowercase hexadecimal SHA-256 of the exact font bytes.
    pub fn of_policy(policy: &ProductionTextPolicy) -> (evidence: Self)
        ensures
            evidence.font_name@ == policy.font_name@,
            evidence.sha256@ == hex_bytes(sha256_digest(policy.font_data@)),
            evidence.sha256@.len() == 64,
    {
        let digest = sha256(policy.font_data.as_slice());
        let sha = hex_text(digest.as_slice());
        proof {
            lemma_hex_bytes_len(digest@);
        }
        ProductionTextEvidence { font_name: policy.font_name.clone(), sha256: sha }
    }
}

proof fn lemma_hex_bytes_len(bytes: Seq<u8>)
    ensures
        hex_bytes(bytes).len() == 2 * bytes.len(),
    decreases bytes.len(),
{
    if bytes.len() > 0 {
        lemma_hex_bytes_len(bytes.drop_last());
    }
}

/// Audited finite projection used at an explicit geometry/output boundary.
#[derive(Clone, Debug, PartialEq, Eq)]
pub enum MaterializationProjection {
    /// Exact arc projected to a polyline before stroke materialization.
    CircularRoutePolyline {
        /// Stable semantic route source.
        source: String,
        /// Requested maximum chord error, retained as a deterministic decimal string.
        chord_error: String,
    },
    /// Exact cubic Bezier projected to a polyline before stroke materialization.
    CubicBezierRoutePolyline {
        /// Stable semantic route source.
        source: String,
        /// Requested maximum flatness/chord error as a deterministic decimal string.
        chord_error: String,
    },
    /// Exact board-contour cubic Bezier projected to bounded line segments for CAM.
    CubicBezierBoardContourPolyline {
        /// Stable semantic contour source (`board.exterior` or `board.cutout[n]`).
        source: String,
        /// Zero-based segment index within the retained contour.
        segment: usize,
        /// Requested maximum flatness/chord error as a deterministic decimal string.
        chord_error: String,
        /// Number of emitted linear interpolation segments.
        generated_segments: usize,
    },
}

/// Audited realization summary for one retained copper zone.
#[derive(Clone, Debug, PartialEq, Eq)]
pub struct ZoneMaterializationEvidence {
    /// Stable semantic zone source.
    pub source: String,
    /// Retained zone priority.
    pub priority: i32,
    /// `solid` or `hatched`.
    pub fill: String,
    /// `solid`, `isolated`, or `thermal-relief`.
    pub connection: String,
    /// Exact foreign-net clearance as retained display text.
    pub clearance: String,
    /// Foreign-net copper features cleared from this zone.
    pub cleared_foreign_features: usize,
    /// Same-net pads/vias receiving isolated or thermal treatment.
    pub treated_same_net_lands: usize,
    /// Thermal lands whose spoke termination used the profile bounding box.
    pub thermal_bounding_box_projections: usize,
    /// Authored keepouts subtracted from this zone.
    pub applied_keepouts: usize,
    /// Islands present after fill, clearance, and connection realization.
    pub initial_islands: usize,
    /// Islands retained after applying the authored cleanup policy.
    pub retained_islands: usize,
    /// Islands rejected because they did not intersect same-net copper.
    pub pruned_unconnected_islands: usize,
    /// Unconnected islands rejected because their exact filled area was below the threshold.
    pub pruned_below_area_islands: usize,
}

/// Source kind retained for one materialized copper feature.
#[derive(Clone, Copy, Debug, PartialEq, Eq, Structural)]
pub enum CopperFeatureKind {
    /// Component land-pattern pad.
    Pad,
    /// Routed trace chain.
    Route,
    /// Via land.
    Via,
    /// Copper-zone source boundary.
    Zone,
    /// Copper artwork retained by a reusable land pattern.
    Artwork,
}

/// Typed identity of one materialized copper feature, for circuit, DRC, and
/// manufacturing adapters that must not parse display strings.
#[derive(Clone, Debug, PartialEq, Eq, PartialOrd, Ord)]
pub enum MaterializedCopperIdentity {
    /// One physical pad belonging to a placed logical instance.
    Pad {
        /// Placed circuit instance.
        instance: CircuitInstanceId,
        /// Reusable land pattern.
        land_pattern: LandPatternId,
        /// Physical pad identity.
        pad: PadId,
        /// Logical pin mapped to the pad, when one is retained.
        pin: Option<PinRef>,
    },
    /// Authored route identity.
    Route(RouteId),
    /// Authored or deterministically generated via identity.
    Via(ViaId),
    /// Authored copper-zone identity.
    Zone(ZoneId),
    /// Copper artwork attached to a placed land pattern.
    Artwork {
        /// Placed circuit instance.
        instance: CircuitInstanceId,
        /// Reusable land pattern.
        land_pattern: LandPatternId,
        /// Land-pattern graphic identity.
        graphic: LandPatternGraphicId,
    },
}

/// Side-aware non-copper production image role.
#[derive(Clone, Copy, Debug, PartialEq, Eq, Hash, Structural)]
pub enum ProcessLayerRole {
    /// Front solder-mask opening image.
    FrontSolderMask,
    /// Back solder-mask opening image.
    BackSolderMask,
    /// Front stencil-paste aperture image.
    FrontPaste,
    /// Back stencil-paste aperture image.
    BackPaste,
    /// Front legend/silkscreen image.
    FrontSilkscreen,
    /// Back legend/silkscreen image.
    BackSilkscreen,
}

/// Mask (when `mask`) or paste image role of one board side.
pub open spec fn spec_side_process_role(side: BoardSide, mask: bool) -> ProcessLayerRole {
    match (side, mask) {
        (BoardSide::Front, true) => ProcessLayerRole::FrontSolderMask,
        (BoardSide::Back, true) => ProcessLayerRole::BackSolderMask,
        (BoardSide::Front, false) => ProcessLayerRole::FrontPaste,
        (BoardSide::Back, false) => ProcessLayerRole::BackPaste,
    }
}

/// Solder-mask or stencil-paste image role of one board side.
pub fn side_process_role(side: BoardSide, mask: bool) -> (role: ProcessLayerRole)
    ensures
        role == spec_side_process_role(side, mask),
{
    match (side, mask) {
        (BoardSide::Front, true) => ProcessLayerRole::FrontSolderMask,
        (BoardSide::Back, true) => ProcessLayerRole::BackSolderMask,
        (BoardSide::Front, false) => ProcessLayerRole::FrontPaste,
        (BoardSide::Back, false) => ProcessLayerRole::BackPaste,
    }
}

/// Semantic origin of one non-copper production feature.
#[derive(Clone, Copy, Debug, PartialEq, Eq, Structural)]
pub enum ProcessFeatureKind {
    /// Pad-derived solder-mask opening.
    PadMaskOpening,
    /// Pad-derived stencil-paste aperture.
    PadPasteAperture,
    /// Explicit via solder-mask opening.
    ViaMaskOpening,
    /// Explicit land-pattern artwork.
    Artwork,
}

/// Retained artwork or process intent not materialized into production geometry.
#[derive(Clone, Debug, PartialEq, Eq)]
pub enum ProcessMaterializationOmission {
    /// A stroked primitive omitted the required exact stroke width.
    MissingArtworkStroke { source: String },
    /// Text remains retained because no production-font policy was selected.
    TextArtwork { source: String },
    /// The selected production font could not produce geometry for non-whitespace text.
    TextFontRejected { source: String },
    /// Package-local edge-cut artwork was not merged with the authoritative board contour.
    PackageEdgeCuts { source: String },
    /// A custom layer has no declared production-file role.
    CustomArtworkLayer { source: String, layer: String },
    /// One or more vias have no retained mask-tenting/opening policy on an applicable surface.
    ViaMaskIntentUnavailable { count: usize },
    /// Legend geometry has not been clipped away from mask openings.
    SilkscreenNotClippedToMask,
}

/// Successful external-model resolution and parse evidence.
#[derive(Clone, Debug, PartialEq, Eq)]
pub struct Pcb3dModelResolutionEvidence {
    /// Logical placed instance.
    pub instance: CircuitInstanceId,
    /// Reusable land pattern supplying the reference.
    pub land_pattern: LandPatternId,
    /// Zero-based authored model record within the land pattern.
    pub model_index: usize,
    /// Stable source URI.
    pub uri: String,
    /// Explicit parsed source container.
    pub format: Pcb3dModelFormat,
    /// Lowercase SHA-256 of the exact resolved bytes.
    pub source_sha256: String,
    /// Triangle count after source-container triangulation.
    pub triangle_count: usize,
    /// Selected glTF scene index, or `None` for other source containers.
    pub source_scene_index: Option<usize>,
    /// Source mesh-node instances (or VRML shapes) visited.
    pub source_mesh_node_count: usize,
    /// Source triangle primitives (or VRML indexed face sets) flattened.
    pub source_primitive_count: usize,
    /// VRML line/point geometry omitted from the triangle mesh.
    pub ignored_non_mesh_geometry_count: usize,
    /// VRML polygons that could not form a surface.
    pub ignored_degenerate_polygon_count: usize,
    /// VRML triangles rejected by exact degeneracy checks.
    pub ignored_degenerate_triangle_count: usize,
}

/// Successfully applied semantic subtraction in one 3D preview layer.
#[derive(Clone, Debug, PartialEq, Eq)]
pub enum Pcb3dSubtractionKind {
    /// One retained round drill or routed slot.
    Drill {
        /// Stable pad/via drill source.
        source: String,
        /// Retained fabrication plating intent.
        plating: Plating,
    },
    /// One certified side-specific union of solder-mask openings.
    SolderMaskOpenings {
        /// Surface process image that supplied the opening geometry.
        role: ProcessLayerRole,
        /// Independently source-addressable features represented by the union.
        source_feature_count: usize,
    },
}

/// Evidence that a semantic tool image was subtracted from one physical layer.
#[derive(Clone, Debug, PartialEq, Eq)]
pub struct Pcb3dSubtractionEvidence {
    /// Authored stackup layer receiving the subtraction.
    pub layer: String,
    /// Exact semantic tool family and source.
    pub kind: Pcb3dSubtractionKind,
}

/// Deliberately unmodeled detail in a stackup preview assembly.
#[derive(Clone, Debug, PartialEq, Eq)]
pub enum Pcb3dAssemblyOmission {
    /// A copper union was unresolved, so no authoritative layer solid was made.
    BlockedCopperLayer { layer: u16, blocker: String },
    /// A declared conductor had no retained copper image.
    EmptyCopperLayer { layer: u16 },
    /// A retained drill/slot could not produce a certified planar cutter.
    InvalidDrillGeometry { source: String, detail: String },
    /// A valid drill/slot cutter could not be subtracted from one physical layer.
    DrillSubtractionFailed { source: String, layer: String, detail: String },
    /// An ordered solder-mask layer was not outside the conductor stack.
    SolderMaskSideIndeterminate(String),
    /// The required side-specific mask-opening union was already blocked.
    SolderMaskImageBlocked { layer: String, blocker: String },
    /// A decided mask-opening image could not be subtracted from its physical layer.
    SolderMaskSubtractionFailed { layer: String, detail: String },
    /// A custom physical layer used the board planform because no shape policy exists.
    CustomLayerUsesBoardPlanform(String),
    /// A declared package body outline could not produce material topology.
    InvalidComponentBody(String),
    /// An external package model was retained, but no resolver was supplied.
    ExternalPackageModelNotLoaded {
        /// Logical placed instance.
        instance: String,
        /// Zero-based authored model record.
        model_index: usize,
        /// Stable unresolved source URI.
        uri: String,
    },
    /// The resolver rejected or could not find the retained model URI.
    ExternalPackageModelResolutionFailed {
        /// Logical placed instance.
        instance: String,
        /// Zero-based authored model record.
        model_index: usize,
        /// Stable unresolved source URI.
        uri: String,
        /// Resolver-provided diagnostic.
        detail: String,
    },
    /// The source format is retained/exportable but has no native mesh loader.
    ExternalPackageModelFormatUnsupported {
        /// Logical placed instance.
        instance: String,
        /// Zero-based authored model record.
        model_index: usize,
        /// Stable unsupported source URI.
        uri: String,
        /// Explicit unsupported source container.
        format: Pcb3dModelFormat,
    },
    /// Resolved bytes were malformed for the declared source format.
    ExternalPackageModelParseFailed {
        /// Logical placed instance.
        instance: String,
        /// Zero-based authored model record.
        model_index: usize,
        /// Stable malformed source URI.
        uri: String,
        /// Native parser diagnostic.
        detail: String,
    },
}

/// Finite coordinate encoding used at the glTF review boundary.
#[derive(Clone, Copy, Debug, PartialEq, Eq, Structural)]
pub enum Pcb3dCoordinateEncoding {
    /// glTF 2.0 floating-point vertex attributes.
    Ieee754Binary32,
}

/// Failure to serialize an otherwise inspectable 3D review assembly.
#[derive(Clone, Debug, PartialEq, Eq)]
pub enum Pcb3dGltfError {
    /// No layer or component solid was available.
    EmptyAssembly,
    /// The geometry-format adapter rejected a named object or finite coordinate.
    Geometry(String),
}

/// Failure while lowering retained PCB intent into geometry.
#[derive(Clone, Debug, PartialEq, Eq)]
pub enum GeometryMaterializationError {
    /// Structural circuit or layout validation failed.
    InvalidSourceModel,
    /// Exact division required by a feature could not be represented.
    Arithmetic,
    /// A polygon failed to produce material topology.
    InvalidPolygon(String),
    /// Route centerline construction failed.
    InvalidRoute(String),
    /// Exact route outlining was uncertain or unsupported.
    RouteOutline(String),
    /// A profile boolean failed.
    Boolean(String),
    /// Exact zone-island classification or area comparison was indeterminate.
    ZoneIsland(String),
}

} // verus!

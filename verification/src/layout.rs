//! Declarative PCB layout vocabulary: board sides, plating, model formats,
//! routing directions, and the deterministic identities of composed layout
//! modules.

use vstd::prelude::*;
use vstd::string::StringExecFns;

use hyperreal::Real;

use crate::exact::{
    real_add, real_cos, real_cosine, real_difference, real_equal, real_from_i64, real_identical, real_mul, real_neg,
    real_negation, real_of_int, real_product, real_radians, real_sin, real_sine, real_sub, real_sum, real_to_radians,
};
use crate::identity::{
    BoardId, CircuitInstanceId, DifferentialPairId, EscapePolicyId, KeepoutId,
    LandPatternGraphicId, LandPatternId, LayoutModuleId, LengthTuningPatternId, NetClassId, NetId,
    PadId, PhaseTuningGroupId, PinRef, PlacementConstraintId, PlacementGroupId,
    RouteConstraintRegionId, RouteId, RouteRuleRegionId, SubcircuitInstanceId, ViaId, ViaStyleId,
    ZoneId,
};
use crate::text::{chars_of, ends_with_chars};

verus! {

/// Failure to construct or query the exact mixed-curve board boundary.
#[derive(Clone, Debug, PartialEq, Eq)]
pub struct BoardBoundaryGeometryError {
    context: String,
}

impl BoardBoundaryGeometryError {
    /// The failure described by `context`.
    pub fn new(context: String) -> (error: Self)
        ensures
            error.context() == context@,
    {
        BoardBoundaryGeometryError { context }
    }

    /// What failed, as written when the error was made.
    pub closed spec fn context(&self) -> Seq<char> {
        self.context@
    }

    /// The human-readable description of the failure.
    pub fn message(&self) -> (text: &str)
        ensures
            text@ == self.context(),
    {
        self.context.as_str()
    }
}

/// Board side used for component placement and generated documentation.
#[derive(Clone, Copy, Debug, PartialEq, Eq, Structural)]
pub enum BoardSide {
    /// Front/top surface.
    Front,
    /// Back/bottom surface.
    Back,
}

/// Fabrication intent for a drilled or routed hole.
#[derive(Clone, Copy, Debug, PartialEq, Eq, Structural)]
pub enum Plating {
    /// Hole wall is plated and electrically conductive.
    Plated,
    /// Hole is explicitly non-plated.
    NonPlated,
    /// Source did not retain plating intent.
    Unspecified,
}

/// Mapping from an electrical pin to one or more physical pads.
#[derive(Clone, Debug, PartialEq, Eq)]
pub struct PadPinMap {
    /// Logical package pin.
    pub pin: PinRef,
    /// Physical pad implementing that pin.
    pub pad: PadId,
}

/// Retained external package-model container.
#[derive(Clone, Copy, Debug, PartialEq, Eq, Structural)]
pub enum Pcb3dModelFormat {
    /// Legacy handle whose container was not declared.
    Unspecified,
    /// Wavefront OBJ triangle/polygon mesh.
    WavefrontObj,
    /// ISO 10303 STEP B-rep or assembly.
    Step,
    /// VRML/WRL scene.
    Vrml,
    /// glTF 2.0 scene.
    Gltf,
}

/// ASCII letters become lowercase; every other character is unchanged.
pub open spec fn lower_ascii(c: char) -> char {
    if 'A' <= c && c <= 'Z' {
        (((c as u32) + 32) as u8) as char
    } else {
        c
    }
}

/// `str::to_ascii_lowercase`.
pub open spec fn lowercase_ascii(s: Seq<char>) -> Seq<char> {
    Seq::new(s.len(), |i: int| lower_ascii(s[i]))
}

/// True when `s` ends with `suffix`.
pub open spec fn has_suffix(s: Seq<char>, suffix: Seq<char>) -> bool {
    suffix.len() <= s.len() && s.subrange(s.len() - suffix.len(), s.len() as int) == suffix
}

/// Model container named by the file extension of a URI, case-insensitively.
pub open spec fn spec_model_format(uri: Seq<char>) -> Pcb3dModelFormat {
    let lower = lowercase_ascii(uri);
    if has_suffix(lower, ".obj"@) {
        Pcb3dModelFormat::WavefrontObj
    } else if has_suffix(lower, ".step"@) || has_suffix(lower, ".stp"@) {
        Pcb3dModelFormat::Step
    } else if has_suffix(lower, ".wrl"@) || has_suffix(lower, ".vrml"@) {
        Pcb3dModelFormat::Vrml
    } else if has_suffix(lower, ".gltf"@) || has_suffix(lower, ".glb"@) {
        Pcb3dModelFormat::Gltf
    } else {
        Pcb3dModelFormat::Unspecified
    }
}

/// Whether the lowercased characters end with `suffix`.
fn lowered_ends_with(lower: &Vec<char>, suffix: &str) -> (found: bool)
    ensures
        found == has_suffix(lower@, suffix@),
{
    let suffix_chars = chars_of(suffix);
    ends_with_chars(lower, &suffix_chars)
}

/// Model container declared by a model URI's extension (see
/// [`spec_model_format`]).
pub fn pcb_3d_model_format_from_uri(uri: &str) -> (format: Pcb3dModelFormat)
    ensures
        format == spec_model_format(uri@),
{
    let chars = chars_of(uri);
    let mut lower: Vec<char> = Vec::new();
    let mut i: usize = 0;
    while i < chars.len()
        invariant
            i <= chars@.len(),
            chars@ == uri@,
            lower@ == lowercase_ascii(uri@).take(i as int),
        decreases chars.len() - i,
    {
        let c = chars[i];
        let l = if 'A' <= c && c <= 'Z' {
            (((c as u32) + 32) as u8) as char
        } else {
            c
        };
        lower.push(l);
        proof {
            assert(lowercase_ascii(uri@).take(i + 1) =~= lowercase_ascii(uri@).take(i as int).push(l));
        }
        i = i + 1;
    }
    proof {
        assert(lowercase_ascii(uri@).take(i as int) =~= lowercase_ascii(uri@));
    }
    if lowered_ends_with(&lower, ".obj") {
        Pcb3dModelFormat::WavefrontObj
    } else if lowered_ends_with(&lower, ".step") || lowered_ends_with(&lower, ".stp") {
        Pcb3dModelFormat::Step
    } else if lowered_ends_with(&lower, ".wrl") || lowered_ends_with(&lower, ".vrml") {
        Pcb3dModelFormat::Vrml
    } else if lowered_ends_with(&lower, ".gltf") || lowered_ends_with(&lower, ".glb") {
        Pcb3dModelFormat::Gltf
    } else {
        Pcb3dModelFormat::Unspecified
    }
}

/// Unsatisfied result from exact placement resolution.
#[derive(Clone, Debug, PartialEq, Eq)]
pub enum PlacementResolutionIssue {
    /// Source layout failed structural validation.
    InvalidLayout,
    /// Relative placement dependencies contain a cycle.
    RelativeCycle(CircuitInstanceId),
    /// Resolved origins do not share the required X coordinate.
    MisalignedX(PlacementConstraintId),
    /// Resolved origins do not share the required Y coordinate.
    MisalignedY(PlacementConstraintId),
    /// Resolved origin is outside the required region.
    OutsideRegion(PlacementConstraintId),
    /// Resolved rotation is absent from the allowed set.
    DisallowedRotation(PlacementConstraintId),
    /// Resolved physical side is absent from the allowed set.
    DisallowedSide(PlacementConstraintId),
}

/// Why a net-class inheritance graph could not resolve.
#[derive(Clone, Debug, PartialEq, Eq)]
pub enum NetClassResolutionError {
    /// Two source classes share one stable identity.
    DuplicateClass(NetClassId),
    /// A class references an absent base class.
    UnknownParent {
        /// Derived class.
        class: NetClassId,
        /// Missing base class.
        parent: NetClassId,
    },
    /// A base-class cycle includes this class.
    InheritanceCycle(NetClassId),
}

/// Planar direction permitted by retained routing intent.
#[derive(Clone, Copy, Debug, PartialEq, Eq, Structural)]
pub enum RouteDirection {
    /// Trace motion parallel to the board X axis.
    Horizontal,
    /// Trace motion parallel to the board Y axis.
    Vertical,
    /// Exact 45-degree motion whose X and Y coordinates change with the same sign.
    DiagonalRising,
    /// Exact 45-degree motion whose X and Y coordinates change with opposite signs.
    DiagonalFalling,
    /// Straight planar motion at an angle outside the axis/45-degree families.
    Arbitrary,
}

/// Side of a directed orthogonal route span used for exact serpentine insertion.
#[derive(Clone, Copy, Debug, PartialEq, Eq, Structural)]
pub enum LengthTuningSide {
    /// Offset to the left of the selected span's authored direction.
    Left,
    /// Offset to the right of the selected span's authored direction.
    Right,
}

/// Evidence for one composed reusable module instance.
#[derive(Clone, Debug, PartialEq, Eq)]
pub struct ComposedLayoutModule {
    /// Reusable module definition.
    pub module: LayoutModuleId,
    /// Bound circuit hierarchy path.
    pub hierarchy_path: Vec<SubcircuitInstanceId>,
    /// Number of namespaced placements emitted.
    pub placements: usize,
    /// Number of retained module-local placement constraints resolved.
    pub placement_constraints: usize,
    /// Number of namespaced routes emitted.
    pub routes: usize,
    /// Number of namespaced vias emitted.
    pub vias: usize,
    /// Number of namespaced zones emitted.
    pub zones: usize,
    /// Number of namespaced keepouts emitted.
    pub keepouts: usize,
    /// Stable path-qualified placement-group identities retained as evidence.
    pub placement_groups: Vec<PlacementGroupId>,
}

/// The opposite board side: mirroring a module moves its parts across.
pub open spec fn opposite_side(side: BoardSide) -> BoardSide {
    match side {
        BoardSide::Front => BoardSide::Back,
        BoardSide::Back => BoardSide::Front,
    }
}

/// Flipping a side twice restores it.
pub proof fn flipping_twice_restores(side: BoardSide)
    ensures
        opposite_side(opposite_side(side)) == side,
{
}

/// The opposite board side.
pub fn flip_side(side: BoardSide) -> (flipped: BoardSide)
    ensures
        flipped == opposite_side(side),
{
    match side {
        BoardSide::Front => BoardSide::Back,
        BoardSide::Back => BoardSide::Front,
    }
}

/// A hierarchy path as its instance identities joined by `/`.
pub open spec fn joined_path(path: Seq<SubcircuitInstanceId>) -> Seq<char>
    decreases path.len(),
{
    if path.len() == 0 {
        seq![]
    } else if path.len() == 1 {
        path[0]@
    } else {
        joined_path(path.drop_last()) + seq!['/'] + path.last()@
    }
}

/// Text of a hierarchy path: instance identities joined by `/`.
pub fn path_text(path: &[SubcircuitInstanceId]) -> (text: String)
    ensures
        text@ == joined_path(path@),
{
    let mut text = String::new();
    let mut i: usize = 0;
    while i < path.len()
        invariant
            i <= path@.len(),
            text@ == joined_path(path@.take(i as int)),
        decreases path.len() - i,
    {
        proof {
            assert(path@.take(i + 1).drop_last() =~= path@.take(i as int));
            assert(path@.take(i + 1).last() == path@[i as int]);
        }
        if i > 0 {
            text.append("/");
            proof {
                reveal_strlit("/");
            }
        }
        text.append(path[i].as_str());
        proof {
            if i == 0 {
                assert(path@.take(1)[0] == path@[0]);
                assert(text@ =~= joined_path(path@.take(1)));
            } else {
                assert(text@ =~= joined_path(path@.take(i + 1)));
            }
        }
        i = i + 1;
    }
    proof {
        assert(path@.take(i as int) =~= path@);
    }
    text
}

/// An identity built from its full text.
pub trait StableId: Sized + View<V = Seq<char>> {
    /// The identity whose text is `text`.
    fn from_text(text: String) -> (id: Self)
        ensures
            id@ == text@,
    ;
}

impl StableId for PlacementGroupId {
    fn from_text(text: String) -> (id: Self) {
        PlacementGroupId(text)
    }
}

impl StableId for LayoutModuleId {
    fn from_text(text: String) -> (id: Self) {
        LayoutModuleId(text)
    }
}

impl StableId for NetClassId {
    fn from_text(text: String) -> (id: Self) {
        NetClassId(text)
    }
}

impl StableId for PadId {
    fn from_text(text: String) -> (id: Self) {
        PadId(text)
    }
}

/// A module-local identity qualified by the instance path: `path/local`.
pub open spec fn namespaced_text(path: Seq<char>, local: Seq<char>) -> Seq<char> {
    path + seq!['/'] + local
}

/// The module-local identity `local` qualified by the hierarchy path.
pub fn namespaced_id<T: StableId>(path: &str, local: &str) -> (id: T)
    ensures
        id@ == namespaced_text(path@, local@),
{
    let mut text = String::from_str(path);
    text.append("/");
    text.append(local);
    proof {
        reveal_strlit("/");
        assert(text@ =~= namespaced_text(path@, local@));
    }
    T::from_text(text)
}


/// Exact board-space or footprint-local point.
#[derive(Debug, PartialEq)]
pub struct Point2 {
    /// X coordinate.
    pub x: Real,
    /// Y coordinate.
    pub y: Real,
}

/// Structural equality of two points: both coordinates structurally equal.
pub open spec fn same_point_spec(a: Point2, b: Point2) -> bool {
    real_identical(a.x, b.x) && real_identical(a.y, b.y)
}

/// Structural equality of two points (see [`same_point_spec`]).
pub fn same_point(a: &Point2, b: &Point2) -> (equal: bool)
    ensures
        equal == same_point_spec(*a, *b),
{
    real_equal(&a.x, &b.x) && real_equal(&a.y, &b.y)
}

impl Clone for Point2 {
    fn clone(&self) -> (copy: Self)
        ensures
            copy == *self,
    {
        Point2 { x: self.x.clone(), y: self.y.clone() }
    }
}

impl Point2 {
    /// The point `(x, y)`.
    pub fn new(x: Real, y: Real) -> (point: Self)
        ensures
            point.x == x,
            point.y == y,
    {
        Point2 { x, y }
    }
}

/// Image of a local point under a rigid placement: the X coordinate is
/// mirrored on the back side, the point is rotated counter-clockwise by
/// `rotation_degrees`, then translated to `position`.
pub open spec fn rigid_image(position: Point2, rotation_degrees: Real, side: BoardSide, point: Point2) -> Point2 {
    let x = match side {
        BoardSide::Front => point.x,
        BoardSide::Back => real_negation(point.x),
    };
    let radians = real_radians(rotation_degrees);
    let sin = real_sine(radians);
    let cos = real_cosine(radians);
    Point2 {
        x: real_sum(real_difference(real_product(x, cos), real_product(point.y, sin)), position.x),
        y: real_sum(real_sum(real_product(x, sin), real_product(point.y, cos)), position.y),
    }
}

/// Local coordinates of a placed point: translated back from `position`,
/// rotated clockwise by `rotation_degrees`, then mirrored on the back side.
pub open spec fn rigid_preimage(position: Point2, rotation_degrees: Real, side: BoardSide, point: Point2) -> Point2 {
    let dx = real_difference(point.x, position.x);
    let dy = real_difference(point.y, position.y);
    let radians = real_radians(rotation_degrees);
    let sin = real_sine(radians);
    let cos = real_cosine(radians);
    let x = real_sum(real_product(dx, cos), real_product(dy, sin));
    Point2 {
        x: match side {
            BoardSide::Front => x,
            BoardSide::Back => real_negation(x),
        },
        y: real_sum(real_product(real_negation(dx), sin), real_product(dy, cos)),
    }
}

/// Applies a rigid placement to a local point (see [`rigid_image`]).
pub fn apply_rigid(position: &Point2, rotation_degrees: &Real, side: BoardSide, point: &Point2) -> (image: Point2)
    ensures
        image == rigid_image(*position, *rotation_degrees, side, *point),
{
    let x = match side {
        BoardSide::Front => point.x.clone(),
        BoardSide::Back => real_neg(&point.x),
    };
    let radians = real_to_radians(rotation_degrees);
    let sin = real_sin(&radians);
    let cos = real_cos(&radians);
    Point2 {
        x: real_add(&real_sub(&real_mul(&x, &cos), &real_mul(&point.y, &sin)), &position.x),
        y: real_add(&real_add(&real_mul(&x, &sin), &real_mul(&point.y, &cos)), &position.y),
    }
}

/// Stable copper routing-layer index.
#[derive(Clone, Copy, Debug, PartialEq, Eq, PartialOrd, Ord, Hash, Structural)]
pub struct TraceLayer(pub u16);

/// Manufacturing/display role of a non-routing or routing layer.
#[derive(Clone, Debug, PartialEq, Eq)]
pub enum LayerRole {
    /// Copper routing or plane layer.
    Copper(TraceLayer),
    /// Front solder mask.
    FrontSolderMask,
    /// Back solder mask.
    BackSolderMask,
    /// Front solder paste stencil.
    FrontPaste,
    /// Back solder paste stencil.
    BackPaste,
    /// Front silkscreen.
    FrontSilkscreen,
    /// Back silkscreen.
    BackSilkscreen,
    /// Board outline and routed cut geometry.
    EdgeCuts,
    /// Fabrication documentation.
    Fabrication,
    /// Component courtyard geometry.
    Courtyard,
    /// Named source-specific layer.
    Custom(String),
}

/// Retained footprint artwork primitive in land-pattern-local coordinates.
#[derive(Clone, Debug, PartialEq)]
pub enum LandPatternGraphicPrimitive {
    /// Straight documentation or process line.
    Line {
        /// Local start point.
        start: Point2,
        /// Local end point.
        end: Point2,
    },
    /// Circle defined by center and exact radius.
    Circle {
        /// Local center.
        center: Point2,
        /// Exact radius.
        radius: Real,
    },
    /// Closed polygon, optionally filled by the target layer process.
    Polygon {
        /// Local vertices.
        vertices: Vec<Point2>,
        /// Whether the polygon interior is authored as filled.
        filled: bool,
    },
    /// Retained documentation text.
    Text {
        /// Authored string.
        text: String,
        /// Local anchor.
        position: Point2,
        /// Exact text height.
        height: Real,
        /// Counter-clockwise local rotation in degrees.
        rotation_degrees: Real,
    },
}

/// One source-addressable footprint artwork item.
#[derive(Clone, Debug, PartialEq)]
pub struct LandPatternGraphic {
    /// Stable identity within the land pattern.
    pub id: LandPatternGraphicId,
    /// Manufacturing/documentation layer role.
    pub layer: LayerRole,
    /// Optional exact stroke width; filled polygons need no stroke.
    pub stroke_width: Option<Real>,
    /// Retained local primitive.
    pub primitive: LandPatternGraphicPrimitive,
}

/// Physical kind of one ordered stackup layer.
#[derive(Clone, Debug, PartialEq, Eq)]
pub enum StackupLayerKind {
    /// Conductive layer with a stable routing index.
    Conductor(TraceLayer),
    /// Nonconductive laminate, prepreg, or core.
    Dielectric,
    /// Solder-mask or coverlay dielectric.
    SolderMask,
    /// Other retained material layer.
    Custom(String),
}

/// One exact-thickness layer in an ordered board stackup.
#[derive(Clone, Debug, PartialEq)]
pub struct StackupLayer {
    /// Human-readable stable layer name.
    pub name: String,
    /// Physical layer kind.
    pub kind: StackupLayerKind,
    /// Exact thickness in the design's authored length unit.
    pub thickness: Real,
    /// Material-library handle, such as `hyperphysics:material/fr4`.
    pub material: Option<String>,
}

/// Ordered physical PCB stackup.
#[derive(Clone, Debug, PartialEq)]
pub struct PcbStackup {
    /// Layers ordered from the front surface to the back surface.
    pub layers: Vec<StackupLayer>,
}

impl PcbStackup {
    /// One copper layer `F.Cu` at routing index 0.
    pub fn single_layer(thickness: Real, material: Option<String>) -> (stackup: Self)
        ensures
            stackup.layers@.len() == 1,
            stackup.layers@[0].name@ == "F.Cu"@,
            stackup.layers@[0].kind == StackupLayerKind::Conductor(TraceLayer(0)),
            stackup.layers@[0].thickness == thickness,
            stackup.layers@[0].material == material,
    {
        let layer = StackupLayer {
            name: String::from_str("F.Cu"),
            kind: StackupLayerKind::Conductor(TraceLayer(0)),
            thickness,
            material,
        };
        let mut layers: Vec<StackupLayer> = Vec::new();
        layers.push(layer);
        PcbStackup { layers }
    }

    /// Copper `F.Cu` (index 0), `dielectric 1`, copper `B.Cu` (index 1).
    pub fn two_layer(
        copper_thickness: Real,
        dielectric_thickness: Real,
        copper_material: Option<String>,
        dielectric_material: Option<String>,
    ) -> (stackup: Self)
        ensures
            stackup.layers@.len() == 3,
            stackup.layers@[0].name@ == "F.Cu"@,
            stackup.layers@[0].kind == StackupLayerKind::Conductor(TraceLayer(0)),
            stackup.layers@[0].thickness == copper_thickness,
            stackup.layers@[0].material@ == copper_material@,
            stackup.layers@[1].name@ == "dielectric 1"@,
            stackup.layers@[1].kind == StackupLayerKind::Dielectric,
            stackup.layers@[1].thickness == dielectric_thickness,
            stackup.layers@[1].material == dielectric_material,
            stackup.layers@[2].name@ == "B.Cu"@,
            stackup.layers@[2].kind == StackupLayerKind::Conductor(TraceLayer(1)),
            stackup.layers@[2].thickness == copper_thickness,
            stackup.layers@[2].material == copper_material,
    {
        let front_material = match &copper_material {
            Some(text) => Some(text.clone()),
            None => None,
        };
        let front = StackupLayer {
            name: String::from_str("F.Cu"),
            kind: StackupLayerKind::Conductor(TraceLayer(0)),
            thickness: copper_thickness.clone(),
            material: front_material,
        };
        let core = StackupLayer {
            name: String::from_str("dielectric 1"),
            kind: StackupLayerKind::Dielectric,
            thickness: dielectric_thickness,
            material: dielectric_material,
        };
        let back = StackupLayer {
            name: String::from_str("B.Cu"),
            kind: StackupLayerKind::Conductor(TraceLayer(1)),
            thickness: copper_thickness,
            material: copper_material,
        };
        let mut layers: Vec<StackupLayer> = Vec::new();
        layers.push(front);
        layers.push(core);
        layers.push(back);
        PcbStackup { layers }
    }
}

/// Exact straight path segment.
#[derive(Clone, Debug, PartialEq)]
pub struct LinePathSegment {
    /// Start point.
    pub start: Point2,
    /// End point.
    pub end: Point2,
}

/// Traversal direction of a circular arc.
#[derive(Clone, Copy, Debug, PartialEq, Eq, Structural)]
pub enum ArcDirection {
    /// Counter-clockwise traversal.
    Ccw,
    /// Clockwise traversal.
    Cw,
}

/// Exact directed circular arc with explicit center and radius.
#[derive(Clone, Debug, PartialEq)]
pub struct ExplicitCircularArc {
    /// Circle center.
    pub center: Point2,
    /// Exact radius.
    pub radius: Real,
    /// Start point.
    pub start: Point2,
    /// End point.
    pub end: Point2,
    /// Traversal direction.
    pub direction: ArcDirection,
}

/// Exact polynomial cubic Bezier.
#[derive(Clone, Debug, PartialEq)]
pub struct CubicBezier {
    /// Start point.
    pub start: Point2,
    /// First control point.
    pub control0: Point2,
    /// Second control point.
    pub control1: Point2,
    /// End point.
    pub end: Point2,
}

/// One exact segment of a closed board contour.
#[derive(Clone, Debug, PartialEq)]
pub enum BoardContourSegment {
    /// Straight edge.
    Line(LinePathSegment),
    /// Exact directed circular edge.
    CircularArc(ExplicitCircularArc),
    /// Exact polynomial cubic Bezier edge.
    CubicBezier(CubicBezier),
}

/// Start point of a contour segment.
pub open spec fn contour_start(segment: BoardContourSegment) -> Point2 {
    match segment {
        BoardContourSegment::Line(line) => line.start,
        BoardContourSegment::CircularArc(arc) => arc.start,
        BoardContourSegment::CubicBezier(bezier) => bezier.start,
    }
}

/// End point of a contour segment.
pub open spec fn contour_end(segment: BoardContourSegment) -> Point2 {
    match segment {
        BoardContourSegment::Line(line) => line.end,
        BoardContourSegment::CircularArc(arc) => arc.end,
        BoardContourSegment::CubicBezier(bezier) => bezier.end,
    }
}

impl BoardContourSegment {
    /// Exact start point.
    pub fn start(&self) -> (point: &Point2)
        ensures
            *point == contour_start(*self),
    {
        match self {
            BoardContourSegment::Line(line) => &line.start,
            BoardContourSegment::CircularArc(arc) => &arc.start,
            BoardContourSegment::CubicBezier(bezier) => &bezier.start,
        }
    }

    /// Exact end point.
    pub fn end(&self) -> (point: &Point2)
        ensures
            *point == contour_end(*self),
    {
        match self {
            BoardContourSegment::Line(line) => &line.end,
            BoardContourSegment::CircularArc(arc) => &arc.end,
            BoardContourSegment::CubicBezier(bezier) => &bezier.end,
        }
    }
}

/// The cyclic successor of index `i` among `n`.
pub proof fn lemma_next_index(i: int, n: int)
    requires
        0 <= i < n,
    ensures
        (if i + 1 == n {
            0
        } else {
            i + 1
        }) == (i + 1) % n,
{
    if i + 1 == n {
        vstd::arithmetic::div_mod::lemma_mod_self_0(n);
    } else {
        vstd::arithmetic::div_mod::lemma_small_mod((i + 1) as nat, n as nat);
    }
}

/// Closed exact line/arc/Bezier substrate contour.
#[derive(Clone, Debug, PartialEq)]
pub struct BoardContour {
    segments: Vec<BoardContourSegment>,
}

/// Some segment is curved.
pub open spec fn any_curved(segments: Seq<BoardContourSegment>) -> bool {
    exists|i: int| 0 <= i < segments.len() && !(#[trigger] segments[i] is Line)
}

/// A closed contour: at least two segments (three when all are straight),
/// no segment from a point to itself, and each segment ends where the next
/// (cyclically) starts.
pub open spec fn contour_valid(segments: Seq<BoardContourSegment>) -> bool {
    &&& segments.len() >= 2
    &&& (any_curved(segments) || segments.len() >= 3)
    &&& forall|i: int|
        0 <= i < segments.len() ==> !same_point_spec(
            contour_start(#[trigger] segments[i]),
            contour_end(segments[i]),
        )
    &&& forall|i: int|
        0 <= i < segments.len() ==> same_point_spec(
            contour_end(#[trigger] segments[i]),
            contour_start(segments[(i + 1) % (segments.len() as int)]),
        )
}

/// Closing line segments through the vertices, in order.
pub open spec fn polygon_segments(vertices: Seq<Point2>) -> Seq<BoardContourSegment> {
    Seq::new(
        vertices.len(),
        |i: int|
            BoardContourSegment::Line(
                LinePathSegment { start: vertices[i], end: vertices[(i + 1) % (vertices.len() as int)] },
            ),
    )
}

impl View for BoardContour {
    type V = Seq<BoardContourSegment>;

    closed spec fn view(&self) -> Seq<BoardContourSegment> {
        self.segments@
    }
}

impl BoardContour {
    /// Retains an authored ordered contour without repairing topology.
    pub fn from_segments(segments: Vec<BoardContourSegment>) -> (contour: Self)
        ensures
            contour@ == segments@,
    {
        BoardContour { segments }
    }

    /// The empty contour.
    pub fn empty() -> (contour: Self)
        ensures
            contour@.len() == 0,
    {
        BoardContour { segments: Vec::new() }
    }

    /// Closing straight edges through the vertices, in order (see
    /// [`polygon_segments`]).
    pub fn polygon(vertices: Vec<Point2>) -> (contour: Self)
        ensures
            contour@ == polygon_segments(vertices@),
    {
        let n = vertices.len();
        let mut segments: Vec<BoardContourSegment> = Vec::new();
        let mut i: usize = 0;
        while i < n
            invariant
                i <= n == vertices@.len(),
                segments@.len() == i,
                forall|j: int| 0 <= j < i ==> #[trigger] segments@[j] == polygon_segments(vertices@)[j],
            decreases n - i,
        {
            let next: usize = if i + 1 == n { 0 } else { i + 1 };
            proof {
                lemma_next_index(i as int, n as int);
            }
            let start = vertices[i].clone();
            let end = vertices[next].clone();
            segments.push(BoardContourSegment::Line(LinePathSegment { start, end }));
            i = i + 1;
        }
        proof {
            assert(segments@ =~= polygon_segments(vertices@));
        }
        BoardContour { segments }
    }

    /// Ordered exact contour segments.
    pub fn segments(&self) -> (segments: &[BoardContourSegment])
        ensures
            segments@ == self@,
    {
        self.segments.as_slice()
    }

    /// Start points of the edges when every edge is straight; `None` for a
    /// contour with a curved edge.
    pub fn linear_vertices(&self) -> (vertices: Option<Vec<Point2>>)
        ensures
            any_curved(self@) <==> vertices is None,
            vertices matches Some(points) ==> points@.len() == self@.len() && forall|i: int|
                0 <= i < self@.len() ==> #[trigger] points@[i] == contour_start(self@[i]),
    {
        let mut vertices: Vec<Point2> = Vec::new();
        let mut i: usize = 0;
        while i < self.segments.len()
            invariant
                i <= self.segments@.len(),
                vertices@.len() == i,
                forall|j: int| 0 <= j < i ==> #[trigger] self.segments@[j] is Line,
                forall|j: int| 0 <= j < i ==> #[trigger] vertices@[j] == contour_start(self.segments@[j]),
            decreases self.segments.len() - i,
        {
            match &self.segments[i] {
                BoardContourSegment::Line(line) => {
                    vertices.push(Point2 { x: line.start.x.clone(), y: line.start.y.clone() });
                },
                _ => {
                    return None;
                },
            }
            i = i + 1;
        }
        Some(vertices)
    }

    /// True when at least one edge is curved.
    pub fn is_curved(&self) -> (curved: bool)
        ensures
            curved == any_curved(self@),
    {
        let mut i: usize = 0;
        while i < self.segments.len()
            invariant
                i <= self.segments@.len(),
                forall|j: int| 0 <= j < i ==> #[trigger] self.segments@[j] is Line,
            decreases self.segments.len() - i,
        {
            match &self.segments[i] {
                BoardContourSegment::Line(_) => {},
                _ => {
                    return true;
                },
            }
            i = i + 1;
        }
        false
    }

    /// Whether segment topology is nondegenerate, connected, and closed (see
    /// [`contour_valid`]).
    pub fn is_valid(&self) -> (valid: bool)
        ensures
            valid == contour_valid(self@),
    {
        let n = self.segments.len();
        if n < 2 {
            return false;
        }
        if !self.is_curved() && n < 3 {
            return false;
        }
        let mut i: usize = 0;
        while i < n
            invariant
                2 <= n == self.segments@.len(),
                i <= n,
                forall|j: int|
                    0 <= j < i ==> !same_point_spec(
                        contour_start(#[trigger] self.segments@[j]),
                        contour_end(self.segments@[j]),
                    ),
            decreases n - i,
        {
            if same_point(self.segments[i].start(), self.segments[i].end()) {
                return false;
            }
            i = i + 1;
        }
        let mut k: usize = 0;
        while k < n
            invariant
                2 <= n == self.segments@.len(),
                k <= n,
                forall|j: int|
                    0 <= j < k ==> same_point_spec(
                        contour_end(#[trigger] self.segments@[j]),
                        contour_start(self.segments@[(j + 1) % (n as int)]),
                    ),
            decreases n - k,
        {
            let next: usize = if k + 1 == n { 0 } else { k + 1 };
            proof {
                lemma_next_index(k as int, n as int);
            }
            if !same_point(self.segments[k].end(), self.segments[next].start()) {
                return false;
            }
            k = k + 1;
        }
        true
    }
}


/// Closed mixed-curve substrate outline plus closed internal cutouts.
#[derive(Clone, Debug, PartialEq)]
pub struct BoardOutline {
    /// Exterior contour in authored order.
    pub exterior: BoardContour,
    /// Interior contours representing substrate cutouts.
    pub cutouts: Vec<BoardContour>,
}

impl BoardOutline {
    /// Axis-aligned rectangle from the origin to `(width, height)`, as a
    /// closed polygon through `(0,0)`, `(width,0)`, `(width,height)`,
    /// `(0,height)`; validation decides whether the dimensions are usable.
    pub fn rectangle(width: Real, height: Real) -> (outline: Self)
        ensures
            outline.exterior@ == polygon_segments(
                seq![
                    Point2 { x: real_of_int(0), y: real_of_int(0) },
                    Point2 { x: width, y: real_of_int(0) },
                    Point2 { x: width, y: height },
                    Point2 { x: real_of_int(0), y: height },
                ],
            ),
            outline.cutouts@.len() == 0,
    {
        let mut vertices: Vec<Point2> = Vec::new();
        vertices.push(Point2 { x: real_from_i64(0), y: real_from_i64(0) });
        vertices.push(Point2 { x: width.clone(), y: real_from_i64(0) });
        vertices.push(Point2 { x: width.clone(), y: height.clone() });
        vertices.push(Point2 { x: real_from_i64(0), y: height });
        let exterior = BoardContour::polygon(vertices);
        proof {
            assert(exterior@ == polygon_segments(vertices@));
        }
        BoardOutline { exterior, cutouts: Vec::new() }
    }
}

/// Retained pad land shape in footprint-local coordinates.
#[derive(Clone, Debug, PartialEq)]
pub enum PadShape {
    /// Circular land with exact diameter.
    Circle { diameter: Real },
    /// Axis-aligned rectangular land before placement rotation.
    Rectangle { width: Real, height: Real },
    /// Rounded rectangle with an exact corner radius.
    RoundedRectangle { width: Real, height: Real, corner_radius: Real },
    /// Capsule/obround land.
    Obround { width: Real, height: Real },
    /// Arbitrary retained polygon relative to the pad center.
    Polygon { vertices: Vec<Point2> },
}

/// Solder-mask treatment for one via on one board surface.
#[derive(Clone, Debug, PartialEq)]
pub enum ViaMaskDisposition {
    /// The source did not retain whether this surface is opened or tented.
    Unspecified,
    /// Solder mask covers the via land on this surface.
    Tented,
    /// Emit a circular opening around the copper land with this exact radial margin.
    Open { margin: Real },
}

/// Independently retained front/back solder-mask intent for a via.
#[derive(Clone, Debug, PartialEq)]
pub struct ViaMaskIntent {
    /// Front surface treatment when the via reaches the front copper layer.
    pub front: ViaMaskDisposition,
    /// Back surface treatment when the via reaches the back copper layer.
    pub back: ViaMaskDisposition,
}

impl Default for ViaMaskIntent {
    /// Intent left unspecified on both surfaces.
    fn default() -> (intent: Self)
        ensures
            intent.front == ViaMaskDisposition::Unspecified,
            intent.back == ViaMaskDisposition::Unspecified,
    {
        ViaMaskIntent { front: ViaMaskDisposition::Unspecified, back: ViaMaskDisposition::Unspecified }
    }
}

impl ViaMaskIntent {
    /// Explicitly tents the via on both board surfaces.
    pub fn tented() -> (intent: Self)
        ensures
            intent.front == ViaMaskDisposition::Tented,
            intent.back == ViaMaskDisposition::Tented,
    {
        ViaMaskIntent { front: ViaMaskDisposition::Tented, back: ViaMaskDisposition::Tented }
    }

    /// Opens the via on both surfaces with one exact radial margin.
    pub fn open(margin: Real) -> (intent: Self)
        ensures
            intent.front == (ViaMaskDisposition::Open { margin }),
            intent.back == (ViaMaskDisposition::Open { margin }),
    {
        ViaMaskIntent {
            front: ViaMaskDisposition::Open { margin: margin.clone() },
            back: ViaMaskDisposition::Open { margin },
        }
    }
}

/// Drill or routed-slot shape attached to a pad stack.
#[derive(Clone, Debug, PartialEq)]
pub enum DrillShape {
    /// Round drill hit.
    Round { diameter: Real },
    /// Routed slot described by a local centerline and cutter width.
    Slot { start: Point2, end: Point2, width: Real },
}

/// One pad in a reusable land pattern.
#[derive(Clone, Debug, PartialEq)]
pub struct LandPatternPad {
    /// Stable pad name/number.
    pub id: PadId,
    /// Footprint-local pad center.
    pub center: Point2,
    /// Counter-clockwise rotation around the pad center in exact degrees.
    pub rotation_degrees: Real,
    /// Copper layers carrying a land for this pad.
    pub copper_layers: Vec<TraceLayer>,
    /// Retained copper shape.
    pub shape: PadShape,
    /// Optional drill or routed slot.
    pub drill: Option<DrillShape>,
    /// Retained plating intent for the drill.
    pub plating: Plating,
    /// Exact solder-mask expansion; `None` delegates to downstream policy.
    pub solder_mask_margin: Option<Real>,
    /// Exact paste expansion/reduction; `None` delegates to downstream policy.
    pub paste_margin: Option<Real>,
}

/// Exact footprint-local transform applied after loading an external model.
#[derive(Clone, Debug, PartialEq)]
pub struct Pcb3dModelTransform {
    /// Translation along footprint-local X.
    pub offset_x: Real,
    /// Translation along footprint-local Y.
    pub offset_y: Real,
    /// Translation above the local mounting plane.
    pub offset_z: Real,
    /// Rotation around local X in degrees.
    pub rotate_x_degrees: Real,
    /// Rotation around local Y in degrees.
    pub rotate_y_degrees: Real,
    /// Rotation around local Z in degrees.
    pub rotate_z_degrees: Real,
    /// Nonzero local X scale.
    pub scale_x: Real,
    /// Nonzero local Y scale.
    pub scale_y: Real,
    /// Nonzero local Z scale.
    pub scale_z: Real,
}

impl Default for Pcb3dModelTransform {
    /// The identity transform: no offset, no rotation, unit scale.
    fn default() -> (transform: Self)
        ensures
            transform.offset_x == real_of_int(0),
            transform.offset_y == real_of_int(0),
            transform.offset_z == real_of_int(0),
            transform.rotate_x_degrees == real_of_int(0),
            transform.rotate_y_degrees == real_of_int(0),
            transform.rotate_z_degrees == real_of_int(0),
            transform.scale_x == real_of_int(1),
            transform.scale_y == real_of_int(1),
            transform.scale_z == real_of_int(1),
    {
        Pcb3dModelTransform {
            offset_x: real_from_i64(0),
            offset_y: real_from_i64(0),
            offset_z: real_from_i64(0),
            rotate_x_degrees: real_from_i64(0),
            rotate_y_degrees: real_from_i64(0),
            rotate_z_degrees: real_from_i64(0),
            scale_x: real_from_i64(1),
            scale_y: real_from_i64(1),
            scale_z: real_from_i64(1),
        }
    }
}

/// Resolver-addressable external package model with explicit format/transform.
#[derive(Clone, Debug, PartialEq)]
pub struct Pcb3dModelReference {
    /// Stable URI or package-store handle; no filesystem is assumed.
    pub uri: String,
    /// Declared source container, never guessed from a filename.
    pub format: Pcb3dModelFormat,
    /// Exact transform from model coordinates into footprint-local coordinates.
    pub transform: Pcb3dModelTransform,
}

/// Review envelope for a package body.
#[derive(Clone, Debug, PartialEq)]
pub struct LandPatternBody {
    /// Footprint-local closed body envelope used for native 3D review.
    pub outline: Vec<Point2>,
    /// Exact body height above its mounting standoff.
    pub height: Real,
    /// Exact standoff from the board surface to the body envelope.
    pub standoff: Real,
}

/// Reusable PCB land pattern independent of component placement and nets.
#[derive(Clone, Debug, PartialEq)]
pub struct LandPattern {
    /// Stable land-pattern id or library handle.
    pub id: LandPatternId,
    /// Physical pads.
    pub pads: Vec<LandPatternPad>,
    /// Logical pin-to-pad mapping. Multiple pads may intentionally map to one pin.
    pub pin_map: Vec<PadPinMap>,
    /// Silkscreen, fabrication, courtyard, mask, paste, or custom artwork.
    pub graphics: Vec<LandPatternGraphic>,
    /// Optional native fallback envelope for review and DRC.
    pub body: Option<LandPatternBody>,
    /// Zero or more resolver-addressable package models.
    pub models: Vec<Pcb3dModelReference>,
}

/// Placement of one logical circuit instance using a retained land pattern.
#[derive(Clone, Debug, PartialEq)]
pub struct PcbPlacement {
    /// Logical circuit instance being placed.
    pub instance: CircuitInstanceId,
    /// Reusable land pattern used by the instance.
    pub land_pattern: LandPatternId,
    /// Board-space origin of the footprint.
    pub position: Point2,
    /// Counter-clockwise rotation in exact degrees.
    pub rotation_degrees: Real,
    /// Physical board side.
    pub side: BoardSide,
}

impl PcbPlacement {
    /// Maps a footprint-local point into board space: back-side mirroring of
    /// X, counter-clockwise rotation, then translation to the origin.
    pub fn transform_point(&self, point: &Point2) -> (image: Point2)
        ensures
            image == rigid_image(self.position, self.rotation_degrees, self.side, *point),
    {
        apply_rigid(&self.position, &self.rotation_degrees, self.side, point)
    }

    /// Maps a board-space point back into this footprint's local
    /// coordinates: translation back, clockwise rotation, then back-side
    /// mirroring of X.
    pub fn inverse_transform_point(&self, point: &Point2) -> (local: Point2)
        ensures
            local == rigid_preimage(self.position, self.rotation_degrees, self.side, *point),
    {
        let dx = real_sub(&point.x, &self.position.x);
        let dy = real_sub(&point.y, &self.position.y);
        let radians = real_to_radians(&self.rotation_degrees);
        let sin = real_sin(&radians);
        let cos = real_cos(&radians);
        let mut x = real_add(&real_mul(&dx, &cos), &real_mul(&dy, &sin));
        let y = real_add(&real_mul(&real_neg(&dx), &sin), &real_mul(&dy, &cos));
        if self.side == BoardSide::Back {
            x = real_neg(&x);
        }
        Point2 { x, y }
    }
}

/// Exact relational or regional component-placement intent.
#[derive(Clone, Debug, PartialEq)]
pub enum PlacementConstraintKind {
    /// Pin one instance origin to an exact board coordinate.
    Fixed { instance: CircuitInstanceId, position: Point2 },
    /// Place one instance at an exact offset from another resolved instance.
    Relative { instance: CircuitInstanceId, anchor: CircuitInstanceId, offset: Point2 },
    /// Require instance origins to share one X coordinate.
    AlignX { instances: Vec<CircuitInstanceId> },
    /// Require instance origins to share one Y coordinate.
    AlignY { instances: Vec<CircuitInstanceId> },
    /// Require an instance origin inside an inclusive axis-aligned region.
    Within { instance: CircuitInstanceId, min: Point2, max: Point2 },
    /// Restrict one instance to an authored set of exact rotations.
    AllowedRotations { instance: CircuitInstanceId, rotations_degrees: Vec<Real> },
    /// Restrict one instance to one or both physical board sides.
    AllowedSides { instance: CircuitInstanceId, sides: Vec<BoardSide> },
}

/// Stable source-addressable placement constraint.
#[derive(Clone, Debug, PartialEq)]
pub struct PlacementConstraint {
    /// Stable authored constraint identity.
    pub id: PlacementConstraintId,
    /// Retained constraint equation/predicate.
    pub kind: PlacementConstraintKind,
}

/// Deterministically resolved placements plus exact constraint evidence.
#[derive(Clone, Debug, PartialEq)]
pub struct PlacementResolutionReport {
    /// Placements in authored order with fixed/relative origins applied.
    pub placements: Vec<PcbPlacement>,
    /// Unsatisfied or cyclic constraints.
    pub issues: Vec<PlacementResolutionIssue>,
}

impl PlacementResolutionReport {
    /// True when every retained placement constraint was exactly satisfied.
    pub fn is_satisfied(&self) -> (satisfied: bool)
        ensures
            satisfied == (self.issues@.len() == 0),
    {
        self.issues.len() == 0
    }
}

/// Retained routed copper centerline with one exact width and net identity.
#[derive(Clone, Debug, PartialEq)]
pub struct PcbRoute {
    /// Stable route id.
    pub id: RouteId,
    /// Logical net carried by the route.
    pub net: NetId,
    /// Copper routing layer.
    pub layer: TraceLayer,
    /// Exact finished copper width.
    pub width: Real,
    /// Ordered connected centerline segments.
    pub segments: Vec<PcbRouteSegment>,
}

/// One ordered exact centerline segment in a semantic PCB route.
#[derive(Clone, Debug, PartialEq)]
pub enum PcbRouteSegment {
    /// Straight segment.
    Line(LinePathSegment),
    /// Exact directed circular arc.
    CircularArc(ExplicitCircularArc),
    /// Exact polynomial cubic Bezier.
    CubicBezier(CubicBezier),
}

/// Start point of a route segment.
pub open spec fn route_start(segment: PcbRouteSegment) -> Point2 {
    match segment {
        PcbRouteSegment::Line(line) => line.start,
        PcbRouteSegment::CircularArc(arc) => arc.start,
        PcbRouteSegment::CubicBezier(bezier) => bezier.start,
    }
}

/// End point of a route segment.
pub open spec fn route_end(segment: PcbRouteSegment) -> Point2 {
    match segment {
        PcbRouteSegment::Line(line) => line.end,
        PcbRouteSegment::CircularArc(arc) => arc.end,
        PcbRouteSegment::CubicBezier(bezier) => bezier.end,
    }
}

impl PcbRouteSegment {
    /// Exact start point.
    pub fn start(&self) -> (point: &Point2)
        ensures
            *point == route_start(*self),
    {
        match self {
            PcbRouteSegment::Line(line) => &line.start,
            PcbRouteSegment::CircularArc(arc) => &arc.start,
            PcbRouteSegment::CubicBezier(bezier) => &bezier.start,
        }
    }

    /// Exact end point.
    pub fn end(&self) -> (point: &Point2)
        ensures
            *point == route_end(*self),
    {
        match self {
            PcbRouteSegment::Line(line) => &line.end,
            PcbRouteSegment::CircularArc(arc) => &arc.end,
            PcbRouteSegment::CubicBezier(bezier) => &bezier.end,
        }
    }
}

/// Retained via connecting a contiguous copper-layer span.
#[derive(Clone, Debug, PartialEq)]
pub struct PcbVia {
    /// Stable via id.
    pub id: ViaId,
    /// Logical net carried by the via.
    pub net: NetId,
    /// Inclusive first connected copper layer.
    pub start_layer: TraceLayer,
    /// Inclusive last connected copper layer.
    pub end_layer: TraceLayer,
    /// Board-space via center.
    pub center: Point2,
    /// Exact copper land diameter.
    pub land_diameter: Real,
    /// Exact drill diameter.
    pub drill_diameter: Real,
    /// Retained plating intent.
    pub plating: Plating,
    /// Independent front/back solder-mask opening or tenting intent.
    pub mask: ViaMaskIntent,
}

/// Retained fill pattern for a copper zone.
#[derive(Clone, Debug, PartialEq)]
pub enum CopperZoneFill {
    /// Continuous copper after clearance and connection realization.
    Solid,
    /// Parallel exact-width copper stripes clipped to the zone boundary.
    Hatched {
        /// Exact copper stripe width.
        line_width: Real,
        /// Exact clear gap between adjacent stripes.
        gap: Real,
        /// Counter-clockwise stripe angle in exact degrees.
        angle_degrees: Real,
    },
}

/// Connection policy between a zone and same-net pads or vias.
#[derive(Clone, Debug, PartialEq)]
pub enum CopperZoneConnection {
    /// Same-net pads and vias merge directly into the pour.
    Solid,
    /// Same-net pads and vias receive the ordinary zone clearance.
    Isolated,
    /// Same-net pads and vias connect through equally spaced radial spokes.
    ThermalRelief {
        /// Exact air gap surrounding the land outside spokes.
        air_gap: Real,
        /// Exact spoke width.
        spoke_width: Real,
        /// Number of equally spaced spokes.
        spoke_count: u8,
    },
}

/// Deterministic removal policy for disconnected or undersized pour islands.
#[derive(Clone, Debug, PartialEq)]
pub struct CopperZoneIslandPolicy {
    /// Remove islands that do not intersect retained same-net copper on this layer.
    pub remove_unconnected: bool,
    /// When present, remove only unconnected islands smaller than this exact area.
    pub minimum_area: Option<Real>,
}

impl CopperZoneIslandPolicy {
    /// Retains every island produced by clearance and connection realization.
    pub fn retain_all() -> (policy: Self)
        ensures
            !policy.remove_unconnected,
            policy.minimum_area is None,
    {
        CopperZoneIslandPolicy { remove_unconnected: false, minimum_area: None }
    }

    /// Removes islands without a same-net pad, via, route, or prior zone connection.
    pub fn remove_unconnected() -> (policy: Self)
        ensures
            policy.remove_unconnected,
            policy.minimum_area is None,
    {
        CopperZoneIslandPolicy { remove_unconnected: true, minimum_area: None }
    }

    /// Limits removal to unconnected islands below an exact filled-area threshold.
    pub fn with_minimum_area(self, minimum_area: Real) -> (policy: Self)
        ensures
            policy.remove_unconnected == self.remove_unconnected,
            policy.minimum_area == Some(minimum_area),
    {
        CopperZoneIslandPolicy { remove_unconnected: self.remove_unconnected, minimum_area: Some(minimum_area) }
    }
}

impl Default for CopperZoneIslandPolicy {
    /// Retains every island.
    fn default() -> (policy: Self)
        ensures
            !policy.remove_unconnected,
            policy.minimum_area is None,
    {
        CopperZoneIslandPolicy::retain_all()
    }
}

/// Deterministic square-grid stitching-via realization policy for one zone.
#[derive(Clone, Debug, PartialEq)]
pub struct CopperZoneStitchingPolicy {
    /// Exact center-to-center pitch in both board axes.
    pub pitch: Real,
    /// Exact copper/keepout inset beyond the generated via land radius.
    pub edge_clearance: Real,
    /// Inclusive first connected copper layer.
    pub start_layer: TraceLayer,
    /// Inclusive last connected copper layer.
    pub end_layer: TraceLayer,
    /// Exact generated copper land diameter.
    pub land_diameter: Real,
    /// Exact generated plated drill diameter.
    pub drill_diameter: Real,
    /// Independent surface mask intent copied to every generated via.
    pub mask: ViaMaskIntent,
    /// Hard deterministic output bound.
    pub maximum_vias: usize,
}

/// Authored copper-pour boundary and retained fill/connection policy.
#[derive(Clone, Debug, PartialEq)]
pub struct CopperZone {
    /// Stable zone id.
    pub id: ZoneId,
    /// Logical net assigned to the zone.
    pub net: NetId,
    /// Copper layer receiving the zone.
    pub layer: TraceLayer,
    /// Closed authored boundary.
    pub boundary: Vec<Point2>,
    /// Exact clearance from foreign-net copper and lower-priority zones.
    pub clearance: Real,
    /// Fill realization policy.
    pub fill: CopperZoneFill,
    /// Same-net pad/via connection policy.
    pub connection: CopperZoneConnection,
    /// Post-realization island cleanup policy.
    pub islands: CopperZoneIslandPolicy,
    /// Optional deterministic plated stitching-via grid.
    pub stitching: Option<CopperZoneStitchingPolicy>,
    /// Higher values claim overlapping copper before lower values.
    pub priority: i32,
}

impl CopperZone {
    /// A solid, solid-connected zone with zero clearance and priority that
    /// retains every island and has no stitching.
    pub fn solid(id: ZoneId, net: NetId, layer: TraceLayer, boundary: Vec<Point2>) -> (zone: Self)
        ensures
            zone.id == id,
            zone.net == net,
            zone.layer == layer,
            zone.boundary == boundary,
            zone.clearance == real_of_int(0),
            zone.fill == CopperZoneFill::Solid,
            zone.connection == CopperZoneConnection::Solid,
            !zone.islands.remove_unconnected,
            zone.islands.minimum_area is None,
            zone.stitching is None,
            zone.priority == 0,
    {
        CopperZone {
            id,
            net,
            layer,
            boundary,
            clearance: real_from_i64(0),
            fill: CopperZoneFill::Solid,
            connection: CopperZoneConnection::Solid,
            islands: CopperZoneIslandPolicy::retain_all(),
            stitching: None,
            priority: 0,
        }
    }
}

/// Which generated features a keepout constrains.
#[derive(Clone, Debug, PartialEq, Eq)]
pub enum KeepoutScope {
    /// All physical feature types and layers.
    All,
    /// Copper on selected routing layers.
    Copper(Vec<TraceLayer>),
    /// Via placement and drilling.
    Vias,
    /// Component placement.
    Components,
}

/// Retained physical-layout keepout boundary and scope.
#[derive(Clone, Debug, PartialEq)]
pub struct PcbKeepout {
    /// Stable keepout id.
    pub id: KeepoutId,
    /// Closed authored boundary.
    pub boundary: Vec<Point2>,
    /// Feature scope.
    pub scope: KeepoutScope,
}

/// Authored routing and verification policy for a named set of nets.
#[derive(Clone, Debug, PartialEq)]
pub struct NetClass {
    /// Stable net-class identity.
    pub id: NetClassId,
    /// Optional base class supplying unspecified policy fields.
    pub parent: Option<NetClassId>,
    /// Nets assigned to the class.
    pub nets: Vec<NetId>,
    /// Minimum trace width.
    pub min_trace_width: Option<Real>,
    /// Preferred trace width used by routing tools when no stronger choice is supplied.
    pub preferred_trace_width: Option<Real>,
    /// Minimum same-layer copper clearance to other nets.
    pub min_clearance: Option<Real>,
    /// Preferred via land diameter.
    pub preferred_via_land_diameter: Option<Real>,
    /// Preferred finished via drill diameter.
    pub preferred_via_drill_diameter: Option<Real>,
    /// Preferred named layer-transition construction.
    pub preferred_via_style: Option<ViaStyleId>,
    /// Maximum routed length.
    pub max_length: Option<Real>,
    /// Maximum number of vias in one routed net.
    pub max_via_count: Option<usize>,
    /// Target single-ended impedance in ohms.
    pub target_impedance_ohms: Option<Real>,
    /// Allowed impedance deviation in ohms.
    pub impedance_tolerance_ohms: Option<Real>,
    /// Whether routing must have a qualified reference plane.
    pub requires_reference_plane: bool,
}

/// Effective net-class policy plus deterministic inheritance provenance.
#[derive(Clone, Debug, PartialEq)]
pub struct ResolvedNetClass {
    /// Most-derived class identity.
    pub id: NetClassId,
    /// Base-to-derived inheritance chain, including `id`.
    pub lineage: Vec<NetClassId>,
    /// Nets assigned directly to the most-derived class.
    pub nets: Vec<NetId>,
    /// Effective minimum trace width.
    pub min_trace_width: Option<Real>,
    /// Effective preferred trace width.
    pub preferred_trace_width: Option<Real>,
    /// Effective minimum same-layer clearance.
    pub min_clearance: Option<Real>,
    /// Effective preferred via land diameter.
    pub preferred_via_land_diameter: Option<Real>,
    /// Effective preferred finished drill diameter.
    pub preferred_via_drill_diameter: Option<Real>,
    /// Effective preferred named via construction.
    pub preferred_via_style: Option<ViaStyleId>,
    /// Effective maximum routed length.
    pub max_length: Option<Real>,
    /// Effective maximum via count.
    pub max_via_count: Option<usize>,
    /// Effective target single-ended impedance.
    pub target_impedance_ohms: Option<Real>,
    /// Effective allowed impedance deviation.
    pub impedance_tolerance_ohms: Option<Real>,
    /// Effective reference-plane requirement.
    pub requires_reference_plane: bool,
}

/// One layer span on which a named via construction may be used.
#[derive(Clone, Debug, PartialEq, Eq)]
pub struct ViaStyleSpan {
    /// Inclusive first connected copper layer.
    pub start_layer: TraceLayer,
    /// Inclusive last connected copper layer.
    pub end_layer: TraceLayer,
}

/// Named manufacturable via construction selected by net classes.
#[derive(Clone, Debug, PartialEq)]
pub struct ViaStyle {
    /// Stable rule identity.
    pub id: ViaStyleId,
    /// Exact copper land diameter.
    pub land_diameter: Real,
    /// Exact finished drill diameter.
    pub drill_diameter: Real,
    /// Retained plating intent.
    pub plating: Plating,
    /// Independent front/back surface-mask policy.
    pub mask: ViaMaskIntent,
    /// Allowed layer spans. Empty permits any adjacent-layer transition.
    pub allowed_spans: Vec<ViaStyleSpan>,
}

/// Reduced-width and reduced-spacing terminal fanout policy for one differential pair.
#[derive(Clone, Debug, PartialEq)]
pub struct DifferentialPairNeckdown {
    /// Exact trace width used by both members through the terminal fanout.
    pub trace_width: Real,
    /// Reduced edge-to-edge spacing accepted only at paired terminals.
    pub spacing: Real,
    /// Maximum exact centerline transition length for each member.
    pub maximum_transition_length: Real,
}

/// Coupled routing constraint for two complementary nets.
#[derive(Clone, Debug, PartialEq)]
pub struct DifferentialPair {
    /// Stable pair identity.
    pub id: DifferentialPairId,
    /// Positive member net.
    pub positive: NetId,
    /// Negative member net.
    pub negative: NetId,
    /// Preferred edge-to-edge pair spacing.
    pub spacing: Real,
    /// Maximum allowed length skew.
    pub max_skew: Option<Real>,
    /// Target differential (odd-mode) impedance in ohms.
    pub target_impedance_ohms: Option<Real>,
    /// Allowed absolute differential-impedance deviation in ohms.
    pub impedance_tolerance_ohms: Option<Real>,
    /// Optional bounded symmetric fanout from reduced to nominal pair spacing.
    pub neckdown: Option<DifferentialPairNeckdown>,
}

/// Polygonal region applying stricter width and clearance to selected nets.
#[derive(Clone, Debug, PartialEq)]
pub struct RouteRuleRegion {
    /// Stable source identity.
    pub id: RouteRuleRegionId,
    /// Closed board-space boundary. An edge touching the boundary is governed.
    pub boundary: Vec<Point2>,
    /// Logical nets governed by the region; empty applies to every routed net.
    pub nets: Vec<NetId>,
    /// Regional minimum trace width; combined with other rules by exact maximum.
    pub min_trace_width: Option<Real>,
    /// Regional minimum copper clearance; combined with other rules by exact maximum.
    pub min_clearance: Option<Real>,
}

/// Polygonal region that restricts selected nets to authored layers and directions.
#[derive(Clone, Debug, PartialEq)]
pub struct RouteConstraintRegion {
    /// Stable source identity.
    pub id: RouteConstraintRegionId,
    /// Closed board-space boundary. An edge touching the boundary is constrained.
    pub boundary: Vec<Point2>,
    /// Logical nets governed by the region; empty applies to every routed net.
    pub nets: Vec<NetId>,
    /// Copper layers permitted while a governed route touches the region.
    pub allowed_layers: Vec<TraceLayer>,
    /// Permitted planar motion while a governed route touches the region.
    pub allowed_directions: Vec<RouteDirection>,
    /// Whether an adjacent-layer transition may be centered in the region.
    pub allow_vias: bool,
}

/// Terminal-local fanout policy enforced inside an exact Manhattan radius.
#[derive(Clone, Debug, PartialEq)]
pub struct EscapePolicy {
    /// Stable source identity.
    pub id: EscapePolicyId,
    /// Placed instances whose matching terminals receive this policy.
    pub instances: Vec<CircuitInstanceId>,
    /// Logical nets governed on those instances; empty selects every bound net.
    pub nets: Vec<NetId>,
    /// Exact Manhattan distance from each pad center over which policy applies.
    pub max_distance: Real,
    /// Copper layers permitted in the escape envelope.
    pub allowed_layers: Vec<TraceLayer>,
    /// Permitted planar escape directions.
    pub allowed_directions: Vec<RouteDirection>,
    /// Whether the fanout may transition layers inside the escape envelope.
    pub allow_vias: bool,
}

/// Bounded exact serpentine intent for one routed logical net.
#[derive(Clone, Debug, PartialEq)]
pub struct LengthTuningPattern {
    /// Stable source identity.
    pub id: LengthTuningPatternId,
    /// Logical net whose total orthogonal centerline length is targeted.
    pub net: NetId,
    /// Optional stable route selector; `None` chooses deterministically by capacity.
    pub route: Option<RouteId>,
    /// Board-space region that must contain every generated tuning segment.
    pub region: Vec<Point2>,
    /// Desired exact total centerline length over every route carrying `net`.
    pub target_length: Real,
    /// Accepted absolute deviation from the target.
    pub tolerance: Real,
    /// Exact perpendicular excursion for each serpentine cycle.
    pub amplitude: Real,
    /// Exact forward run before each perpendicular excursion.
    pub pitch: Real,
    /// Hard bound on generated cycles.
    pub maximum_cycles: usize,
    /// Directed side on which the serpentine is generated.
    pub side: LengthTuningSide,
}

/// Atomic length/phase-matching intent over two or more tuning patterns.
#[derive(Clone, Debug, PartialEq)]
pub struct PhaseTuningGroup {
    /// Stable group identity.
    pub id: PhaseTuningGroupId,
    /// Member tuning requests applied in retained source order.
    pub patterns: Vec<LengthTuningPatternId>,
    /// Optional differential pair whose two member nets must be covered exactly.
    pub differential_pair: Option<DifferentialPairId>,
    /// Maximum exact centerline-length skew across all member nets.
    pub maximum_skew: Real,
    /// Minimum exact edge clearance to foreign retained copper and keepouts.
    pub minimum_clearance: Real,
}

/// Circuit-owned design intent consumed by routing and DRC adapters.
#[derive(Clone, Debug, PartialEq)]
pub struct PcbDesignRules {
    /// Named per-net routing classes.
    pub net_classes: Vec<NetClass>,
    /// Named manufacturable via constructions selected by net classes.
    pub via_styles: Vec<ViaStyle>,
    /// Differential-pair declarations.
    pub differential_pairs: Vec<DifferentialPair>,
    /// Polygonal layer/direction constraints consumed by retained routers.
    pub route_constraint_regions: Vec<RouteConstraintRegion>,
    /// Polygonal width/clearance overrides consumed by retained routers.
    pub route_rule_regions: Vec<RouteRuleRegion>,
    /// Terminal-local package escape/fanout policies.
    pub escape_policies: Vec<EscapePolicy>,
    /// Exact post-route serpentine requests.
    pub length_tuning_patterns: Vec<LengthTuningPattern>,
    /// Atomic multi-pattern phase/length matching requests.
    pub phase_tuning_groups: Vec<PhaseTuningGroup>,
}

impl Default for PcbDesignRules {
    /// No rules of any kind.
    fn default() -> (rules: Self)
        ensures
            rules.net_classes@.len() == 0,
            rules.via_styles@.len() == 0,
            rules.differential_pairs@.len() == 0,
            rules.route_constraint_regions@.len() == 0,
            rules.route_rule_regions@.len() == 0,
            rules.escape_policies@.len() == 0,
            rules.length_tuning_patterns@.len() == 0,
            rules.phase_tuning_groups@.len() == 0,
    {
        PcbDesignRules {
            net_classes: Vec::new(),
            via_styles: Vec::new(),
            differential_pairs: Vec::new(),
            route_constraint_regions: Vec::new(),
            route_rule_regions: Vec::new(),
            escape_policies: Vec::new(),
            length_tuning_patterns: Vec::new(),
            phase_tuning_groups: Vec::new(),
        }
    }
}

/// Complete declarative PCB layout associated with a circuit.
#[derive(Clone, Debug, PartialEq)]
pub struct PcbLayout {
    /// Stable board id.
    pub id: BoardId,
    /// Substrate boundary and cutouts.
    pub outline: BoardOutline,
    /// Ordered physical stackup.
    pub stackup: PcbStackup,
    /// Reusable physical package definitions.
    pub land_patterns: Vec<LandPattern>,
    /// Placements of logical circuit instances.
    pub placements: Vec<PcbPlacement>,
    /// Authored fixed, relative, alignment and regional placement intent.
    pub placement_constraints: Vec<PlacementConstraint>,
    /// Routed copper.
    pub routes: Vec<PcbRoute>,
    /// Layer transitions and plated/non-plated drilled lands.
    pub vias: Vec<PcbVia>,
    /// Copper-pour source boundaries.
    pub zones: Vec<CopperZone>,
    /// Physical-layout keepouts.
    pub keepouts: Vec<PcbKeepout>,
    /// Authored routing and verification constraints.
    pub rules: PcbDesignRules,
}

impl PcbLayout {
    /// An empty board around an authored outline and stackup.
    pub fn new(id: BoardId, outline: BoardOutline, stackup: PcbStackup) -> (layout: Self)
        ensures
            layout.id == id,
            layout.outline == outline,
            layout.stackup == stackup,
            layout.land_patterns@.len() == 0,
            layout.placements@.len() == 0,
            layout.placement_constraints@.len() == 0,
            layout.routes@.len() == 0,
            layout.vias@.len() == 0,
            layout.zones@.len() == 0,
            layout.keepouts@.len() == 0,
            layout.rules.net_classes@.len() == 0,
            layout.rules.via_styles@.len() == 0,
            layout.rules.differential_pairs@.len() == 0,
            layout.rules.route_constraint_regions@.len() == 0,
            layout.rules.route_rule_regions@.len() == 0,
            layout.rules.escape_policies@.len() == 0,
            layout.rules.length_tuning_patterns@.len() == 0,
            layout.rules.phase_tuning_groups@.len() == 0,
    {
        PcbLayout {
            id,
            outline,
            stackup,
            land_patterns: Vec::new(),
            placements: Vec::new(),
            placement_constraints: Vec::new(),
            routes: Vec::new(),
            vias: Vec::new(),
            zones: Vec::new(),
            keepouts: Vec::new(),
            rules: PcbDesignRules::default(),
        }
    }
}

} // verus!

//! Structural validation of a PCB layout against its circuit.
//!
//! Validation checks identity and references, not design rules: clearance,
//! manufacturability, and release readiness belong to DRC. Every issue is
//! reported in deterministic source order: board outline, stackup, land
//! patterns, placements, placement constraints, routes, vias, zones,
//! keepouts, via styles, net classes, differential pairs, route-constraint
//! regions, route-rule regions, escape policies, length-tuning patterns, and
//! phase-tuning groups.

use hyperreal::Real;
use vstd::prelude::*;

use crate::exact::{CmpOutcome, real_add, real_compare, real_equal, real_from_i64, real_identical, real_of_int, real_order, real_rational_class, real_sum};
use crate::identity::{
    CircuitInstanceId, DifferentialPairId, EscapePolicyId, KeepoutId, LandPatternGraphicId,
    LandPatternId, LengthTuningPatternId, NetClassId, NetId, PadId, PhaseTuningGroupId, PinRef,
    PlacementConstraintId, RouteConstraintRegionId, RouteId, RouteRuleRegionId, ViaId, ViaStyleId,
    ZoneId,
};
use crate::layout::{
    BoardContour, LandPattern, LandPatternGraphic, LandPatternGraphicPrimitive, LandPatternPad,
    PadPinMap, PcbLayout, PcbPlacement, PcbRoute, PcbRouteSegment, PcbVia, PlacementConstraint,
    PlacementConstraintKind, StackupLayer, StackupLayerKind, TraceLayer, ViaMaskDisposition,
    CopperZone, CopperZoneConnection, CopperZoneFill, CopperZoneStitchingPolicy,
    PcbKeepout, ViaStyle, ViaStyleSpan, NetClass, NetClassResolutionError, DifferentialPair, Plating,
    RouteConstraintRegion, RouteRuleRegion, EscapePolicy, LengthTuningPattern, PhaseTuningGroup,
    RouteDirection,
    contour_valid, route_end, route_start, same_point, same_point_spec,
};
use crate::net_class::{first_repeated_class, net_class_resolution_error};
use crate::model::Net;
use crate::model::{Circuit, CircuitInstance, DeviceModel};
use crate::validation::{
    lemma_contains_left, lemma_contains_right,
    TextKeyed, blank, first_key, first_key_index, has_key, is_blank, is_non_negative, is_strictly_positive, key_repeats, nonnegative,
    positive, repeats, key_order, sorted_key_order, sorted_keys,
};

verus! {

/// Structural issue discovered before geometry or DRC lowering.
#[derive(Clone, Debug, PartialEq, Eq)]
pub enum LayoutValidationIssue {
    /// Exterior or cutout contour is not a valid closed contour.
    InvalidBoardContour,
    /// Stackup is empty or has no conductor.
    MissingCopperStackup,
    /// Stackup layer thickness is not strictly positive.
    NonPositiveLayerThickness(String),
    /// Two conductor layers use one routing index.
    DuplicateRoutingLayer(TraceLayer),
    /// Two land patterns share one id.
    DuplicateLandPattern(LandPatternId),
    /// Two pads in one land pattern share one id.
    DuplicatePad { land_pattern: LandPatternId, pad: PadId },
    /// Pin map references a pad absent from its land pattern.
    UnknownMappedPad { land_pattern: LandPatternId, pad: PadId },
    /// Two artwork primitives share one identity in a land pattern.
    DuplicateLandPatternGraphic { land_pattern: LandPatternId, graphic: LandPatternGraphicId },
    /// Artwork dimensions or required vertex counts are invalid.
    InvalidLandPatternGraphic { land_pattern: LandPatternId, graphic: LandPatternGraphicId },
    /// Package body outline or dimensions are invalid.
    InvalidLandPatternBody(LandPatternId),
    /// One independently retained package-model reference is invalid.
    InvalidPcb3dModelReference {
        /// Land pattern owning the reference.
        land_pattern: LandPatternId,
        /// Zero-based authored model record.
        model_index: usize,
    },
    /// One logical pin/pad pair is repeated in a land pattern.
    DuplicatePinPadMapping { land_pattern: LandPatternId, pin: PinRef, pad: PadId },
    /// Placement references a logical instance absent from the circuit.
    UnknownPlacedInstance(CircuitInstanceId),
    /// Placement references an absent land pattern.
    UnknownPlacementLandPattern(LandPatternId),
    /// One logical instance is placed more than once.
    DuplicatePlacement(CircuitInstanceId),
    /// Two placement constraints share one stable id.
    DuplicatePlacementConstraint(PlacementConstraintId),
    /// A placement constraint references an unplaced logical instance.
    UnknownPlacementConstraintInstance { constraint: PlacementConstraintId, instance: CircuitInstanceId },
    /// Constraint has invalid arity, self-reference, or region ordering.
    InvalidPlacementConstraint(PlacementConstraintId),
    /// More than one fixed/relative equation drives one instance origin.
    MultiplePlacementDrivers(CircuitInstanceId),
    /// A connected pin on a placed instance has no physical pad mapping.
    MissingPlacedPinPad { instance: CircuitInstanceId, pin: PinRef },
    /// A placed land pattern maps a pin absent from the instance device model.
    UnknownPlacedPatternPin { instance: CircuitInstanceId, pin: PinRef },
    /// Route references an absent logical net.
    UnknownRouteNet { route: RouteId, net: NetId },
    /// Route references a conductor layer absent from the stackup.
    UnknownRouteLayer { route: RouteId, layer: TraceLayer },
    /// Route has no centerline segments.
    EmptyRoute(RouteId),
    /// Route width is not strictly positive.
    NonPositiveRouteWidth(RouteId),
    /// Consecutive route segments are not connected exactly.
    DisconnectedRoute(RouteId),
    /// A circular route segment is as wide as or wider than its retained diameter.
    InvalidRouteArcWidth(RouteId),
    /// Two routes share one id.
    DuplicateRoute(RouteId),
    /// Via references an absent logical net.
    UnknownViaNet { via: ViaId, net: NetId },
    /// Via layer span, land, drill, or plating geometry is invalid.
    InvalidVia(ViaId),
    /// Two vias share one id.
    DuplicateVia(ViaId),
    /// Zone references an absent logical net.
    UnknownZoneNet { zone: ZoneId, net: NetId },
    /// Zone references a conductor layer absent from the stackup.
    UnknownZoneLayer { zone: ZoneId, layer: TraceLayer },
    /// Zone boundary has fewer than three vertices.
    InvalidZoneBoundary(ZoneId),
    /// Zone clearance, hatch, or connection policy is invalid.
    InvalidZonePolicy(ZoneId),
    /// Two zones share one id.
    DuplicateZone(ZoneId),
    /// Keepout boundary has fewer than three vertices.
    InvalidKeepoutBoundary(KeepoutId),
    /// Two keepouts share one id.
    DuplicateKeepout(KeepoutId),
    /// Two net classes share one identity.
    DuplicateNetClass(NetClassId),
    /// A net class references an absent base class.
    UnknownNetClassParent { class: NetClassId, parent: NetClassId },
    /// Net-class inheritance contains a cycle.
    NetClassInheritanceCycle(NetClassId),
    /// One net is assigned directly to more than one class.
    NetInMultipleClasses(NetId),
    /// Two named via constructions share one identity.
    DuplicateViaStyle(ViaStyleId),
    /// A named via construction has invalid geometry, mask, or layer spans.
    InvalidViaStyle(ViaStyleId),
    /// A net class references an absent net.
    UnknownNetClassNet { class: NetClassId, net: NetId },
    /// A net class selects an absent named via construction.
    UnknownNetClassViaStyle { class: NetClassId, style: ViaStyleId },
    /// A rule scalar that must be positive is zero, negative, or indeterminate.
    InvalidNetClassConstraint(NetClassId),
    /// Two differential pairs share one identity.
    DuplicateDifferentialPair(DifferentialPairId),
    /// A differential pair references an absent net, repeats a net, or has invalid dimensions.
    InvalidDifferentialPair(DifferentialPairId),
    /// Two route-constraint regions share one identity.
    DuplicateRouteConstraintRegion(RouteConstraintRegionId),
    /// A route-constraint region references an absent logical net.
    UnknownRouteConstraintRegionNet { region: RouteConstraintRegionId, net: NetId },
    /// Region boundary, layer set, or direction set is invalid.
    InvalidRouteConstraintRegion(RouteConstraintRegionId),
    /// Two regional width/clearance rules share one identity.
    DuplicateRouteRuleRegion(RouteRuleRegionId),
    /// A regional rule references an absent logical net.
    UnknownRouteRuleRegionNet { region: RouteRuleRegionId, net: NetId },
    /// Regional boundary or width/clearance override is invalid.
    InvalidRouteRuleRegion(RouteRuleRegionId),
    /// Two escape policies share one identity.
    DuplicateEscapePolicy(EscapePolicyId),
    /// An escape policy references an unplaced instance.
    UnknownEscapePolicyInstance { policy: EscapePolicyId, instance: CircuitInstanceId },
    /// An escape policy references an absent logical net.
    UnknownEscapePolicyNet { policy: EscapePolicyId, net: NetId },
    /// Escape distance, layer set, direction set, or instance set is invalid.
    InvalidEscapePolicy(EscapePolicyId),
    /// Two tuning requests share one identity.
    DuplicateLengthTuningPattern(LengthTuningPatternId),
    /// A tuning request references an absent net or a route on another net.
    InvalidLengthTuningTarget(LengthTuningPatternId),
    /// Tuning geometry, tolerance, or generation bound is invalid.
    InvalidLengthTuningPattern(LengthTuningPatternId),
    /// Two phase-tuning groups share one identity.
    DuplicatePhaseTuningGroup(PhaseTuningGroupId),
    /// A phase group references absent/repeated patterns or the wrong pair members.
    InvalidPhaseTuningTarget(PhaseTuningGroupId),
    /// A phase group has too few members or invalid skew/clearance dimensions.
    InvalidPhaseTuningGroup(PhaseTuningGroupId),
}

/// Deterministic structural validation result for a PCB layout.
#[derive(Clone, Debug, PartialEq, Eq)]
pub struct LayoutValidationReport {
    /// Every discovered issue in source order.
    pub issues: Vec<LayoutValidationIssue>,
}

impl LayoutValidationReport {
    /// True when layout identity and authored topology are structurally valid.
    pub fn is_valid(&self) -> (valid: bool)
        ensures
            valid == (self.issues@.len() == 0),
    {
        self.issues.len() == 0
    }
}

// ---------------------------------------------------------------------------
// Issue lists.
// ---------------------------------------------------------------------------

/// Issues of the first `count` items, `issue_at(k)` for item `k`, in order.
pub open spec fn all_issues(issue_at: spec_fn(int) -> Seq<LayoutValidationIssue>, count: int) -> Seq<LayoutValidationIssue>
    decreases count,
{
    if count <= 0 {
        Seq::empty()
    } else {
        all_issues(issue_at, count - 1) + issue_at(count - 1)
    }
}

/// No issues among the first `count` items means none for each of them.
pub proof fn lemma_no_issues(issue_at: spec_fn(int) -> Seq<LayoutValidationIssue>, count: int, k: int)
    requires
        all_issues(issue_at, count).len() == 0,
        0 <= k < count,
    ensures
        issue_at(k).len() == 0,
    decreases count,
{
    if k < count - 1 {
        lemma_no_issues(issue_at, count - 1, k);
    }
}

/// One issue when `condition` holds, none otherwise.
pub open spec fn raise(condition: bool, issue: LayoutValidationIssue) -> Seq<LayoutValidationIssue> {
    if condition {
        seq![issue]
    } else {
        Seq::empty()
    }
}

fn push_when(issues: &mut Vec<LayoutValidationIssue>, condition: bool, issue: LayoutValidationIssue)
    ensures
        final(issues)@ == old(issues)@ + raise(condition, issue),
{
    if condition {
        issues.push(issue);
    }
    proof {
        assert(issues@ =~= old(issues)@ + raise(condition, issue));
    }
}

// ---------------------------------------------------------------------------
// Exact comparisons.
// ---------------------------------------------------------------------------

/// Certified `a > b`.
pub open spec fn certified_greater(a: Real, b: Real) -> bool {
    real_order(a, b) == Some(CmpOutcome::Greater)
}

/// Certified `a >= b`.
pub open spec fn certified_at_least(a: Real, b: Real) -> bool {
    real_order(a, b) == Some(CmpOutcome::Greater) || real_order(a, b) == Some(CmpOutcome::Equal)
}

/// Certified `a <= b`.
pub open spec fn certified_at_most(a: Real, b: Real) -> bool {
    real_order(a, b) == Some(CmpOutcome::Less) || real_order(a, b) == Some(CmpOutcome::Equal)
}

/// Certified `a < b`.
pub open spec fn certified_less(a: Real, b: Real) -> bool {
    real_order(a, b) == Some(CmpOutcome::Less)
}

fn greater(a: &Real, b: &Real) -> (result: bool)
    ensures
        real_rational_class(*a) && real_rational_class(*b) ==> result == certified_greater(*a, *b),
{
    real_compare(a, b) == Some(CmpOutcome::Greater)
}

fn at_least(a: &Real, b: &Real) -> (result: bool)
    ensures
        real_rational_class(*a) && real_rational_class(*b) ==> result == certified_at_least(*a, *b),
{
    let order = real_compare(a, b);
    order == Some(CmpOutcome::Greater) || order == Some(CmpOutcome::Equal)
}

pub(crate) fn at_most(a: &Real, b: &Real) -> (result: bool)
    ensures
        real_rational_class(*a) && real_rational_class(*b) ==> result == certified_at_most(*a, *b),
{
    let order = real_compare(a, b);
    order == Some(CmpOutcome::Less) || order == Some(CmpOutcome::Equal)
}

fn less(a: &Real, b: &Real) -> (result: bool)
    ensures
        real_rational_class(*a) && real_rational_class(*b) ==> result == certified_less(*a, *b),
{
    real_compare(a, b) == Some(CmpOutcome::Less)
}

/// A declared value, when present, is structurally positive.
pub open spec fn positive_if_present(value: Option<Real>) -> bool {
    match value {
        Some(v) => positive(v),
        None => true,
    }
}

fn is_positive_if_present(value: &Option<Real>) -> (result: bool)
    ensures
        rational_if_present(*value) ==> result == positive_if_present(*value),
{
    match value {
        Some(v) => is_strictly_positive(v),
        None => true,
    }
}

/// Structurally identical to zero (`Real::zero()`, which `Real::from(0)` also yields).
pub open spec fn identical_zero(x: Real) -> bool {
    real_identical(x, real_of_int(0))
}

fn is_identical_zero(x: &Real) -> (result: bool)
    ensures
        result == identical_zero(*x),
{
    let zero = real_from_i64(0);
    real_equal(x, &zero)
}

// ---------------------------------------------------------------------------
// Exact rationals: the layouts whose numeric checks hyperreal decides from
// the rationals themselves.
// ---------------------------------------------------------------------------

/// A present value is an exact rational.
pub open spec fn rational_if_present(value: Option<Real>) -> bool {
    match value {
        Some(v) => real_rational_class(v),
        None => true,
    }
}

/// An open mask's margin is an exact rational.
pub open spec fn mask_rational(mask: ViaMaskDisposition) -> bool {
    match mask {
        ViaMaskDisposition::Open { margin } => real_rational_class(margin),
        _ => true,
    }
}

/// The numbers a graphic's check inspects are exact rationals.
pub open spec fn graphic_rational(graphic: LandPatternGraphic) -> bool {
    rational_if_present(graphic.stroke_width) && match graphic.primitive {
        LandPatternGraphicPrimitive::Circle { radius, .. } => real_rational_class(radius),
        LandPatternGraphicPrimitive::Text { height, .. } => real_rational_class(height),
        _ => true,
    }
}

/// The numbers a land pattern's check inspects are exact rationals.
pub open spec fn land_pattern_rational(pattern: LandPattern) -> bool {
    &&& forall|g: int| 0 <= g < pattern.graphics@.len() ==> #[trigger] graphic_rational(pattern.graphics@[g])
    &&& match pattern.body {
        Some(body) => real_rational_class(body.height) && real_rational_class(body.standoff),
        None => true,
    }
}

/// The corners of a `Within` constraint are exact rationals.
pub open spec fn constraint_rational(kind: PlacementConstraintKind) -> bool {
    match kind {
        PlacementConstraintKind::Within { min, max, .. } => real_rational_class(min.x) && real_rational_class(min.y)
            && real_rational_class(max.x) && real_rational_class(max.y),
        _ => true,
    }
}

/// A route's width and arc radii are exact rationals.
pub open spec fn route_rational(route: PcbRoute) -> bool {
    &&& real_rational_class(route.width)
    &&& forall|i: int|
        0 <= i < route.segments@.len() ==> (#[trigger] route.segments@[i] matches PcbRouteSegment::CircularArc(arc)
            ==> real_rational_class(arc.radius))
}

/// A via's diameters and mask margins are exact rationals.
pub open spec fn via_rational(via: PcbVia) -> bool {
    real_rational_class(via.land_diameter) && real_rational_class(via.drill_diameter) && mask_rational(via.mask.front)
        && mask_rational(via.mask.back)
}

/// A zone's policy numbers are exact rationals.
pub open spec fn zone_rational(zone: CopperZone) -> bool {
    &&& real_rational_class(zone.clearance)
    &&& match zone.fill {
        CopperZoneFill::Hatched { line_width, gap, .. } => real_rational_class(line_width) && real_rational_class(gap),
        _ => true,
    }
    &&& match zone.connection {
        CopperZoneConnection::ThermalRelief { air_gap, spoke_width, .. } => real_rational_class(air_gap)
            && real_rational_class(spoke_width),
        _ => true,
    }
    &&& rational_if_present(zone.islands.minimum_area)
    &&& match zone.stitching {
        Some(stitching) => real_rational_class(stitching.pitch) && real_rational_class(stitching.edge_clearance)
            && real_rational_class(stitching.land_diameter) && real_rational_class(stitching.drill_diameter)
            && mask_rational(stitching.mask.front) && mask_rational(stitching.mask.back),
        None => true,
    }
}

/// A via style's diameters and mask margins are exact rationals.
pub open spec fn via_style_rational(style: ViaStyle) -> bool {
    real_rational_class(style.land_diameter) && real_rational_class(style.drill_diameter) && mask_rational(
        style.mask.front,
    ) && mask_rational(style.mask.back)
}

/// A net class's declared policy scalars are exact rationals.
pub open spec fn class_rational(class: NetClass) -> bool {
    rational_if_present(class.min_trace_width) && rational_if_present(class.preferred_trace_width)
        && rational_if_present(class.min_clearance) && rational_if_present(class.preferred_via_land_diameter)
        && rational_if_present(class.preferred_via_drill_diameter) && rational_if_present(class.max_length)
        && rational_if_present(class.target_impedance_ohms) && rational_if_present(class.impedance_tolerance_ohms)
}

/// A differential pair's spacing, declared limits and neckdown are exact rationals.
pub open spec fn pair_rational(pair: DifferentialPair) -> bool {
    &&& real_rational_class(pair.spacing)
    &&& rational_if_present(pair.max_skew)
    &&& rational_if_present(pair.target_impedance_ohms)
    &&& rational_if_present(pair.impedance_tolerance_ohms)
    &&& match pair.neckdown {
        Some(neckdown) => real_rational_class(neckdown.trace_width) && real_rational_class(neckdown.spacing)
            && real_rational_class(neckdown.maximum_transition_length),
        None => true,
    }
}

/// A rule region's overrides are exact rationals.
pub open spec fn rule_region_rational(region: RouteRuleRegion) -> bool {
    rational_if_present(region.min_trace_width) && rational_if_present(region.min_clearance)
}

/// A tuning pattern's dimensions are exact rationals.
pub open spec fn tuning_rational(pattern: LengthTuningPattern) -> bool {
    real_rational_class(pattern.target_length) && real_rational_class(pattern.tolerance) && real_rational_class(
        pattern.amplitude,
    ) && real_rational_class(pattern.pitch)
}

/// A phase group's skew and clearance are exact rationals.
pub open spec fn phase_rational(group: PhaseTuningGroup) -> bool {
    real_rational_class(group.maximum_skew) && real_rational_class(group.minimum_clearance)
}

/// Stackup layer thicknesses are exact rationals.
pub open spec fn stackup_rational(layout: PcbLayout) -> bool {
    forall|k: int| 0 <= k < layout.stackup.layers@.len() ==> #[trigger] real_rational_class(layout.stackup.layers@[k].thickness)
}

/// Land-pattern artwork and body numbers are exact rationals.
pub open spec fn land_patterns_rational(layout: PcbLayout) -> bool {
    forall|p: int| 0 <= p < layout.land_patterns@.len() ==> #[trigger] land_pattern_rational(layout.land_patterns@[p])
}

/// Placement-constraint region corners are exact rationals.
pub open spec fn constraints_rational(layout: PcbLayout) -> bool {
    forall|c: int| 0 <= c < layout.placement_constraints@.len() ==> #[trigger] constraint_rational(layout.placement_constraints@[c].kind)
}

/// Route widths and arc radii are exact rationals.
pub open spec fn routes_rational(layout: PcbLayout) -> bool {
    forall|r: int| 0 <= r < layout.routes@.len() ==> #[trigger] route_rational(layout.routes@[r])
}

/// Via diameters and mask margins are exact rationals.
pub open spec fn vias_rational(layout: PcbLayout) -> bool {
    forall|v: int| 0 <= v < layout.vias@.len() ==> #[trigger] via_rational(layout.vias@[v])
}

/// Zone policy numbers are exact rationals.
pub open spec fn zones_rational(layout: PcbLayout) -> bool {
    forall|z: int| 0 <= z < layout.zones@.len() ==> #[trigger] zone_rational(layout.zones@[z])
}

/// Via-style diameters and mask margins are exact rationals.
pub open spec fn via_styles_rational(layout: PcbLayout) -> bool {
    forall|v: int| 0 <= v < layout.rules.via_styles@.len() ==> #[trigger] via_style_rational(layout.rules.via_styles@[v])
}

/// Net-class policy scalars are exact rationals.
pub open spec fn classes_rational(layout: PcbLayout) -> bool {
    forall|c: int| 0 <= c < layout.rules.net_classes@.len() ==> #[trigger] class_rational(layout.rules.net_classes@[c])
}

/// Differential-pair numbers are exact rationals.
pub open spec fn pairs_rational(layout: PcbLayout) -> bool {
    forall|d: int| 0 <= d < layout.rules.differential_pairs@.len() ==> #[trigger] pair_rational(layout.rules.differential_pairs@[d])
}

/// Rule-region overrides are exact rationals.
pub open spec fn rule_regions_rational(layout: PcbLayout) -> bool {
    forall|g: int| 0 <= g < layout.rules.route_rule_regions@.len() ==> #[trigger] rule_region_rational(layout.rules.route_rule_regions@[g])
}

/// Escape distances are exact rationals.
pub open spec fn escapes_rational(layout: PcbLayout) -> bool {
    forall|e: int| 0 <= e < layout.rules.escape_policies@.len() ==> #[trigger] real_rational_class(layout.rules.escape_policies@[e].max_distance)
}

/// Length-tuning dimensions are exact rationals.
pub open spec fn tunings_rational(layout: PcbLayout) -> bool {
    forall|t: int| 0 <= t < layout.rules.length_tuning_patterns@.len() ==> #[trigger] tuning_rational(layout.rules.length_tuning_patterns@[t])
}

/// Phase-group skews and clearances are exact rationals.
pub open spec fn phases_rational(layout: PcbLayout) -> bool {
    forall|g: int| 0 <= g < layout.rules.phase_tuning_groups@.len() ==> #[trigger] phase_rational(layout.rules.phase_tuning_groups@[g])
}

/// Every number the layout's validation inspects is an exact rational, so
/// that every numeric check is decided from the rationals themselves.
pub open spec fn layout_numbers_rational(layout: PcbLayout) -> bool {
    &&& stackup_rational(layout)
    &&& land_patterns_rational(layout)
    &&& constraints_rational(layout)
    &&& routes_rational(layout)
    &&& vias_rational(layout)
    &&& zones_rational(layout)
    &&& via_styles_rational(layout)
    &&& classes_rational(layout)
    &&& pairs_rational(layout)
    &&& rule_regions_rational(layout)
    &&& escapes_rational(layout)
    &&& tunings_rational(layout)
    &&& phases_rational(layout)
}

/// The issues of several items, concatenated in order.
pub open spec fn joined_items(items: Seq<Seq<LayoutValidationIssue>>) -> Seq<LayoutValidationIssue>
    decreases items.len(),
{
    if items.len() == 0 {
        Seq::empty()
    } else {
        joined_items(items.drop_last()) + items.last()
    }
}

/// The reported issues of `count` items, each equal to `issue_at(i)` for
/// every item that `decided` marks (its numbers are exact rationals).
pub open spec fn items_agree(
    items: Seq<Seq<LayoutValidationIssue>>,
    issue_at: spec_fn(int) -> Seq<LayoutValidationIssue>,
    decided: spec_fn(int) -> bool,
    count: int,
) -> bool {
    &&& items.len() == count
    &&& forall|i: int| 0 <= i < count && #[trigger] decided(i) ==> items[i] == issue_at(i)
}

proof fn lemma_items_decided(
    items: Seq<Seq<LayoutValidationIssue>>,
    issue_at: spec_fn(int) -> Seq<LayoutValidationIssue>,
    decided: spec_fn(int) -> bool,
    count: int,
)
    requires
        0 <= count,
        items_agree(items, issue_at, decided, count),
        forall|i: int| 0 <= i < count ==> #[trigger] decided(i),
    ensures
        joined_items(items) == all_issues(issue_at, count),
    decreases count,
{
    if count > 0 {
        let shorter = items.drop_last();
        assert(decided(count - 1));
        assert forall|i: int| 0 <= i < count - 1 && #[trigger] decided(i) implies shorter[i] == issue_at(i) by {
            assert(items[i] == issue_at(i));
        }
        lemma_items_decided(shorter, issue_at, decided, count - 1);
    }
}

pub(crate) proof fn lemma_item_shows(items: Seq<Seq<LayoutValidationIssue>>, i: int)
    requires
        0 <= i < items.len(),
        items[i].len() > 0,
    ensures
        joined_items(items).len() > 0,
    decreases items.len(),
{
    if i < items.len() - 1 {
        lemma_item_shows(items.drop_last(), i);
    }
}

/// A sequence that begins with `start`.
pub open spec fn extends<T>(s: Seq<T>, start: Seq<T>) -> bool {
    s.len() >= start.len() && forall|i: int| 0 <= i < start.len() ==> #[trigger] s[i] == start[i]
}

// ---------------------------------------------------------------------------
// Board outline and stackup.
// ---------------------------------------------------------------------------

/// Some cutout contour is invalid.
pub open spec fn some_cutout_invalid(cutouts: Seq<BoardContour>) -> bool {
    exists|i: int| 0 <= i < cutouts.len() && !contour_valid(#[trigger] cutouts[i]@)
}

/// Outline section: one issue when the exterior or a cutout is not a valid closed contour.
pub open spec fn outline_section(layout: PcbLayout) -> Seq<LayoutValidationIssue> {
    raise(
        !contour_valid(layout.outline.exterior@) || some_cutout_invalid(layout.outline.cutouts@),
        LayoutValidationIssue::InvalidBoardContour,
    )
}

/// Routing index of a conductor layer.
pub open spec fn conductor_index(layer: StackupLayer) -> Option<u16> {
    match layer.kind {
        StackupLayerKind::Conductor(index) => Some(index.0),
        _ => None,
    }
}

/// Some conductor among the first `count` layers has routing index `index`.
pub open spec fn conductor_among(layers: Seq<StackupLayer>, count: int, index: u16) -> bool {
    exists|j: int| 0 <= j < count && #[trigger] conductor_index(layers[j]) == Some(index)
}

/// The stackup has a conductor with routing index `index`.
pub open spec fn routing_layer(layout: PcbLayout, index: u16) -> bool {
    conductor_among(layout.stackup.layers@, layout.stackup.layers@.len() as int, index)
}

/// Issues of stackup layer `k`: non-positive thickness, then a repeated routing index.
pub open spec fn stackup_layer_issues(layers: Seq<StackupLayer>) -> spec_fn(int) -> Seq<LayoutValidationIssue> {
    |k: int|
        raise(!positive(layers[k].thickness), LayoutValidationIssue::NonPositiveLayerThickness(layers[k].name))
            + match conductor_index(layers[k]) {
            Some(index) => raise(
                conductor_among(layers, k, index),
                LayoutValidationIssue::DuplicateRoutingLayer(TraceLayer(index)),
            ),
            None => Seq::empty(),
        }
}

/// Number of conductor layers among the first `count`.
pub open spec fn conductor_count(layers: Seq<StackupLayer>, count: int) -> int
    decreases count,
{
    if count <= 0 {
        0
    } else {
        conductor_count(layers, count - 1) + if conductor_index(layers[count - 1]) is Some {
            1int
        } else {
            0int
        }
    }
}

/// Stackup section: layer issues in order, then a missing conductor.
pub open spec fn stackup_section(layout: PcbLayout) -> Seq<LayoutValidationIssue> {
    let layers = layout.stackup.layers@;
    all_issues(stackup_layer_issues(layers), layers.len() as int) + raise(
        conductor_count(layers, layers.len() as int) == 0,
        LayoutValidationIssue::MissingCopperStackup,
    )
}

/// Whether some of the first `count` layers is a conductor with routing index `index`.
fn conductor_in(layers: &Vec<StackupLayer>, count: usize, index: u16) -> (found: bool)
    requires
        count <= layers@.len(),
    ensures
        found == conductor_among(layers@, count as int, index),
{
    let mut j: usize = 0;
    while j < count
        invariant
            j <= count <= layers@.len(),
            forall|i: int| 0 <= i < j ==> #[trigger] conductor_index(layers@[i]) != Some(index),
        decreases count - j,
    {
        match &layers[j].kind {
            StackupLayerKind::Conductor(layer) => {
                if layer.0 == index {
                    proof {
                        assert(conductor_index(layers@[j as int]) == Some(index));
                    }
                    return true;
                }
            },
            _ => {},
        }
        j = j + 1;
    }
    false
}

impl PcbLayout {
    /// Whether the stackup has a conductor with routing index `index`.
    fn has_routing_layer(&self, index: u16) -> (found: bool)
        ensures
            found == routing_layer(*self, index),
    {
        conductor_in(&self.stackup.layers, self.stackup.layers.len(), index)
    }

    fn check_outline(&self, issues: &mut Vec<LayoutValidationIssue>)
        ensures
            final(issues)@ == old(issues)@ + outline_section(*self),
    {
        let mut invalid = !self.outline.exterior.is_valid();
        let mut i: usize = 0;
        while i < self.outline.cutouts.len()
            invariant
                i <= self.outline.cutouts@.len(),
                invalid == (!contour_valid(self.outline.exterior@) || exists|j: int|
                    0 <= j < i && !contour_valid(#[trigger] self.outline.cutouts@[j]@)),
            decreases self.outline.cutouts.len() - i,
        {
            if !self.outline.cutouts[i].is_valid() {
                invalid = true;
            }
            i = i + 1;
        }
        push_when(issues, invalid, LayoutValidationIssue::InvalidBoardContour);
    }

    fn check_stackup(&self, issues: &mut Vec<LayoutValidationIssue>) -> (items: Ghost<Seq<Seq<LayoutValidationIssue>>>)
        ensures
            items_agree(items@, stackup_layer_issues(self.stackup.layers@), |i: int| real_rational_class(self.stackup.layers@[i].thickness), self.stackup.layers@.len() as int),
            final(issues)@ == old(issues)@ + joined_items(items@) + raise(conductor_count(self.stackup.layers@, self.stackup.layers@.len() as int) == 0, LayoutValidationIssue::MissingCopperStackup),
            extends(final(issues)@, old(issues)@),
            stackup_rational(*self) ==> final(issues)@ == old(issues)@ + stackup_section(*self),
    {
        let ghost start = issues@;
        let ghost mut found: Seq<Seq<LayoutValidationIssue>> = Seq::empty();
        let layers = &self.stackup.layers;
        let mut conductors: usize = 0;
        let mut k: usize = 0;
        while k < layers.len()
            invariant
                items_agree(found, stackup_layer_issues(self.stackup.layers@), |i: int| real_rational_class(self.stackup.layers@[i].thickness), k as int),
                issues@ == start + joined_items(found),
                k <= layers@.len(),
                layers@ == self.stackup.layers@,
                extends(issues@, start),
                stackup_rational(*self) ==> issues@ == start + all_issues(stackup_layer_issues(layers@), k as int),
                conductors == conductor_count(layers@, k as int),
                conductors <= k,
            decreases layers.len() - k,
        {
            let ghost before = issues@;
            let layer = &layers[k];
            push_when(
                issues,
                !is_strictly_positive(&layer.thickness),
                LayoutValidationIssue::NonPositiveLayerThickness(layer.name.clone()),
            );
            match &layer.kind {
                StackupLayerKind::Conductor(index) => {
                    conductors = conductors + 1;
                    let seen = conductor_in(layers, k, index.0);
                    push_when(issues, seen, LayoutValidationIssue::DuplicateRoutingLayer(TraceLayer(index.0)));
                },
                _ => {},
            }
            proof {
                let item = issues@.subrange(before.len() as int, issues@.len() as int);
                assert(issues@ =~= before + item);
                let previous = found;
                found = found.push(item);
                assert(found.drop_last() =~= previous);
                assert(joined_items(found) == joined_items(previous) + item);
                let issue_at = stackup_layer_issues(self.stackup.layers@);
                let decided = |i: int| real_rational_class(self.stackup.layers@[i].thickness);
                if decided(k as int) {
                    assert(item =~= issue_at(k as int));
                }
                assert forall|i: int| 0 <= i < found.len() && #[trigger] decided(i) implies found[i] == issue_at(i) by {
                    if i < previous.len() {
                        assert(found[i] == previous[i]);
                    }
                }
                assert(issues@ =~= start + joined_items(found));
            }
            k = k + 1;
            proof {
                if stackup_rational(*self) {
                    assert(real_rational_class(self.stackup.layers@[k - 1].thickness));
                    assert(issues@ =~= start + all_issues(stackup_layer_issues(layers@), k as int));
                }
            }
        }
        push_when(issues, conductors == 0, LayoutValidationIssue::MissingCopperStackup);
        proof {
            if stackup_rational(*self) {
                assert(issues@ =~= start + stackup_section(*self));
            }
        }
        proof {
            assert(issues@ =~= start + joined_items(found) + raise(conductor_count(self.stackup.layers@, self.stackup.layers@.len() as int) == 0, LayoutValidationIssue::MissingCopperStackup));
        }
        Ghost(found)
    }
}


// ---------------------------------------------------------------------------
// Land patterns.
// ---------------------------------------------------------------------------

impl TextKeyed for LandPattern {
    open spec fn key_text(&self) -> Seq<char> {
        self.id@
    }

    fn key(&self) -> (key: &String) {
        &self.id.0
    }
}

impl TextKeyed for LandPatternPad {
    open spec fn key_text(&self) -> Seq<char> {
        self.id@
    }

    fn key(&self) -> (key: &String) {
        &self.id.0
    }
}

impl TextKeyed for LandPatternGraphic {
    open spec fn key_text(&self) -> Seq<char> {
        self.id@
    }

    fn key(&self) -> (key: &String) {
        &self.id.0
    }
}

/// Artwork is valid: a declared stroke is positive, and the primitive is a
/// line between distinct points, a circle of positive radius, a polygon of
/// at least three vertices, or non-empty text of positive height.
pub open spec fn graphic_valid(graphic: LandPatternGraphic) -> bool {
    positive_if_present(graphic.stroke_width) && match graphic.primitive {
        LandPatternGraphicPrimitive::Line { start, end } => !same_point_spec(start, end),
        LandPatternGraphicPrimitive::Circle { radius, .. } => positive(radius),
        LandPatternGraphicPrimitive::Polygon { vertices, .. } => vertices@.len() >= 3,
        LandPatternGraphicPrimitive::Text { text, height, .. } => text@.len() > 0 && positive(height),
    }
}

fn is_graphic_valid(graphic: &LandPatternGraphic) -> (valid: bool)
    ensures
        graphic_rational(*graphic) ==> valid == graphic_valid(*graphic),
{
    let stroke = is_positive_if_present(&graphic.stroke_width);
    let primitive = match &graphic.primitive {
        LandPatternGraphicPrimitive::Line { start, end } => !same_point(start, end),
        LandPatternGraphicPrimitive::Circle { radius, .. } => is_strictly_positive(radius),
        LandPatternGraphicPrimitive::Polygon { vertices, .. } => vertices.len() >= 3,
        LandPatternGraphicPrimitive::Text { text, height, .. } => text.as_str().unicode_len() > 0 && is_strictly_positive(height),
    };
    stroke && primitive
}

/// Pin-map entry `m` repeats the pin and pad of an earlier entry.
pub open spec fn mapping_repeats(map: Seq<PadPinMap>, m: int) -> bool {
    exists|j: int| 0 <= j < m && #[trigger] map[j].pin@ == map[m].pin@ && map[j].pad@ == map[m].pad@
}

fn mapping_seen(map: &Vec<PadPinMap>, m: usize) -> (found: bool)
    requires
        m < map@.len(),
    ensures
        found == mapping_repeats(map@, m as int),
{
    let mut j: usize = 0;
    while j < m
        invariant
            j <= m < map@.len(),
            forall|i: int| 0 <= i < j ==> !(#[trigger] map@[i].pin@ == map@[m as int].pin@ && map@[i].pad@ == map@[m as int].pad@),
        decreases m - j,
    {
        if map[j].pin.same(&map[m].pin) && map[j].pad.same(&map[m].pad) {
            return true;
        }
        j = j + 1;
    }
    false
}

/// Issues of pad `d`: a repeated pad identity.
pub open spec fn pad_issues(pattern: LandPattern) -> spec_fn(int) -> Seq<LayoutValidationIssue> {
    |d: int|
        raise(
            repeats(pattern.pads@, d),
            LayoutValidationIssue::DuplicatePad { land_pattern: pattern.id, pad: pattern.pads@[d].id },
        )
}

/// Issues of pin-map entry `m`: a pad absent from the pattern.
pub open spec fn mapped_pad_issues(pattern: LandPattern) -> spec_fn(int) -> Seq<LayoutValidationIssue> {
    |m: int|
        raise(
            !has_key(pattern.pads@, pattern.pin_map@[m].pad@),
            LayoutValidationIssue::UnknownMappedPad { land_pattern: pattern.id, pad: pattern.pin_map@[m].pad },
        )
}

/// Issues of graphic `g`: a repeated identity, then invalid artwork.
pub open spec fn graphic_issues(pattern: LandPattern) -> spec_fn(int) -> Seq<LayoutValidationIssue> {
    |g: int|
        raise(
            repeats(pattern.graphics@, g),
            LayoutValidationIssue::DuplicateLandPatternGraphic {
                land_pattern: pattern.id,
                graphic: pattern.graphics@[g].id,
            },
        ) + raise(
            !graphic_valid(pattern.graphics@[g]),
            LayoutValidationIssue::InvalidLandPatternGraphic {
                land_pattern: pattern.id,
                graphic: pattern.graphics@[g].id,
            },
        )
}

/// Body issue: an outline of fewer than three points, a non-positive height,
/// or a standoff that is not non-negative.
pub open spec fn body_issues(pattern: LandPattern) -> Seq<LayoutValidationIssue> {
    match pattern.body {
        Some(body) => raise(
            !(body.outline@.len() >= 3 && positive(body.height) && nonnegative(body.standoff)),
            LayoutValidationIssue::InvalidLandPatternBody(pattern.id),
        ),
        None => Seq::empty(),
    }
}

/// Issues of model `i`: a blank URI or a scale factor identical to zero.
pub open spec fn model_issues(pattern: LandPattern) -> spec_fn(int) -> Seq<LayoutValidationIssue> {
    |i: int|
        raise(
            is_blank(pattern.models@[i].uri@) || identical_zero(pattern.models@[i].transform.scale_x)
                || identical_zero(pattern.models@[i].transform.scale_y) || identical_zero(
                pattern.models@[i].transform.scale_z,
            ),
            LayoutValidationIssue::InvalidPcb3dModelReference { land_pattern: pattern.id, model_index: i as usize },
        )
}

/// Issues of pin-map entry `m`: a repeated pin/pad pair.
pub open spec fn mapping_issues(pattern: LandPattern) -> spec_fn(int) -> Seq<LayoutValidationIssue> {
    |m: int|
        raise(
            mapping_repeats(pattern.pin_map@, m),
            LayoutValidationIssue::DuplicatePinPadMapping {
                land_pattern: pattern.id,
                pin: pattern.pin_map@[m].pin,
                pad: pattern.pin_map@[m].pad,
            },
        )
}

/// Issues of land pattern `p`: a repeated identity, its pads, its pin-map
/// references, its graphics, its body, its models, and its repeated pin/pad
/// pairs.
pub open spec fn land_pattern_issues(patterns: Seq<LandPattern>) -> spec_fn(int) -> Seq<LayoutValidationIssue> {
    |p: int|
        {
            let pattern = patterns[p];
            raise(repeats(patterns, p), LayoutValidationIssue::DuplicateLandPattern(pattern.id))
                + all_issues(pad_issues(pattern), pattern.pads@.len() as int)
                + all_issues(mapped_pad_issues(pattern), pattern.pin_map@.len() as int)
                + all_issues(graphic_issues(pattern), pattern.graphics@.len() as int)
                + body_issues(pattern)
                + all_issues(model_issues(pattern), pattern.models@.len() as int)
                + all_issues(mapping_issues(pattern), pattern.pin_map@.len() as int)
        }
}

/// Land-pattern section.
pub open spec fn land_pattern_section(layout: PcbLayout) -> Seq<LayoutValidationIssue> {
    all_issues(land_pattern_issues(layout.land_patterns@), layout.land_patterns@.len() as int)
}

fn check_pads(pattern: &LandPattern, issues: &mut Vec<LayoutValidationIssue>)
    ensures
        final(issues)@ == old(issues)@ + all_issues(pad_issues(*pattern), pattern.pads@.len() as int),
{
    let ghost start = issues@;
    let mut d: usize = 0;
    while d < pattern.pads.len()
        invariant
            d <= pattern.pads@.len(),
            issues@ == start + all_issues(pad_issues(*pattern), d as int),
        decreases pattern.pads.len() - d,
    {
        let dup = key_repeats(&pattern.pads, d);
        push_when(
            issues,
            dup,
            LayoutValidationIssue::DuplicatePad { land_pattern: pattern.id.clone(), pad: pattern.pads[d].id.clone() },
        );
        d = d + 1;
        proof {
            assert(issues@ =~= start + all_issues(pad_issues(*pattern), d as int));
        }
    }
}

fn check_mapped_pads(pattern: &LandPattern, issues: &mut Vec<LayoutValidationIssue>)
    ensures
        final(issues)@ == old(issues)@ + all_issues(mapped_pad_issues(*pattern), pattern.pin_map@.len() as int),
{
    let ghost start = issues@;
    let mut m: usize = 0;
    while m < pattern.pin_map.len()
        invariant
            m <= pattern.pin_map@.len(),
            issues@ == start + all_issues(mapped_pad_issues(*pattern), m as int),
        decreases pattern.pin_map.len() - m,
    {
        let known = crate::validation::contains_key(&pattern.pads, &pattern.pin_map[m].pad.0);
        push_when(
            issues,
            !known,
            LayoutValidationIssue::UnknownMappedPad {
                land_pattern: pattern.id.clone(),
                pad: pattern.pin_map[m].pad.clone(),
            },
        );
        m = m + 1;
        proof {
            assert(issues@ =~= start + all_issues(mapped_pad_issues(*pattern), m as int));
        }
    }
}

fn check_graphics(pattern: &LandPattern, issues: &mut Vec<LayoutValidationIssue>)
    ensures
        extends(final(issues)@, old(issues)@),
        land_pattern_rational(*pattern) ==> final(issues)@ == old(issues)@ + all_issues(graphic_issues(*pattern), pattern.graphics@.len() as int),
{
    let ghost start = issues@;
    let mut g: usize = 0;
    while g < pattern.graphics.len()
        invariant
            g <= pattern.graphics@.len(),
            extends(issues@, start),
            land_pattern_rational(*pattern) ==> issues@ == start + all_issues(graphic_issues(*pattern), g as int),
        decreases pattern.graphics.len() - g,
    {
        let dup = key_repeats(&pattern.graphics, g);
        push_when(
            issues,
            dup,
            LayoutValidationIssue::DuplicateLandPatternGraphic {
                land_pattern: pattern.id.clone(),
                graphic: pattern.graphics[g].id.clone(),
            },
        );
        let valid = is_graphic_valid(&pattern.graphics[g]);
        push_when(
            issues,
            !valid,
            LayoutValidationIssue::InvalidLandPatternGraphic {
                land_pattern: pattern.id.clone(),
                graphic: pattern.graphics[g].id.clone(),
            },
        );
        g = g + 1;
        proof {
            if land_pattern_rational(*pattern) {
                assert(graphic_rational(pattern.graphics@[g - 1]));
                assert(issues@ =~= start + all_issues(graphic_issues(*pattern), g as int));
            }
        }
    }
}

fn check_models(pattern: &LandPattern, issues: &mut Vec<LayoutValidationIssue>)
    ensures
        final(issues)@ == old(issues)@ + all_issues(model_issues(*pattern), pattern.models@.len() as int),
{
    let ghost start = issues@;
    let mut i: usize = 0;
    while i < pattern.models.len()
        invariant
            i <= pattern.models@.len(),
            issues@ == start + all_issues(model_issues(*pattern), i as int),
        decreases pattern.models.len() - i,
    {
        let model = &pattern.models[i];
        let invalid = blank(&model.uri) || is_identical_zero(&model.transform.scale_x)
            || is_identical_zero(&model.transform.scale_y) || is_identical_zero(&model.transform.scale_z);
        push_when(
            issues,
            invalid,
            LayoutValidationIssue::InvalidPcb3dModelReference { land_pattern: pattern.id.clone(), model_index: i },
        );
        i = i + 1;
        proof {
            assert(issues@ =~= start + all_issues(model_issues(*pattern), i as int));
        }
    }
}

fn check_mappings(pattern: &LandPattern, issues: &mut Vec<LayoutValidationIssue>)
    ensures
        final(issues)@ == old(issues)@ + all_issues(mapping_issues(*pattern), pattern.pin_map@.len() as int),
{
    let ghost start = issues@;
    let mut m: usize = 0;
    while m < pattern.pin_map.len()
        invariant
            m <= pattern.pin_map@.len(),
            issues@ == start + all_issues(mapping_issues(*pattern), m as int),
        decreases pattern.pin_map.len() - m,
    {
        let dup = mapping_seen(&pattern.pin_map, m);
        push_when(
            issues,
            dup,
            LayoutValidationIssue::DuplicatePinPadMapping {
                land_pattern: pattern.id.clone(),
                pin: pattern.pin_map[m].pin.clone(),
                pad: pattern.pin_map[m].pad.clone(),
            },
        );
        m = m + 1;
        proof {
            assert(issues@ =~= start + all_issues(mapping_issues(*pattern), m as int));
        }
    }
}

impl PcbLayout {
    #[verifier::spinoff_prover]
    #[verifier::rlimit(40)]
    fn check_land_pattern(&self, p: usize, issues: &mut Vec<LayoutValidationIssue>)
        requires
            p < self.land_patterns@.len(),
        ensures
            extends(final(issues)@, old(issues)@),
            land_pattern_rational(self.land_patterns@[p as int]) ==> final(issues)@ == old(issues)@ + land_pattern_issues(self.land_patterns@)(p as int),
    {
        let ghost start = issues@;
        let pattern = &self.land_patterns[p];
        let dup = key_repeats(&self.land_patterns, p);
        push_when(issues, dup, LayoutValidationIssue::DuplicateLandPattern(pattern.id.clone()));
        let ghost after_dup = issues@;
        check_pads(pattern, issues);
        check_mapped_pads(pattern, issues);
        check_graphics(pattern, issues);
        let ghost before_body = issues@;
        assert(land_pattern_rational(*pattern) ==> before_body =~= after_dup + (all_issues(pad_issues(*pattern), pattern.pads@.len() as int)
            + all_issues(mapped_pad_issues(*pattern), pattern.pin_map@.len() as int)
            + all_issues(graphic_issues(*pattern), pattern.graphics@.len() as int)));
        match &pattern.body {
            Some(body) => {
                let valid = body.outline.len() >= 3 && is_strictly_positive(&body.height) && is_non_negative(&body.standoff);
                push_when(issues, !valid, LayoutValidationIssue::InvalidLandPatternBody(pattern.id.clone()));
            },
            None => {},
        }
        assert(land_pattern_rational(*pattern) ==> issues@ =~= before_body + body_issues(*pattern));
        check_models(pattern, issues);
        check_mappings(pattern, issues);
        proof {
            if land_pattern_rational(*pattern) {
                assert(issues@ =~= start + land_pattern_issues(self.land_patterns@)(p as int));
            }
        }
    }

    fn check_land_patterns(&self, issues: &mut Vec<LayoutValidationIssue>) -> (items: Ghost<Seq<Seq<LayoutValidationIssue>>>)
        ensures
            items_agree(items@, land_pattern_issues(self.land_patterns@), |i: int| land_pattern_rational(self.land_patterns@[i]), self.land_patterns@.len() as int),
            final(issues)@ == old(issues)@ + joined_items(items@),
            extends(final(issues)@, old(issues)@),
            land_patterns_rational(*self) ==> final(issues)@ == old(issues)@ + land_pattern_section(*self),
    {
        let ghost start = issues@;
        let ghost mut found: Seq<Seq<LayoutValidationIssue>> = Seq::empty();
        let mut p: usize = 0;
        while p < self.land_patterns.len()
            invariant
                items_agree(found, land_pattern_issues(self.land_patterns@), |i: int| land_pattern_rational(self.land_patterns@[i]), p as int),
                issues@ == start + joined_items(found),
                p <= self.land_patterns@.len(),
                extends(issues@, start),
                land_patterns_rational(*self) ==> issues@ == start + all_issues(land_pattern_issues(self.land_patterns@), p as int),
            decreases self.land_patterns.len() - p,
        {
            let ghost before = issues@;
            self.check_land_pattern(p, issues);
            proof {
                let item = issues@.subrange(before.len() as int, issues@.len() as int);
                assert(issues@ =~= before + item);
                let previous = found;
                found = found.push(item);
                assert(found.drop_last() =~= previous);
                assert(joined_items(found) == joined_items(previous) + item);
                assert(issues@ =~= start + joined_items(found));
                let ghost issue_at = land_pattern_issues(self.land_patterns@);
                let ghost decided = |i: int| land_pattern_rational(self.land_patterns@[i]);
                assert forall|i: int| 0 <= i < found.len() && #[trigger] decided(i) implies found[i] == issue_at(i) by {
                    if i < previous.len() {
                        assert(found[i] == previous[i]);
                    } else {
                        assert(i == p);
                        assert(issues@ == before + issue_at(i));
                    }
                }
            }
            p = p + 1;
            proof {
                if land_patterns_rational(*self) {
                    assert(land_pattern_rational(self.land_patterns@[p - 1]));
                    assert(land_pattern_rational(self.land_patterns@[p - 1]));
                    assert(issues@ =~= start + all_issues(land_pattern_issues(self.land_patterns@), p as int));
                }
            }
        }
        Ghost(found)
    }
}


// ---------------------------------------------------------------------------
// Placement constraints.
// ---------------------------------------------------------------------------

impl TextKeyed for PcbPlacement {
    open spec fn key_text(&self) -> Seq<char> {
        self.instance@
    }

    fn key(&self) -> (key: &String) {
        &self.instance.0
    }
}

impl TextKeyed for PlacementConstraint {
    open spec fn key_text(&self) -> Seq<char> {
        self.id@
    }

    fn key(&self) -> (key: &String) {
        &self.id.0
    }
}

/// Instances a constraint refers to, in authored order.
pub open spec fn referenced_instances(kind: PlacementConstraintKind) -> Seq<CircuitInstanceId> {
    match kind {
        PlacementConstraintKind::Fixed { instance, .. } => seq![instance],
        PlacementConstraintKind::Relative { instance, anchor, .. } => seq![instance, anchor],
        PlacementConstraintKind::AlignX { instances } => instances@,
        PlacementConstraintKind::AlignY { instances } => instances@,
        PlacementConstraintKind::Within { instance, .. } => seq![instance],
        PlacementConstraintKind::AllowedRotations { instance, .. } => seq![instance],
        PlacementConstraintKind::AllowedSides { instance, .. } => seq![instance],
    }
}

/// The instance whose origin a fixed or relative constraint drives.
pub open spec fn driven_instance(kind: PlacementConstraintKind) -> Option<CircuitInstanceId> {
    match kind {
        PlacementConstraintKind::Fixed { instance, .. } => Some(instance),
        PlacementConstraintKind::Relative { instance, .. } => Some(instance),
        _ => None,
    }
}

/// Some constraint before `c` drives the instance named `id`.
pub open spec fn driven_before(constraints: Seq<PlacementConstraint>, c: int, id: Seq<char>) -> bool {
    exists|j: int|
        0 <= j < c && (#[trigger] driven_instance(constraints[j].kind) matches Some(i) && i@ == id)
}

/// A relative constraint anchored to itself, an alignment of fewer than two
/// instances, a region whose minimum is not certified below its maximum, or
/// an empty set of allowed rotations or sides.
pub open spec fn constraint_invalid(kind: PlacementConstraintKind) -> bool {
    match kind {
        PlacementConstraintKind::Fixed { .. } => false,
        PlacementConstraintKind::Relative { instance, anchor, .. } => instance@ == anchor@,
        PlacementConstraintKind::AlignX { instances } => instances@.len() < 2,
        PlacementConstraintKind::AlignY { instances } => instances@.len() < 2,
        PlacementConstraintKind::Within { min, max, .. } => !(certified_at_most(min.x, max.x)
            && certified_at_most(min.y, max.y)),
        PlacementConstraintKind::AllowedRotations { rotations_degrees, .. } => rotations_degrees@.len() == 0,
        PlacementConstraintKind::AllowedSides { sides, .. } => sides@.len() == 0,
    }
}

/// Issues of referenced instance `r` of constraint `c`: an unplaced instance.
pub open spec fn reference_issues(layout: PcbLayout, c: int) -> spec_fn(int) -> Seq<LayoutValidationIssue> {
    |r: int|
        {
            let refs = referenced_instances(layout.placement_constraints@[c].kind);
            raise(
                !has_key(layout.placements@, refs[r]@),
                LayoutValidationIssue::UnknownPlacementConstraintInstance {
                    constraint: layout.placement_constraints@[c].id,
                    instance: refs[r],
                },
            )
        }
}

/// Issues of constraint `c`: a repeated identity, unplaced references, a
/// second driver of one origin, then an invalid shape.
pub open spec fn constraint_issues(layout: PcbLayout) -> spec_fn(int) -> Seq<LayoutValidationIssue> {
    |c: int|
        {
            let constraints = layout.placement_constraints@;
            let constraint = constraints[c];
            raise(repeats(constraints, c), LayoutValidationIssue::DuplicatePlacementConstraint(constraint.id))
                + all_issues(reference_issues(layout, c), referenced_instances(constraint.kind).len() as int)
                + match driven_instance(constraint.kind) {
                Some(instance) => raise(
                    driven_before(constraints, c, instance@),
                    LayoutValidationIssue::MultiplePlacementDrivers(instance),
                ),
                None => Seq::empty(),
            } + raise(constraint_invalid(constraint.kind), LayoutValidationIssue::InvalidPlacementConstraint(constraint.id))
        }
}

/// Placement-constraint section.
pub open spec fn constraint_section(layout: PcbLayout) -> Seq<LayoutValidationIssue> {
    all_issues(constraint_issues(layout), layout.placement_constraints@.len() as int)
}

pub(crate) fn drives(kind: &PlacementConstraintKind, id: &String) -> (found: bool)
    ensures
        found == (driven_instance(*kind) matches Some(i) && i@ == id@),
{
    match kind {
        PlacementConstraintKind::Fixed { instance, .. } => crate::identity::same_text(&instance.0, id),
        PlacementConstraintKind::Relative { instance, .. } => crate::identity::same_text(&instance.0, id),
        _ => false,
    }
}

fn driven_earlier(constraints: &Vec<PlacementConstraint>, c: usize, id: &String) -> (found: bool)
    requires
        c <= constraints@.len(),
    ensures
        found == driven_before(constraints@, c as int, id@),
{
    let mut j: usize = 0;
    while j < c
        invariant
            j <= c <= constraints@.len(),
            forall|i: int|
                0 <= i < j ==> !(#[trigger] driven_instance(constraints@[i].kind) matches Some(d) && d@ == id@),
        decreases c - j,
    {
        if drives(&constraints[j].kind, id) {
            return true;
        }
        j = j + 1;
    }
    false
}

impl PcbLayout {
    fn check_reference(
        &self,
        c: usize,
        r: usize,
        instance: &CircuitInstanceId,
        issues: &mut Vec<LayoutValidationIssue>,
    )
        requires
            c < self.placement_constraints@.len(),
            r < referenced_instances(self.placement_constraints@[c as int].kind).len(),
            *instance == referenced_instances(self.placement_constraints@[c as int].kind)[r as int],
        ensures
            final(issues)@ == old(issues)@ + reference_issues(*self, c as int)(r as int),
    {
        let placed = crate::validation::contains_key(&self.placements, &instance.0);
        push_when(
            issues,
            !placed,
            LayoutValidationIssue::UnknownPlacementConstraintInstance {
                constraint: self.placement_constraints[c].id.clone(),
                instance: instance.clone(),
            },
        );
    }

    #[verifier::spinoff_prover]
    #[verifier::rlimit(60)]
    fn check_constraint(&self, c: usize, issues: &mut Vec<LayoutValidationIssue>)
        requires
            c < self.placement_constraints@.len(),
        ensures
            extends(final(issues)@, old(issues)@),
            constraint_rational(self.placement_constraints@[c as int].kind) ==> final(issues)@ == old(issues)@ + constraint_issues(*self)(c as int),
    {
        proof {
            if constraint_rational(self.placement_constraints@[c as int].kind) {
                assert(constraint_rational(self.placement_constraints@[c as int].kind));
            }
        }
        let ghost start = issues@;
        let constraint = &self.placement_constraints[c];
        let ghost refs = referenced_instances(constraint.kind);
        let dup = key_repeats(&self.placement_constraints, c);
        push_when(issues, dup, LayoutValidationIssue::DuplicatePlacementConstraint(constraint.id.clone()));
        let ghost after_dup = issues@;
        match &constraint.kind {
            PlacementConstraintKind::Fixed { instance, .. } => {
                self.check_reference(c, 0, instance, issues);
                proof {
                    let f = reference_issues(*self, c as int);
                    assert(all_issues(f, 0) =~= Seq::<LayoutValidationIssue>::empty());
                    assert(all_issues(f, 1) == all_issues(f, 0) + f(0));
                    assert(constraint_rational(self.placement_constraints@[c as int].kind) ==> issues@ =~= after_dup + all_issues(f, 1));
                }
            },
            PlacementConstraintKind::Relative { instance, anchor, .. } => {
                self.check_reference(c, 0, instance, issues);
                let ghost mid = issues@;
                self.check_reference(c, 1, anchor, issues);
                proof {
                    let f = reference_issues(*self, c as int);
                    assert(all_issues(f, 0) =~= Seq::<LayoutValidationIssue>::empty());
                    assert(all_issues(f, 1) == all_issues(f, 0) + f(0));
                    assert(all_issues(f, 2) == all_issues(f, 1) + f(1));
                    assert(constraint_rational(self.placement_constraints@[c as int].kind) ==> issues@ =~= after_dup + all_issues(f, 2));
                }
            },
            PlacementConstraintKind::AlignX { instances } | PlacementConstraintKind::AlignY { instances } => {
                let mut r: usize = 0;
                while r < instances.len()
                    invariant
                        c < self.placement_constraints@.len(),
                        refs == referenced_instances(self.placement_constraints@[c as int].kind),
                        refs == instances@,
                        r <= instances@.len(),
                        extends(issues@, after_dup),
                        constraint_rational(self.placement_constraints@[c as int].kind) ==> issues@ == after_dup + all_issues(reference_issues(*self, c as int), r as int),
                    decreases instances.len() - r,
                {
                    self.check_reference(c, r, &instances[r], issues);
                    r = r + 1;
                    proof {
                        if constraint_rational(self.placement_constraints@[c as int].kind) {
                            assert(constraint_rational(self.placement_constraints@[c as int].kind) ==> issues@ =~= after_dup + all_issues(reference_issues(*self, c as int), r as int));
                        }
                    }
                }
            },
            PlacementConstraintKind::Within { instance, .. } => {
                self.check_reference(c, 0, instance, issues);
                proof {
                    let f = reference_issues(*self, c as int);
                    assert(all_issues(f, 0) =~= Seq::<LayoutValidationIssue>::empty());
                    assert(all_issues(f, 1) == all_issues(f, 0) + f(0));
                    assert(constraint_rational(self.placement_constraints@[c as int].kind) ==> issues@ =~= after_dup + all_issues(f, 1));
                }
            },
            PlacementConstraintKind::AllowedRotations { instance, .. } => {
                self.check_reference(c, 0, instance, issues);
                proof {
                    let f = reference_issues(*self, c as int);
                    assert(all_issues(f, 0) =~= Seq::<LayoutValidationIssue>::empty());
                    assert(all_issues(f, 1) == all_issues(f, 0) + f(0));
                    assert(constraint_rational(self.placement_constraints@[c as int].kind) ==> issues@ =~= after_dup + all_issues(f, 1));
                }
            },
            PlacementConstraintKind::AllowedSides { instance, .. } => {
                self.check_reference(c, 0, instance, issues);
                proof {
                    let f = reference_issues(*self, c as int);
                    assert(all_issues(f, 0) =~= Seq::<LayoutValidationIssue>::empty());
                    assert(all_issues(f, 1) == all_issues(f, 0) + f(0));
                    assert(constraint_rational(self.placement_constraints@[c as int].kind) ==> issues@ =~= after_dup + all_issues(f, 1));
                }
            },
        }
        assert(constraint_rational(self.placement_constraints@[c as int].kind) ==> issues@ == after_dup + all_issues(reference_issues(*self, c as int), refs.len() as int));
        let ghost after_refs = issues@;
        match &constraint.kind {
            PlacementConstraintKind::Fixed { instance, .. } => {
                let earlier = driven_earlier(&self.placement_constraints, c, &instance.0);
                push_when(issues, earlier, LayoutValidationIssue::MultiplePlacementDrivers(instance.clone()));
            },
            PlacementConstraintKind::Relative { instance, .. } => {
                let earlier = driven_earlier(&self.placement_constraints, c, &instance.0);
                push_when(issues, earlier, LayoutValidationIssue::MultiplePlacementDrivers(instance.clone()));
            },
            _ => {},
        }
        let invalid = match &constraint.kind {
            PlacementConstraintKind::Fixed { .. } => false,
            PlacementConstraintKind::Relative { instance, anchor, .. } => instance.same(anchor),
            PlacementConstraintKind::AlignX { instances } => instances.len() < 2,
            PlacementConstraintKind::AlignY { instances } => instances.len() < 2,
            PlacementConstraintKind::Within { min, max, .. } => !(at_most(&min.x, &max.x) && at_most(&min.y, &max.y)),
            PlacementConstraintKind::AllowedRotations { rotations_degrees, .. } => rotations_degrees.len() == 0,
            PlacementConstraintKind::AllowedSides { sides, .. } => sides.len() == 0,
        };
        push_when(issues, invalid, LayoutValidationIssue::InvalidPlacementConstraint(constraint.id.clone()));
        proof {
            if constraint_rational(self.placement_constraints@[c as int].kind) {
                assert(constraint_rational(self.placement_constraints@[c as int].kind) ==> issues@ =~= start + constraint_issues(*self)(c as int));
            }
        }
    }

    fn check_constraints(&self, issues: &mut Vec<LayoutValidationIssue>) -> (items: Ghost<Seq<Seq<LayoutValidationIssue>>>)
        ensures
            items_agree(items@, constraint_issues(*self), |i: int| constraint_rational(self.placement_constraints@[i].kind), self.placement_constraints@.len() as int),
            final(issues)@ == old(issues)@ + joined_items(items@),
            extends(final(issues)@, old(issues)@),
            constraints_rational(*self) ==> final(issues)@ == old(issues)@ + constraint_section(*self),
    {
        let ghost start = issues@;
        let ghost mut found: Seq<Seq<LayoutValidationIssue>> = Seq::empty();
        let mut c: usize = 0;
        while c < self.placement_constraints.len()
            invariant
                items_agree(found, constraint_issues(*self), |i: int| constraint_rational(self.placement_constraints@[i].kind), c as int),
                issues@ == start + joined_items(found),
                c <= self.placement_constraints@.len(),
                extends(issues@, start),
                constraints_rational(*self) ==> issues@ == start + all_issues(constraint_issues(*self), c as int),
            decreases self.placement_constraints.len() - c,
        {
            let ghost before = issues@;
            self.check_constraint(c, issues);
            proof {
                let item = issues@.subrange(before.len() as int, issues@.len() as int);
                assert(issues@ =~= before + item);
                let previous = found;
                found = found.push(item);
                assert(found.drop_last() =~= previous);
                assert(joined_items(found) == joined_items(previous) + item);
                assert(issues@ =~= start + joined_items(found));
                let ghost issue_at = constraint_issues(*self);
                let ghost decided = |i: int| constraint_rational(self.placement_constraints@[i].kind);
                assert forall|i: int| 0 <= i < found.len() && #[trigger] decided(i) implies found[i] == issue_at(i) by {
                    if i < previous.len() {
                        assert(found[i] == previous[i]);
                    } else {
                        assert(i == c);
                        assert(issues@ == before + issue_at(i));
                    }
                }
            }
            c = c + 1;
            proof {
                if constraints_rational(*self) {
                    assert(constraint_rational(self.placement_constraints@[c - 1].kind));
                    assert(constraints_rational(*self) ==> issues@ =~= start + all_issues(constraint_issues(*self), c as int));
                }
            }
        }
        Ghost(found)
    }
}


// ---------------------------------------------------------------------------
// Routes, vias, zones and keepouts.
// ---------------------------------------------------------------------------

impl TextKeyed for PcbRoute {
    open spec fn key_text(&self) -> Seq<char> {
        self.id@
    }

    fn key(&self) -> (key: &String) {
        &self.id.0
    }
}

impl TextKeyed for PcbVia {
    open spec fn key_text(&self) -> Seq<char> {
        self.id@
    }

    fn key(&self) -> (key: &String) {
        &self.id.0
    }
}

impl TextKeyed for CopperZone {
    open spec fn key_text(&self) -> Seq<char> {
        self.id@
    }

    fn key(&self) -> (key: &String) {
        &self.id.0
    }
}

impl TextKeyed for PcbKeepout {
    open spec fn key_text(&self) -> Seq<char> {
        self.id@
    }

    fn key(&self) -> (key: &String) {
        &self.id.0
    }
}

/// Some segment does not end exactly where the next one starts.
#[verifier::opaque]
pub open spec fn route_disconnected(segments: Seq<PcbRouteSegment>) -> bool {
    exists|i: int|
        0 <= i && i + 1 < segments.len() && !same_point_spec(
            route_end(#[trigger] segments[i]),
            route_start(segments[i + 1]),
        )
}

/// Some circular segment is certified no wider than the route.
#[verifier::opaque]
pub open spec fn route_arc_too_narrow(route: PcbRoute) -> bool {
    exists|i: int|
        0 <= i < route.segments@.len() && (#[trigger] route.segments@[i] matches PcbRouteSegment::CircularArc(arc)
            && certified_at_least(route.width, real_sum(arc.radius, arc.radius)))
}

/// Reference issues of one route: a repeated identity, an unknown net, then
/// an unknown routing layer.
pub open spec fn route_reference_issues(circuit: Circuit, layout: PcbLayout, r: int) -> Seq<LayoutValidationIssue> {
    let route = layout.routes@[r];
    raise(repeats(layout.routes@, r), LayoutValidationIssue::DuplicateRoute(route.id)) + raise(
        !has_key(circuit.nets@, route.net@),
        LayoutValidationIssue::UnknownRouteNet { route: route.id, net: route.net },
    ) + raise(
        !routing_layer(layout, route.layer.0),
        LayoutValidationIssue::UnknownRouteLayer { route: route.id, layer: route.layer },
    )
}

/// Shape issues of one route: no segments, non-positive width, disconnected
/// segments, then an arc no wider than the route.
pub open spec fn route_shape_issues(route: PcbRoute) -> Seq<LayoutValidationIssue> {
    raise(route.segments@.len() == 0, LayoutValidationIssue::EmptyRoute(route.id))
        + raise(!positive(route.width), LayoutValidationIssue::NonPositiveRouteWidth(route.id))
        + raise(route_disconnected(route.segments@), LayoutValidationIssue::DisconnectedRoute(route.id))
        + raise(route_arc_too_narrow(route), LayoutValidationIssue::InvalidRouteArcWidth(route.id))
}

/// Issues of route `r`: its reference issues, then its shape issues.
pub open spec fn route_issues(circuit: Circuit, layout: PcbLayout) -> spec_fn(int) -> Seq<LayoutValidationIssue> {
    |r: int| route_reference_issues(circuit, layout, r) + route_shape_issues(layout.routes@[r])
}

/// Route section.
pub open spec fn route_section(circuit: Circuit, layout: PcbLayout) -> Seq<LayoutValidationIssue> {
    all_issues(route_issues(circuit, layout), layout.routes@.len() as int)
}

/// Every copper index from `start` to `end` inclusive is a routing layer.
pub open spec fn span_routed(layout: PcbLayout, start: u16, end: u16) -> bool {
    forall|l: u16| start <= l <= end ==> #[trigger] routing_layer(layout, l)
}

/// An open mask whose opening (land plus twice the margin) is not positive.
pub open spec fn mask_opening_invalid(land: Real, mask: ViaMaskDisposition) -> bool {
    match mask {
        ViaMaskDisposition::Open { margin } => !positive(real_sum(real_sum(land, margin), margin)),
        _ => false,
    }
}

/// A via spans a reversed or unrouted layer range, has non-positive land or
/// drill, a drill wider than its land, or an invalid mask opening.
pub open spec fn via_invalid(layout: PcbLayout, via: PcbVia) -> bool {
    via.start_layer.0 > via.end_layer.0 || !span_routed(layout, via.start_layer.0, via.end_layer.0)
        || !positive(via.land_diameter) || !positive(via.drill_diameter) || certified_greater(
        via.drill_diameter,
        via.land_diameter,
    ) || mask_opening_invalid(via.land_diameter, via.mask.front) || mask_opening_invalid(
        via.land_diameter,
        via.mask.back,
    )
}

/// Issues of via `v`.
pub open spec fn via_issues(circuit: Circuit, layout: PcbLayout) -> spec_fn(int) -> Seq<LayoutValidationIssue> {
    |v: int|
        {
            let via = layout.vias@[v];
            raise(repeats(layout.vias@, v), LayoutValidationIssue::DuplicateVia(via.id)) + raise(
                !has_key(circuit.nets@, via.net@),
                LayoutValidationIssue::UnknownViaNet { via: via.id, net: via.net },
            ) + raise(via_invalid(layout, via), LayoutValidationIssue::InvalidVia(via.id))
        }
}

/// Via section.
pub open spec fn via_section(circuit: Circuit, layout: PcbLayout) -> Seq<LayoutValidationIssue> {
    all_issues(via_issues(circuit, layout), layout.vias@.len() as int)
}

/// A hatched fill needs a positive stripe and a non-negative gap.
pub open spec fn fill_valid(fill: CopperZoneFill) -> bool {
    match fill {
        CopperZoneFill::Solid => true,
        CopperZoneFill::Hatched { line_width, gap, .. } => positive(line_width) && nonnegative(gap),
    }
}

/// Thermal relief needs a non-negative gap, positive spokes, and at least two of them.
pub open spec fn connection_valid(connection: CopperZoneConnection) -> bool {
    match connection {
        CopperZoneConnection::ThermalRelief { air_gap, spoke_width, spoke_count } => nonnegative(air_gap)
            && positive(spoke_width) && spoke_count >= 2,
        _ => true,
    }
}

/// A declared minimum island area is non-negative and only applies to
/// removal of unconnected islands.
pub open spec fn islands_valid(zone: CopperZone) -> bool {
    (match zone.islands.minimum_area {
        Some(area) => nonnegative(area),
        None => true,
    }) && (zone.islands.remove_unconnected || zone.islands.minimum_area is None)
}

/// Stitching vias are well formed and fit the zone's layer.
pub open spec fn stitching_valid(layout: PcbLayout, zone: CopperZone, stitching: CopperZoneStitchingPolicy) -> bool {
    let required_pitch = real_sum(real_sum(stitching.land_diameter, stitching.edge_clearance), stitching.edge_clearance);
    &&& positive(stitching.pitch)
    &&& nonnegative(stitching.edge_clearance)
    &&& positive(stitching.land_diameter)
    &&& positive(stitching.drill_diameter)
    &&& certified_at_most(stitching.drill_diameter, stitching.land_diameter)
    &&& certified_at_least(stitching.pitch, required_pitch)
    &&& stitching.start_layer.0 <= zone.layer.0
    &&& zone.layer.0 <= stitching.end_layer.0
    &&& stitching.start_layer.0 < stitching.end_layer.0
    &&& routing_layer(layout, stitching.start_layer.0)
    &&& routing_layer(layout, stitching.end_layer.0)
    &&& stitching.maximum_vias != 0
    &&& !mask_opening_invalid(stitching.land_diameter, stitching.mask.front)
    &&& !mask_opening_invalid(stitching.land_diameter, stitching.mask.back)
}

/// The zone's clearance, fill, connection, island, or stitching policy is invalid.
pub open spec fn zone_policy_invalid(layout: PcbLayout, zone: CopperZone) -> bool {
    !nonnegative(zone.clearance) || !fill_valid(zone.fill) || !connection_valid(zone.connection)
        || !islands_valid(zone) || match zone.stitching {
        Some(stitching) => !stitching_valid(layout, zone, stitching),
        None => false,
    }
}

/// Issues of zone `z`.
pub open spec fn zone_issues(circuit: Circuit, layout: PcbLayout) -> spec_fn(int) -> Seq<LayoutValidationIssue> {
    |z: int|
        {
            let zone = layout.zones@[z];
            raise(repeats(layout.zones@, z), LayoutValidationIssue::DuplicateZone(zone.id)) + raise(
                !has_key(circuit.nets@, zone.net@),
                LayoutValidationIssue::UnknownZoneNet { zone: zone.id, net: zone.net },
            ) + raise(
                !routing_layer(layout, zone.layer.0),
                LayoutValidationIssue::UnknownZoneLayer { zone: zone.id, layer: zone.layer },
            ) + raise(zone.boundary@.len() < 3, LayoutValidationIssue::InvalidZoneBoundary(zone.id))
                + raise(zone_policy_invalid(layout, zone), LayoutValidationIssue::InvalidZonePolicy(zone.id))
        }
}

/// Zone section.
pub open spec fn zone_section(circuit: Circuit, layout: PcbLayout) -> Seq<LayoutValidationIssue> {
    all_issues(zone_issues(circuit, layout), layout.zones@.len() as int)
}

/// Issues of keepout `k`.
pub open spec fn keepout_issues(layout: PcbLayout) -> spec_fn(int) -> Seq<LayoutValidationIssue> {
    |k: int|
        raise(repeats(layout.keepouts@, k), LayoutValidationIssue::DuplicateKeepout(layout.keepouts@[k].id))
            + raise(
            layout.keepouts@[k].boundary@.len() < 3,
            LayoutValidationIssue::InvalidKeepoutBoundary(layout.keepouts@[k].id),
        )
}

/// Keepout section.
pub open spec fn keepout_section(layout: PcbLayout) -> Seq<LayoutValidationIssue> {
    all_issues(keepout_issues(layout), layout.keepouts@.len() as int)
}

fn disconnected(segments: &Vec<PcbRouteSegment>) -> (found: bool)
    ensures
        found == route_disconnected(segments@),
{
    reveal(route_disconnected);
    let n = segments.len();
    if n < 2 {
        return false;
    }
    let mut i: usize = 0;
    while i < n - 1
        invariant
            n == segments@.len(),
            n >= 2,
            i <= n - 1,
            forall|j: int|
                0 <= j < i && j + 1 < segments@.len() ==> same_point_spec(
                    route_end(#[trigger] segments@[j]),
                    route_start(segments@[j + 1]),
                ),
        decreases segments.len() - i,
    {
        if !same_point(segments[i].end(), segments[i + 1].start()) {
            proof {
                reveal(route_disconnected);
                assert(0 <= i && i + 1 < segments@.len() && !same_point_spec(
                    route_end(segments@[i as int]),
                    route_start(segments@[i + 1]),
                ));
            }
            return true;
        }
        i = i + 1;
    }
    false
}

fn arc_too_narrow(route: &PcbRoute) -> (found: bool)
    ensures
        route_rational(*route) ==> found == route_arc_too_narrow(*route),
{
    reveal(route_arc_too_narrow);
    let mut i: usize = 0;
    while i < route.segments.len()
        invariant
            i <= route.segments@.len(),
            route_rational(*route) ==> forall|j: int|
                0 <= j < i ==> !(#[trigger] route.segments@[j] matches PcbRouteSegment::CircularArc(arc)
                    && certified_at_least(route.width, real_sum(arc.radius, arc.radius))),
        decreases route.segments.len() - i,
    {
        match &route.segments[i] {
            PcbRouteSegment::CircularArc(arc) => {
                let diameter = real_add(&arc.radius, &arc.radius);
                proof {
                    if route_rational(*route) {
                        assert(route.segments@[i as int] matches PcbRouteSegment::CircularArc(a) ==> real_rational_class(a.radius));
                    }
                }
                if at_least(&route.width, &diameter) {
                    proof {
                        reveal(route_arc_too_narrow);
                        if route_rational(*route) {
                            assert(route.segments@[i as int] matches PcbRouteSegment::CircularArc(a)
                                && certified_at_least(route.width, real_sum(a.radius, a.radius)));
                        }
                    }
                    return true;
                }
            },
            _ => {},
        }
        i = i + 1;
    }
    false
}

fn opening_invalid(land: &Real, mask: &ViaMaskDisposition) -> (invalid: bool)
    ensures
        real_rational_class(*land) && mask_rational(*mask) ==> invalid == mask_opening_invalid(*land, *mask),
{
    match mask {
        ViaMaskDisposition::Open { margin } => {
            let once = real_add(land, margin);
            let twice = real_add(&once, margin);
            !is_strictly_positive(&twice)
        },
        _ => false,
    }
}

impl PcbLayout {
    fn span_is_routed(&self, start: u16, end: u16) -> (routed: bool)
        ensures
            routed == span_routed(*self, start, end),
    {
        if start > end {
            return true;
        }
        let mut layer: u16 = start;
        loop
            invariant
                start <= layer <= end,
                forall|l: u16| start <= l < layer ==> #[trigger] routing_layer(*self, l),
            decreases end - layer,
        {
            if !self.has_routing_layer(layer) {
                return false;
            }
            if layer == end {
                return true;
            }
            layer = layer + 1;
        }
    }

    fn check_route_references(&self, circuit: &Circuit, r: usize, issues: &mut Vec<LayoutValidationIssue>)
        requires
            r < self.routes@.len(),
        ensures
            final(issues)@ == old(issues)@ + route_reference_issues(*circuit, *self, r as int),
    {
        let ghost start = issues@;
        let route = &self.routes[r];
        let dup = key_repeats(&self.routes, r);
        push_when(issues, dup, LayoutValidationIssue::DuplicateRoute(route.id.clone()));
        let known = crate::validation::contains_key(&circuit.nets, &route.net.0);
        push_when(
            issues,
            !known,
            LayoutValidationIssue::UnknownRouteNet { route: route.id.clone(), net: route.net.clone() },
        );
        let routed = self.has_routing_layer(route.layer.0);
        push_when(
            issues,
            !routed,
            LayoutValidationIssue::UnknownRouteLayer { route: route.id.clone(), layer: route.layer },
        );
        proof {
            assert(issues@ =~= start + route_reference_issues(*circuit, *self, r as int));
        }
    }

    fn check_route_shape(route: &PcbRoute, issues: &mut Vec<LayoutValidationIssue>)
        ensures
            extends(final(issues)@, old(issues)@),
            route_rational(*route) ==> final(issues)@ == old(issues)@ + route_shape_issues(*route),
    {
        let ghost start = issues@;
        push_when(issues, route.segments.len() == 0, LayoutValidationIssue::EmptyRoute(route.id.clone()));
        push_when(issues, !is_strictly_positive(&route.width), LayoutValidationIssue::NonPositiveRouteWidth(route.id.clone()));
        let broken = disconnected(&route.segments);
        push_when(issues, broken, LayoutValidationIssue::DisconnectedRoute(route.id.clone()));
        let narrow = arc_too_narrow(route);
        push_when(issues, narrow, LayoutValidationIssue::InvalidRouteArcWidth(route.id.clone()));
        proof {
            if route_rational(*route) {
                assert(route_rational(*route) ==> issues@ =~= start + route_shape_issues(*route));
            }
        }
    }

    fn check_route(&self, circuit: &Circuit, r: usize, issues: &mut Vec<LayoutValidationIssue>)
        requires
            r < self.routes@.len(),
        ensures
            extends(final(issues)@, old(issues)@),
            extends(final(issues)@, old(issues)@ + route_reference_issues(*circuit, *self, r as int)),
            route_rational(self.routes@[r as int]) ==> final(issues)@ == old(issues)@ + route_issues(*circuit, *self)(r as int),
    {
        proof {
            if route_rational(self.routes@[r as int]) {
                assert(route_rational(self.routes@[r as int]));
            }
        }
        let ghost start = issues@;
        self.check_route_references(circuit, r, issues);
        let ghost referenced = issues@;
        Self::check_route_shape(&self.routes[r], issues);
        proof {
            assert forall|i: int| 0 <= i < referenced.len() implies #[trigger] issues@[i] == referenced[i] by {
                assert(issues@[i] == referenced[i]);
            }
            assert(extends(issues@, referenced));
            if route_rational(self.routes@[r as int]) {
                assert(route_rational(self.routes@[r as int]) ==> issues@ =~= start + route_issues(*circuit, *self)(r as int));
            }
        }
    }

    fn check_routes(&self, circuit: &Circuit, issues: &mut Vec<LayoutValidationIssue>) -> (items: Ghost<Seq<Seq<LayoutValidationIssue>>>)
        ensures
            items_agree(items@, route_issues(*circuit, *self), |i: int| route_rational(self.routes@[i]), self.routes@.len() as int),
            forall|i: int| 0 <= i < self.routes@.len() ==> extends(#[trigger] items@[i], route_reference_issues(*circuit, *self, i)),
            final(issues)@ == old(issues)@ + joined_items(items@),
            extends(final(issues)@, old(issues)@),
            routes_rational(*self) ==> final(issues)@ == old(issues)@ + route_section(*circuit, *self),
    {
        let ghost start = issues@;
        let ghost mut found: Seq<Seq<LayoutValidationIssue>> = Seq::empty();
        let mut r: usize = 0;
        while r < self.routes.len()
            invariant
                items_agree(found, route_issues(*circuit, *self), |i: int| route_rational(self.routes@[i]), r as int),
                forall|i: int| 0 <= i < r ==> extends(#[trigger] found[i], route_reference_issues(*circuit, *self, i)),
                issues@ == start + joined_items(found),
                r <= self.routes@.len(),
                extends(issues@, start),
                routes_rational(*self) ==> issues@ == start + all_issues(route_issues(*circuit, *self), r as int),
            decreases self.routes.len() - r,
        {
            let ghost before = issues@;
            self.check_route(circuit, r, issues);
            proof {
                let item = issues@.subrange(before.len() as int, issues@.len() as int);
                assert(issues@ =~= before + item);
                let refs = route_reference_issues(*circuit, *self, r as int);
                assert forall|j: int| 0 <= j < refs.len() implies #[trigger] item[j] == refs[j] by {
                    assert((before + refs)[before.len() + j] == refs[j]);
                    assert(issues@[before.len() + j] == (before + refs)[before.len() + j]);
                }
                assert(extends(item, refs));
                let previous = found;
                found = found.push(item);
                assert(found.drop_last() =~= previous);
                assert forall|i: int| 0 <= i < r + 1 implies extends(#[trigger] found[i], route_reference_issues(*circuit, *self, i)) by {
                    if i < r {
                        assert(found[i] == previous[i]);
                    }
                }
                assert(joined_items(found) == joined_items(previous) + item);
                assert(issues@ =~= start + joined_items(found));
                let ghost issue_at = route_issues(*circuit, *self);
                let ghost decided = |i: int| route_rational(self.routes@[i]);
                assert forall|i: int| 0 <= i < found.len() && #[trigger] decided(i) implies found[i] == issue_at(i) by {
                    if i < previous.len() {
                        assert(found[i] == previous[i]);
                    } else {
                        assert(i == r);
                        assert(issues@ == before + issue_at(i));
                    }
                }
            }
            r = r + 1;
            proof {
                if routes_rational(*self) {
                    assert(route_rational(self.routes@[r - 1]));
                    assert(routes_rational(*self) ==> issues@ =~= start + all_issues(route_issues(*circuit, *self), r as int));
                }
            }
        }
        Ghost(found)
    }

    fn check_via(&self, circuit: &Circuit, v: usize, issues: &mut Vec<LayoutValidationIssue>)
        requires
            v < self.vias@.len(),
        ensures
            extends(final(issues)@, old(issues)@),
            via_rational(self.vias@[v as int]) ==> final(issues)@ == old(issues)@ + via_issues(*circuit, *self)(v as int),
    {
        proof {
            if via_rational(self.vias@[v as int]) {
                assert(via_rational(self.vias@[v as int]));
            }
        }
        let ghost start = issues@;
        let via = &self.vias[v];
        let dup = key_repeats(&self.vias, v);
        push_when(issues, dup, LayoutValidationIssue::DuplicateVia(via.id.clone()));
        let known = crate::validation::contains_key(&circuit.nets, &via.net.0);
        push_when(issues, !known, LayoutValidationIssue::UnknownViaNet { via: via.id.clone(), net: via.net.clone() });
        let invalid = via.start_layer.0 > via.end_layer.0 || !self.span_is_routed(via.start_layer.0, via.end_layer.0)
            || !is_strictly_positive(&via.land_diameter) || !is_strictly_positive(&via.drill_diameter) || greater(
            &via.drill_diameter,
            &via.land_diameter,
        ) || opening_invalid(&via.land_diameter, &via.mask.front) || opening_invalid(
            &via.land_diameter,
            &via.mask.back,
        );
        push_when(issues, invalid, LayoutValidationIssue::InvalidVia(via.id.clone()));
        proof {
            if via_rational(self.vias@[v as int]) {
                assert(via_rational(self.vias@[v as int]) ==> issues@ =~= start + via_issues(*circuit, *self)(v as int));
            }
        }
    }

    fn check_vias(&self, circuit: &Circuit, issues: &mut Vec<LayoutValidationIssue>) -> (items: Ghost<Seq<Seq<LayoutValidationIssue>>>)
        ensures
            items_agree(items@, via_issues(*circuit, *self), |i: int| via_rational(self.vias@[i]), self.vias@.len() as int),
            final(issues)@ == old(issues)@ + joined_items(items@),
            extends(final(issues)@, old(issues)@),
            vias_rational(*self) ==> final(issues)@ == old(issues)@ + via_section(*circuit, *self),
    {
        let ghost start = issues@;
        let ghost mut found: Seq<Seq<LayoutValidationIssue>> = Seq::empty();
        let mut v: usize = 0;
        while v < self.vias.len()
            invariant
                items_agree(found, via_issues(*circuit, *self), |i: int| via_rational(self.vias@[i]), v as int),
                issues@ == start + joined_items(found),
                v <= self.vias@.len(),
                extends(issues@, start),
                vias_rational(*self) ==> issues@ == start + all_issues(via_issues(*circuit, *self), v as int),
            decreases self.vias.len() - v,
        {
            let ghost before = issues@;
            self.check_via(circuit, v, issues);
            proof {
                let item = issues@.subrange(before.len() as int, issues@.len() as int);
                assert(issues@ =~= before + item);
                let previous = found;
                found = found.push(item);
                assert(found.drop_last() =~= previous);
                assert(joined_items(found) == joined_items(previous) + item);
                assert(issues@ =~= start + joined_items(found));
                let ghost issue_at = via_issues(*circuit, *self);
                let ghost decided = |i: int| via_rational(self.vias@[i]);
                assert forall|i: int| 0 <= i < found.len() && #[trigger] decided(i) implies found[i] == issue_at(i) by {
                    if i < previous.len() {
                        assert(found[i] == previous[i]);
                    } else {
                        assert(i == v);
                        assert(issues@ == before + issue_at(i));
                    }
                }
            }
            v = v + 1;
            proof {
                if vias_rational(*self) {
                    assert(via_rational(self.vias@[v - 1]));
                    assert(vias_rational(*self) ==> issues@ =~= start + all_issues(via_issues(*circuit, *self), v as int));
                }
            }
        }
        Ghost(found)
    }

    fn stitching_is_valid(&self, zone: &CopperZone, stitching: &CopperZoneStitchingPolicy) -> (valid: bool)
        ensures
            real_rational_class(stitching.pitch) && real_rational_class(stitching.edge_clearance) && real_rational_class(
                stitching.land_diameter,
            ) && real_rational_class(stitching.drill_diameter) && mask_rational(stitching.mask.front) && mask_rational(
                stitching.mask.back,
            ) ==> valid == stitching_valid(*self, *zone, *stitching),
    {
        let padded = real_add(&stitching.land_diameter, &stitching.edge_clearance);
        let required_pitch = real_add(&padded, &stitching.edge_clearance);
        is_strictly_positive(&stitching.pitch) && is_non_negative(&stitching.edge_clearance) && is_strictly_positive(
            &stitching.land_diameter,
        ) && is_strictly_positive(&stitching.drill_diameter) && at_most(&stitching.drill_diameter, &stitching.land_diameter)
            && at_least(&stitching.pitch, &required_pitch) && stitching.start_layer.0 <= zone.layer.0
            && zone.layer.0 <= stitching.end_layer.0 && stitching.start_layer.0 < stitching.end_layer.0
            && self.has_routing_layer(stitching.start_layer.0) && self.has_routing_layer(stitching.end_layer.0)
            && stitching.maximum_vias != 0 && !opening_invalid(&stitching.land_diameter, &stitching.mask.front)
            && !opening_invalid(&stitching.land_diameter, &stitching.mask.back)
    }

    fn zone_policy_is_invalid(&self, zone: &CopperZone) -> (invalid: bool)
        ensures
            zone_rational(*zone) ==> invalid == zone_policy_invalid(*self, *zone),
    {
        let fill = match &zone.fill {
            CopperZoneFill::Solid => true,
            CopperZoneFill::Hatched { line_width, gap, .. } => is_strictly_positive(line_width) && is_non_negative(gap),
        };
        let connection = match &zone.connection {
            CopperZoneConnection::ThermalRelief { air_gap, spoke_width, spoke_count } => is_non_negative(air_gap)
                && is_strictly_positive(spoke_width) && *spoke_count >= 2,
            _ => true,
        };
        let area = match &zone.islands.minimum_area {
            Some(area) => is_non_negative(area),
            None => true,
        };
        let islands = area && (zone.islands.remove_unconnected || zone.islands.minimum_area.is_none());
        let stitching = match &zone.stitching {
            Some(stitching) => self.stitching_is_valid(zone, stitching),
            None => true,
        };
        !is_non_negative(&zone.clearance) || !fill || !connection || !islands || !stitching
    }

    fn check_zone(&self, circuit: &Circuit, z: usize, issues: &mut Vec<LayoutValidationIssue>)
        requires
            z < self.zones@.len(),
        ensures
            extends(final(issues)@, old(issues)@),
            zone_rational(self.zones@[z as int]) ==> final(issues)@ == old(issues)@ + zone_issues(*circuit, *self)(z as int),
    {
        proof {
            if zone_rational(self.zones@[z as int]) {
                assert(zone_rational(self.zones@[z as int]));
            }
        }
        let ghost start = issues@;
        let zone = &self.zones[z];
        let dup = key_repeats(&self.zones, z);
        push_when(issues, dup, LayoutValidationIssue::DuplicateZone(zone.id.clone()));
        let known = crate::validation::contains_key(&circuit.nets, &zone.net.0);
        push_when(issues, !known, LayoutValidationIssue::UnknownZoneNet { zone: zone.id.clone(), net: zone.net.clone() });
        let routed = self.has_routing_layer(zone.layer.0);
        push_when(issues, !routed, LayoutValidationIssue::UnknownZoneLayer { zone: zone.id.clone(), layer: zone.layer });
        push_when(issues, zone.boundary.len() < 3, LayoutValidationIssue::InvalidZoneBoundary(zone.id.clone()));
        let invalid = self.zone_policy_is_invalid(zone);
        push_when(issues, invalid, LayoutValidationIssue::InvalidZonePolicy(zone.id.clone()));
        proof {
            if zone_rational(self.zones@[z as int]) {
                assert(zone_rational(self.zones@[z as int]) ==> issues@ =~= start + zone_issues(*circuit, *self)(z as int));
            }
        }
    }

    fn check_zones(&self, circuit: &Circuit, issues: &mut Vec<LayoutValidationIssue>) -> (items: Ghost<Seq<Seq<LayoutValidationIssue>>>)
        ensures
            items_agree(items@, zone_issues(*circuit, *self), |i: int| zone_rational(self.zones@[i]), self.zones@.len() as int),
            final(issues)@ == old(issues)@ + joined_items(items@),
            extends(final(issues)@, old(issues)@),
            zones_rational(*self) ==> final(issues)@ == old(issues)@ + zone_section(*circuit, *self),
    {
        let ghost start = issues@;
        let ghost mut found: Seq<Seq<LayoutValidationIssue>> = Seq::empty();
        let mut z: usize = 0;
        while z < self.zones.len()
            invariant
                items_agree(found, zone_issues(*circuit, *self), |i: int| zone_rational(self.zones@[i]), z as int),
                issues@ == start + joined_items(found),
                z <= self.zones@.len(),
                extends(issues@, start),
                zones_rational(*self) ==> issues@ == start + all_issues(zone_issues(*circuit, *self), z as int),
            decreases self.zones.len() - z,
        {
            let ghost before = issues@;
            self.check_zone(circuit, z, issues);
            proof {
                let item = issues@.subrange(before.len() as int, issues@.len() as int);
                assert(issues@ =~= before + item);
                let previous = found;
                found = found.push(item);
                assert(found.drop_last() =~= previous);
                assert(joined_items(found) == joined_items(previous) + item);
                assert(issues@ =~= start + joined_items(found));
                let ghost issue_at = zone_issues(*circuit, *self);
                let ghost decided = |i: int| zone_rational(self.zones@[i]);
                assert forall|i: int| 0 <= i < found.len() && #[trigger] decided(i) implies found[i] == issue_at(i) by {
                    if i < previous.len() {
                        assert(found[i] == previous[i]);
                    } else {
                        assert(i == z);
                        assert(issues@ == before + issue_at(i));
                    }
                }
            }
            z = z + 1;
            proof {
                if zones_rational(*self) {
                    assert(zone_rational(self.zones@[z - 1]));
                    assert(zones_rational(*self) ==> issues@ =~= start + all_issues(zone_issues(*circuit, *self), z as int));
                }
            }
        }
        Ghost(found)
    }

    fn check_keepouts(&self, issues: &mut Vec<LayoutValidationIssue>)
        ensures
            final(issues)@ == old(issues)@ + keepout_section(*self),
    {
        let ghost start = issues@;
        let mut k: usize = 0;
        while k < self.keepouts.len()
            invariant
                k <= self.keepouts@.len(),
                issues@ == start + all_issues(keepout_issues(*self), k as int),
            decreases self.keepouts.len() - k,
        {
            let dup = key_repeats(&self.keepouts, k);
            push_when(issues, dup, LayoutValidationIssue::DuplicateKeepout(self.keepouts[k].id.clone()));
            push_when(
                issues,
                self.keepouts[k].boundary.len() < 3,
                LayoutValidationIssue::InvalidKeepoutBoundary(self.keepouts[k].id.clone()),
            );
            k = k + 1;
            proof {
                assert(issues@ =~= start + all_issues(keepout_issues(*self), k as int));
            }
        }
    }
}


// ---------------------------------------------------------------------------
// Via styles, net classes and differential pairs.
// ---------------------------------------------------------------------------

impl TextKeyed for ViaStyle {
    open spec fn key_text(&self) -> Seq<char> {
        self.id@
    }

    fn key(&self) -> (key: &String) {
        &self.id.0
    }
}

impl TextKeyed for DifferentialPair {
    open spec fn key_text(&self) -> Seq<char> {
        self.id@
    }

    fn key(&self) -> (key: &String) {
        &self.id.0
    }
}

/// A span runs upward between two routing layers and every layer between them routes.
pub open spec fn span_well_formed(layout: PcbLayout, span: ViaStyleSpan) -> bool {
    span.start_layer.0 < span.end_layer.0 && routing_layer(layout, span.start_layer.0) && routing_layer(
        layout,
        span.end_layer.0,
    ) && span_routed(layout, span.start_layer.0, span.end_layer.0)
}

/// Span `k` repeats the layer pair of an earlier span.
pub open spec fn span_repeats(spans: Seq<ViaStyleSpan>, k: int) -> bool {
    exists|j: int|
        0 <= j < k && #[trigger] spans[j].start_layer.0 == spans[k].start_layer.0 && spans[j].end_layer.0
            == spans[k].end_layer.0
}

/// Every span is well formed and no layer pair repeats.
pub open spec fn spans_valid(layout: PcbLayout, spans: Seq<ViaStyleSpan>) -> bool {
    forall|k: int| 0 <= k < spans.len() ==> span_well_formed(layout, #[trigger] spans[k]) && !span_repeats(spans, k)
}

/// A via style has non-positive land or drill, a drill wider than its land,
/// unplated drilling, an invalid span, or an invalid mask opening.
pub open spec fn via_style_invalid(layout: PcbLayout, style: ViaStyle) -> bool {
    !positive(style.land_diameter) || !positive(style.drill_diameter) || certified_greater(
        style.drill_diameter,
        style.land_diameter,
    ) || style.plating != Plating::Plated || !spans_valid(layout, style.allowed_spans@) || mask_opening_invalid(
        style.land_diameter,
        style.mask.front,
    ) || mask_opening_invalid(style.land_diameter, style.mask.back)
}

/// Issues of via style `v`.
pub open spec fn via_style_issues(layout: PcbLayout) -> spec_fn(int) -> Seq<LayoutValidationIssue> {
    |v: int|
        raise(
            repeats(layout.rules.via_styles@, v),
            LayoutValidationIssue::DuplicateViaStyle(layout.rules.via_styles@[v].id),
        ) + raise(
            via_style_invalid(layout, layout.rules.via_styles@[v]),
            LayoutValidationIssue::InvalidViaStyle(layout.rules.via_styles@[v].id),
        )
}

/// Via-style section.
pub open spec fn via_style_section(layout: PcbLayout) -> Seq<LayoutValidationIssue> {
    all_issues(via_style_issues(layout), layout.rules.via_styles@.len() as int)
}

/// Net `m` of class `c` was already assigned, by an earlier class or earlier in this one.
pub open spec fn net_classified_before(classes: Seq<NetClass>, c: int, m: int) -> bool {
    (exists|j: int, i: int|
        0 <= j < c && 0 <= i < classes[j].nets@.len() && #[trigger] classes[j].nets@[i]@ == classes[c].nets@[m]@)
        || repeats(classes[c].nets@, m)
}

/// Some declared policy scalar is not structurally positive.
pub open spec fn class_dimensions_invalid(class: NetClass) -> bool {
    !positive_if_present(class.min_trace_width) || !positive_if_present(class.preferred_trace_width)
        || !positive_if_present(class.min_clearance) || !positive_if_present(class.preferred_via_land_diameter)
        || !positive_if_present(class.preferred_via_drill_diameter) || !positive_if_present(class.max_length)
        || !positive_if_present(class.target_impedance_ohms) || !positive_if_present(
        class.impedance_tolerance_ohms,
    )
}

/// Issues of net `m` of class `c`: assigned twice, then unknown.
pub open spec fn class_net_issues(circuit: Circuit, layout: PcbLayout, c: int) -> spec_fn(int) -> Seq<LayoutValidationIssue> {
    |m: int|
        {
            let class = layout.rules.net_classes@[c];
            raise(
                net_classified_before(layout.rules.net_classes@, c, m),
                LayoutValidationIssue::NetInMultipleClasses(class.nets@[m]),
            ) + raise(
                !has_key(circuit.nets@, class.nets@[m]@),
                LayoutValidationIssue::UnknownNetClassNet { class: class.id, net: class.nets@[m] },
            )
        }
}

/// Issues of class `c`: a repeated identity, its nets, an unknown via style,
/// then an invalid policy scalar.
pub open spec fn class_issues(circuit: Circuit, layout: PcbLayout) -> spec_fn(int) -> Seq<LayoutValidationIssue> {
    |c: int|
        {
            let class = layout.rules.net_classes@[c];
            raise(repeats(layout.rules.net_classes@, c), LayoutValidationIssue::DuplicateNetClass(class.id))
                + all_issues(class_net_issues(circuit, layout, c), class.nets@.len() as int)
                + match class.preferred_via_style {
                Some(style) => raise(
                    !has_key(layout.rules.via_styles@, style@),
                    LayoutValidationIssue::UnknownNetClassViaStyle { class: class.id, style },
                ),
                None => Seq::empty(),
            } + raise(class_dimensions_invalid(class), LayoutValidationIssue::InvalidNetClassConstraint(class.id))
        }
}

/// The layout issue reporting why inheritance does not resolve.
pub open spec fn inheritance_issue(error: NetClassResolutionError) -> LayoutValidationIssue {
    match error {
        NetClassResolutionError::DuplicateClass(class) => LayoutValidationIssue::DuplicateNetClass(class),
        NetClassResolutionError::UnknownParent { class, parent } => LayoutValidationIssue::UnknownNetClassParent {
            class,
            parent,
        },
        NetClassResolutionError::InheritanceCycle(class) => LayoutValidationIssue::NetClassInheritanceCycle(class),
    }
}

/// Net-class section: class issues in order, then, when class identities
/// are unique, why inheritance does not resolve.
pub open spec fn net_class_section(circuit: Circuit, layout: PcbLayout) -> Seq<LayoutValidationIssue> {
    all_issues(class_issues(circuit, layout), layout.rules.net_classes@.len() as int) + net_class_tail(layout)
}

/// The end of the net-class section: when class identities are unique, why
/// inheritance does not resolve.
pub open spec fn net_class_tail(layout: PcbLayout) -> Seq<LayoutValidationIssue> {
    let classes = layout.rules.net_classes@;
    if first_repeated_class(
        classes,
        classes.len() as int,
    ) is None {
        match net_class_resolution_error(classes) {
            Some(error) => seq![inheritance_issue(error)],
            None => Seq::empty(),
        }
    } else {
        Seq::empty()
    }
}

/// A pair repeats one net, names an unknown net, has a non-positive spacing
/// or declared skew or impedance, declares only one of target and
/// tolerance, or a neckdown that is non-positive or not certified narrower.
pub open spec fn pair_invalid(circuit: Circuit, pair: DifferentialPair) -> bool {
    pair.positive@ == pair.negative@ || !has_key(circuit.nets@, pair.positive@) || !has_key(
        circuit.nets@,
        pair.negative@,
    ) || !positive(pair.spacing) || !positive_if_present(pair.max_skew) || !positive_if_present(
        pair.target_impedance_ohms,
    ) || !positive_if_present(pair.impedance_tolerance_ohms) || (pair.target_impedance_ohms is Some)
        != (pair.impedance_tolerance_ohms is Some) || match pair.neckdown {
        Some(neckdown) => !positive(neckdown.trace_width) || !positive(neckdown.spacing) || !positive(
            neckdown.maximum_transition_length,
        ) || !certified_less(neckdown.spacing, pair.spacing),
        None => false,
    }
}

/// Issues of differential pair `d`.
pub open spec fn pair_issues(circuit: Circuit, layout: PcbLayout) -> spec_fn(int) -> Seq<LayoutValidationIssue> {
    |d: int|
        raise(
            repeats(layout.rules.differential_pairs@, d),
            LayoutValidationIssue::DuplicateDifferentialPair(layout.rules.differential_pairs@[d].id),
        ) + raise(
            pair_invalid(circuit, layout.rules.differential_pairs@[d]),
            LayoutValidationIssue::InvalidDifferentialPair(layout.rules.differential_pairs@[d].id),
        )
}

/// Differential-pair section.
pub open spec fn pair_section(circuit: Circuit, layout: PcbLayout) -> Seq<LayoutValidationIssue> {
    all_issues(pair_issues(circuit, layout), layout.rules.differential_pairs@.len() as int)
}

fn span_seen(spans: &Vec<ViaStyleSpan>, k: usize) -> (found: bool)
    requires
        k < spans@.len(),
    ensures
        found == span_repeats(spans@, k as int),
{
    let mut j: usize = 0;
    while j < k
        invariant
            j <= k < spans@.len(),
            forall|i: int|
                0 <= i < j ==> !(#[trigger] spans@[i].start_layer.0 == spans@[k as int].start_layer.0
                    && spans@[i].end_layer.0 == spans@[k as int].end_layer.0),
        decreases k - j,
    {
        if spans[j].start_layer.0 == spans[k].start_layer.0 && spans[j].end_layer.0 == spans[k].end_layer.0 {
            return true;
        }
        j = j + 1;
    }
    false
}

fn is_positive_all(values: &[&Option<Real>]) -> (all: bool)
    ensures
        (forall|i: int| 0 <= i < values@.len() ==> rational_if_present(*#[trigger] values@[i])) ==> all == forall|i: int|
            0 <= i < values@.len() ==> positive_if_present(*#[trigger] values@[i]),
{
    let mut i: usize = 0;
    while i < values.len()
        invariant
            i <= values@.len(),
            (forall|j: int| 0 <= j < values@.len() ==> rational_if_present(*#[trigger] values@[j])) ==> forall|j: int|
                0 <= j < i ==> positive_if_present(*#[trigger] values@[j]),
        decreases values.len() - i,
    {
        proof {
            if forall|j: int| 0 <= j < values@.len() ==> rational_if_present(*#[trigger] values@[j]) {
                assert(rational_if_present(*values@[i as int]));
            }
        }
        if !is_positive_if_present(values[i]) {
            return false;
        }
        i = i + 1;
    }
    true
}

fn classified_earlier(classes: &Vec<NetClass>, c: usize, m: usize) -> (found: bool)
    requires
        c < classes@.len(),
        m < classes@[c as int].nets@.len(),
    ensures
        found == net_classified_before(classes@, c as int, m as int),
{
    let net = &classes[c].nets[m];
    let mut j: usize = 0;
    while j < c
        invariant
            j <= c < classes@.len(),
            m < classes@[c as int].nets@.len(),
            *net == classes@[c as int].nets@[m as int],
            forall|a: int, i: int|
                0 <= a < j && 0 <= i < classes@[a].nets@.len() ==> #[trigger] classes@[a].nets@[i]@ != net@,
        decreases c - j,
    {
        let mut i: usize = 0;
        while i < classes[j].nets.len()
            invariant
                j < c < classes@.len(),
                *net == classes@[c as int].nets@[m as int],
                i <= classes@[j as int].nets@.len(),
                forall|a: int, b: int|
                    0 <= a < j && 0 <= b < classes@[a].nets@.len() ==> #[trigger] classes@[a].nets@[b]@ != net@,
                forall|b: int| 0 <= b < i ==> #[trigger] classes@[j as int].nets@[b]@ != net@,
            decreases classes@[j as int].nets@.len() - i,
        {
            if classes[j].nets[i].same(net) {
                proof {
                    assert(classes@[j as int].nets@[i as int]@ == classes@[c as int].nets@[m as int]@);
                }
                return true;
            }
            i = i + 1;
        }
        j = j + 1;
    }
    key_repeats(&classes[c].nets, m)
}

impl PcbLayout {
    fn check_via_style(&self, v: usize, issues: &mut Vec<LayoutValidationIssue>)
        requires
            v < self.rules.via_styles@.len(),
        ensures
            extends(final(issues)@, old(issues)@),
            via_style_rational(self.rules.via_styles@[v as int]) ==> final(issues)@ == old(issues)@ + via_style_issues(*self)(v as int),
    {
        proof {
            if via_style_rational(self.rules.via_styles@[v as int]) {
                assert(via_style_rational(self.rules.via_styles@[v as int]));
            }
        }
        let ghost start = issues@;
        let style = &self.rules.via_styles[v];
        let dup = key_repeats(&self.rules.via_styles, v);
        push_when(issues, dup, LayoutValidationIssue::DuplicateViaStyle(style.id.clone()));
        let mut spans_ok = true;
        let mut k: usize = 0;
        while k < style.allowed_spans.len()
            invariant
                k <= style.allowed_spans@.len(),
                spans_ok == forall|j: int|
                    0 <= j < k ==> span_well_formed(*self, #[trigger] style.allowed_spans@[j]) && !span_repeats(
                        style.allowed_spans@,
                        j,
                    ),
            decreases style.allowed_spans.len() - k,
        {
            let span = &style.allowed_spans[k];
            let ok = span.start_layer.0 < span.end_layer.0 && self.has_routing_layer(span.start_layer.0)
                && self.has_routing_layer(span.end_layer.0) && self.span_is_routed(
                span.start_layer.0,
                span.end_layer.0,
            ) && !span_seen(&style.allowed_spans, k);
            if !ok {
                spans_ok = false;
            }
            k = k + 1;
        }
        let invalid = !is_strictly_positive(&style.land_diameter) || !is_strictly_positive(&style.drill_diameter) || greater(
            &style.drill_diameter,
            &style.land_diameter,
        ) || style.plating != Plating::Plated || !spans_ok || opening_invalid(&style.land_diameter, &style.mask.front)
            || opening_invalid(&style.land_diameter, &style.mask.back);
        push_when(issues, invalid, LayoutValidationIssue::InvalidViaStyle(style.id.clone()));
        proof {
            if via_style_rational(self.rules.via_styles@[v as int]) {
                assert(via_style_rational(self.rules.via_styles@[v as int]) ==> issues@ =~= start + via_style_issues(*self)(v as int));
            }
        }
    }

    fn check_via_styles(&self, issues: &mut Vec<LayoutValidationIssue>) -> (items: Ghost<Seq<Seq<LayoutValidationIssue>>>)
        ensures
            items_agree(items@, via_style_issues(*self), |i: int| via_style_rational(self.rules.via_styles@[i]), self.rules.via_styles@.len() as int),
            final(issues)@ == old(issues)@ + joined_items(items@),
            extends(final(issues)@, old(issues)@),
            via_styles_rational(*self) ==> final(issues)@ == old(issues)@ + via_style_section(*self),
    {
        let ghost start = issues@;
        let ghost mut found: Seq<Seq<LayoutValidationIssue>> = Seq::empty();
        let mut v: usize = 0;
        while v < self.rules.via_styles.len()
            invariant
                items_agree(found, via_style_issues(*self), |i: int| via_style_rational(self.rules.via_styles@[i]), v as int),
                issues@ == start + joined_items(found),
                v <= self.rules.via_styles@.len(),
                extends(issues@, start),
                via_styles_rational(*self) ==> issues@ == start + all_issues(via_style_issues(*self), v as int),
            decreases self.rules.via_styles.len() - v,
        {
            let ghost before = issues@;
            self.check_via_style(v, issues);
            proof {
                let item = issues@.subrange(before.len() as int, issues@.len() as int);
                assert(issues@ =~= before + item);
                let previous = found;
                found = found.push(item);
                assert(found.drop_last() =~= previous);
                assert(joined_items(found) == joined_items(previous) + item);
                assert(issues@ =~= start + joined_items(found));
                let ghost issue_at = via_style_issues(*self);
                let ghost decided = |i: int| via_style_rational(self.rules.via_styles@[i]);
                assert forall|i: int| 0 <= i < found.len() && #[trigger] decided(i) implies found[i] == issue_at(i) by {
                    if i < previous.len() {
                        assert(found[i] == previous[i]);
                    } else {
                        assert(i == v);
                        assert(issues@ == before + issue_at(i));
                    }
                }
            }
            v = v + 1;
            proof {
                if via_styles_rational(*self) {
                    assert(via_style_rational(self.rules.via_styles@[v - 1]));
                    assert(via_styles_rational(*self) ==> issues@ =~= start + all_issues(via_style_issues(*self), v as int));
                }
            }
        }
        Ghost(found)
    }

    fn check_class_nets(&self, circuit: &Circuit, c: usize, issues: &mut Vec<LayoutValidationIssue>)
        requires
            c < self.rules.net_classes@.len(),
        ensures
            final(issues)@ == old(issues)@ + all_issues(
                class_net_issues(*circuit, *self, c as int),
                self.rules.net_classes@[c as int].nets@.len() as int,
            ),
    {
        let ghost start = issues@;
        let class = &self.rules.net_classes[c];
        let mut m: usize = 0;
        while m < class.nets.len()
            invariant
                c < self.rules.net_classes@.len(),
                *class == self.rules.net_classes@[c as int],
                m <= class.nets@.len(),
                issues@ == start + all_issues(class_net_issues(*circuit, *self, c as int), m as int),
            decreases class.nets.len() - m,
        {
            let twice = classified_earlier(&self.rules.net_classes, c, m);
            push_when(issues, twice, LayoutValidationIssue::NetInMultipleClasses(class.nets[m].clone()));
            let known = crate::validation::contains_key(&circuit.nets, &class.nets[m].0);
            push_when(
                issues,
                !known,
                LayoutValidationIssue::UnknownNetClassNet { class: class.id.clone(), net: class.nets[m].clone() },
            );
            m = m + 1;
            proof {
                assert(issues@ =~= start + all_issues(class_net_issues(*circuit, *self, c as int), m as int));
            }
        }
    }

    fn check_class(&self, circuit: &Circuit, c: usize, issues: &mut Vec<LayoutValidationIssue>) -> (duplicate: bool)
        requires
            c < self.rules.net_classes@.len(),
        ensures
            extends(final(issues)@, old(issues)@),
            class_rational(self.rules.net_classes@[c as int]) ==> final(issues)@ == old(issues)@ + class_issues(*circuit, *self)(c as int),
            duplicate == repeats(self.rules.net_classes@, c as int),
    {
        let ghost start = issues@;
        let class = &self.rules.net_classes[c];
        let dup = key_repeats(&self.rules.net_classes, c);
        push_when(issues, dup, LayoutValidationIssue::DuplicateNetClass(class.id.clone()));
        self.check_class_nets(circuit, c, issues);
        let ghost before_style = issues@;
        match &class.preferred_via_style {
            Some(style) => {
                let known = crate::validation::contains_key(&self.rules.via_styles, &style.0);
                push_when(
                    issues,
                    !known,
                    LayoutValidationIssue::UnknownNetClassViaStyle { class: class.id.clone(), style: style.clone() },
                );
            },
            None => {},
        }
        let dimensions = [
            &class.min_trace_width,
            &class.preferred_trace_width,
            &class.min_clearance,
            &class.preferred_via_land_diameter,
            &class.preferred_via_drill_diameter,
            &class.max_length,
            &class.target_impedance_ohms,
            &class.impedance_tolerance_ohms,
        ];
        let all_positive = is_positive_all(&dimensions);
        proof {
            assert(dimensions@[0] == &class.min_trace_width);
            assert(dimensions@[7] == &class.impedance_tolerance_ohms);
            if class_rational(self.rules.net_classes@[c as int]) {
                assert(class_rational(self.rules.net_classes@[c as int]));
                assert forall|i: int| 0 <= i < dimensions@.len() implies rational_if_present(*#[trigger] dimensions@[i]) by {
                    assert(dimensions@[1] == &class.preferred_trace_width);
                    assert(dimensions@[2] == &class.min_clearance);
                    assert(dimensions@[3] == &class.preferred_via_land_diameter);
                    assert(dimensions@[4] == &class.preferred_via_drill_diameter);
                    assert(dimensions@[5] == &class.max_length);
                    assert(dimensions@[6] == &class.target_impedance_ohms);
                }
                assert(all_positive == !class_dimensions_invalid(*class)) by {
                    if all_positive {
                        assert(positive_if_present(*dimensions@[0]));
                        assert(positive_if_present(*dimensions@[1]));
                        assert(positive_if_present(*dimensions@[2]));
                        assert(positive_if_present(*dimensions@[3]));
                        assert(positive_if_present(*dimensions@[4]));
                        assert(positive_if_present(*dimensions@[5]));
                        assert(positive_if_present(*dimensions@[6]));
                        assert(positive_if_present(*dimensions@[7]));
                    }
                }
            }
        }
        push_when(issues, !all_positive, LayoutValidationIssue::InvalidNetClassConstraint(class.id.clone()));
        proof {
            if class_rational(self.rules.net_classes@[c as int]) {
                assert(class_rational(self.rules.net_classes@[c as int]) ==> issues@ =~= start + class_issues(*circuit, *self)(c as int));
            }
        }
        dup
    }

    fn check_net_classes(&self, circuit: &Circuit, issues: &mut Vec<LayoutValidationIssue>) -> (items: Ghost<Seq<Seq<LayoutValidationIssue>>>)
        ensures
            items_agree(items@, class_issues(*circuit, *self), |i: int| class_rational(self.rules.net_classes@[i]), self.rules.net_classes@.len() as int),
            final(issues)@ == old(issues)@ + joined_items(items@) + net_class_tail(*self),
            extends(final(issues)@, old(issues)@),
            classes_rational(*self) ==> final(issues)@ == old(issues)@ + net_class_section(*circuit, *self),
            exists|classes_part: Seq<LayoutValidationIssue>|
                final(issues)@ == old(issues)@ + classes_part + net_class_tail(*self) && (classes_rational(*self)
                    ==> classes_part == all_issues(class_issues(*circuit, *self), self.rules.net_classes@.len() as int)),
    {
        let ghost start = issues@;
        let ghost mut found: Seq<Seq<LayoutValidationIssue>> = Seq::empty();
        let classes = &self.rules.net_classes;
        let mut any_duplicate = false;
        let mut c: usize = 0;
        while c < classes.len()
            invariant
                items_agree(found, class_issues(*circuit, *self), |i: int| class_rational(self.rules.net_classes@[i]), c as int),
                issues@ == start + joined_items(found),
                c <= classes@.len(),
                classes@ == self.rules.net_classes@,
                extends(issues@, start),
                classes_rational(*self) ==> issues@ == start + all_issues(class_issues(*circuit, *self), c as int),
                any_duplicate == (first_repeated_class(classes@, c as int) is Some),
            decreases classes.len() - c,
        {
            let ghost before = issues@;
            let dup = self.check_class(circuit, c, issues);
            proof {
                let item = issues@.subrange(before.len() as int, issues@.len() as int);
                assert(issues@ =~= before + item);
                let previous = found;
                found = found.push(item);
                assert(found.drop_last() =~= previous);
                assert(joined_items(found) == joined_items(previous) + item);
                assert(issues@ =~= start + joined_items(found));
                let ghost issue_at = class_issues(*circuit, *self);
                let ghost decided = |i: int| class_rational(self.rules.net_classes@[i]);
                assert forall|i: int| 0 <= i < found.len() && #[trigger] decided(i) implies found[i] == issue_at(i) by {
                    if i < previous.len() {
                        assert(found[i] == previous[i]);
                    } else {
                        assert(i == c);
                        assert(issues@ == before + issue_at(i));
                    }
                }
            }
            if dup {
                any_duplicate = true;
            }
            c = c + 1;
            proof {
                if classes_rational(*self) {
                    assert(class_rational(self.rules.net_classes@[c - 1]));
                    assert(classes_rational(*self) ==> issues@ =~= start + all_issues(class_issues(*circuit, *self), c as int));
                }
            }
        }
        let ghost before_resolution = issues@;
        if !any_duplicate {
            match self.rules.resolve_net_classes() {
                Err(error) => {
                    let issue = match error {
                        NetClassResolutionError::DuplicateClass(class) => LayoutValidationIssue::DuplicateNetClass(class),
                        NetClassResolutionError::UnknownParent { class, parent } => {
                            LayoutValidationIssue::UnknownNetClassParent { class, parent }
                        },
                        NetClassResolutionError::InheritanceCycle(class) => {
                            LayoutValidationIssue::NetClassInheritanceCycle(class)
                        },
                    };
                    issues.push(issue);
                },
                Ok(_) => {},
            }
        }
        proof {
            assert(issues@ =~= before_resolution + net_class_tail(*self));
            assert(before_resolution == start + joined_items(found));
            let classes_part = before_resolution.subrange(start.len() as int, before_resolution.len() as int);
            assert(before_resolution =~= start + classes_part);
            assert(issues@ =~= start + classes_part + net_class_tail(*self));
            if classes_rational(*self) {
                assert(classes_part =~= all_issues(class_issues(*circuit, *self), self.rules.net_classes@.len() as int));
                assert(issues@ =~= start + net_class_section(*circuit, *self));
            }
        }
        Ghost(found)
    }

    fn check_pairs(&self, circuit: &Circuit, issues: &mut Vec<LayoutValidationIssue>) -> (items: Ghost<Seq<Seq<LayoutValidationIssue>>>)
        ensures
            items_agree(items@, pair_issues(*circuit, *self), |i: int| pair_rational(self.rules.differential_pairs@[i]), self.rules.differential_pairs@.len() as int),
            final(issues)@ == old(issues)@ + joined_items(items@),
            extends(final(issues)@, old(issues)@),
            pairs_rational(*self) ==> final(issues)@ == old(issues)@ + pair_section(*circuit, *self),
    {
        let ghost start = issues@;
        let ghost mut found: Seq<Seq<LayoutValidationIssue>> = Seq::empty();
        let pairs = &self.rules.differential_pairs;
        let mut d: usize = 0;
        while d < pairs.len()
            invariant
                items_agree(found, pair_issues(*circuit, *self), |i: int| pair_rational(self.rules.differential_pairs@[i]), d as int),
                issues@ == start + joined_items(found),
                d <= pairs@.len(),
                pairs@ == self.rules.differential_pairs@,
                extends(issues@, start),
                pairs_rational(*self) ==> issues@ == start + all_issues(pair_issues(*circuit, *self), d as int),
            decreases pairs.len() - d,
        {
            let ghost before = issues@;
            let pair = &pairs[d];
            let dup = key_repeats(pairs, d);
            push_when(issues, dup, LayoutValidationIssue::DuplicateDifferentialPair(pair.id.clone()));
            let neck_invalid = match &pair.neckdown {
                Some(neckdown) => !is_strictly_positive(&neckdown.trace_width) || !is_strictly_positive(&neckdown.spacing) || !is_strictly_positive(
                    &neckdown.maximum_transition_length,
                ) || !less(&neckdown.spacing, &pair.spacing),
                None => false,
            };
            let invalid = pair.positive.same(&pair.negative) || !crate::validation::contains_key(
                &circuit.nets,
                &pair.positive.0,
            ) || !crate::validation::contains_key(&circuit.nets, &pair.negative.0) || !is_strictly_positive(&pair.spacing)
                || !is_positive_if_present(&pair.max_skew) || !is_positive_if_present(&pair.target_impedance_ohms)
                || !is_positive_if_present(&pair.impedance_tolerance_ohms) || pair.target_impedance_ohms.is_some()
                != pair.impedance_tolerance_ohms.is_some() || neck_invalid;
            push_when(issues, invalid, LayoutValidationIssue::InvalidDifferentialPair(pair.id.clone()));
            proof {
                let item = issues@.subrange(before.len() as int, issues@.len() as int);
                assert(issues@ =~= before + item);
                let previous = found;
                found = found.push(item);
                assert(found.drop_last() =~= previous);
                assert(joined_items(found) == joined_items(previous) + item);
                let issue_at = pair_issues(*circuit, *self);
                let decided = |i: int| pair_rational(self.rules.differential_pairs@[i]);
                if decided(d as int) {
                    assert(item =~= issue_at(d as int));
                }
                assert forall|i: int| 0 <= i < found.len() && #[trigger] decided(i) implies found[i] == issue_at(i) by {
                    if i < previous.len() {
                        assert(found[i] == previous[i]);
                    }
                }
                assert(issues@ =~= start + joined_items(found));
            }
            d = d + 1;
            proof {
                if pairs_rational(*self) {
                    assert(pair_rational(self.rules.differential_pairs@[d - 1]));
                    assert(pairs_rational(*self) ==> issues@ =~= start + all_issues(pair_issues(*circuit, *self), d as int));
                }
            }
        }
        Ghost(found)
    }
}


// ---------------------------------------------------------------------------
// Regions, escape policies, and length/phase tuning.
// ---------------------------------------------------------------------------

impl TextKeyed for RouteConstraintRegion {
    open spec fn key_text(&self) -> Seq<char> {
        self.id@
    }

    fn key(&self) -> (key: &String) {
        &self.id.0
    }
}

impl TextKeyed for RouteRuleRegion {
    open spec fn key_text(&self) -> Seq<char> {
        self.id@
    }

    fn key(&self) -> (key: &String) {
        &self.id.0
    }
}

impl TextKeyed for EscapePolicy {
    open spec fn key_text(&self) -> Seq<char> {
        self.id@
    }

    fn key(&self) -> (key: &String) {
        &self.id.0
    }
}

impl TextKeyed for LengthTuningPattern {
    open spec fn key_text(&self) -> Seq<char> {
        self.id@
    }

    fn key(&self) -> (key: &String) {
        &self.id.0
    }
}

impl TextKeyed for PhaseTuningGroup {
    open spec fn key_text(&self) -> Seq<char> {
        self.id@
    }

    fn key(&self) -> (key: &String) {
        &self.id.0
    }
}

impl TextKeyed for CircuitInstanceId {
    open spec fn key_text(&self) -> Seq<char> {
        self@
    }

    fn key(&self) -> (key: &String) {
        &self.0
    }
}

impl TextKeyed for LengthTuningPatternId {
    open spec fn key_text(&self) -> Seq<char> {
        self@
    }

    fn key(&self) -> (key: &String) {
        &self.0
    }
}

/// Some item repeats the key of an earlier one.
pub open spec fn some_repeat<T: TextKeyed>(items: Seq<T>) -> bool {
    exists|k: int| 0 <= k < items.len() && #[trigger] repeats(items, k)
}

/// Some layer repeats the index of an earlier one.
pub open spec fn some_layer_repeat(layers: Seq<TraceLayer>) -> bool {
    exists|j: int, k: int| 0 <= j < k < layers.len() && #[trigger] layers[j].0 == #[trigger] layers[k].0
}

/// Some direction repeats an earlier one.
pub open spec fn some_direction_repeat(directions: Seq<RouteDirection>) -> bool {
    exists|j: int, k: int| 0 <= j < k < directions.len() && #[trigger] directions[j] == #[trigger] directions[k]
}

/// Some listed layer is not a routing layer.
pub open spec fn some_layer_unrouted(layout: PcbLayout, layers: Seq<TraceLayer>) -> bool {
    exists|k: int| 0 <= k < layers.len() && !routing_layer(layout, #[trigger] layers[k].0)
}

fn any_repeat<T: TextKeyed>(items: &Vec<T>) -> (found: bool)
    ensures
        found == some_repeat(items@),
{
    let mut k: usize = 0;
    while k < items.len()
        invariant
            k <= items@.len(),
            forall|i: int| 0 <= i < k ==> !#[trigger] repeats(items@, i),
        decreases items.len() - k,
    {
        if key_repeats(items, k) {
            return true;
        }
        k = k + 1;
    }
    false
}

fn any_layer_repeat(layers: &Vec<TraceLayer>) -> (found: bool)
    ensures
        found == some_layer_repeat(layers@),
{
    let mut k: usize = 0;
    while k < layers.len()
        invariant
            k <= layers@.len(),
            forall|a: int, b: int| 0 <= a < b < k ==> #[trigger] layers@[a].0 != #[trigger] layers@[b].0,
        decreases layers.len() - k,
    {
        let mut j: usize = 0;
        while j < k
            invariant
                j <= k < layers@.len(),
                forall|a: int, b: int| 0 <= a < b < k ==> #[trigger] layers@[a].0 != #[trigger] layers@[b].0,
                forall|a: int| 0 <= a < j ==> #[trigger] layers@[a].0 != layers@[k as int].0,
            decreases k - j,
        {
            if layers[j].0 == layers[k].0 {
                return true;
            }
            j = j + 1;
        }
        k = k + 1;
    }
    false
}

fn any_direction_repeat(directions: &Vec<RouteDirection>) -> (found: bool)
    ensures
        found == some_direction_repeat(directions@),
{
    let mut k: usize = 0;
    while k < directions.len()
        invariant
            k <= directions@.len(),
            forall|a: int, b: int| 0 <= a < b < k ==> #[trigger] directions@[a] != #[trigger] directions@[b],
        decreases directions.len() - k,
    {
        let mut j: usize = 0;
        while j < k
            invariant
                j <= k < directions@.len(),
                forall|a: int, b: int| 0 <= a < b < k ==> #[trigger] directions@[a] != #[trigger] directions@[b],
                forall|a: int| 0 <= a < j ==> #[trigger] directions@[a] != directions@[k as int],
            decreases k - j,
        {
            if directions[j] == directions[k] {
                return true;
            }
            j = j + 1;
        }
        k = k + 1;
    }
    false
}

/// Owner of a net list whose unknown nets are reported against it.
pub trait NetListOwner {
    /// The issue raised for an unknown net of the owner.
    spec fn unknown_net(&self, net: NetId) -> LayoutValidationIssue;

    /// Builds the issue raised for an unknown net of the owner.
    fn unknown_net_issue(&self, net: &NetId) -> (issue: LayoutValidationIssue)
        ensures
            issue == self.unknown_net(*net),
    ;
}

impl NetListOwner for RouteConstraintRegionId {
    open spec fn unknown_net(&self, net: NetId) -> LayoutValidationIssue {
        LayoutValidationIssue::UnknownRouteConstraintRegionNet { region: *self, net: net }
    }

    fn unknown_net_issue(&self, net: &NetId) -> (issue: LayoutValidationIssue) {
        LayoutValidationIssue::UnknownRouteConstraintRegionNet { region: self.clone(), net: net.clone() }
    }
}

impl NetListOwner for RouteRuleRegionId {
    open spec fn unknown_net(&self, net: NetId) -> LayoutValidationIssue {
        LayoutValidationIssue::UnknownRouteRuleRegionNet { region: *self, net: net }
    }

    fn unknown_net_issue(&self, net: &NetId) -> (issue: LayoutValidationIssue) {
        LayoutValidationIssue::UnknownRouteRuleRegionNet { region: self.clone(), net: net.clone() }
    }
}

impl NetListOwner for EscapePolicyId {
    open spec fn unknown_net(&self, net: NetId) -> LayoutValidationIssue {
        LayoutValidationIssue::UnknownEscapePolicyNet { policy: *self, net: net }
    }

    fn unknown_net_issue(&self, net: &NetId) -> (issue: LayoutValidationIssue) {
        LayoutValidationIssue::UnknownEscapePolicyNet { policy: self.clone(), net: net.clone() }
    }
}

/// Issues of net `m` of a list owned by `owner`: an unknown net.
pub open spec fn unknown_net_issues<O: NetListOwner>(
    circuit: Circuit,
    nets: Seq<NetId>,
    owner: O,
) -> spec_fn(int) -> Seq<LayoutValidationIssue> {
    |m: int| raise(!has_key(circuit.nets@, nets[m]@), owner.unknown_net(nets[m]))
}

/// A constraint region has fewer than three boundary points, no layers or
/// directions, a repeated net, layer, or direction, or an unrouted layer.
pub open spec fn constraint_region_invalid(layout: PcbLayout, region: RouteConstraintRegion) -> bool {
    region.boundary@.len() < 3 || region.allowed_layers@.len() == 0 || region.allowed_directions@.len() == 0
        || some_repeat(region.nets@) || some_layer_repeat(region.allowed_layers@) || some_direction_repeat(
        region.allowed_directions@,
    ) || some_layer_unrouted(layout, region.allowed_layers@)
}

/// Issues of route-constraint region `g`.
pub open spec fn constraint_region_issues(circuit: Circuit, layout: PcbLayout) -> spec_fn(int) -> Seq<LayoutValidationIssue> {
    |g: int|
        {
            let region = layout.rules.route_constraint_regions@[g];
            raise(
                repeats(layout.rules.route_constraint_regions@, g),
                LayoutValidationIssue::DuplicateRouteConstraintRegion(region.id),
            ) + all_issues(
                unknown_net_issues(
                    circuit,
                    region.nets@,
                    region.id,
                ),
                region.nets@.len() as int,
            ) + raise(
                constraint_region_invalid(layout, region),
                LayoutValidationIssue::InvalidRouteConstraintRegion(region.id),
            )
        }
}

/// Route-constraint region section.
pub open spec fn constraint_region_section(circuit: Circuit, layout: PcbLayout) -> Seq<LayoutValidationIssue> {
    all_issues(constraint_region_issues(circuit, layout), layout.rules.route_constraint_regions@.len() as int)
}

/// A rule region has fewer than three boundary points, a repeated net, no
/// override, a non-positive width, or a negative clearance.
pub open spec fn rule_region_invalid(region: RouteRuleRegion) -> bool {
    region.boundary@.len() < 3 || some_repeat(region.nets@) || (region.min_trace_width is None
        && region.min_clearance is None) || !positive_if_present(region.min_trace_width) || match region.min_clearance {
        Some(clearance) => !nonnegative(clearance),
        None => false,
    }
}

/// Issues of route-rule region `g`.
pub open spec fn rule_region_issues(circuit: Circuit, layout: PcbLayout) -> spec_fn(int) -> Seq<LayoutValidationIssue> {
    |g: int|
        {
            let region = layout.rules.route_rule_regions@[g];
            raise(
                repeats(layout.rules.route_rule_regions@, g),
                LayoutValidationIssue::DuplicateRouteRuleRegion(region.id),
            ) + all_issues(
                unknown_net_issues(
                    circuit,
                    region.nets@,
                    region.id,
                ),
                region.nets@.len() as int,
            ) + raise(rule_region_invalid(region), LayoutValidationIssue::InvalidRouteRuleRegion(region.id))
        }
}

/// Route-rule region section.
pub open spec fn rule_region_section(circuit: Circuit, layout: PcbLayout) -> Seq<LayoutValidationIssue> {
    all_issues(rule_region_issues(circuit, layout), layout.rules.route_rule_regions@.len() as int)
}

/// An escape policy has no instances, a non-positive distance, no layers or
/// directions, a repeated instance, net, layer, or direction, or an unrouted layer.
pub open spec fn escape_invalid(layout: PcbLayout, policy: EscapePolicy) -> bool {
    policy.instances@.len() == 0 || !positive(policy.max_distance) || policy.allowed_layers@.len() == 0
        || policy.allowed_directions@.len() == 0 || some_repeat(policy.instances@) || some_repeat(policy.nets@)
        || some_layer_repeat(policy.allowed_layers@) || some_direction_repeat(policy.allowed_directions@)
        || some_layer_unrouted(layout, policy.allowed_layers@)
}

/// Issues of instance `i` of escape policy `e`: an unplaced instance.
pub open spec fn escape_instance_issues(layout: PcbLayout, policy: EscapePolicy) -> spec_fn(int) -> Seq<LayoutValidationIssue> {
    |i: int|
        raise(
            !has_key(layout.placements@, policy.instances@[i]@),
            LayoutValidationIssue::UnknownEscapePolicyInstance { policy: policy.id, instance: policy.instances@[i] },
        )
}

/// Issues of escape policy `e`.
pub open spec fn escape_issues(circuit: Circuit, layout: PcbLayout) -> spec_fn(int) -> Seq<LayoutValidationIssue> {
    |e: int|
        {
            let policy = layout.rules.escape_policies@[e];
            raise(
                repeats(layout.rules.escape_policies@, e),
                LayoutValidationIssue::DuplicateEscapePolicy(policy.id),
            ) + all_issues(escape_instance_issues(layout, policy), policy.instances@.len() as int) + all_issues(
                unknown_net_issues(
                    circuit,
                    policy.nets@,
                    policy.id,
                ),
                policy.nets@.len() as int,
            ) + raise(escape_invalid(layout, policy), LayoutValidationIssue::InvalidEscapePolicy(policy.id))
        }
}

/// Escape-policy section.
pub open spec fn escape_section(circuit: Circuit, layout: PcbLayout) -> Seq<LayoutValidationIssue> {
    all_issues(escape_issues(circuit, layout), layout.rules.escape_policies@.len() as int)
}

/// A tuning pattern targets an unknown net, or selects a route that is
/// absent or carries another net (the first route with that identity).
pub open spec fn tuning_target_invalid(circuit: Circuit, layout: PcbLayout, pattern: LengthTuningPattern) -> bool {
    !has_key(circuit.nets@, pattern.net@) || match pattern.route {
        Some(route) => match first_key_index(layout.routes@, route@, layout.routes@.len() as int) {
            Some(r) => layout.routes@[r].net@ != pattern.net@,
            None => true,
        },
        None => false,
    }
}

/// A tuning pattern has a region of fewer than three points, a non-positive
/// target, amplitude or pitch, a negative tolerance, or no cycles.
pub open spec fn tuning_shape_invalid(pattern: LengthTuningPattern) -> bool {
    pattern.region@.len() < 3 || !positive(pattern.target_length) || !nonnegative(pattern.tolerance) || !positive(
        pattern.amplitude,
    ) || !positive(pattern.pitch) || pattern.maximum_cycles == 0
}

/// Issues of length-tuning pattern `t`.
pub open spec fn tuning_issues(circuit: Circuit, layout: PcbLayout) -> spec_fn(int) -> Seq<LayoutValidationIssue> {
    |t: int|
        {
            let pattern = layout.rules.length_tuning_patterns@[t];
            raise(
                repeats(layout.rules.length_tuning_patterns@, t),
                LayoutValidationIssue::DuplicateLengthTuningPattern(pattern.id),
            ) + raise(
                tuning_target_invalid(circuit, layout, pattern),
                LayoutValidationIssue::InvalidLengthTuningTarget(pattern.id),
            ) + raise(tuning_shape_invalid(pattern), LayoutValidationIssue::InvalidLengthTuningPattern(pattern.id))
        }
}

/// Length-tuning section.
pub open spec fn tuning_section(circuit: Circuit, layout: PcbLayout) -> Seq<LayoutValidationIssue> {
    all_issues(tuning_issues(circuit, layout), layout.rules.length_tuning_patterns@.len() as int)
}

/// Net of member `i` of a phase group: the net of the first tuning pattern
/// declared with that identity.
pub open spec fn member_net(layout: PcbLayout, group: PhaseTuningGroup, i: int) -> Option<Seq<char>> {
    let patterns = layout.rules.length_tuning_patterns@;
    match first_key_index(patterns, group.patterns@[i]@, patterns.len() as int) {
        Some(j) => Some(patterns[j].net@),
        None => None,
    }
}

/// Some member names no tuning pattern.
pub open spec fn some_member_missing(layout: PcbLayout, group: PhaseTuningGroup) -> bool {
    exists|i: int| 0 <= i < group.patterns@.len() && #[trigger] member_net(layout, group, i) is None
}

/// Two members carry one net.
pub open spec fn some_member_net_repeat(layout: PcbLayout, group: PhaseTuningGroup) -> bool {
    exists|i: int, j: int|
        0 <= i < j < group.patterns@.len() && #[trigger] member_net(layout, group, i) is Some
            && member_net(layout, group, i) == #[trigger] member_net(layout, group, j)
}

/// The group's declared pair, if any, is found and its two nets are exactly
/// the distinct nets of exactly two members.
pub open spec fn group_pair_valid(layout: PcbLayout, group: PhaseTuningGroup) -> bool {
    match group.differential_pair {
        None => true,
        Some(id) => {
            let pairs = layout.rules.differential_pairs@;
            match first_key_index(pairs, id@, pairs.len() as int) {
                None => false,
                Some(p) => {
                    let pair = pairs[p];
                    &&& group.patterns@.len() == 2
                    &&& member_net(layout, group, 0) matches Some(first)
                    &&& member_net(layout, group, 1) matches Some(second)
                    &&& first != second
                    &&& (pair.positive@ == first || pair.positive@ == second)
                    &&& (pair.negative@ == first || pair.negative@ == second)
                },
            }
        },
    }
}

/// Issues of phase-tuning group `g`.
pub open spec fn phase_issues(layout: PcbLayout) -> spec_fn(int) -> Seq<LayoutValidationIssue> {
    |g: int|
        {
            let group = layout.rules.phase_tuning_groups@[g];
            raise(
                repeats(layout.rules.phase_tuning_groups@, g),
                LayoutValidationIssue::DuplicatePhaseTuningGroup(group.id),
            ) + raise(
                some_repeat(group.patterns@) || some_member_missing(layout, group) || some_member_net_repeat(
                    layout,
                    group,
                ) || !group_pair_valid(layout, group),
                LayoutValidationIssue::InvalidPhaseTuningTarget(group.id),
            ) + raise(
                group.patterns@.len() < 2 || !nonnegative(group.maximum_skew) || !nonnegative(
                    group.minimum_clearance,
                ),
                LayoutValidationIssue::InvalidPhaseTuningGroup(group.id),
            )
        }
}

/// Phase-tuning section.
pub open spec fn phase_section(layout: PcbLayout) -> Seq<LayoutValidationIssue> {
    all_issues(phase_issues(layout), layout.rules.phase_tuning_groups@.len() as int)
}

fn check_unknown_nets<O: NetListOwner>(
    circuit: &Circuit,
    nets: &Vec<NetId>,
    owner: &O,
    issues: &mut Vec<LayoutValidationIssue>,
)
    ensures
        final(issues)@ == old(issues)@ + all_issues(unknown_net_issues(*circuit, nets@, *owner), nets@.len() as int),
{
    let ghost start = issues@;
    let mut m: usize = 0;
    while m < nets.len()
        invariant
            m <= nets@.len(),
            issues@ == start + all_issues(unknown_net_issues(*circuit, nets@, *owner), m as int),
        decreases nets.len() - m,
    {
        let known = crate::validation::contains_key(&circuit.nets, &nets[m].0);
        if !known {
            issues.push(owner.unknown_net_issue(&nets[m]));
        }
        m = m + 1;
        proof {
            assert(issues@ =~= start + all_issues(unknown_net_issues(*circuit, nets@, *owner), m as int));
        }
    }
}

fn some_unrouted(layout: &PcbLayout, layers: &Vec<TraceLayer>) -> (found: bool)
    ensures
        found == some_layer_unrouted(*layout, layers@),
{
    let mut k: usize = 0;
    while k < layers.len()
        invariant
            k <= layers@.len(),
            forall|i: int| 0 <= i < k ==> routing_layer(*layout, #[trigger] layers@[i].0),
        decreases layers.len() - k,
    {
        if !layout.has_routing_layer(layers[k].0) {
            return true;
        }
        k = k + 1;
    }
    false
}


fn is_nonnegative_if_present(value: &Option<Real>) -> (result: bool)
    ensures
        rational_if_present(*value) ==> result == match *value {
            Some(v) => nonnegative(v),
            None => true,
        },
{
    match value {
        Some(v) => is_non_negative(v),
        None => true,
    }
}

impl PcbLayout {
    #[verifier::spinoff_prover]
    #[verifier::rlimit(30)]
    fn check_constraint_regions(&self, circuit: &Circuit, issues: &mut Vec<LayoutValidationIssue>)
        ensures
            final(issues)@ == old(issues)@ + constraint_region_section(*circuit, *self),
    {
        let ghost start = issues@;
        let regions = &self.rules.route_constraint_regions;
        let mut g: usize = 0;
        while g < regions.len()
            invariant
                g <= regions@.len(),
                regions@ == self.rules.route_constraint_regions@,
                issues@ == start + all_issues(constraint_region_issues(*circuit, *self), g as int),
            decreases regions.len() - g,
        {
            let region = &regions[g];
            let ghost before = issues@;
            push_when(issues, key_repeats(regions, g), LayoutValidationIssue::DuplicateRouteConstraintRegion(region.id.clone()));
            check_unknown_nets(circuit, &region.nets, &region.id, issues);
            let invalid = region.boundary.len() < 3 || region.allowed_layers.len() == 0
                || region.allowed_directions.len() == 0 || any_repeat(&region.nets) || any_layer_repeat(
                &region.allowed_layers,
            ) || any_direction_repeat(&region.allowed_directions) || some_unrouted(self, &region.allowed_layers);
            push_when(issues, invalid, LayoutValidationIssue::InvalidRouteConstraintRegion(region.id.clone()));
            g = g + 1;
            proof {
                assert(issues@ =~= start + all_issues(constraint_region_issues(*circuit, *self), g as int));
            }
        }
    }
}

impl PcbLayout {
    #[verifier::spinoff_prover]
    #[verifier::rlimit(30)]
    fn check_rule_regions(&self, circuit: &Circuit, issues: &mut Vec<LayoutValidationIssue>) -> (items: Ghost<Seq<Seq<LayoutValidationIssue>>>)
        ensures
            items_agree(items@, rule_region_issues(*circuit, *self), |i: int| rule_region_rational(self.rules.route_rule_regions@[i]), self.rules.route_rule_regions@.len() as int),
            final(issues)@ == old(issues)@ + joined_items(items@),
            extends(final(issues)@, old(issues)@),
            rule_regions_rational(*self) ==> final(issues)@ == old(issues)@ + rule_region_section(*circuit, *self),
    {
        let ghost start = issues@;
        let ghost mut found: Seq<Seq<LayoutValidationIssue>> = Seq::empty();
        let regions = &self.rules.route_rule_regions;
        let mut g: usize = 0;
        while g < regions.len()
            invariant
                items_agree(found, rule_region_issues(*circuit, *self), |i: int| rule_region_rational(self.rules.route_rule_regions@[i]), g as int),
                issues@ == start + joined_items(found),
                g <= regions@.len(),
                regions@ == self.rules.route_rule_regions@,
                extends(issues@, start),
                rule_regions_rational(*self) ==> issues@ == start + all_issues(rule_region_issues(*circuit, *self), g as int),
            decreases regions.len() - g,
        {
            let ghost before = issues@;
            let region = &regions[g];
            push_when(issues, key_repeats(regions, g), LayoutValidationIssue::DuplicateRouteRuleRegion(region.id.clone()));
            check_unknown_nets(circuit, &region.nets, &region.id, issues);
            let invalid = region.boundary.len() < 3 || any_repeat(&region.nets) || (region.min_trace_width.is_none()
                && region.min_clearance.is_none()) || !is_positive_if_present(&region.min_trace_width)
                || !is_nonnegative_if_present(&region.min_clearance);
            push_when(issues, invalid, LayoutValidationIssue::InvalidRouteRuleRegion(region.id.clone()));
            proof {
                let item = issues@.subrange(before.len() as int, issues@.len() as int);
                assert(issues@ =~= before + item);
                let previous = found;
                found = found.push(item);
                assert(found.drop_last() =~= previous);
                assert(joined_items(found) == joined_items(previous) + item);
                let issue_at = rule_region_issues(*circuit, *self);
                let decided = |i: int| rule_region_rational(self.rules.route_rule_regions@[i]);
                if decided(g as int) {
                    assert(item =~= issue_at(g as int));
                }
                assert forall|i: int| 0 <= i < found.len() && #[trigger] decided(i) implies found[i] == issue_at(i) by {
                    if i < previous.len() {
                        assert(found[i] == previous[i]);
                    }
                }
                assert(issues@ =~= start + joined_items(found));
            }
            g = g + 1;
            proof {
                if rule_regions_rational(*self) {
                    assert(rule_region_rational(self.rules.route_rule_regions@[g - 1]));
                    assert(rule_regions_rational(*self) ==> issues@ =~= start + all_issues(rule_region_issues(*circuit, *self), g as int));
                }
            }
        }
        Ghost(found)
    }

    fn check_escape_instances(&self, policy: &EscapePolicy, issues: &mut Vec<LayoutValidationIssue>)
        ensures
            final(issues)@ == old(issues)@ + all_issues(escape_instance_issues(*self, *policy), policy.instances@.len() as int),
    {
        let ghost start = issues@;
        let mut i: usize = 0;
        while i < policy.instances.len()
            invariant
                i <= policy.instances@.len(),
                issues@ == start + all_issues(escape_instance_issues(*self, *policy), i as int),
            decreases policy.instances.len() - i,
        {
            let instance = &policy.instances[i];
            let placed = crate::validation::contains_key(&self.placements, &instance.0);
            push_when(
                issues,
                !placed,
                LayoutValidationIssue::UnknownEscapePolicyInstance { policy: policy.id.clone(), instance: instance.clone() },
            );
            i = i + 1;
            proof {
                assert(issues@ =~= start + all_issues(escape_instance_issues(*self, *policy), i as int));
            }
        }
    }

    #[verifier::spinoff_prover]
    #[verifier::rlimit(30)]
    fn check_escape_policies(&self, circuit: &Circuit, issues: &mut Vec<LayoutValidationIssue>) -> (items: Ghost<Seq<Seq<LayoutValidationIssue>>>)
        ensures
            items_agree(items@, escape_issues(*circuit, *self), |i: int| real_rational_class(self.rules.escape_policies@[i].max_distance), self.rules.escape_policies@.len() as int),
            final(issues)@ == old(issues)@ + joined_items(items@),
            extends(final(issues)@, old(issues)@),
            escapes_rational(*self) ==> final(issues)@ == old(issues)@ + escape_section(*circuit, *self),
    {
        let ghost start = issues@;
        let ghost mut found: Seq<Seq<LayoutValidationIssue>> = Seq::empty();
        let policies = &self.rules.escape_policies;
        let mut e: usize = 0;
        while e < policies.len()
            invariant
                items_agree(found, escape_issues(*circuit, *self), |i: int| real_rational_class(self.rules.escape_policies@[i].max_distance), e as int),
                issues@ == start + joined_items(found),
                e <= policies@.len(),
                policies@ == self.rules.escape_policies@,
                extends(issues@, start),
                escapes_rational(*self) ==> issues@ == start + all_issues(escape_issues(*circuit, *self), e as int),
            decreases policies.len() - e,
        {
            let ghost before = issues@;
            let policy = &policies[e];
            push_when(issues, key_repeats(policies, e), LayoutValidationIssue::DuplicateEscapePolicy(policy.id.clone()));
            self.check_escape_instances(policy, issues);
            check_unknown_nets(circuit, &policy.nets, &policy.id, issues);
            let invalid = policy.instances.len() == 0 || !is_strictly_positive(&policy.max_distance)
                || policy.allowed_layers.len() == 0 || policy.allowed_directions.len() == 0 || any_repeat(
                &policy.instances,
            ) || any_repeat(&policy.nets) || any_layer_repeat(&policy.allowed_layers) || any_direction_repeat(
                &policy.allowed_directions,
            ) || some_unrouted(self, &policy.allowed_layers);
            push_when(issues, invalid, LayoutValidationIssue::InvalidEscapePolicy(policy.id.clone()));
            proof {
                let item = issues@.subrange(before.len() as int, issues@.len() as int);
                assert(issues@ =~= before + item);
                let previous = found;
                found = found.push(item);
                assert(found.drop_last() =~= previous);
                assert(joined_items(found) == joined_items(previous) + item);
                let issue_at = escape_issues(*circuit, *self);
                let decided = |i: int| real_rational_class(self.rules.escape_policies@[i].max_distance);
                if decided(e as int) {
                    assert(item =~= issue_at(e as int));
                }
                assert forall|i: int| 0 <= i < found.len() && #[trigger] decided(i) implies found[i] == issue_at(i) by {
                    if i < previous.len() {
                        assert(found[i] == previous[i]);
                    }
                }
                assert(issues@ =~= start + joined_items(found));
            }
            e = e + 1;
            proof {
                if escapes_rational(*self) {
                    assert(real_rational_class(self.rules.escape_policies@[e - 1].max_distance));
                    assert(escapes_rational(*self) ==> issues@ =~= start + all_issues(escape_issues(*circuit, *self), e as int));
                }
            }
        }
        Ghost(found)
    }

    fn tuning_target_is_invalid(&self, circuit: &Circuit, pattern: &LengthTuningPattern) -> (invalid: bool)
        ensures
            invalid == tuning_target_invalid(*circuit, *self, *pattern),
    {
        if !crate::validation::contains_key(&circuit.nets, &pattern.net.0) {
            return true;
        }
        match &pattern.route {
            None => false,
            Some(route) => match crate::validation::first_key(&self.routes, &route.0) {
                None => true,
                Some(r) => !self.routes[r].net.same(&pattern.net),
            },
        }
    }

    #[verifier::spinoff_prover]
    #[verifier::rlimit(30)]
    fn check_tuning_patterns(&self, circuit: &Circuit, issues: &mut Vec<LayoutValidationIssue>) -> (items: Ghost<Seq<Seq<LayoutValidationIssue>>>)
        ensures
            items_agree(items@, tuning_issues(*circuit, *self), |i: int| tuning_rational(self.rules.length_tuning_patterns@[i]), self.rules.length_tuning_patterns@.len() as int),
            final(issues)@ == old(issues)@ + joined_items(items@),
            extends(final(issues)@, old(issues)@),
            tunings_rational(*self) ==> final(issues)@ == old(issues)@ + tuning_section(*circuit, *self),
    {
        let ghost start = issues@;
        let ghost mut found: Seq<Seq<LayoutValidationIssue>> = Seq::empty();
        let patterns = &self.rules.length_tuning_patterns;
        let mut t: usize = 0;
        while t < patterns.len()
            invariant
                items_agree(found, tuning_issues(*circuit, *self), |i: int| tuning_rational(self.rules.length_tuning_patterns@[i]), t as int),
                issues@ == start + joined_items(found),
                t <= patterns@.len(),
                patterns@ == self.rules.length_tuning_patterns@,
                extends(issues@, start),
                tunings_rational(*self) ==> issues@ == start + all_issues(tuning_issues(*circuit, *self), t as int),
            decreases patterns.len() - t,
        {
            let ghost before = issues@;
            let pattern = &patterns[t];
            push_when(issues, key_repeats(patterns, t), LayoutValidationIssue::DuplicateLengthTuningPattern(pattern.id.clone()));
            let target_invalid = self.tuning_target_is_invalid(circuit, pattern);
            push_when(issues, target_invalid, LayoutValidationIssue::InvalidLengthTuningTarget(pattern.id.clone()));
            let shape_invalid = pattern.region.len() < 3 || !is_strictly_positive(&pattern.target_length) || !is_non_negative(
                &pattern.tolerance,
            ) || !is_strictly_positive(&pattern.amplitude) || !is_strictly_positive(&pattern.pitch) || pattern.maximum_cycles == 0;
            push_when(issues, shape_invalid, LayoutValidationIssue::InvalidLengthTuningPattern(pattern.id.clone()));
            proof {
                let item = issues@.subrange(before.len() as int, issues@.len() as int);
                assert(issues@ =~= before + item);
                let previous = found;
                found = found.push(item);
                assert(found.drop_last() =~= previous);
                assert(joined_items(found) == joined_items(previous) + item);
                let issue_at = tuning_issues(*circuit, *self);
                let decided = |i: int| tuning_rational(self.rules.length_tuning_patterns@[i]);
                if decided(t as int) {
                    assert(item =~= issue_at(t as int));
                }
                assert forall|i: int| 0 <= i < found.len() && #[trigger] decided(i) implies found[i] == issue_at(i) by {
                    if i < previous.len() {
                        assert(found[i] == previous[i]);
                    }
                }
                assert(issues@ =~= start + joined_items(found));
            }
            t = t + 1;
            proof {
                if tunings_rational(*self) {
                    assert(tuning_rational(self.rules.length_tuning_patterns@[t - 1]));
                    assert(tunings_rational(*self) ==> issues@ =~= start + all_issues(tuning_issues(*circuit, *self), t as int));
                }
            }
        }
        Ghost(found)
    }
}

impl PcbLayout {
    fn member_net_of(&self, group: &PhaseTuningGroup, i: usize) -> (net: Option<&NetId>)
        requires
            i < group.patterns@.len(),
        ensures
            match net {
                Some(n) => member_net(*self, *group, i as int) == Some(n@),
                None => member_net(*self, *group, i as int) is None,
            },
    {
        let patterns = &self.rules.length_tuning_patterns;
        match crate::validation::first_key(patterns, &group.patterns[i].0) {
            Some(j) => Some(&patterns[j].net),
            None => None,
        }
    }

    fn some_member_is_missing(&self, group: &PhaseTuningGroup) -> (missing: bool)
        ensures
            missing == some_member_missing(*self, *group),
    {
        let mut i: usize = 0;
        while i < group.patterns.len()
            invariant
                i <= group.patterns@.len(),
                forall|k: int| 0 <= k < i ==> #[trigger] member_net(*self, *group, k) is Some,
            decreases group.patterns.len() - i,
        {
            if self.member_net_of(group, i).is_none() {
                return true;
            }
            i = i + 1;
        }
        false
    }

    #[verifier::spinoff_prover]
    #[verifier::rlimit(30)]
    fn some_member_net_repeats(&self, group: &PhaseTuningGroup) -> (repeated: bool)
        ensures
            repeated == some_member_net_repeat(*self, *group),
    {
        let n = group.patterns.len();
        let mut j: usize = 0;
        while j < n
            invariant
                j <= n == group.patterns@.len(),
                forall|a: int, b: int|
                    0 <= a < b < j ==> !(#[trigger] member_net(*self, *group, a) is Some && member_net(*self, *group, a)
                        == #[trigger] member_net(*self, *group, b)),
            decreases n - j,
        {
            let later = self.member_net_of(group, j);
            let mut a: usize = 0;
            while a < j
                invariant
                    a <= j < n == group.patterns@.len(),
                    match later {
                        Some(l) => member_net(*self, *group, j as int) == Some(l@),
                        None => member_net(*self, *group, j as int) is None,
                    },
                    forall|x: int, b: int|
                        0 <= x < b < j ==> !(#[trigger] member_net(*self, *group, x) is Some && member_net(*self, *group, x)
                            == #[trigger] member_net(*self, *group, b)),
                    forall|x: int|
                        0 <= x < a ==> !(#[trigger] member_net(*self, *group, x) is Some && member_net(*self, *group, x)
                            == member_net(*self, *group, j as int)),
                decreases j - a,
            {
                match (self.member_net_of(group, a), later) {
                    (Some(earlier), Some(l)) => {
                        if earlier.same(l) {
                            return true;
                        }
                    },
                    _ => {},
                }
                a = a + 1;
            }
            j = j + 1;
        }
        false
    }

    fn group_pair_is_valid(&self, group: &PhaseTuningGroup) -> (valid: bool)
        ensures
            valid == group_pair_valid(*self, *group),
    {
        match &group.differential_pair {
            None => true,
            Some(id) => {
                let pairs = &self.rules.differential_pairs;
                match crate::validation::first_key(pairs, &id.0) {
                    None => false,
                    Some(p) => {
                        let pair = &pairs[p];
                        if group.patterns.len() != 2 {
                            return false;
                        }
                        match (self.member_net_of(group, 0), self.member_net_of(group, 1)) {
                            (Some(first), Some(second)) => {
                                !first.same(second) && (pair.positive.same(first) || pair.positive.same(second)) && (
                                pair.negative.same(first) || pair.negative.same(second))
                            },
                            _ => false,
                        }
                    },
                }
            },
        }
    }

    #[verifier::spinoff_prover]
    #[verifier::rlimit(30)]
    fn check_phase_groups(&self, issues: &mut Vec<LayoutValidationIssue>) -> (items: Ghost<Seq<Seq<LayoutValidationIssue>>>)
        ensures
            items_agree(items@, phase_issues(*self), |i: int| phase_rational(self.rules.phase_tuning_groups@[i]), self.rules.phase_tuning_groups@.len() as int),
            final(issues)@ == old(issues)@ + joined_items(items@),
            extends(final(issues)@, old(issues)@),
            phases_rational(*self) ==> final(issues)@ == old(issues)@ + phase_section(*self),
    {
        let ghost start = issues@;
        let ghost mut found: Seq<Seq<LayoutValidationIssue>> = Seq::empty();
        let groups = &self.rules.phase_tuning_groups;
        let mut g: usize = 0;
        while g < groups.len()
            invariant
                items_agree(found, phase_issues(*self), |i: int| phase_rational(self.rules.phase_tuning_groups@[i]), g as int),
                issues@ == start + joined_items(found),
                g <= groups@.len(),
                groups@ == self.rules.phase_tuning_groups@,
                extends(issues@, start),
                phases_rational(*self) ==> issues@ == start + all_issues(phase_issues(*self), g as int),
            decreases groups.len() - g,
        {
            let ghost before = issues@;
            let group = &groups[g];
            push_when(issues, key_repeats(groups, g), LayoutValidationIssue::DuplicatePhaseTuningGroup(group.id.clone()));
            let target_invalid = any_repeat(&group.patterns) || self.some_member_is_missing(group)
                || self.some_member_net_repeats(group) || !self.group_pair_is_valid(group);
            push_when(issues, target_invalid, LayoutValidationIssue::InvalidPhaseTuningTarget(group.id.clone()));
            let invalid = group.patterns.len() < 2 || !is_non_negative(&group.maximum_skew) || !is_non_negative(
                &group.minimum_clearance,
            );
            push_when(issues, invalid, LayoutValidationIssue::InvalidPhaseTuningGroup(group.id.clone()));
            proof {
                let item = issues@.subrange(before.len() as int, issues@.len() as int);
                assert(issues@ =~= before + item);
                let previous = found;
                found = found.push(item);
                assert(found.drop_last() =~= previous);
                assert(joined_items(found) == joined_items(previous) + item);
                let issue_at = phase_issues(*self);
                let decided = |i: int| phase_rational(self.rules.phase_tuning_groups@[i]);
                if decided(g as int) {
                    assert(item =~= issue_at(g as int));
                }
                assert forall|i: int| 0 <= i < found.len() && #[trigger] decided(i) implies found[i] == issue_at(i) by {
                    if i < previous.len() {
                        assert(found[i] == previous[i]);
                    }
                }
                assert(issues@ =~= start + joined_items(found));
            }
            g = g + 1;
            proof {
                if phases_rational(*self) {
                    assert(phase_rational(self.rules.phase_tuning_groups@[g - 1]));
                    assert(phases_rational(*self) ==> issues@ =~= start + all_issues(phase_issues(*self), g as int));
                }
            }
        }
        Ghost(found)
    }
}


// ---------------------------------------------------------------------------
// Placements.
// ---------------------------------------------------------------------------

impl TextKeyed for PadPinMap {
    open spec fn key_text(&self) -> Seq<char> {
        self.pin@
    }

    fn key(&self) -> (key: &String) {
        &self.pin.0
    }
}

/// Issues of pin binding `b` of a placed instance: a pin its land pattern
/// does not map.
pub open spec fn missing_pin_issues(instance: CircuitInstance, pattern: LandPattern) -> spec_fn(int) -> Seq<LayoutValidationIssue> {
    |b: int|
        raise(
            !has_key(pattern.pin_map@, instance.pins@[b].pin@),
            LayoutValidationIssue::MissingPlacedPinPad { instance: instance.id, pin: instance.pins@[b].pin },
        )
}

/// Issues of the `k`-th mapped pin, in pin order, of a placed land pattern:
/// a pin the instance's device model does not declare.
pub open spec fn unknown_pattern_pin_issues(
    instance: CircuitInstance,
    pattern: LandPattern,
    model: DeviceModel,
) -> spec_fn(int) -> Seq<LayoutValidationIssue> {
    |k: int|
        {
            let pin = pattern.pin_map@[sorted_key_order(pattern.pin_map@)[k] as int].pin;
            raise(
                !has_key(model.pins@, pin@),
                LayoutValidationIssue::UnknownPlacedPatternPin { instance: instance.id, pin: pin },
            )
        }
}

/// Pin issues of a placement whose instance and land pattern are both found
/// (the first of each with the placement's identities); none otherwise.
pub open spec fn placement_pin_issues(circuit: Circuit, layout: PcbLayout, placement: PcbPlacement) -> Seq<LayoutValidationIssue> {
    let instances = circuit.instances@;
    let patterns = layout.land_patterns@;
    match (
        first_key_index(instances, placement.instance@, instances.len() as int),
        first_key_index(patterns, placement.land_pattern@, patterns.len() as int),
    ) {
        (Some(i), Some(t)) => {
            let instance = instances[i];
            let pattern = patterns[t];
            let models = circuit.device_models@;
            all_issues(missing_pin_issues(instance, pattern), instance.pins@.len() as int) + match first_key_index(
                models,
                instance.model@,
                models.len() as int,
            ) {
                Some(d) => all_issues(
                    unknown_pattern_pin_issues(instance, pattern, models[d]),
                    sorted_key_order(pattern.pin_map@).len() as int,
                ),
                None => Seq::empty(),
            }
        },
        _ => Seq::empty(),
    }
}

/// Issues of placement `p`: a second placement of one instance, an unknown
/// instance, an unknown land pattern, then its pin issues.
pub open spec fn placement_issues(circuit: Circuit, layout: PcbLayout) -> spec_fn(int) -> Seq<LayoutValidationIssue> {
    |p: int|
        {
            let placement = layout.placements@[p];
            raise(repeats(layout.placements@, p), LayoutValidationIssue::DuplicatePlacement(placement.instance))
                + raise(
                !has_key(circuit.instances@, placement.instance@),
                LayoutValidationIssue::UnknownPlacedInstance(placement.instance),
            ) + raise(
                !has_key(layout.land_patterns@, placement.land_pattern@),
                LayoutValidationIssue::UnknownPlacementLandPattern(placement.land_pattern),
            ) + placement_pin_issues(circuit, layout, placement)
        }
}

/// Placement section.
pub open spec fn placement_section(circuit: Circuit, layout: PcbLayout) -> Seq<LayoutValidationIssue> {
    all_issues(placement_issues(circuit, layout), layout.placements@.len() as int)
}

fn check_missing_pins(instance: &CircuitInstance, pattern: &LandPattern, issues: &mut Vec<LayoutValidationIssue>)
    ensures
        final(issues)@ == old(issues)@ + all_issues(missing_pin_issues(*instance, *pattern), instance.pins@.len() as int),
{
    let ghost start = issues@;
    let mut b: usize = 0;
    while b < instance.pins.len()
        invariant
            b <= instance.pins@.len(),
            issues@ == start + all_issues(missing_pin_issues(*instance, *pattern), b as int),
        decreases instance.pins.len() - b,
    {
        let binding = &instance.pins[b];
        let mapped = crate::validation::contains_key(&pattern.pin_map, &binding.pin.0);
        push_when(
            issues,
            !mapped,
            LayoutValidationIssue::MissingPlacedPinPad { instance: instance.id.clone(), pin: binding.pin.clone() },
        );
        b = b + 1;
        proof {
            assert(issues@ =~= start + all_issues(missing_pin_issues(*instance, *pattern), b as int));
        }
    }
}

fn check_unknown_pattern_pins(
    instance: &CircuitInstance,
    pattern: &LandPattern,
    model: &DeviceModel,
    issues: &mut Vec<LayoutValidationIssue>,
)
    ensures
        final(issues)@ == old(issues)@ + all_issues(
            unknown_pattern_pin_issues(*instance, *pattern, *model),
            sorted_key_order(pattern.pin_map@).len() as int,
        ),
{
    let ghost start = issues@;
    let order = sorted_keys(&pattern.pin_map);
    let mut k: usize = 0;
    while k < order.len()
        invariant
            k <= order@.len(),
            order@ == sorted_key_order(pattern.pin_map@),
            key_order(pattern.pin_map@, order@),
            issues@ == start + all_issues(unknown_pattern_pin_issues(*instance, *pattern, *model), k as int),
        decreases order.len() - k,
    {
        let pin = &pattern.pin_map[order[k]].pin;
        let declared = crate::validation::contains_key(&model.pins, &pin.0);
        push_when(
            issues,
            !declared,
            LayoutValidationIssue::UnknownPlacedPatternPin { instance: instance.id.clone(), pin: pin.clone() },
        );
        k = k + 1;
        proof {
            assert(issues@ =~= start + all_issues(unknown_pattern_pin_issues(*instance, *pattern, *model), k as int));
        }
    }
}

impl PcbLayout {
    fn check_placement_pins(&self, circuit: &Circuit, placement: &PcbPlacement, issues: &mut Vec<LayoutValidationIssue>)
        ensures
            final(issues)@ == old(issues)@ + placement_pin_issues(*circuit, *self, *placement),
    {
        let ghost start = issues@;
        let found_instance = crate::validation::first_key(&circuit.instances, &placement.instance.0);
        let found_pattern = crate::validation::first_key(&self.land_patterns, &placement.land_pattern.0);
        match (found_instance, found_pattern) {
            (Some(i), Some(t)) => {
                let instance = &circuit.instances[i];
                let pattern = &self.land_patterns[t];
                check_missing_pins(instance, pattern, issues);
                match crate::validation::first_key(&circuit.device_models, &instance.model.0) {
                    Some(d) => check_unknown_pattern_pins(instance, pattern, &circuit.device_models[d], issues),
                    None => {},
                }
            },
            _ => {},
        }
        proof {
            assert(issues@ =~= start + placement_pin_issues(*circuit, *self, *placement));
        }
    }

    #[verifier::spinoff_prover]
    #[verifier::rlimit(30)]
    fn check_placements(&self, circuit: &Circuit, issues: &mut Vec<LayoutValidationIssue>)
        ensures
            final(issues)@ == old(issues)@ + placement_section(*circuit, *self),
    {
        let ghost start = issues@;
        let placements = &self.placements;
        let mut p: usize = 0;
        while p < placements.len()
            invariant
                p <= placements@.len(),
                placements@ == self.placements@,
                issues@ == start + all_issues(placement_issues(*circuit, *self), p as int),
            decreases placements.len() - p,
        {
            let placement = &placements[p];
            push_when(issues, key_repeats(placements, p), LayoutValidationIssue::DuplicatePlacement(placement.instance.clone()));
            let known_instance = crate::validation::contains_key(&circuit.instances, &placement.instance.0);
            push_when(issues, !known_instance, LayoutValidationIssue::UnknownPlacedInstance(placement.instance.clone()));
            let known_pattern = crate::validation::contains_key(&self.land_patterns, &placement.land_pattern.0);
            push_when(
                issues,
                !known_pattern,
                LayoutValidationIssue::UnknownPlacementLandPattern(placement.land_pattern.clone()),
            );
            self.check_placement_pins(circuit, placement, issues);
            p = p + 1;
            proof {
                assert(issues@ =~= start + all_issues(placement_issues(*circuit, *self), p as int));
            }
        }
    }
}

// ---------------------------------------------------------------------------
// The whole layout.
// ---------------------------------------------------------------------------

/// Every structural issue of a layout against its circuit, section by
/// section in source order.
pub open spec fn layout_issues(circuit: Circuit, layout: PcbLayout) -> Seq<LayoutValidationIssue> {
    outline_section(layout) + stackup_section(layout) + land_pattern_section(layout) + placement_section(circuit, layout)
        + constraint_section(layout) + route_section(circuit, layout) + via_section(circuit, layout) + zone_section(
        circuit,
        layout,
    ) + keepout_section(layout) + via_style_section(layout) + net_class_section(circuit, layout) + pair_section(
        circuit,
        layout,
    ) + constraint_region_section(circuit, layout) + rule_region_section(circuit, layout) + escape_section(
        circuit,
        layout,
    ) + tuning_section(circuit, layout) + phase_section(layout)
}

/// The issues of some items of a section, concatenated, each equal to its
/// specification wherever `decided` marks the item.
pub open spec fn item_part(
    part: Seq<LayoutValidationIssue>,
    items: Seq<Seq<LayoutValidationIssue>>,
    issue_at: spec_fn(int) -> Seq<LayoutValidationIssue>,
    decided: spec_fn(int) -> bool,
    count: int,
) -> bool {
    part == joined_items(items) && items_agree(items, issue_at, decided, count)
}

/// Some item that `decided` marks has issues.
pub open spec fn item_shows(issue_at: spec_fn(int) -> Seq<LayoutValidationIssue>, decided: spec_fn(int) -> bool, count: int) -> bool {
    exists|i: int| 0 <= i < count && #[trigger] decided(i) && issue_at(i).len() > 0
}

proof fn lemma_item_part_shows(
    part: Seq<LayoutValidationIssue>,
    items: Seq<Seq<LayoutValidationIssue>>,
    issue_at: spec_fn(int) -> Seq<LayoutValidationIssue>,
    decided: spec_fn(int) -> bool,
    count: int,
)
    requires
        item_part(part, items, issue_at, decided, count),
        item_shows(issue_at, decided, count),
    ensures
        part.len() > 0,
{
    let i = choose|i: int| 0 <= i < count && #[trigger] decided(i) && issue_at(i).len() > 0;
    lemma_item_shows(items, i);
}

/// The 19 parts of a report, in order.
pub open spec fn joined_sections(parts: Seq<Seq<LayoutValidationIssue>>) -> Seq<LayoutValidationIssue> {
    parts[0] + parts[1] + parts[2] + parts[3] + parts[4] + parts[5] + parts[6] + parts[7] + parts[8] + parts[9] + parts[10] + parts[11] + parts[12] + parts[13] + parts[14] + parts[15] + parts[16] + parts[17] + parts[18]
}

/// A validation report of `layout` split into its sections, in report order.
/// Every section that inspects no number equals its specification; in every
/// other section each item's issues equal its specification whenever that
/// item's numbers are exact rationals (hyperreal decides the others by
/// refinement).
pub open spec fn report_parts(
    circuit: Circuit,
    layout: PcbLayout,
    parts: Seq<Seq<LayoutValidationIssue>>,
    items: Seq<Seq<Seq<LayoutValidationIssue>>>,
) -> bool {
    &&& parts.len() == 19
    &&& items.len() == 19
    &&& parts[0] == outline_section(layout)
    &&& item_part(parts[1], items[1], stackup_layer_issues(layout.stackup.layers@), |i: int| real_rational_class(layout.stackup.layers@[i].thickness), layout.stackup.layers@.len() as int)
    &&& parts[2] == raise(conductor_count(layout.stackup.layers@, layout.stackup.layers@.len() as int) == 0, LayoutValidationIssue::MissingCopperStackup)
    &&& item_part(parts[3], items[3], land_pattern_issues(layout.land_patterns@), |i: int| land_pattern_rational(layout.land_patterns@[i]), layout.land_patterns@.len() as int)
    &&& parts[4] == placement_section(circuit, layout)
    &&& item_part(parts[5], items[5], constraint_issues(layout), |i: int| constraint_rational(layout.placement_constraints@[i].kind), layout.placement_constraints@.len() as int)
    &&& item_part(parts[6], items[6], route_issues(circuit, layout), |i: int| route_rational(layout.routes@[i]), layout.routes@.len() as int)
    &&& forall|r: int| 0 <= r < layout.routes@.len() ==> extends(#[trigger] items[6][r], route_reference_issues(circuit, layout, r))
    &&& item_part(parts[7], items[7], via_issues(circuit, layout), |i: int| via_rational(layout.vias@[i]), layout.vias@.len() as int)
    &&& item_part(parts[8], items[8], zone_issues(circuit, layout), |i: int| zone_rational(layout.zones@[i]), layout.zones@.len() as int)
    &&& parts[9] == keepout_section(layout)
    &&& item_part(parts[10], items[10], via_style_issues(layout), |i: int| via_style_rational(layout.rules.via_styles@[i]), layout.rules.via_styles@.len() as int)
    &&& item_part(parts[11], items[11], class_issues(circuit, layout), |i: int| class_rational(layout.rules.net_classes@[i]), layout.rules.net_classes@.len() as int)
    &&& parts[12] == net_class_tail(layout)
    &&& item_part(parts[13], items[13], pair_issues(circuit, layout), |i: int| pair_rational(layout.rules.differential_pairs@[i]), layout.rules.differential_pairs@.len() as int)
    &&& parts[14] == constraint_region_section(circuit, layout)
    &&& item_part(parts[15], items[15], rule_region_issues(circuit, layout), |i: int| rule_region_rational(layout.rules.route_rule_regions@[i]), layout.rules.route_rule_regions@.len() as int)
    &&& item_part(parts[16], items[16], escape_issues(circuit, layout), |i: int| real_rational_class(layout.rules.escape_policies@[i].max_distance), layout.rules.escape_policies@.len() as int)
    &&& item_part(parts[17], items[17], tuning_issues(circuit, layout), |i: int| tuning_rational(layout.rules.length_tuning_patterns@[i]), layout.rules.length_tuning_patterns@.len() as int)
    &&& item_part(parts[18], items[18], phase_issues(layout), |i: int| phase_rational(layout.rules.phase_tuning_groups@[i]), layout.rules.phase_tuning_groups@.len() as int)
}

/// Some issue of the layout is decided whatever the numeric checks find: a
/// section that inspects no number has one, or an item whose numbers are all
/// exact rationals has one.
pub open spec fn layout_shows_issue(circuit: Circuit, layout: PcbLayout) -> bool {
    ||| outline_section(layout).len() > 0
    ||| item_shows(stackup_layer_issues(layout.stackup.layers@), |i: int| real_rational_class(layout.stackup.layers@[i].thickness), layout.stackup.layers@.len() as int)
    ||| raise(conductor_count(layout.stackup.layers@, layout.stackup.layers@.len() as int) == 0, LayoutValidationIssue::MissingCopperStackup).len() > 0
    ||| item_shows(land_pattern_issues(layout.land_patterns@), |i: int| land_pattern_rational(layout.land_patterns@[i]), layout.land_patterns@.len() as int)
    ||| placement_section(circuit, layout).len() > 0
    ||| item_shows(constraint_issues(layout), |i: int| constraint_rational(layout.placement_constraints@[i].kind), layout.placement_constraints@.len() as int)
    ||| item_shows(route_issues(circuit, layout), |i: int| route_rational(layout.routes@[i]), layout.routes@.len() as int)
    ||| item_shows(via_issues(circuit, layout), |i: int| via_rational(layout.vias@[i]), layout.vias@.len() as int)
    ||| item_shows(zone_issues(circuit, layout), |i: int| zone_rational(layout.zones@[i]), layout.zones@.len() as int)
    ||| keepout_section(layout).len() > 0
    ||| item_shows(via_style_issues(layout), |i: int| via_style_rational(layout.rules.via_styles@[i]), layout.rules.via_styles@.len() as int)
    ||| item_shows(class_issues(circuit, layout), |i: int| class_rational(layout.rules.net_classes@[i]), layout.rules.net_classes@.len() as int)
    ||| net_class_tail(layout).len() > 0
    ||| item_shows(pair_issues(circuit, layout), |i: int| pair_rational(layout.rules.differential_pairs@[i]), layout.rules.differential_pairs@.len() as int)
    ||| constraint_region_section(circuit, layout).len() > 0
    ||| item_shows(rule_region_issues(circuit, layout), |i: int| rule_region_rational(layout.rules.route_rule_regions@[i]), layout.rules.route_rule_regions@.len() as int)
    ||| item_shows(escape_issues(circuit, layout), |i: int| real_rational_class(layout.rules.escape_policies@[i].max_distance), layout.rules.escape_policies@.len() as int)
    ||| item_shows(tuning_issues(circuit, layout), |i: int| tuning_rational(layout.rules.length_tuning_patterns@[i]), layout.rules.length_tuning_patterns@.len() as int)
    ||| item_shows(phase_issues(layout), |i: int| phase_rational(layout.rules.phase_tuning_groups@[i]), layout.rules.phase_tuning_groups@.len() as int)
}

/// A report of a layout that shows a decided issue is not empty.
pub proof fn decided_issue_is_reported(
    circuit: Circuit,
    layout: PcbLayout,
    parts: Seq<Seq<LayoutValidationIssue>>,
    items: Seq<Seq<Seq<LayoutValidationIssue>>>,
)
    requires
        report_parts(circuit, layout, parts, items),
        layout_shows_issue(circuit, layout),
    ensures
        joined_sections(parts).len() > 0,
{
    if outline_section(layout).len() > 0 {
        assert(parts[0].len() > 0);
    }
    if item_shows(stackup_layer_issues(layout.stackup.layers@), |i: int| real_rational_class(layout.stackup.layers@[i].thickness), layout.stackup.layers@.len() as int) {
        lemma_item_part_shows(parts[1], items[1], stackup_layer_issues(layout.stackup.layers@), |i: int| real_rational_class(layout.stackup.layers@[i].thickness), layout.stackup.layers@.len() as int);
    }
    if raise(conductor_count(layout.stackup.layers@, layout.stackup.layers@.len() as int) == 0, LayoutValidationIssue::MissingCopperStackup).len() > 0 {
        assert(parts[2].len() > 0);
    }
    if item_shows(land_pattern_issues(layout.land_patterns@), |i: int| land_pattern_rational(layout.land_patterns@[i]), layout.land_patterns@.len() as int) {
        lemma_item_part_shows(parts[3], items[3], land_pattern_issues(layout.land_patterns@), |i: int| land_pattern_rational(layout.land_patterns@[i]), layout.land_patterns@.len() as int);
    }
    if placement_section(circuit, layout).len() > 0 {
        assert(parts[4].len() > 0);
    }
    if item_shows(constraint_issues(layout), |i: int| constraint_rational(layout.placement_constraints@[i].kind), layout.placement_constraints@.len() as int) {
        lemma_item_part_shows(parts[5], items[5], constraint_issues(layout), |i: int| constraint_rational(layout.placement_constraints@[i].kind), layout.placement_constraints@.len() as int);
    }
    if item_shows(route_issues(circuit, layout), |i: int| route_rational(layout.routes@[i]), layout.routes@.len() as int) {
        lemma_item_part_shows(parts[6], items[6], route_issues(circuit, layout), |i: int| route_rational(layout.routes@[i]), layout.routes@.len() as int);
    }
    if item_shows(via_issues(circuit, layout), |i: int| via_rational(layout.vias@[i]), layout.vias@.len() as int) {
        lemma_item_part_shows(parts[7], items[7], via_issues(circuit, layout), |i: int| via_rational(layout.vias@[i]), layout.vias@.len() as int);
    }
    if item_shows(zone_issues(circuit, layout), |i: int| zone_rational(layout.zones@[i]), layout.zones@.len() as int) {
        lemma_item_part_shows(parts[8], items[8], zone_issues(circuit, layout), |i: int| zone_rational(layout.zones@[i]), layout.zones@.len() as int);
    }
    if keepout_section(layout).len() > 0 {
        assert(parts[9].len() > 0);
    }
    if item_shows(via_style_issues(layout), |i: int| via_style_rational(layout.rules.via_styles@[i]), layout.rules.via_styles@.len() as int) {
        lemma_item_part_shows(parts[10], items[10], via_style_issues(layout), |i: int| via_style_rational(layout.rules.via_styles@[i]), layout.rules.via_styles@.len() as int);
    }
    if item_shows(class_issues(circuit, layout), |i: int| class_rational(layout.rules.net_classes@[i]), layout.rules.net_classes@.len() as int) {
        lemma_item_part_shows(parts[11], items[11], class_issues(circuit, layout), |i: int| class_rational(layout.rules.net_classes@[i]), layout.rules.net_classes@.len() as int);
    }
    if net_class_tail(layout).len() > 0 {
        assert(parts[12].len() > 0);
    }
    if item_shows(pair_issues(circuit, layout), |i: int| pair_rational(layout.rules.differential_pairs@[i]), layout.rules.differential_pairs@.len() as int) {
        lemma_item_part_shows(parts[13], items[13], pair_issues(circuit, layout), |i: int| pair_rational(layout.rules.differential_pairs@[i]), layout.rules.differential_pairs@.len() as int);
    }
    if constraint_region_section(circuit, layout).len() > 0 {
        assert(parts[14].len() > 0);
    }
    if item_shows(rule_region_issues(circuit, layout), |i: int| rule_region_rational(layout.rules.route_rule_regions@[i]), layout.rules.route_rule_regions@.len() as int) {
        lemma_item_part_shows(parts[15], items[15], rule_region_issues(circuit, layout), |i: int| rule_region_rational(layout.rules.route_rule_regions@[i]), layout.rules.route_rule_regions@.len() as int);
    }
    if item_shows(escape_issues(circuit, layout), |i: int| real_rational_class(layout.rules.escape_policies@[i].max_distance), layout.rules.escape_policies@.len() as int) {
        lemma_item_part_shows(parts[16], items[16], escape_issues(circuit, layout), |i: int| real_rational_class(layout.rules.escape_policies@[i].max_distance), layout.rules.escape_policies@.len() as int);
    }
    if item_shows(tuning_issues(circuit, layout), |i: int| tuning_rational(layout.rules.length_tuning_patterns@[i]), layout.rules.length_tuning_patterns@.len() as int) {
        lemma_item_part_shows(parts[17], items[17], tuning_issues(circuit, layout), |i: int| tuning_rational(layout.rules.length_tuning_patterns@[i]), layout.rules.length_tuning_patterns@.len() as int);
    }
    if item_shows(phase_issues(layout), |i: int| phase_rational(layout.rules.phase_tuning_groups@[i]), layout.rules.phase_tuning_groups@.len() as int) {
        lemma_item_part_shows(parts[18], items[18], phase_issues(layout), |i: int| phase_rational(layout.rules.phase_tuning_groups@[i]), layout.rules.phase_tuning_groups@.len() as int);
    }
}

impl PcbLayout {
    /// Validates layout identity, stackup, package pin maps, placements,
    /// placement constraints, routes, vias, zones, keepouts and routing rules
    /// against the circuit. Every issue is reported, in source order. An item
    /// whose numbers are not all exact rationals has its issues decided by
    /// hyperreal's refinement; everything else is stated exactly.
    #[verifier::spinoff_prover]
    #[verifier::rlimit(80)]
    pub fn validate(&self, circuit: &Circuit) -> (report: LayoutValidationReport)
        ensures
            exists|parts: Seq<Seq<LayoutValidationIssue>>, items: Seq<Seq<Seq<LayoutValidationIssue>>>|
                report_parts(*circuit, *self, parts, items) && report.issues@ == joined_sections(parts),
            layout_numbers_rational(*self) ==> report.issues@ == layout_issues(*circuit, *self),
    {
        let mut issues: Vec<LayoutValidationIssue> = Vec::new();
        self.check_outline(&mut issues);
        let stackup_items = self.check_stackup(&mut issues);
        let pattern_items = self.check_land_patterns(&mut issues);
        self.check_placements(circuit, &mut issues);
        let constraint_items = self.check_constraints(&mut issues);
        let route_items = self.check_routes(circuit, &mut issues);
        let via_items = self.check_vias(circuit, &mut issues);
        let zone_items = self.check_zones(circuit, &mut issues);
        self.check_keepouts(&mut issues);
        let style_items = self.check_via_styles(&mut issues);
        let class_items = self.check_net_classes(circuit, &mut issues);
        let pair_items = self.check_pairs(circuit, &mut issues);
        self.check_constraint_regions(circuit, &mut issues);
        let rule_items = self.check_rule_regions(circuit, &mut issues);
        let escape_items = self.check_escape_policies(circuit, &mut issues);
        let tuning_items = self.check_tuning_patterns(circuit, &mut issues);
        let phase_items = self.check_phase_groups(&mut issues);
        proof {
            let parts = seq![
                outline_section(*self),
                joined_items(stackup_items@),
                raise(conductor_count(self.stackup.layers@, self.stackup.layers@.len() as int) == 0, LayoutValidationIssue::MissingCopperStackup),
                joined_items(pattern_items@),
                placement_section(*circuit, *self),
                joined_items(constraint_items@),
                joined_items(route_items@),
                joined_items(via_items@),
                joined_items(zone_items@),
                keepout_section(*self),
                joined_items(style_items@),
                joined_items(class_items@),
                net_class_tail(*self),
                joined_items(pair_items@),
                constraint_region_section(*circuit, *self),
                joined_items(rule_items@),
                joined_items(escape_items@),
                joined_items(tuning_items@),
                joined_items(phase_items@)
            ];
            let items = seq![
                Seq::<Seq<LayoutValidationIssue>>::empty(),
                stackup_items@,
                Seq::<Seq<LayoutValidationIssue>>::empty(),
                pattern_items@,
                Seq::<Seq<LayoutValidationIssue>>::empty(),
                constraint_items@,
                route_items@,
                via_items@,
                zone_items@,
                Seq::<Seq<LayoutValidationIssue>>::empty(),
                style_items@,
                class_items@,
                Seq::<Seq<LayoutValidationIssue>>::empty(),
                pair_items@,
                Seq::<Seq<LayoutValidationIssue>>::empty(),
                rule_items@,
                escape_items@,
                tuning_items@,
                phase_items@
            ];
            assert(issues@ =~= joined_sections(parts));
            assert(report_parts(*circuit, *self, parts, items));
            if layout_numbers_rational(*self) {
                lemma_items_decided(items[1], stackup_layer_issues(self.stackup.layers@), |i: int| real_rational_class(self.stackup.layers@[i].thickness), self.stackup.layers@.len() as int);
                lemma_items_decided(items[3], land_pattern_issues(self.land_patterns@), |i: int| land_pattern_rational(self.land_patterns@[i]), self.land_patterns@.len() as int);
                lemma_items_decided(items[5], constraint_issues(*self), |i: int| constraint_rational(self.placement_constraints@[i].kind), self.placement_constraints@.len() as int);
                lemma_items_decided(items[6], route_issues(*circuit, *self), |i: int| route_rational(self.routes@[i]), self.routes@.len() as int);
                lemma_items_decided(items[7], via_issues(*circuit, *self), |i: int| via_rational(self.vias@[i]), self.vias@.len() as int);
                lemma_items_decided(items[8], zone_issues(*circuit, *self), |i: int| zone_rational(self.zones@[i]), self.zones@.len() as int);
                lemma_items_decided(items[10], via_style_issues(*self), |i: int| via_style_rational(self.rules.via_styles@[i]), self.rules.via_styles@.len() as int);
                lemma_items_decided(items[11], class_issues(*circuit, *self), |i: int| class_rational(self.rules.net_classes@[i]), self.rules.net_classes@.len() as int);
                lemma_items_decided(items[13], pair_issues(*circuit, *self), |i: int| pair_rational(self.rules.differential_pairs@[i]), self.rules.differential_pairs@.len() as int);
                lemma_items_decided(items[15], rule_region_issues(*circuit, *self), |i: int| rule_region_rational(self.rules.route_rule_regions@[i]), self.rules.route_rule_regions@.len() as int);
                lemma_items_decided(items[16], escape_issues(*circuit, *self), |i: int| real_rational_class(self.rules.escape_policies@[i].max_distance), self.rules.escape_policies@.len() as int);
                lemma_items_decided(items[17], tuning_issues(*circuit, *self), |i: int| tuning_rational(self.rules.length_tuning_patterns@[i]), self.rules.length_tuning_patterns@.len() as int);
                lemma_items_decided(items[18], phase_issues(*self), |i: int| phase_rational(self.rules.phase_tuning_groups@[i]), self.rules.phase_tuning_groups@.len() as int);
                assert(issues@ =~= layout_issues(*circuit, *self));
            }
        }
        LayoutValidationReport { issues }
    }
}

/// When the net-class identities are distinct, every validation report of
/// the layout ends its net-class section with the reason
/// `resolve_net_classes` gives for inheritance not resolving (an unknown
/// parent or an inheritance cycle), and adds nothing there when it resolves.
/// This holds whatever the outcome of the numeric checks.
pub proof fn unresolved_inheritance_is_reported(
    circuit: Circuit,
    layout: PcbLayout,
    parts: Seq<Seq<LayoutValidationIssue>>,
    items: Seq<Seq<Seq<LayoutValidationIssue>>>,
)
    requires
        first_repeated_class(layout.rules.net_classes@, layout.rules.net_classes@.len() as int) is None,
        report_parts(circuit, layout, parts, items),
    ensures
        net_class_resolution_error(layout.rules.net_classes@) matches Some(error) ==> joined_sections(parts).contains(
            inheritance_issue(error),
        ),
        net_class_resolution_error(layout.rules.net_classes@) is None ==> parts[12] == Seq::<LayoutValidationIssue>::empty(),
{
    assert(parts[12] == net_class_tail(layout));
    match net_class_resolution_error(layout.rules.net_classes@) {
        Some(error) => {
            let x = inheritance_issue(error);
            assert(parts[12] == seq![x]);
            assert(parts[12][0] == x);
            let s11 = parts[0] + parts[1] + parts[2] + parts[3] + parts[4] + parts[5] + parts[6] + parts[7] + parts[8]
                + parts[9] + parts[10] + parts[11];
            lemma_contains_right(s11, parts[12], x);
            let s12 = s11 + parts[12];
            lemma_contains_left(s12, parts[13], x);
            let s13 = s12 + parts[13];
            lemma_contains_left(s13, parts[14], x);
            let s14 = s13 + parts[14];
            lemma_contains_left(s14, parts[15], x);
            let s15 = s14 + parts[15];
            lemma_contains_left(s15, parts[16], x);
            let s16 = s15 + parts[16];
            lemma_contains_left(s16, parts[17], x);
            let s17 = s16 + parts[17];
            lemma_contains_left(s17, parts[18], x);
            assert(s17 + parts[18] == joined_sections(parts));
        },
        None => {
            assert(parts[12] =~= Seq::<LayoutValidationIssue>::empty());
        },
    }
}


/// The parts of a report, the first `n` of them concatenated in order.
pub open spec fn parts_upto(parts: Seq<Seq<LayoutValidationIssue>>, n: int) -> Seq<LayoutValidationIssue>
    decreases n,
{
    if n <= 0 {
        Seq::empty()
    } else {
        parts_upto(parts, n - 1) + parts[n - 1]
    }
}

proof fn lemma_parts_upto_contains(parts: Seq<Seq<LayoutValidationIssue>>, n: int, i: int, x: LayoutValidationIssue)
    requires
        0 <= i < n <= parts.len(),
        parts[i].contains(x),
    ensures
        parts_upto(parts, n).contains(x),
    decreases n,
{
    if i == n - 1 {
        lemma_contains_right(parts_upto(parts, n - 1), parts[i], x);
    } else {
        lemma_parts_upto_contains(parts, n - 1, i, x);
        lemma_contains_left(parts_upto(parts, n - 1), parts[n - 1], x);
    }
}

proof fn lemma_joined_items_contains(items: Seq<Seq<LayoutValidationIssue>>, i: int, x: LayoutValidationIssue)
    requires
        0 <= i < items.len(),
        items[i].contains(x),
    ensures
        joined_items(items).contains(x),
    decreases items.len(),
{
    if i == items.len() - 1 {
        lemma_contains_right(joined_items(items.drop_last()), items[i], x);
    } else {
        assert(items.drop_last()[i] == items[i]);
        lemma_joined_items_contains(items.drop_last(), i, x);
        lemma_contains_left(joined_items(items.drop_last()), items.last(), x);
    }
}

proof fn lemma_route_reference_reported(
    circuit: Circuit,
    layout: PcbLayout,
    parts: Seq<Seq<LayoutValidationIssue>>,
    items: Seq<Seq<Seq<LayoutValidationIssue>>>,
    r: int,
    at: int,
    x: LayoutValidationIssue,
)
    requires
        report_parts(circuit, layout, parts, items),
        0 <= r < layout.routes@.len(),
        0 <= at < route_reference_issues(circuit, layout, r).len(),
        route_reference_issues(circuit, layout, r)[at] == x,
    ensures
        joined_sections(parts).contains(x),
{
    let item = items[6][r];
    assert(extends(item, route_reference_issues(circuit, layout, r)));
    assert(item[at] == x);
    assert(item.contains(x));
    assert(items[6].len() == layout.routes@.len());
    lemma_joined_items_contains(items[6], r, x);
    assert(parts[6].contains(x));
    lemma_parts_upto_contains(parts, 19, 6, x);
    assert(parts_upto(parts, 19) =~= joined_sections(parts)) by {
        reveal_with_fuel(parts_upto, 20);
    }
}

/// Every route is checked against the layout and the circuit, whatever the
/// numeric outcomes: a route repeating the identity of an earlier route is
/// reported as a duplicate, a route whose net is not a net of the circuit is
/// reported as naming an unknown net, and a route on a copper index that no
/// conductor layer of the stackup carries is reported as naming an unknown
/// layer.
pub proof fn route_references_are_checked(
    circuit: Circuit,
    layout: PcbLayout,
    parts: Seq<Seq<LayoutValidationIssue>>,
    items: Seq<Seq<Seq<LayoutValidationIssue>>>,
    r: int,
)
    requires
        report_parts(circuit, layout, parts, items),
        0 <= r < layout.routes@.len(),
    ensures
        (exists|j: int| 0 <= j < r && #[trigger] layout.routes@[j].id@ == layout.routes@[r].id@) ==> joined_sections(
            parts,
        ).contains(LayoutValidationIssue::DuplicateRoute(layout.routes@[r].id)),
        (forall|j: int| 0 <= j < circuit.nets@.len() ==> #[trigger] circuit.nets@[j].id@ != layout.routes@[r].net@)
            ==> joined_sections(parts).contains(
            LayoutValidationIssue::UnknownRouteNet { route: layout.routes@[r].id, net: layout.routes@[r].net },
        ),
        (forall|l: int|
            0 <= l < layout.stackup.layers@.len() ==> #[trigger] layout.stackup.layers@[l].kind
                != StackupLayerKind::Conductor(layout.routes@[r].layer)) ==> joined_sections(parts).contains(
            LayoutValidationIssue::UnknownRouteLayer { route: layout.routes@[r].id, layer: layout.routes@[r].layer },
        ),
{
    let route = layout.routes@[r];
    let refs = route_reference_issues(circuit, layout, r);
    let dup = raise(repeats(layout.routes@, r), LayoutValidationIssue::DuplicateRoute(route.id));
    let unknown_net = raise(
        !has_key(circuit.nets@, route.net@),
        LayoutValidationIssue::UnknownRouteNet { route: route.id, net: route.net },
    );
    if exists|j: int| 0 <= j < r && #[trigger] layout.routes@[j].id@ == route.id@ {
        let j = choose|j: int| 0 <= j < r && #[trigger] layout.routes@[j].id@ == route.id@;
        assert(layout.routes@[j].key_text() == layout.routes@[r].key_text());
        assert(repeats(layout.routes@, r));
        assert(refs[0] == LayoutValidationIssue::DuplicateRoute(route.id));
        lemma_route_reference_reported(circuit, layout, parts, items, r, 0, LayoutValidationIssue::DuplicateRoute(route.id));
    }
    if forall|j: int| 0 <= j < circuit.nets@.len() ==> #[trigger] circuit.nets@[j].id@ != route.net@ {
        assert(!has_key(circuit.nets@, route.net@)) by {
            if has_key(circuit.nets@, route.net@) {
                let j = choose|j: int| 0 <= j < circuit.nets@.len() && #[trigger] circuit.nets@[j].key_text() == route.net@;
                assert(circuit.nets@[j].id@ != route.net@);
            }
        }
        let x = LayoutValidationIssue::UnknownRouteNet { route: route.id, net: route.net };
        assert(refs[dup.len() as int] == x);
        lemma_route_reference_reported(circuit, layout, parts, items, r, dup.len() as int, x);
    }
    if forall|l: int|
        0 <= l < layout.stackup.layers@.len() ==> #[trigger] layout.stackup.layers@[l].kind != StackupLayerKind::Conductor(route.layer) {
        assert(!routing_layer(layout, route.layer.0)) by {
            if routing_layer(layout, route.layer.0) {
                let l = choose|l: int|
                    0 <= l < layout.stackup.layers@.len() && #[trigger] conductor_index(layout.stackup.layers@[l]) == Some(route.layer.0);
                assert(layout.stackup.layers@[l].kind != StackupLayerKind::Conductor(route.layer));
            }
        }
        let x = LayoutValidationIssue::UnknownRouteLayer { route: route.id, layer: route.layer };
        assert(refs[(dup.len() + unknown_net.len()) as int] == x);
        lemma_route_reference_reported(circuit, layout, parts, items, r, (dup.len() + unknown_net.len()) as int, x);
    }
}
} // verus!

//! Reusable layout modules: exact rigid transforms from module-local to
//! parent-board space, placement groups moved as one subassembly, and the
//! carriers that bind modules to circuit hierarchy paths.

use hyperreal::Real;
use vstd::prelude::*;

use crate::exact::{
    CmpOutcome, real_add, real_compare, real_equal, real_from_i64, real_identical, real_mul, real_neg, real_rational_class,
    real_negation, real_of_int, real_order, real_product, real_sub, real_difference, real_sum,
};
use crate::identity::{CircuitId, CircuitInstanceId, LayoutModuleId, PlacementGroupId, SubcircuitInstanceId};
use crate::layout::{
    BoardSide, ComposedLayoutModule, CopperZone, LandPattern, PcbDesignRules, PcbKeepout, PcbLayout,
    PcbPlacement, PcbRoute, PcbVia, PlacementConstraint, PlacementResolutionIssue, Point2, RouteDirection,
    apply_rigid, flip_side, opposite_side, rigid_image,
};
use crate::layout_validation::LayoutValidationIssue;
use crate::model::Circuit;

verus! {

/// Exact rigid/mirrored transform from module-local to parent-board space.
#[derive(Debug, PartialEq)]
pub struct LayoutTransform {
    /// Parent-space origin of the local coordinate system.
    pub position: Point2,
    /// Counter-clockwise parent-space rotation in exact degrees.
    pub rotation_degrees: Real,
    /// Front preserves local X; back mirrors local X before rotation.
    pub side: BoardSide,
}

impl Clone for LayoutTransform {
    fn clone(&self) -> (copy: Self)
        ensures
            copy == *self,
    {
        LayoutTransform {
            position: Point2 { x: self.position.x.clone(), y: self.position.y.clone() },
            rotation_degrees: self.rotation_degrees.clone(),
            side: self.side,
        }
    }
}

impl Default for LayoutTransform {
    /// The identity transform: origin, no rotation, front side.
    fn default() -> (transform: Self)
        ensures
            transform.position == (Point2 { x: real_of_int(0), y: real_of_int(0) }),
            transform.rotation_degrees == real_of_int(0),
            transform.side == BoardSide::Front,
    {
        LayoutTransform {
            position: Point2 { x: real_from_i64(0), y: real_from_i64(0) },
            rotation_degrees: real_from_i64(0),
            side: BoardSide::Front,
        }
    }
}

/// Rotation and side of a local orientation seen in parent space: on the
/// front the rotations add; on the back the local rotation is reversed and
/// the side flips.
pub open spec fn parent_orientation(
    transform: LayoutTransform,
    rotation_degrees: Real,
    side: BoardSide,
) -> (Real, BoardSide) {
    match transform.side {
        BoardSide::Front => (real_sum(transform.rotation_degrees, rotation_degrees), side),
        BoardSide::Back => (real_difference(transform.rotation_degrees, rotation_degrees), opposite_side(side)),
    }
}

/// The parent-space image of a local point.
pub open spec fn transformed_point(transform: LayoutTransform, point: Point2) -> Point2 {
    rigid_image(transform.position, transform.rotation_degrees, transform.side, point)
}

impl LayoutTransform {
    /// Applies this exact transform to one local point.
    pub fn transform_point(&self, point: &Point2) -> (image: Point2)
        ensures
            image == transformed_point(*self, *point),
    {
        apply_rigid(&self.position, &self.rotation_degrees, self.side, point)
    }

    /// Composes a child-to-local transform after this local-to-parent
    /// transform: the result maps child coordinates directly into this
    /// transform's parent space, including back-side mirroring and rotation
    /// reversal.
    pub fn compose(&self, child: &Self) -> (composed: Self)
        ensures
            composed.position == transformed_point(*self, child.position),
            (composed.rotation_degrees, composed.side) == parent_orientation(
                *self,
                child.rotation_degrees,
                child.side,
            ),
    {
        let (rotation_degrees, side) = self.transform_orientation(&child.rotation_degrees, child.side);
        LayoutTransform { position: self.transform_point(&child.position), rotation_degrees, side }
    }

    /// Rotation and side of a local orientation in parent space.
    pub fn transform_orientation(&self, rotation_degrees: &Real, side: BoardSide) -> (oriented: (Real, BoardSide))
        ensures
            oriented == parent_orientation(*self, *rotation_degrees, side),
    {
        match self.side {
            BoardSide::Front => (real_add(&self.rotation_degrees, rotation_degrees), side),
            BoardSide::Back => (real_sub(&self.rotation_degrees, rotation_degrees), flip_side(side)),
        }
    }
}

/// Named group of local placements moved as one exact subassembly.
#[derive(Clone, Debug, PartialEq)]
pub struct PlacementGroup {
    /// Stable group identity within its layout module.
    pub id: PlacementGroupId,
    /// Local circuit instances transformed by the group.
    pub instances: Vec<CircuitInstanceId>,
    /// Group-local to module-local transform.
    pub transform: LayoutTransform,
}

/// Reusable PCB fragment bound to one reusable circuit definition.
#[derive(Clone, Debug, PartialEq)]
pub struct LayoutModule {
    /// Stable reusable layout identity.
    pub id: LayoutModuleId,
    /// Circuit definition whose local identities this module addresses.
    pub circuit: CircuitId,
    /// Module-local land patterns.
    pub land_patterns: Vec<LandPattern>,
    /// Module-local component placements.
    pub placements: Vec<PcbPlacement>,
    /// Module-local placement equations and predicates.
    pub placement_constraints: Vec<PlacementConstraint>,
    /// Optional placement subassembly transforms.
    pub placement_groups: Vec<PlacementGroup>,
    /// Module-local routed copper.
    pub routes: Vec<PcbRoute>,
    /// Module-local vias.
    pub vias: Vec<PcbVia>,
    /// Module-local copper zones.
    pub zones: Vec<CopperZone>,
    /// Module-local keepouts.
    pub keepouts: Vec<PcbKeepout>,
    /// Module-local rules remapped to flattened net identities.
    pub rules: PcbDesignRules,
}

/// Placement of one reusable layout module at a circuit hierarchy path.
#[derive(Clone, Debug, PartialEq)]
pub struct LayoutModuleInstance {
    /// Subcircuit-instance path from the root circuit.
    pub hierarchy_path: Vec<SubcircuitInstanceId>,
    /// Reusable layout module to compose at that path.
    pub module: LayoutModuleId,
    /// Module-local to board-space transform.
    pub transform: LayoutTransform,
}

/// Root board plus reusable module definitions and their hierarchy bindings.
#[derive(Clone, Debug, PartialEq)]
pub struct LayoutAssembly {
    /// Board-owned outline, stackup, root placements/features, and global rules.
    pub board: PcbLayout,
    /// Reusable layout definitions.
    pub modules: Vec<LayoutModule>,
    /// Module instances bound to elaborated circuit scopes.
    pub instances: Vec<LayoutModuleInstance>,
}

/// Local module defect found before composition.
#[derive(Clone, Debug, PartialEq, Eq)]
pub enum LayoutModuleValidationIssue {
    /// Module circuit definition is absent from the circuit library.
    UnknownCircuit(CircuitId),
    /// Local layout intent is structurally invalid against its circuit definition.
    InvalidLocalLayout(Vec<LayoutValidationIssue>),
    /// Two placement groups share one stable id.
    DuplicatePlacementGroup(PlacementGroupId),
    /// A group references no local placement for an instance.
    UnknownGroupedPlacement { group: PlacementGroupId, instance: CircuitInstanceId },
    /// One local placement belongs to more than one transformed group.
    PlacementInMultipleGroups(CircuitInstanceId),
    /// Structurally valid local placement predicates are not satisfied.
    UnsatisfiedPlacementConstraints(Vec<PlacementResolutionIssue>),
}

/// Flat circuit/layout pair and deterministic module-composition evidence.
#[derive(Clone, Debug, PartialEq)]
pub struct LayoutCompositionReport {
    /// Flattened circuit carrying the identities referenced by `layout`.
    pub circuit: Circuit,
    /// Ordinary flat PCB layout ready for routing, DRC, materialization, and export.
    pub layout: PcbLayout,
    /// One evidence record per authored module instance.
    pub modules: Vec<ComposedLayoutModule>,
}

// ---------------------------------------------------------------------------
// Placement groups.
// ---------------------------------------------------------------------------

/// The group lists the instance named `id`.
pub open spec fn group_lists(group: PlacementGroup, id: Seq<char>) -> bool {
    exists|k: int| 0 <= k < group.instances@.len() && #[trigger] group.instances@[k]@ == id
}

/// Transform of the last of the first `count` groups that lists the
/// instance named `id`: a later group overrides an earlier one.
pub open spec fn group_transform(groups: Seq<PlacementGroup>, id: Seq<char>, count: int) -> Option<LayoutTransform>
    decreases count,
{
    if count <= 0 {
        None
    } else if group_lists(groups[count - 1], id) {
        Some(groups[count - 1].transform)
    } else {
        group_transform(groups, id, count - 1)
    }
}

/// A placement moved by its group's transform, if it has one.
pub open spec fn grouped_placement(groups: Seq<PlacementGroup>, placement: PcbPlacement) -> PcbPlacement {
    match group_transform(groups, placement.instance@, groups.len() as int) {
        Some(transform) => {
            let (rotation_degrees, side) = parent_orientation(transform, placement.rotation_degrees, placement.side);
            PcbPlacement {
                instance: placement.instance,
                land_pattern: placement.land_pattern,
                position: transformed_point(transform, placement.position),
                rotation_degrees: rotation_degrees,
                side: side,
            }
        },
        None => placement,
    }
}

fn lists_instance(group: &PlacementGroup, id: &CircuitInstanceId) -> (found: bool)
    ensures
        found == group_lists(*group, id@),
{
    let mut k: usize = 0;
    while k < group.instances.len()
        invariant
            k <= group.instances@.len(),
            forall|j: int| 0 <= j < k ==> #[trigger] group.instances@[j]@ != id@,
        decreases group.instances.len() - k,
    {
        if group.instances[k].same(id) {
            return true;
        }
        k = k + 1;
    }
    false
}

fn last_group(groups: &Vec<PlacementGroup>, id: &CircuitInstanceId) -> (found: Option<usize>)
    ensures
        match found {
            Some(g) => g < groups@.len() && group_transform(groups@, id@, groups@.len() as int) == Some(
                groups@[g as int].transform,
            ),
            None => group_transform(groups@, id@, groups@.len() as int) is None,
        },
{
    let mut g: usize = groups.len();
    while g > 0
        invariant
            g <= groups@.len(),
            group_transform(groups@, id@, groups@.len() as int) == group_transform(groups@, id@, g as int),
        decreases g,
    {
        if lists_instance(&groups[g - 1], id) {
            return Some(g - 1);
        }
        g = g - 1;
    }
    None
}

/// The module's placements with each grouped placement moved by its group's
/// transform (the last group listing the instance wins).
pub fn grouped_module_placements(module: &LayoutModule) -> (placements: Vec<PcbPlacement>)
    ensures
        placements@.len() == module.placements@.len(),
        forall|p: int|
            0 <= p < placements@.len() ==> #[trigger] placements@[p] == grouped_placement(
                module.placement_groups@,
                module.placements@[p],
            ),
{
    let mut placements: Vec<PcbPlacement> = Vec::new();
    let mut p: usize = 0;
    while p < module.placements.len()
        invariant
            p <= module.placements@.len(),
            placements@.len() == p,
            forall|q: int|
                0 <= q < p ==> #[trigger] placements@[q] == grouped_placement(
                    module.placement_groups@,
                    module.placements@[q],
                ),
        decreases module.placements.len() - p,
    {
        let placement = &module.placements[p];
        let moved = match last_group(&module.placement_groups, &placement.instance) {
            Some(g) => {
                let transform = &module.placement_groups[g].transform;
                let (rotation_degrees, side) = transform.transform_orientation(&placement.rotation_degrees, placement.side);
                PcbPlacement {
                    instance: placement.instance.clone(),
                    land_pattern: placement.land_pattern.clone(),
                    position: transform.transform_point(&placement.position),
                    rotation_degrees,
                    side,
                }
            },
            None => PcbPlacement {
                instance: placement.instance.clone(),
                land_pattern: placement.land_pattern.clone(),
                position: Point2 { x: placement.position.x.clone(), y: placement.position.y.clone() },
                rotation_degrees: placement.rotation_degrees.clone(),
                side: placement.side,
            },
        };
        placements.push(moved);
        p = p + 1;
    }
    placements
}


// ---------------------------------------------------------------------------
// Routing directions under a transform.
// ---------------------------------------------------------------------------

/// The unit axis of a direction family.
pub open spec fn family_axis(direction: RouteDirection) -> Point2 {
    match direction {
        RouteDirection::Horizontal => Point2 { x: real_of_int(1), y: real_of_int(0) },
        RouteDirection::Vertical => Point2 { x: real_of_int(0), y: real_of_int(1) },
        RouteDirection::DiagonalRising => Point2 { x: real_of_int(1), y: real_of_int(1) },
        RouteDirection::DiagonalFalling => Point2 { x: real_of_int(1), y: real_negation(real_of_int(1)) },
        RouteDirection::Arbitrary => Point2 { x: real_of_int(0), y: real_of_int(0) },
    }
}

/// Certified `a > b`.
pub open spec fn exceeds(a: Real, b: Real) -> bool {
    real_order(a, b) == Some(CmpOutcome::Greater)
}

/// The family a direction falls in after the transform: the transformed
/// axis is horizontal, vertical, or an exact diagonal (rising when its
/// coordinates change with the same sign); `None` when it is none of these.
/// The arbitrary family stays arbitrary.
pub open spec fn transformed_direction(transform: LayoutTransform, direction: RouteDirection) -> Option<RouteDirection> {
    if direction == RouteDirection::Arbitrary {
        Some(RouteDirection::Arbitrary)
    } else {
        let zero = real_of_int(0);
        let origin = transformed_point(transform, Point2 { x: zero, y: zero });
        let axis = transformed_point(transform, family_axis(direction));
        let dx = real_difference(axis.x, origin.x);
        let dy = real_difference(axis.y, origin.y);
        if real_identical(dy, zero) && !real_identical(dx, zero) {
            Some(RouteDirection::Horizontal)
        } else if real_identical(dx, zero) && !real_identical(dy, zero) {
            Some(RouteDirection::Vertical)
        } else if real_identical(real_product(dx, dx), real_product(dy, dy)) && !real_identical(dx, zero) {
            if exceeds(dx, zero) == exceeds(dy, zero) {
                Some(RouteDirection::DiagonalRising)
            } else {
                Some(RouteDirection::DiagonalFalling)
            }
        } else {
            None
        }
    }
}

/// The transformed axis offsets of a direction (other than the arbitrary
/// one) are exact rationals, so that the sign comparisons of a diagonal are
/// decided from the rationals themselves.
pub open spec fn direction_offsets_rational(transform: LayoutTransform, direction: RouteDirection) -> bool {
    direction == RouteDirection::Arbitrary || {
        let zero = real_of_int(0);
        let origin = transformed_point(transform, Point2 { x: zero, y: zero });
        let axis = transformed_point(transform, family_axis(direction));
        real_rational_class(real_difference(axis.x, origin.x)) && real_rational_class(real_difference(axis.y, origin.y))
    }
}

/// Every direction of the list has exact rational transformed offsets.
pub open spec fn directions_rational(transform: LayoutTransform, directions: Seq<RouteDirection>) -> bool {
    forall|k: int| 0 <= k < directions.len() ==> #[trigger] direction_offsets_rational(transform, directions[k])
}

/// The direction families in their declared order.
pub open spec fn direction_order() -> Seq<RouteDirection> {
    seq![
        RouteDirection::Horizontal,
        RouteDirection::Vertical,
        RouteDirection::DiagonalRising,
        RouteDirection::DiagonalFalling,
        RouteDirection::Arbitrary,
    ]
}

/// Some direction of the list falls in family `family` after the transform.
pub open spec fn reaches_family(transform: LayoutTransform, directions: Seq<RouteDirection>, family: RouteDirection) -> bool {
    exists|k: int| 0 <= k < directions.len() && #[trigger] transformed_direction(transform, directions[k]) == Some(family)
}

/// The families reached among the first `count` of the declared order.
pub open spec fn reached_families(transform: LayoutTransform, directions: Seq<RouteDirection>, count: int) -> Seq<RouteDirection>
    decreases count,
{
    if count <= 0 {
        Seq::empty()
    } else {
        let family = direction_order()[count - 1];
        reached_families(transform, directions, count - 1) + if reaches_family(transform, directions, family) {
            seq![family]
        } else {
            Seq::empty()
        }
    }
}

/// The distinct families of the transformed directions in declared order,
/// or `None` when some direction leaves the axis and 45-degree families.
pub open spec fn transformed_directions(transform: LayoutTransform, directions: Seq<RouteDirection>) -> Option<Seq<RouteDirection>> {
    if exists|k: int| 0 <= k < directions.len() && #[trigger] transformed_direction(transform, directions[k]) is None {
        None
    } else {
        Some(reached_families(transform, directions, 5))
    }
}

fn family_index(family: RouteDirection) -> (index: usize)
    ensures
        index < 5,
        direction_order()[index as int] == family,
{
    match family {
        RouteDirection::Horizontal => 0,
        RouteDirection::Vertical => 1,
        RouteDirection::DiagonalRising => 2,
        RouteDirection::DiagonalFalling => 3,
        RouteDirection::Arbitrary => 4,
    }
}

fn greater_than(a: &Real, b: &Real) -> (result: bool)
    ensures
        real_rational_class(*a) && real_rational_class(*b) ==> result == exceeds(*a, *b),
{
    real_compare(a, b) == Some(CmpOutcome::Greater)
}

impl LayoutTransform {
    fn direction_family(&self, origin: &Point2, direction: RouteDirection) -> (family: Option<RouteDirection>)
        requires
            *origin == transformed_point(*self, Point2 { x: real_of_int(0), y: real_of_int(0) }),
        ensures
            direction_offsets_rational(*self, direction) ==> family == transformed_direction(*self, direction),
    {
        if direction == RouteDirection::Arbitrary {
            return Some(RouteDirection::Arbitrary);
        }
        let axis = match direction {
            RouteDirection::Horizontal => Point2 { x: real_from_i64(1), y: real_from_i64(0) },
            RouteDirection::Vertical => Point2 { x: real_from_i64(0), y: real_from_i64(1) },
            RouteDirection::DiagonalRising => Point2 { x: real_from_i64(1), y: real_from_i64(1) },
            _ => Point2 { x: real_from_i64(1), y: real_neg(&real_from_i64(1)) },
        };
        let axis = self.transform_point(&axis);
        let zero = real_from_i64(0);
        let dx = real_sub(&axis.x, &origin.x);
        let dy = real_sub(&axis.y, &origin.y);
        if real_equal(&dy, &zero) && !real_equal(&dx, &zero) {
            Some(RouteDirection::Horizontal)
        } else if real_equal(&dx, &zero) && !real_equal(&dy, &zero) {
            Some(RouteDirection::Vertical)
        } else if real_equal(&real_mul(&dx, &dx), &real_mul(&dy, &dy)) && !real_equal(&dx, &zero) {
            if greater_than(&dx, &zero) == greater_than(&dy, &zero) {
                Some(RouteDirection::DiagonalRising)
            } else {
                Some(RouteDirection::DiagonalFalling)
            }
        } else {
            None
        }
    }
}

/// Maps Manhattan and diagonal routing intent through a transform: the
/// distinct families of the transformed directions in declared order, or
/// `None` when a direction leaves the axis and 45-degree families.
pub fn transform_directions(directions: &Vec<RouteDirection>, transform: &LayoutTransform) -> (transformed: Option<Vec<RouteDirection>>)
    ensures
        directions_rational(*transform, directions@) ==> match transformed {
            Some(families) => transformed_directions(*transform, directions@) == Some(families@),
            None => transformed_directions(*transform, directions@) is None,
        },
{
    let origin = transform.transform_point(&Point2 { x: real_from_i64(0), y: real_from_i64(0) });
    let mut reached: Vec<bool> = vec![false, false, false, false, false];
    let mut k: usize = 0;
    while k < directions.len()
        invariant
            k <= directions@.len(),
            origin == transformed_point(*transform, Point2 { x: real_of_int(0), y: real_of_int(0) }),
            reached@.len() == 5,
            directions_rational(*transform, directions@) ==> forall|j: int| 0 <= j < k ==> #[trigger] transformed_direction(*transform, directions@[j]) is Some,
            directions_rational(*transform, directions@) ==> forall|i: int|
                0 <= i < 5 ==> (#[trigger] reached@[i] <==> exists|j: int|
                    0 <= j < k && #[trigger] transformed_direction(*transform, directions@[j]) == Some(
                        direction_order()[i],
                    )),
        decreases directions.len() - k,
    {
        proof {
            if directions_rational(*transform, directions@) {
                assert(direction_offsets_rational(*transform, directions@[k as int]));
            }
        }
        match transform.direction_family(&origin, directions[k]) {
            None => {
                return None;
            },
            Some(family) => {
                let index = family_index(family);
                reached.set(index, true);
                proof {
                    if directions_rational(*transform, directions@) {
                    assert forall|i: int| 0 <= i < 5 implies (#[trigger] reached@[i] <==> exists|j: int|
                        0 <= j < k + 1 && #[trigger] transformed_direction(*transform, directions@[j]) == Some(
                            direction_order()[i],
                        )) by {
                        if reached@[i] && i != index {
                            let j = choose|j: int|
                                0 <= j < k && #[trigger] transformed_direction(*transform, directions@[j]) == Some(
                                    direction_order()[i],
                                );
                            assert(0 <= j < k + 1);
                        }
                        if i == index {
                            assert(transformed_direction(*transform, directions@[k as int]) == Some(direction_order()[i]));
                        }
                    }
                    }
                }
            },
        }
        k = k + 1;
    }
    let mut families: Vec<RouteDirection> = Vec::new();
    let mut i: usize = 0;
    while i < 5
        invariant
            i <= 5,
            reached@.len() == 5,
            directions_rational(*transform, directions@) ==> forall|r: int|
                0 <= r < 5 ==> (#[trigger] reached@[r] <==> reaches_family(*transform, directions@, direction_order()[r])),
            directions_rational(*transform, directions@) ==> families@ == reached_families(*transform, directions@, i as int),
        decreases 5 - i,
    {
        if reached[i] {
            let family = match i {
                0 => RouteDirection::Horizontal,
                1 => RouteDirection::Vertical,
                2 => RouteDirection::DiagonalRising,
                3 => RouteDirection::DiagonalFalling,
                _ => RouteDirection::Arbitrary,
            };
            families.push(family);
        }
        i = i + 1;
        proof {
            if directions_rational(*transform, directions@) {
                assert(families@ =~= reached_families(*transform, directions@, i as int));
            }
        }
    }
    Some(families)
}

/// Rank of a family in the declared order.
pub open spec fn family_rank(family: RouteDirection) -> int {
    match family {
        RouteDirection::Horizontal => 0,
        RouteDirection::Vertical => 1,
        RouteDirection::DiagonalRising => 2,
        RouteDirection::DiagonalFalling => 3,
        RouteDirection::Arbitrary => 4,
    }
}

proof fn lemma_reached_ranks(transform: LayoutTransform, directions: Seq<RouteDirection>, count: int)
    requires
        0 <= count <= 5,
    ensures
        forall|i: int|
            0 <= i < reached_families(transform, directions, count).len() ==> family_rank(
                #[trigger] reached_families(transform, directions, count)[i],
            ) < count,
        forall|i: int, j: int|
            0 <= i < j < reached_families(transform, directions, count).len() ==> family_rank(
                #[trigger] reached_families(transform, directions, count)[i],
            ) < family_rank(#[trigger] reached_families(transform, directions, count)[j]),
    decreases count,
{
    if count > 0 {
        lemma_reached_ranks(transform, directions, count - 1);
        let family = direction_order()[count - 1];
        assert(family_rank(family) == count - 1);
        let before = reached_families(transform, directions, count - 1);
        let after = reached_families(transform, directions, count);
        assert forall|i: int| 0 <= i < after.len() implies family_rank(#[trigger] after[i]) < count by {
            if i < before.len() {
                assert(after[i] == before[i]);
            }
        }
        assert forall|i: int, j: int| 0 <= i < j < after.len() implies family_rank(#[trigger] after[i]) < family_rank(
            #[trigger] after[j],
        ) by {
            assert(after[i] == before[i]);
            if j < before.len() {
                assert(after[j] == before[j]);
            } else {
                assert(after[j] == family);
                assert(family_rank(before[i]) < count - 1);
            }
        }
    }
}

/// Transformed routing directions come out once each, in declared order.
pub proof fn transformed_directions_ascend(transform: LayoutTransform, directions: Seq<RouteDirection>)
    ensures
        transformed_directions(transform, directions) matches Some(families) ==> forall|i: int, j: int|
            0 <= i < j < families.len() ==> family_rank(#[trigger] families[i]) < family_rank(#[trigger] families[j]),
{
    lemma_reached_ranks(transform, directions, 5);
}
} // verus!

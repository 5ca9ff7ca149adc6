//! Exact resolution of fixed and relative placement origins.
//!
//! A structurally valid layout has each placed instance at most once, each
//! origin driven by at most one fixed or relative constraint, and every
//! anchor placed. Origins are resolved instance by instance in increasing
//! instance order: a fixed origin is its authored equation's position, a
//! relative origin is its anchor's resolved origin plus the offset, and any
//! other origin stays as authored. A relative chain that returns to an
//! instance whose resolution is under way is a cycle: it is reported once,
//! at that instance, and the chain continues from the instance's authored
//! origin. Alignment, region, rotation and side constraints are then checked
//! against the resolved placements, in constraint order.

use hyperreal::Real;
use vstd::prelude::*;

use crate::exact::{real_add, real_identical, real_equal, real_rational_class, real_sum};
use crate::identity::CircuitInstanceId;
use crate::layout::{
    BoardSide, PcbLayout, PcbPlacement, PlacementConstraint, PlacementConstraintKind,
    PlacementResolutionIssue, PlacementResolutionReport, Point2,
};
use crate::model::Circuit;
use crate::layout_validation::{
    at_most, certified_at_most, constraint_issues, constraint_rational, joined_sections, layout_numbers_rational,
    decided_issue_is_reported, layout_shows_issue, report_parts, LayoutValidationIssue, constraint_section, driven_before, driven_instance, layout_issues,
    lemma_no_issues, placement_issues, placement_section, reference_issues, referenced_instances,
};
use crate::validation::{
    first_key, first_key_index, has_key, lemma_first_key_found, lemma_key_order_exists, repeats,
    sorted_key_order, sorted_keys, TextKeyed,
};

verus! {

/// Index of the first of the first `count` constraints that drives the origin
/// of the instance named `id`.
pub open spec fn first_driver(constraints: Seq<PlacementConstraint>, id: Seq<char>, count: int) -> Option<int>
    decreases count,
{
    if count <= 0 {
        None
    } else {
        match first_driver(constraints, id, count - 1) {
            Some(c) => Some(c),
            None => if driven_instance(constraints[count - 1].kind) matches Some(i) && i@ == id {
                Some(count - 1)
            } else {
                None
            },
        }
    }
}

/// The constraint driving the origin of placement `p`, if any.
pub open spec fn driver_of(layout: PcbLayout, p: int) -> Option<int> {
    let constraints = layout.placement_constraints@;
    first_driver(constraints, layout.placements@[p].instance@, constraints.len() as int)
}

/// State of a resolution: the origin resolved so far for each placement,
/// the placements whose resolution is under way, and the cycles met.
pub struct ResolutionState {
    /// Resolved origin of each placement, by placement index.
    pub resolved: Seq<Option<Point2>>,
    /// Whether the resolution of each placement is under way.
    pub visiting: Seq<bool>,
    /// Cycles met so far, in the order met.
    pub issues: Seq<PlacementResolutionIssue>,
}

/// The offset point `base + offset`, coordinate by coordinate.
pub open spec fn offset_point(base: Point2, offset: Point2) -> Point2 {
    Point2 { x: real_sum(base.x, offset.x), y: real_sum(base.y, offset.y) }
}

/// Resolves the origin of placement `p` from `state`, following at most
/// `fuel` relative anchors; gives the new state and the origin.
///
/// A resolved placement keeps its origin. A placement met again while its
/// resolution is under way closes a cycle: the cycle is reported and the
/// placement's authored origin is used. So is a chain longer than the fuel,
/// which with one unit per placement can only be a cycle too.
pub open spec fn resolve_origin(layout: PcbLayout, state: ResolutionState, p: int, fuel: nat) -> (ResolutionState, Point2)
    decreases fuel,
{
    let placement = layout.placements@[p];
    if state.resolved[p] is Some {
        (state, state.resolved[p]->0)
    } else if state.visiting[p] || fuel == 0 {
        (
            ResolutionState {
                issues: state.issues.push(PlacementResolutionIssue::RelativeCycle(placement.instance)),
                ..state
            },
            placement.position,
        )
    } else {
        let entered = ResolutionState { visiting: state.visiting.update(p, true), ..state };
        let (after, origin) = match driver_of(layout, p) {
            Some(c) => match layout.placement_constraints@[c].kind {
                PlacementConstraintKind::Fixed { position, .. } => (entered, position),
                PlacementConstraintKind::Relative { anchor, offset, .. } => {
                    let placements = layout.placements@;
                    match first_key_index(placements, anchor@, placements.len() as int) {
                        Some(a) => {
                            let (after, base) = resolve_origin(layout, entered, a, (fuel - 1) as nat);
                            (after, offset_point(base, offset))
                        },
                        None => (entered, placement.position),
                    }
                },
                _ => (entered, placement.position),
            },
            None => (entered, placement.position),
        };
        (
            ResolutionState {
                resolved: after.resolved.update(p, Some(origin)),
                visiting: after.visiting.update(p, false),
                issues: after.issues,
            },
            origin,
        )
    }
}

/// The state before any origin is resolved.
pub open spec fn initial_resolution(count: nat) -> ResolutionState {
    ResolutionState {
        resolved: Seq::new(count, |i: int| None),
        visiting: Seq::new(count, |i: int| false),
        issues: Seq::empty(),
    }
}

/// The state after resolving the first `k` placements in increasing
/// instance order.
pub open spec fn resolve_first(layout: PcbLayout, k: int) -> ResolutionState
    decreases k,
{
    let placements = layout.placements@;
    if k <= 0 {
        initial_resolution(placements.len())
    } else {
        resolve_origin(
            layout,
            resolve_first(layout, k - 1),
            sorted_key_order(placements)[k - 1] as int,
            placements.len(),
        ).0
    }
}

/// The state after resolving every placement.
pub open spec fn resolution(layout: PcbLayout) -> ResolutionState {
    resolve_first(layout, sorted_key_order(layout.placements@).len() as int)
}


fn first_driver_index(constraints: &Vec<PlacementConstraint>, id: &String) -> (found: Option<usize>)
    ensures
        match found {
            Some(c) => first_driver(constraints@, id@, constraints@.len() as int) == Some(c as int) && c < constraints@.len(),
            None => first_driver(constraints@, id@, constraints@.len() as int) is None,
        },
{
    let mut c: usize = 0;
    while c < constraints.len()
        invariant
            c <= constraints@.len(),
            first_driver(constraints@, id@, c as int) is None,
        decreases constraints.len() - c,
    {
        if crate::layout_validation::drives(&constraints[c].kind, id) {
            proof {
                lemma_first_driver_stable(constraints@, id@, c as int + 1, constraints@.len() as int);
            }
            return Some(c);
        }
        c = c + 1;
    }
    None
}

proof fn lemma_first_driver_stable(constraints: Seq<PlacementConstraint>, id: Seq<char>, found: int, count: int)
    requires
        0 < found <= count,
        first_driver(constraints, id, found) is Some,
    ensures
        first_driver(constraints, id, count) == first_driver(constraints, id, found),
    decreases count - found,
{
    if count > found {
        lemma_first_driver_stable(constraints, id, found, count - 1);
    }
}

fn copy_point(point: &Point2) -> (copy: Point2)
    ensures
        copy == *point,
{
    Point2 { x: point.x.clone(), y: point.y.clone() }
}

impl PcbLayout {
    fn resolve_position(
        &self,
        p: usize,
        fuel: usize,
        resolved: &mut Vec<Option<Point2>>,
        visiting: &mut Vec<bool>,
        issues: &mut Vec<PlacementResolutionIssue>,
    ) -> (origin: Point2)
        requires
            p < self.placements@.len(),
            old(resolved)@.len() == self.placements@.len(),
            old(visiting)@.len() == self.placements@.len(),
        ensures
            ({
                let (after, expected) = resolve_origin(
                    *self,
                    ResolutionState { resolved: old(resolved)@, visiting: old(visiting)@, issues: old(issues)@ },
                    p as int,
                    fuel as nat,
                );
                &&& final(resolved)@ == after.resolved
                &&& final(visiting)@ == after.visiting
                &&& final(issues)@ == after.issues
                &&& origin == expected
            }),
            final(resolved)@.len() == self.placements@.len(),
            final(visiting)@.len() == self.placements@.len(),
        decreases fuel,
    {
        match &resolved[p] {
            Some(point) => {
                return copy_point(point);
            },
            None => {},
        }
        let placement = &self.placements[p];
        if visiting[p] || fuel == 0 {
            issues.push(PlacementResolutionIssue::RelativeCycle(placement.instance.clone()));
            return copy_point(&placement.position);
        }
        let ghost entered = ResolutionState { resolved: resolved@, visiting: visiting@.update(p as int, true), issues: issues@ };
        visiting.set(p, true);
        let origin = match first_driver_index(&self.placement_constraints, &placement.instance.0) {
            Some(c) => match &self.placement_constraints[c].kind {
                PlacementConstraintKind::Fixed { position, .. } => copy_point(position),
                PlacementConstraintKind::Relative { anchor, offset, .. } => {
                    match first_key(&self.placements, &anchor.0) {
                        Some(a) => {
                            let base = self.resolve_position(a, fuel - 1, resolved, visiting, issues);
                            Point2 { x: real_add(&base.x, &offset.x), y: real_add(&base.y, &offset.y) }
                        },
                        None => copy_point(&placement.position),
                    }
                },
                _ => copy_point(&placement.position),
            },
            None => copy_point(&placement.position),
        };
        visiting.set(p, false);
        resolved.set(p, Some(copy_point(&origin)));
        origin
    }
}

// ---------------------------------------------------------------------------
// Checks against the resolved placements.
// ---------------------------------------------------------------------------

/// Resolved origin of the placement of the instance named `id`.
pub open spec fn resolved_origin(layout: PcbLayout, resolved: Seq<Option<Point2>>, id: Seq<char>) -> Option<Point2> {
    let placements = layout.placements@;
    match first_key_index(placements, id, placements.len() as int) {
        Some(p) => resolved[p],
        None => None,
    }
}

/// Every resolved origin is a pair of exact rationals.
pub open spec fn resolved_rational(resolved: Seq<Option<Point2>>) -> bool {
    forall|i: int|
        0 <= i < resolved.len() ==> (#[trigger] resolved[i] matches Some(point) ==> real_rational_class(point.x)
            && real_rational_class(point.y))
}

/// The X or the Y coordinate of a point.
pub open spec fn coordinate(point: Point2, along_x: bool) -> Real {
    if along_x {
        point.x
    } else {
        point.y
    }
}

/// The instances are resolved and share the first one's X (or Y) coordinate.
pub open spec fn resolved_aligned(layout: PcbLayout, resolved: Seq<Option<Point2>>, instances: Seq<CircuitInstanceId>, along_x: bool) -> bool {
    instances.len() > 0 && match resolved_origin(layout, resolved, instances[0]@) {
        Some(first) => forall|k: int|
            1 <= k < instances.len() ==> (#[trigger] resolved_origin(layout, resolved, instances[k]@) matches Some(point)
                && real_identical(coordinate(point, along_x), coordinate(first, along_x))),
        None => false,
    }
}

/// The instance is resolved inside the closed box from `min` to `max`.
pub open spec fn within(layout: PcbLayout, resolved: Seq<Option<Point2>>, id: Seq<char>, min: Point2, max: Point2) -> bool {
    match resolved_origin(layout, resolved, id) {
        Some(point) => certified_at_most(min.x, point.x) && certified_at_most(point.x, max.x) && certified_at_most(
            min.y,
            point.y,
        ) && certified_at_most(point.y, max.y),
        None => false,
    }
}

/// Some placement of the instance named `id` has one of the rotations.
pub open spec fn rotation_allowed(placements: Seq<PcbPlacement>, id: Seq<char>, rotations: Seq<Real>) -> bool {
    exists|p: int, j: int|
        0 <= p < placements.len() && 0 <= j < rotations.len() && #[trigger] placements[p].instance@ == id
            && real_identical(#[trigger] rotations[j], placements[p].rotation_degrees)
}

/// Some placement of the instance named `id` is on one of the sides.
pub open spec fn side_allowed(placements: Seq<PcbPlacement>, id: Seq<char>, sides: Seq<BoardSide>) -> bool {
    exists|p: int, j: int|
        0 <= p < placements.len() && 0 <= j < sides.len() && #[trigger] placements[p].instance@ == id
            && #[trigger] sides[j] == placements[p].side
}

/// The issue raised when `condition` holds, none otherwise.
pub open spec fn flag(condition: bool, issue: PlacementResolutionIssue) -> Seq<PlacementResolutionIssue> {
    if condition {
        seq![issue]
    } else {
        Seq::empty()
    }
}

/// Issues of constraint `c` against the resolved placements.
pub open spec fn check_issues(layout: PcbLayout, resolved: Seq<Option<Point2>>) -> spec_fn(int) -> Seq<PlacementResolutionIssue> {
    |c: int|
        {
            let constraint = layout.placement_constraints@[c];
            let id = constraint.id;
            match constraint.kind {
                PlacementConstraintKind::AlignX { instances } => flag(
                    !resolved_aligned(layout, resolved, instances@, true),
                    PlacementResolutionIssue::MisalignedX(id),
                ),
                PlacementConstraintKind::AlignY { instances } => flag(
                    !resolved_aligned(layout, resolved, instances@, false),
                    PlacementResolutionIssue::MisalignedY(id),
                ),
                PlacementConstraintKind::Within { instance, min, max } => flag(
                    !within(layout, resolved, instance@, min, max),
                    PlacementResolutionIssue::OutsideRegion(id),
                ),
                PlacementConstraintKind::AllowedRotations { instance, rotations_degrees } => flag(
                    !rotation_allowed(layout.placements@, instance@, rotations_degrees@),
                    PlacementResolutionIssue::DisallowedRotation(id),
                ),
                PlacementConstraintKind::AllowedSides { instance, sides } => flag(
                    !side_allowed(layout.placements@, instance@, sides@),
                    PlacementResolutionIssue::DisallowedSide(id),
                ),
                _ => Seq::empty(),
            }
        }
}

/// Issues of the first `count` constraints, in order.
pub open spec fn checks_upto(
    issue_at: spec_fn(int) -> Seq<PlacementResolutionIssue>,
    count: int,
) -> Seq<PlacementResolutionIssue>
    decreases count,
{
    if count <= 0 {
        Seq::empty()
    } else {
        checks_upto(issue_at, count - 1) + issue_at(count - 1)
    }
}

/// Placement `p` with its resolved origin, if it has one.
pub open spec fn resolved_placement(placement: PcbPlacement, origin: Option<Point2>) -> PcbPlacement {
    PcbPlacement {
        instance: placement.instance,
        land_pattern: placement.land_pattern,
        position: match origin {
            Some(point) => point,
            None => placement.position,
        },
        rotation_degrees: placement.rotation_degrees,
        side: placement.side,
    }
}

/// The placements with their resolved origins, in authored order.
pub open spec fn resolved_placements(layout: PcbLayout, resolved: Seq<Option<Point2>>) -> Seq<PcbPlacement> {
    Seq::new(
        layout.placements@.len(),
        |p: int| resolved_placement(layout.placements@[p], resolved[p]),
    )
}

fn resolved_origin_of(placements: &Vec<PcbPlacement>, resolved: &Vec<Option<Point2>>, id: &CircuitInstanceId) -> (origin: Option<Point2>)
    requires
        resolved@.len() == placements@.len(),
    ensures
        ({
            let layout_placements = placements@;
            origin == match first_key_index(layout_placements, id@, layout_placements.len() as int) {
                Some(p) => resolved@[p],
                None => None,
            }
        }),
{
    match first_key(placements, &id.0) {
        Some(p) => match &resolved[p] {
            Some(point) => Some(copy_point(point)),
            None => None,
        },
        None => None,
    }
}

fn coordinate_of(point: &Point2, along_x: bool) -> (value: &Real)
    ensures
        *value == coordinate(*point, along_x),
{
    if along_x {
        &point.x
    } else {
        &point.y
    }
}

impl PcbLayout {
    fn aligned(&self, resolved: &Vec<Option<Point2>>, instances: &Vec<CircuitInstanceId>, along_x: bool) -> (result: bool)
        requires
            resolved@.len() == self.placements@.len(),
        ensures
            result == resolved_aligned(*self, resolved@, instances@, along_x),
    {
        if instances.len() == 0 {
            return false;
        }
        let first = match resolved_origin_of(&self.placements, resolved, &instances[0]) {
            Some(point) => point,
            None => {
                return false;
            },
        };
        let mut k: usize = 1;
        while k < instances.len()
            invariant
                1 <= k <= instances@.len(),
                resolved@.len() == self.placements@.len(),
                resolved_origin(*self, resolved@, instances@[0]@) == Some(first),
                forall|j: int|
                    1 <= j < k ==> (#[trigger] resolved_origin(*self, resolved@, instances@[j]@) matches Some(point)
                        && real_identical(coordinate(point, along_x), coordinate(first, along_x))),
            decreases instances.len() - k,
        {
            let same = match resolved_origin_of(&self.placements, resolved, &instances[k]) {
                Some(point) => real_equal(coordinate_of(&point, along_x), coordinate_of(&first, along_x)),
                None => false,
            };
            if !same {
                proof {
                    let witness = resolved_origin(*self, resolved@, instances@[k as int]@);
                    assert(!(witness matches Some(point) && real_identical(
                        coordinate(point, along_x),
                        coordinate(first, along_x),
                    )));
                    
                }
                return false;
            }
            k = k + 1;
        }
        true
    }

    fn is_within(&self, resolved: &Vec<Option<Point2>>, id: &CircuitInstanceId, min: &Point2, max: &Point2) -> (result: bool)
        requires
            resolved@.len() == self.placements@.len(),
        ensures
            within_decided(*self, resolved@, id@, *min, *max) ==> result == within(*self, resolved@, id@, *min, *max),
    {
        match resolved_origin_of(&self.placements, resolved, id) {
            Some(point) => {
                proof {
                    lemma_first_key_found(self.placements@, id@, self.placements@.len() as int);
                    if let Some(p) = first_key_index(self.placements@, id@, self.placements@.len() as int) {
                        assert(resolved@[p] == Some(point));
                    }
                }
                at_most(&min.x, &point.x) && at_most(&point.x, &max.x) && at_most(&min.y, &point.y) && at_most(
                    &point.y,
                    &max.y,
                )
            },
            None => false,
        }
    }
}

fn has_rotation(placements: &Vec<PcbPlacement>, id: &CircuitInstanceId, rotations: &Vec<Real>) -> (result: bool)
    ensures
        result == rotation_allowed(placements@, id@, rotations@),
{
    let mut p: usize = 0;
    while p < placements.len()
        invariant
            p <= placements@.len(),
            forall|q: int, j: int|
                0 <= q < p && 0 <= j < rotations@.len() && #[trigger] placements@[q].instance@ == id@ ==> !real_identical(
                    #[trigger] rotations@[j],
                    placements@[q].rotation_degrees,
                ),
        decreases placements.len() - p,
    {
        if placements[p].instance.same(id) {
            let mut j: usize = 0;
            while j < rotations.len()
                invariant
                    p < placements@.len(),
                    j <= rotations@.len(),
                    placements@[p as int].instance@ == id@,
                    forall|i: int| 0 <= i < j ==> !real_identical(#[trigger] rotations@[i], placements@[p as int].rotation_degrees),
                decreases rotations.len() - j,
            {
                if real_equal(&rotations[j], &placements[p].rotation_degrees) {
                    return true;
                }
                j = j + 1;
            }
        }
        p = p + 1;
    }
    false
}

fn has_side(placements: &Vec<PcbPlacement>, id: &CircuitInstanceId, sides: &Vec<BoardSide>) -> (result: bool)
    ensures
        result == side_allowed(placements@, id@, sides@),
{
    let mut p: usize = 0;
    while p < placements.len()
        invariant
            p <= placements@.len(),
            forall|q: int, j: int|
                0 <= q < p && 0 <= j < sides@.len() && #[trigger] placements@[q].instance@ == id@ ==> #[trigger] sides@[j]
                    != placements@[q].side,
        decreases placements.len() - p,
    {
        if placements[p].instance.same(id) {
            let mut j: usize = 0;
            while j < sides.len()
                invariant
                    p < placements@.len(),
                    j <= sides@.len(),
                    placements@[p as int].instance@ == id@,
                    forall|i: int| 0 <= i < j ==> #[trigger] sides@[i] != placements@[p as int].side,
                decreases sides.len() - j,
            {
                if sides[j] == placements[p].side {
                    return true;
                }
                j = j + 1;
            }
        }
        p = p + 1;
    }
    false
}

/// Issues of every constraint against the resolved origins, in constraint
/// order.
pub open spec fn check_section(layout: PcbLayout, resolved: Seq<Option<Point2>>) -> Seq<PlacementResolutionIssue> {
    checks_upto(check_issues(layout, resolved), layout.placement_constraints@.len() as int)
}

/// The region check of `id` is decided: the instance has no resolved origin,
/// or its origin and the box corners are exact rationals.
pub open spec fn within_decided(layout: PcbLayout, resolved: Seq<Option<Point2>>, id: Seq<char>, min: Point2, max: Point2) -> bool {
    match resolved_origin(layout, resolved, id) {
        Some(point) => real_rational_class(point.x) && real_rational_class(point.y) && real_rational_class(min.x)
            && real_rational_class(min.y) && real_rational_class(max.x) && real_rational_class(max.y),
        None => true,
    }
}

/// What placement resolution reports for a layout whose validation report
/// is split into `parts` (see `report_parts`): an invalid layout is
/// answered `InvalidLayout` with its placements unchanged; a valid one gets
/// its resolved placements and the resolution issues followed by the
/// outcome of each constraint check.
pub open spec fn resolution_answer(
    layout: PcbLayout,
    parts: Seq<Seq<LayoutValidationIssue>>,
    outcome: Seq<Seq<PlacementResolutionIssue>>,
    report: PlacementResolutionReport,
) -> bool {
    if joined_sections(parts).len() > 0 {
        report.placements@ == layout.placements@ && report.issues@ == seq![PlacementResolutionIssue::InvalidLayout]
    } else {
        &&& report.placements@ == resolved_placements(layout, resolution(layout).resolved)
        &&& checks_agree(layout, resolution(layout).resolved, outcome)
        &&& report.issues@ == resolution(layout).issues + joined_checks(outcome)
    }
}

proof fn lemma_origin_rational(layout: PcbLayout, resolved: Seq<Option<Point2>>, id: Seq<char>)
    requires
        resolved_rational(resolved),
        resolved.len() == layout.placements@.len(),
    ensures
        resolved_origin(layout, resolved, id) matches Some(point) ==> real_rational_class(point.x) && real_rational_class(point.y),
{
    lemma_first_key_found(layout.placements@, id, layout.placements@.len() as int);
    if let Some(p) = first_key_index(layout.placements@, id, layout.placements@.len() as int) {
        assert(resolved[p] == resolved_origin(layout, resolved, id));
    }
}

/// Constraint `c` is checked exactly: every check but a region check, and a
/// region check that is decided.
pub open spec fn check_decided(layout: PcbLayout, resolved: Seq<Option<Point2>>, c: int) -> bool {
    match layout.placement_constraints@[c].kind {
        PlacementConstraintKind::Within { instance, min, max } => within_decided(layout, resolved, instance@, min, max),
        _ => true,
    }
}

/// The issues found by each constraint check, concatenated in order.
pub open spec fn joined_checks(outcome: Seq<Seq<PlacementResolutionIssue>>) -> Seq<PlacementResolutionIssue>
    decreases outcome.len(),
{
    if outcome.len() == 0 {
        Seq::empty()
    } else {
        joined_checks(outcome.drop_last()) + outcome.last()
    }
}

/// The outcome of each constraint check: exactly its specification where
/// the check is decided; for an undecided region check, no issue or the
/// region issue.
pub open spec fn checks_agree(layout: PcbLayout, resolved: Seq<Option<Point2>>, outcome: Seq<Seq<PlacementResolutionIssue>>) -> bool {
    &&& outcome.len() == layout.placement_constraints@.len()
    &&& forall|c: int|
        0 <= c < outcome.len() ==> if check_decided(layout, resolved, c) {
            #[trigger] outcome[c] == check_issues(layout, resolved)(c)
        } else {
            outcome[c] == Seq::<PlacementResolutionIssue>::empty() || outcome[c] == seq![
                PlacementResolutionIssue::OutsideRegion(layout.placement_constraints@[c].id),
            ]
        }
}

fn copy_placement(placement: &PcbPlacement) -> (copy: PcbPlacement)
    ensures
        copy == *placement,
{
    PcbPlacement {
        instance: placement.instance.clone(),
        land_pattern: placement.land_pattern.clone(),
        position: copy_point(&placement.position),
        rotation_degrees: placement.rotation_degrees.clone(),
        side: placement.side,
    }
}

impl PcbLayout {
    fn check_resolved(&self, resolved: &Vec<Option<Point2>>, issues: &mut Vec<PlacementResolutionIssue>) -> (outcome: Ghost<Seq<Seq<PlacementResolutionIssue>>>)
        requires
            resolved@.len() == self.placements@.len(),
        ensures
            final(issues)@ == old(issues)@ + joined_checks(outcome@),
            checks_agree(*self, resolved@, outcome@),
            layout_numbers_rational(*self) && resolved_rational(resolved@) ==> final(issues)@ == old(issues)@ + check_section(*self, resolved@),
    {
        let ghost start = issues@;
        let ghost mut outcome: Seq<Seq<PlacementResolutionIssue>> = Seq::empty();
        let constraints = &self.placement_constraints;
        let mut c: usize = 0;
        while c < constraints.len()
            invariant
                c <= constraints@.len(),
                constraints@ == self.placement_constraints@,
                resolved@.len() == self.placements@.len(),
                layout_numbers_rational(*self) && resolved_rational(resolved@) ==> issues@ == start + checks_upto(check_issues(*self, resolved@), c as int),
                outcome.len() == c,
                issues@ == start + joined_checks(outcome),
                forall|i: int|
                    0 <= i < c ==> if check_decided(*self, resolved@, i) {
                        #[trigger] outcome[i] == check_issues(*self, resolved@)(i)
                    } else {
                        outcome[i] == Seq::<PlacementResolutionIssue>::empty() || outcome[i] == seq![
                            PlacementResolutionIssue::OutsideRegion(self.placement_constraints@[i].id),
                        ]
                    },
            decreases constraints.len() - c,
        {
            let constraint = &constraints[c];
            let failed = match &constraint.kind {
                PlacementConstraintKind::AlignX { instances } => {
                    if !self.aligned(resolved, instances, true) {
                        Some(PlacementResolutionIssue::MisalignedX(constraint.id.clone()))
                    } else {
                        None
                    }
                },
                PlacementConstraintKind::AlignY { instances } => {
                    if !self.aligned(resolved, instances, false) {
                        Some(PlacementResolutionIssue::MisalignedY(constraint.id.clone()))
                    } else {
                        None
                    }
                },
                PlacementConstraintKind::Within { instance, min, max } => {
                    if !self.is_within(resolved, instance, min, max) {
                        Some(PlacementResolutionIssue::OutsideRegion(constraint.id.clone()))
                    } else {
                        None
                    }
                },
                PlacementConstraintKind::AllowedRotations { instance, rotations_degrees } => {
                    if !has_rotation(&self.placements, instance, rotations_degrees) {
                        Some(PlacementResolutionIssue::DisallowedRotation(constraint.id.clone()))
                    } else {
                        None
                    }
                },
                PlacementConstraintKind::AllowedSides { instance, sides } => {
                    if !has_side(&self.placements, instance, sides) {
                        Some(PlacementResolutionIssue::DisallowedSide(constraint.id.clone()))
                    } else {
                        None
                    }
                },
                _ => None,
            };
            let ghost found = if failed is Some {
                seq![failed->0]
            } else {
                Seq::<PlacementResolutionIssue>::empty()
            };
            match failed {
                Some(issue) => issues.push(issue),
                None => {},
            }
            proof {
                let grown = outcome.push(found);
                assert(grown.drop_last() =~= outcome);
                outcome = grown;
            }
            c = c + 1;
            proof {
                if layout_numbers_rational(*self) && resolved_rational(resolved@) {
                    assert(constraint_rational(self.placement_constraints@[c - 1].kind));
                    if let PlacementConstraintKind::Within { instance, min, max } = self.placement_constraints@[c - 1].kind {
                        lemma_origin_rational(*self, resolved@, instance@);
                    }
                    assert(layout_numbers_rational(*self) && resolved_rational(resolved@) ==> issues@ =~= start + checks_upto(check_issues(*self, resolved@), c as int));
                }
            }
        }
        Ghost(outcome)
    }

    /// Resolves fixed and relative origin equations of a structurally valid
    /// layout, then certifies alignment, regions, rotations and sides. An
    /// invalid layout is reported as such, with its placements unchanged.
    pub fn resolve_placement_constraints(&self, circuit: &Circuit) -> (report: PlacementResolutionReport)
        ensures
            exists|
                parts: Seq<Seq<LayoutValidationIssue>>,
                items: Seq<Seq<Seq<LayoutValidationIssue>>>,
                outcome: Seq<Seq<PlacementResolutionIssue>>,
            | report_parts(*circuit, *self, parts, items) && resolution_answer(*self, parts, outcome, report),
            layout_shows_issue(*circuit, *self) ==> report.placements@ == self.placements@ && report.issues@ == seq![
                PlacementResolutionIssue::InvalidLayout,
            ],
            (report.placements@ == self.placements@ && report.issues@ == seq![PlacementResolutionIssue::InvalidLayout])
                || report.placements@ == resolved_placements(*self, resolution(*self).resolved),
            layout_numbers_rational(*self) && layout_issues(*circuit, *self).len() > 0 ==> report.placements@
                == self.placements@ && report.issues@ == seq![PlacementResolutionIssue::InvalidLayout],
            layout_numbers_rational(*self) && layout_issues(*circuit, *self).len() == 0 ==> report.placements@
                == resolved_placements(*self, resolution(*self).resolved) && (resolved_rational(resolution(*self).resolved)
                ==> report.issues@ == resolution(*self).issues + check_section(*self, resolution(*self).resolved)),
    {
        let count = self.placements.len();
        let validation = self.validate(circuit);
        let ghost (parts, items) = choose|parts: Seq<Seq<LayoutValidationIssue>>, items: Seq<Seq<Seq<LayoutValidationIssue>>>|
            report_parts(*circuit, *self, parts, items) && validation.issues@ == joined_sections(parts);
        proof {
            if layout_shows_issue(*circuit, *self) {
                decided_issue_is_reported(*circuit, *self, parts, items);
            }
        }
        if !validation.is_valid() {
            let mut placements: Vec<PcbPlacement> = Vec::new();
            let mut p: usize = 0;
            while p < count
                invariant
                    p <= count == self.placements@.len(),
                    placements@ == self.placements@.take(p as int),
                decreases count - p,
            {
                placements.push(copy_placement(&self.placements[p]));
                p = p + 1;
                proof {
                    assert(placements@ =~= self.placements@.take(p as int));
                }
            }
            let mut issues: Vec<PlacementResolutionIssue> = Vec::new();
            issues.push(PlacementResolutionIssue::InvalidLayout);
            proof {
                assert(placements@ =~= self.placements@);
                assert(issues@ =~= seq![PlacementResolutionIssue::InvalidLayout]);
            }
            let report = PlacementResolutionReport { placements, issues };
            proof {
                assert(resolution_answer(*self, parts, Seq::empty(), report));
            }
            return report;
        }
        let mut resolved: Vec<Option<Point2>> = Vec::new();
        let mut visiting: Vec<bool> = Vec::new();
        let mut p: usize = 0;
        while p < count
            invariant
                p <= count == self.placements@.len(),
                resolved@ == Seq::new(p as nat, |i: int| None::<Point2>),
                visiting@ == Seq::new(p as nat, |i: int| false),
            decreases count - p,
        {
            resolved.push(None);
            visiting.push(false);
            p = p + 1;
            proof {
                assert(resolved@ =~= Seq::new(p as nat, |i: int| None::<Point2>));
                assert(visiting@ =~= Seq::new(p as nat, |i: int| false));
            }
        }
        let order = sorted_keys(&self.placements);
        let mut issues: Vec<PlacementResolutionIssue> = Vec::new();
        let mut k: usize = 0;
        proof {
            assert(issues@ =~= Seq::<PlacementResolutionIssue>::empty());
        }
        while k < order.len()
            invariant
                k <= order@.len(),
                count == self.placements@.len(),
                order@ == sorted_key_order(self.placements@),
                crate::validation::key_order(self.placements@, order@),
                resolved@.len() == count,
                visiting@.len() == count,
                resolved@ == resolve_first(*self, k as int).resolved,
                visiting@ == resolve_first(*self, k as int).visiting,
                issues@ == resolve_first(*self, k as int).issues,
            decreases order.len() - k,
        {
            self.resolve_position(order[k], count, &mut resolved, &mut visiting, &mut issues);
            k = k + 1;
        }
        let mut placements: Vec<PcbPlacement> = Vec::new();
        let mut p: usize = 0;
        while p < count
            invariant
                p <= count == self.placements@.len(),
                resolved@.len() == count,
                placements@ == resolved_placements(*self, resolved@).take(p as int),
            decreases count - p,
        {
            let placement = &self.placements[p];
            let position = match &resolved[p] {
                Some(point) => copy_point(point),
                None => copy_point(&placement.position),
            };
            placements.push(
                PcbPlacement {
                    instance: placement.instance.clone(),
                    land_pattern: placement.land_pattern.clone(),
                    position,
                    rotation_degrees: placement.rotation_degrees.clone(),
                    side: placement.side,
                },
            );
            p = p + 1;
            proof {
                assert(placements@ =~= resolved_placements(*self, resolved@).take(p as int));
            }
        }
        let outcome = self.check_resolved(&resolved, &mut issues);
        proof {
            assert(placements@ =~= resolved_placements(*self, resolved@));
        }
        let report = PlacementResolutionReport { placements, issues };
        proof {
            assert(resolution_answer(*self, parts, outcome@, report));
        }
        report
    }
}

// ---------------------------------------------------------------------------
// What resolution keeps.
// ---------------------------------------------------------------------------

/// A resolved origin of placement `q` driven by a fixed equation is the
/// equation's position.
pub open spec fn fixed_consistent(layout: PcbLayout, resolved: Seq<Option<Point2>>, q: int) -> bool {
    resolved[q] matches Some(origin) ==> match driver_of(layout, q) {
        Some(c) => match layout.placement_constraints@[c].kind {
            PlacementConstraintKind::Fixed { position, .. } => origin == position,
            _ => true,
        },
        None => true,
    }
}

/// A resolved origin of placement `q` meets its equation: the fixed
/// position, the resolved origin of its anchor plus the offset, or the
/// authored origin.
pub open spec fn origin_consistent(layout: PcbLayout, resolved: Seq<Option<Point2>>, q: int) -> bool {
    let placements = layout.placements@;
    resolved[q] matches Some(origin) ==> match driver_of(layout, q) {
        Some(c) => match layout.placement_constraints@[c].kind {
            PlacementConstraintKind::Fixed { position, .. } => origin == position,
            PlacementConstraintKind::Relative { anchor, offset, .. } => match first_key_index(
                placements,
                anchor@,
                placements.len() as int,
            ) {
                Some(a) => resolved[a] matches Some(base) && origin == offset_point(base, offset),
                None => origin == placements[q].position,
            },
            _ => origin == placements[q].position,
        },
        None => origin == placements[q].position,
    }
}

proof fn lemma_resolve_origin(layout: PcbLayout, state: ResolutionState, p: int, fuel: nat)
    requires
        0 <= p < layout.placements@.len(),
        state.resolved.len() == layout.placements@.len(),
        state.visiting.len() == layout.placements@.len(),
        forall|q: int| 0 <= q < layout.placements@.len() ==> #[trigger] fixed_consistent(layout, state.resolved, q),
    ensures
        ({
            let (after, origin) = resolve_origin(layout, state, p, fuel);
            let n = layout.placements@.len();
            &&& after.resolved.len() == n
            &&& after.visiting == state.visiting
            &&& state.issues.len() <= after.issues.len()
            &&& after.issues.subrange(0, state.issues.len() as int) == state.issues
            &&& forall|q: int| 0 <= q < n && state.resolved[q] is Some ==> #[trigger] after.resolved[q] == state.resolved[q]
            &&& forall|q: int|
                0 <= q < n && state.visiting[q] && state.resolved[q] is None ==> #[trigger] after.resolved[q] is None
            &&& forall|q: int| 0 <= q < n ==> #[trigger] fixed_consistent(layout, after.resolved, q)
            &&& !state.visiting[p] && fuel > 0 ==> after.resolved[p] is Some
            &&& after.issues.len() == state.issues.len() ==> after.resolved[p] == Some(origin)
            &&& after.issues.len() == state.issues.len() && (forall|q: int|
                0 <= q < n ==> #[trigger] origin_consistent(layout, state.resolved, q)) ==> forall|q: int|
                0 <= q < n ==> #[trigger] origin_consistent(layout, after.resolved, q)
        }),
    decreases fuel,
{
    let n = layout.placements@.len();
    let placements = layout.placements@;
    let constraints = layout.placement_constraints@;
    let placement = placements[p];
    if state.resolved[p] is Some {
    } else if state.visiting[p] || fuel == 0 {
        let (after, origin) = resolve_origin(layout, state, p, fuel);
        assert(after.issues.subrange(0, state.issues.len() as int) =~= state.issues);
    } else {
        let entered = ResolutionState { visiting: state.visiting.update(p, true), ..state };
        let (whole, origin) = resolve_origin(layout, state, p, fuel);
        lemma_first_driver_found(constraints, placement.instance@, constraints.len() as int);
        let inner: Option<int> = match driver_of(layout, p) {
            Some(c) => match constraints[c].kind {
                PlacementConstraintKind::Relative { anchor, .. } => first_key_index(placements, anchor@, placements.len() as int),
                _ => None,
            },
            None => None,
        };
        let after: ResolutionState = match inner {
            Some(a) => resolve_origin(layout, entered, a, (fuel - 1) as nat).0,
            None => entered,
        };
        assert(whole.resolved == after.resolved.update(p, Some(origin)));
        assert(whole.visiting == after.visiting.update(p, false));
        assert(whole.issues == after.issues);
        match inner {
            Some(a) => {
                let anchor = match constraints[driver_of(layout, p)->0].kind {
                    PlacementConstraintKind::Relative { anchor, .. } => anchor,
                    _ => placement.instance,
                };
                lemma_first_key_found(placements, anchor@, placements.len() as int);
                lemma_resolve_origin(layout, entered, a, (fuel - 1) as nat);
                let base = resolve_origin(layout, entered, a, (fuel - 1) as nat).1;
                assert(after.resolved[p] is None);
                if a == p {
                    assert(after.issues.len() > entered.issues.len());
                }
                if after.issues.len() == state.issues.len() {
                    assert(after.resolved[a] == Some(base));
                }
            },
            None => {},
        }
        assert(whole.visiting =~= state.visiting);
        assert(whole.issues.subrange(0, state.issues.len() as int) =~= state.issues);
        assert forall|q: int| 0 <= q < n implies #[trigger] fixed_consistent(layout, whole.resolved, q) by {
            if q != p {
                assert(fixed_consistent(layout, after.resolved, q));
            }
        }
        if whole.issues.len() == state.issues.len() && (forall|q: int|
            0 <= q < n ==> #[trigger] origin_consistent(layout, state.resolved, q)) {
            assert forall|q: int| 0 <= q < n implies #[trigger] origin_consistent(layout, whole.resolved, q) by {
                if q != p {
                    assert(origin_consistent(layout, after.resolved, q));
                    match driver_of(layout, q) {
                        Some(c) => {
                            lemma_first_driver_found(constraints, placements[q].instance@, constraints.len() as int);
                            match constraints[c].kind {
                                PlacementConstraintKind::Relative { anchor, .. } => {
                                    lemma_first_key_found(placements, anchor@, placements.len() as int);
                                },
                                _ => {},
                            }
                        },
                        None => {},
                    }
                }
            }
        }
    }
}

proof fn lemma_first_driver_found(constraints: Seq<PlacementConstraint>, id: Seq<char>, count: int)
    requires
        0 <= count <= constraints.len(),
    ensures
        first_driver(constraints, id, count) matches Some(c) ==> 0 <= c < count && (driven_instance(
            constraints[c].kind,
        ) matches Some(i) && i@ == id),
    decreases count,
{
    if count > 0 {
        lemma_first_driver_found(constraints, id, count - 1);
    }
}


proof fn lemma_resolve_first(layout: PcbLayout, k: int)
    requires
        0 <= k <= sorted_key_order(layout.placements@).len(),
        crate::validation::key_order(layout.placements@, sorted_key_order(layout.placements@)),
    ensures
        ({
            let state = resolve_first(layout, k);
            let n = layout.placements@.len();
            let order = sorted_key_order(layout.placements@);
            &&& state.resolved.len() == n
            &&& state.visiting == Seq::new(n, |i: int| false)
            &&& forall|q: int| 0 <= q < n ==> #[trigger] fixed_consistent(layout, state.resolved, q)
            &&& state.issues.len() == 0 ==> forall|q: int| 0 <= q < n ==> #[trigger] origin_consistent(layout, state.resolved, q)
            &&& forall|j: int| 0 <= j < k ==> #[trigger] state.resolved[order[j] as int] is Some
        }),
    decreases k,
{
    let n = layout.placements@.len();
    let order = sorted_key_order(layout.placements@);
    if k == 0 {
        let state = resolve_first(layout, 0);
        assert(state.visiting =~= Seq::new(n, |i: int| false));
    } else {
        lemma_resolve_first(layout, k - 1);
        let before = resolve_first(layout, k - 1);
        let p = order[k - 1] as int;
        assert(order[k - 1] < n);
        lemma_resolve_origin(layout, before, p, n);
        let state = resolve_first(layout, k);
        assert forall|j: int| 0 <= j < k implies #[trigger] state.resolved[order[j] as int] is Some by {
            if j < k - 1 {
                assert(before.resolved[order[j] as int] is Some);
                assert(order[j] < n);
            }
        }
    }
}

/// In a structurally valid layout, each placement is resolved.
proof fn lemma_all_resolved(circuit: Circuit, layout: PcbLayout, p: int)
    requires
        layout_issues(circuit, layout).len() == 0,
        0 <= p < layout.placements@.len(),
    ensures
        resolution(layout).resolved[p] is Some,
        resolution(layout).resolved.len() == layout.placements@.len(),
        forall|q: int| 0 <= q < layout.placements@.len() ==> #[trigger] fixed_consistent(layout, resolution(layout).resolved, q),
        resolution(layout).issues.len() == 0 ==> forall|q: int|
            0 <= q < layout.placements@.len() ==> #[trigger] origin_consistent(layout, resolution(layout).resolved, q),
{
    let placements = layout.placements@;
    let order = sorted_key_order(placements);
    assert(layout.placements.len() == placements.len());
    lemma_key_order_exists(placements);
    lemma_resolve_first(layout, order.len() as int);
    assert(placement_section(circuit, layout).len() == 0);
    lemma_no_issues(placement_issues(circuit, layout), placements.len() as int, p);
    assert(!repeats(placements, p));
    assert(order.contains(p as usize));
    let j = choose|j: int| 0 <= j < order.len() && order[j] == p as usize;
    assert(resolution(layout).resolved[order[j] as int] is Some);
}

/// In a structurally valid layout the instance of constraint `c` is placed,
/// and `c` is the one constraint driving its origin when it drives one.
#[verifier::spinoff_prover]
#[verifier::rlimit(40)]
proof fn lemma_constraint_facts(circuit: Circuit, layout: PcbLayout, c: int, r: int)
    requires
        layout_issues(circuit, layout).len() == 0,
        0 <= c < layout.placement_constraints@.len(),
        0 <= r < referenced_instances(layout.placement_constraints@[c].kind).len(),
    ensures
        ({
            let placements = layout.placements@;
            let constraints = layout.placement_constraints@;
            let id = referenced_instances(constraints[c].kind)[r]@;
            &&& first_key_index(placements, id, placements.len() as int) matches Some(p) && 0 <= p < placements.len()
                && placements[p].instance@ == id
            &&& driven_instance(constraints[c].kind) matches Some(i) ==> first_driver(
                constraints,
                i@,
                constraints.len() as int,
            ) == Some(c)
        }),
{
    let placements = layout.placements@;
    let constraints = layout.placement_constraints@;
    let kind = constraints[c].kind;
    assert(constraint_section(layout).len() == 0);
    lemma_no_issues(constraint_issues(layout), constraints.len() as int, c);
    let refs = referenced_instances(kind);
    lemma_no_issues(reference_issues(layout, c), refs.len() as int, r);
    assert(has_key(placements, refs[r]@));
    lemma_first_key_found(placements, refs[r]@, placements.len() as int);
    if first_key_index(placements, refs[r]@, placements.len() as int) is None {
        let j = choose|j: int| 0 <= j < placements.len() && #[trigger] placements[j].key_text() == refs[r]@;
        assert(placements[j].key_text() != refs[r]@);
    }
    match driven_instance(kind) {
        Some(i) => {
            assert(!driven_before(constraints, c, i@));
            lemma_first_driver_found(constraints, i@, c);
            match first_driver(constraints, i@, c) {
                Some(earlier) => {
                    assert(driven_instance(constraints[earlier].kind) matches Some(e) && e@ == i@);
                    assert(driven_before(constraints, c, i@));
                },
                None => {},
            }
            assert(first_driver(constraints, i@, c + 1) == Some(c));
            lemma_first_driver_stable(constraints, i@, c + 1, constraints.len() as int);
        },
        None => {},
    }
}

/// In a structurally valid layout every fixed origin equation holds after
/// resolution: the instance's resolved origin is exactly the equation's
/// position.
pub proof fn fixed_origins_hold(circuit: Circuit, layout: PcbLayout, c: int)
    requires
        layout_issues(circuit, layout).len() == 0,
        0 <= c < layout.placement_constraints@.len(),
    ensures
        layout.placement_constraints@[c].kind matches PlacementConstraintKind::Fixed { instance, position }
            ==> resolved_origin(layout, resolution(layout).resolved, instance@) == Some(position),
{
    let placements = layout.placements@;
    let constraints = layout.placement_constraints@;
    match constraints[c].kind {
        PlacementConstraintKind::Fixed { instance, position } => {
            lemma_constraint_facts(circuit, layout, c, 0);
            let p = first_key_index(placements, instance@, placements.len() as int)->0;
            lemma_all_resolved(circuit, layout, p);
            assert(driver_of(layout, p) == Some(c));
            assert(fixed_consistent(layout, resolution(layout).resolved, p));
        },
        _ => {},
    }
}

/// In a structurally valid layout whose resolution meets no cycle, every
/// relative origin equation holds: the instance's resolved origin is its
/// anchor's resolved origin plus the offset.
pub proof fn relative_origins_hold(circuit: Circuit, layout: PcbLayout, c: int)
    requires
        layout_issues(circuit, layout).len() == 0,
        resolution(layout).issues.len() == 0,
        0 <= c < layout.placement_constraints@.len(),
    ensures
        layout.placement_constraints@[c].kind matches PlacementConstraintKind::Relative { instance, anchor, offset }
            ==> resolved_origin(layout, resolution(layout).resolved, anchor@) matches Some(base) && resolved_origin(
            layout,
            resolution(layout).resolved,
            instance@,
        ) == Some(offset_point(base, offset)),
{
    let placements = layout.placements@;
    let constraints = layout.placement_constraints@;
    match constraints[c].kind {
        PlacementConstraintKind::Relative { instance, anchor, offset } => {
            lemma_constraint_facts(circuit, layout, c, 0);
            lemma_constraint_facts(circuit, layout, c, 1);
            let p = first_key_index(placements, instance@, placements.len() as int)->0;
            lemma_all_resolved(circuit, layout, p);
            assert(driver_of(layout, p) == Some(c));
            assert(origin_consistent(layout, resolution(layout).resolved, p));
        },
        _ => {},
    }
}

/// Resolution moves placements only: each resolved placement keeps its
/// instance, land pattern, rotation and side.
pub proof fn resolution_moves_only_origins(layout: PcbLayout, resolved: Seq<Option<Point2>>, p: int)
    requires
        0 <= p < layout.placements@.len(),
    ensures
        ({
            let moved = resolved_placements(layout, resolved)[p];
            let authored = layout.placements@[p];
            &&& moved.instance == authored.instance
            &&& moved.land_pattern == authored.land_pattern
            &&& moved.rotation_degrees == authored.rotation_degrees
            &&& moved.side == authored.side
        }),
{
}

proof fn lemma_joined_checks_contains(outcome: Seq<Seq<PlacementResolutionIssue>>, c: int, x: PlacementResolutionIssue)
    requires
        0 <= c < outcome.len(),
        outcome[c].contains(x),
    ensures
        joined_checks(outcome).contains(x),
    decreases outcome.len(),
{
    let front = joined_checks(outcome.drop_last());
    let back = outcome.last();
    assert(joined_checks(outcome) == front + back);
    if c == outcome.len() - 1 {
        let j = choose|j: int| 0 <= j < back.len() && back[j] == x;
        assert((front + back)[front.len() + j] == x);
    } else {
        assert(outcome.drop_last()[c] == outcome[c]);
        lemma_joined_checks_contains(outcome.drop_last(), c, x);
        let j = choose|j: int| 0 <= j < front.len() && front[j] == x;
        assert((front + back)[j] == x);
    }
}

/// A region constraint is checked on both axes: for a valid layout whose
/// constrained instance resolves to an origin with exact rational
/// coordinates inside a box with exact rational corners, the region issue is
/// reported when the origin lies outside the box on either axis (below the
/// minimum or above the maximum x or y), and the constraint raises nothing
/// when the origin lies inside on both axes.
pub proof fn region_checks_both_axes(
    layout: PcbLayout,
    parts: Seq<Seq<LayoutValidationIssue>>,
    outcome: Seq<Seq<PlacementResolutionIssue>>,
    report: PlacementResolutionReport,
    c: int,
    point: Point2,
)
    requires
        resolution_answer(layout, parts, outcome, report),
        joined_sections(parts).len() == 0,
        0 <= c < layout.placement_constraints@.len(),
        layout.placement_constraints@[c].kind is Within,
        resolved_origin(layout, resolution(layout).resolved, layout.placement_constraints@[c].kind->Within_instance@)
            == Some(point),
        real_rational_class(point.x),
        real_rational_class(point.y),
        real_rational_class(layout.placement_constraints@[c].kind->Within_min.x),
        real_rational_class(layout.placement_constraints@[c].kind->Within_min.y),
        real_rational_class(layout.placement_constraints@[c].kind->Within_max.x),
        real_rational_class(layout.placement_constraints@[c].kind->Within_max.y),
    ensures
        ({
            let min = layout.placement_constraints@[c].kind->Within_min;
            let max = layout.placement_constraints@[c].kind->Within_max;
            let inside = certified_at_most(min.x, point.x) && certified_at_most(point.x, max.x) && certified_at_most(
                min.y,
                point.y,
            ) && certified_at_most(point.y, max.y);
            &&& !inside ==> report.issues@.contains(
                PlacementResolutionIssue::OutsideRegion(layout.placement_constraints@[c].id),
            )
            &&& inside ==> outcome[c].len() == 0
        }),
{
    let resolved = resolution(layout).resolved;
    let id = layout.placement_constraints@[c].id;
    let x = PlacementResolutionIssue::OutsideRegion(id);
    assert(check_decided(layout, resolved, c));
    assert(outcome[c] == check_issues(layout, resolved)(c));
    let min = layout.placement_constraints@[c].kind->Within_min;
    let max = layout.placement_constraints@[c].kind->Within_max;
    let inside = certified_at_most(min.x, point.x) && certified_at_most(point.x, max.x) && certified_at_most(
        min.y,
        point.y,
    ) && certified_at_most(point.y, max.y);
    if !inside {
        assert(outcome[c] == seq![x]);
        assert(outcome[c][0] == x);
        lemma_joined_checks_contains(outcome, c, x);
        let front = resolution(layout).issues;
        let back = joined_checks(outcome);
        let j = choose|j: int| 0 <= j < back.len() && back[j] == x;
        assert((front + back)[front.len() + j] == x);
    }
}
} // verus!

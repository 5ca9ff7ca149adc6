use hypercircuit::layout::LinePathSegment;
use hypercircuit::layout_module::{grouped_module_placements, transform_directions};
use hypercircuit::{
    BoardContour, BoardContourSegment, BoardSide, CircuitId, CircuitInstanceId, LandPatternId,
    LayoutModule, LayoutModuleId, LayoutTransform, PcbDesignRules, PcbPlacement, PlacementGroup,
    PlacementGroupId, Point2, RouteDirection,
};
use hyperreal::Real;

fn exact(value: i64) -> Real {
    Real::from(value)
}

fn point(x: i64, y: i64) -> Point2 {
    Point2::new(exact(x), exact(y))
}

fn transform(x: i64, y: i64, degrees: i64, side: BoardSide) -> LayoutTransform {
    LayoutTransform { position: point(x, y), rotation_degrees: exact(degrees), side }
}

fn placement(instance: &str, x: i64, y: i64, degrees: i64) -> PcbPlacement {
    PcbPlacement {
        instance: CircuitInstanceId::new(instance),
        land_pattern: LandPatternId::new("P"),
        position: point(x, y),
        rotation_degrees: exact(degrees),
        side: BoardSide::Front,
    }
}

#[test]
fn identity_transform_keeps_points() {
    let identity = LayoutTransform::default();
    assert_eq!(identity.side, BoardSide::Front);
    assert_eq!(identity.transform_point(&point(3, -4)), point(3, -4));
}

#[test]
fn quarter_turn_then_translation() {
    let quarter = transform(10, 0, 90, BoardSide::Front);
    assert_eq!(quarter.transform_point(&point(1, 0)), point(10, 1));
    assert_eq!(quarter.transform_point(&point(0, 2)), point(8, 0));
}

#[test]
fn back_side_mirrors_x_before_rotation() {
    let back = transform(5, 5, 0, BoardSide::Back);
    assert_eq!(back.transform_point(&point(2, 3)), point(3, 8));
}

#[test]
fn composing_orientations_follows_the_side() {
    let front = transform(0, 0, 30, BoardSide::Front);
    let back = transform(0, 0, 30, BoardSide::Back);
    let child = transform(1, 0, 60, BoardSide::Front);
    let on_front = front.compose(&child);
    assert_eq!(on_front.rotation_degrees, exact(90));
    assert_eq!(on_front.side, BoardSide::Front);
    let on_back = back.compose(&child);
    assert_eq!(on_back.rotation_degrees, exact(-30));
    assert_eq!(on_back.side, BoardSide::Back);
}

#[test]
fn placement_point_round_trip_on_a_quarter_turn() {
    let placed = PcbPlacement {
        instance: CircuitInstanceId::new("U1"),
        land_pattern: LandPatternId::new("P"),
        position: point(4, 6),
        rotation_degrees: exact(90),
        side: BoardSide::Back,
    };
    let board = placed.transform_point(&point(1, 2));
    assert_eq!(board, point(2, 5));
    assert_eq!(placed.inverse_transform_point(&board), point(1, 2));
}

#[test]
fn directions_rotate_with_the_transform() {
    let quarter = transform(0, 0, 90, BoardSide::Front);
    let turned = transform_directions(
        &vec![RouteDirection::Horizontal, RouteDirection::DiagonalRising, RouteDirection::Arbitrary],
        &quarter,
    );
    assert_eq!(
        turned,
        Some(vec![RouteDirection::Vertical, RouteDirection::DiagonalFalling, RouteDirection::Arbitrary])
    );
    let both = transform_directions(&vec![RouteDirection::Vertical, RouteDirection::Horizontal], &quarter);
    assert_eq!(both, Some(vec![RouteDirection::Horizontal, RouteDirection::Vertical]));
}

#[test]
fn off_axis_rotation_breaks_manhattan_intent() {
    let tilted = transform(0, 0, 30, BoardSide::Front);
    assert_eq!(transform_directions(&vec![RouteDirection::Horizontal], &tilted), None);
    assert_eq!(
        transform_directions(&vec![RouteDirection::Arbitrary], &tilted),
        Some(vec![RouteDirection::Arbitrary])
    );
}

#[test]
fn grouped_placements_move_with_the_last_group() {
    let module = LayoutModule {
        id: LayoutModuleId::new("m"),
        circuit: CircuitId::new("c"),
        land_patterns: vec![],
        placements: vec![placement("R1", 1, 0, 0), placement("R2", 2, 0, 0), placement("R3", 3, 0, 0)],
        placement_constraints: vec![],
        placement_groups: vec![
            PlacementGroup {
                id: PlacementGroupId::new("a"),
                instances: vec![CircuitInstanceId::new("R1"), CircuitInstanceId::new("R2")],
                transform: transform(10, 0, 0, BoardSide::Front),
            },
            PlacementGroup {
                id: PlacementGroupId::new("b"),
                instances: vec![CircuitInstanceId::new("R2")],
                transform: transform(0, 0, 90, BoardSide::Back),
            },
        ],
        routes: vec![],
        vias: vec![],
        zones: vec![],
        keepouts: vec![],
        rules: PcbDesignRules::default(),
    };
    let moved = grouped_module_placements(&module);
    assert_eq!(moved[0].position, point(11, 0));
    assert_eq!(moved[1].position, point(0, -2));
    assert_eq!(moved[1].rotation_degrees, exact(90));
    assert_eq!(moved[1].side, BoardSide::Back);
    assert_eq!(moved[2], module.placements[2]);
}

#[test]
fn straight_contours_expose_their_vertices() {
    let square = BoardContour::polygon(vec![point(0, 0), point(1, 0), point(1, 1)]);
    assert_eq!(square.linear_vertices(), Some(vec![point(0, 0), point(1, 0), point(1, 1)]));
    let single = BoardContour::from_segments(vec![BoardContourSegment::Line(LinePathSegment {
        start: point(0, 0),
        end: point(2, 0),
    })]);
    assert_eq!(single.linear_vertices(), Some(vec![point(0, 0)]));
}

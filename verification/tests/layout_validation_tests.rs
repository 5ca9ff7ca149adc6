use hypercircuit::identity::BoardId;
use hypercircuit::layout::{
    BoardOutline, LandPattern, LandPatternPad, PadShape, PcbLayout, PcbPlacement, PcbStackup,
    PlacementConstraint, PlacementConstraintKind, Point2,
};
use hypercircuit::layout_validation::LayoutValidationIssue;
use hypercircuit::{
    AdapterKind, BoardSide, Circuit, CircuitId, CircuitInstance, CircuitInstanceId, ComponentId,
    DeviceModel, DeviceModelId, DeviceModelKind, DevicePin, LandPatternId, NetId, PadId, PadPinMap,
    PinBinding, PinElectricalKind, PinRef, PlacementConstraintId, PlacementResolutionIssue, Plating,
    TransientPolicy,
};
use hypercircuit::{
    EscapePolicy, EscapePolicyId, LengthTuningPattern, LengthTuningPatternId, LengthTuningSide,
    PhaseTuningGroup, PhaseTuningGroupId, RouteConstraintRegion, RouteConstraintRegionId,
    RouteDirection, RouteRuleRegion, RouteRuleRegionId, TraceLayer,
};
use hyperreal::Real;

fn exact(value: i64) -> Real {
    Real::from(value)
}

fn point(x: i64, y: i64) -> Point2 {
    Point2::new(exact(x), exact(y))
}

fn pad(id: &str) -> LandPatternPad {
    LandPatternPad {
        id: PadId::new(id),
        center: point(0, 0),
        rotation_degrees: exact(0),
        copper_layers: vec![],
        shape: PadShape::Circle { diameter: exact(1) },
        drill: None,
        plating: Plating::NonPlated,
        solder_mask_margin: None,
        paste_margin: None,
    }
}

fn pattern(id: &str, pads: &[&str], pins: &[(&str, &str)]) -> LandPattern {
    LandPattern {
        id: LandPatternId::new(id),
        pads: pads.iter().map(|p| pad(p)).collect(),
        pin_map: pins
            .iter()
            .map(|(pin, pad)| PadPinMap { pin: PinRef::new(pin), pad: PadId::new(pad) })
            .collect(),
        graphics: vec![],
        body: None,
        models: vec![],
    }
}

fn placement(instance: &str, land_pattern: &str, x: i64, y: i64) -> PcbPlacement {
    PcbPlacement {
        instance: CircuitInstanceId::new(instance),
        land_pattern: LandPatternId::new(land_pattern),
        position: point(x, y),
        rotation_degrees: exact(0),
        side: BoardSide::Front,
    }
}

fn instance(id: &str, pins: &[&str]) -> CircuitInstance {
    CircuitInstance {
        id: CircuitInstanceId::new(id),
        component: ComponentId::new(id),
        part: None,
        model: DeviceModelId::new("res"),
        pins: pins
            .iter()
            .map(|pin| PinBinding { pin: PinRef::new(pin), net: NetId::new("n") })
            .collect(),
        parameters: vec![],
    }
}

fn circuit(instances: Vec<CircuitInstance>, model_pins: &[&str]) -> Circuit {
    let mut circuit = Circuit::new(CircuitId::new("c"), TransientPolicy::Static, AdapterKind::ExactDense);
    circuit.instances = instances;
    circuit.device_models = vec![DeviceModel {
        id: DeviceModelId::new("res"),
        kind: DeviceModelKind::Resistor,
        pins: model_pins
            .iter()
            .map(|pin| DevicePin { pin: PinRef::new(pin), kind: PinElectricalKind::Passive, optional: false })
            .collect(),
        parameters: vec![],
    }];
    circuit
}

fn board() -> PcbLayout {
    PcbLayout::new(
        BoardId::new("board"),
        BoardOutline::rectangle(exact(20), exact(10)),
        PcbStackup::two_layer(exact(1), exact(2), None, None),
    )
}

fn constraint(id: &str, kind: PlacementConstraintKind) -> PlacementConstraint {
    PlacementConstraint { id: PlacementConstraintId::new(id), kind }
}

#[test]
fn consistent_layout_validates() {
    let circuit = circuit(vec![instance("R1", &[]), instance("R2", &[])], &[]);
    let mut layout = board();
    layout.land_patterns = vec![pattern("R0603", &[], &[])];
    layout.placements = vec![placement("R1", "R0603", 1, 1), placement("R2", "R0603", 5, 1)];
    let report = layout.validate(&circuit);
    assert!(report.is_valid(), "{:?}", report.issues);
}

#[test]
fn placement_issues_are_reported_in_order() {
    let circuit = circuit(vec![instance("R1", &[])], &[]);
    let mut layout = board();
    layout.land_patterns = vec![pattern("R0603", &[], &[])];
    layout.placements = vec![
        placement("R1", "R0603", 1, 1),
        placement("R1", "R0805", 2, 2),
        placement("U9", "R0603", 3, 3),
    ];
    let report = layout.validate(&circuit);
    assert_eq!(
        report.issues,
        vec![
            LayoutValidationIssue::DuplicatePlacement(CircuitInstanceId::new("R1")),
            LayoutValidationIssue::UnknownPlacementLandPattern(LandPatternId::new("R0805")),
            LayoutValidationIssue::UnknownPlacedInstance(CircuitInstanceId::new("U9")),
        ]
    );
    assert!(!report.is_valid());
}

#[test]
fn unmapped_and_undeclared_pins_are_reported_in_pin_order() {
    let circuit = circuit(vec![instance("R1", &["1", "4"])], &["1"]);
    let mut layout = board();
    layout.land_patterns =
        vec![pattern("P", &["a", "b", "c"], &[("3", "a"), ("1", "b"), ("2", "c"), ("3", "c")])];
    layout.placements = vec![placement("R1", "P", 1, 1)];
    let report = layout.validate(&circuit);
    assert_eq!(
        report.issues,
        vec![
            LayoutValidationIssue::MissingPlacedPinPad {
                instance: CircuitInstanceId::new("R1"),
                pin: PinRef::new("4"),
            },
            LayoutValidationIssue::UnknownPlacedPatternPin {
                instance: CircuitInstanceId::new("R1"),
                pin: PinRef::new("2"),
            },
            LayoutValidationIssue::UnknownPlacedPatternPin {
                instance: CircuitInstanceId::new("R1"),
                pin: PinRef::new("3"),
            },
        ]
    );
}

#[test]
fn mapped_pad_must_exist() {
    let circuit = circuit(vec![], &[]);
    let mut layout = board();
    layout.land_patterns = vec![pattern("P", &["a"], &[("1", "z")])];
    let report = layout.validate(&circuit);
    assert_eq!(
        report.issues,
        vec![LayoutValidationIssue::UnknownMappedPad {
            land_pattern: LandPatternId::new("P"),
            pad: PadId::new("z"),
        }]
    );
}

fn two_resistors() -> (Circuit, PcbLayout) {
    let circuit = circuit(vec![instance("R1", &[]), instance("R2", &[])], &[]);
    let mut layout = board();
    layout.land_patterns = vec![pattern("R0603", &[], &[])];
    layout.placements = vec![placement("R2", "R0603", 0, 0), placement("R1", "R0603", 3, 4)];
    (circuit, layout)
}

#[test]
fn fixed_and_relative_origins_resolve() {
    let (circuit, mut layout) = two_resistors();
    layout.placement_constraints = vec![
        constraint(
            "fix",
            PlacementConstraintKind::Fixed { instance: CircuitInstanceId::new("R1"), position: point(5, 7) },
        ),
        constraint(
            "rel",
            PlacementConstraintKind::Relative {
                instance: CircuitInstanceId::new("R2"),
                anchor: CircuitInstanceId::new("R1"),
                offset: point(1, 2),
            },
        ),
        constraint(
            "row",
            PlacementConstraintKind::AlignY {
                instances: vec![CircuitInstanceId::new("R1"), CircuitInstanceId::new("R2")],
            },
        ),
    ];
    let report = layout.resolve_placement_constraints(&circuit);
    assert_eq!(report.placements[1].position, point(5, 7));
    assert_eq!(report.placements[0].position, point(6, 9));
    assert_eq!(
        report.issues,
        vec![PlacementResolutionIssue::MisalignedY(PlacementConstraintId::new("row"))]
    );
    assert!(!report.is_satisfied());
}

#[test]
fn relative_cycle_is_reported_once_at_the_first_instance() {
    let (circuit, mut layout) = two_resistors();
    layout.placement_constraints = vec![
        constraint(
            "a",
            PlacementConstraintKind::Relative {
                instance: CircuitInstanceId::new("R1"),
                anchor: CircuitInstanceId::new("R2"),
                offset: point(1, 0),
            },
        ),
        constraint(
            "b",
            PlacementConstraintKind::Relative {
                instance: CircuitInstanceId::new("R2"),
                anchor: CircuitInstanceId::new("R1"),
                offset: point(0, 1),
            },
        ),
    ];
    let report = layout.resolve_placement_constraints(&circuit);
    assert_eq!(
        report.issues,
        vec![PlacementResolutionIssue::RelativeCycle(CircuitInstanceId::new("R1"))]
    );
    // R2 continues from R1's authored origin (3, 4); R1 then follows R2.
    assert_eq!(report.placements[0].position, point(3, 5));
    assert_eq!(report.placements[1].position, point(4, 5));
}

#[test]
fn region_rotation_and_side_constraints_are_certified() {
    let (circuit, mut layout) = two_resistors();
    layout.placement_constraints = vec![
        constraint(
            "box",
            PlacementConstraintKind::Within {
                instance: CircuitInstanceId::new("R1"),
                min: point(0, 0),
                max: point(2, 2),
            },
        ),
        constraint(
            "turn",
            PlacementConstraintKind::AllowedRotations {
                instance: CircuitInstanceId::new("R1"),
                rotations_degrees: vec![exact(0), exact(90)],
            },
        ),
        constraint(
            "side",
            PlacementConstraintKind::AllowedSides {
                instance: CircuitInstanceId::new("R2"),
                sides: vec![BoardSide::Back],
            },
        ),
    ];
    let report = layout.resolve_placement_constraints(&circuit);
    assert_eq!(
        report.issues,
        vec![
            PlacementResolutionIssue::OutsideRegion(PlacementConstraintId::new("box")),
            PlacementResolutionIssue::DisallowedSide(PlacementConstraintId::new("side")),
        ]
    );
    assert_eq!(report.placements[1].position, point(3, 4));
}

#[test]
fn invalid_layout_is_not_resolved() {
    let (circuit, mut layout) = two_resistors();
    layout.placements.push(placement("R9", "R0603", 1, 1));
    let report = layout.resolve_placement_constraints(&circuit);
    assert_eq!(report.issues, vec![PlacementResolutionIssue::InvalidLayout]);
    assert_eq!(report.placements, layout.placements);
}

fn square(size: i64) -> Vec<Point2> {
    vec![point(0, 0), point(size, 0), point(size, size), point(0, size)]
}

#[test]
fn routing_rule_issues_are_reported_in_section_order() {
    let mut circuit = circuit(vec![instance("R1", &[])], &[]);
    circuit.nets = vec![hypercircuit::Net { id: NetId::new("n"), is_ground: false }];
    let mut layout = board();
    layout.land_patterns = vec![pattern("R0603", &[], &[])];
    layout.placements = vec![placement("R1", "R0603", 1, 1)];
    layout.rules.route_constraint_regions = vec![RouteConstraintRegion {
        id: RouteConstraintRegionId::new("keep-straight"),
        boundary: square(2),
        nets: vec![NetId::new("n"), NetId::new("ghost")],
        allowed_layers: vec![TraceLayer(0)],
        allowed_directions: vec![RouteDirection::Horizontal],
        allow_vias: false,
    }];
    layout.rules.route_rule_regions = vec![RouteRuleRegion {
        id: RouteRuleRegionId::new("narrow"),
        boundary: square(2),
        nets: vec![],
        min_trace_width: None,
        min_clearance: None,
    }];
    layout.rules.escape_policies = vec![EscapePolicy {
        id: EscapePolicyId::new("fanout"),
        instances: vec![CircuitInstanceId::new("U7")],
        nets: vec![],
        max_distance: exact(1),
        allowed_layers: vec![TraceLayer(0)],
        allowed_directions: vec![RouteDirection::Vertical],
        allow_vias: true,
    }];
    layout.rules.length_tuning_patterns = vec![LengthTuningPattern {
        id: LengthTuningPatternId::new("meander"),
        net: NetId::new("n"),
        route: Some(hypercircuit::RouteId::new("missing")),
        region: square(3),
        target_length: exact(10),
        tolerance: exact(0),
        amplitude: exact(1),
        pitch: exact(1),
        maximum_cycles: 4,
        side: LengthTuningSide::Left,
    }];
    layout.rules.phase_tuning_groups = vec![PhaseTuningGroup {
        id: PhaseTuningGroupId::new("match"),
        patterns: vec![LengthTuningPatternId::new("meander")],
        differential_pair: None,
        maximum_skew: exact(1),
        minimum_clearance: exact(0),
    }];
    let report = layout.validate(&circuit);
    assert_eq!(
        report.issues,
        vec![
            LayoutValidationIssue::UnknownRouteConstraintRegionNet {
                region: RouteConstraintRegionId::new("keep-straight"),
                net: NetId::new("ghost"),
            },
            LayoutValidationIssue::InvalidRouteRuleRegion(RouteRuleRegionId::new("narrow")),
            LayoutValidationIssue::UnknownEscapePolicyInstance {
                policy: EscapePolicyId::new("fanout"),
                instance: CircuitInstanceId::new("U7"),
            },
            LayoutValidationIssue::InvalidLengthTuningTarget(LengthTuningPatternId::new("meander")),
            LayoutValidationIssue::InvalidPhaseTuningGroup(PhaseTuningGroupId::new("match")),
        ]
    );
}

fn net_class(id: &str, parent: Option<&str>) -> hypercircuit::NetClass {
    hypercircuit::NetClass {
        id: hypercircuit::NetClassId::new(id),
        parent: parent.map(hypercircuit::NetClassId::new),
        nets: vec![],
        min_trace_width: None,
        preferred_trace_width: None,
        min_clearance: None,
        preferred_via_land_diameter: None,
        preferred_via_drill_diameter: None,
        preferred_via_style: None,
        max_length: None,
        max_via_count: None,
        target_impedance_ohms: None,
        impedance_tolerance_ohms: None,
        requires_reference_plane: false,
    }
}

#[test]
fn unresolved_net_class_inheritance_is_reported() {
    let circuit = circuit(vec![], &[]);
    let mut layout = board();
    layout.rules.net_classes = vec![net_class("a", None), net_class("b", Some("z"))];
    let report = layout.validate(&circuit);
    assert!(report.issues.contains(&LayoutValidationIssue::UnknownNetClassParent {
        class: hypercircuit::NetClassId::new("b"),
        parent: hypercircuit::NetClassId::new("z"),
    }));
    layout.rules.net_classes = vec![net_class("a", Some("b")), net_class("b", Some("a"))];
    let report = layout.validate(&circuit);
    assert!(report.issues.contains(&LayoutValidationIssue::NetClassInheritanceCycle(hypercircuit::NetClassId::new(
        "a"
    ))));
    layout.rules.net_classes = vec![net_class("a", None), net_class("b", Some("a"))];
    let report = layout.validate(&circuit);
    assert!(report.is_valid(), "{:?}", report.issues);
}

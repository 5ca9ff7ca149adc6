use hypercircuit::{NetClass, NetClassId, NetClassResolutionError, NetId, PcbDesignRules};
use hyperreal::Real;

fn class(id: &str, parent: Option<&str>) -> NetClass {
    NetClass {
        id: NetClassId::new(id),
        parent: parent.map(NetClassId::new),
        nets: vec![],
        min_trace_width: None,
        preferred_trace_width: None,
        min_clearance: None,
        preferred_via_land_diameter: None,
        preferred_via_drill_diameter: None,
        preferred_via_style: None,
        max_length: None,
        max_via_count: None,
        target_impedance_ohms: None,
        impedance_tolerance_ohms: None,
        requires_reference_plane: false,
    }
}

fn rules(classes: Vec<NetClass>) -> PcbDesignRules {
    let mut rules = PcbDesignRules::default();
    rules.net_classes = classes;
    rules
}

#[test]
fn derived_classes_inherit_unset_values_and_record_lineage() {
    let mut base = class("power", None);
    base.min_trace_width = Some(Real::from(3));
    base.min_clearance = Some(Real::from(2));
    base.requires_reference_plane = true;
    let mut derived = class("power_hi", Some("power"));
    derived.min_clearance = Some(Real::from(5));
    derived.nets = vec![NetId::new("VBUS")];
    let resolved = rules(vec![derived, base]).resolve_net_classes().unwrap();
    assert_eq!(resolved.len(), 2);
    let hi = &resolved[0];
    assert_eq!(hi.id, NetClassId::new("power_hi"));
    assert_eq!(hi.lineage, vec![NetClassId::new("power"), NetClassId::new("power_hi")]);
    assert_eq!(hi.min_trace_width, Some(Real::from(3)));
    assert_eq!(hi.min_clearance, Some(Real::from(5)));
    assert!(hi.requires_reference_plane);
    assert_eq!(hi.nets, vec![NetId::new("VBUS")]);
    assert_eq!(resolved[1].lineage, vec![NetClassId::new("power")]);
}

#[test]
fn duplicate_class_is_reported_before_walks() {
    let result = rules(vec![class("a", Some("missing")), class("a", None)]).resolve_net_classes();
    assert_eq!(result, Err(NetClassResolutionError::DuplicateClass(NetClassId::new("a"))));
}

#[test]
fn unknown_base_is_reported() {
    let result = rules(vec![class("a", None), class("b", Some("z"))]).resolve_net_classes();
    assert_eq!(
        result,
        Err(NetClassResolutionError::UnknownParent {
            class: NetClassId::new("b"),
            parent: NetClassId::new("z"),
        })
    );
}

#[test]
fn inheritance_cycle_is_reported_at_the_first_class_met_twice() {
    let result =
        rules(vec![class("a", Some("b")), class("b", Some("a")), class("c", None)]).resolve_net_classes();
    assert_eq!(result, Err(NetClassResolutionError::InheritanceCycle(NetClassId::new("a"))));
}

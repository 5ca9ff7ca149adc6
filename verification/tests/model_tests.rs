use hypercircuit::{
    AdapterKind, Bus, BusSlice, BusSliceOrder, Circuit, CircuitError, CircuitId, CircuitInstance,
    CircuitInstanceId, CircuitValidationIssue, CircuitValidationReport, ComponentId,
    DeviceModelId, Net, NetId, PinBinding, PinRef, TransientPolicy,
};

fn net(id: &str, ground: bool) -> Net {
    Net { id: NetId::new(id), is_ground: ground }
}

fn bus(id: &str, members: &[&str]) -> Bus {
    Bus { id: hypercircuit::BusId::new(id), nets: members.iter().map(|m| NetId::new(m)).collect() }
}

fn slice(bus_id: &str, offset: usize, width: usize, order: BusSliceOrder) -> BusSlice {
    BusSlice {
        id: hypercircuit::BusSliceId::new("s"),
        bus: hypercircuit::BusId::new(bus_id),
        offset,
        width,
        order,
    }
}

fn texts(nets: &[NetId]) -> Vec<String> {
    nets.iter().map(|n| n.as_str().to_string()).collect()
}

#[test]
fn bus_slice_forward_selects_members_in_order() {
    let b = bus("data", &["d0", "d1", "d2", "d3"]);
    let members = slice("data", 1, 2, BusSliceOrder::Forward).members(&b).unwrap();
    assert_eq!(texts(&members), vec!["d1", "d2"]);
}

#[test]
fn bus_slice_reverse_reverses_members() {
    let b = bus("data", &["d0", "d1", "d2", "d3"]);
    let members = slice("data", 1, 3, BusSliceOrder::Reverse).members(&b).unwrap();
    assert_eq!(texts(&members), vec!["d3", "d2", "d1"]);
}

#[test]
fn bus_slice_rejects_out_of_range_empty_and_foreign() {
    let b = bus("data", &["d0", "d1", "d2", "d3"]);
    assert!(slice("data", 3, 2, BusSliceOrder::Forward).members(&b).is_none());
    assert!(slice("data", 0, 0, BusSliceOrder::Forward).members(&b).is_none());
    assert!(slice("addr", 0, 1, BusSliceOrder::Forward).members(&b).is_none());
    assert!(slice("data", usize::MAX, 2, BusSliceOrder::Forward).members(&b).is_none());
}

#[test]
fn validation_report_is_valid_only_without_issues() {
    assert!(CircuitValidationReport { issues: vec![] }.is_valid());
    assert!(!CircuitValidationReport { issues: vec![CircuitValidationIssue::MultipleGroundNets] }.is_valid());
}

fn empty_circuit() -> Circuit {
    Circuit::new(CircuitId::new("c"), TransientPolicy::Static, AdapterKind::ExactDense)
}

#[test]
fn empty_circuit_validates() {
    let circuit = empty_circuit();
    assert!(circuit.validate().is_valid());
    assert!(circuit.nets.is_empty() && circuit.stamps.is_empty());
}

#[test]
fn duplicate_net_and_second_ground_are_reported_in_order() {
    let circuit = empty_circuit()
        .with_net(net("gnd", true))
        .with_net(net("n1", false))
        .with_net(net("n1", false))
        .with_net(net("agnd", true));
    let report = circuit.validate();
    assert_eq!(
        report.issues,
        vec![
            CircuitValidationIssue::DuplicateNet(NetId::new("n1")),
            CircuitValidationIssue::MultipleGroundNets,
        ]
    );
}

#[test]
fn bus_issues_are_reported() {
    let circuit = empty_circuit()
        .with_net(net("a", false))
        .with_bus(bus("b", &["a", "x", "a"]))
        .with_bus(bus("e", &[]));
    let report = circuit.validate();
    assert_eq!(
        report.issues,
        vec![
            CircuitValidationIssue::UnknownBusNet { bus: hypercircuit::BusId::new("b"), net: NetId::new("x") },
            CircuitValidationIssue::DuplicateBusNet { bus: hypercircuit::BusId::new("b"), net: NetId::new("a") },
            CircuitValidationIssue::EmptyBus(hypercircuit::BusId::new("e")),
        ]
    );
}

#[test]
fn bus_slice_issues_are_reported() {
    let mut bad = slice("b", 1, 5, BusSliceOrder::Forward);
    bad.id = hypercircuit::BusSliceId::new("wide");
    let mut foreign = slice("nope", 0, 1, BusSliceOrder::Forward);
    foreign.id = hypercircuit::BusSliceId::new("foreign");
    let circuit = empty_circuit()
        .with_net(net("a", false))
        .with_net(net("b0", false))
        .with_bus(bus("b", &["a", "b0"]))
        .with_bus_slice(bad)
        .with_bus_slice(foreign);
    let report = circuit.validate();
    assert_eq!(
        report.issues,
        vec![
            CircuitValidationIssue::InvalidBusSliceRange(hypercircuit::BusSliceId::new("wide")),
            CircuitValidationIssue::UnknownBusSliceBus {
                slice: hypercircuit::BusSliceId::new("foreign"),
                bus: hypercircuit::BusId::new("nope"),
            },
        ]
    );
}

fn instance(id: &str) -> CircuitInstance {
    CircuitInstance {
        id: CircuitInstanceId::new(id),
        component: ComponentId::new(id),
        part: None,
        model: DeviceModelId::new("r"),
        pins: Vec::<PinBinding>::new(),
        parameters: vec![],
    }
}

#[test]
fn connect_pin_binds_once_and_reports_each_error() {
    let mut circuit = empty_circuit().with_net(net("n1", false)).with_instance(instance("r1"));
    assert_eq!(
        circuit.connect_pin(&CircuitInstanceId::new("r1"), PinRef::new("1"), &NetId::new("missing")),
        Err(CircuitError::MissingConnectionNet)
    );
    assert_eq!(
        circuit.connect_pin(&CircuitInstanceId::new("r9"), PinRef::new("1"), &NetId::new("n1")),
        Err(CircuitError::MissingInstance)
    );
    assert_eq!(circuit.connect_pin(&CircuitInstanceId::new("r1"), PinRef::new("1"), &NetId::new("n1")), Ok(()));
    assert_eq!(circuit.instances[0].pins.len(), 1);
    assert_eq!(circuit.instances[0].pins[0].net.as_str(), "n1");
    assert_eq!(
        circuit.connect_pin(&CircuitInstanceId::new("r1"), PinRef::new("1"), &NetId::new("n1")),
        Err(CircuitError::DuplicatePinBinding)
    );
    assert_eq!(circuit.instances[0].pins.len(), 1);
}

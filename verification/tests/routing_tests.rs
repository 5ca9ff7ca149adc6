use hypercircuit::routing_aliases::DUPLICATE_NET;
use hypercircuit::{
    AdapterKind, Circuit, CircuitId, Net, NetId, RoutingNetAliases, RoutingNetId, TransientPolicy,
};

fn circuit(nets: &[&str]) -> Circuit {
    let mut circuit = Circuit::new(CircuitId::new("c"), TransientPolicy::Static, AdapterKind::ExactDense);
    circuit.nets = nets.iter().map(|id| Net { id: NetId::new(id), is_ground: false }).collect();
    circuit
}

#[test]
fn aliases_follow_declaration_order_and_list_by_net() {
    let aliases = RoutingNetAliases::from_circuit(&circuit(&["VCC", "GND", "SIG"])).unwrap();
    assert_eq!(aliases.get(&NetId::new("VCC")), Some(RoutingNetId(0)));
    assert_eq!(aliases.get(&NetId::new("GND")), Some(RoutingNetId(1)));
    assert_eq!(aliases.get(&NetId::new("SIG")), Some(RoutingNetId(2)));
    assert_eq!(aliases.get(&NetId::new("NC")), None);
    let listed = aliases.iter();
    assert_eq!(
        listed,
        vec![
            (NetId::new("GND"), RoutingNetId(1)),
            (NetId::new("SIG"), RoutingNetId(2)),
            (NetId::new("VCC"), RoutingNetId(0)),
        ]
    );
}

#[test]
fn an_alias_leads_back_to_its_net() {
    let aliases = RoutingNetAliases::from_circuit(&circuit(&["A", "B"])).unwrap();
    for net in ["A", "B"] {
        let id = aliases.get(&NetId::new(net)).unwrap();
        assert_eq!(aliases.logical(id), Some(&NetId::new(net)));
    }
    assert_eq!(aliases.logical(RoutingNetId(7)), None);
}

#[test]
fn duplicate_nets_receive_no_alias() {
    assert_eq!(RoutingNetAliases::from_circuit(&circuit(&["A", "B", "A"])), Err(DUPLICATE_NET));
    assert_eq!(
        RoutingNetAliases::from_circuit(&circuit(&["A", "A"])),
        Err("duplicate circuit net cannot receive a routing alias")
    );
}

#[test]
fn empty_circuit_has_no_aliases() {
    let aliases = RoutingNetAliases::from_circuit(&circuit(&[])).unwrap();
    assert!(aliases.iter().is_empty());
    assert_eq!(aliases, RoutingNetAliases::default());
}

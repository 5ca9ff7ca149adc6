use std::cmp::Ordering;

use hyperreal::Real;
use hypercircuit::mna::choose_pivot;
use hypercircuit::{
    BranchId, CircuitError, ComponentId, LinearMnaSystem, LinearStamp, MnaUnknown, NetId, ZeroFact,
};

fn r(value: i64) -> Real {
    Real::from(value)
}

fn same(a: &Real, b: &Real) -> bool {
    a.partial_cmp(b) == Some(Ordering::Equal)
}

fn conductance(id: &str, pos: Option<&str>, neg: Option<&str>, g: i64) -> LinearStamp {
    LinearStamp::Conductance {
        component: ComponentId::new(id),
        part: None,
        pos: pos.map(NetId::new),
        neg: neg.map(NetId::new),
        conductance: r(g),
    }
}

#[test]
fn current_into_conductance_solves_to_ohms_law() {
    let stamps = vec![
        conductance("g1", Some("n1"), None, 2),
        LinearStamp::CurrentSource {
            component: ComponentId::new("i1"),
            pos: None,
            neg: Some(NetId::new("n1")),
            current: r(2),
        },
    ];
    let system = LinearMnaSystem::from_stamps(vec![NetId::new("n1")], &stamps).unwrap();
    assert_eq!(system.unknowns, vec![MnaUnknown::NetVoltage(NetId::new("n1"))]);
    assert!(same(&system.matrix[0][0], &r(2)));
    assert!(same(&system.rhs[0], &r(2)));
    let report = system.solve_exact().unwrap();
    assert_eq!(report.candidate.len(), 1);
    assert!(same(&report.candidate[0], &r(1)));
    assert!(report.replay.accepted);
}

#[test]
fn voltage_divider_solves_exactly() {
    let stamps = vec![
        LinearStamp::VoltageSource {
            component: ComponentId::new("v1"),
            branch: BranchId::new("v1"),
            pos: Some(NetId::new("top")),
            neg: None,
            voltage: r(10),
        },
        conductance("r1", Some("top"), Some("mid"), 1),
        conductance("r2", Some("mid"), None, 1),
    ];
    let system =
        LinearMnaSystem::from_stamps(vec![NetId::new("top"), NetId::new("mid")], &stamps).unwrap();
    assert_eq!(system.unknowns.len(), 3);
    assert_eq!(system.unknowns[2], MnaUnknown::BranchCurrent(BranchId::new("v1")));
    let report = system.solve_exact().unwrap();
    assert!(same(&report.candidate[0], &r(10)));
    assert!(same(&report.candidate[1], &r(5)));
    assert!(report.replay.accepted);
    // The conductance stamps are reciprocal, so the matrix is symmetric.
    for i in 0..3 {
        for j in 0..3 {
            assert!(same(&system.matrix[i][j], &system.matrix[j][i]));
        }
    }
}

#[test]
fn unknown_stamp_net_is_missing_net() {
    let stamps = vec![conductance("g1", Some("absent"), None, 1)];
    assert_eq!(
        LinearMnaSystem::from_stamps(vec![NetId::new("n1")], &stamps).err(),
        Some(CircuitError::MissingNet)
    );
}

#[test]
fn repeated_net_is_duplicate_unknown() {
    assert_eq!(
        LinearMnaSystem::from_stamps(vec![NetId::new("n1"), NetId::new("n1")], &[]).err(),
        Some(CircuitError::DuplicateUnknown)
    );
}

#[test]
fn replay_rejects_wrong_candidate_and_wrong_length() {
    let stamps = vec![conductance("g1", Some("n1"), None, 1)];
    let system = LinearMnaSystem::from_stamps(vec![NetId::new("n1")], &stamps).unwrap();
    let good = system.replay_candidate(&[r(0)]).unwrap();
    assert!(good.accepted);
    let bad = system.replay_candidate(&[r(3)]).unwrap();
    assert!(!bad.accepted);
    assert!(same(&bad.residuals[0], &r(3)));
    assert_eq!(system.replay_candidate(&[]).err(), Some(CircuitError::CandidateLengthMismatch));
}

#[test]
fn singular_system_is_reported() {
    let stamps = vec![conductance("g1", Some("a"), Some("b"), 1)];
    let system = LinearMnaSystem::from_stamps(vec![NetId::new("a"), NetId::new("b")], &stamps).unwrap();
    assert_eq!(system.solve_exact().err(), Some(CircuitError::SingularLinearSystem));
}

#[test]
fn pivot_is_the_first_nonzero_fact() {
    assert_eq!(choose_pivot(&vec![ZeroFact::Zero, ZeroFact::NonZero, ZeroFact::NonZero]), Ok(1));
    assert_eq!(choose_pivot(&vec![ZeroFact::Unknown, ZeroFact::NonZero]), Ok(1));
    assert_eq!(
        choose_pivot(&vec![ZeroFact::Zero, ZeroFact::Unknown]),
        Err(CircuitError::IndeterminateLinearPivot)
    );
    assert_eq!(choose_pivot(&vec![ZeroFact::Zero, ZeroFact::Zero]), Err(CircuitError::SingularLinearSystem));
    assert_eq!(choose_pivot(&vec![]), Err(CircuitError::SingularLinearSystem));
}

#[test]
fn empty_system_solves_to_empty_candidate() {
    let system = LinearMnaSystem::from_stamps(vec![], &[]).unwrap();
    let report = system.solve_exact().unwrap();
    assert!(report.candidate.is_empty());
    assert!(report.replay.accepted);
    assert!(report.replay.residuals.is_empty());
}

#[test]
fn source_and_conductance_give_voltage_and_branch_current() {
    let stamps = vec![
        LinearStamp::VoltageSource {
            component: ComponentId::new("V1"),
            branch: BranchId::new("V1"),
            pos: Some(NetId::new("a")),
            neg: None,
            voltage: r(5),
        },
        conductance("R1", Some("a"), None, 2),
    ];
    let system = LinearMnaSystem::from_stamps(vec![NetId::new("a")], &stamps).unwrap();
    let report = system.solve_exact().unwrap();
    assert_eq!(report.candidate.len(), 2);
    assert!(same(&report.candidate[0], &r(5)));
    assert!(same(&report.candidate[1], &r(-10)));
    assert!(report.replay.accepted);
    assert!(report.replay.residuals.iter().all(|residual| same(residual, &r(0))));
}

#[test]
fn replay_of_exact_solution_is_accepted_with_zero_residuals() {
    let stamps = vec![conductance("g1", Some("n1"), None, 4)];
    let system = LinearMnaSystem::from_stamps(vec![NetId::new("n1")], &stamps).unwrap();
    let replay = system.replay_candidate(&[r(0)]).unwrap();
    assert!(replay.accepted);
    let rejected = system.replay_candidate(&[r(1)]).unwrap();
    assert!(!rejected.accepted);
    assert!(same(&rejected.residuals[0], &r(4)));
}

#[test]
fn lone_unstamped_net_is_singular() {
    let system = LinearMnaSystem::from_stamps(vec![NetId::new("a")], &[]).unwrap();
    assert_eq!(system.unknowns, vec![MnaUnknown::NetVoltage(NetId::new("a"))]);
    assert!(same(&system.matrix[0][0], &r(0)));
    assert_eq!(system.solve_exact().err(), Some(CircuitError::SingularLinearSystem));
}

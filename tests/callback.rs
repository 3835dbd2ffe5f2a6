use gurobi::{
    callback_status, context_queries, node_rel_query, runtime_query, solution_query,
    CallbackOutcome, Error, Location, Model, ValueKind,
};

#[test]
fn runtime_query_rejected_at_polling() {
    assert_eq!(runtime_query(Location::Polling), Err(Error::InvalidCallSite));
    let q = runtime_query(Location::MipSol).unwrap();
    assert_eq!((q.location, q.what, q.kind), (4, 6002, ValueKind::Double));
    let q = runtime_query(Location::Simplex).unwrap();
    assert_eq!(q.location, 2);
}

#[test]
fn new_incumbent_context_takes_five_queries() {
    let qs = context_queries(Location::MipSol);
    assert_eq!(qs.len(), 5);
    let whats: Vec<i32> = qs.iter().map(|q| q.what).collect();
    assert_eq!(whats, vec![4002, 4003, 4004, 4005, 4006]);
    assert!(qs.iter().all(|q| q.location == 4 && q.kind == ValueKind::Double));
}

#[test]
fn context_query_counts_per_location() {
    assert_eq!(context_queries(Location::Polling).len(), 0);
    assert_eq!(context_queries(Location::PreSolve).len(), 5);
    assert_eq!(context_queries(Location::Simplex).len(), 5);
    assert_eq!(context_queries(Location::Mip).len(), 7);
    assert_eq!(context_queries(Location::MipNode).len(), 5);
    assert_eq!(context_queries(Location::Barrier).len(), 6);
    let msg = context_queries(Location::Message);
    assert_eq!((msg[0].what, msg[0].kind), (6001, ValueKind::Text));
    assert_eq!(context_queries(Location::Simplex)[4].kind, ValueKind::Int);
}

#[test]
fn location_codes_round_trip() {
    for code in 0..8 {
        assert_eq!(Location::from_code(code).unwrap().code(), code);
    }
    assert_eq!(Location::from_code(8), None);
    assert_eq!(Location::from_code(-1), None);
}

#[test]
fn callback_statuses_are_distinct() {
    assert_eq!(callback_status(CallbackOutcome::Completed), 0);
    assert_eq!(callback_status(CallbackOutcome::Aborted), -1);
    assert_eq!(callback_status(CallbackOutcome::ContextFailed), -3);
    assert_eq!(callback_status(CallbackOutcome::Panicked), -3000);
}

#[test]
fn solution_injection_requires_full_cover() {
    let model = Model::from_counts(3, 0, 0, 0);
    let v = model.get_vars();
    let r = model.solution_vector(&[v[0], v[1]], &[1.0, 2.0], 0.0);
    assert_eq!(r, Err(Error::DimensionMismatch));
    let r = model.solution_vector(&[v[0], v[1], v[2]], &[1.0, 2.0], 0.0);
    assert_eq!(r, Err(Error::DimensionMismatch));
    let r = model.solution_vector(&[v[2], v[0], v[1]], &[3.0, 1.0, 2.0], 0.0).unwrap();
    assert_eq!(r, vec![1.0, 2.0, 3.0]);
    let r = model.solution_vector(&[v[2], v[0], v[2]], &[3.0, 1.0, 5.0], 0.0).unwrap();
    assert_eq!(r, vec![1.0, 0.0, 5.0]);
}

#[test]
fn solution_values_projected_by_position() {
    let mut model = Model::from_counts(3, 0, 0, 0);
    let v = model.get_vars();
    let dense = [10.0, 20.0, 30.0];
    assert_eq!(model.select_values(&[v[2], v[0]], &dense).unwrap(), vec![30.0, 10.0]);
    assert_eq!(model.select_values(&[v[2]], &dense[..2]), Err(Error::DimensionMismatch));
    model.remove(v[0]);
    assert_eq!(model.select_values(&[v[0]], &dense), Err(Error::DimensionMismatch));
    assert_eq!(node_rel_query().what, 5002);
    assert_eq!(solution_query().what, 4001);
}

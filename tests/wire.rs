use gurobi::{ConstrSense, Error, Handle, Model, VarType};

#[test]
fn batched_var_add_with_mismatched_lengths_fails() {
    let mut model = Model::from_counts(0, 2, 0, 0);
    model.set_update_mode(0);
    let constrs = model.get_constrs();
    let before = model.get_vars().len();
    let r = model.var_columns(
        &["x", "y", "z"],
        &[VarType::Binary, VarType::Binary, VarType::Binary],
        &[0.0, 0.0, 0.0],
        &[0.0, 0.0],
        &[1.0, 1.0, 1.0],
        &[vec![constrs[0]], vec![], vec![constrs[1]]],
        &[vec![1.0], vec![], vec![2.0]],
    );
    assert!(matches!(r, Err(Error::DimensionMismatch)));
    assert_eq!(model.get_vars().len(), before);
}

#[test]
fn batched_var_add_lays_out_columns() {
    let model = Model::from_counts(0, 2, 0, 0);
    let c = model.get_constrs();
    let csr = model
        .var_columns(
            &["x", "y", "z"],
            &[VarType::Continuous, VarType::Integer, VarType::Binary],
            &[1.0, 2.0, 3.0],
            &[0.0, 0.0, 0.0],
            &[9.0, 9.0, 1.0],
            &[vec![c[0], c[1]], vec![], vec![c[1]]],
            &[vec![1.5, 2.5], vec![], vec![-1.0]],
        )
        .unwrap();
    assert_eq!(csr.beg, vec![0, 2, 2]);
    assert_eq!(csr.ind, vec![0, 1, 1]);
    assert_eq!(csr.val, vec![1.5, 2.5, -1.0]);
}

#[test]
fn batched_var_add_rejects_unplaced_constraint() {
    let mut model = Model::from_counts(0, 1, 0, 0);
    model.set_update_mode(0);
    let fresh = model.record_constrs(1);
    let old = model.get_constrs()[0];
    let r = model.var_columns(
        &["x"],
        &[VarType::Binary],
        &[0.0],
        &[0.0],
        &[1.0],
        &[vec![old, fresh[0]]],
        &[vec![1.0, 1.0]],
    );
    assert!(matches!(r, Err(Error::DimensionMismatch)));
    let r = model.var_columns(
        &["x"],
        &[VarType::Binary],
        &[0.0],
        &[0.0],
        &[1.0],
        &[vec![old]],
        &[vec![1.0, 1.0]],
    );
    assert!(matches!(r, Err(Error::DimensionMismatch)));
}

#[test]
fn single_var_column() {
    let mut model = Model::from_counts(0, 3, 0, 0);
    let c = model.get_constrs();
    let (ind, val) = model.var_column(&[c[2], c[0]], &[4.0, 5.0]).unwrap();
    assert_eq!(ind, vec![2, 0]);
    assert_eq!(val, vec![4.0, 5.0]);
    assert!(matches!(model.var_column(&[c[2]], &[4.0, 5.0]), Err(Error::DimensionMismatch)));
    model.remove(c[0]);
    assert!(matches!(model.var_column(&[c[0]], &[1.0]), Err(Error::DimensionMismatch)));
}

#[test]
fn constraint_rows_need_engine_positions() {
    let mut model = Model::from_counts(2, 0, 0, 0);
    model.set_update_mode(0);
    let v = model.get_vars();
    let fresh = model.record_vars(1);
    let csr = model
        .constr_rows(
            &["a", "b"],
            &[vec![v[1], v[0]], vec![v[0]]],
            &[vec![1.0, 2.0], vec![3.0]],
            &[ConstrSense::Less, ConstrSense::Equal],
            &[1.0, 2.0],
        )
        .unwrap();
    assert_eq!(csr.beg, vec![0, 2]);
    assert_eq!(csr.ind, vec![1, 0, 0]);
    assert_eq!(csr.val, vec![1.0, 2.0, 3.0]);
    let r = model.constr_rows(
        &["a", "b"],
        &[vec![v[1], fresh[0]], vec![v[0]]],
        &[vec![1.0, 2.0], vec![3.0]],
        &[ConstrSense::Less, ConstrSense::Equal],
        &[1.0, 2.0],
    );
    assert!(matches!(r, Err(Error::DimensionMismatch)));
    let r = model.constr_rows(
        &["a", "b"],
        &[vec![v[1]], vec![v[0]]],
        &[vec![1.0], vec![3.0]],
        &[ConstrSense::Less],
        &[1.0, 2.0],
    );
    assert!(matches!(r, Err(Error::DimensionMismatch)));
}

#[test]
fn range_rows_check_lengths() {
    let model = Model::from_counts(2, 0, 0, 0);
    let v = model.get_vars();
    let csr = model
        .range_rows(&["r"], &[vec![v[0], v[1]]], &[vec![1.0, 1.0]], &[0.0], &[4.0])
        .unwrap();
    assert_eq!(csr.beg, vec![0]);
    assert_eq!(csr.ind, vec![0, 1]);
    let r = model.range_rows(&["r"], &[vec![v[0], v[1]]], &[vec![1.0]], &[0.0], &[4.0]);
    assert!(matches!(r, Err(Error::DimensionMismatch)));
    let r = model.range_rows(&["r", "s"], &[vec![v[0]]], &[vec![1.0]], &[0.0], &[4.0]);
    assert!(matches!(r, Err(Error::DimensionMismatch)));
    let mut model = model;
    model.remove(v[1]);
    let r = model.range_rows(&["r"], &[vec![v[0], v[1]]], &[vec![1.0, 1.0]], &[0.0], &[4.0]);
    assert!(matches!(r, Err(Error::DimensionMismatch)));
}

#[test]
fn attribute_requests() {
    let mut model = Model::from_counts(3, 0, 0, 0);
    model.set_update_mode(0);
    let v = model.get_vars();
    let q = model.get_values("X", &[v[2], v[0]]).unwrap();
    assert_eq!(q.attr, "X");
    assert_eq!(q.indices, vec![2, 0]);
    let u = model.set_values("UB", &[v[1]], &[7.5]).unwrap();
    assert_eq!(u.indices, vec![1]);
    assert_eq!(u.values, vec![7.5]);
    assert!(matches!(model.set_values("UB", &[v[1]], &[7.5, 1.0]), Err(Error::DimensionMismatch)));
    let fresh = model.record_vars(1);
    assert!(matches!(model.get_values("X", &[v[0], fresh[0]]), Err(Error::DimensionMismatch)));
    let e = v[2].proxy().get(&model, "LB").unwrap();
    assert_eq!(e.element, 2);
    let s = v[1].proxy().set(&model, "LB", 0.5).unwrap();
    assert_eq!((s.element, s.value), (1, 0.5));
    assert!(matches!(fresh[0].proxy().get(&model, "LB"), Err(Error::DimensionMismatch)));
    assert!(matches!(fresh[0].proxy().set(&model, "LB", 1.0), Err(Error::DimensionMismatch)));
}

#[test]
fn sos_and_coefficient_requests() {
    let model = Model::from_counts(3, 2, 0, 0);
    let v = model.get_vars();
    let c = model.get_constrs();
    assert_eq!(model.sos_members(&[v[2], v[1]], &[1.0, 2.0]).unwrap(), vec![2, 1]);
    assert!(matches!(model.sos_members(&[v[2]], &[1.0, 2.0]), Err(Error::DimensionMismatch)));
    let (rows, cols) = model.coeff_targets(&[v[0], v[2]], &[c[1], c[0]], &[1.0, 2.0]).unwrap();
    assert_eq!(rows, vec![1, 0]);
    assert_eq!(cols, vec![0, 2]);
    assert!(matches!(
        model.coeff_targets(&[v[0]], &[c[1], c[0]], &[1.0, 2.0]),
        Err(Error::DimensionMismatch)
    ));
    assert_eq!(model.indices_of(&[c[1], c[0]]), vec![1, 0]);
    let mut model = model;
    model.set_update_mode(0);
    let fresh = model.record_vars(1);
    let fresh_c = model.record_constrs(1);
    assert!(matches!(model.sos_members(&[v[0], fresh[0]], &[1.0, 2.0]), Err(Error::DimensionMismatch)));
    assert!(matches!(
        model.coeff_targets(&[fresh[0]], &[c[0]], &[1.0]),
        Err(Error::DimensionMismatch)
    ));
    assert!(matches!(
        model.coeff_targets(&[v[0]], &[fresh_c[0]], &[1.0]),
        Err(Error::DimensionMismatch)
    ));
}

#[test]
fn relaxation_penalties_by_position() {
    let mut model = Model::from_counts(3, 2, 0, 0);
    let v = model.get_vars();
    let c = model.get_constrs();
    let inf = f64::INFINITY;
    let p = model
        .relaxation_penalties(&[v[2], v[0]], &[1.0, 2.0], &[3.0, 4.0], &[c[1]], &[5.0], inf)
        .unwrap();
    assert_eq!(p.lb, vec![2.0, inf, 1.0]);
    assert_eq!(p.ub, vec![4.0, inf, 3.0]);
    assert_eq!(p.rhs, vec![inf, 5.0]);
    let r = model.relaxation_penalties(&[v[2]], &[1.0], &[], &[], &[], inf);
    assert!(matches!(r, Err(Error::DimensionMismatch)));
    model.remove(v[1]);
    let r = model.relaxation_penalties(&[v[1]], &[1.0], &[1.0], &[], &[], inf);
    assert!(matches!(r, Err(Error::DimensionMismatch)));
}

#[test]
fn piecewise_objective_target() {
    let mut model = Model::from_counts(2, 0, 0, 0);
    let v = model.get_vars();
    assert_eq!(model.pwl_target(&v[1], &[0.0, 1.0], &[2.0, 3.0]), Ok(1));
    assert_eq!(model.pwl_target(&v[1], &[0.0, 1.0], &[2.0]), Err(Error::DimensionMismatch));
    model.set_update_mode(0);
    let fresh = model.record_vars(1);
    assert_eq!(model.pwl_target(&fresh[0], &[0.0], &[1.0]), Err(Error::DimensionMismatch));
}

#[test]
fn batched_var_add_rejects_foreign_constraint() {
    let other = Model::from_counts(0, 3, 0, 0);
    let foreign = other.get_constrs()[2];
    let model = Model::from_counts(0, 1, 0, 0);
    let r = model.var_columns(
        &["x"],
        &[VarType::Binary],
        &[0.0],
        &[0.0],
        &[1.0],
        &[vec![foreign]],
        &[vec![1.0]],
    );
    assert!(matches!(r, Err(Error::DimensionMismatch)));
}

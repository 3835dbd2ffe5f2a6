use gurobi::{Error, Handle, Model, ModelSense, UpdatePlan, Var};

/// The engine side as these tests see it: how many variables it holds, the update mode it
/// reports, and the deletion batches it received.
struct Engine {
    num_vars: usize,
    update_mode: i32,
    deleted_vars: Vec<Vec<i32>>,
    commits: usize,
}

impl Engine {
    fn new(update_mode: i32) -> Engine {
        Engine { num_vars: 0, update_mode, deleted_vars: Vec::new(), commits: 0 }
    }

    fn add_var(&mut self, model: &mut Model) -> Var {
        self.num_vars += 1;
        if model.get_update_mode().is_none() {
            model.set_update_mode(self.update_mode);
        }
        model.record_vars(1).pop().unwrap()
    }

    fn update(&mut self, model: &mut Model) -> UpdatePlan {
        let plan = model.update();
        if !plan.vars.is_empty() {
            self.num_vars -= plan.vars.len();
            self.deleted_vars.push(plan.vars.clone());
        }
        self.commits += 1;
        model.rearrange();
        plan
    }
}

#[test]
fn modelsense_conversion_success() {
    assert_eq!(Into::<i32>::into(ModelSense::Minimize), 1i32);
    assert_eq!(Into::<i32>::into(ModelSense::Maximize), -1i32);
}

#[test]
fn removing_variable_should_be_successed() {
    let mut engine = Engine::new(0);
    let mut model = Model::from_counts(0, 0, 0, 0);

    let x = engine.add_var(&mut model);
    let y = engine.add_var(&mut model);
    assert_eq!(x.index(&model), -1);
    assert_eq!(y.index(&model), -1);

    engine.update(&mut model);
    assert_eq!(x.index(&model), 0);
    assert_eq!(y.index(&model), 1);

    let z = engine.add_var(&mut model);
    assert_eq!(x.index(&model), 0);
    assert_eq!(y.index(&model), 1);
    assert_eq!(z.index(&model), -1);

    engine.update(&mut model);
    assert_eq!(x.index(&model), 0);
    assert_eq!(y.index(&model), 1);
    assert_eq!(z.index(&model), 2);

    model.remove(y.clone());
    assert_eq!(x.index(&model), 0);
    assert_eq!(y.index(&model), -4);
    assert_eq!(z.index(&model), 2);

    engine.update(&mut model);
    assert_eq!(x.index(&model), 0);
    assert_eq!(y.index(&model), -2);
    assert_eq!(z.index(&model), 1);
    assert_eq!(engine.num_vars, 2);
}

#[test]
fn end_to_end_add_update_remove() {
    let mut engine = Engine::new(0);
    let mut model = Model::from_counts(0, 0, 0, 0);
    let a = engine.add_var(&mut model);
    let b = engine.add_var(&mut model);
    assert_eq!((a.index(&model), b.index(&model)), (-1, -1));
    engine.update(&mut model);
    assert_eq!((a.index(&model), b.index(&model)), (0, 1));
    let c = engine.add_var(&mut model);
    assert_eq!(c.index(&model), -1);
    model.remove(b);
    assert_eq!(b.index(&model), -4);
    let plan = engine.update(&mut model);
    assert_eq!(a.index(&model), 0);
    assert_eq!(c.index(&model), 1);
    assert_eq!(b.index(&model), -2);
    assert_eq!(plan.vars, vec![1]);
    assert!(plan.constrs.is_empty() && plan.qconstrs.is_empty() && plan.sos.is_empty());
    assert_eq!(engine.deleted_vars, vec![vec![1]]);
    assert_eq!(plan.delete_calls(), vec![gurobi::EntityKind::Var]);
    assert_eq!(model.get_vars(), vec![a, c]);
}

#[test]
fn removing_unflushed_variable_never_reaches_engine() {
    let mut engine = Engine::new(0);
    let mut model = Model::from_counts(2, 0, 0, 0);
    let v = engine.add_var(&mut model);
    assert_eq!(v.index(&model), -1);
    model.remove(v);
    assert_eq!(v.index(&model), -2);
    let plan = engine.update(&mut model);
    assert!(plan.vars.is_empty());
    assert!(plan.delete_calls().is_empty());
    assert!(engine.deleted_vars.is_empty());
    assert_eq!(v.index(&model), -2);
    assert_eq!(model.get_vars().len(), 2);
}

#[test]
fn copies_of_a_handle_agree() {
    let mut model = Model::from_counts(3, 0, 0, 0);
    let vars = model.get_vars();
    let original = vars[1];
    let copy = original.clone();
    assert_eq!(copy, original);
    assert_eq!(copy.index(&model), original.index(&model));
    model.remove(original);
    assert_eq!(copy.index(&model), -4);
    assert_eq!(copy.index(&model), original.index(&model));
    model.update();
    model.rearrange();
    assert_eq!(copy.index(&model), -2);
    assert_eq!(copy.index(&model), original.index(&model));
    assert_ne!(vars[0], vars[2]);
}

#[test]
fn update_twice_deletes_nothing_the_second_time() {
    let mut engine = Engine::new(0);
    let mut model = Model::from_counts(4, 0, 0, 0);
    let vars = model.get_vars();
    model.remove(vars[0]);
    model.remove(vars[2]);
    let first = engine.update(&mut model);
    assert_eq!(first.vars, vec![0, 2]);
    let after_first: Vec<i32> = vars.iter().map(|v| v.index(&model)).collect();
    assert_eq!(after_first, vec![-2, 0, -2, 1]);
    let second = engine.update(&mut model);
    assert!(second.vars.is_empty() && second.constrs.is_empty());
    assert!(second.qconstrs.is_empty() && second.sos.is_empty());
    let after_second: Vec<i32> = vars.iter().map(|v| v.index(&model)).collect();
    assert_eq!(after_second, after_first);
    assert_eq!(engine.deleted_vars.len(), 1);
    assert_eq!(engine.commits, 2);
}

#[test]
fn immediate_mode_gives_positions_at_once() {
    let mut model = Model::from_counts(2, 1, 0, 0);
    model.set_update_mode(1);
    let vars = model.record_vars(2);
    assert_eq!(vars[0].index(&model), 2);
    assert_eq!(vars[1].index(&model), 3);
    let (rv, rc) = model.record_ranges(1);
    assert_eq!(rv[0].index(&model), 4);
    assert_eq!(rc[0].index(&model), 1);
    let q = model.record_qconstrs(1);
    assert_eq!(q[0].index(&model), 0);
    let s = model.record_sos(2);
    assert_eq!((s[0].index(&model), s[1].index(&model)), (0, 1));
}

#[test]
fn update_forgets_update_mode() {
    let mut model = Model::from_counts(0, 0, 0, 0);
    assert_eq!(model.get_update_mode(), None);
    model.set_update_mode(0);
    assert_eq!(model.get_update_mode(), Some(0));
    model.update();
    assert_eq!(model.get_update_mode(), Some(0));
    model.rearrange();
    assert_eq!(model.get_update_mode(), None);
}

#[test]
fn reconciliation_handles_every_kind() {
    let mut model = Model::from_counts(1, 3, 2, 2);
    model.set_update_mode(0);
    let constrs = model.get_constrs();
    let qconstrs = model.get_qconstrs();
    let sos = model.get_sos();
    let fresh = model.record_constrs(1);
    model.remove(constrs[1]);
    model.remove(qconstrs[0]);
    model.remove(sos[1]);
    model.remove(fresh[0]);
    let plan = model.update();
    model.rearrange();
    assert!(plan.vars.is_empty());
    assert_eq!(plan.constrs, vec![1]);
    assert_eq!(plan.qconstrs, vec![0]);
    assert_eq!(plan.sos, vec![1]);
    assert_eq!(*plan.batch(gurobi::EntityKind::Constr), vec![1]);
    assert_eq!(
        plan.delete_calls(),
        vec![gurobi::EntityKind::Constr, gurobi::EntityKind::QConstr, gurobi::EntityKind::Sos]
    );
    assert_eq!(constrs[0].index(&model), 0);
    assert_eq!(constrs[2].index(&model), 1);
    assert_eq!(qconstrs[1].index(&model), 0);
    assert_eq!(sos[0].index(&model), 0);
    assert_eq!(fresh[0].index(&model), -2);
    assert_eq!(model.get_constrs(), vec![constrs[0], constrs[2]]);
}

#[test]
fn removing_twice_keeps_the_pending_removal() {
    let mut model = Model::from_counts(3, 0, 0, 0);
    let v = model.get_vars()[2];
    model.remove(v);
    assert_eq!(v.index(&model), -5);
    model.remove(v);
    assert_eq!(v.index(&model), -5);
    let plan = model.update();
    model.rearrange();
    assert_eq!(plan.vars, vec![2]);
    model.remove(v);
    assert_eq!(v.index(&model), -2);
}

#[test]
fn proxy_removal_through_model_reference() {
    let mut model = Model::from_counts(2, 0, 0, 0);
    let v = model.get_vars()[0];
    let p = v.proxy();
    p.remove(&mut model);
    assert_eq!(p.index(&model), -3);
    assert_eq!(v.index(&model), -3);
}

#[test]
fn feasibility_relaxation_extends_the_sequences() {
    let mut model = Model::from_counts(2, 1, 0, 0);
    let (vars, constrs, qconstrs) = model.record_relaxation(5, 2, 0);
    assert_eq!(vars.len(), 3);
    assert_eq!(constrs.len(), 1);
    assert!(qconstrs.is_empty());
    assert_eq!(vars[0].index(&model), 2);
    assert_eq!(vars[2].index(&model), 4);
    assert_eq!(constrs[0].index(&model), 1);
    let (v2, _, _) = model.record_relaxation(1, 0, 0);
    assert!(v2.is_empty());
}

#[test]
fn failed_commit_leaves_the_state_of_the_failing_step() {
    let mut model = Model::from_counts(3, 0, 0, 0);
    model.set_update_mode(0);
    let vars = model.get_vars();
    let fresh = model.record_vars(1)[0];
    model.remove(vars[1]);
    let plan = model.update();
    assert_eq!(plan.vars, vec![1]);
    // The engine's commit fails here: the model is not rearranged.
    assert_eq!(vars[0].index(&model), 0);
    assert_eq!(vars[1].index(&model), -2);
    assert_eq!(vars[2].index(&model), 2);
    assert_eq!(fresh.index(&model), -1);
    assert_eq!(model.get_update_mode(), Some(0));
    assert_eq!(model.get_vars().len(), 4);
    use_unplaced(&model, fresh);
}

fn use_unplaced(model: &Model, v: Var) {
    assert!(matches!(v.proxy().get(model, "X"), Err(Error::DimensionMismatch)));
}

#[test]
fn removal_steps_one_kind_at_a_time() {
    let mut model = Model::from_counts(2, 2, 0, 0);
    let vars = model.get_vars();
    let constrs = model.get_constrs();
    model.remove(vars[0]);
    model.remove(constrs[1]);
    let batch = model.remove_items(gurobi::EntityKind::Var);
    assert_eq!(batch, vec![0]);
    assert_eq!(vars[0].index(&model), -2);
    assert_eq!(constrs[1].index(&model), -4);
    let batch = model.remove_items(gurobi::EntityKind::Constr);
    assert_eq!(batch, vec![1]);
    assert_eq!(constrs[1].index(&model), -2);
    model.rearrange();
    assert_eq!(vars[1].index(&model), 0);
    assert_eq!(constrs[0].index(&model), 0);
}

#[test]
fn engine_status_is_checked() {
    assert_eq!(gurobi::check_status(0), Ok(()));
    assert_eq!(gurobi::check_status(10003), Err(Error::EngineStatus(10003)));
}

use vstd::prelude::*;

use crate::handle::{Constr, EntityKind, Handle, Proxy, QConstr, Var, SOS};
use crate::registry::{
    deletions, fresh_codes, fresh_keys, marked_dead, reconciled, removal_code, Registry,
};

verus! {

/// The engine indices that a reconciliation removes, per kind of entity.
///
/// The caller issues the engine's bulk-delete call for each non-empty batch, in the order
/// variables, linear constraints, quadratic constraints, SOS constraints, then the engine's
/// single commit call, and calls `Model::rearrange` once the commit succeeded.
pub struct UpdatePlan {
    pub vars: Vec<i32>,
    pub constrs: Vec<i32>,
    pub qconstrs: Vec<i32>,
    pub sos: Vec<i32>,
}

impl UpdatePlan {
    /// The batch of one kind.
    pub fn batch(&self, kind: EntityKind) -> (r: &Vec<i32>)
        ensures
            r@ == self.batch_view(kind),
    {
        match kind {
            EntityKind::Var => &self.vars,
            EntityKind::Constr => &self.constrs,
            EntityKind::QConstr => &self.qconstrs,
            EntityKind::Sos => &self.sos,
        }
    }

    /// The kinds whose batch is non-empty, in the order their delete calls are issued:
    /// variables, linear constraints, quadratic constraints, SOS constraints.
    pub fn delete_calls(&self) -> (r: Vec<EntityKind>)
        ensures
            r@ == delete_order(self),
    {
        let mut r: Vec<EntityKind> = Vec::new();
        if self.vars.len() > 0 {
            r.push(EntityKind::Var);
        }
        if self.constrs.len() > 0 {
            r.push(EntityKind::Constr);
        }
        if self.qconstrs.len() > 0 {
            r.push(EntityKind::QConstr);
        }
        if self.sos.len() > 0 {
            r.push(EntityKind::Sos);
        }
        proof {
            assert(r@ =~= delete_order(self));
        }
        r
    }

    pub open spec fn batch_view(&self, kind: EntityKind) -> Seq<i32> {
        match kind {
            EntityKind::Var => self.vars@,
            EntityKind::Constr => self.constrs@,
            EntityKind::QConstr => self.qconstrs@,
            EntityKind::Sos => self.sos@,
        }
    }
}

/// `kind` when its batch in `plan` is non-empty.
pub open spec fn call_if_any(plan: &UpdatePlan, kind: EntityKind) -> Seq<EntityKind> {
    if plan.batch_view(kind).len() > 0 {
        seq![kind]
    } else {
        seq![]
    }
}

/// The kinds whose batch in `plan` is non-empty, in kind order.
pub open spec fn delete_order(plan: &UpdatePlan) -> Seq<EntityKind> {
    call_if_any(plan, EntityKind::Var) + call_if_any(plan, EntityKind::Constr) + call_if_any(
        plan,
        EntityKind::QConstr,
    ) + call_if_any(plan, EntityKind::Sos)
}

/// The entities of one model, as the host sees them, and the update mode read from the
/// engine.
pub struct Model {
    vars: Registry,
    constrs: Registry,
    qconstrs: Registry,
    sos: Registry,
    updatemode: Option<i32>,
}

/// Variable handles for `keys`.
fn vars_of(keys: &Vec<usize>) -> (r: Vec<Var>)
    ensures
        r@.len() == keys@.len(),
        forall|i: int|
            0 <= i < keys@.len() ==> (#[trigger] r@[i]).handle().kind() == EntityKind::Var
                && r@[i].handle().key() == keys@[i],
{
    let mut r: Vec<Var> = Vec::new();
    let mut i: usize = 0;
    while i < keys.len()
        invariant
            0 <= i <= keys@.len(),
            r@.len() == i,
            forall|t: int|
                0 <= t < i ==> (#[trigger] r@[t]).handle().kind() == EntityKind::Var
                    && r@[t].handle().key() == keys@[t],
        decreases keys@.len() - i,
    {
        r.push(Var::new(keys[i]));
        i += 1;
    }
    r
}

/// Linear constraint handles for `keys`.
fn constrs_of(keys: &Vec<usize>) -> (r: Vec<Constr>)
    ensures
        r@.len() == keys@.len(),
        forall|i: int|
            0 <= i < keys@.len() ==> (#[trigger] r@[i]).handle().kind() == EntityKind::Constr
                && r@[i].handle().key() == keys@[i],
{
    let mut r: Vec<Constr> = Vec::new();
    let mut i: usize = 0;
    while i < keys.len()
        invariant
            0 <= i <= keys@.len(),
            r@.len() == i,
            forall|t: int|
                0 <= t < i ==> (#[trigger] r@[t]).handle().kind() == EntityKind::Constr
                    && r@[t].handle().key() == keys@[t],
        decreases keys@.len() - i,
    {
        r.push(Constr::new(keys[i]));
        i += 1;
    }
    r
}

/// Quadratic constraint handles for `keys`.
fn qconstrs_of(keys: &Vec<usize>) -> (r: Vec<QConstr>)
    ensures
        r@.len() == keys@.len(),
        forall|i: int|
            0 <= i < keys@.len() ==> (#[trigger] r@[i]).handle().kind() == EntityKind::QConstr
                && r@[i].handle().key() == keys@[i],
{
    let mut r: Vec<QConstr> = Vec::new();
    let mut i: usize = 0;
    while i < keys.len()
        invariant
            0 <= i <= keys@.len(),
            r@.len() == i,
            forall|t: int|
                0 <= t < i ==> (#[trigger] r@[t]).handle().kind() == EntityKind::QConstr
                    && r@[t].handle().key() == keys@[t],
        decreases keys@.len() - i,
    {
        r.push(QConstr::new(keys[i]));
        i += 1;
    }
    r
}

/// SOS constraint handles for `keys`.
fn sos_of(keys: &Vec<usize>) -> (r: Vec<SOS>)
    ensures
        r@.len() == keys@.len(),
        forall|i: int|
            0 <= i < keys@.len() ==> (#[trigger] r@[i]).handle().kind() == EntityKind::Sos
                && r@[i].handle().key() == keys@[i],
{
    let mut r: Vec<SOS> = Vec::new();
    let mut i: usize = 0;
    while i < keys.len()
        invariant
            0 <= i <= keys@.len(),
            r@.len() == i,
            forall|t: int|
                0 <= t < i ==> (#[trigger] r@[t]).handle().kind() == EntityKind::Sos
                    && r@[t].handle().key() == keys@[t],
        decreases keys@.len() - i,
    {
        r.push(SOS::new(keys[i]));
        i += 1;
    }
    r
}

impl Proxy {
    /// Current code of the entity: its engine position when active, `-1` when added but
    /// not yet flushed, `-2` when removed, `-3 - i` when marked for removal while at `i`.
    pub fn index(&self, model: &Model) -> (r: i32)
        requires
            model.holds(*self),
        ensures
            r == model.index_of(*self),
    {
        model.index_of_proxy(*self)
    }

    /// Marks the entity for removal: see `Model::remove`.
    pub fn remove(&self, model: &mut Model)
        requires
            old(model).wf(),
            old(model).holds(*self),
        ensures
            final(model).wf(),
            final(model).update_mode() == old(model).update_mode(),
            forall|k: EntityKind|
                k != self.kind() ==> #[trigger] final(model).registry(k) == old(model).registry(k),
            final(model).registry(self.kind()).live() == old(model).registry(self.kind()).live(),
            final(model).registry(self.kind()).cells() == old(model).registry(
                self.kind(),
            ).cells().update(self.key() as int, removal_code(old(model).index_of(*self))),
    {
        model.remove(*self)
    }
}

impl Var {
    /// Current code of the variable: see `Proxy::index`.
    pub fn index(&self, model: &Model) -> (r: i32)
        requires
            model.holds(self.handle()),
        ensures
            r == model.index_of(self.handle()),
    {
        model.index_of_proxy(self.proxy())
    }
}

impl Constr {
    /// Current code of the constraint: see `Proxy::index`.
    pub fn index(&self, model: &Model) -> (r: i32)
        requires
            model.holds(self.handle()),
        ensures
            r == model.index_of(self.handle()),
    {
        model.index_of_proxy(self.proxy())
    }
}

impl QConstr {
    /// Current code of the constraint: see `Proxy::index`.
    pub fn index(&self, model: &Model) -> (r: i32)
        requires
            model.holds(self.handle()),
        ensures
            r == model.index_of(self.handle()),
    {
        model.index_of_proxy(self.proxy())
    }
}

impl SOS {
    /// Current code of the constraint: see `Proxy::index`.
    pub fn index(&self, model: &Model) -> (r: i32)
        requires
            model.holds(self.handle()),
        ensures
            r == model.index_of(self.handle()),
    {
        model.index_of_proxy(self.proxy())
    }
}

impl Model {
    /// The registry of one kind.
    pub closed spec fn registry(&self, kind: EntityKind) -> Registry {
        match kind {
            EntityKind::Var => self.vars,
            EntityKind::Constr => self.constrs,
            EntityKind::QConstr => self.qconstrs,
            EntityKind::Sos => self.sos,
        }
    }

    /// The cached update mode: `None` until read from the engine, and again after each
    /// reconciliation.
    pub closed spec fn update_mode(&self) -> Option<i32> {
        self.updatemode
    }

    pub open spec fn wf(&self) -> bool {
        &&& self.registry(EntityKind::Var).wf()
        &&& self.registry(EntityKind::Constr).wf()
        &&& self.registry(EntityKind::QConstr).wf()
        &&& self.registry(EntityKind::Sos).wf()
    }

    /// Whether `p` refers to an entity of this model.
    pub open spec fn holds(&self, p: Proxy) -> bool {
        (p.key() as int) < self.registry(p.kind()).cells().len()
    }

    /// The code that every handle to `p`'s entity reads.
    pub open spec fn index_of(&self, p: Proxy) -> i32 {
        self.registry(p.kind()).cells()[p.key() as int]
    }

    /// Number of entities of `kind` in the model's sequence.
    pub open spec fn count(&self, kind: EntityKind) -> nat {
        self.registry(kind).live().len()
    }

    /// Number of entities of `kind` in the model's sequence.
    pub fn num(&self, kind: EntityKind) -> (r: usize)
        ensures
            r == self.count(kind),
    {
        match kind {
            EntityKind::Var => self.vars.len(),
            EntityKind::Constr => self.constrs.len(),
            EntityKind::QConstr => self.qconstrs.len(),
            EntityKind::Sos => self.sos.len(),
        }
    }

    /// Number of cells of `kind`: every entity of that kind the model ever held.
    pub fn num_cells(&self, kind: EntityKind) -> (r: usize)
        ensures
            r == self.registry(kind).cells().len(),
    {
        match kind {
            EntityKind::Var => self.vars.num_cells(),
            EntityKind::Constr => self.constrs.num_cells(),
            EntityKind::QConstr => self.qconstrs.num_cells(),
            EntityKind::Sos => self.sos.num_cells(),
        }
    }

    /// Whether freshly added entities get their position at once: the cached update mode
    /// is non-zero.
    pub open spec fn immediate(&self) -> bool {
        self.update_mode() matches Some(m) && m != 0
    }

    /// A model whose engine already holds the given numbers of variables, linear
    /// constraints, quadratic constraints and SOS constraints, each active at its position.
    pub fn from_counts(cols: usize, rows: usize, qrows: usize, nsos: usize) -> (r: Model)
        requires
            cols < i32::MAX,
            rows < i32::MAX,
            qrows < i32::MAX,
            nsos < i32::MAX,
        ensures
            r.wf(),
            r.update_mode() == None::<i32>,
            r.registry(EntityKind::Var).live() == fresh_keys(0, cols as nat),
            r.registry(EntityKind::Var).cells() == fresh_codes(0, cols as nat, true),
            r.registry(EntityKind::Constr).live() == fresh_keys(0, rows as nat),
            r.registry(EntityKind::Constr).cells() == fresh_codes(0, rows as nat, true),
            r.registry(EntityKind::QConstr).live() == fresh_keys(0, qrows as nat),
            r.registry(EntityKind::QConstr).cells() == fresh_codes(0, qrows as nat, true),
            r.registry(EntityKind::Sos).live() == fresh_keys(0, nsos as nat),
            r.registry(EntityKind::Sos).cells() == fresh_codes(0, nsos as nat, true),
    {
        Model {
            vars: Registry::with_active(cols),
            constrs: Registry::with_active(rows),
            qconstrs: Registry::with_active(qrows),
            sos: Registry::with_active(nsos),
            updatemode: None,
        }
    }

    /// The cached update mode.
    pub fn get_update_mode(&self) -> (r: Option<i32>)
        ensures
            r == self.update_mode(),
    {
        self.updatemode
    }

    /// Caches the update mode read from the engine.
    pub fn set_update_mode(&mut self, mode: i32)
        ensures
            final(self).update_mode() == Some(mode),
            forall|k: EntityKind| #[trigger] final(self).registry(k) == old(self).registry(k),
    {
        self.updatemode = Some(mode);
    }

    /// Handles of the variables in the model's sequence, in order.
    pub fn get_vars(&self) -> (r: Vec<Var>)
        ensures
            r@.len() == self.count(EntityKind::Var),
            forall|i: int|
                0 <= i < r@.len() ==> (#[trigger] r@[i]).handle().kind() == EntityKind::Var
                    && r@[i].handle().key() == self.registry(EntityKind::Var).live()[i],
    {
        vars_of(self.vars.live_keys())
    }

    /// Handles of the linear constraints in the model's sequence, in order.
    pub fn get_constrs(&self) -> (r: Vec<Constr>)
        ensures
            r@.len() == self.count(EntityKind::Constr),
            forall|i: int|
                0 <= i < r@.len() ==> (#[trigger] r@[i]).handle().kind() == EntityKind::Constr
                    && r@[i].handle().key() == self.registry(EntityKind::Constr).live()[i],
    {
        constrs_of(self.constrs.live_keys())
    }

    /// Handles of the quadratic constraints in the model's sequence, in order.
    pub fn get_qconstrs(&self) -> (r: Vec<QConstr>)
        ensures
            r@.len() == self.count(EntityKind::QConstr),
            forall|i: int|
                0 <= i < r@.len() ==> (#[trigger] r@[i]).handle().kind() == EntityKind::QConstr
                    && r@[i].handle().key() == self.registry(EntityKind::QConstr).live()[i],
    {
        qconstrs_of(self.qconstrs.live_keys())
    }

    /// Handles of the SOS constraints in the model's sequence, in order.
    pub fn get_sos(&self) -> (r: Vec<SOS>)
        ensures
            r@.len() == self.count(EntityKind::Sos),
            forall|i: int|
                0 <= i < r@.len() ==> (#[trigger] r@[i]).handle().kind() == EntityKind::Sos
                    && r@[i].handle().key() == self.registry(EntityKind::Sos).live()[i],
    {
        sos_of(self.sos.live_keys())
    }

    /// Whether the cached update mode gives fresh entities their position at once.
    fn is_immediate(&self) -> (r: bool)
        ensures
            r == self.immediate(),
    {
        match self.updatemode {
            Some(m) => m != 0,
            None => false,
        }
    }

    /// Records `count` variables that the engine has accepted, appended to the sequence.
    /// Each gets its position when the cached update mode is non-zero, else `-1`.
    pub fn record_vars(&mut self, count: usize) -> (r: Vec<Var>)
        requires
            old(self).wf(),
            old(self).update_mode().is_some(),
            old(self).count(EntityKind::Var) + count < i32::MAX,
        ensures
            final(self).wf(),
            final(self).update_mode() == old(self).update_mode(),
            forall|k: EntityKind|
                k != EntityKind::Var ==> #[trigger] final(self).registry(k) == old(self).registry(k),
            final(self).registry(EntityKind::Var).live() == old(self).registry(EntityKind::Var).live()
                + fresh_keys(old(self).registry(EntityKind::Var).cells().len(), count as nat),
            final(self).registry(EntityKind::Var).cells() == old(self).registry(EntityKind::Var).cells()
                + fresh_codes(old(self).count(EntityKind::Var), count as nat, old(self).immediate()),
            r@.len() == count,
            forall|i: int|
                0 <= i < count ==> (#[trigger] r@[i]).handle().kind() == EntityKind::Var
                    && r@[i].handle().key() == (old(self).registry(EntityKind::Var).cells().len() + i) as usize,
    {
        let immediate = self.is_immediate();
        let keys = self.vars.push_many(count, immediate);
        vars_of(&keys)
    }

    /// Records `count` linear constraints that the engine has accepted: as `record_vars`.
    pub fn record_constrs(&mut self, count: usize) -> (r: Vec<Constr>)
        requires
            old(self).wf(),
            old(self).update_mode().is_some(),
            old(self).count(EntityKind::Constr) + count < i32::MAX,
        ensures
            final(self).wf(),
            final(self).update_mode() == old(self).update_mode(),
            forall|k: EntityKind|
                k != EntityKind::Constr ==> #[trigger] final(self).registry(k) == old(self).registry(k),
            final(self).registry(EntityKind::Constr).live() == old(self).registry(EntityKind::Constr).live()
                + fresh_keys(old(self).registry(EntityKind::Constr).cells().len(), count as nat),
            final(self).registry(EntityKind::Constr).cells() == old(self).registry(EntityKind::Constr).cells()
                + fresh_codes(old(self).count(EntityKind::Constr), count as nat, old(self).immediate()),
            r@.len() == count,
            forall|i: int|
                0 <= i < count ==> (#[trigger] r@[i]).handle().kind() == EntityKind::Constr
                    && r@[i].handle().key() == (old(self).registry(EntityKind::Constr).cells().len() + i) as usize,
    {
        let immediate = self.is_immediate();
        let keys = self.constrs.push_many(count, immediate);
        constrs_of(&keys)
    }

    /// Records `count` quadratic constraints that the engine has accepted: as `record_vars`.
    pub fn record_qconstrs(&mut self, count: usize) -> (r: Vec<QConstr>)
        requires
            old(self).wf(),
            old(self).update_mode().is_some(),
            old(self).count(EntityKind::QConstr) + count < i32::MAX,
        ensures
            final(self).wf(),
            final(self).update_mode() == old(self).update_mode(),
            forall|k: EntityKind|
                k != EntityKind::QConstr ==> #[trigger] final(self).registry(k) == old(self).registry(k),
            final(self).registry(EntityKind::QConstr).live() == old(self).registry(EntityKind::QConstr).live()
                + fresh_keys(old(self).registry(EntityKind::QConstr).cells().len(), count as nat),
            final(self).registry(EntityKind::QConstr).cells() == old(self).registry(EntityKind::QConstr).cells()
                + fresh_codes(old(self).count(EntityKind::QConstr), count as nat, old(self).immediate()),
            r@.len() == count,
            forall|i: int|
                0 <= i < count ==> (#[trigger] r@[i]).handle().kind() == EntityKind::QConstr
                    && r@[i].handle().key() == (old(self).registry(EntityKind::QConstr).cells().len() + i) as usize,
    {
        let immediate = self.is_immediate();
        let keys = self.qconstrs.push_many(count, immediate);
        qconstrs_of(&keys)
    }

    /// Records `count` SOS constraints that the engine has accepted: as `record_vars`.
    pub fn record_sos(&mut self, count: usize) -> (r: Vec<SOS>)
        requires
            old(self).wf(),
            old(self).update_mode().is_some(),
            old(self).count(EntityKind::Sos) + count < i32::MAX,
        ensures
            final(self).wf(),
            final(self).update_mode() == old(self).update_mode(),
            forall|k: EntityKind|
                k != EntityKind::Sos ==> #[trigger] final(self).registry(k) == old(self).registry(k),
            final(self).registry(EntityKind::Sos).live() == old(self).registry(EntityKind::Sos).live()
                + fresh_keys(old(self).registry(EntityKind::Sos).cells().len(), count as nat),
            final(self).registry(EntityKind::Sos).cells() == old(self).registry(EntityKind::Sos).cells()
                + fresh_codes(old(self).count(EntityKind::Sos), count as nat, old(self).immediate()),
            r@.len() == count,
            forall|i: int|
                0 <= i < count ==> (#[trigger] r@[i]).handle().kind() == EntityKind::Sos
                    && r@[i].handle().key() == (old(self).registry(EntityKind::Sos).cells().len() + i) as usize,
    {
        let immediate = self.is_immediate();
        let keys = self.sos.push_many(count, immediate);
        sos_of(&keys)
    }

    /// Records `count` range constraints that the engine has accepted: each brings one
    /// variable and one linear constraint, recorded as `record_vars` and `record_constrs`.
    pub fn record_ranges(&mut self, count: usize) -> (r: (Vec<Var>, Vec<Constr>))
        requires
            old(self).wf(),
            old(self).update_mode().is_some(),
            old(self).count(EntityKind::Var) + count < i32::MAX,
            old(self).count(EntityKind::Constr) + count < i32::MAX,
        ensures
            final(self).wf(),
            final(self).update_mode() == old(self).update_mode(),
            final(self).registry(EntityKind::QConstr) == old(self).registry(EntityKind::QConstr),
            final(self).registry(EntityKind::Sos) == old(self).registry(EntityKind::Sos),
            final(self).registry(EntityKind::Var).live() == old(self).registry(EntityKind::Var).live()
                + fresh_keys(old(self).registry(EntityKind::Var).cells().len(), count as nat),
            final(self).registry(EntityKind::Var).cells() == old(self).registry(EntityKind::Var).cells()
                + fresh_codes(old(self).count(EntityKind::Var), count as nat, old(self).immediate()),
            final(self).registry(EntityKind::Constr).live() == old(self).registry(EntityKind::Constr).live()
                + fresh_keys(old(self).registry(EntityKind::Constr).cells().len(), count as nat),
            final(self).registry(EntityKind::Constr).cells() == old(self).registry(EntityKind::Constr).cells()
                + fresh_codes(old(self).count(EntityKind::Constr), count as nat, old(self).immediate()),
            r.0@.len() == count,
            r.1@.len() == count,
            forall|i: int|
                0 <= i < count ==> (#[trigger] r.0@[i]).handle().kind() == EntityKind::Var
                    && r.0@[i].handle().key() == (old(self).registry(EntityKind::Var).cells().len() + i) as usize,
            forall|i: int|
                0 <= i < count ==> (#[trigger] r.1@[i]).handle().kind() == EntityKind::Constr
                    && r.1@[i].handle().key() == (old(self).registry(EntityKind::Constr).cells().len() + i) as usize,
    {
        let vars = self.record_vars(count);
        let constrs = self.record_constrs(count);
        (vars, constrs)
    }

    /// Appends, as active at their positions, the entities that the engine holds beyond
    /// the model's sequences: the variables, linear and quadratic constraints that a
    /// feasibility relaxation added, given the engine's counts after it. Returns the new
    /// handles of each kind.
    pub fn record_relaxation(&mut self, cols: usize, rows: usize, qrows: usize) -> (r: (
        Vec<Var>,
        Vec<Constr>,
        Vec<QConstr>,
    ))
        requires
            old(self).wf(),
            cols < i32::MAX,
            rows < i32::MAX,
            qrows < i32::MAX,
        ensures
            final(self).wf(),
            final(self).update_mode() == old(self).update_mode(),
            final(self).registry(EntityKind::Sos) == old(self).registry(EntityKind::Sos),
            final(self).count(EntityKind::Var) == if cols > old(self).count(EntityKind::Var) {
                cols as nat
            } else {
                old(self).count(EntityKind::Var)
            },
            final(self).count(EntityKind::Constr) == if rows > old(self).count(EntityKind::Constr) {
                rows as nat
            } else {
                old(self).count(EntityKind::Constr)
            },
            final(self).count(EntityKind::QConstr) == if qrows > old(self).count(
                EntityKind::QConstr,
            ) {
                qrows as nat
            } else {
                old(self).count(EntityKind::QConstr)
            },
            final(self).registry(EntityKind::Var).live() == old(self).registry(EntityKind::Var).live()
                + r.0@.map_values(|v: Var| v.handle().key()),
            final(self).registry(EntityKind::Var).cells() == old(self).registry(EntityKind::Var).cells()
                + fresh_codes(old(self).count(EntityKind::Var), r.0@.len(), true),
            final(self).registry(EntityKind::Constr).live() == old(self).registry(EntityKind::Constr).live()
                + r.1@.map_values(|c: Constr| c.handle().key()),
            final(self).registry(EntityKind::Constr).cells() == old(self).registry(EntityKind::Constr).cells()
                + fresh_codes(old(self).count(EntityKind::Constr), r.1@.len(), true),
            final(self).registry(EntityKind::QConstr).live() == old(self).registry(EntityKind::QConstr).live()
                + r.2@.map_values(|q: QConstr| q.handle().key()),
            final(self).registry(EntityKind::QConstr).cells() == old(self).registry(EntityKind::QConstr).cells()
                + fresh_codes(old(self).count(EntityKind::QConstr), r.2@.len(), true),
    {
        let nv = if cols > self.vars.len() { cols - self.vars.len() } else { 0 };
        let nc = if rows > self.constrs.len() { rows - self.constrs.len() } else { 0 };
        let nq = if qrows > self.qconstrs.len() { qrows - self.qconstrs.len() } else { 0 };
        let vkeys = self.vars.push_many(nv, true);
        let ckeys = self.constrs.push_many(nc, true);
        let qkeys = self.qconstrs.push_many(nq, true);
        let vars = vars_of(&vkeys);
        let constrs = constrs_of(&ckeys);
        let qconstrs = qconstrs_of(&qkeys);
        proof {
            assert(vars@.map_values(|v: Var| v.handle().key()) =~= vkeys@);
            assert(constrs@.map_values(|c: Constr| c.handle().key()) =~= ckeys@);
            assert(qconstrs@.map_values(|q: QConstr| q.handle().key()) =~= qkeys@);
        }
        (vars, constrs, qconstrs)
    }

    /// Code of the entity `p` refers to.
    pub fn index_of_proxy(&self, p: Proxy) -> (r: i32)
        requires
            self.holds(p),
        ensures
            r == self.index_of(p),
    {
        let key = p.key_of();
        match p.kind_of() {
            EntityKind::Var => self.vars.code(key),
            EntityKind::Constr => self.constrs.code(key),
            EntityKind::QConstr => self.qconstrs.code(key),
            EntityKind::Sos => self.sos.code(key),
        }
    }

    /// Marks the entity of `item` for removal; it leaves the engine at the next `update`.
    /// An active entity at `i` gets the code `-3 - i`; one added but never flushed is dead
    /// (`-2`) at once and never reaches the engine; a dead or already marked one is left
    /// as it is.
    pub fn remove<P: Handle>(&mut self, item: P)
        requires
            old(self).wf(),
            old(self).holds(item.handle()),
        ensures
            final(self).wf(),
            final(self).update_mode() == old(self).update_mode(),
            forall|k: EntityKind|
                k != item.handle().kind() ==> #[trigger] final(self).registry(k) == old(
                    self,
                ).registry(k),
            final(self).registry(item.handle().kind()).live() == old(self).registry(
                item.handle().kind(),
            ).live(),
            final(self).registry(item.handle().kind()).cells() == old(self).registry(
                item.handle().kind(),
            ).cells().update(
                item.handle().key() as int,
                removal_code(old(self).index_of(item.handle())),
            ),
    {
        let p = item.proxy();
        let key = p.key_of();
        match p.kind_of() {
            EntityKind::Var => self.vars.mark_removed(key),
            EntityKind::Constr => self.constrs.mark_removed(key),
            EntityKind::QConstr => self.qconstrs.mark_removed(key),
            EntityKind::Sos => self.sos.mark_removed(key),
        }
    }

    /// First step of a reconciliation, for one kind: declares dead (`-2`) every entity of
    /// `kind` marked for removal, and returns the engine indices to delete for them, in
    /// order. The sequences, every other cell and the cached update mode stay as they are.
    pub fn remove_items(&mut self, kind: EntityKind) -> (r: Vec<i32>)
        requires
            old(self).wf(),
        ensures
            final(self).wf(),
            final(self).update_mode() == old(self).update_mode(),
            forall|k: EntityKind| k != kind ==> #[trigger] final(self).registry(k) == old(self).registry(k),
            final(self).registry(kind).live() == old(self).registry(kind).live(),
            final(self).registry(kind).cells() == marked_dead(old(self).registry(kind).cells()),
            r@ == deletions(old(self).registry(kind).live(), old(self).registry(kind).cells()),
    {
        match kind {
            EntityKind::Var => self.vars.mark_dead(),
            EntityKind::Constr => self.constrs.mark_dead(),
            EntityKind::QConstr => self.qconstrs.mark_dead(),
            EntityKind::Sos => self.sos.mark_dead(),
        }
    }

    /// First step of a reconciliation, for every kind: `remove_items` on variables, linear
    /// constraints, quadratic constraints and SOS constraints. Returns the engine indices
    /// to delete, per kind.
    ///
    /// The caller then issues the plan's delete calls and the engine's commit, and calls
    /// `rearrange` only once the commit succeeded. When an engine call fails, the model
    /// stays as this step left it: nothing renumbered, the update mode kept.
    pub fn update(&mut self) -> (r: UpdatePlan)
        requires
            old(self).wf(),
        ensures
            final(self).wf(),
            final(self).update_mode() == old(self).update_mode(),
            forall|k: EntityKind|
                #![trigger final(self).registry(k)]
                final(self).registry(k).live() == old(self).registry(k).live()
                    && final(self).registry(k).cells() == marked_dead(old(self).registry(k).cells()),
            forall|k: EntityKind|
                #[trigger] r.batch_view(k) == deletions(
                    old(self).registry(k).live(),
                    old(self).registry(k).cells(),
                ),
    {
        let vars = self.remove_items(EntityKind::Var);
        let constrs = self.remove_items(EntityKind::Constr);
        let qconstrs = self.remove_items(EntityKind::QConstr);
        let sos = self.remove_items(EntityKind::Sos);
        UpdatePlan { vars, constrs, qconstrs, sos }
    }

    /// Second step of a reconciliation, once the engine has committed: for each kind,
    /// drops the dead entities from the sequence, renumbers the others `0, 1, ...` in
    /// their order, and forgets the cached update mode.
    pub fn rearrange(&mut self)
        requires
            old(self).wf(),
        ensures
            final(self).wf(),
            final(self).update_mode() == None::<i32>,
            forall|k: EntityKind|
                reconciled(old(self).registry(k), #[trigger] final(self).registry(k)),
    {
        self.vars.reconcile();
        self.constrs.reconcile();
        self.qconstrs.reconcile();
        self.sos.reconcile();
        self.updatemode = None;
        assert forall|k: EntityKind|
            reconciled(old(self).registry(k), #[trigger] self.registry(k)) by {
            match k {
                EntityKind::Var => {},
                EntityKind::Constr => {},
                EntityKind::QConstr => {},
                EntityKind::Sos => {},
            }
        }
    }
}

} // verus!

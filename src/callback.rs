use vstd::prelude::*;

use crate::error::Error;
use crate::handle::{EntityKind, Var};
use crate::model::Model;
use crate::wire::{all_below, all_held, codes_of, filled, scatter, check_below, fill, scatter_into};

verus! {

pub const POLLING: i32 = 0;
pub const PRESOLVE: i32 = 1;
pub const SIMPLEX: i32 = 2;
pub const MIP: i32 = 3;
pub const MIPSOL: i32 = 4;
pub const MIPNODE: i32 = 5;
pub const MESSAGE: i32 = 6;
pub const BARRIER: i32 = 7;

pub const PRE_COLDEL: i32 = 1000;
pub const PRE_ROWDEL: i32 = 1001;
pub const PRE_SENCHG: i32 = 1002;
pub const PRE_BNDCHG: i32 = 1003;
pub const PRE_COECHG: i32 = 1004;

pub const SPX_ITRCNT: i32 = 2000;
pub const SPX_OBJVAL: i32 = 2001;
pub const SPX_PRIMINF: i32 = 2002;
pub const SPX_DUALINF: i32 = 2003;
pub const SPX_ISPERT: i32 = 2004;

pub const MIP_OBJBST: i32 = 3000;
pub const MIP_OBJBND: i32 = 3001;
pub const MIP_NODCNT: i32 = 3002;
pub const MIP_SOLCNT: i32 = 3003;
pub const MIP_CUTCNT: i32 = 3004;
pub const MIP_NODLFT: i32 = 3005;
pub const MIP_ITRCNT: i32 = 3006;

pub const MIPSOL_SOL: i32 = 4001;
pub const MIPSOL_OBJ: i32 = 4002;
pub const MIPSOL_OBJBST: i32 = 4003;
pub const MIPSOL_OBJBND: i32 = 4004;
pub const MIPSOL_NODCNT: i32 = 4005;
pub const MIPSOL_SOLCNT: i32 = 4006;

pub const MIPNODE_STATUS: i32 = 5001;
pub const MIPNODE_REL: i32 = 5002;
pub const MIPNODE_OBJBST: i32 = 5003;
pub const MIPNODE_OBJBND: i32 = 5004;
pub const MIPNODE_NODCNT: i32 = 5005;
pub const MIPNODE_SOLCNT: i32 = 5006;

pub const MSG_STRING: i32 = 6001;
pub const RUNTIME: i32 = 6002;

pub const BARRIER_ITRCNT: i32 = 7001;
pub const BARRIER_PRIMOBJ: i32 = 7002;
pub const BARRIER_DUALOBJ: i32 = 7003;
pub const BARRIER_PRIMINF: i32 = 7004;
pub const BARRIER_DUALINF: i32 = 7005;
pub const BARRIER_COMPL: i32 = 7006;

/// Status handed back to the engine: go on solving.
pub const CONTINUE: i32 = 0;
/// Status handed back to the engine: the host asked to stop.
pub const ABORT: i32 = -1;
/// Status handed back to the engine: the callback context could not be built.
pub const CONTEXT_FAILED: i32 = -3;
/// Status handed back to the engine: the host closure terminated abnormally.
pub const BRIDGE_FAILURE: i32 = -3000;

/// The phase of the solve in which the engine invoked the callback.
#[derive(Debug, Clone, Copy, PartialEq, Eq, Structural)]
pub enum Location {
    /// Periodic polling.
    Polling,
    /// Presolve.
    PreSolve,
    /// Simplex.
    Simplex,
    /// MIP progress.
    Mip,
    /// A new MIP incumbent was found.
    MipSol,
    /// A MIP node is being explored.
    MipNode,
    /// A log message is being printed.
    Message,
    /// Barrier.
    Barrier,
}

impl Location {
    pub open spec fn spec_code(self) -> i32 {
        match self {
            Location::Polling => POLLING,
            Location::PreSolve => PRESOLVE,
            Location::Simplex => SIMPLEX,
            Location::Mip => MIP,
            Location::MipSol => MIPSOL,
            Location::MipNode => MIPNODE,
            Location::Message => MESSAGE,
            Location::Barrier => BARRIER,
        }
    }

    /// The engine's code of the location.
    pub fn code(self) -> (r: i32)
        ensures
            r == self.spec_code(),
    {
        match self {
            Location::Polling => POLLING,
            Location::PreSolve => PRESOLVE,
            Location::Simplex => SIMPLEX,
            Location::Mip => MIP,
            Location::MipSol => MIPSOL,
            Location::MipNode => MIPNODE,
            Location::Message => MESSAGE,
            Location::Barrier => BARRIER,
        }
    }

    /// The location of an engine code; `None` for a code outside the engine's set.
    pub fn from_code(code: i32) -> (r: Option<Location>)
        ensures
            r.is_some() <==> 0 <= code <= 7,
            r matches Some(l) ==> l.spec_code() == code,
    {
        match code {
            POLLING => Some(Location::Polling),
            PRESOLVE => Some(Location::PreSolve),
            SIMPLEX => Some(Location::Simplex),
            MIP => Some(Location::Mip),
            MIPSOL => Some(Location::MipSol),
            MIPNODE => Some(Location::MipNode),
            MESSAGE => Some(Location::Message),
            BARRIER => Some(Location::Barrier),
            _ => None,
        }
    }
}

/// How a queried value is to be read.
#[derive(Debug, Clone, Copy, PartialEq, Eq, Structural)]
pub enum ValueKind {
    Int,
    Double,
    Text,
}

/// One query of a value inside a callback: the location code, the code of what is asked,
/// and how the answer is to be read.
#[derive(Debug, Clone, Copy, PartialEq, Eq, Structural)]
pub struct Query {
    pub location: i32,
    pub what: i32,
    pub kind: ValueKind,
}

pub open spec fn query(location: i32, what: i32, kind: ValueKind) -> Query {
    Query { location, what, kind }
}

/// The queries that build the context of a callback at `loc`, in the order the context's
/// fields are filled.
pub open spec fn context_plan(loc: Location) -> Seq<Query> {
    match loc {
        Location::Polling => seq![],
        Location::PreSolve => seq![
            query(PRESOLVE, PRE_COLDEL, ValueKind::Int),
            query(PRESOLVE, PRE_ROWDEL, ValueKind::Int),
            query(PRESOLVE, PRE_SENCHG, ValueKind::Int),
            query(PRESOLVE, PRE_BNDCHG, ValueKind::Int),
            query(PRESOLVE, PRE_COECHG, ValueKind::Int),
        ],
        Location::Simplex => seq![
            query(SIMPLEX, SPX_ITRCNT, ValueKind::Double),
            query(SIMPLEX, SPX_OBJVAL, ValueKind::Double),
            query(SIMPLEX, SPX_PRIMINF, ValueKind::Double),
            query(SIMPLEX, SPX_DUALINF, ValueKind::Double),
            query(SIMPLEX, SPX_ISPERT, ValueKind::Int),
        ],
        Location::Mip => seq![
            query(MIP, MIP_OBJBST, ValueKind::Double),
            query(MIP, MIP_OBJBND, ValueKind::Double),
            query(MIP, MIP_NODCNT, ValueKind::Double),
            query(MIP, MIP_SOLCNT, ValueKind::Double),
            query(MIP, MIP_CUTCNT, ValueKind::Int),
            query(MIP, MIP_NODLFT, ValueKind::Double),
            query(MIP, MIP_ITRCNT, ValueKind::Double),
        ],
        Location::MipSol => seq![
            query(MIPSOL, MIPSOL_OBJ, ValueKind::Double),
            query(MIPSOL, MIPSOL_OBJBST, ValueKind::Double),
            query(MIPSOL, MIPSOL_OBJBND, ValueKind::Double),
            query(MIPSOL, MIPSOL_NODCNT, ValueKind::Double),
            query(MIPSOL, MIPSOL_SOLCNT, ValueKind::Double),
        ],
        Location::MipNode => seq![
            query(MIPNODE, MIPNODE_STATUS, ValueKind::Int),
            query(MIPNODE, MIPNODE_OBJBST, ValueKind::Double),
            query(MIPNODE, MIPNODE_OBJBND, ValueKind::Double),
            query(MIPNODE, MIPNODE_NODCNT, ValueKind::Double),
            query(MIPNODE, MIPNODE_SOLCNT, ValueKind::Int),
        ],
        Location::Message => seq![query(MESSAGE, MSG_STRING, ValueKind::Text)],
        Location::Barrier => seq![
            query(BARRIER, BARRIER_ITRCNT, ValueKind::Int),
            query(BARRIER, BARRIER_PRIMOBJ, ValueKind::Double),
            query(BARRIER, BARRIER_DUALOBJ, ValueKind::Double),
            query(BARRIER, BARRIER_PRIMINF, ValueKind::Double),
            query(BARRIER, BARRIER_DUALINF, ValueKind::Double),
            query(BARRIER, BARRIER_COMPL, ValueKind::Double),
        ],
    }
}

fn q(location: i32, what: i32, kind: ValueKind) -> (r: Query)
    ensures
        r == query(location, what, kind),
{
    Query { location, what, kind }
}

/// The queries that build the context of a callback at `loc`, exactly those and in that
/// order: none at polling, five at presolve, simplex, a new incumbent and a MIP node, seven
/// for MIP progress, one (the text) for a message and six at barrier.
pub fn context_queries(loc: Location) -> (r: Vec<Query>)
    ensures
        r@ == context_plan(loc),
{
    let r = match loc {
        Location::Polling => vec![],
        Location::PreSolve => vec![
            q(PRESOLVE, PRE_COLDEL, ValueKind::Int),
            q(PRESOLVE, PRE_ROWDEL, ValueKind::Int),
            q(PRESOLVE, PRE_SENCHG, ValueKind::Int),
            q(PRESOLVE, PRE_BNDCHG, ValueKind::Int),
            q(PRESOLVE, PRE_COECHG, ValueKind::Int),
        ],
        Location::Simplex => vec![
            q(SIMPLEX, SPX_ITRCNT, ValueKind::Double),
            q(SIMPLEX, SPX_OBJVAL, ValueKind::Double),
            q(SIMPLEX, SPX_PRIMINF, ValueKind::Double),
            q(SIMPLEX, SPX_DUALINF, ValueKind::Double),
            q(SIMPLEX, SPX_ISPERT, ValueKind::Int),
        ],
        Location::Mip => vec![
            q(MIP, MIP_OBJBST, ValueKind::Double),
            q(MIP, MIP_OBJBND, ValueKind::Double),
            q(MIP, MIP_NODCNT, ValueKind::Double),
            q(MIP, MIP_SOLCNT, ValueKind::Double),
            q(MIP, MIP_CUTCNT, ValueKind::Int),
            q(MIP, MIP_NODLFT, ValueKind::Double),
            q(MIP, MIP_ITRCNT, ValueKind::Double),
        ],
        Location::MipSol => vec![
            q(MIPSOL, MIPSOL_OBJ, ValueKind::Double),
            q(MIPSOL, MIPSOL_OBJBST, ValueKind::Double),
            q(MIPSOL, MIPSOL_OBJBND, ValueKind::Double),
            q(MIPSOL, MIPSOL_NODCNT, ValueKind::Double),
            q(MIPSOL, MIPSOL_SOLCNT, ValueKind::Double),
        ],
        Location::MipNode => vec![
            q(MIPNODE, MIPNODE_STATUS, ValueKind::Int),
            q(MIPNODE, MIPNODE_OBJBST, ValueKind::Double),
            q(MIPNODE, MIPNODE_OBJBND, ValueKind::Double),
            q(MIPNODE, MIPNODE_NODCNT, ValueKind::Double),
            q(MIPNODE, MIPNODE_SOLCNT, ValueKind::Int),
        ],
        Location::Message => vec![q(MESSAGE, MSG_STRING, ValueKind::Text)],
        Location::Barrier => vec![
            q(BARRIER, BARRIER_ITRCNT, ValueKind::Int),
            q(BARRIER, BARRIER_PRIMOBJ, ValueKind::Double),
            q(BARRIER, BARRIER_DUALOBJ, ValueKind::Double),
            q(BARRIER, BARRIER_PRIMINF, ValueKind::Double),
            q(BARRIER, BARRIER_DUALINF, ValueKind::Double),
            q(BARRIER, BARRIER_COMPL, ValueKind::Double),
        ],
    };
    proof {
        assert(r@ =~= context_plan(loc));
    }
    r
}

/// The query of the elapsed solve time at `loc`; `InvalidCallSite` at polling, where the
/// engine offers no such value.
pub fn runtime_query(loc: Location) -> (r: Result<Query, Error>)
    ensures
        loc == Location::Polling ==> r == Err::<Query, Error>(Error::InvalidCallSite),
        loc != Location::Polling ==> r == Ok::<Query, Error>(
            query(loc.spec_code(), RUNTIME, ValueKind::Double),
        ),
{
    match loc {
        Location::Polling => Err(Error::InvalidCallSite),
        _ => Ok(q(loc.code(), RUNTIME, ValueKind::Double)),
    }
}

/// The query of the node relaxation solution (at a MIP node), read as one value per
/// variable of the model.
pub fn node_rel_query() -> (r: Query)
    ensures
        r == query(MIPNODE, MIPNODE_REL, ValueKind::Double),
{
    q(MIPNODE, MIPNODE_REL, ValueKind::Double)
}

/// The query of the new incumbent (at a new MIP solution), read as one value per variable
/// of the model.
pub fn solution_query() -> (r: Query)
    ensures
        r == query(MIPSOL, MIPSOL_SOL, ValueKind::Double),
{
    q(MIPSOL, MIPSOL_SOL, ValueKind::Double)
}

/// How one invocation of the callback ended.
#[derive(Debug, Clone, Copy, PartialEq, Eq, Structural)]
pub enum CallbackOutcome {
    /// A query needed for the context failed; the host closure did not run.
    ContextFailed,
    /// The host closure returned success.
    Completed,
    /// The host closure returned an error: the host asks the engine to stop.
    Aborted,
    /// The host closure terminated abnormally; that was contained at the boundary.
    Panicked,
}

pub open spec fn outcome_status(o: CallbackOutcome) -> i32 {
    match o {
        CallbackOutcome::ContextFailed => CONTEXT_FAILED,
        CallbackOutcome::Completed => CONTINUE,
        CallbackOutcome::Aborted => ABORT,
        CallbackOutcome::Panicked => BRIDGE_FAILURE,
    }
}

/// The status handed back to the engine after one callback invocation. Each outcome has
/// its own code, so that an abort the host asked for is told apart from a host failure.
pub fn callback_status(outcome: CallbackOutcome) -> (r: i32)
    ensures
        r == outcome_status(outcome),
        forall|o: CallbackOutcome| o != outcome ==> #[trigger] outcome_status(o) != r,
{
    match outcome {
        CallbackOutcome::ContextFailed => CONTEXT_FAILED,
        CallbackOutcome::Completed => CONTINUE,
        CallbackOutcome::Aborted => ABORT,
        CallbackOutcome::Panicked => BRIDGE_FAILURE,
    }
}

impl Model {
    /// The full solution vector to hand to the engine inside a callback: `solution[i]` at
    /// the engine position of `vars[i]`, `zero` at any position not named. `vars` and
    /// `solution` must have equal lengths, at least as many entries as the model has
    /// variables, and each variable a position among them; otherwise `DimensionMismatch`.
    pub fn solution_vector<T: Copy>(&self, vars: &[Var], solution: &[T], zero: T) -> (r: Result<
        Vec<T>,
        Error,
    >)
        requires
            all_held(self, vars@),
        ensures
            r.is_ok() <==> {
                &&& vars@.len() == solution@.len()
                &&& vars@.len() >= self.count(EntityKind::Var)
                &&& all_below(codes_of(self, vars@), self.count(EntityKind::Var) as int)
            },
            r matches Ok(v) ==> v@ == scatter(
                filled(self.count(EntityKind::Var), zero),
                codes_of(self, vars@),
                solution@,
            ),
            r matches Err(e) ==> e == Error::DimensionMismatch,
    {
        let n = self.num(EntityKind::Var);
        if vars.len() != solution.len() || vars.len() < n {
            return Err(Error::DimensionMismatch);
        }
        let ind = self.indices_of(vars);
        if !check_below(&ind, n) {
            return Err(Error::DimensionMismatch);
        }
        Ok(scatter_into(fill(n, zero), &ind, solution))
    }

    /// The values of `vars`, in order, picked from `dense`, which holds one value per engine
    /// position; `DimensionMismatch` when a variable's code is not a position of `dense`.
    pub fn select_values<T: Copy>(&self, vars: &[Var], dense: &[T]) -> (r: Result<Vec<T>, Error>)
        requires
            all_held(self, vars@),
        ensures
            r.is_ok() <==> all_below(codes_of(self, vars@), dense@.len() as int),
            r matches Ok(v) ==> v@.len() == vars@.len() && forall|i: int|
                0 <= i < vars@.len() ==> #[trigger] v@[i] == dense@[codes_of(self, vars@)[i] as int],
            r matches Err(e) ==> e == Error::DimensionMismatch,
    {
        let ind = self.indices_of(vars);
        if !check_below(&ind, dense.len()) {
            return Err(Error::DimensionMismatch);
        }
        let mut r: Vec<T> = Vec::new();
        let mut i: usize = 0;
        while i < ind.len()
            invariant
                ind@ == codes_of(self, vars@),
                all_below(ind@, dense@.len() as int),
                0 <= i <= ind@.len(),
                r@.len() == i,
                forall|t: int| 0 <= t < i ==> #[trigger] r@[t] == dense@[ind@[t] as int],
            decreases ind@.len() - i,
        {
            r.push(dense[ind[i] as usize]);
            i += 1;
        }
        Ok(r)
    }
}

} // verus!

//! Entity bookkeeping and callback protocol for a handle-based optimization engine.
//!
//! The library keeps, for each kind of entity (variables, linear constraints, quadratic
//! constraints and SOS constraints), the handles that the host holds and the engine-side
//! position each one stands for. It decides what the engine must be told (which indices to
//! delete, which positions to read or write) and records what the engine accepted. The
//! calls into the engine itself are made by the caller.
mod callback;
mod error;
mod handle;
mod laws;
mod model;
mod registry;
mod types;
mod wire;

pub use callback::{
    callback_status, context_plan, context_queries, node_rel_query, outcome_status, query,
    runtime_query, solution_query, CallbackOutcome, Location, Query, ValueKind,
};
pub use error::{check_status, Error};
pub use handle::{EntityKind, Handle, Proxy, Var, Constr, QConstr, SOS};
pub use laws::{
    law_copies_agree, law_unflushed_removal_never_reaches_engine, law_update_idempotent,
    law_update_renumbers,
};
pub use model::{call_if_any, delete_order, Model, UpdatePlan};
pub use types::{ConstrSense, ModelSense, RelaxType, SOSType, Status, VarType};
pub use registry::{
    code_fits, deletions, fresh_codes, fresh_keys, kept, marked_dead, reconciled, removal_code,
    Registry,
};
pub use wire::{
    all_below, all_held, all_placed, codes_of, filled, flatten, inner_views, row_codes,
    row_starts, rows_held, rows_match, rows_placed, scatter, Csr, ElementQuery, ElementUpdate,
    ListQuery, ListUpdate, Penalties,
};

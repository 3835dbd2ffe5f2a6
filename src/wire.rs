use vstd::prelude::*;

use crate::error::Error;
use crate::handle::{Constr, EntityKind, Handle, Proxy, Var};
use crate::model::Model;
use crate::types::{ConstrSense, VarType};

verus! {

/// The codes that the handles `hs` read in `m`, in order.
pub open spec fn codes_of<P: Handle>(m: &Model, hs: Seq<P>) -> Seq<i32> {
    Seq::new(hs.len(), |i: int| m.index_of(hs[i].handle()))
}

/// Whether every handle of `hs` belongs to `m`.
pub open spec fn all_held<P: Handle>(m: &Model, hs: Seq<P>) -> bool {
    forall|i: int| 0 <= i < hs.len() ==> m.holds(#[trigger] hs[i].handle())
}

/// Whether every code is an engine position.
pub open spec fn all_placed(codes: Seq<i32>) -> bool {
    forall|i: int| 0 <= i < codes.len() ==> #[trigger] codes[i] >= 0
}

/// The rows one after the other.
pub open spec fn flatten<T>(rows: Seq<Seq<T>>) -> Seq<T>
    decreases rows.len(),
{
    if rows.len() == 0 {
        Seq::empty()
    } else {
        flatten(rows.drop_last()) + rows.last()
    }
}

/// Start of each row in `flatten(rows)`.
pub open spec fn row_starts<T>(rows: Seq<Seq<T>>) -> Seq<int> {
    Seq::new(rows.len(), |i: int| flatten(rows.take(i)).len() as int)
}

/// Views of the inner vectors.
pub open spec fn inner_views<T>(rows: Seq<Vec<T>>) -> Seq<Seq<T>> {
    Seq::new(rows.len(), |i: int| rows[i]@)
}

/// Codes of the handles of each row.
pub open spec fn row_codes<P: Handle>(m: &Model, rows: Seq<Vec<P>>) -> Seq<Seq<i32>> {
    Seq::new(rows.len(), |i: int| codes_of(m, rows[i]@))
}

/// Whether each row of handles has as many entries as its row of values.
pub open spec fn rows_match<P, T>(hs: Seq<Vec<P>>, vals: Seq<Vec<T>>) -> bool {
    &&& hs.len() == vals.len()
    &&& forall|i: int| 0 <= i < hs.len() ==> (#[trigger] hs[i])@.len() == vals[i]@.len()
}

/// Whether every row of handles belongs to `m`.
pub open spec fn rows_held<P: Handle>(m: &Model, rows: Seq<Vec<P>>) -> bool {
    forall|i: int| 0 <= i < rows.len() ==> all_held(m, (#[trigger] rows[i])@)
}

/// Whether every code of every row is an engine position.
pub open spec fn rows_placed<P: Handle>(m: &Model, rows: Seq<Vec<P>>) -> bool {
    forall|i: int| 0 <= i < rows.len() ==> all_placed(codes_of(m, (#[trigger] rows[i])@))
}

/// Whether every code is a position below `n`.
pub open spec fn all_below(codes: Seq<i32>, n: int) -> bool {
    forall|i: int| 0 <= i < codes.len() ==> 0 <= #[trigger] codes[i] < n
}

/// `base` with `vals[i]` written at position `at[i]`, for each `i` in order (a later write
/// to the same position wins).
pub open spec fn scatter<T>(base: Seq<T>, at: Seq<i32>, vals: Seq<T>) -> Seq<T>
    decreases at.len(),
{
    if at.len() == 0 {
        base
    } else {
        let n = at.len() - 1;
        scatter(base, at.drop_last(), vals).update(at[n] as int, vals[n])
    }
}

/// `n` copies of `v`.
pub open spec fn filled<T>(n: nat, v: T) -> Seq<T> {
    Seq::new(n, |i: int| v)
}

/// The penalty arrays of a feasibility relaxation, one entry per variable (lower and upper
/// bound) and per linear constraint, in engine order.
pub struct Penalties<T> {
    pub lb: Vec<T>,
    pub ub: Vec<T>,
    pub rhs: Vec<T>,
}

/// `n` copies of `v`.
pub(crate) fn fill<T: Copy>(n: usize, v: T) -> (r: Vec<T>)
    ensures
        r@ == filled(n as nat, v),
{
    let mut r: Vec<T> = Vec::new();
    let mut i: usize = 0;
    while i < n
        invariant
            0 <= i <= n,
            r@ == filled(i as nat, v),
        decreases n - i,
    {
        r.push(v);
        i += 1;
        proof {
            assert(r@ =~= filled(i as nat, v));
        }
    }
    r
}

/// Whether all codes lie below `n`; see `all_below`.
pub(crate) fn check_below(codes: &Vec<i32>, n: usize) -> (r: bool)
    ensures
        r == all_below(codes@, n as int),
{
    let mut i: usize = 0;
    while i < codes.len()
        invariant
            0 <= i <= codes@.len(),
            forall|t: int| 0 <= t < i ==> 0 <= #[trigger] codes@[t] < n,
        decreases codes@.len() - i,
    {
        if codes[i] < 0 || codes[i] as usize >= n {
            return false;
        }
        i += 1;
    }
    true
}

/// Writes `vals[i]` at `at[i]` in `base`, in order.
pub(crate) fn scatter_into<T: Copy>(base: Vec<T>, at: &Vec<i32>, vals: &[T]) -> (r: Vec<T>)
    requires
        at@.len() == vals@.len(),
        all_below(at@, base@.len() as int),
    ensures
        r@ == scatter(base@, at@, vals@),
{
    let ghost b = base@;
    let mut buf = base;
    let mut i: usize = 0;
    while i < at.len()
        invariant
            at@.len() == vals@.len(),
            all_below(at@, b.len() as int),
            0 <= i <= at@.len(),
            buf@ == scatter(b, at@.take(i as int), vals@),
            buf@.len() == b.len(),
        decreases at@.len() - i,
    {
        let pos = at[i] as usize;
        buf[pos] = vals[i];
        proof {
            assert(at@.take(i + 1).drop_last() =~= at@.take(i as int));
            assert(at@.take(i + 1)[i as int] == at@[i as int]);
        }
        i += 1;
    }
    proof {
        assert(at@.take(at@.len() as int) =~= at@);
    }
    buf
}

/// A sparse matrix in the engine's flat layout: row `i` holds the entries
/// `beg[i] .. beg[i + 1]` (or to the end) of `ind` and `val`.
pub struct Csr<T> {
    pub beg: Vec<i32>,
    pub ind: Vec<i32>,
    pub val: Vec<T>,
}

impl<T> Csr<T> {
    /// Whether this is the flat layout of the given rows of indices and values.
    pub open spec fn lays_out(&self, inds: Seq<Seq<i32>>, vals: Seq<Seq<T>>) -> bool {
        &&& self.beg@.len() == inds.len()
        &&& forall|i: int| 0 <= i < inds.len() ==> #[trigger] self.beg@[i] == row_starts(inds)[i]
        &&& self.ind@ == flatten(inds)
        &&& self.val@ == flatten(vals)
    }
}

impl Proxy {
    /// Request to read attribute `attr` of the entity; `DimensionMismatch` when it has no
    /// engine position.
    pub fn get<A>(&self, model: &Model, attr: A) -> (r: Result<ElementQuery<A>, Error>)
        requires
            model.holds(*self),
        ensures
            r.is_ok() <==> model.index_of(*self) >= 0,
            r matches Ok(q) ==> q.attr == attr && q.element == model.index_of(*self),
            r matches Err(e) ==> e == Error::DimensionMismatch,
    {
        let element = model.index_of_proxy(*self);
        if element < 0 {
            return Err(Error::DimensionMismatch);
        }
        Ok(ElementQuery { attr, element })
    }

    /// Request to write `value` to attribute `attr` of the entity; `DimensionMismatch` when
    /// it has no engine position. After the engine applied it, the model is to be
    /// reconciled (`update`).
    pub fn set<A, V>(&self, model: &Model, attr: A, value: V) -> (r: Result<
        ElementUpdate<A, V>,
        Error,
    >)
        requires
            model.holds(*self),
        ensures
            r.is_ok() <==> model.index_of(*self) >= 0,
            r matches Ok(q) ==> q.attr == attr && q.element == model.index_of(*self) && q.value
                == value,
            r matches Err(e) ==> e == Error::DimensionMismatch,
    {
        let element = model.index_of_proxy(*self);
        if element < 0 {
            return Err(Error::DimensionMismatch);
        }
        Ok(ElementUpdate { attr, element, value })
    }
}

/// A request to read an attribute of one entity at its engine position.
pub struct ElementQuery<A> {
    pub attr: A,
    pub element: i32,
}

/// A request to write an attribute of one entity at its engine position.
pub struct ElementUpdate<A, V> {
    pub attr: A,
    pub element: i32,
    pub value: V,
}

/// A request to read an attribute of several entities at their engine positions.
pub struct ListQuery<A> {
    pub attr: A,
    pub indices: Vec<i32>,
}

/// A request to write an attribute of several entities at their engine positions.
pub struct ListUpdate<A, V> {
    pub attr: A,
    pub indices: Vec<i32>,
    pub values: Vec<V>,
}

proof fn lemma_flatten_push<T>(rows: Seq<Seq<T>>, i: int)
    requires
        0 <= i < rows.len(),
    ensures
        flatten(rows.take(i + 1)) == flatten(rows.take(i)) + rows[i],
{
    assert(rows.take(i + 1).drop_last() =~= rows.take(i));
}

/// Copies `vals` into a new vector.
fn copy_all<T: Copy>(vals: &[T]) -> (r: Vec<T>)
    ensures
        r@ == vals@,
{
    let mut r: Vec<T> = Vec::new();
    let mut i: usize = 0;
    while i < vals.len()
        invariant
            0 <= i <= vals@.len(),
            r@ == vals@.take(i as int),
        decreases vals@.len() - i,
    {
        r.push(vals[i]);
        i += 1;
        proof {
            assert(r@ =~= vals@.take(i as int));
        }
    }
    proof {
        assert(vals@.take(vals@.len() as int) =~= vals@);
    }
    r
}

impl Model {
    /// Whether `p` refers to an entity of this model.
    pub fn holds_proxy(&self, p: Proxy) -> (r: bool)
        ensures
            r == self.holds(p),
    {
        p.key_of() < self.num_cells(p.kind_of())
    }

    /// Whether every handle of `items` refers to an entity of this model.
    pub fn holds_all<P: Handle>(&self, items: &[P]) -> (r: bool)
        ensures
            r == all_held(self, items@),
    {
        let mut i: usize = 0;
        while i < items.len()
            invariant
                0 <= i <= items@.len(),
                all_held(self, items@.take(i as int)),
            decreases items@.len() - i,
        {
            if !self.holds_proxy(items[i].proxy()) {
                assert(!all_held(self, items@)) by {
                    assert(!self.holds(items@[i as int].handle()));
                }
                return false;
            }
            i += 1;
            proof {
                assert forall|t: int| 0 <= t < i implies self.holds(
                    #[trigger] items@.take(i as int)[t].handle(),
                ) by {
                    if t < i - 1 {
                        assert(items@.take(i as int)[t] == items@.take(i - 1)[t]);
                    }
                }
            }
        }
        proof {
            assert(items@.take(items@.len() as int) =~= items@);
        }
        true
    }

    /// Whether every row of handles refers to entities of this model only, and how many
    /// handles the rows hold together when that count is at most `i32::MAX`.
    pub fn rows_in_model<P: Handle>(&self, rows: &[Vec<P>]) -> (r: Option<usize>)
        ensures
            r.is_some() <==> rows_held(self, rows@) && flatten(inner_views(rows@)).len()
                <= i32::MAX,
            r matches Some(n) ==> n == flatten(inner_views(rows@)).len(),
    {
        let ghost hs = inner_views(rows@);
        let mut total: usize = 0;
        let mut i: usize = 0;
        while i < rows.len()
            invariant
                hs == inner_views(rows@),
                0 <= i <= rows@.len(),
                rows_held(self, rows@.take(i as int)),
                total == flatten(hs.take(i as int)).len(),
                total <= i32::MAX,
            decreases rows@.len() - i,
        {
            proof {
                lemma_flatten_push(hs, i as int);
            }
            if !self.holds_all(rows[i].as_slice()) {
                assert(!rows_held(self, rows@)) by {
                    assert(!all_held(self, rows@[i as int]@));
                }
                return None;
            }
            let len = rows[i].len();
            if len > i32::MAX as usize - total {
                proof {
                    lemma_flatten_prefix_len(hs, i + 1);
                }
                return None;
            }
            total = total + len;
            i += 1;
            proof {
                assert forall|t: int| 0 <= t < i implies all_held(
                    self,
                    (#[trigger] rows@.take(i as int)[t])@,
                ) by {
                    if t < i - 1 {
                        assert(rows@.take(i as int)[t] == rows@.take(i - 1)[t]);
                    }
                }
            }
        }
        proof {
            assert(rows@.take(rows@.len() as int) =~= rows@);
            assert(hs.take(hs.len() as int) =~= hs);
        }
        Some(total)
    }

    /// The codes of `items`, in order.
    pub fn indices_of<P: Handle>(&self, items: &[P]) -> (r: Vec<i32>)
        requires
            all_held(self, items@),
        ensures
            r@ == codes_of(self, items@),
    {
        let mut r: Vec<i32> = Vec::new();
        let mut i: usize = 0;
        while i < items.len()
            invariant
                all_held(self, items@),
                0 <= i <= items@.len(),
                r@ == codes_of(self, items@).take(i as int),
            decreases items@.len() - i,
        {
            let code = self.index_of_proxy(items[i].proxy());
            r.push(code);
            i += 1;
            proof {
                assert(r@ =~= codes_of(self, items@).take(i as int));
            }
        }
        proof {
            assert(codes_of(self, items@).take(items@.len() as int) =~= codes_of(self, items@));
        }
        r
    }

    /// The engine positions of `items`, in order; `DimensionMismatch` when one of them has
    /// none (its code is negative).
    pub fn positions_of<P: Handle>(&self, items: &[P]) -> (r: Result<Vec<i32>, Error>)
        requires
            all_held(self, items@),
        ensures
            r.is_ok() <==> all_placed(codes_of(self, items@)),
            r matches Ok(v) ==> v@ == codes_of(self, items@),
            r matches Err(e) ==> e == Error::DimensionMismatch,
    {
        let r = self.indices_of(items);
        let mut i: usize = 0;
        while i < r.len()
            invariant
                r@ == codes_of(self, items@),
                0 <= i <= r@.len(),
                forall|t: int| 0 <= t < i ==> #[trigger] r@[t] >= 0,
            decreases r@.len() - i,
        {
            if r[i] < 0 {
                return Err(Error::DimensionMismatch);
            }
            i += 1;
        }
        Ok(r)
    }

    /// Request to read attribute `attr` of `items`; `DimensionMismatch` when one of them
    /// has no engine position.
    pub fn get_values<A, P: Handle>(&self, attr: A, items: &[P]) -> (r: Result<ListQuery<A>, Error>)
        requires
            all_held(self, items@),
        ensures
            r.is_ok() <==> all_placed(codes_of(self, items@)),
            r matches Ok(q) ==> q.attr == attr && q.indices@ == codes_of(self, items@),
            r matches Err(e) ==> e == Error::DimensionMismatch,
    {
        match self.positions_of(items) {
            Ok(indices) => Ok(ListQuery { attr, indices }),
            Err(e) => Err(e),
        }
    }

    /// Request to write `values` to attribute `attr` of `items`, one each;
    /// `DimensionMismatch` when the lengths differ or one of the items has no engine
    /// position. After the engine applied it, the model is to be reconciled (`update`).
    pub fn set_values<A, P: Handle, V: Copy>(&self, attr: A, items: &[P], values: &[V]) -> (r:
        Result<ListUpdate<A, V>, Error>)
        requires
            all_held(self, items@),
        ensures
            r.is_ok() <==> items@.len() == values@.len() && all_placed(codes_of(self, items@)),
            r matches Ok(q) ==> q.attr == attr && q.indices@ == codes_of(self, items@)
                && q.values@ == values@,
            r matches Err(e) ==> e == Error::DimensionMismatch,
    {
        if items.len() != values.len() {
            return Err(Error::DimensionMismatch);
        }
        match self.positions_of(items) {
            Ok(indices) => Ok(ListUpdate { attr, indices, values: copy_all(values) }),
            Err(e) => Err(e),
        }
    }

    /// The column of a new variable: the engine positions of the constraints it enters,
    /// with their coefficients. `DimensionMismatch` when the lengths differ or one of the
    /// constraints has no engine position.
    pub fn var_column<T: Copy>(&self, colconstrs: &[Constr], colvals: &[T]) -> (r: Result<
        (Vec<i32>, Vec<T>),
        Error,
    >)
        requires
            all_held(self, colconstrs@),
        ensures
            r.is_ok() <==> colconstrs@.len() == colvals@.len() && all_placed(
                codes_of(self, colconstrs@),
            ),
            r matches Ok(c) ==> c.0@ == codes_of(self, colconstrs@) && c.1@ == colvals@,
            r matches Err(e) ==> e == Error::DimensionMismatch,
    {
        if colconstrs.len() != colvals.len() {
            return Err(Error::DimensionMismatch);
        }
        match self.positions_of(colconstrs) {
            Ok(ind) => Ok((ind, copy_all(colvals))),
            Err(e) => Err(e),
        }
    }

    /// The columns of new variables in the engine's flat layout. The seven arrays describe
    /// one variable per entry and must have equal lengths; each column's constraints and
    /// coefficients must have equal lengths, and each of those constraints must belong to
    /// the model and have an engine position; the columns hold at most `i32::MAX` entries
    /// together. Otherwise `DimensionMismatch`, before anything reaches the engine.
    pub fn var_columns<T: Copy>(
        &self,
        names: &[&str],
        vtypes: &[VarType],
        objs: &[T],
        lbs: &[T],
        ubs: &[T],
        colconstrs: &[Vec<Constr>],
        colvals: &[Vec<T>],
    ) -> (r: Result<Csr<T>, Error>)
        ensures
            r.is_ok() <==> {
                &&& names@.len() == vtypes@.len()
                &&& vtypes@.len() == objs@.len()
                &&& objs@.len() == lbs@.len()
                &&& lbs@.len() == ubs@.len()
                &&& ubs@.len() == colconstrs@.len()
                &&& rows_held(self, colconstrs@)
                &&& flatten(inner_views(colconstrs@)).len() <= i32::MAX
                &&& rows_match(colconstrs@, colvals@)
                &&& rows_placed(self, colconstrs@)
            },
            r matches Ok(c) ==> c.lays_out(row_codes(self, colconstrs@), inner_views(colvals@)),
            r matches Err(e) ==> e == Error::DimensionMismatch,
    {
        if names.len() != vtypes.len() || vtypes.len() != objs.len() || objs.len() != lbs.len()
            || lbs.len() != ubs.len() || ubs.len() != colconstrs.len() || colconstrs.len()
            != colvals.len() {
            return Err(Error::DimensionMismatch);
        }
        if self.rows_in_model(colconstrs).is_none() {
            return Err(Error::DimensionMismatch);
        }
        self.layout(colconstrs, colvals)
    }

    /// The rows of new linear constraints in the engine's flat layout, each row the
    /// variables of its expression with their coefficients. The five arrays describe one
    /// constraint per entry and must have equal lengths, and each row's variables and
    /// coefficients too; each variable must belong to the model and have an engine
    /// position, and the rows hold at most `i32::MAX` entries together. Otherwise
    /// `DimensionMismatch`, before anything reaches the engine.
    pub fn constr_rows<T: Copy>(
        &self,
        names: &[&str],
        rows: &[Vec<Var>],
        coeffs: &[Vec<T>],
        senses: &[ConstrSense],
        rhs: &[T],
    ) -> (r: Result<Csr<T>, Error>)
        ensures
            r.is_ok() <==> {
                &&& names@.len() == rows@.len()
                &&& senses@.len() == rows@.len()
                &&& rhs@.len() == rows@.len()
                &&& rows_held(self, rows@)
                &&& flatten(inner_views(rows@)).len() <= i32::MAX
                &&& rows_match(rows@, coeffs@)
                &&& rows_placed(self, rows@)
            },
            r matches Ok(c) ==> c.lays_out(row_codes(self, rows@), inner_views(coeffs@)),
            r matches Err(e) ==> e == Error::DimensionMismatch,
    {
        if names.len() != rows.len() || senses.len() != rows.len() || rhs.len() != rows.len()
            || coeffs.len() != rows.len() {
            return Err(Error::DimensionMismatch);
        }
        if self.rows_in_model(rows).is_none() {
            return Err(Error::DimensionMismatch);
        }
        self.layout(rows, coeffs)
    }

    /// The rows of new range constraints in the engine's flat layout: as `constr_rows`,
    /// with a lower and an upper bound per row in place of a sense and a right-hand side.
    pub fn range_rows<T: Copy>(
        &self,
        names: &[&str],
        rows: &[Vec<Var>],
        coeffs: &[Vec<T>],
        lbs: &[T],
        ubs: &[T],
    ) -> (r: Result<Csr<T>, Error>)
        ensures
            r.is_ok() <==> {
                &&& names@.len() == rows@.len()
                &&& lbs@.len() == rows@.len()
                &&& ubs@.len() == rows@.len()
                &&& rows_held(self, rows@)
                &&& flatten(inner_views(rows@)).len() <= i32::MAX
                &&& rows_match(rows@, coeffs@)
                &&& rows_placed(self, rows@)
            },
            r matches Ok(c) ==> c.lays_out(row_codes(self, rows@), inner_views(coeffs@)),
            r matches Err(e) ==> e == Error::DimensionMismatch,
    {
        if names.len() != rows.len() || lbs.len() != rows.len() || ubs.len() != rows.len()
            || coeffs.len() != rows.len() {
            return Err(Error::DimensionMismatch);
        }
        if self.rows_in_model(rows).is_none() {
            return Err(Error::DimensionMismatch);
        }
        self.layout(rows, coeffs)
    }

    /// The engine positions of the members of a new SOS constraint; `DimensionMismatch`
    /// when `vars` and `weights` differ in length or a member has no engine position.
    pub fn sos_members<T>(&self, vars: &[Var], weights: &[T]) -> (r: Result<Vec<i32>, Error>)
        requires
            all_held(self, vars@),
        ensures
            r.is_ok() <==> vars@.len() == weights@.len() && all_placed(codes_of(self, vars@)),
            r matches Ok(v) ==> v@ == codes_of(self, vars@),
            r matches Err(e) ==> e == Error::DimensionMismatch,
    {
        if vars.len() != weights.len() {
            return Err(Error::DimensionMismatch);
        }
        self.positions_of(vars)
    }

    /// The engine position of the variable that gets a piecewise-linear objective through
    /// the points `(x[i], y[i])`; `DimensionMismatch` when `x` and `y` differ in length or
    /// the variable has no engine position.
    pub fn pwl_target<T>(&self, var: &Var, x: &[T], y: &[T]) -> (r: Result<i32, Error>)
        requires
            self.holds(var.handle()),
        ensures
            r.is_ok() <==> x@.len() == y@.len() && self.index_of(var.handle()) >= 0,
            r matches Ok(c) ==> c == self.index_of(var.handle()),
            r matches Err(e) ==> e == Error::DimensionMismatch,
    {
        if x.len() != y.len() {
            return Err(Error::DimensionMismatch);
        }
        let col = self.index_of_proxy(var.proxy());
        if col < 0 {
            return Err(Error::DimensionMismatch);
        }
        Ok(col)
    }

    /// The (constraint, variable) engine positions of a batch of coefficient changes, one
    /// per value; `DimensionMismatch` when the three lengths differ or an entity has no
    /// engine position.
    pub fn coeff_targets<T>(&self, vars: &[Var], constrs: &[Constr], values: &[T]) -> (r: Result<
        (Vec<i32>, Vec<i32>),
        Error,
    >)
        requires
            all_held(self, vars@),
            all_held(self, constrs@),
        ensures
            r.is_ok() <==> vars@.len() == values@.len() && constrs@.len() == values@.len()
                && all_placed(codes_of(self, constrs@)) && all_placed(codes_of(self, vars@)),
            r matches Ok(t) ==> t.0@ == codes_of(self, constrs@) && t.1@ == codes_of(self, vars@),
            r matches Err(e) ==> e == Error::DimensionMismatch,
    {
        if vars.len() != values.len() || constrs.len() != values.len() {
            return Err(Error::DimensionMismatch);
        }
        let rows = match self.positions_of(constrs) {
            Ok(rows) => rows,
            Err(e) => {
                return Err(e);
            },
        };
        let cols = match self.positions_of(vars) {
            Ok(cols) => cols,
            Err(e) => {
                return Err(e);
            },
        };
        Ok((rows, cols))
    }

    /// The penalty arrays of a feasibility relaxation: each variable's lower and upper
    /// bound penalty and each linear constraint's right-hand-side penalty at its engine
    /// position, `unbounded` (no violation allowed) elsewhere. `DimensionMismatch` when the
    /// parallel arrays differ in length or one of the entities has no position in the
    /// model's sequence.
    pub fn relaxation_penalties<T: Copy>(
        &self,
        vars: &[Var],
        lbpen: &[T],
        ubpen: &[T],
        constrs: &[Constr],
        rhspen: &[T],
        unbounded: T,
    ) -> (r: Result<Penalties<T>, Error>)
        requires
            all_held(self, vars@),
            all_held(self, constrs@),
        ensures
            r.is_ok() <==> {
                &&& vars@.len() == lbpen@.len()
                &&& vars@.len() == ubpen@.len()
                &&& constrs@.len() == rhspen@.len()
                &&& all_below(codes_of(self, vars@), self.count(EntityKind::Var) as int)
                &&& all_below(codes_of(self, constrs@), self.count(EntityKind::Constr) as int)
            },
            r matches Ok(p) ==> {
                &&& p.lb@ == scatter(
                    filled(self.count(EntityKind::Var), unbounded),
                    codes_of(self, vars@),
                    lbpen@,
                )
                &&& p.ub@ == scatter(
                    filled(self.count(EntityKind::Var), unbounded),
                    codes_of(self, vars@),
                    ubpen@,
                )
                &&& p.rhs@ == scatter(
                    filled(self.count(EntityKind::Constr), unbounded),
                    codes_of(self, constrs@),
                    rhspen@,
                )
            },
            r matches Err(e) ==> e == Error::DimensionMismatch,
    {
        if vars.len() != lbpen.len() || vars.len() != ubpen.len() || constrs.len() != rhspen.len() {
            return Err(Error::DimensionMismatch);
        }
        let nvars = self.num(EntityKind::Var);
        let nconstrs = self.num(EntityKind::Constr);
        let vind = self.indices_of(vars);
        let cind = self.indices_of(constrs);
        if !check_below(&vind, nvars) || !check_below(&cind, nconstrs) {
            return Err(Error::DimensionMismatch);
        }
        let lb = scatter_into(fill(nvars, unbounded), &vind, lbpen);
        let ub = scatter_into(fill(nvars, unbounded), &vind, ubpen);
        let rhs = scatter_into(fill(nconstrs, unbounded), &cind, rhspen);
        Ok(Penalties { lb, ub, rhs })
    }

    /// Flat layout of rows of handles and values. `DimensionMismatch` when a row of handles
    /// and its row of values differ in length, or a handle has no engine position.
    fn layout<P: Handle, T: Copy>(&self, rows: &[Vec<P>], vals: &[Vec<T>]) -> (r:
        Result<Csr<T>, Error>)
        requires
            rows@.len() == vals@.len(),
            rows_held(self, rows@),
            flatten(inner_views(rows@)).len() <= i32::MAX,
        ensures
            r.is_ok() <==> rows_match(rows@, vals@) && rows_placed(self, rows@),
            r matches Ok(c) ==> c.lays_out(row_codes(self, rows@), inner_views(vals@)),
            r matches Err(e) ==> e == Error::DimensionMismatch,
    {
        let ghost codes = row_codes(self, rows@);
        let ghost vs = inner_views(vals@);
        let ghost hs = inner_views(rows@);
        let mut beg: Vec<i32> = Vec::new();
        let mut ind: Vec<i32> = Vec::new();
        let mut val: Vec<T> = Vec::new();
        let mut i: usize = 0;
        while i < rows.len()
            invariant
                rows@.len() == vals@.len(),
                rows_held(self, rows@),
                flatten(hs).len() <= i32::MAX,
                codes == row_codes(self, rows@),
                vs == inner_views(vals@),
                hs == inner_views(rows@),
                0 <= i <= rows@.len(),
                rows_match(rows@.take(i as int), vals@.take(i as int)),
                rows_placed(self, rows@.take(i as int)),
                beg@.len() == i,
                forall|t: int| 0 <= t < i ==> #[trigger] beg@[t] == row_starts(codes)[t],
                ind@ == flatten(codes.take(i as int)),
                val@ == flatten(vs.take(i as int)),
                flatten(codes.take(i as int)).len() == flatten(hs.take(i as int)).len(),
            decreases rows@.len() - i,
        {
            let row = &rows[i];
            let rvals = &vals[i];
            if row.len() != rvals.len() {
                return Err(Error::DimensionMismatch);
            }
            let codes_i = match self.positions_of(row.as_slice()) {
                Ok(c) => c,
                Err(e) => {
                    return Err(e);
                },
            };
            proof {
                lemma_flatten_push(codes, i as int);
                lemma_flatten_push(vs, i as int);
                lemma_flatten_push(hs, i as int);
                lemma_flatten_prefix_len(hs, i as int + 1);
                assert(codes[i as int] == codes_i@);
            }
            beg.push(ind.len() as i32);
            let mut j: usize = 0;
            while j < codes_i.len()
                invariant
                    0 <= j <= codes_i@.len(),
                    codes_i@.len() == rvals@.len(),
                    ind@ == flatten(codes.take(i as int)) + codes_i@.take(j as int),
                    val@ == flatten(vs.take(i as int)) + rvals@.take(j as int),
                decreases codes_i@.len() - j,
            {
                ind.push(codes_i[j]);
                val.push(rvals[j]);
                j += 1;
                proof {
                    assert(ind@ =~= flatten(codes.take(i as int)) + codes_i@.take(j as int));
                    assert(val@ =~= flatten(vs.take(i as int)) + rvals@.take(j as int));
                }
            }
            proof {
                assert(codes_i@.take(j as int) =~= codes_i@);
                assert(rvals@.take(j as int) =~= rvals@);
                assert(rows@.take(i + 1).drop_last() =~= rows@.take(i as int));
                assert(vals@.take(i + 1).drop_last() =~= vals@.take(i as int));
                assert forall|t: int| 0 <= t < i + 1 implies (#[trigger] rows@.take(i + 1)[t])@.len()
                    == vals@.take(i + 1)[t]@.len() by {
                    if t < i {
                        assert(rows@.take(i as int)[t] == rows@.take(i + 1)[t]);
                    }
                }
                assert forall|t: int| 0 <= t < i + 1 implies all_placed(
                    codes_of(self, (#[trigger] rows@.take(i + 1)[t])@),
                ) by {
                    if t < i {
                        assert(rows@.take(i as int)[t] == rows@.take(i + 1)[t]);
                    }
                }
            }
            i += 1;
        }
        proof {
            assert(rows@.take(rows@.len() as int) =~= rows@);
            assert(vals@.take(vals@.len() as int) =~= vals@);
            assert(codes.take(codes.len() as int) =~= codes);
            assert(vs.take(vs.len() as int) =~= vs);
        }
        Ok(Csr { beg, ind, val })
    }
}

/// The flattened prefix of `rows` is no longer than the whole.
proof fn lemma_flatten_prefix_len<T>(rows: Seq<Seq<T>>, n: int)
    requires
        0 <= n <= rows.len(),
    ensures
        flatten(rows.take(n)).len() <= flatten(rows).len(),
    decreases rows.len() - n,
{
    if n < rows.len() {
        lemma_flatten_push(rows, n);
        lemma_flatten_prefix_len(rows, n + 1);
    } else {
        assert(rows.take(n) =~= rows);
    }
}

} // verus!

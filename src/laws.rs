use vstd::prelude::*;

use crate::handle::{EntityKind, Proxy};
use crate::model::{delete_order, Model, UpdatePlan};
use crate::registry::{
    deletions, kept, lemma_all_active, lemma_deletions_skip_unflushed, lemma_kept_marked,
    marked_dead, reconciled, removal_code,
};

verus! {

/// After a reconciliation (`update`, then `rearrange` once the engine committed), every
/// handle to an entity left in its kind's sequence reads its position in that sequence,
/// and the sequence is the former one without the entities that were dead or marked for
/// removal; every other handle reads `-2`.
pub proof fn law_update_renumbers(before: &Model, marked: &Model, after: &Model)
    requires
        before.wf(),
        forall|k: EntityKind|
            #![trigger marked.registry(k)]
            marked.registry(k).live() == before.registry(k).live() && marked.registry(k).cells()
                == marked_dead(before.registry(k).cells()),
        forall|k: EntityKind| reconciled(marked.registry(k), #[trigger] after.registry(k)),
    ensures
        forall|k: EntityKind|
            #[trigger] after.registry(k).live() == kept(
                before.registry(k).live(),
                before.registry(k).cells(),
            ),
        forall|h: Proxy, p: int|
            #![trigger after.registry(h.kind()).live()[p], after.index_of(h)]
            0 <= p < after.count(h.kind()) && h.key() == after.registry(h.kind()).live()[p]
                ==> after.index_of(h) == p,
        forall|h: Proxy|
            after.holds(h) && !after.registry(h.kind()).live().contains(h.key())
                ==> #[trigger] after.index_of(h) == -2,
{
    assert forall|k: EntityKind|
        #[trigger] after.registry(k).live() == kept(
            before.registry(k).live(),
            before.registry(k).cells(),
        ) by {
        let b = before.registry(k);
        assert(b.wf());
        assert(marked.registry(k).live() == b.live());
        assert(reconciled(marked.registry(k), after.registry(k)));
        lemma_kept_marked(b.live(), b.cells());
    }
    assert forall|h: Proxy|
        after.holds(h) && !after.registry(h.kind()).live().contains(h.key()) implies #[trigger] after.index_of(
        h,
    ) == -2 by {
        let r = after.registry(h.kind());
        assert(reconciled(marked.registry(h.kind()), r));
        assert(r.cells()[h.key() as int] == -2);
    }
    assert forall|h: Proxy, p: int|
        #![trigger after.registry(h.kind()).live()[p], after.index_of(h)]
        0 <= p < after.count(h.kind()) && h.key() == after.registry(h.kind()).live()[p]
            implies after.index_of(h) == p by {
        assert(reconciled(marked.registry(h.kind()), after.registry(h.kind())));
    }
}

/// Removing an entity that was never flushed (code `-1`) adds nothing to what the next
/// reconciliation deletes: every kind's deletion batch is the one it would have been
/// without the removal.
pub proof fn law_unflushed_removal_never_reaches_engine(before: &Model, after: &Model, h: Proxy)
    requires
        before.wf(),
        before.holds(h),
        before.index_of(h) == -1,
        forall|k: EntityKind| k != h.kind() ==> #[trigger] after.registry(k) == before.registry(k),
        after.registry(h.kind()).live() == before.registry(h.kind()).live(),
        after.registry(h.kind()).cells() == before.registry(h.kind()).cells().update(
            h.key() as int,
            removal_code(before.index_of(h)),
        ),
    ensures
        after.index_of(h) == -2,
        forall|k: EntityKind|
            #[trigger] deletions(after.registry(k).live(), after.registry(k).cells()) == deletions(
                before.registry(k).live(),
                before.registry(k).cells(),
            ),
{
    let r = before.registry(h.kind());
    lemma_deletions_skip_unflushed(r.live(), r.cells(), h.key());
    assert forall|k: EntityKind|
        #[trigger] deletions(after.registry(k).live(), after.registry(k).cells()) == deletions(
            before.registry(k).live(),
            before.registry(k).cells(),
        ) by {
        if k == h.kind() {
            assert(removal_code(-1i32) == -2i32);
        }
    }
}

/// Copies of a handle read the same code at every point, and marking the entity for
/// removal through one of them is seen through the other at once.
pub proof fn law_copies_agree(before: &Model, after: &Model, a: Proxy, b: Proxy)
    requires
        before.wf(),
        before.holds(a),
        b == a,
        after.registry(a.kind()).cells() == before.registry(a.kind()).cells().update(
            a.key() as int,
            removal_code(before.index_of(a)),
        ),
    ensures
        before.index_of(a) == before.index_of(b),
        after.index_of(a) == after.index_of(b),
        after.index_of(b) == removal_code(before.index_of(a)),
{
}

/// A second reconciliation right after a successful one deletes nothing and changes
/// nothing: on the reconciled model `first`, `update` gives `plan` and leaves `marked`,
/// and `rearrange` then gives `second`; the plan issues no delete call, and `marked` and
/// `second` hold what `first` held.
pub proof fn law_update_idempotent(
    start: &Model,
    first: &Model,
    marked: &Model,
    plan: &UpdatePlan,
    second: &Model,
)
    requires
        start.wf(),
        forall|k: EntityKind| reconciled(start.registry(k), #[trigger] first.registry(k)),
        forall|k: EntityKind|
            #![trigger marked.registry(k)]
            marked.registry(k).live() == first.registry(k).live() && marked.registry(k).cells()
                == marked_dead(first.registry(k).cells()),
        forall|k: EntityKind|
            #[trigger] plan.batch_view(k) == deletions(
                first.registry(k).live(),
                first.registry(k).cells(),
            ),
        forall|k: EntityKind| reconciled(marked.registry(k), #[trigger] second.registry(k)),
    ensures
        delete_order(plan) == Seq::<EntityKind>::empty(),
        forall|k: EntityKind|
            #![trigger first.registry(k)]
            deletions(first.registry(k).live(), first.registry(k).cells()) == Seq::<i32>::empty()
                && marked.registry(k).live() == first.registry(k).live()
                && marked.registry(k).cells() == first.registry(k).cells()
                && second.registry(k).live() == first.registry(k).live()
                && second.registry(k).cells() == first.registry(k).cells(),
{
    assert forall|k: EntityKind|
        #![trigger first.registry(k)]
        deletions(first.registry(k).live(), first.registry(k).cells()) == Seq::<i32>::empty()
            && marked.registry(k).live() == first.registry(k).live()
            && marked.registry(k).cells() == first.registry(k).cells()
            && second.registry(k).live() == first.registry(k).live()
            && second.registry(k).cells() == first.registry(k).cells() by {
        let s = first.registry(k);
        let m = marked.registry(k);
        let t = second.registry(k);
        assert(reconciled(start.registry(k), s));
        assert(m.live() == s.live() && m.cells() == marked_dead(s.cells()));
        assert(reconciled(m, t));
        assert forall|p: int| 0 <= p < s.live().len() implies s.cells()[#[trigger] s.live()[p]
            as int] >= 0 by {}
        lemma_all_active(s.live(), s.cells());
        assert forall|j: int| 0 <= j < s.cells().len() implies s.cells()[j] >= -2 by {
            let ju = j as usize;
            if s.live().contains(ju) {
                let p = choose|p: int| 0 <= p < s.live().len() && s.live()[p] == ju;
                assert(s.cells()[s.live()[p] as int] == p);
            } else {
                assert(s.cells()[ju as int] == -2);
            }
        }
        assert(m.cells() =~= s.cells());
        assert forall|j: int| 0 <= j < s.cells().len() implies t.cells()[j] == s.cells()[j] by {
            let ju = j as usize;
            if s.live().contains(ju) {
                let p = choose|p: int| 0 <= p < s.live().len() && s.live()[p] == ju;
                assert(t.live()[p] == ju);
            } else {
                assert(m.cells()[ju as int] == -2);
                assert(t.cells()[ju as int] == -2);
            }
        }
        assert(t.cells() =~= s.cells());
    }
    assert(plan.batch_view(EntityKind::Var) == deletions(
        first.registry(EntityKind::Var).live(),
        first.registry(EntityKind::Var).cells(),
    ));
    assert(plan.batch_view(EntityKind::Constr) == deletions(
        first.registry(EntityKind::Constr).live(),
        first.registry(EntityKind::Constr).cells(),
    ));
    assert(plan.batch_view(EntityKind::QConstr) == deletions(
        first.registry(EntityKind::QConstr).live(),
        first.registry(EntityKind::QConstr).cells(),
    ));
    assert(plan.batch_view(EntityKind::Sos) == deletions(
        first.registry(EntityKind::Sos).live(),
        first.registry(EntityKind::Sos).cells(),
    ));
    assert(delete_order(plan) =~= Seq::<EntityKind>::empty());
}

} // verus!

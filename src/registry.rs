use vstd::prelude::*;

verus! {

/// Whether `code` is a valid state for the entity at position `p` of its sequence: its own
/// position (active), `-1` (added, not yet flushed), `-2` (dead) or `-3 - p` (marked for
/// removal while active at `p`).
pub open spec fn code_fits(code: i32, p: int) -> bool {
    code == p || code == -1 || code == -2 || code == -3 - p
}

/// The keys of `live` that survive reconciliation (code at least `-1`), in their order.
pub open spec fn kept(live: Seq<usize>, cells: Seq<i32>) -> Seq<usize>
    decreases live.len(),
{
    if live.len() == 0 {
        Seq::empty()
    } else {
        let rest = kept(live.drop_last(), cells);
        if cells[live.last() as int] >= -1 {
            rest.push(live.last())
        } else {
            rest
        }
    }
}

/// The engine indices that reconciliation deletes: for each key of `live` marked for removal
/// (code at most `-3`), in order, the active index `-3 - code` it had.
pub open spec fn deletions(live: Seq<usize>, cells: Seq<i32>) -> Seq<i32>
    decreases live.len(),
{
    if live.len() == 0 {
        Seq::empty()
    } else {
        let rest = deletions(live.drop_last(), cells);
        let code = cells[live.last() as int];
        if code <= -3 {
            rest.push((-3 - code) as i32)
        } else {
            rest
        }
    }
}

/// The code of an entity after it is marked for removal: an active entity at `i` becomes
/// `-3 - i`, one never flushed (`-1`) becomes dead (`-2`), any other code stays.
pub open spec fn removal_code(code: i32) -> i32 {
    if code >= -1 {
        (-3 - code) as i32
    } else {
        code
    }
}

/// The cells after the entities marked for removal are declared dead: every code at most
/// `-2` becomes `-2`, every other code stays.
pub open spec fn marked_dead(cells: Seq<i32>) -> Seq<i32> {
    Seq::new(cells.len(), |j: int| if cells[j] <= -2 { -2i32 } else { cells[j] })
}

/// `after` is what reconciliation makes of `before`: the surviving keys in their order, each
/// renumbered to its new position, every other cell dead (see `Registry::wf`).
pub open spec fn reconciled(before: Registry, after: Registry) -> bool {
    &&& after.wf()
    &&& after.live() == kept(before.live(), before.cells())
    &&& after.cells().len() == before.cells().len()
    &&& forall|p: int|
        0 <= p < after.live().len() ==> after.cells()[#[trigger] after.live()[p] as int] == p
}

/// Keys `start, start + 1, ...`, `n` of them.
pub open spec fn fresh_keys(start: nat, n: nat) -> Seq<usize> {
    Seq::new(n, |i: int| (start + i) as usize)
}

/// Codes of `n` entities appended after `len` others: their positions when `immediate`,
/// else `-1` each.
pub open spec fn fresh_codes(len: nat, n: nat, immediate: bool) -> Seq<i32> {
    Seq::new(n, |i: int| if immediate { (len + i) as i32 } else { -1i32 })
}

pub open spec fn strictly_increasing(s: Seq<usize>) -> bool {
    forall|p: int, q: int| 0 <= p < q < s.len() ==> s[p] < s[q]
}

/// Facts about `kept` on a sequence of distinct keys.
proof fn lemma_kept(live: Seq<usize>, cells: Seq<i32>)
    requires
        strictly_increasing(live),
    ensures
        kept(live, cells).len() <= live.len(),
        strictly_increasing(kept(live, cells)),
        forall|i: int|
            0 <= i < kept(live, cells).len() ==> live.contains(#[trigger] kept(live, cells)[i])
                && cells[kept(live, cells)[i] as int] >= -1,
        forall|p: int|
            0 <= p < live.len() && cells[live[p] as int] >= -1 ==> kept(live, cells).contains(
                #[trigger] live[p],
            ),
    decreases live.len(),
{
    if live.len() > 0 {
        let l2 = live.drop_last();
        lemma_kept(l2, cells);
        let k2 = kept(l2, cells);
        let k = kept(live, cells);
        assert forall|i: int| 0 <= i < k2.len() implies k2[i] < live.last() by {
            let q = choose|q: int| 0 <= q < l2.len() && l2[q] == k2[i];
            assert(live[q] == l2[q]);
        }
        assert forall|i: int| 0 <= i < k.len() implies live.contains(#[trigger] k[i]) && cells[k[i]
            as int] >= -1 by {
            if i < k2.len() {
                let q = choose|q: int| 0 <= q < l2.len() && l2[q] == k2[i];
                assert(live[q] == k[i]);
            } else {
                assert(live[live.len() - 1] == k[i]);
            }
        }
        assert forall|p: int|
            0 <= p < live.len() && cells[live[p] as int] >= -1 implies k.contains(
            #[trigger] live[p],
        ) by {
            if p < live.len() - 1 {
                assert(l2[p] == live[p]);
                let i = choose|i: int| 0 <= i < k2.len() && k2[i] == l2[p];
                assert(k[i] == live[p]);
            } else {
                assert(k[k.len() - 1] == live[p]);
            }
        }
    }
}

/// Turning a `-1` code into `-2` changes no deletion batch.
pub proof fn lemma_deletions_skip_unflushed(live: Seq<usize>, cells: Seq<i32>, key: usize)
    requires
        (key as int) < cells.len(),
        forall|p: int| 0 <= p < live.len() ==> (#[trigger] live[p] as int) < cells.len(),
        cells[key as int] == -1,
    ensures
        deletions(live, cells.update(key as int, -2i32)) == deletions(live, cells),
    decreases live.len(),
{
    if live.len() > 0 {
        let c2 = cells.update(key as int, -2i32);
        let l2 = live.drop_last();
        assert forall|p: int| 0 <= p < l2.len() implies (#[trigger] l2[p] as int) < cells.len() by {
            assert(l2[p] == live[p]);
        }
        lemma_deletions_skip_unflushed(l2, cells, key);
        let last = live.last() as int;
        assert(live[live.len() - 1] as int == last);
        if last == key as int {
            assert(c2[last] == -2 && cells[last] == -1);
        } else {
            assert(c2[last] == cells[last]);
        }
        assert(deletions(live, c2) == deletions(live, cells));
    }
}

/// Declaring the marked entities dead changes nothing about which keys survive.
pub proof fn lemma_kept_marked(live: Seq<usize>, cells: Seq<i32>)
    requires
        forall|p: int| 0 <= p < live.len() ==> (#[trigger] live[p] as int) < cells.len(),
    ensures
        kept(live, marked_dead(cells)) == kept(live, cells),
    decreases live.len(),
{
    if live.len() > 0 {
        let l2 = live.drop_last();
        assert forall|p: int| 0 <= p < l2.len() implies (#[trigger] l2[p] as int) < cells.len() by {
            assert(l2[p] == live[p]);
        }
        lemma_kept_marked(l2, cells);
        assert((live[live.len() - 1] as int) < cells.len());
    }
}

/// When every key of `live` is active, reconciliation keeps them all and deletes nothing.
pub proof fn lemma_all_active(live: Seq<usize>, cells: Seq<i32>)
    requires
        forall|p: int| 0 <= p < live.len() ==> cells[#[trigger] live[p] as int] >= 0,
    ensures
        deletions(live, cells) == Seq::<i32>::empty(),
        kept(live, cells) == live,
    decreases live.len(),
{
    if live.len() > 0 {
        let l2 = live.drop_last();
        assert forall|p: int| 0 <= p < l2.len() implies cells[#[trigger] l2[p] as int] >= 0 by {
            assert(l2[p] == live[p]);
        }
        lemma_all_active(l2, cells);
        assert(cells[live[live.len() - 1] as int] >= 0);
        assert(l2.push(live.last()) =~= live);
    }
}

/// The index cells of one kind of entity, and the sequence of those that the registry
/// currently believes in.
///
/// Each entity owns one cell, addressed by its key; every handle to the entity holds that
/// key, so all of them observe the same code. A cell holds the entity's engine position
/// when active, `-1` when added but not yet flushed, `-2` once removed for good, and
/// `-3 - i` when marked for removal while active at `i`.
pub struct Registry {
    cells: Vec<i32>,
    live: Vec<usize>,
}

impl Registry {
    /// Code of each cell, by key.
    pub closed spec fn cells(&self) -> Seq<i32> {
        self.cells@
    }

    /// Keys of the entities in the sequence, in order.
    pub closed spec fn live(&self) -> Seq<usize> {
        self.live@
    }

    pub open spec fn wf(&self) -> bool {
        let c = self.cells();
        let l = self.live();
        &&& l.len() < i32::MAX
        &&& c.len() <= usize::MAX
        &&& forall|p: int| 0 <= p < l.len() ==> (#[trigger] l[p] as int) < c.len()
        &&& strictly_increasing(l)
        &&& forall|p: int| 0 <= p < l.len() ==> code_fits(c[#[trigger] l[p] as int], p)
        &&& forall|j: usize| (j as int) < c.len() && !l.contains(j) ==> #[trigger] c[j as int] == -2
    }

    /// An empty registry.
    pub(crate) fn new() -> (r: Registry)
        ensures
            r.wf(),
            r.cells().len() == 0,
            r.live().len() == 0,
    {
        Registry { cells: Vec::new(), live: Vec::new() }
    }

    /// Number of entities in the sequence.
    pub fn len(&self) -> (r: usize)
        ensures
            r == self.live().len(),
    {
        self.live.len()
    }

    /// Number of cells.
    pub fn num_cells(&self) -> (r: usize)
        ensures
            r == self.cells().len(),
    {
        self.cells.len()
    }

    /// Keys of the entities in the sequence, in order.
    pub fn live_keys(&self) -> (r: &Vec<usize>)
        ensures
            r@ == self.live(),
    {
        &self.live
    }

    /// Code held by the cell of `key`.
    pub fn code(&self, key: usize) -> (r: i32)
        requires
            key < self.cells().len(),
        ensures
            r == self.cells()[key as int],
    {
        self.cells[key]
    }

    /// Appends a new entity. Its code is its position when `immediate`, else `-1`.
    pub(crate) fn push(&mut self, immediate: bool) -> (key: usize)
        requires
            old(self).wf(),
            old(self).live().len() + 1 < i32::MAX,
        ensures
            final(self).wf(),
            key == old(self).cells().len(),
            final(self).cells() == old(self).cells().push(
                if immediate {
                    old(self).live().len() as i32
                } else {
                    -1i32
                },
            ),
            final(self).live() == old(self).live().push(key),
    {
        let ghost l0 = self.live@;
        let key = self.cells.len();
        let code: i32 = if immediate {
            self.live.len() as i32
        } else {
            -1
        };
        self.cells.push(code);
        self.live.push(key);
        proof {
            let l = self.live@;
            assert(self.cells@.len() == self.cells.len());
            assert forall|j: usize|
                (j as int) < self.cells@.len() && !l.contains(j) implies #[trigger] self.cells@[j as int]
                == -2 by {
                if j < key {
                    if l0.contains(j) {
                        let i = choose|i: int| 0 <= i < l0.len() && l0[i] == j;
                        assert(l[i] == j);
                    }
                    assert(old(self).cells()[j as int] == -2);
                } else {
                    assert(l[l.len() - 1] == j);
                }
            }
        }
        key
    }

    /// Appends `n` new entities, with codes as `push` gives them.
    pub(crate) fn push_many(&mut self, n: usize, immediate: bool) -> (keys: Vec<usize>)
        requires
            old(self).wf(),
            old(self).live().len() + n < i32::MAX,
        ensures
            final(self).wf(),
            keys@ == fresh_keys(old(self).cells().len(), n as nat),
            final(self).live() == old(self).live() + keys@,
            final(self).cells() == old(self).cells() + fresh_codes(
                old(self).live().len(),
                n as nat,
                immediate,
            ),
    {
        let ghost c0 = self.cells();
        let ghost l0 = self.live();
        let mut keys: Vec<usize> = Vec::new();
        let mut i: usize = 0;
        while i < n
            invariant
                self.wf(),
                l0.len() + n < i32::MAX,
                0 <= i <= n,
                keys@ == fresh_keys(c0.len(), i as nat),
                self.live() == l0 + keys@,
                self.cells() == c0 + fresh_codes(l0.len(), i as nat, immediate),
            decreases n - i,
        {
            let key = self.push(immediate);
            keys.push(key);
            i += 1;
            proof {
                assert(keys@ =~= fresh_keys(c0.len(), i as nat));
                assert(self.live() =~= l0 + keys@);
                assert(self.cells() =~= c0 + fresh_codes(l0.len(), i as nat, immediate));
            }
        }
        keys
    }

    /// A registry of `n` entities, all active at their positions.
    pub(crate) fn with_active(n: usize) -> (r: Registry)
        requires
            n < i32::MAX,
        ensures
            r.wf(),
            r.live() == fresh_keys(0, n as nat),
            r.cells() == fresh_codes(0, n as nat, true),
    {
        let mut r = Registry::new();
        let keys = r.push_many(n, true);
        proof {
            assert(r.live() =~= fresh_keys(0, n as nat));
            assert(r.cells() =~= fresh_codes(0, n as nat, true));
        }
        r
    }

    /// Marks the entity of `key` for removal: see `removal_code`.
    pub(crate) fn mark_removed(&mut self, key: usize)
        requires
            old(self).wf(),
            key < old(self).cells().len(),
        ensures
            final(self).wf(),
            final(self).live() == old(self).live(),
            final(self).cells() == old(self).cells().update(
                key as int,
                removal_code(old(self).cells()[key as int]),
            ),
    {
        let c = self.cells[key];
        if c >= -1 {
            proof {
                let l = self.live@;
                assert(l.contains(key));
                let p = choose|p: int| 0 <= p < l.len() && l[p] == key;
                assert(code_fits(self.cells@[l[p] as int], p));
            }
            self.cells[key] = -3 - c;
        }
        proof {
            assert(self.cells@ =~= old(self).cells@.update(key as int, removal_code(c)));
        }
    }

    /// Declares dead (`-2`) every entity marked for removal, leaving the sequence and every
    /// other cell as they are. Returns the engine indices to delete: the active index of
    /// each entity that was marked for removal, in order.
    pub(crate) fn mark_dead(&mut self) -> (r: Vec<i32>)
        requires
            old(self).wf(),
        ensures
            final(self).wf(),
            final(self).live() == old(self).live(),
            final(self).cells() == marked_dead(old(self).cells()),
            r@ == deletions(old(self).live(), old(self).cells()),
    {
        let ghost c0 = self.cells@;
        let ghost l = self.live@;
        let mut dels: Vec<i32> = Vec::new();
        let mut i: usize = 0;
        while i < self.live.len()
            invariant
                old(self).wf(),
                self.live@ == l,
                old(self).live@ == l,
                old(self).cells@ == c0,
                0 <= i <= l.len(),
                self.cells@.len() == c0.len(),
                dels@ == deletions(l.take(i as int), c0),
                forall|q: int|
                    0 <= q < i ==> self.cells@[#[trigger] l[q] as int] == marked_dead(c0)[l[q] as int],
                forall|q: int|
                    i <= q < l.len() ==> self.cells@[#[trigger] l[q] as int] == c0[l[q] as int],
                forall|j: usize|
                    (j as int) < c0.len() && !l.contains(j) ==> #[trigger] self.cells@[j as int]
                        == c0[j as int],
            decreases l.len() - i,
        {
            let key = self.live[i];
            proof {
                assert(old(self).live()[i as int] == key);
            }
            let c = self.cells[key];
            proof {
                assert(l.take(i + 1).drop_last() =~= l.take(i as int));
                assert(l.take(i + 1).last() == l[i as int]);
            }
            if c <= -2 {
                if c <= -3 {
                    dels.push(-3 - c);
                }
                self.cells[key] = -2;
            }
            proof {
                assert forall|q: int| i < q < l.len() implies self.cells@[#[trigger] l[q] as int]
                    == c0[l[q] as int] by {
                    assert(l[i as int] < l[q]);
                }
                assert forall|q: int| 0 <= q < i implies self.cells@[#[trigger] l[q] as int]
                    == marked_dead(c0)[l[q] as int] by {
                    assert(l[q] < l[i as int]);
                }
                assert forall|j: usize|
                    (j as int) < c0.len() && !l.contains(j) implies #[trigger] self.cells@[j as int]
                    == c0[j as int] by {
                    if j == key {
                        assert(l[i as int] == j);
                    }
                }
            }
            i += 1;
        }
        proof {
            assert(l.take(l.len() as int) =~= l);
            assert forall|j: int| 0 <= j < c0.len() implies self.cells@[j] == marked_dead(c0)[j] by {
                let ju = j as usize;
                if l.contains(ju) {
                    let q = choose|q: int| 0 <= q < l.len() && l[q] == ju;
                    assert(self.cells@[l[q] as int] == marked_dead(c0)[l[q] as int]);
                } else {
                    assert(old(self).cells()[ju as int] == -2);
                }
            }
            assert(self.cells@ =~= marked_dead(c0));
            assert forall|p: int| 0 <= p < l.len() implies code_fits(
                self.cells()[#[trigger] l[p] as int],
                p,
            ) by {
                assert(code_fits(c0[l[p] as int], p));
            }
            assert forall|j: usize|
                (j as int) < self.cells().len() && !l.contains(j) implies #[trigger] self.cells()[j
                as int] == -2 by {
                assert(old(self).cells()[j as int] == -2);
            }
        }
        dels
    }

    /// Drops from the sequence every entity marked for removal or dead, marks those dead,
    /// and renumbers the rest `0, 1, ...` in their order. Returns the engine indices to
    /// delete: the active index of each entity that was marked for removal, in order.
    pub(crate) fn reconcile(&mut self) -> (r: Vec<i32>)
        requires
            old(self).wf(),
        ensures
            reconciled(*old(self), *final(self)),
            r@ == deletions(old(self).live(), old(self).cells()),
    {
        let ghost c0 = self.cells@;
        let ghost l = self.live@;
        proof {
            lemma_kept(l, c0);
        }
        let mut keep: Vec<usize> = Vec::new();
        let mut dels: Vec<i32> = Vec::new();
        let mut i: usize = 0;
        while i < self.live.len()
            invariant
                self.wf() == old(self).wf(),
                old(self).wf(),
                self.live@ == l,
                old(self).cells@ == c0,
                0 <= i <= l.len(),
                self.cells@.len() == c0.len(),
                keep@ == kept(l.take(i as int), c0),
                dels@ == deletions(l.take(i as int), c0),
                forall|q: int|
                    0 <= q < i && c0[l[q] as int] < -1 ==> self.cells@[#[trigger] l[q] as int]
                        == -2,
                forall|q: int|
                    i <= q < l.len() ==> self.cells@[#[trigger] l[q] as int] == c0[l[q] as int],
                forall|j: int|
                    0 <= j < c0.len() ==> #[trigger] self.cells@[j] == c0[j] || self.cells@[j]
                        == -2,
            decreases l.len() - i,
        {
            let key = self.live[i];
            let c = self.cells[key];
            proof {
                assert(l.take(i + 1).drop_last() =~= l.take(i as int));
                assert(l.take(i + 1).last() == l[i as int]);
            }
            if c >= -1 {
                keep.push(key);
            } else {
                if c <= -3 {
                    dels.push(-3 - c);
                }
                self.cells[key] = -2;
                proof {
                    assert forall|q: int| i < q < l.len() implies self.cells@[#[trigger] l[q]
                        as int] == c0[l[q] as int] by {
                        assert(l[i as int] < l[q]);
                    }
                }
            }
            i += 1;
        }
        proof {
            assert(l.take(l.len() as int) =~= l);
            let k = keep@;
            assert forall|j: usize|
                (j as int) < c0.len() && !k.contains(j) implies #[trigger] self.cells@[j as int]
                == -2 by {
                if l.contains(j) {
                    let q = choose|q: int| 0 <= q < l.len() && l[q] == j;
                    assert(c0[l[q] as int] < -1);
                } else {
                    assert(old(self).cells()[j as int] == -2);
                }
            }
        }
        let mut p: usize = 0;
        while p < keep.len()
            invariant
                keep@ == kept(l, c0),
                keep@.len() <= l.len(),
                l.len() < i32::MAX,
                strictly_increasing(keep@),
                forall|t: int| 0 <= t < keep@.len() ==> (#[trigger] keep@[t] as int) < c0.len(),
                0 <= p <= keep@.len(),
                self.cells@.len() == c0.len(),
                forall|t: int| 0 <= t < p ==> self.cells@[#[trigger] keep@[t] as int] == t,
                forall|j: usize|
                    (j as int) < c0.len() && !keep@.contains(j) ==> #[trigger] self.cells@[j as int]
                        == -2,
            decreases keep.len() - p,
        {
            let key = keep[p];
            self.cells[key] = p as i32;
            proof {
                assert forall|t: int| 0 <= t < p implies self.cells@[#[trigger] keep@[t] as int]
                    == t by {
                    assert(keep@[t] < keep@[p as int]);
                }
                assert forall|j: usize|
                    (j as int) < c0.len() && !keep@.contains(j) implies #[trigger] self.cells@[j as int]
                    == -2 by {
                    if j == key {
                        assert(keep@[p as int] == j);
                    }
                }
            }
            p += 1;
        }
        self.live = keep;
        dels
    }
}

} // verus!

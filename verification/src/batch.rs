//! The batch driver: scans the triangle list, feeds every corner fact to
//! the accumulator of its center vertex, validates the result and packs
//! it into fixed six-slot rows.
//!
//! The whole run is modelled by pure spec functions: [`models_at`] folds
//! the state-machine transition over the fact stream, and
//! [`spec_rehexed`] pins the exact outcome — rows and errors alike — as a
//! function of the input. [`rehexed`] is proved to return precisely that
//! outcome.

use vstd::prelude::*;

use crate::accumulator::spec_insert;
use crate::accumulator::spec_overflows;
use crate::accumulator::wf;
use crate::accumulator::Accumulator;
use crate::accumulator::Model;
use crate::accumulator::RehexState;

verus! {

/// Why a batch was rejected. Every fault names the offending vertex;
/// adjacency is only useful as a complete set, so no partial result is
/// ever returned.
#[derive(Copy, Clone, PartialEq, Eq, Structural, Debug)]
pub enum RehexError {
    /// A seventh neighbor was implied for this vertex: its single known
    /// arc already held five elements and a fact touching neither
    /// endpoint arrived.
    OverlongCycle { vertex: usize },
    /// The finished neighbor list of this vertex contains the vertex
    /// itself: the input held a degenerate or non-manifold triangle.
    SelfAdjacent { vertex: usize },
    /// The vertex never closed its cycle: it saw too few facts, or
    /// facts that cannot merge into one cycle — sparse or invalid
    /// topology rather than a degenerate triangle. Carries the
    /// fragmentation state the accumulator was left in.
    IncompleteVertex { vertex: usize, state: RehexState },
}

/// How many whole triangles the flat index list holds. A trailing
/// remainder (when the length is not a multiple of three) is ignored.
pub open spec fn tri_count(indices: Seq<u32>) -> int {
    indices.len() as int / 3
}

/// How many corner facts the triangle list yields: three per triangle.
pub open spec fn num_facts(indices: Seq<u32>) -> int {
    3 * tri_count(indices)
}

/// The `j`-th corner fact, as `(center, b, c)`: around `center`, `c`
/// immediately follows `b`. Triangle `(a, b, c)` yields the three
/// rotations `(a, b, c)`, `(c, a, b)`, `(b, c, a)`, in that order, so
/// that winding is preserved.
pub open spec fn fact_of(indices: Seq<u32>, j: int) -> (usize, usize, usize)
    recommends
        0 <= j < num_facts(indices),
{
    let t = j / 3;
    let a = indices[3 * t] as usize;
    let b = indices[3 * t + 1] as usize;
    let c = indices[3 * t + 2] as usize;
    if j % 3 == 0 {
        (a, b, c)
    } else if j % 3 == 1 {
        (c, a, b)
    } else {
        (b, c, a)
    }
}

/// One empty accumulator model per vertex.
pub open spec fn init_models(len: nat) -> Seq<Model> {
    Seq::new(len, |v: int| Model { state: RehexState::Empty, arcs: Seq::<usize>::empty() })
}

/// One fact applied to the accumulator of its center vertex; all other
/// vertices are untouched. A center outside the vertex range changes
/// nothing (the batch driver never admits one).
pub open spec fn apply_fact(models: Seq<Model>, f: (usize, usize, usize)) -> Seq<Model> {
    if f.0 < models.len() {
        models.update(f.0 as int, spec_insert(models[f.0 as int], f.1, f.2))
    } else {
        models
    }
}

/// The per-vertex models after the first `j` facts of the stream.
pub open spec fn models_at(indices: Seq<u32>, len: nat, j: int) -> Seq<Model>
    decreases j,
{
    if j <= 0 {
        init_models(len)
    } else {
        apply_fact(models_at(indices, len, j - 1), fact_of(indices, j - 1))
    }
}

/// Whether fact `j`, arriving at the state the first `j` facts produced,
/// is the one fact the state machine cannot absorb.
pub open spec fn fact_overflows_at(indices: Seq<u32>, len: nat, j: int) -> bool {
    let f = fact_of(indices, j);
    spec_overflows(models_at(indices, len, j)[f.0 as int], f.1, f.2)
}

/// The first fact index at or after `j` that overflows, if any.
pub open spec fn first_overflow_from(indices: Seq<u32>, len: nat, j: int) -> Option<int>
    decreases num_facts(indices) - j,
{
    if j < 0 || j >= num_facts(indices) {
        None
    } else if fact_overflows_at(indices, len, j) {
        Some(j)
    } else {
        first_overflow_from(indices, len, j + 1)
    }
}

/// The finalization fault of one vertex, if any: the vertex standing in
/// its own neighbor list, or a cycle that never closed. Self-adjacency
/// is reported first, so the two faults stay distinct.
pub open spec fn vertex_fault(m: Model, v: usize) -> Option<RehexError> {
    if m.arcs.contains(v) {
        Some(RehexError::SelfAdjacent { vertex: v })
    } else if m.state != RehexState::Complete {
        Some(RehexError::IncompleteVertex { vertex: v, state: m.state })
    } else {
        None
    }
}

/// The fault of the first faulty vertex at or after `v`, if any.
pub open spec fn first_vertex_fault_from(models: Seq<Model>, v: int) -> Option<RehexError>
    decreases models.len() - v,
{
    if v < 0 || v >= models.len() {
        None
    } else if vertex_fault(models[v], v as usize) is Some {
        vertex_fault(models[v], v as usize)
    } else {
        first_vertex_fault_from(models, v + 1)
    }
}

/// An arc list packed into the fixed six-slot output row: left-packed,
/// trailing unused slots set to the sentinel `usize::MAX`.
pub open spec fn pad(s: Seq<usize>) -> Seq<usize> {
    Seq::new(6, |i: int| if i < s.len() {
        s[i]
    } else {
        usize::MAX
    })
}

/// The rows a successful batch returns: every vertex's finished arc
/// list, padded to six slots.
pub open spec fn batch_rows(indices: Seq<u32>, len: nat) -> Seq<Seq<usize>> {
    Seq::new(len, |v: int| pad(models_at(indices, len, num_facts(indices))[v].arcs))
}

/// The exact outcome of a batch run: the first overflowing fact aborts
/// with `OverlongCycle`; otherwise the first faulty vertex aborts with
/// `SelfAdjacent` or `IncompleteVertex`; otherwise every vertex's
/// closed cycle, padded.
pub open spec fn spec_rehexed(indices: Seq<u32>, len: nat) -> Result<Seq<Seq<usize>>, RehexError> {
    match first_overflow_from(indices, len, 0) {
        Some(j) => Err(RehexError::OverlongCycle { vertex: fact_of(indices, j).0 }),
        None => {
            let fin = models_at(indices, len, num_facts(indices));
            match first_vertex_fault_from(fin, 0) {
                Some(e) => Err(e),
                None => Ok(batch_rows(indices, len)),
            }
        },
    }
}

/// The model run always keeps one accumulator per vertex.
pub proof fn lemma_models_at_len(indices: Seq<u32>, len: nat, j: int)
    ensures
        models_at(indices, len, j).len() == len,
    decreases j,
{
    if j > 0 {
        lemma_models_at_len(indices, len, j - 1);
    }
}

proof fn lemma_first_overflow_some(indices: Seq<u32>, len: nat, k: int, j: int)
    requires
        0 <= k <= j < num_facts(indices),
        forall|i: int| k <= i < j ==> !fact_overflows_at(indices, len, i),
        fact_overflows_at(indices, len, j),
    ensures
        first_overflow_from(indices, len, k) == Some(j),
    decreases j - k,
{
    if k < j {
        lemma_first_overflow_some(indices, len, k + 1, j);
    }
}

proof fn lemma_first_overflow_none(indices: Seq<u32>, len: nat, k: int)
    requires
        0 <= k,
        forall|i: int| k <= i < num_facts(indices) ==> !fact_overflows_at(indices, len, i),
    ensures
        first_overflow_from(indices, len, k) == None::<int>,
    decreases num_facts(indices) - k,
{
    if k < num_facts(indices) {
        lemma_first_overflow_none(indices, len, k + 1);
    }
}

proof fn lemma_first_vertex_fault_some(models: Seq<Model>, k: int, v: int)
    requires
        0 <= k <= v < models.len(),
        forall|u: int| k <= u < v ==> vertex_fault(models[u], u as usize) is None,
        vertex_fault(models[v], v as usize) is Some,
    ensures
        first_vertex_fault_from(models, k) == vertex_fault(models[v], v as usize),
    decreases v - k,
{
    if k < v {
        lemma_first_vertex_fault_some(models, k + 1, v);
    }
}

proof fn lemma_first_vertex_fault_none(models: Seq<Model>, k: int)
    requires
        0 <= k,
        forall|u: int| k <= u < models.len() ==> vertex_fault(models[u], u as usize) is None,
    ensures
        first_vertex_fault_from(models, k) == None::<RehexError>,
    decreases models.len() - k,
{
    if k < models.len() {
        lemma_first_vertex_fault_none(models, k + 1);
    }
}

/// Applies fact `j` of the stream to the accumulator of its center.
/// Returns `false` exactly when the fact overflows; the accumulators are
/// then unchanged.
fn apply_one(
    accs: &mut Vec<Accumulator>,
    a: usize,
    b: usize,
    c: usize,
    Ghost(indices): Ghost<Seq<u32>>,
    Ghost(j): Ghost<int>,
) -> (ok: bool)
    requires
        0 <= j < num_facts(indices),
        fact_of(indices, j) == (a, b, c),
        a < old(accs)@.len(),
        forall|v: int| 0 <= v < old(accs)@.len() ==> wf(#[trigger] old(accs)@[v]@),
        forall|v: int|
            0 <= v < old(accs)@.len() ==> #[trigger] old(accs)@[v]@ == models_at(
                indices,
                old(accs)@.len() as nat,
                j,
            )[v],
    ensures
        final(accs)@.len() == old(accs)@.len(),
        forall|v: int| 0 <= v < final(accs)@.len() ==> wf(#[trigger] final(accs)@[v]@),
        ok == !fact_overflows_at(indices, old(accs)@.len() as nat, j),
        ok ==> forall|v: int|
            0 <= v < final(accs)@.len() ==> #[trigger] final(accs)@[v]@ == models_at(
                indices,
                old(accs)@.len() as nat,
                j + 1,
            )[v],
        !ok ==> forall|v: int|
            0 <= v < final(accs)@.len() ==> #[trigger] final(accs)@[v]@ == old(accs)@[v]@,
    {
    let ghost len = accs@.len() as nat;
    let ghost before = accs@[a as int]@;
    let acc = &mut accs[a];
    let ok = acc.insert(b, c);
    proof {
        lemma_models_at_len(indices, len, j);
        lemma_models_at_len(indices, len, j + 1);
        assert(models_at(indices, len, j + 1) == apply_fact(
            models_at(indices, len, j),
            fact_of(indices, j),
        ));
        if ok {
            assert forall|v: int| 0 <= v < final(accs)@.len() implies #[trigger] final(accs)@[v]@
                == models_at(indices, len, j + 1)[v] by {
                if v == a as int {
                    assert(final(accs)@[v]@ == spec_insert(before, b, c));
                } else {
                    assert(final(accs)@[v]@ == old(accs)@[v]@);
                }
            }
        }
    }
    ok
}

/// Packs one finished accumulator into its output row.
fn to_row(acc: &Accumulator) -> (row: [usize; 6])
    requires
        acc@.arcs.len() <= 6,
    ensures
        row@ == pad(acc@.arcs),
{
    let n = acc.neighbor_count();
    let r0 = if n > 0 { acc.neighbor_at(0) } else { usize::MAX };
    let r1 = if n > 1 { acc.neighbor_at(1) } else { usize::MAX };
    let r2 = if n > 2 { acc.neighbor_at(2) } else { usize::MAX };
    let r3 = if n > 3 { acc.neighbor_at(3) } else { usize::MAX };
    let r4 = if n > 4 { acc.neighbor_at(4) } else { usize::MAX };
    let r5 = if n > 5 { acc.neighbor_at(5) } else { usize::MAX };
    let row = [r0, r1, r2, r3, r4, r5];
    proof {
        assert(row@ =~= pad(acc@.arcs));
    }
    row
}

/// Turns a triangulated mesh into a per-vertex adjacency list.
///
/// `indices` is the flat triangle list, each consecutive triple one
/// triangle's corners in winding order; a trailing remainder is ignored.
/// `len` is the number of vertices; every index must lie below it. Each
/// returned row holds a vertex's closed neighbor cycle in winding-
/// preserving order (the starting rotation is unspecified but
/// deterministic), left-packed and padded with `usize::MAX`.
///
/// Any data-integrity fault aborts the whole batch: an implied seventh
/// neighbor at insertion time, and, in the finalization scan, a vertex
/// adjacent to itself or one whose cycle never closed. The outcome —
/// rows or fault — is exactly [`spec_rehexed`]; on top of that, no
/// returned row ever contains its own vertex index.
pub fn rehexed(indices: &[u32], len: usize) -> (r: Result<Vec<[usize; 6]>, RehexError>)
    requires
        forall|i: int| 0 <= i < indices@.len() ==> (indices@[i] as int) < (len as int),
    ensures
        match r {
            Ok(out) => spec_rehexed(indices@, len as nat) matches Ok(rows) && out@.len() == len
                && forall|v: int| 0 <= v < len ==> #[trigger] out@[v]@ == rows[v],
            Err(e) => spec_rehexed(indices@, len as nat) == Err::<Seq<Seq<usize>>, RehexError>(e),
        },
        r matches Ok(out) ==> forall|v: int, k: int|
            0 <= v < len && 0 <= k < 6 ==> #[trigger] out@[v]@[k] != v,
{
    let ghost glen = len as nat;
    let mut accs: Vec<Accumulator> = Vec::new();
    while accs.len() < len
        invariant
            accs@.len() <= len,
            forall|v: int|
                0 <= v < accs@.len() ==> #[trigger] accs@[v]@ == (Model {
                    state: RehexState::Empty,
                    arcs: Seq::<usize>::empty(),
                }),
        decreases len - accs.len(),
    {
        accs.push(Accumulator::new());
    }

    let n_tri = indices.len() / 3;
    let mut t: usize = 0;
    while t < n_tri
        invariant
            t <= n_tri,
            glen == len as nat,
            n_tri == indices@.len() / 3,
            indices@.len() <= usize::MAX,
            accs@.len() == len,
            forall|i: int| 0 <= i < indices@.len() ==> (indices@[i] as int) < (len as int),
            forall|v: int| 0 <= v < len ==> wf(#[trigger] accs@[v]@),
            forall|v: int|
                0 <= v < len ==> #[trigger] accs@[v]@ == models_at(indices@, glen, 3 * t)[v],
            forall|i: int| 0 <= i < 3 * t ==> !fact_overflows_at(indices@, glen, i),
        decreases n_tri - t,
    {
        proof {
            assert(3 * (t as int) + 3 <= indices@.len()) by {
                vstd::arithmetic::div_mod::lemma_fundamental_div_mod(indices@.len() as int, 3);
                vstd::arithmetic::div_mod::lemma_mod_bound(indices@.len() as int, 3);
            };
        }
        let a = indices[3 * t] as usize;
        let b = indices[3 * t + 1] as usize;
        let c = indices[3 * t + 2] as usize;
        proof {
            let ti = t as int;
            vstd::arithmetic::div_mod::lemma_fundamental_div_mod_converse(3 * ti, 3, ti, 0);
            vstd::arithmetic::div_mod::lemma_fundamental_div_mod_converse(3 * ti + 1, 3, ti, 1);
            vstd::arithmetic::div_mod::lemma_fundamental_div_mod_converse(3 * ti + 2, 3, ti, 2);
            assert(fact_of(indices@, 3 * t) == (a, b, c));
            assert(fact_of(indices@, 3 * t + 1) == (c, a, b));
            assert(fact_of(indices@, 3 * t + 2) == (b, c, a));
        }
        if !apply_one(&mut accs, a, b, c, Ghost(indices@), Ghost(3 * t as int)) {
            proof {
                lemma_first_overflow_some(indices@, glen, 0, 3 * t);
            }
            return Err(RehexError::OverlongCycle { vertex: a });
        }
        if !apply_one(&mut accs, c, a, b, Ghost(indices@), Ghost(3 * t as int + 1)) {
            proof {
                lemma_first_overflow_some(indices@, glen, 0, 3 * t + 1);
            }
            return Err(RehexError::OverlongCycle { vertex: c });
        }
        if !apply_one(&mut accs, b, c, a, Ghost(indices@), Ghost(3 * t as int + 2)) {
            proof {
                lemma_first_overflow_some(indices@, glen, 0, 3 * t + 2);
            }
            return Err(RehexError::OverlongCycle { vertex: b });
        }
        t += 1;
    }

    proof {
        assert(3 * t == num_facts(indices@));
        lemma_first_overflow_none(indices@, glen, 0);
        lemma_models_at_len(indices@, glen, num_facts(indices@));
    }
    let ghost fin = models_at(indices@, glen, num_facts(indices@));

    let mut v: usize = 0;
    while v < len
        invariant
            v <= len,
            glen == len as nat,
            accs@.len() == len,
            fin == models_at(indices@, glen, num_facts(indices@)),
            fin.len() == len,
            first_overflow_from(indices@, glen, 0) == None::<int>,
            forall|v2: int| 0 <= v2 < len ==> wf(#[trigger] accs@[v2]@),
            forall|v2: int| 0 <= v2 < len ==> #[trigger] accs@[v2]@ == fin[v2],
            forall|u: int| 0 <= u < v ==> #[trigger] vertex_fault(fin[u], u as usize) is None,
        decreases len - v,
    {
        if accs[v].contains(v) {
            proof {
                lemma_first_vertex_fault_some(fin, 0, v as int);
            }
            return Err(RehexError::SelfAdjacent { vertex: v });
        }
        let st = accs[v].fragmentation();
        if st != RehexState::Complete {
            proof {
                lemma_first_vertex_fault_some(fin, 0, v as int);
            }
            return Err(RehexError::IncompleteVertex { vertex: v, state: st });
        }
        v += 1;
    }
    proof {
        lemma_first_vertex_fault_none(fin, 0);
    }

    let mut out: Vec<[usize; 6]> = Vec::new();
    while out.len() < len
        invariant
            out@.len() <= len,
            glen == len as nat,
            accs@.len() == len,
            fin == models_at(indices@, glen, num_facts(indices@)),
            fin.len() == len,
            first_overflow_from(indices@, glen, 0) == None::<int>,
            first_vertex_fault_from(fin, 0) == None::<RehexError>,
            forall|v2: int| 0 <= v2 < len ==> wf(#[trigger] accs@[v2]@),
            forall|v2: int| 0 <= v2 < len ==> #[trigger] accs@[v2]@ == fin[v2],
            forall|u: int| 0 <= u < len ==> #[trigger] vertex_fault(fin[u], u as usize) is None,
            forall|u: int| 0 <= u < out@.len() ==> #[trigger] out@[u]@ == pad(fin[u].arcs),
        decreases len - out.len(),
    {
        let i = out.len();
        out.push(to_row(&accs[i]));
    }

    proof {
        let rows = Seq::new(len as nat, |v2: int| pad(fin[v2].arcs));
        assert forall|v2: int, k: int| 0 <= v2 < len && 0 <= k < 6 implies #[trigger] out@[v2]@[k]
            != v2 by {
            assert(vertex_fault(fin[v2], v2 as usize) is None);
            assert(out@[v2]@ == pad(fin[v2].arcs));
            if k < fin[v2].arcs.len() {
                if fin[v2].arcs[k] == v2 as usize {
                    assert(fin[v2].arcs.contains(v2 as usize));
                }
            } else {
                assert(out@[v2]@[k] == usize::MAX);
            }
        }
    }
    Ok(out)
}

} // verus!

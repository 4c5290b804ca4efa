//! General laws of the adjacency builder, each proved once and for all.
//!
//! The central notion is [`follows_in`]: whether the fact "`c`
//! immediately follows `b`" is recorded in an accumulator. Facts are
//! never lost ([`lemma_follow_monotone`]); a fact absorbed at a junction
//! the machine actually checks is recorded at once
//! ([`lemma_insert_captures`]) and therefore survives to the end of the
//! run ([`lemma_winding_preserved`]). A batch that returns rows has
//! closed every vertex's cycle ([`lemma_ok_all_complete`]), five
//! distinct recorded facts force a cycle of length five or six with
//! the sentinel shape to match ([`lemma_closure_sentinel`]), and a
//! closed duplicate-free cycle is its neighbor cycle up to rotation
//! ([`lemma_order_independence`]).

use vstd::prelude::*;

use crate::accumulator::spec_insert;
use crate::accumulator::spec_overflows;
use crate::accumulator::wf;
use crate::accumulator::Model;
use crate::accumulator::RehexState;
use crate::batch::apply_fact;
use crate::batch::batch_rows;
use crate::batch::fact_of;
use crate::batch::fact_overflows_at;
use crate::batch::first_vertex_fault_from;
use crate::batch::lemma_models_at_len;
use crate::batch::vertex_fault;
use crate::batch::models_at;
use crate::batch::num_facts;
use crate::batch::pad;

verus! {

/// The index after `i` in a cycle of length `len`.
pub open spec fn cyclic_next(len: int, i: int) -> int {
    if i + 1 == len {
        0
    } else {
        i + 1
    }
}

/// Whether the fact "`c` immediately follows `b`" is recorded in the
/// accumulator: as an adjacent pair inside one of its arcs (the arc
/// boundaries follow from the fragmentation state), or cyclically once
/// the cycle is closed.
pub open spec fn follows_in(m: Model, b: usize, c: usize) -> bool {
    let s = m.arcs;
    match m.state {
        RehexState::Empty => false,
        RehexState::Clear => exists|i: int| 0 <= i < s.len() - 1 && #[trigger] s[i] == b && s[i + 1] == c,
        RehexState::TwoTwo => (s[0] == b && s[1] == c) || (s[2] == b && s[3] == c),
        RehexState::ThreeTwo => (s[0] == b && s[1] == c) || (s[1] == b && s[2] == c) || (s[3]
            == b && s[4] == c),
        RehexState::TwoTwoTwo => (s[0] == b && s[1] == c) || (s[2] == b && s[3] == c) || (s[4]
            == b && s[5] == c),
        RehexState::Complete => exists|i: int|
            0 <= i < s.len() && #[trigger] s[i] == b && s[cyclic_next(s.len() as int, i)] == c,
    }
}

/// Whether the machine, absorbing the fact "`c` follows `b`" in this
/// state, is sure to record it. It always is, except at the two spots
/// where only one endpoint of a junction is compared: a `ThreeTwo`
/// accumulator matching neither the first arc's tail nor its head, and a
/// `TwoTwoTwo` accumulator whose stored junctions all miss the fact. A
/// `Complete` accumulator absorbs every fact as a no-op, recording
/// nothing new.
pub open spec fn captures(m: Model, b: usize, c: usize) -> bool {
    let s = m.arcs;
    match m.state {
        RehexState::ThreeTwo => s[2] == b || s[0] == c,
        RehexState::TwoTwoTwo => (s[1] == b && s[2] == c) || (s[3] == b && s[4] == c) || (s[5]
            == b && s[0] == c),
        RehexState::Complete => false,
        _ => true,
    }
}

proof fn intro_linear(m: Model, i: int, b: usize, c: usize)
    requires
        m.state == RehexState::Clear,
        0 <= i < m.arcs.len() - 1,
        m.arcs[i] == b,
        m.arcs[i + 1] == c,
    ensures
        follows_in(m, b, c),
{
}

proof fn intro_cyclic(m: Model, i: int, b: usize, c: usize)
    requires
        m.state == RehexState::Complete,
        0 <= i < m.arcs.len(),
        m.arcs[i] == b,
        m.arcs[cyclic_next(m.arcs.len() as int, i)] == c,
    ensures
        follows_in(m, b, c),
{
}

/// Facts are never lost: whatever one insertion has recorded, every
/// later insertion keeps, whether it extends an arc, merges arcs,
/// reorders them, or closes the cycle.
pub proof fn lemma_insert_preserves_follow(m: Model, b: usize, c: usize, x: usize, y: usize)
    requires
        wf(m),
        follows_in(m, x, y),
    ensures
        follows_in(spec_insert(m, b, c), x, y),
{
    let s = m.arcs;
    let n = s.len() as int;
    let m2 = spec_insert(m, b, c);
    match m.state {
        RehexState::Empty => {},
        RehexState::Clear => {
            let i = choose|i: int| 0 <= i < s.len() - 1 && #[trigger] s[i] == x && s[i + 1] == y;
            if s.last() == b {
                if s.first() == c {
                    intro_cyclic(m2, i, x, y);
                } else {
                    if m2.state == RehexState::Complete {
                        intro_cyclic(m2, i, x, y);
                    } else {
                        intro_linear(m2, i, x, y);
                    }
                }
            } else if s.first() == c {
                assert(m2.arcs[i + 1] == x && m2.arcs[i + 2] == y);
                if m2.state == RehexState::Complete {
                    intro_cyclic(m2, i + 1, x, y);
                } else {
                    intro_linear(m2, i + 1, x, y);
                }
            } else if n <= 4 {
                assert(m2.arcs[i] == x && m2.arcs[i + 1] == y);
                if n == 4 {
                    intro_cyclic(m2, i, x, y);
                }
            }
        },
        RehexState::TwoTwo => {
            if s[1] == b && s[2] == c {
                if s[0] == x && s[1] == y {
                    intro_linear(m2, 0, x, y);
                } else {
                    intro_linear(m2, 2, x, y);
                }
            } else if s[1] == b {
                assert(m2.arcs =~= s.insert(2, c));
            } else if s[0] == c && s[3] == b {
                if s[0] == x && s[1] == y {
                    intro_linear(m2, 2, x, y);
                } else {
                    intro_linear(m2, 0, x, y);
                }
            }
        },
        RehexState::ThreeTwo => {
            if s[2] == b {
                if s[3] == c {
                    if s[0] == x && s[1] == y {
                        intro_linear(m2, 0, x, y);
                    } else if s[1] == x && s[2] == y {
                        intro_linear(m2, 1, x, y);
                    } else {
                        intro_linear(m2, 3, x, y);
                    }
                } else {
                    if s[0] == x && s[1] == y {
                        intro_cyclic(m2, 0, x, y);
                    } else if s[1] == x && s[2] == y {
                        intro_cyclic(m2, 1, x, y);
                    } else {
                        intro_cyclic(m2, 4, x, y);
                    }
                }
            } else if s[4] == b {
                if s[0] == x && s[1] == y {
                    intro_linear(m2, 2, x, y);
                } else if s[1] == x && s[2] == y {
                    intro_linear(m2, 3, x, y);
                } else {
                    intro_linear(m2, 0, x, y);
                }
            } else {
                if s[0] == x && s[1] == y {
                    intro_cyclic(m2, 1, x, y);
                } else if s[1] == x && s[2] == y {
                    intro_cyclic(m2, 2, x, y);
                } else {
                    intro_cyclic(m2, 4, x, y);
                }
            }
        },
        RehexState::TwoTwoTwo => {
            if (s[1] == b && s[2] == c) || (s[3] == b && s[4] == c) || (s[5] == b && s[0] == c) {
                if s[0] == x && s[1] == y {
                    intro_cyclic(m2, 0, x, y);
                } else if s[2] == x && s[3] == y {
                    intro_cyclic(m2, 2, x, y);
                } else {
                    intro_cyclic(m2, 4, x, y);
                }
            } else {
                if s[0] == x && s[1] == y {
                    intro_cyclic(m2, 0, x, y);
                } else if s[2] == x && s[3] == y {
                    intro_cyclic(m2, 4, x, y);
                } else {
                    intro_cyclic(m2, 2, x, y);
                }
            }
        },
        RehexState::Complete => {
            let i = choose|i: int|
                0 <= i < s.len() && #[trigger] s[i] == x && s[cyclic_next(s.len() as int, i)] == y;
            intro_cyclic(m2, i, x, y);
        },
    }
}

/// A fact absorbed at a junction the machine actually checks is
/// recorded at once.
pub proof fn lemma_insert_captures(m: Model, b: usize, c: usize)
    requires
        wf(m),
        !m.complete(),
        !spec_overflows(m, b, c),
        captures(m, b, c),
    ensures
        follows_in(spec_insert(m, b, c), b, c),
{
    let s = m.arcs;
    let n = s.len() as int;
    let m2 = spec_insert(m, b, c);
    match m.state {
        RehexState::Empty => {
            intro_linear(m2, 0, b, c);
        },
        RehexState::Clear => {
            if s.last() == b {
                if s.first() == c {
                    intro_cyclic(m2, n - 1, b, c);
                } else {
                    if m2.state == RehexState::Complete {
                        intro_cyclic(m2, n - 1, b, c);
                    } else {
                        intro_linear(m2, n - 1, b, c);
                    }
                }
            } else if s.first() == c {
                if m2.state == RehexState::Complete {
                    intro_cyclic(m2, 0, b, c);
                } else {
                    intro_linear(m2, 0, b, c);
                }
            } else if n == 4 {
                intro_cyclic(m2, 4, b, c);
            }
        },
        RehexState::TwoTwo => {
            if s[1] == b && s[2] == c {
                intro_linear(m2, 1, b, c);
            } else if s[1] == b {
                assert(m2.arcs =~= s.insert(2, c));
            } else if s[0] == c && s[3] == b {
                intro_linear(m2, 1, b, c);
            }
        },
        RehexState::ThreeTwo => {
            if s[2] == b {
                if s[3] == c {
                    intro_linear(m2, 2, b, c);
                } else {
                    intro_cyclic(m2, 2, b, c);
                }
            } else if s[4] == b {
                intro_linear(m2, 1, b, c);
            } else {
                intro_cyclic(m2, 0, b, c);
            }
        },
        RehexState::TwoTwoTwo => {
            if s[1] == b && s[2] == c {
                intro_cyclic(m2, 1, b, c);
            } else if s[3] == b && s[4] == c {
                intro_cyclic(m2, 3, b, c);
            } else {
                intro_cyclic(m2, 5, b, c);
            }
        },
        RehexState::Complete => {},
    }
}

/// Every accumulator along the model run is well-formed.
pub proof fn lemma_models_at_wf(indices: Seq<u32>, len: nat, j: int)
    ensures
        forall|v: int| 0 <= v < len ==> wf(#[trigger] models_at(indices, len, j)[v]),
    decreases j,
{
    lemma_models_at_len(indices, len, j);
    if j > 0 {
        lemma_models_at_wf(indices, len, j - 1);
        lemma_models_at_len(indices, len, j - 1);
        let prev = models_at(indices, len, j - 1);
        let f = fact_of(indices, j - 1);
        assert(models_at(indices, len, j) == apply_fact(prev, f));
        assert forall|v: int| 0 <= v < len implies wf(
            #[trigger] models_at(indices, len, j)[v],
        ) by {
            if f.0 < len && v == f.0 as int {
                crate::accumulator::lemma_insert_wf(prev[v], f.1, f.2);
            }
        }
    }
}

/// Once recorded, a fact stays recorded for the rest of the run.
pub proof fn lemma_follow_monotone(
    indices: Seq<u32>,
    len: nat,
    j1: int,
    j2: int,
    v: int,
    x: usize,
    y: usize,
)
    requires
        0 <= j1 <= j2,
        0 <= v < len,
        follows_in(models_at(indices, len, j1)[v], x, y),
    ensures
        follows_in(models_at(indices, len, j2)[v], x, y),
    decreases j2 - j1,
{
    if j1 < j2 {
        lemma_follow_monotone(indices, len, j1, j2 - 1, v, x, y);
        lemma_models_at_wf(indices, len, j2 - 1);
        lemma_models_at_len(indices, len, j2 - 1);
        let prev = models_at(indices, len, j2 - 1);
        let f = fact_of(indices, j2 - 1);
        assert(models_at(indices, len, j2) == apply_fact(prev, f));
        if f.0 < len && f.0 as int == v {
            lemma_insert_preserves_follow(prev[v], f.1, f.2, x, y);
        }
    }
}

proof fn lemma_no_fault_at(models: Seq<Model>, k: int, v: int)
    requires
        0 <= k <= v < models.len(),
        first_vertex_fault_from(models, k) == None::<crate::batch::RehexError>,
    ensures
        vertex_fault(models[v], v as usize) is None,
    decreases v - k,
{
    if k < v {
        lemma_no_fault_at(models, k + 1, v);
    }
}

/// Closure on success: a batch that returns rows has closed every
/// vertex's cycle. No accumulator is left short of `Complete`, and
/// none contains its own vertex.
pub proof fn lemma_ok_all_complete(models: Seq<Model>, v: int)
    requires
        0 <= v < models.len(),
        first_vertex_fault_from(models, 0) == None::<crate::batch::RehexError>,
    ensures
        models[v].complete(),
        !models[v].arcs.contains(v as usize),
{
    lemma_no_fault_at(models, 0, v);
}

/// Once a vertex's cycle closes, later facts change nothing: the
/// accumulator is immutable from that point of the run on.
pub proof fn lemma_complete_absorbing(indices: Seq<u32>, len: nat, j1: int, j2: int, v: int)
    requires
        0 <= j1 <= j2,
        0 <= v < len,
        models_at(indices, len, j1)[v].complete(),
    ensures
        models_at(indices, len, j2)[v] == models_at(indices, len, j1)[v],
    decreases j2 - j1,
{
    if j1 < j2 {
        lemma_complete_absorbing(indices, len, j1, j2 - 1, v);
        lemma_models_at_len(indices, len, j2 - 1);
        let prev = models_at(indices, len, j2 - 1);
        let f = fact_of(indices, j2 - 1);
        assert(models_at(indices, len, j2) == apply_fact(prev, f));
    }
}

/// Winding preservation. Let fact `j` of the stream say "`c` follows
/// `b`" around center `a`. If, when it arrives, `a`'s accumulator is not
/// yet complete and absorbs it at a checked junction (the `captures`
/// premise — the machine's two one-sided junction checks are the inputs
/// this law must leave out), then the finished accumulator of `a` holds
/// `c` immediately after `b`.
pub proof fn lemma_winding_preserved(indices: Seq<u32>, len: nat, j: int)
    requires
        0 <= j < num_facts(indices),
        (fact_of(indices, j).0 as int) < len,
        !models_at(indices, len, j)[fact_of(indices, j).0 as int].complete(),
        !fact_overflows_at(indices, len, j),
        captures(
            models_at(indices, len, j)[fact_of(indices, j).0 as int],
            fact_of(indices, j).1,
            fact_of(indices, j).2,
        ),
    ensures
        follows_in(
            models_at(indices, len, num_facts(indices))[fact_of(indices, j).0 as int],
            fact_of(indices, j).1,
            fact_of(indices, j).2,
        ),
{
    let f = fact_of(indices, j);
    let v = f.0 as int;
    lemma_models_at_wf(indices, len, j);
    lemma_models_at_len(indices, len, j);
    lemma_insert_captures(models_at(indices, len, j)[v], f.1, f.2);
    assert(models_at(indices, len, j + 1) == apply_fact(models_at(indices, len, j), f));
    assert(follows_in(models_at(indices, len, j + 1)[v], f.1, f.2));
    lemma_follow_monotone(indices, len, j + 1, num_facts(indices), v, f.1, f.2);
}

/// Closure, at the level of one accumulator: an accumulator that holds
/// five pairwise distinct recorded facts has closed its cycle, and the
/// cycle length is five or six. (An open state has at most four
/// within-arc junctions, so five distinct facts cannot fit.)
pub proof fn lemma_five_facts_close(
    m: Model,
    f1: (usize, usize),
    f2: (usize, usize),
    f3: (usize, usize),
    f4: (usize, usize),
    f5: (usize, usize),
)
    requires
        wf(m),
        f1 != f2 && f1 != f3 && f1 != f4 && f1 != f5,
        f2 != f3 && f2 != f4 && f2 != f5,
        f3 != f4 && f3 != f5,
        f4 != f5,
        follows_in(m, f1.0, f1.1),
        follows_in(m, f2.0, f2.1),
        follows_in(m, f3.0, f3.1),
        follows_in(m, f4.0, f4.1),
        follows_in(m, f5.0, f5.1),
    ensures
        m.complete(),
        5 <= m.arcs.len() <= 6,
{
    let s = m.arcs;
    match m.state {
        RehexState::Empty => {},
        RehexState::Clear => {
            let i1 = choose|i: int| 0 <= i < s.len() - 1 && #[trigger] s[i] == f1.0 && s[i + 1] == f1.1;
            let i2 = choose|i: int| 0 <= i < s.len() - 1 && #[trigger] s[i] == f2.0 && s[i + 1] == f2.1;
            let i3 = choose|i: int| 0 <= i < s.len() - 1 && #[trigger] s[i] == f3.0 && s[i + 1] == f3.1;
            let i4 = choose|i: int| 0 <= i < s.len() - 1 && #[trigger] s[i] == f4.0 && s[i + 1] == f4.1;
            let i5 = choose|i: int| 0 <= i < s.len() - 1 && #[trigger] s[i] == f5.0 && s[i + 1] == f5.1;
            // Equal positions would make the facts equal, so the five
            // positions are pairwise distinct, yet at most four exist.
            assert(i1 != i2 && i1 != i3 && i1 != i4 && i1 != i5 && i2 != i3 && i2 != i4 && i2
                != i5 && i3 != i4 && i3 != i5 && i4 != i5);
            assert(false);
        },
        RehexState::TwoTwo => {
            // Only two junctions exist for five distinct facts.
            assert(false);
        },
        RehexState::ThreeTwo => {
            assert(false);
        },
        RehexState::TwoTwoTwo => {
            assert(false);
        },
        RehexState::Complete => {
            let n = s.len() as int;
            let i1 = choose|i: int| 0 <= i < s.len() && #[trigger] s[i] == f1.0 && s[cyclic_next(n, i)] == f1.1;
            let i2 = choose|i: int| 0 <= i < s.len() && #[trigger] s[i] == f2.0 && s[cyclic_next(n, i)] == f2.1;
            let i3 = choose|i: int| 0 <= i < s.len() && #[trigger] s[i] == f3.0 && s[cyclic_next(n, i)] == f3.1;
            let i4 = choose|i: int| 0 <= i < s.len() && #[trigger] s[i] == f4.0 && s[cyclic_next(n, i)] == f4.1;
            let i5 = choose|i: int| 0 <= i < s.len() && #[trigger] s[i] == f5.0 && s[cyclic_next(n, i)] == f5.1;
            // Five pairwise distinct cyclic positions need a cycle of
            // at least five.
            assert(i1 != i2 && i1 != i3 && i1 != i4 && i1 != i5 && i2 != i3 && i2 != i4 && i2
                != i5 && i3 != i4 && i3 != i5 && i4 != i5);
        },
    }
}

/// The neighbor pair a fact asserts: `c` follows `b`.
pub open spec fn fact_pair(indices: Seq<u32>, j: int) -> (usize, usize) {
    (fact_of(indices, j).1, fact_of(indices, j).2)
}

/// The proviso under which fact `j` around center `a` is surely
/// recorded: it arrives, in range, at a checked junction of a
/// not-yet-complete accumulator, and does not overflow (see
/// [`lemma_winding_preserved`]).
pub open spec fn fact_recorded_proviso(indices: Seq<u32>, len: nat, a: usize, j: int) -> bool {
    &&& 0 <= j < num_facts(indices)
    &&& fact_of(indices, j).0 == a
    &&& (a as int) < len
    &&& !models_at(indices, len, j)[a as int].complete()
    &&& !fact_overflows_at(indices, len, j)
    &&& captures(models_at(indices, len, j)[a as int], fact_of(indices, j).1, fact_of(indices, j).2)
}

/// Closure, over a whole run. Let five facts of the stream, asserting
/// pairwise distinct neighbor pairs, share the center `a`, and let each
/// arrive under the recording proviso. Then `a`'s finished accumulator
/// is a closed cycle of length five or six.
pub proof fn lemma_closure(
    indices: Seq<u32>,
    len: nat,
    a: usize,
    j1: int,
    j2: int,
    j3: int,
    j4: int,
    j5: int,
)
    requires
        fact_recorded_proviso(indices, len, a, j1),
        fact_recorded_proviso(indices, len, a, j2),
        fact_recorded_proviso(indices, len, a, j3),
        fact_recorded_proviso(indices, len, a, j4),
        fact_recorded_proviso(indices, len, a, j5),
        fact_pair(indices, j1) != fact_pair(indices, j2),
        fact_pair(indices, j1) != fact_pair(indices, j3),
        fact_pair(indices, j1) != fact_pair(indices, j4),
        fact_pair(indices, j1) != fact_pair(indices, j5),
        fact_pair(indices, j2) != fact_pair(indices, j3),
        fact_pair(indices, j2) != fact_pair(indices, j4),
        fact_pair(indices, j2) != fact_pair(indices, j5),
        fact_pair(indices, j3) != fact_pair(indices, j4),
        fact_pair(indices, j3) != fact_pair(indices, j5),
        fact_pair(indices, j4) != fact_pair(indices, j5),
    ensures
        models_at(indices, len, num_facts(indices))[a as int].complete(),
        5 <= models_at(indices, len, num_facts(indices))[a as int].arcs.len() <= 6,
{
    lemma_winding_preserved(indices, len, j1);
    lemma_winding_preserved(indices, len, j2);
    lemma_winding_preserved(indices, len, j3);
    lemma_winding_preserved(indices, len, j4);
    lemma_winding_preserved(indices, len, j5);
    lemma_models_at_wf(indices, len, num_facts(indices));
    lemma_models_at_len(indices, len, num_facts(indices));
    lemma_five_facts_close(
        models_at(indices, len, num_facts(indices))[a as int],
        fact_pair(indices, j1),
        fact_pair(indices, j2),
        fact_pair(indices, j3),
        fact_pair(indices, j4),
        fact_pair(indices, j5),
    );
}

/// Closure and sentinel shape, stitched together for one vertex. If
/// `a`'s finished accumulator records five pairwise distinct facts —
/// for instance because each arrived under the recording proviso of
/// [`lemma_winding_preserved`] — then its cycle is closed at length
/// five or six, and its output row is left-packed real neighbors: with
/// five, the sixth slot is the sentinel and no earlier slot is; with
/// six, no slot is.
pub proof fn lemma_closure_sentinel(
    indices: Seq<u32>,
    len: nat,
    a: usize,
    f1: (usize, usize),
    f2: (usize, usize),
    f3: (usize, usize),
    f4: (usize, usize),
    f5: (usize, usize),
)
    requires
        forall|i: int| 0 <= i < indices.len() ==> (indices[i] as int) < len as int,
        (a as int) < len <= usize::MAX,
        f1 != f2 && f1 != f3 && f1 != f4 && f1 != f5,
        f2 != f3 && f2 != f4 && f2 != f5,
        f3 != f4 && f3 != f5,
        f4 != f5,
        ({
            let fin = models_at(indices, len, num_facts(indices))[a as int];
            follows_in(fin, f1.0, f1.1) && follows_in(fin, f2.0, f2.1) && follows_in(
                fin,
                f3.0,
                f3.1,
            ) && follows_in(fin, f4.0, f4.1) && follows_in(fin, f5.0, f5.1)
        }),
    ensures
        ({
            let fin = models_at(indices, len, num_facts(indices))[a as int];
            &&& fin.complete()
            &&& 5 <= fin.arcs.len() <= 6
            &&& (fin.arcs.len() == 5 ==> pad(fin.arcs)[5] == usize::MAX && forall|k: int|
                0 <= k < 5 ==> pad(fin.arcs)[k] != usize::MAX)
            &&& (fin.arcs.len() == 6 ==> forall|k: int|
                0 <= k < 6 ==> pad(fin.arcs)[k] != usize::MAX)
        }),
{
    lemma_models_at_wf(indices, len, num_facts(indices));
    lemma_models_at_len(indices, len, num_facts(indices));
    lemma_models_at_bounded(indices, len, num_facts(indices));
    let fin = models_at(indices, len, num_facts(indices))[a as int];
    lemma_five_facts_close(fin, f1, f2, f3, f4, f5);
    assert forall|k: int| 0 <= k < fin.arcs.len() implies pad(fin.arcs)[k] != usize::MAX by {
        assert(models_at(indices, len, num_facts(indices))[a as int].arcs[k] < len);
    }
}

/// The position `k` steps after `p` in a cycle of length `len`.
pub open spec fn cyc_step(len: int, p: int, k: int) -> int
    decreases k,
{
    if k <= 0 {
        p
    } else {
        cyclic_next(len, cyc_step(len, p, k - 1))
    }
}

/// Whether reading `arcs` cyclically from position `r` spells out `ns`.
pub open spec fn rotation_matches(arcs: Seq<usize>, ns: Seq<usize>, r: int) -> bool {
    forall|k: int| 0 <= k < ns.len() ==> arcs[cyc_step(arcs.len() as int, r, k)] == ns[k]
}

/// Whether `arcs` is some rotation of `ns`.
pub open spec fn is_rotation_of(arcs: Seq<usize>, ns: Seq<usize>) -> bool {
    exists|r: int| 0 <= r < arcs.len() && #[trigger] rotation_matches(arcs, ns, r)
}

proof fn lemma_chain(m: Model, ns: Seq<usize>, p0: int, k: int)
    requires
        m.state == RehexState::Complete,
        ns.len() == m.arcs.len(),
        forall|k1: int, k2: int| 0 <= k1 < k2 < m.arcs.len() ==> m.arcs[k1] != m.arcs[k2],
        forall|j: int|
            0 <= j < ns.len() ==> follows_in(m, ns[j], ns[cyclic_next(ns.len() as int, j)]),
        0 <= p0 < m.arcs.len(),
        m.arcs[p0] == ns[0],
        0 <= k < ns.len(),
    ensures
        0 <= cyc_step(m.arcs.len() as int, p0, k) < m.arcs.len(),
        m.arcs[cyc_step(m.arcs.len() as int, p0, k)] == ns[k],
    decreases k,
{
    let L = m.arcs.len() as int;
    if k > 0 {
        lemma_chain(m, ns, p0, k - 1);
        let p = cyc_step(L, p0, k - 1);
        assert(follows_in(m, ns[k - 1], ns[cyclic_next(L, k - 1)]));
        assert(cyclic_next(L, k - 1) == k);
        let w = choose|i: int|
            0 <= i < m.arcs.len() && #[trigger] m.arcs[i] == ns[k - 1] && m.arcs[cyclic_next(
                L,
                i,
            )] == ns[k];
        if w != p {
            // Two different slots would hold the same neighbor.
            assert(m.arcs[w] == m.arcs[p]);
            assert(false);
        }
    }
}

/// A closed cycle that records every successive pair of one
/// duplicate-free neighbor cycle `ns`, in a buffer without duplicate
/// slots, is exactly `ns` up to rotation.
pub proof fn lemma_unique_cycle(m: Model, ns: Seq<usize>)
    requires
        wf(m),
        m.complete(),
        ns.len() == m.arcs.len(),
        forall|k1: int, k2: int| 0 <= k1 < k2 < m.arcs.len() ==> m.arcs[k1] != m.arcs[k2],
        forall|j: int|
            0 <= j < ns.len() ==> follows_in(m, ns[j], ns[cyclic_next(ns.len() as int, j)]),
    ensures
        is_rotation_of(m.arcs, ns),
{
    let L = m.arcs.len() as int;
    assert(follows_in(m, ns[0], ns[cyclic_next(L, 0)]));
    let next0 = ns[cyclic_next(L, 0)];
    let p0 = choose|i: int|
        0 <= i < m.arcs.len() && #[trigger] m.arcs[i] == ns[0] && m.arcs[cyclic_next(L, i)]
            == next0;
    assert forall|k: int| 0 <= k < ns.len() implies m.arcs[cyc_step(L, p0, k)] == ns[k] by {
        lemma_chain(m, ns, p0, k);
    }
    assert(rotation_matches(m.arcs, ns, p0));
}

/// Order-independence, at the level of finished accumulators: however
/// the facts were ordered, any two closed, duplicate-free cycles that
/// both record every successive pair of the same neighbor cycle `ns`
/// are rotations of `ns` — and so agree with each other up to rotation.
pub proof fn lemma_order_independence(m1: Model, m2: Model, ns: Seq<usize>)
    requires
        wf(m1),
        m1.complete(),
        ns.len() == m1.arcs.len(),
        forall|k1: int, k2: int| 0 <= k1 < k2 < m1.arcs.len() ==> m1.arcs[k1] != m1.arcs[k2],
        forall|j: int|
            0 <= j < ns.len() ==> follows_in(m1, ns[j], ns[cyclic_next(ns.len() as int, j)]),
        wf(m2),
        m2.complete(),
        ns.len() == m2.arcs.len(),
        forall|k1: int, k2: int| 0 <= k1 < k2 < m2.arcs.len() ==> m2.arcs[k1] != m2.arcs[k2],
        forall|j: int|
            0 <= j < ns.len() ==> follows_in(m2, ns[j], ns[cyclic_next(ns.len() as int, j)]),
    ensures
        is_rotation_of(m1.arcs, ns),
        is_rotation_of(m2.arcs, ns),
{
    lemma_unique_cycle(m1, ns);
    lemma_unique_cycle(m2, ns);
}

/// A fact recorded in a closed cycle stands in the padded output row
/// too: `b` in some real slot, `c` in the cyclically next real slot.
pub proof fn lemma_follow_in_row(m: Model, b: usize, c: usize)
    requires
        wf(m),
        m.complete(),
        follows_in(m, b, c),
    ensures
        exists|i: int|
            0 <= i < m.arcs.len() && pad(m.arcs)[i] == b && pad(m.arcs)[cyclic_next(
                m.arcs.len() as int,
                i,
            )] == c,
{
    let s = m.arcs;
    let i = choose|i: int| 0 <= i < s.len() && #[trigger] s[i] == b && s[cyclic_next(s.len() as int, i)] == c;
    assert(pad(s)[i] == b && pad(s)[cyclic_next(s.len() as int, i)] == c);
}

/// Sentinel correctness, for the accumulator of vertex `v` at the end of
/// a run whose indices all lie below the vertex count: with exactly five
/// neighbors the sixth output slot is the sentinel, with six neighbors
/// no slot is.
pub proof fn lemma_sentinel(indices: Seq<u32>, len: nat, v: int)
    requires
        forall|i: int| 0 <= i < indices.len() ==> (indices[i] as int) < len as int,
        0 <= v < len <= usize::MAX,
    ensures
        ({
            let arcs = models_at(indices, len, num_facts(indices))[v].arcs;
            (arcs.len() == 5 ==> pad(arcs)[5] == usize::MAX) && (arcs.len() == 6
                ==> forall|k: int| 0 <= k < 6 ==> pad(arcs)[k] != usize::MAX)
        }),
{
    lemma_models_at_bounded(indices, len, num_facts(indices));
    lemma_models_at_len(indices, len, num_facts(indices));
    let arcs = models_at(indices, len, num_facts(indices))[v].arcs;
    if arcs.len() == 6 {
        assert forall|k: int| 0 <= k < 6 implies pad(arcs)[k] != usize::MAX by {
            assert(models_at(indices, len, num_facts(indices))[v].arcs[k] < len);
        }
    }
}

/// Every element of every accumulator along the run is a vertex index
/// drawn from the triangle list, hence below the vertex count.
pub proof fn lemma_models_at_bounded(indices: Seq<u32>, len: nat, j: int)
    requires
        forall|i: int| 0 <= i < indices.len() ==> (indices[i] as int) < len as int,
        j <= num_facts(indices),
    ensures
        forall|v: int, k: int|
            0 <= v < len && 0 <= k < models_at(indices, len, j)[v].arcs.len() ==> (
            #[trigger] models_at(indices, len, j)[v].arcs[k]) < len,
    decreases j,
{
    lemma_models_at_len(indices, len, j);
    if j > 0 {
        lemma_models_at_bounded(indices, len, j - 1);
        lemma_models_at_wf(indices, len, j - 1);
        lemma_models_at_len(indices, len, j - 1);
        let prev = models_at(indices, len, j - 1);
        let f = fact_of(indices, j - 1);
        assert(models_at(indices, len, j) == apply_fact(prev, f));
        lemma_fact_values_bounded(indices, len, j - 1);
        assert forall|v: int, k: int|
            0 <= v < len && 0 <= k < models_at(indices, len, j)[v].arcs.len() implies (
        #[trigger] models_at(indices, len, j)[v].arcs[k]) < len by {
            let cur = models_at(indices, len, j)[v];
            if f.0 < len && v == f.0 as int {
                assert(cur == spec_insert(prev[v], f.1, f.2));
                assert(cur.arcs.contains(cur.arcs[k]));
                crate::accumulator::lemma_insert_elems(prev[v], f.1, f.2, cur.arcs[k]);
                if prev[v].arcs.contains(cur.arcs[k]) {
                    let k0 = choose|k0: int|
                        0 <= k0 < prev[v].arcs.len() && prev[v].arcs[k0] == cur.arcs[k];
                    assert(prev[v].arcs[k0] < len);
                }
            } else {
                assert(cur == prev[v]);
                assert(prev[v].arcs[k] < len);
            }
        }
    }
}

/// The two neighbor values of any in-range fact lie below the vertex
/// count whenever every triangle index does.
proof fn lemma_fact_values_bounded(indices: Seq<u32>, len: nat, j: int)
    requires
        forall|i: int| 0 <= i < indices.len() ==> (indices[i] as int) < len as int,
        0 <= j < num_facts(indices),
    ensures
        (fact_of(indices, j).1 as int) < len as int,
        (fact_of(indices, j).2 as int) < len as int,
{
    let t = j / 3;
    let tc = crate::batch::tri_count(indices);
    vstd::arithmetic::div_mod::lemma_div_pos_is_pos(j, 3);
    vstd::arithmetic::div_mod::lemma_div_is_ordered(j, 3 * tc - 1, 3);
    vstd::arithmetic::div_mod::lemma_fundamental_div_mod_converse(3 * tc - 1, 3, tc - 1, 2);
    vstd::arithmetic::div_mod::lemma_fundamental_div_mod(indices.len() as int, 3);
    vstd::arithmetic::div_mod::lemma_mod_bound(indices.len() as int, 3);
    assert(t <= tc - 1);
    assert(3 * t + 2 < indices.len());
}

/// Idempotent batching: the outcome of a run is a function of the input
/// alone, so two successful runs on identical input yield bit-identical
/// rows.
pub proof fn lemma_batch_deterministic(
    indices: Seq<u32>,
    len: nat,
    out1: Seq<Seq<usize>>,
    out2: Seq<Seq<usize>>,
)
    requires
        out1.len() == len,
        out2.len() == len,
        forall|v: int| 0 <= v < len ==> #[trigger] out1[v] == batch_rows(indices, len)[v],
        forall|v: int| 0 <= v < len ==> #[trigger] out2[v] == batch_rows(indices, len)[v],
    ensures
        out1 == out2,
{
    assert(out1 =~= out2);
}

} // verus!

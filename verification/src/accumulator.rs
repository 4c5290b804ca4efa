//! The per-vertex neighbor-ordering state machine.
//!
//! Each vertex owns one [`Accumulator`]. It consumes facts of the form
//! "`c` immediately follows `b` in the cyclic neighbor order around this
//! vertex" (one fact per incident triangle corner, in arbitrary order) and
//! incrementally merges them into a single closed cycle. The mathematical
//! transition is [`spec_insert`] over the abstract [`Model`]; the
//! executable [`Accumulator::insert`] is proved to implement it exactly.

use vstd::prelude::*;

use crate::arcbuf::arc_get;
use crate::arcbuf::arc_insert;
use crate::arcbuf::arc_len;
use crate::arcbuf::arc_new;
use crate::arcbuf::arc_pop;
use crate::arcbuf::arc_push;
use crate::arcbuf::arc_seq;
use crate::arcbuf::arc_swap_remove;

verus! {

/// How much of a vertex's cyclic neighbor order is known so far.
///
/// For reference, consider the following hexagon around a center `i`:
/// ```text
///   a---b
///  /     \
/// f   i   c
///  \     /
///   e---d
/// ```
/// The finished list for `i` is some rotation of `[a, b, c, d, e, f]`.
#[derive(Copy, Clone, PartialEq, Eq, Structural, Debug)]
pub enum RehexState {
    /// No neighbours have been seen.
    Empty,
    /// One contiguous arc (length two to five): the buffer is ordered
    /// sequentially so far, e.g. `[a, b, c]`.
    Clear,
    /// Two disjoint arcs of two, e.g. `[a, b] [d, e]`.
    TwoTwo,
    /// An arc of three then an arc of two, relative order unknown,
    /// e.g. `[a, b, c] [d, e]`.
    ThreeTwo,
    /// Three disjoint arcs of two, relative order unknown,
    /// e.g. `[b, c] [f, a] [d, e]`.
    TwoTwoTwo,
    /// The cycle is closed; further facts change nothing.
    Complete,
}

/// The abstract value of one accumulator: its fragmentation state and the
/// concatenated contents of its arcs.
pub ghost struct Model {
    pub state: RehexState,
    pub arcs: Seq<usize>,
}

/// Structural well-formedness: each fragmentation state fixes the length
/// of the concatenated arc buffer (a range, for `Clear` and `Complete`).
pub open spec fn wf(m: Model) -> bool {
    match m.state {
        RehexState::Empty => m.arcs.len() == 0,
        RehexState::Clear => 2 <= m.arcs.len() <= 5,
        RehexState::TwoTwo => m.arcs.len() == 4,
        RehexState::ThreeTwo => m.arcs.len() == 5,
        RehexState::TwoTwoTwo => m.arcs.len() == 6,
        RehexState::Complete => 2 <= m.arcs.len() <= 6,
    }
}

/// The one fact an accumulator cannot absorb: a single arc already holds
/// five elements, and the fact touches neither of its endpoints. Absorbing
/// it would imply a seventh neighbor, which the domain rules out.
pub open spec fn spec_overflows(m: Model, b: usize, c: usize) -> bool {
    m.state == RehexState::Clear && m.arcs.len() == 5 && m.arcs.last() != b && m.arcs.first()
        != c
}

/// The state-machine transition: how one accumulator absorbs the fact
/// "`c` immediately follows `b`". Total: on the overflow fact it leaves
/// the model unchanged (the executable side reports the failure instead),
/// and a `Complete` accumulator absorbs everything as a no-op.
pub open spec fn spec_insert(m: Model, b: usize, c: usize) -> Model {
    let s = m.arcs;
    match m.state {
        RehexState::Empty => Model { state: RehexState::Clear, arcs: seq![b, c] },
        RehexState::Clear => if s.last() == b {
            if s.first() == c {
                // The fact closes the single arc into a cycle.
                Model { state: RehexState::Complete, arcs: s }
            } else {
                Model {
                    state: if s.len() == 5 {
                        RehexState::Complete
                    } else {
                        RehexState::Clear
                    },
                    arcs: s.push(c),
                }
            }
        } else if s.first() == c {
            Model {
                state: if s.len() == 5 {
                    RehexState::Complete
                } else {
                    RehexState::Clear
                },
                arcs: seq![b] + s,
            }
        } else if s.len() == 2 {
            Model { state: RehexState::TwoTwo, arcs: s + seq![b, c] }
        } else if s.len() == 3 {
            Model { state: RehexState::ThreeTwo, arcs: s + seq![b, c] }
        } else if s.len() == 4 {
            // Four in one arc plus a disjoint pair accounts for all six.
            Model { state: RehexState::Complete, arcs: s + seq![b, c] }
        } else {
            // The overflow fact: left to the caller to reject.
            m
        },
        RehexState::TwoTwo => if s[1] == b {
            if s[2] == c {
                // The fact is exactly the gap between the two arcs.
                Model { state: RehexState::Clear, arcs: s }
            } else {
                Model { state: RehexState::ThreeTwo, arcs: s.insert(2, c) }
            }
        } else if s[0] == c {
            if s[3] == b {
                // Both junctions match at once: the second arc precedes
                // the first in the cycle.
                Model { state: RehexState::Clear, arcs: s.subrange(2, 4) + s.subrange(0, 2) }
            } else {
                Model { state: RehexState::ThreeTwo, arcs: seq![b] + s }
            }
        } else if s[2] == c {
            // `b` extends the head of the second arc; that arc moves first.
            Model {
                state: RehexState::ThreeTwo,
                arcs: seq![b] + s.subrange(2, 4) + s.subrange(0, 2),
            }
        } else {
            Model { state: RehexState::TwoTwoTwo, arcs: s + seq![b, c] }
        },
        RehexState::ThreeTwo => if s[2] == b {
            if s[3] == c {
                // The fact is exactly the gap between the two arcs.
                Model { state: RehexState::Clear, arcs: s }
            } else {
                Model { state: RehexState::Complete, arcs: s.insert(3, c) }
            }
        } else if s[4] == b {
            // The second arc precedes the first in the cycle.
            Model { state: RehexState::Clear, arcs: s.subrange(3, 5) + s.subrange(0, 3) }
        } else {
            Model { state: RehexState::Complete, arcs: seq![b] + s }
        },
        RehexState::TwoTwoTwo => if (s[1] == b && s[2] == c) || (s[3] == b && s[4] == c) || (s[5]
            == b && s[0] == c) {
            // One of the three junctions of the stored order matches:
            // the arcs already stand in cyclic order.
            Model { state: RehexState::Complete, arcs: s }
        } else {
            // None matches, so the only consistent cyclic order swaps the
            // last two arcs.
            Model {
                state: RehexState::Complete,
                arcs: s.subrange(0, 2) + s.subrange(4, 6) + s.subrange(2, 4),
            }
        },
        RehexState::Complete => m,
    }
}

/// The transition preserves well-formedness.
pub proof fn lemma_insert_wf(m: Model, b: usize, c: usize)
    requires
        wf(m),
    ensures
        wf(spec_insert(m, b, c)),
{
}

/// The transition only ever adds the two vertices of the new fact to the
/// buffer: no other element appears.
pub proof fn lemma_insert_elems(m: Model, b: usize, c: usize, x: usize)
    requires
        wf(m),
        spec_insert(m, b, c).arcs.contains(x),
    ensures
        m.arcs.contains(x) || x == b || x == c,
{
    let s = m.arcs;
    let s2 = spec_insert(m, b, c).arcs;
    let i = choose|i: int| 0 <= i < s2.len() && s2[i] == x;
    assert(s2[i] == x);
}

impl Model {
    /// Whether the cycle is closed.
    pub open spec fn complete(self) -> bool {
        self.state == RehexState::Complete
    }
}

/// One vertex's ordering accumulator: the fragmentation state plus the
/// concatenated arc buffer.
pub struct Accumulator {
    state: RehexState,
    arcs: arrayvec::ArrayVec<usize, 6>,
}

impl View for Accumulator {
    type V = Model;

    closed spec fn view(&self) -> Model {
        Model { state: self.state, arcs: arc_seq(self.arcs) }
    }
}

impl Accumulator {
    /// A fresh accumulator: no neighbors seen yet.
    pub fn new() -> (r: Accumulator)
        ensures
            r@ == (Model { state: RehexState::Empty, arcs: Seq::<usize>::empty() }),
            wf(r@),
    {
        Accumulator { state: RehexState::Empty, arcs: arc_new() }
    }

    /// The current fragmentation state.
    pub fn fragmentation(&self) -> (s: RehexState)
        ensures
            s == self@.state,
    {
        self.state
    }

    /// How many neighbors are known so far.
    pub fn neighbor_count(&self) -> (n: usize)
        ensures
            n == self@.arcs.len(),
    {
        arc_len(&self.arcs)
    }

    /// The `i`-th element of the concatenated arc buffer.
    pub fn neighbor_at(&self, i: usize) -> (x: usize)
        requires
            i < self@.arcs.len(),
        ensures
            x == self@.arcs[i as int],
    {
        arc_get(&self.arcs, i)
    }

    /// Whether the arc buffer holds `x` anywhere.
    pub fn contains(&self, x: usize) -> (r: bool)
        ensures
            r == self@.arcs.contains(x),
    {
        let n = arc_len(&self.arcs);
        let mut i: usize = 0;
        while i < n
            invariant
                i <= n,
                n == self@.arcs.len(),
                forall|k: int| 0 <= k < i ==> self@.arcs[k] != x,
            decreases n - i,
        {
            if arc_get(&self.arcs, i) == x {
                return true;
            }
            i += 1;
        }
        false
    }

    /// Records that `c` immediately follows `b` in the cyclic neighbor
    /// order around this vertex. Returns `false` exactly on the one fact
    /// the machine cannot absorb (a seventh neighbor implied); the
    /// accumulator is then left unchanged.
    pub fn insert(&mut self, b: usize, c: usize) -> (r: bool)
        requires
            wf(old(self)@),
        ensures
            wf(final(self)@),
            r == !spec_overflows(old(self)@, b, c),
            r ==> final(self)@ == spec_insert(old(self)@, b, c),
            !r ==> final(self)@ == old(self)@,
    {
        let ghost m = self@;
        let ghost s = m.arcs;
        match self.state {
            RehexState::Empty => {
                arc_push(&mut self.arcs, b);
                arc_push(&mut self.arcs, c);
                self.state = RehexState::Clear;
                proof {
                    assert(arc_seq(self.arcs) =~= seq![b, c]);
                }
                true
            },
            RehexState::Clear => {
                let n = arc_len(&self.arcs);
                if arc_get(&self.arcs, n - 1) == b {
                    if arc_get(&self.arcs, 0) == c {
                        self.state = RehexState::Complete;
                    } else {
                        arc_push(&mut self.arcs, c);
                        if n + 1 == 6 {
                            self.state = RehexState::Complete;
                        }
                    }
                    true
                } else if arc_get(&self.arcs, 0) == c {
                    arc_insert(&mut self.arcs, 0, b);
                    if n + 1 == 6 {
                        self.state = RehexState::Complete;
                    }
                    proof {
                        assert(arc_seq(self.arcs) =~= seq![b] + s);
                    }
                    true
                } else if n == 5 {
                    false
                } else {
                    self.state = match n {
                        2 => RehexState::TwoTwo,
                        3 => RehexState::ThreeTwo,
                        _ => RehexState::Complete,
                    };
                    arc_push(&mut self.arcs, b);
                    arc_push(&mut self.arcs, c);
                    proof {
                        assert(arc_seq(self.arcs) =~= s + seq![b, c]);
                    }
                    true
                }
            },
            RehexState::TwoTwo => {
                if arc_get(&self.arcs, 1) == b {
                    if arc_get(&self.arcs, 2) == c {
                        self.state = RehexState::Clear;
                    } else {
                        arc_insert(&mut self.arcs, 2, c);
                        self.state = RehexState::ThreeTwo;
                    }
                } else if arc_get(&self.arcs, 0) == c {
                    if arc_get(&self.arcs, 3) == b {
                        let temp = arc_get(&self.arcs, 2);
                        arc_pop(&mut self.arcs);
                        arc_pop(&mut self.arcs);
                        arc_insert(&mut self.arcs, 0, temp);
                        arc_insert(&mut self.arcs, 1, b);
                        self.state = RehexState::Clear;
                        proof {
                            assert(arc_seq(self.arcs) =~= s.subrange(2, 4) + s.subrange(0, 2));
                        }
                    } else {
                        arc_insert(&mut self.arcs, 0, b);
                        self.state = RehexState::ThreeTwo;
                        proof {
                            assert(arc_seq(self.arcs) =~= seq![b] + s);
                        }
                    }
                } else if arc_get(&self.arcs, 2) == c {
                    arc_insert(&mut self.arcs, 0, b);
                    let t2 = arc_swap_remove(&mut self.arcs, 2);
                    let t1 = arc_swap_remove(&mut self.arcs, 1);
                    arc_push(&mut self.arcs, t1);
                    arc_push(&mut self.arcs, t2);
                    self.state = RehexState::ThreeTwo;
                    proof {
                        assert(arc_seq(self.arcs) =~= seq![b] + s.subrange(2, 4) + s.subrange(
                            0,
                            2,
                        ));
                    }
                } else {
                    arc_push(&mut self.arcs, b);
                    arc_push(&mut self.arcs, c);
                    self.state = RehexState::TwoTwoTwo;
                    proof {
                        assert(arc_seq(self.arcs) =~= s + seq![b, c]);
                    }
                }
                true
            },
            RehexState::ThreeTwo => {
                if arc_get(&self.arcs, 2) == b {
                    if arc_get(&self.arcs, 3) == c {
                        self.state = RehexState::Clear;
                    } else {
                        arc_insert(&mut self.arcs, 3, c);
                        self.state = RehexState::Complete;
                    }
                } else {
                    if arc_get(&self.arcs, 4) == b {
                        arc_pop(&mut self.arcs);
                        let temp = match arc_pop(&mut self.arcs) {
                            Some(t) => t,
                            None => 0,  // unreachable: the buffer holds three elements here
                        };
                        arc_insert(&mut self.arcs, 0, b);
                        arc_insert(&mut self.arcs, 0, temp);
                        self.state = RehexState::Clear;
                        proof {
                            assert(arc_seq(self.arcs) =~= s.subrange(3, 5) + s.subrange(0, 3));
                        }
                    } else {
                        arc_insert(&mut self.arcs, 0, b);
                        self.state = RehexState::Complete;
                        proof {
                            assert(arc_seq(self.arcs) =~= seq![b] + s);
                        }
                    }
                }
                true
            },
            RehexState::TwoTwoTwo => {
                let j0 = arc_get(&self.arcs, 1) == b && arc_get(&self.arcs, 2) == c;
                let j1 = arc_get(&self.arcs, 3) == b && arc_get(&self.arcs, 4) == c;
                let j2 = arc_get(&self.arcs, 5) == b && arc_get(&self.arcs, 0) == c;
                if !j0 && !j1 && !j2 {
                    let t2 = arc_swap_remove(&mut self.arcs, 3);
                    let t1 = arc_swap_remove(&mut self.arcs, 2);
                    arc_push(&mut self.arcs, t1);
                    arc_push(&mut self.arcs, t2);
                    proof {
                        assert(arc_seq(self.arcs) =~= s.subrange(0, 2) + s.subrange(4, 6)
                            + s.subrange(2, 4));
                    }
                }
                self.state = RehexState::Complete;
                true
            },
            RehexState::Complete => true,
        }
    }
}

} // verus!

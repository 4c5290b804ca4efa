//! End-to-end tests of the batch transform on closed meshes, and
//! branch-by-branch tests of the per-vertex accumulator.

use rehexed::accumulator::Accumulator;
use rehexed::accumulator::RehexState;
use rehexed::rehexed;
use rehexed::RehexError;

const M: usize = usize::MAX;

/// Whether `row` is some rotation of `expect`.
fn is_rotation(row: &[usize], expect: &[usize]) -> bool {
    let n = expect.len();
    row.len() == n && (0..n).any(|r| (0..n).all(|i| row[i] == expect[(i + r) % n]))
}

/// The real (non-sentinel) slots of a row.
fn real_slots(row: &[usize; 6]) -> Vec<usize> {
    row.iter().copied().take_while(|&x| x != M).collect()
}

/// Whether, among the real slots of `row`, `c` stands cyclically right
/// after `b`.
fn follows_cyclically(row: &[usize; 6], b: usize, c: usize) -> bool {
    let real = real_slots(row);
    let k = real.len();
    (0..k).any(|i| real[i] == b && real[(i + 1) % k] == c)
}

/// Feeds a fact sequence to one fresh accumulator; every fact must be
/// absorbed.
fn feed(facts: &[(usize, usize)]) -> Accumulator {
    let mut acc = Accumulator::new();
    for &(b, c) in facts {
        assert!(acc.insert(b, c));
    }
    acc
}

/// The accumulator's concatenated arc buffer.
fn arcs_of(acc: &Accumulator) -> Vec<usize> {
    (0..acc.neighbor_count()).map(|i| acc.neighbor_at(i)).collect()
}

/// A tetrahedron: four vertices, each with a closed three-cycle.
fn tetrahedron() -> Vec<u32> {
    vec![0, 1, 2, 0, 2, 3, 0, 3, 1, 1, 3, 2]
}

/// An icosahedron: twelve vertices, each with a closed five-cycle.
fn icosahedron() -> Vec<u32> {
    vec![
        9, 8, 1, 8, 6, 7, 6, 2, 10, 2, 4, 11, 4, 9, 5, 3, 8, 9, 3, 6, 8, 3, 2, 6, 3, 4, 2, 3, 9,
        4, 7, 1, 8, 10, 7, 6, 11, 10, 2, 5, 11, 4, 1, 5, 9, 0, 10, 11, 0, 7, 10, 0, 1, 7, 0, 5,
        1, 0, 11, 5,
    ]
}

/// The same icosahedron with its triangles in another order.
fn icosahedron_permuted() -> Vec<u32> {
    vec![
        1, 5, 9, 9, 8, 1, 3, 8, 9, 10, 7, 6, 0, 10, 11, 11, 10, 2, 2, 4, 11, 3, 2, 6, 5, 11, 4,
        3, 4, 2, 0, 11, 5, 7, 1, 8, 8, 6, 7, 3, 9, 4, 4, 9, 5, 0, 7, 10, 0, 5, 1, 3, 6, 8, 6, 2,
        10, 0, 1, 7,
    ]
}

/// A once-subdivided tetrahedron: the four corners keep three
/// neighbors, the six edge midpoints get six.
fn subdivided_tetrahedron() -> Vec<u32> {
    vec![
        0, 4, 6, 4, 1, 5, 6, 5, 2, 4, 5, 6, 0, 6, 8, 6, 2, 7, 8, 7, 3, 6, 7, 8, 0, 8, 4, 8, 3,
        9, 4, 9, 1, 8, 9, 4, 1, 9, 5, 9, 3, 7, 5, 7, 2, 9, 7, 5,
    ]
}

#[test]
fn tetrahedron_closes_every_vertex() {
    let out = rehexed(&tetrahedron(), 4).unwrap();
    assert_eq!(
        out,
        vec![[1, 2, 3, M, M, M], [2, 0, 3, M, M, M], [3, 0, 1, M, M, M], [1, 0, 2, M, M, M]]
    );
}

#[test]
fn icosahedron_pentagon_rows_get_sentinel() {
    // Every icosahedron vertex has exactly five neighbors: five real
    // slots, the sixth the sentinel.
    let out = rehexed(&icosahedron(), 12).unwrap();
    assert_eq!(out[0], [5, 1, 7, 10, 11, M]);
    assert_eq!(out[9], [5, 4, 3, 8, 1, M]);
    for row in &out {
        assert_eq!(real_slots(row).len(), 5);
        assert_eq!(row[5], M);
    }
}

#[test]
fn hexagon_rows_have_no_sentinel() {
    // Each edge midpoint of the subdivided tetrahedron has six
    // neighbors: no slot holds the sentinel.
    let out = rehexed(&subdivided_tetrahedron(), 10).unwrap();
    assert_eq!(
        out,
        vec![
            [4, 6, 8, M, M, M],
            [5, 4, 9, M, M, M],
            [7, 6, 5, M, M, M],
            [9, 8, 7, M, M, M],
            [9, 1, 5, 6, 0, 8],
            [7, 2, 6, 4, 1, 9],
            [8, 0, 4, 5, 2, 7],
            [9, 3, 8, 6, 2, 5],
            [4, 0, 6, 7, 3, 9],
            [5, 1, 4, 8, 3, 7],
        ]
    );
    for v in 4..10 {
        assert!(out[v].iter().all(|&x| x != M));
    }
}

#[test]
fn winding_is_preserved() {
    for (indices, len) in [
        (tetrahedron(), 4),
        (icosahedron(), 12),
        (subdivided_tetrahedron(), 10),
    ] {
        let out = rehexed(&indices, len).unwrap();
        for tri in indices.chunks(3) {
            let (a, b, c) = (tri[0] as usize, tri[1] as usize, tri[2] as usize);
            for (center, p, q) in [(a, b, c), (c, a, b), (b, c, a)] {
                assert!(follows_cyclically(&out[center], p, q));
            }
        }
    }
}

#[test]
fn no_row_contains_its_own_vertex() {
    let out = rehexed(&icosahedron(), 12).unwrap();
    for (v, row) in out.iter().enumerate() {
        assert!(!row.contains(&v));
    }
}

#[test]
fn permuted_triangles_give_rotated_rows() {
    let out1 = rehexed(&icosahedron(), 12).unwrap();
    let out2 = rehexed(&icosahedron_permuted(), 12).unwrap();
    for v in 0..12 {
        assert!(is_rotation(&real_slots(&out1[v]), &real_slots(&out2[v])));
    }
}

#[test]
fn identical_runs_are_bit_identical() {
    let indices = icosahedron();
    let out1 = rehexed(&indices, 12).unwrap();
    let out2 = rehexed(&indices, 12).unwrap();
    assert_eq!(out1, out2);
}

#[test]
fn trailing_partial_triangle_is_ignored() {
    let whole = tetrahedron();
    let mut ragged = tetrahedron();
    ragged.push(1);
    assert_eq!(rehexed(&whole, 4).unwrap(), rehexed(&ragged, 4).unwrap());
}

#[test]
fn empty_input_with_no_vertices_is_fine() {
    assert_eq!(rehexed(&[], 0).unwrap(), Vec::<[usize; 6]>::new());
}

#[test]
fn vertex_without_facts_is_incomplete() {
    let r = rehexed(&[], 3);
    assert_eq!(r, Err(RehexError::IncompleteVertex { vertex: 0, state: RehexState::Empty }));
}

#[test]
fn open_fan_is_reported_incomplete() {
    // One lone triangle leaves every vertex with a single open arc.
    let r = rehexed(&[0, 1, 2], 3);
    assert_eq!(r, Err(RehexError::IncompleteVertex { vertex: 0, state: RehexState::Clear }));
}

#[test]
fn lone_pentagon_fan_leaves_rim_vertices_open() {
    // Five triangles close the center's pentagon, but every rim vertex
    // is left with one open arc; adjacency is only useful as a
    // complete set, so the batch aborts on the first such vertex.
    let indices: Vec<u32> = vec![0, 1, 2, 0, 2, 3, 0, 3, 4, 0, 4, 5, 0, 5, 1];
    let r = rehexed(&indices, 6);
    assert_eq!(r, Err(RehexError::IncompleteVertex { vertex: 1, state: RehexState::Clear }));
}

#[test]
fn self_adjacent_vertex_is_reported() {
    // A degenerate triangle makes vertex 0 its own neighbor; that is
    // reported ahead of any incompleteness.
    let r = rehexed(&[0, 1, 0], 2);
    assert_eq!(r, Err(RehexError::SelfAdjacent { vertex: 0 }));
}

#[test]
fn seventh_neighbor_is_rejected() {
    let indices: Vec<u32> = vec![0, 1, 2, 0, 2, 3, 0, 3, 4, 0, 4, 5, 0, 7, 8];
    let r = rehexed(&indices, 9);
    assert_eq!(r, Err(RehexError::OverlongCycle { vertex: 0 }));
}

#[test]
fn one_sided_junction_check_is_order_sensitive() {
    // A valid hexagon, but ordered so that the fact (5,6) reaches an
    // accumulator holding [1,2,3] and [4,5]. Only the tail of the
    // second arc is compared, so the machine merges the arcs and drops
    // neighbor 6; the later fact (6,1) then looks like a seventh
    // neighbor and the batch aborts.
    let indices: Vec<u32> = vec![0, 1, 2, 0, 2, 3, 0, 4, 5, 0, 5, 6, 0, 6, 1, 0, 3, 4];
    let r = rehexed(&indices, 7);
    assert_eq!(r, Err(RehexError::OverlongCycle { vertex: 0 }));
}

#[test]
fn facts_in_reverse_order_grow_the_head() {
    let acc = feed(&[(6, 1), (5, 6), (4, 5), (3, 4), (2, 3)]);
    assert_eq!(acc.fragmentation(), RehexState::Complete);
    assert_eq!(arcs_of(&acc), vec![2, 3, 4, 5, 6, 1]);
}

#[test]
fn pentagon_fan_closes_at_five() {
    let mut acc = feed(&[(1, 2), (2, 3), (3, 4), (4, 5), (5, 1)]);
    assert_eq!(acc.fragmentation(), RehexState::Complete);
    assert_eq!(arcs_of(&acc), vec![1, 2, 3, 4, 5]);
    // The pentagon is closed; even a wild fact is absorbed as a no-op.
    assert!(acc.insert(7, 8));
    assert_eq!(arcs_of(&acc), vec![1, 2, 3, 4, 5]);
}

#[test]
fn three_disjoint_pairs_are_reordered() {
    // Three arcs with no shared endpoint: [1,2], [5,6], [3,4]; the
    // fourth fact (2,3) matches none of the stored junctions, so the
    // last two arcs must swap before the merge.
    let acc = feed(&[(1, 2), (5, 6), (3, 4), (2, 3)]);
    assert_eq!(acc.fragmentation(), RehexState::Complete);
    assert_eq!(arcs_of(&acc), vec![1, 2, 3, 4, 5, 6]);
}

#[test]
fn three_disjoint_pairs_already_in_order() {
    // Three disjoint arcs already cyclically ordered: the fourth fact
    // matches a stored junction and no reorder happens.
    let acc = feed(&[(1, 2), (3, 4), (5, 6), (2, 3)]);
    assert_eq!(acc.fragmentation(), RehexState::Complete);
    assert_eq!(arcs_of(&acc), vec![1, 2, 3, 4, 5, 6]);
}

#[test]
fn two_arcs_swap_when_both_junctions_match() {
    // Arcs [3,4] and [1,2]; the fact (2,3) matches the head of the
    // first and the tail of the second at once, so the second arc
    // moves in front.
    let acc = feed(&[(3, 4), (1, 2), (2, 3)]);
    assert_eq!(acc.fragmentation(), RehexState::Clear);
    assert_eq!(arcs_of(&acc), vec![1, 2, 3, 4]);
}

#[test]
fn arc_of_three_meets_arc_of_two() {
    // Arcs [1,2,3] and [4,5]; the fact (3,4) closes the gap, then the
    // arc grows to the full hexagon.
    let acc = feed(&[(1, 2), (2, 3), (4, 5), (3, 4), (5, 6), (6, 1)]);
    assert_eq!(acc.fragmentation(), RehexState::Complete);
    assert_eq!(arcs_of(&acc), vec![1, 2, 3, 4, 5, 6]);
}

#[test]
fn four_and_two_complete_at_once() {
    // The arc [1,2,3,4] plus a disjoint pair accounts for all six
    // neighbors, closing the cycle in one step.
    let acc = feed(&[(1, 2), (2, 3), (3, 4), (5, 6)]);
    assert_eq!(acc.fragmentation(), RehexState::Complete);
    assert_eq!(arcs_of(&acc), vec![1, 2, 3, 4, 5, 6]);
}

#[test]
fn new_neighbor_lands_between_two_arcs() {
    // Arcs [1,2] and [3,4]; the fact (2,9) inserts the new neighbor 9
    // right between them.
    let acc = feed(&[(1, 2), (3, 4), (2, 9), (9, 3), (4, 5)]);
    assert_eq!(acc.fragmentation(), RehexState::Complete);
    assert_eq!(arcs_of(&acc), vec![1, 2, 9, 3, 4, 5]);
}

#[test]
fn new_neighbor_lands_before_both_arcs() {
    // Arcs [1,2] and [3,4]; the fact (9,1) extends the head of the
    // first arc.
    let acc = feed(&[(1, 2), (3, 4), (9, 1), (2, 3), (4, 5)]);
    assert_eq!(acc.fragmentation(), RehexState::Complete);
    assert_eq!(arcs_of(&acc), vec![9, 1, 2, 3, 4, 5]);
}

#[test]
fn second_arc_moves_to_the_front() {
    // Arcs [1,2] and [3,4]; the fact (9,3) extends the head of the
    // second arc, which then has to precede the first.
    let acc = feed(&[(1, 2), (3, 4), (9, 3), (2, 9), (4, 5)]);
    assert_eq!(acc.fragmentation(), RehexState::Complete);
    assert_eq!(arcs_of(&acc), vec![1, 2, 9, 3, 4, 5]);
}

#[test]
fn sixth_neighbor_splits_the_gap() {
    // Arcs [1,2,3] and [4,5]; the fact (3,9) puts the last unseen
    // neighbor between the arcs and closes the cycle.
    let acc = feed(&[(1, 2), (2, 3), (4, 5), (3, 9)]);
    assert_eq!(acc.fragmentation(), RehexState::Complete);
    assert_eq!(arcs_of(&acc), vec![1, 2, 3, 9, 4, 5]);
}

#[test]
fn head_extension_closes_the_cycle() {
    // Arcs [1,2,3] and [4,5]; the fact (9,1) matches neither junction
    // endpoint the machine checks first, so 9 goes in front and the
    // cycle closes.
    let acc = feed(&[(1, 2), (2, 3), (4, 5), (9, 1)]);
    assert_eq!(acc.fragmentation(), RehexState::Complete);
    assert_eq!(arcs_of(&acc), vec![9, 1, 2, 3, 4, 5]);
}

#[test]
fn accumulator_assembles_a_fan() {
    let acc = feed(&[(2, 3), (1, 2), (3, 4)]);
    assert_eq!(acc.fragmentation(), RehexState::Clear);
    assert_eq!(arcs_of(&acc), vec![1, 2, 3, 4]);
    assert!(acc.contains(3));
    assert!(!acc.contains(9));
}

#[test]
fn accumulator_rejects_a_seventh_neighbor() {
    let mut acc = feed(&[(1, 2), (2, 3), (3, 4), (4, 5)]);
    // A fact touching neither endpoint of the full arc would imply a
    // seventh neighbor: it is refused and the accumulator is unchanged.
    assert!(!acc.insert(8, 9));
    assert_eq!(acc.fragmentation(), RehexState::Clear);
    assert_eq!(arcs_of(&acc), vec![1, 2, 3, 4, 5]);
    assert!(!acc.contains(8));
}

//! The graph of a triangulation: one node for every point, one edge for every
//! side of a triangle, however many triangles share the side.

use vstd::prelude::*;
use petgraph::graph::{Graph, NodeIndex};
use petgraph::Undirected;

verus! {

/// The graph type of `petgraph`. Nothing of its inside is visible here.
#[verifier::external_type_specification]
#[verifier::external_body]
#[verifier::reject_recursive_types(N)]
#[verifier::reject_recursive_types(E)]
#[verifier::reject_recursive_types(Ty)]
#[verifier::reject_recursive_types(Ix)]
pub struct ExGraph<N, E, Ty, Ix>(Graph<N, E, Ty, Ix>);

/// The marker of `petgraph` for graphs whose edges have no direction.
#[verifier::external_type_specification]
#[verifier::external_body]
pub struct ExUndirected(Undirected);

/// The weights of a graph's nodes, in the order of their indices.
pub uninterp spec fn graph_nodes(graph: Graph<usize, (), Undirected, u32>) -> Seq<usize>;

/// The two ends of each of a graph's edges, as indices of nodes, in the order
/// in which the edges were added.
pub uninterp spec fn graph_edges(graph: Graph<usize, (), Undirected, u32>) -> Seq<(usize, usize)>;

/// `Graph::new_undirected` of `petgraph`: a graph without nodes and edges.
#[verifier::external_body]
fn new_graph() -> (graph: Graph<usize, (), Undirected, u32>)
    ensures
        graph_nodes(graph) == Seq::<usize>::empty(),
        graph_edges(graph) == Seq::<(usize, usize)>::empty(),
{
    Graph::new_undirected()
}

/// `Graph::add_node` of `petgraph`: the node joins the graph after all
/// others, and its index, which is returned, is their number. The crate
/// panics once the indices of 32 bits are used up, so a full graph is left
/// out.
#[verifier::external_body]
fn add_node(graph: &mut Graph<usize, (), Undirected, u32>, weight: usize) -> (index: usize)
    requires
        graph_nodes(*old(graph)).len() < u32::MAX,
    ensures
        graph_nodes(*final(graph)) == graph_nodes(*old(graph)).push(weight),
        graph_edges(*final(graph)) == graph_edges(*old(graph)),
        index == graph_nodes(*old(graph)).len(),
{
    graph.add_node(weight).index()
}

/// `Graph::add_edge` of `petgraph`: the edge joins the graph after all
/// others, duplicates included. The crate panics where an end is no node of
/// the graph and once the indices of 32 bits are used up, so both are left
/// out.
#[verifier::external_body]
fn add_edge(graph: &mut Graph<usize, (), Undirected, u32>, from: usize, to: usize)
    requires
        from < graph_nodes(*old(graph)).len(),
        to < graph_nodes(*old(graph)).len(),
        graph_edges(*old(graph)).len() < u32::MAX,
    ensures
        graph_nodes(*final(graph)) == graph_nodes(*old(graph)),
        graph_edges(*final(graph)) == graph_edges(*old(graph)).push((from, to)),
{
    graph.add_edge(NodeIndex::new(from), NodeIndex::new(to), ());
}

/// Why a list of triangles gives no graph.
#[derive(Debug, Copy, Clone, PartialEq, Eq, Structural)]
pub enum TriangulationError {
    /// The list of corners is no list of triples.
    NotTriples,
    /// There are more points or more corners than a graph can index.
    TooLarge,
    /// A corner names a point that does not exist.
    UnknownPoint,
}

/// A side without its direction: the smaller end first.
pub open spec fn spec_undirected(side: (usize, usize)) -> (usize, usize) {
    if side.0 < side.1 {
        side
    } else {
        (side.1, side.0)
    }
}

/// Side `k` of a list of triangles: from corner `k` to the corner that
/// follows it in its triangle, the last corner leading back to the first.
pub open spec fn spec_side(triangles: Seq<usize>, k: int) -> (usize, usize) {
    (triangles[k], triangles[3 * (k / 3) + (k % 3 + 1) % 3])
}

/// The first `count` sides of a list of triangles.
pub open spec fn spec_sides(triangles: Seq<usize>, count: int) -> Seq<(usize, usize)> {
    Seq::new(count as nat, |k: int| spec_side(triangles, k))
}

/// Whether a side occurs among `sides`, in either direction.
pub open spec fn spec_occurs(sides: Seq<(usize, usize)>, side: (usize, usize)) -> bool {
    exists|j: int| 0 <= j < sides.len() && spec_undirected(#[trigger] sides[j]) == spec_undirected(
        side,
    )
}

/// The sides that are the first of their kind: a side is dropped where the
/// same side, in either direction, came before.
pub open spec fn spec_first_sides(sides: Seq<(usize, usize)>) -> Seq<(usize, usize)>
    decreases sides.len(),
{
    if sides.len() == 0 {
        Seq::empty()
    } else if spec_occurs(sides.drop_last(), sides.last()) {
        spec_first_sides(sides.drop_last())
    } else {
        spec_first_sides(sides.drop_last()).push(sides.last())
    }
}

/// The error that a list of triangles over `point_count` points gives, if
/// any.
pub open spec fn spec_triangulation_error(point_count: usize, triangles: Seq<usize>) -> Option<
    TriangulationError,
> {
    if triangles.len() % 3 != 0 {
        Some(TriangulationError::NotTriples)
    } else if point_count >= u32::MAX || triangles.len() >= u32::MAX {
        Some(TriangulationError::TooLarge)
    } else if exists|k: int| 0 <= k < triangles.len() && #[trigger] triangles[k] >= point_count {
        Some(TriangulationError::UnknownPoint)
    } else {
        None
    }
}

/// The sides that are kept are sides of the list, and every side of the list
/// occurs among them in one direction or the other.
pub proof fn lemma_first_sides_cover(sides: Seq<(usize, usize)>)
    ensures
        spec_first_sides(sides).len() <= sides.len(),
        forall|i: int|
            0 <= i < spec_first_sides(sides).len() ==> sides.contains(
                #[trigger] spec_first_sides(sides)[i],
            ),
        forall|side: (usize, usize)|
            spec_occurs(sides, side) <==> spec_occurs(spec_first_sides(sides), side),
    decreases sides.len(),
{
    if sides.len() > 0 {
        let front = sides.drop_last();
        let kept = spec_first_sides(sides);
        lemma_first_sides_cover(front);
        assert forall|i: int| 0 <= i < kept.len() implies sides.contains(#[trigger] kept[i]) by {
            if i < spec_first_sides(front).len() {
                let j = choose|j: int|
                    0 <= j < front.len() && front[j] == spec_first_sides(front)[i];
                assert(sides[j] == kept[i]);
            } else {
                assert(sides[sides.len() - 1] == kept[i]);
            }
        }
        assert forall|side: (usize, usize)| spec_occurs(sides, side) implies spec_occurs(
            kept,
            side,
        ) by {
            let j = choose|j: int|
                0 <= j < sides.len() && spec_undirected(#[trigger] sides[j]) == spec_undirected(
                    side,
                );
            if j < front.len() {
                assert(front[j] == sides[j]);
                assert(spec_occurs(front, side));
            } else if spec_occurs(front, sides.last()) {
                let i = choose|i: int|
                    0 <= i < front.len() && spec_undirected(#[trigger] front[i])
                        == spec_undirected(sides.last());
                assert(spec_occurs(front, side));
            } else {
                assert(kept[kept.len() - 1] == sides.last());
            }
            if spec_occurs(front, side) {
                let i = choose|i: int|
                    0 <= i < spec_first_sides(front).len() && spec_undirected(
                        #[trigger] spec_first_sides(front)[i],
                    ) == spec_undirected(side);
                assert(kept[i] == spec_first_sides(front)[i]);
            }
        }
        assert forall|side: (usize, usize)| spec_occurs(kept, side) implies spec_occurs(
            sides,
            side,
        ) by {
            let i = choose|i: int|
                0 <= i < kept.len() && spec_undirected(#[trigger] kept[i]) == spec_undirected(
                    side,
                );
            let j = choose|j: int| 0 <= j < sides.len() && sides[j] == kept[i];
            assert(spec_undirected(sides[j]) == spec_undirected(side));
        }
    }
}

/// No side is kept twice, in either direction.
pub proof fn lemma_first_sides_unique(sides: Seq<(usize, usize)>, first: int, second: int)
    requires
        0 <= first < second < spec_first_sides(sides).len(),
    ensures
        spec_undirected(spec_first_sides(sides)[first]) != spec_undirected(
            spec_first_sides(sides)[second],
        ),
    decreases sides.len(),
{
    if sides.len() > 0 {
        let front = sides.drop_last();
        lemma_first_sides_cover(front);
        if second < spec_first_sides(front).len() {
            lemma_first_sides_unique(front, first, second);
        } else {
            assert(!spec_occurs(front, sides.last()));
            assert(!spec_occurs(spec_first_sides(front), sides.last()));
        }
    }
}

/// Whether `side` occurs among `seen`, in either direction.
fn occurs(seen: &Vec<(usize, usize)>, side: (usize, usize)) -> (found: bool)
    ensures
        found == spec_occurs(seen@, side),
{
    let wanted: (usize, usize) = if side.0 < side.1 {
        side
    } else {
        (side.1, side.0)
    };
    let mut index: usize = 0;
    while index < seen.len()
        invariant
            index <= seen@.len(),
            wanted == spec_undirected(side),
            forall|j: int| 0 <= j < index ==> spec_undirected(#[trigger] seen@[j]) != wanted,
        decreases seen@.len() - index,
    {
        let other: (usize, usize) = seen[index];
        let known: (usize, usize) = if other.0 < other.1 {
            other
        } else {
            (other.1, other.0)
        };
        if known.0 == wanted.0 && known.1 == wanted.1 {
            return true;
        }
        index = index + 1;
    }
    false
}

/// Whether every corner names one of `point_count` points.
fn corners_known(point_count: usize, triangles: &Vec<usize>) -> (known: bool)
    ensures
        known == !(exists|k: int| 0 <= k < triangles@.len() && #[trigger] triangles@[k]
            >= point_count),
{
    let mut index: usize = 0;
    while index < triangles.len()
        invariant
            index <= triangles@.len(),
            forall|k: int| 0 <= k < index ==> #[trigger] triangles@[k] < point_count,
        decreases triangles@.len() - index,
    {
        if triangles[index] >= point_count {
            return false;
        }
        index = index + 1;
    }
    true
}

/// Builds the graph of a triangulation of `point_count` points. `triangles`
/// holds the corners of the triangles, three for each, as indices of points.
/// Node `i` of the graph carries the number `i`; the edges are the sides of
/// the triangles in their order, each side once.
pub fn delaunay_triangulation(point_count: usize, triangles: &Vec<usize>) -> (result: Result<
    Graph<usize, (), Undirected, u32>,
    TriangulationError,
>)
    ensures
        match result {
            Ok(graph) => {
                &&& spec_triangulation_error(point_count, triangles@).is_none()
                &&& graph_nodes(graph) == Seq::new(point_count as nat, |i: int| i as usize)
                &&& graph_edges(graph) == spec_first_sides(
                    spec_sides(triangles@, triangles@.len() as int),
                )
            },
            Err(error) => spec_triangulation_error(point_count, triangles@) == Some(error),
        },
{
    if triangles.len() % 3 != 0 {
        return Err(TriangulationError::NotTriples);
    }
    if point_count >= u32::MAX as usize || triangles.len() >= u32::MAX as usize {
        return Err(TriangulationError::TooLarge);
    }
    if !corners_known(point_count, triangles) {
        return Err(TriangulationError::UnknownPoint);
    }
    let mut graph: Graph<usize, (), Undirected, u32> = new_graph();
    let mut point: usize = 0;
    while point < point_count
        invariant
            point <= point_count,
            point_count < u32::MAX,
            graph_nodes(graph) == Seq::new(point as nat, |i: int| i as usize),
            graph_edges(graph) == Seq::<(usize, usize)>::empty(),
        decreases point_count - point,
    {
        add_node(&mut graph, point);
        assert(graph_nodes(graph) =~= Seq::new((point + 1) as nat, |i: int| i as usize));
        point = point + 1;
    }
    let mut seen: Vec<(usize, usize)> = Vec::new();
    let mut k: usize = 0;
    assert(spec_sides(triangles@, 0) =~= Seq::<(usize, usize)>::empty());
    while k < triangles.len()
        invariant
            k <= triangles@.len(),
            triangles@.len() % 3 == 0,
            triangles@.len() < u32::MAX,
            forall|j: int| 0 <= j < triangles@.len() ==> #[trigger] triangles@[j] < point_count,
            graph_nodes(graph) == Seq::new(point_count as nat, |i: int| i as usize),
            graph_edges(graph) == spec_first_sides(spec_sides(triangles@, k as int)),
            seen@ == graph_edges(graph),
        decreases triangles@.len() - k,
    {
        let next: usize = 3 * (k / 3) + (k % 3 + 1) % 3;
        let side: (usize, usize) = (triangles[k], triangles[next]);
        proof {
            let before = spec_sides(triangles@, k as int);
            let after = spec_sides(triangles@, k + 1);
            assert(after.drop_last() =~= before);
            assert(after.last() == side);
            lemma_first_sides_cover(before);
        }
        if !occurs(&seen, side) {
            seen.push(side);
            add_edge(&mut graph, side.0, side.1);
        }
        k = k + 1;
    }
    Ok(graph)
}

} // verus!

use delaunator::{triangulate, Point};
use epicyclogon::contour_lines::{delaunay_triangulation, TriangulationError};
use petgraph::graph::{EdgeIndex, NodeIndex};

fn edges_of(point_count: usize, triangles: &Vec<usize>) -> Vec<(usize, usize)> {
    let graph = delaunay_triangulation(point_count, triangles).unwrap();
    (0..graph.edge_count())
        .map(|e| {
            let (a, b) = graph.edge_endpoints(EdgeIndex::new(e)).unwrap();
            (a.index(), b.index())
        })
        .collect()
}

#[test]
fn every_point_becomes_a_node() {
    let graph = delaunay_triangulation(4, &vec![]).unwrap();
    assert_eq!(graph.node_count(), 4);
    assert_eq!(graph.edge_count(), 0);
    for i in 0..4 {
        assert_eq!(graph.node_weight(NodeIndex::new(i)), Some(&i));
    }
}

#[test]
fn one_triangle_has_three_edges() {
    assert_eq!(edges_of(3, &vec![0, 1, 2]), vec![(0, 1), (1, 2), (2, 0)]);
}

#[test]
fn a_shared_side_is_added_once() {
    // Two triangles over the side between 1 and 2, walked in opposite
    // directions.
    assert_eq!(
        edges_of(4, &vec![0, 1, 2, 2, 1, 3]),
        vec![(0, 1), (1, 2), (2, 0), (1, 3), (3, 2)]
    );
}

#[test]
fn a_repeated_triangle_adds_nothing() {
    assert_eq!(edges_of(3, &vec![0, 1, 2, 0, 1, 2, 2, 1, 0]), vec![(0, 1), (1, 2), (2, 0)]);
}

#[test]
fn broken_lists_of_corners_are_refused() {
    assert_eq!(
        delaunay_triangulation(3, &vec![0, 1]).err(),
        Some(TriangulationError::NotTriples)
    );
    assert_eq!(
        delaunay_triangulation(3, &vec![0, 1, 3]).err(),
        Some(TriangulationError::UnknownPoint)
    );
    assert_eq!(
        delaunay_triangulation(0, &vec![0, 0, 0]).err(),
        Some(TriangulationError::UnknownPoint)
    );
    assert_eq!(
        delaunay_triangulation(u32::MAX as usize, &vec![]).err(),
        Some(TriangulationError::TooLarge)
    );
    assert_eq!(
        delaunay_triangulation(u32::MAX as usize, &vec![0]).err(),
        Some(TriangulationError::NotTriples)
    );
}

#[test]
fn a_triangulated_square_has_five_edges() {
    let points = vec![
        Point { x: 0.0, y: 0.0 },
        Point { x: 1.0, y: 0.0 },
        Point { x: 1.0, y: 1.0 },
        Point { x: 0.0, y: 1.1 },
    ];
    let triangulation = triangulate(&points);
    assert_eq!(triangulation.triangles.len(), 6);
    let graph = delaunay_triangulation(points.len(), &triangulation.triangles).unwrap();
    assert_eq!(graph.node_count(), 4);
    assert_eq!(graph.edge_count(), 5);
}

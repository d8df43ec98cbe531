use cellular::{Coord, GridCoord, HexagonalNhood, MooreNhood, Nhood, VonNeumannNhood};

#[test]
fn test_hexagonal_nhood() {
    let nhood = HexagonalNhood::new();

    let center = (1, 1);

    let neighbors = nhood.neighbors(&center);
    assert_eq!(neighbors.len(), nhood.neighbors_count());

    assert_eq!(neighbors[0], (0, 0));
    assert_eq!(neighbors[1], (1, 0));
    assert_eq!(neighbors[2], (0, 1));
    assert_eq!(neighbors[3], (2, 1));
    assert_eq!(neighbors[4], (0, 2));
    assert_eq!(neighbors[5], (1, 2));
}

#[test]
fn hexagonal_nhood_on_grid_coords() {
    let nhood = HexagonalNhood::new();
    let neighbors = nhood.neighbors(&GridCoord::from_2d(1, 1));
    let expected = vec![(0, 0), (1, 0), (0, 1), (2, 1), (0, 2), (1, 2)];
    assert_eq!(neighbors.len(), 6);
    for (n, e) in neighbors.iter().zip(expected.iter()) {
        assert_eq!((n.x(), n.y()), *e);
    }
}

#[test]
fn von_neumann_nhood_order() {
    let nhood = VonNeumannNhood::new();
    let neighbors = nhood.neighbors(&(2, 3));
    assert_eq!(nhood.neighbors_count(), 4);
    assert_eq!(neighbors, vec![(2, 2), (1, 3), (3, 3), (2, 4)]);
}

#[test]
fn moore_nhood_order() {
    let nhood = MooreNhood::new();
    let neighbors = nhood.neighbors(&(1, 1));
    assert_eq!(nhood.neighbors_count(), 8);
    assert_eq!(
        neighbors,
        vec![(0, 0), (1, 0), (2, 0), (0, 1), (2, 1), (0, 2), (1, 2), (2, 2)]
    );
}

#[test]
fn neighbors_may_lie_off_grid() {
    let nhood = MooreNhood::new();
    let neighbors = nhood.neighbors(&(0, 0));
    assert_eq!(neighbors[0], (-1, -1));
    assert_eq!(neighbors[7], (1, 1));
}

#[test]
fn coord_offsets() {
    let c = GridCoord::from_offset(7, 3, 3);
    assert_eq!((c.x(), c.y()), (1, 2));
    assert_eq!(c.offset(3), 7);
    let t: (i32, i32) = Coord::from_offset(11, 3, 4);
    assert_eq!(t, (3, 2));
    assert_eq!(t.offset(4), 11);
    assert_eq!(GridCoord::from_2d(0, 0).offset(5), 0);
}

#[test]
fn neighbors_of_negative_coords() {
    let hex = HexagonalNhood::new();
    assert_eq!(
        hex.neighbors(&(-3, -5)),
        vec![(-4, -6), (-3, -6), (-4, -5), (-2, -5), (-4, -4), (-3, -4)]
    );
    let von_neumann = VonNeumannNhood::new();
    assert_eq!(von_neumann.neighbors(&(-1, 0)), vec![(-1, -1), (-2, 0), (0, 0), (-1, 1)]);
    let moore = MooreNhood::new();
    let edge = moore.neighbors(&(i32::MIN + 1, i32::MAX - 1));
    assert_eq!(edge.len(), 8);
    assert_eq!(edge[0], (i32::MIN, i32::MAX - 2));
    assert_eq!(edge[7], (i32::MIN + 2, i32::MAX));
}

#[test]
fn offset_past_last_column() {
    // No bounds check: a coordinate past the last column still maps linearly.
    assert_eq!(GridCoord::from_2d(5, 1).offset(3), 8);
}

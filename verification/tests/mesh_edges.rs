use orbital_viewer::mesh_edges::edges_from_faces;

fn sorted_pairs(edges: &[u16]) -> Vec<(u16, u16)> {
    assert_eq!(edges.len() % 2, 0);
    let mut pairs: Vec<(u16, u16)> = edges.chunks(2).map(|p| (p[0], p[1])).collect();
    pairs.sort();
    pairs
}

#[test]
fn one_triangle_has_three_edges() {
    assert_eq!(sorted_pairs(&edges_from_faces(&vec![0, 1, 2])), vec![(0, 1), (0, 2), (1, 2)]);
}

#[test]
fn a_shared_side_is_kept_once_in_its_first_orientation() {
    let pairs = sorted_pairs(&edges_from_faces(&vec![0, 1, 2, 2, 1, 3]));
    assert_eq!(pairs, vec![(0, 1), (0, 2), (1, 2), (1, 3), (2, 3)]);
}

#[test]
fn a_partial_triangle_is_ignored() {
    assert_eq!(sorted_pairs(&edges_from_faces(&vec![0, 1, 2, 5, 6])), vec![(0, 1), (0, 2), (1, 2)]);
    assert!(edges_from_faces(&vec![7, 8]).is_empty());
    assert!(edges_from_faces(&vec![]).is_empty());
}

#[test]
fn a_degenerate_triangle_gives_one_loop() {
    assert_eq!(sorted_pairs(&edges_from_faces(&vec![4, 4, 4])), vec![(4, 4)]);
}

#[test]
fn no_edge_repeats_and_each_side_is_covered() {
    let faces: Vec<u16> = vec![0, 1, 2, 0, 2, 3, 0, 3, 1, 1, 3, 2, 65535, 0, 1];
    let pairs = sorted_pairs(&edges_from_faces(&faces));
    let mut dedup = pairs.clone();
    dedup.dedup();
    assert_eq!(dedup, pairs);
    assert!(pairs.len() <= 3 * (faces.len() / 3));
    for t in faces.chunks(3) {
        for (x, y) in [(t[0], t[1]), (t[1], t[2]), (t[0], t[2])] {
            assert!(pairs.contains(&(x, y)) || pairs.contains(&(y, x)));
        }
    }
    for &(x, y) in pairs.iter() {
        if x != y {
            assert!(!pairs.contains(&(y, x)));
        }
    }
    assert!(pairs.contains(&(65535, 0)));
}

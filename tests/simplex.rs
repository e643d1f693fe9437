use homology::{HomologyUtility, PrimitiveBasisElement, Simplex};

#[test]
fn simplex_from_unsorted_vertices() {
    let s = Simplex::new(vec![2, 0, 1]);
    assert_eq!(s.get_vertices(), &vec![0, 1, 2]);
    assert_eq!(s.clone().get_dimension(), 2);
    let faces = s.clone().get_boundary_array();
    assert_eq!(faces.len(), 3);
    assert_eq!(faces[0].get_vertices(), &vec![1, 2]);
    assert_eq!(faces[1].get_vertices(), &vec![0, 2]);
    assert_eq!(faces[2].get_vertices(), &vec![0, 1]);
    assert_eq!(s.get_boundary_coefficients(), vec![1, -1, 1]);
}

#[test]
fn single_vertex_has_the_empty_face() {
    let s = Simplex::new(vec![7]);
    assert_eq!(s.clone().get_dimension(), 0);
    let faces = s.clone().get_boundary_array();
    assert_eq!(faces.len(), 1);
    assert!(faces[0].get_vertices().is_empty());
    assert_eq!(s.get_boundary_coefficients(), vec![1]);
}

#[test]
fn empty_simplex_has_no_faces() {
    let s = Simplex::new(Vec::new());
    assert_eq!(s.clone().get_dimension(), -1);
    assert!(s.clone().get_boundary_array().is_empty());
    assert!(s.get_boundary_coefficients().is_empty());
}

#[test]
fn duplicate_vertices_are_kept() {
    let s = Simplex::new(vec![3, 1, 3, -4]);
    assert_eq!(s.get_vertices(), &vec![-4, 1, 3, 3]);
    assert_eq!(s.get_dimension(), 3);
}

#[test]
fn simplex_from_range() {
    let s = Simplex::from_ran(2..6);
    assert_eq!(s.get_vertices(), &vec![2, 3, 4, 5]);
    let faces = s.clone().get_boundary_array();
    assert_eq!(faces[3].get_vertices(), &vec![2, 3, 4]);
    assert!(Simplex::from_ran(5..5).get_vertices().is_empty());
    assert!(Simplex::from_ran(5..1).get_vertices().is_empty());
}

#[test]
fn large_simplex_coefficients_alternate() {
    let s = Simplex::from_ran(0..12);
    assert_eq!(s.clone().get_boundary_coefficients(), vec![1, -1, 1, -1, 1, -1, 1, -1, 1, -1, 1, -1]);
    let mut cache = HomologyUtility::new();
    assert_eq!(s.get_boundary_coefficients_with(&mut cache).len(), 12);
}

#[test]
fn coefficients_agree_across_cache_size() {
    let mut cache = HomologyUtility::new();
    let nine = cache.get_default_boundary_coefficients(9);
    let eleven = cache.get_default_boundary_coefficients(11);
    assert_eq!(nine, vec![1, -1, 1, -1, 1, -1, 1, -1, 1]);
    assert_eq!(eleven, vec![1, -1, 1, -1, 1, -1, 1, -1, 1, -1, 1]);
    assert_eq!(&eleven[..9], &nine[..]);
    assert_eq!(cache.get_default_boundary_coefficients(9), nine);
    assert_eq!(cache.get_default_boundary_coefficients(11), eleven);
    assert!(cache.get_default_boundary_coefficients(0).is_empty());
    assert_eq!(cache.get_default_boundary_coefficients(10).len(), 10);
    let mut fresh = HomologyUtility::new();
    assert_eq!(fresh.get_default_boundary_coefficients(11), eleven);
}

#[test]
fn remove_index_drops_one_position() {
    assert_eq!(HomologyUtility::remove_index(vec![4, 5, 6], 1), vec![4, 6]);
    assert_eq!(HomologyUtility::remove_index(vec![4, 5, 6], 0), vec![5, 6]);
    assert_eq!(HomologyUtility::remove_index(vec![4, 5, 6], 2), vec![4, 5]);
    assert_eq!(HomologyUtility::remove_index(vec![4, 5, 6], 3), vec![4, 5, 6]);
    assert!(HomologyUtility::remove_index(Vec::new(), 0).is_empty());
}

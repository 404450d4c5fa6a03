use embedded_gfx::color::Rgb565;
use embedded_gfx::mesh::{Geometry, K3dMesh, RenderMode};

fn triangle() -> Geometry {
    Geometry {
        vertex_count: 3,
        faces: vec![[0, 1, 2]],
        colors: vec![],
        lines: vec![[0, 1], [1, 2]],
        normal_count: 0,
    }
}

#[test]
fn valid_geometry_is_accepted() {
    assert!(triangle().check_validity());
    let mut g = triangle();
    g.colors = vec![Rgb565::new(1, 2, 3); 3];
    assert!(g.check_validity());
    let bare = Geometry { vertex_count: 1, faces: vec![], colors: vec![], lines: vec![], normal_count: 0 };
    assert!(bare.check_validity());
}

#[test]
fn geometry_without_vertices_is_rejected() {
    let g = Geometry { vertex_count: 0, faces: vec![], colors: vec![], lines: vec![], normal_count: 0 };
    assert!(!g.check_validity());
}

#[test]
fn face_index_out_of_bounds_is_rejected() {
    for corner in 0..3 {
        let mut g = triangle();
        g.faces[0][corner] = 3;
        assert!(!g.check_validity());
    }
    let mut g = triangle();
    g.faces.push([0, 1, 7]);
    assert!(!g.check_validity());
}

#[test]
fn line_index_out_of_bounds_is_rejected() {
    let mut g = triangle();
    g.lines[1] = [1, 3];
    assert!(!g.check_validity());
    let mut g = triangle();
    g.lines[0] = [3, 0];
    assert!(!g.check_validity());
}

#[test]
fn wrong_number_of_colors_is_rejected() {
    let mut g = triangle();
    g.colors = vec![Rgb565::new(0, 0, 0); 2];
    assert!(!g.check_validity());
    g.colors = vec![Rgb565::new(0, 0, 0); 4];
    assert!(!g.check_validity());
}

#[test]
fn two_triangles_sharing_an_edge_have_five_edges() {
    let lines = Geometry::lines_from_faces(&[[0, 1, 2], [2, 1, 3]]);
    assert_eq!(lines, vec![(0, 1), (1, 2), (0, 2), (1, 3), (2, 3)]);
    assert_eq!(lines.len(), 5);
    for (a, b) in &lines {
        assert!(a < b);
    }
}

#[test]
fn edges_of_no_faces_are_none() {
    assert_eq!(Geometry::lines_from_faces(&[]), vec![]);
}

#[test]
fn repeated_face_adds_no_edge() {
    let lines = Geometry::lines_from_faces(&[[4, 2, 9], [9, 4, 2], [2, 9, 4]]);
    assert_eq!(lines, vec![(2, 4), (2, 9), (4, 9)]);
}

#[test]
fn face_with_a_repeated_corner_keeps_the_edge_to_itself() {
    let lines = Geometry::lines_from_faces(&[[1, 1, 0]]);
    assert_eq!(lines, vec![(1, 1), (0, 1)]);
}

#[test]
fn new_mesh_is_white_points() {
    let mesh = K3dMesh::new(triangle());
    assert_eq!(mesh.color, Rgb565::white());
    assert_eq!(mesh.color.into_storage(), 0xffff);
    assert_eq!(mesh.render_mode, RenderMode::Points);
    assert_eq!(mesh.geometry.vertex_count, 3);
    assert_eq!(mesh.geometry.faces, vec![[0, 1, 2]]);
}

#[test]
fn mesh_setters_change_one_field() {
    let mut mesh = K3dMesh::new(triangle());
    mesh.set_color(Rgb565::new(31, 0, 0));
    assert_eq!(mesh.color.into_storage(), 0xf800);
    assert_eq!(mesh.render_mode, RenderMode::Points);
    mesh.set_render_mode(RenderMode::Solid);
    assert_eq!(mesh.render_mode, RenderMode::Solid);
    assert_eq!(mesh.color.into_storage(), 0xf800);
    assert_eq!(mesh.geometry.lines, vec![[0, 1], [1, 2]]);
}

#[test]
fn try_new_makes_a_mesh_of_a_valid_geometry_only() {
    let mesh = K3dMesh::try_new(triangle()).unwrap();
    assert_eq!(mesh.render_mode, RenderMode::Points);
    assert_eq!(mesh.color, Rgb565::white());
    let mut g = triangle();
    g.faces[0][1] = 3;
    assert!(K3dMesh::try_new(g).is_none());
    assert!(K3dMesh::try_new(Geometry::default()).is_none());
}

#[test]
fn default_geometry_is_empty() {
    let g = Geometry::default();
    assert_eq!((g.vertex_count, g.faces.len(), g.colors.len(), g.lines.len(), g.normal_count), (0, 0, 0, 0, 0));
    assert!(g.check_indices());
    assert!(!g.check_validity());
}

#[test]
fn indices_are_checked_apart_from_colors() {
    let mut g = triangle();
    g.colors = vec![Rgb565::white()];
    assert!(g.check_indices());
    assert!(!g.check_validity());
    g.lines.push([0, 3]);
    assert!(!g.check_indices());
}

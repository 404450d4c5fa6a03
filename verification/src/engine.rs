//! Assembly of draw primitives: which points, lines and triangles a mesh
//! gives once its vertices have been projected onto the screen.

use vstd::prelude::*;
use crate::color::Rgb565;
use crate::mesh::{Geometry, K3dMesh, RenderMode};

verus! {

/// A pixel position on the screen.
#[derive(Clone, Copy, Debug, PartialEq, Eq, Structural)]
pub struct Point2 {
    pub x: i32,
    pub y: i32,
}

/// One thing for the rasterizer to draw, in screen space.
#[derive(Clone, Copy, Debug, PartialEq, Eq, Structural)]
pub enum DrawPrimitive {
    /// A single pixel.
    ColoredPoint(Point2, Rgb565),
    /// A line between two pixels, both included.
    Line(Point2, Point2, Rgb565),
    /// A filled triangle in one colour.
    ColoredTriangle(Point2, Point2, Point2, Rgb565),
}

/// What the projection stage found out about one mesh.
#[derive(Debug)]
pub struct Projection {
    /// For every vertex its place on the screen, or `None` where the
    /// vertex was rejected.
    pub points: Vec<Option<Point2>>,
    /// For every face normal, whether the face is turned towards the
    /// viewer.
    pub facing: Vec<bool>,
    /// For every face normal, the colour of the lit face.
    pub shades: Vec<Rgb565>,
}

/// The screen positions of the three corners of a face, if none of them
/// was rejected.
pub open spec fn face_corners(face: [usize; 3], points: Seq<Option<Point2>>) -> Option<
    (Point2, Point2, Point2),
> {
    match (points[face@[0] as int], points[face@[1] as int], points[face@[2] as int]) {
        (Some(a), Some(b), Some(c)) => Some((a, b, c)),
        _ => None,
    }
}

/// The points of the first `n` vertices. A rejected vertex gives none.
/// With a colour per vertex, every point takes the colour of its vertex;
/// otherwise every point takes `fallback`.
pub open spec fn point_primitives(
    points: Seq<Option<Point2>>,
    colors: Seq<Rgb565>,
    per_vertex: bool,
    fallback: Rgb565,
    n: nat,
) -> Seq<DrawPrimitive>
    decreases n,
{
    if n == 0 {
        Seq::empty()
    } else {
        let earlier = point_primitives(points, colors, per_vertex, fallback, (n - 1) as nat);
        match points[n - 1] {
            Some(p) => earlier.push(
                DrawPrimitive::ColoredPoint(
                    p,
                    if per_vertex {
                        colors[n - 1]
                    } else {
                        fallback
                    },
                ),
            ),
            None => earlier,
        }
    }
}

/// The lines of the first `n` explicit edges. An edge with a rejected end
/// gives none.
pub open spec fn line_primitives(
    lines: Seq<[usize; 2]>,
    points: Seq<Option<Point2>>,
    color: Rgb565,
    n: nat,
) -> Seq<DrawPrimitive>
    decreases n,
{
    if n == 0 {
        Seq::empty()
    } else {
        let earlier = line_primitives(lines, points, color, (n - 1) as nat);
        match (points[lines[n - 1]@[0] as int], points[lines[n - 1]@[1] as int]) {
            (Some(a), Some(b)) => earlier.push(DrawPrimitive::Line(a, b, color)),
            _ => earlier,
        }
    }
}

/// The outlines of the first `n` faces, three lines each. A face with a
/// rejected corner gives none.
pub open spec fn outline_primitives(
    faces: Seq<[usize; 3]>,
    points: Seq<Option<Point2>>,
    color: Rgb565,
    n: nat,
) -> Seq<DrawPrimitive>
    decreases n,
{
    if n == 0 {
        Seq::empty()
    } else {
        let earlier = outline_primitives(faces, points, color, (n - 1) as nat);
        match face_corners(faces[n - 1], points) {
            Some((a, b, c)) => earlier.push(DrawPrimitive::Line(a, b, color)).push(
                DrawPrimitive::Line(b, c, color),
            ).push(DrawPrimitive::Line(c, a, color)),
            None => earlier,
        }
    }
}

/// The triangles of the first `n` faces. With `culling`, a face that is
/// turned away gives none; a face with a rejected corner never gives one.
/// With `shaded`, a face takes its own lit colour, otherwise `color`.
pub open spec fn triangle_primitives(
    faces: Seq<[usize; 3]>,
    points: Seq<Option<Point2>>,
    facing: Seq<bool>,
    culling: bool,
    shades: Seq<Rgb565>,
    shaded: bool,
    color: Rgb565,
    n: nat,
) -> Seq<DrawPrimitive>
    decreases n,
{
    if n == 0 {
        Seq::empty()
    } else {
        let earlier = triangle_primitives(
            faces,
            points,
            facing,
            culling,
            shades,
            shaded,
            color,
            (n - 1) as nat,
        );
        if culling && !facing[n - 1] {
            earlier
        } else {
            match face_corners(faces[n - 1], points) {
                Some((a, b, c)) => earlier.push(
                    DrawPrimitive::ColoredTriangle(
                        a,
                        b,
                        c,
                        if shaded {
                            shades[n - 1]
                        } else {
                            color
                        },
                    ),
                ),
                None => earlier,
            }
        }
    }
}

/// The number of faces that have a normal of their own.
pub open spec fn paired_faces(geometry: Geometry) -> nat {
    if geometry.faces@.len() <= geometry.normal_count {
        geometry.faces@.len()
    } else {
        geometry.normal_count as nat
    }
}

/// The projection has an entry for every vertex and every normal of the
/// mesh, and a lit colour for every normal where the mode asks for one.
pub open spec fn fits(mesh: K3dMesh, projection: Projection) -> bool {
    &&& projection.points@.len() == mesh.geometry.vertex_count
    &&& projection.facing@.len() == mesh.geometry.normal_count
    &&& mesh.render_mode == RenderMode::SolidLightDir ==> projection.shades@.len()
        == mesh.geometry.normal_count
}

/// The mesh can be rendered with the projection: it has no vertex, or its
/// indices are in bounds and the projection fits it.
pub open spec fn renderable(mesh: K3dMesh, projection: Projection) -> bool {
    mesh.geometry.vertex_count == 0 || (mesh.geometry.indices_in_bounds() && fits(
        mesh,
        projection,
    ))
}

/// Everything that one mesh draws, in drawing order.
///
/// A mesh without vertices draws nothing. `Points` draws the vertices.
/// `Lines` draws the explicit edges, or without any the outline of every
/// face. `Solid` fills every face, or with normals the faces that have a
/// normal and are turned towards the viewer. `SolidLightDir` fills the
/// faces that have a normal and are turned towards the viewer, each in its
/// lit colour.
pub open spec fn mesh_primitives(mesh: K3dMesh, projection: Projection) -> Seq<DrawPrimitive> {
    let g = mesh.geometry;
    let points = projection.points@;
    if g.vertex_count == 0 {
        Seq::empty()
    } else {
        match mesh.render_mode {
            RenderMode::Points => point_primitives(
                points,
                g.colors@,
                g.colors@.len() == g.vertex_count,
                mesh.color,
                g.vertex_count as nat,
            ),
            RenderMode::Lines => if g.lines@.len() > 0 {
                line_primitives(g.lines@, points, mesh.color, g.lines@.len())
            } else {
                outline_primitives(g.faces@, points, mesh.color, g.faces@.len())
            },
            RenderMode::Solid => if g.normal_count == 0 {
                triangle_primitives(
                    g.faces@,
                    points,
                    projection.facing@,
                    false,
                    projection.shades@,
                    false,
                    mesh.color,
                    g.faces@.len(),
                )
            } else {
                triangle_primitives(
                    g.faces@,
                    points,
                    projection.facing@,
                    true,
                    projection.shades@,
                    false,
                    mesh.color,
                    paired_faces(g),
                )
            },
            RenderMode::SolidLightDir => triangle_primitives(
                g.faces@,
                points,
                projection.facing@,
                true,
                projection.shades@,
                true,
                mesh.color,
                paired_faces(g),
            ),
        }
    }
}

/// Everything that the first `n` meshes draw, mesh after mesh.
pub open spec fn scene_primitives(
    meshes: Seq<K3dMesh>,
    projections: Seq<Projection>,
    n: nat,
) -> Seq<DrawPrimitive>
    decreases n,
{
    if n == 0 {
        Seq::empty()
    } else {
        scene_primitives(meshes, projections, (n - 1) as nat) + mesh_primitives(
            meshes[n - 1],
            projections[n - 1],
        )
    }
}

/// The `i`-th face is drawn as the triangle `p`: it is not culled, none of
/// its corners was rejected, and `p` joins the corners in the colour of the
/// face.
pub open spec fn draws_face(
    faces: Seq<[usize; 3]>,
    points: Seq<Option<Point2>>,
    facing: Seq<bool>,
    culling: bool,
    shades: Seq<Rgb565>,
    shaded: bool,
    color: Rgb565,
    i: int,
    p: DrawPrimitive,
) -> bool {
    &&& !culling || facing[i]
    &&& match face_corners(faces[i], points) {
        Some((a, b, c)) => p == DrawPrimitive::ColoredTriangle(
            a,
            b,
            c,
            if shaded {
                shades[i]
            } else {
                color
            },
        ),
        None => false,
    }
}

/// The triangles that are drawn are those of the faces that are not
/// culled and have no rejected corner: a face that is turned away, or has
/// a corner that was rejected, leaves nothing, and every other face leaves
/// its triangle.
pub proof fn lemma_triangles_drawn(
    faces: Seq<[usize; 3]>,
    points: Seq<Option<Point2>>,
    facing: Seq<bool>,
    culling: bool,
    shades: Seq<Rgb565>,
    shaded: bool,
    color: Rgb565,
    n: nat,
)
    ensures
        forall|p: DrawPrimitive|
            triangle_primitives(faces, points, facing, culling, shades, shaded, color, n).contains(
                p,
            ) <==> exists|i: int|
                0 <= i < n && #[trigger] draws_face(
                    faces,
                    points,
                    facing,
                    culling,
                    shades,
                    shaded,
                    color,
                    i,
                    p,
                ),
        triangle_primitives(faces, points, facing, culling, shades, shaded, color, n).len() <= n,
    decreases n,
{
    if n > 0 {
        let earlier = triangle_primitives(
            faces,
            points,
            facing,
            culling,
            shades,
            shaded,
            color,
            (n - 1) as nat,
        );
        let now = triangle_primitives(faces, points, facing, culling, shades, shaded, color, n);
        lemma_triangles_drawn(
            faces,
            points,
            facing,
            culling,
            shades,
            shaded,
            color,
            (n - 1) as nat,
        );
        assert forall|p: DrawPrimitive| now.contains(p) <==> exists|i: int|
            0 <= i < n && #[trigger] draws_face(
                faces,
                points,
                facing,
                culling,
                shades,
                shaded,
                color,
                i,
                p,
            ) by {
            if now.contains(p) {
                let k = choose|k: int| 0 <= k < now.len() && now[k] == p;
                if k < earlier.len() {
                    assert(earlier[k] == p);
                    assert(earlier.contains(p));
                    let i = choose|i: int|
                        0 <= i < n - 1 && #[trigger] draws_face(
                            faces,
                            points,
                            facing,
                            culling,
                            shades,
                            shaded,
                            color,
                            i,
                            p,
                        );
                    assert(0 <= i < n && draws_face(
                        faces,
                        points,
                        facing,
                        culling,
                        shades,
                        shaded,
                        color,
                        i,
                        p,
                    ));
                } else {
                    assert(draws_face(
                        faces,
                        points,
                        facing,
                        culling,
                        shades,
                        shaded,
                        color,
                        n - 1,
                        p,
                    ));
                }
            }
            if exists|i: int|
                0 <= i < n && #[trigger] draws_face(
                    faces,
                    points,
                    facing,
                    culling,
                    shades,
                    shaded,
                    color,
                    i,
                    p,
                ) {
                let i = choose|i: int|
                    0 <= i < n && #[trigger] draws_face(
                        faces,
                        points,
                        facing,
                        culling,
                        shades,
                        shaded,
                        color,
                        i,
                        p,
                    );
                if i < n - 1 {
                    assert(earlier.contains(p));
                    let k = choose|k: int| 0 <= k < earlier.len() && earlier[k] == p;
                    assert(now[k] == p);
                } else {
                    assert(now[now.len() - 1] == p);
                }
            }
        }
    }
}

/// Every vertex was rejected.
pub open spec fn none_accepted(points: Seq<Option<Point2>>) -> bool {
    forall|i: int| 0 <= i < points.len() ==> (#[trigger] points[i]).is_none()
}

proof fn lemma_no_points(
    points: Seq<Option<Point2>>,
    colors: Seq<Rgb565>,
    per_vertex: bool,
    fallback: Rgb565,
    n: nat,
)
    requires
        none_accepted(points),
        n <= points.len(),
    ensures
        point_primitives(points, colors, per_vertex, fallback, n) == Seq::<DrawPrimitive>::empty(),
    decreases n,
{
    if n > 0 {
        lemma_no_points(points, colors, per_vertex, fallback, (n - 1) as nat);
        assert(points[n - 1].is_none());
    }
}

proof fn lemma_no_lines(
    lines: Seq<[usize; 2]>,
    points: Seq<Option<Point2>>,
    color: Rgb565,
    n: nat,
)
    requires
        none_accepted(points),
        n <= lines.len(),
        forall|i: int| 0 <= i < lines.len() ==> (#[trigger] lines[i])@[0] < points.len(),
    ensures
        line_primitives(lines, points, color, n) == Seq::<DrawPrimitive>::empty(),
    decreases n,
{
    if n > 0 {
        lemma_no_lines(lines, points, color, (n - 1) as nat);
        assert(points[lines[n - 1]@[0] as int].is_none());
    }
}

proof fn lemma_no_outlines(
    faces: Seq<[usize; 3]>,
    points: Seq<Option<Point2>>,
    color: Rgb565,
    n: nat,
)
    requires
        none_accepted(points),
        n <= faces.len(),
        forall|i: int| 0 <= i < faces.len() ==> (#[trigger] faces[i])@[0] < points.len(),
    ensures
        outline_primitives(faces, points, color, n) == Seq::<DrawPrimitive>::empty(),
    decreases n,
{
    if n > 0 {
        lemma_no_outlines(faces, points, color, (n - 1) as nat);
        assert(points[faces[n - 1]@[0] as int].is_none());
    }
}

proof fn lemma_no_triangles(
    faces: Seq<[usize; 3]>,
    points: Seq<Option<Point2>>,
    facing: Seq<bool>,
    culling: bool,
    shades: Seq<Rgb565>,
    shaded: bool,
    color: Rgb565,
    n: nat,
)
    requires
        none_accepted(points),
        n <= faces.len(),
        forall|i: int| 0 <= i < faces.len() ==> (#[trigger] faces[i])@[0] < points.len(),
    ensures
        triangle_primitives(faces, points, facing, culling, shades, shaded, color, n) == Seq::<
            DrawPrimitive,
        >::empty(),
    decreases n,
{
    if n > 0 {
        lemma_no_triangles(faces, points, facing, culling, shades, shaded, color, (n - 1) as nat);
        assert(points[faces[n - 1]@[0] as int].is_none());
    }
}

/// A mesh none of whose vertices was accepted draws nothing, whatever its
/// mode.
pub proof fn lemma_nothing_accepted_nothing_drawn(mesh: K3dMesh, projection: Projection)
    requires
        renderable(mesh, projection),
        none_accepted(projection.points@),
    ensures
        mesh_primitives(mesh, projection) == Seq::<DrawPrimitive>::empty(),
{
    let g = mesh.geometry;
    let points = projection.points@;
    if g.vertex_count > 0 {
        assert forall|i: int| 0 <= i < g.faces@.len() implies (#[trigger] g.faces@[i])@[0]
            < points.len() by {
            assert(crate::mesh::face_in_bounds(g.faces@[i], g.vertex_count));
        }
        assert forall|i: int| 0 <= i < g.lines@.len() implies (#[trigger] g.lines@[i])@[0]
            < points.len() by {
            assert(crate::mesh::line_in_bounds(g.lines@[i], g.vertex_count));
        }
        lemma_no_points(
            points,
            g.colors@,
            g.colors@.len() == g.vertex_count,
            mesh.color,
            g.vertex_count as nat,
        );
        lemma_no_lines(g.lines@, points, mesh.color, g.lines@.len());
        lemma_no_outlines(g.faces@, points, mesh.color, g.faces@.len());
        lemma_no_triangles(
            g.faces@,
            points,
            projection.facing@,
            false,
            projection.shades@,
            false,
            mesh.color,
            g.faces@.len(),
        );
        lemma_no_triangles(
            g.faces@,
            points,
            projection.facing@,
            true,
            projection.shades@,
            false,
            mesh.color,
            paired_faces(g),
        );
        lemma_no_triangles(
            g.faces@,
            points,
            projection.facing@,
            true,
            projection.shades@,
            true,
            mesh.color,
            paired_faces(g),
        );
    }
}

/// The point is the place on the screen of a vertex that was accepted.
pub open spec fn accepted(points: Seq<Option<Point2>>, q: Point2) -> bool {
    exists|v: int| 0 <= v < points.len() && #[trigger] points[v] == Some(q)
}

/// Every point that the primitive joins is the place of an accepted
/// vertex.
pub open spec fn joins_accepted(points: Seq<Option<Point2>>, p: DrawPrimitive) -> bool {
    match p {
        DrawPrimitive::ColoredPoint(a, _) => accepted(points, a),
        DrawPrimitive::Line(a, b, _) => accepted(points, a) && accepted(points, b),
        DrawPrimitive::ColoredTriangle(a, b, c, _) => accepted(points, a) && accepted(points, b)
            && accepted(points, c),
    }
}

proof fn lemma_points_join_accepted(
    points: Seq<Option<Point2>>,
    colors: Seq<Rgb565>,
    per_vertex: bool,
    fallback: Rgb565,
    n: nat,
)
    requires
        n <= points.len(),
    ensures
        forall|i: int|
            0 <= i < point_primitives(points, colors, per_vertex, fallback, n).len()
                ==> joins_accepted(
                points,
                #[trigger] point_primitives(points, colors, per_vertex, fallback, n)[i],
            ),
    decreases n,
{
    if n > 0 {
        let earlier = point_primitives(points, colors, per_vertex, fallback, (n - 1) as nat);
        let now = point_primitives(points, colors, per_vertex, fallback, n);
        lemma_points_join_accepted(points, colors, per_vertex, fallback, (n - 1) as nat);
        assert forall|i: int| 0 <= i < now.len() implies joins_accepted(
            points,
            #[trigger] now[i],
        ) by {
            if i < earlier.len() {
                assert(now[i] == earlier[i]);
            } else if let Some(q) = points[n - 1] {
                assert(points[n - 1] == Some(q));
            }
        }
    }
}

proof fn lemma_lines_join_accepted(
    lines: Seq<[usize; 2]>,
    points: Seq<Option<Point2>>,
    color: Rgb565,
    n: nat,
)
    requires
        n <= lines.len(),
        forall|i: int|
            0 <= i < lines.len() ==> (#[trigger] lines[i])@[0] < points.len() && lines[i]@[1]
                < points.len(),
    ensures
        forall|i: int|
            0 <= i < line_primitives(lines, points, color, n).len() ==> joins_accepted(
                points,
                #[trigger] line_primitives(lines, points, color, n)[i],
            ),
    decreases n,
{
    if n > 0 {
        let earlier = line_primitives(lines, points, color, (n - 1) as nat);
        let now = line_primitives(lines, points, color, n);
        lemma_lines_join_accepted(lines, points, color, (n - 1) as nat);
        let line = lines[n - 1];
        assert forall|i: int| 0 <= i < now.len() implies joins_accepted(
            points,
            #[trigger] now[i],
        ) by {
            if i < earlier.len() {
                assert(now[i] == earlier[i]);
            } else if let (Some(a), Some(b)) = (points[line@[0] as int], points[line@[1] as int]) {
                assert(points[line@[0] as int] == Some(a));
                assert(points[line@[1] as int] == Some(b));
            }
        }
    }
}

proof fn lemma_corners_accepted(face: [usize; 3], points: Seq<Option<Point2>>)
    requires
        face@[0] < points.len(),
        face@[1] < points.len(),
        face@[2] < points.len(),
    ensures
        match face_corners(face, points) {
            Some((a, b, c)) => accepted(points, a) && accepted(points, b) && accepted(points, c),
            None => true,
        },
{
    if let Some((a, b, c)) = face_corners(face, points) {
        assert(points[face@[0] as int] == Some(a));
        assert(points[face@[1] as int] == Some(b));
        assert(points[face@[2] as int] == Some(c));
    }
}

proof fn lemma_outlines_join_accepted(
    faces: Seq<[usize; 3]>,
    points: Seq<Option<Point2>>,
    color: Rgb565,
    n: nat,
)
    requires
        n <= faces.len(),
        forall|i: int|
            0 <= i < faces.len() ==> (#[trigger] faces[i])@[0] < points.len() && faces[i]@[1]
                < points.len() && faces[i]@[2] < points.len(),
    ensures
        forall|i: int|
            0 <= i < outline_primitives(faces, points, color, n).len() ==> joins_accepted(
                points,
                #[trigger] outline_primitives(faces, points, color, n)[i],
            ),
    decreases n,
{
    if n > 0 {
        let earlier = outline_primitives(faces, points, color, (n - 1) as nat);
        let now = outline_primitives(faces, points, color, n);
        lemma_outlines_join_accepted(faces, points, color, (n - 1) as nat);
        assert(faces[n - 1]@[0] < points.len());
        lemma_corners_accepted(faces[n - 1], points);
        assert forall|i: int| 0 <= i < now.len() implies joins_accepted(
            points,
            #[trigger] now[i],
        ) by {
            if i < earlier.len() {
                assert(now[i] == earlier[i]);
            }
        }
    }
}

proof fn lemma_triangles_join_accepted(
    faces: Seq<[usize; 3]>,
    points: Seq<Option<Point2>>,
    facing: Seq<bool>,
    culling: bool,
    shades: Seq<Rgb565>,
    shaded: bool,
    color: Rgb565,
    n: nat,
)
    requires
        n <= faces.len(),
        forall|i: int|
            0 <= i < faces.len() ==> (#[trigger] faces[i])@[0] < points.len() && faces[i]@[1]
                < points.len() && faces[i]@[2] < points.len(),
    ensures
        forall|i: int|
            0 <= i < triangle_primitives(
                faces,
                points,
                facing,
                culling,
                shades,
                shaded,
                color,
                n,
            ).len() ==> joins_accepted(
                points,
                #[trigger] triangle_primitives(
                    faces,
                    points,
                    facing,
                    culling,
                    shades,
                    shaded,
                    color,
                    n,
                )[i],
            ),
    decreases n,
{
    if n > 0 {
        lemma_triangles_join_accepted(
            faces,
            points,
            facing,
            culling,
            shades,
            shaded,
            color,
            (n - 1) as nat,
        );
        assert(faces[n - 1]@[0] < points.len());
        lemma_corners_accepted(faces[n - 1], points);
        let earlier = triangle_primitives(
            faces,
            points,
            facing,
            culling,
            shades,
            shaded,
            color,
            (n - 1) as nat,
        );
        let now = triangle_primitives(faces, points, facing, culling, shades, shaded, color, n);
        assert forall|i: int| 0 <= i < now.len() implies joins_accepted(
            points,
            #[trigger] now[i],
        ) by {
            if i < earlier.len() {
                assert(now[i] == earlier[i]);
            }
        }
    }
}

/// Whatever a mesh draws joins only the places of vertices that were
/// accepted: a rejected vertex takes every primitive that refers to it
/// with it.
pub proof fn lemma_primitives_join_accepted(mesh: K3dMesh, projection: Projection, i: int)
    requires
        renderable(mesh, projection),
        0 <= i < mesh_primitives(mesh, projection).len(),
    ensures
        joins_accepted(projection.points@, mesh_primitives(mesh, projection)[i]),
{
    let g = mesh.geometry;
    let points = projection.points@;
    assert forall|k: int| 0 <= k < g.faces@.len() implies (#[trigger] g.faces@[k])@[0]
        < points.len() && g.faces@[k]@[1] < points.len() && g.faces@[k]@[2] < points.len() by {
        assert(crate::mesh::face_in_bounds(g.faces@[k], g.vertex_count));
    }
    assert forall|k: int| 0 <= k < g.lines@.len() implies (#[trigger] g.lines@[k])@[0]
        < points.len() && g.lines@[k]@[1] < points.len() by {
        assert(crate::mesh::line_in_bounds(g.lines@[k], g.vertex_count));
    }
    lemma_points_join_accepted(
        points,
        g.colors@,
        g.colors@.len() == g.vertex_count,
        mesh.color,
        g.vertex_count as nat,
    );
    lemma_lines_join_accepted(g.lines@, points, mesh.color, g.lines@.len());
    lemma_outlines_join_accepted(g.faces@, points, mesh.color, g.faces@.len());
    lemma_triangles_join_accepted(
        g.faces@,
        points,
        projection.facing@,
        false,
        projection.shades@,
        false,
        mesh.color,
        g.faces@.len(),
    );
    lemma_triangles_join_accepted(
        g.faces@,
        points,
        projection.facing@,
        true,
        projection.shades@,
        false,
        mesh.color,
        paired_faces(g),
    );
    lemma_triangles_join_accepted(
        g.faces@,
        points,
        projection.facing@,
        true,
        projection.shades@,
        true,
        mesh.color,
        paired_faces(g),
    );
}

/// A mesh with normals whose faces are all turned away draws nothing in
/// the two solid modes.
pub proof fn lemma_mesh_turned_away_draws_nothing(mesh: K3dMesh, projection: Projection)
    requires
        mesh.render_mode == RenderMode::Solid || mesh.render_mode == RenderMode::SolidLightDir,
        mesh.geometry.normal_count > 0,
        fits(mesh, projection),
        forall|i: int| 0 <= i < projection.facing@.len() ==> !projection.facing@[i],
    ensures
        mesh_primitives(mesh, projection) == Seq::<DrawPrimitive>::empty(),
{
    let g = mesh.geometry;
    let shaded = mesh.render_mode == RenderMode::SolidLightDir;
    let drawn = triangle_primitives(
        g.faces@,
        projection.points@,
        projection.facing@,
        true,
        projection.shades@,
        shaded,
        mesh.color,
        paired_faces(g),
    );
    lemma_triangles_drawn(
        g.faces@,
        projection.points@,
        projection.facing@,
        true,
        projection.shades@,
        shaded,
        mesh.color,
        paired_faces(g),
    );
    if drawn.len() > 0 {
        assert(drawn.contains(drawn[0]));
    }
    assert(drawn =~= Seq::<DrawPrimitive>::empty());
}

/// A mesh of one face with a normal, turned towards the viewer and with
/// no corner rejected, draws that one triangle in the two solid modes.
pub proof fn lemma_facing_face_is_kept(mesh: K3dMesh, projection: Projection)
    requires
        mesh.render_mode == RenderMode::Solid || mesh.render_mode == RenderMode::SolidLightDir,
        mesh.geometry.vertex_count > 0,
        mesh.geometry.faces@.len() == 1,
        mesh.geometry.normal_count == 1,
        fits(mesh, projection),
        projection.facing@[0],
        face_corners(mesh.geometry.faces@[0], projection.points@).is_some(),
    ensures
        mesh_primitives(mesh, projection).len() == 1,
        draws_face(
            mesh.geometry.faces@,
            projection.points@,
            projection.facing@,
            true,
            projection.shades@,
            mesh.render_mode == RenderMode::SolidLightDir,
            mesh.color,
            0,
            mesh_primitives(mesh, projection)[0],
        ),
{
    let g = mesh.geometry;
    let shaded = mesh.render_mode == RenderMode::SolidLightDir;
    assert(paired_faces(g) == 1);
    assert(triangle_primitives(
        g.faces@,
        projection.points@,
        projection.facing@,
        true,
        projection.shades@,
        shaded,
        mesh.color,
        0,
    ) =~= Seq::<DrawPrimitive>::empty());
    assert(mesh_primitives(mesh, projection) == triangle_primitives(
        g.faces@,
        projection.points@,
        projection.facing@,
        true,
        projection.shades@,
        shaded,
        mesh.color,
        1,
    ));
}

/// The corners of a face on the screen, where all three were accepted.
fn corners_of(face: &[usize; 3], points: &Vec<Option<Point2>>) -> (corners: Option<
    (Point2, Point2, Point2),
>)
    requires
        face@[0] < points@.len(),
        face@[1] < points@.len(),
        face@[2] < points@.len(),
    ensures
        corners == face_corners(*face, points@),
{
    match (points[face[0]], points[face[1]], points[face[2]]) {
        (Some(a), Some(b), Some(c)) => Some((a, b, c)),
        _ => None,
    }
}

/// Draws the vertices as points.
fn emit_points(mesh: &K3dMesh, points: &Vec<Option<Point2>>) -> (out: Vec<DrawPrimitive>)
    requires
        points@.len() == mesh.geometry.vertex_count,
    ensures
        out@ == point_primitives(
            points@,
            mesh.geometry.colors@,
            mesh.geometry.colors@.len() == mesh.geometry.vertex_count,
            mesh.color,
            mesh.geometry.vertex_count as nat,
        ),
{
    let per_vertex = mesh.geometry.colors.len() == mesh.geometry.vertex_count;
    let mut out: Vec<DrawPrimitive> = Vec::new();
    let mut i: usize = 0;
    while i < points.len()
        invariant
            i <= points@.len(),
            points@.len() == mesh.geometry.vertex_count,
            per_vertex == (mesh.geometry.colors@.len() == mesh.geometry.vertex_count),
            out@ == point_primitives(
                points@,
                mesh.geometry.colors@,
                per_vertex,
                mesh.color,
                i as nat,
            ),
        decreases points@.len() - i,
    {
        if let Some(p) = points[i] {
            let color = if per_vertex {
                mesh.geometry.colors[i]
            } else {
                mesh.color
            };
            out.push(DrawPrimitive::ColoredPoint(p, color));
        }
        i += 1;
    }
    out
}

/// Draws the explicit edges as lines.
fn emit_lines(mesh: &K3dMesh, points: &Vec<Option<Point2>>) -> (out: Vec<DrawPrimitive>)
    requires
        points@.len() == mesh.geometry.vertex_count,
        mesh.geometry.indices_in_bounds(),
    ensures
        out@ == line_primitives(
            mesh.geometry.lines@,
            points@,
            mesh.color,
            mesh.geometry.lines@.len(),
        ),
{
    let mut out: Vec<DrawPrimitive> = Vec::new();
    let mut i: usize = 0;
    while i < mesh.geometry.lines.len()
        invariant
            i <= mesh.geometry.lines@.len(),
            points@.len() == mesh.geometry.vertex_count,
            mesh.geometry.indices_in_bounds(),
            out@ == line_primitives(mesh.geometry.lines@, points@, mesh.color, i as nat),
        decreases mesh.geometry.lines@.len() - i,
    {
        let line = &mesh.geometry.lines[i];
        assert(crate::mesh::line_in_bounds(mesh.geometry.lines@[i as int], mesh.geometry.vertex_count));
        if let (Some(a), Some(b)) = (points[line[0]], points[line[1]]) {
            out.push(DrawPrimitive::Line(a, b, mesh.color));
        }
        i += 1;
    }
    out
}

/// Draws the outline of every face.
fn emit_outlines(mesh: &K3dMesh, points: &Vec<Option<Point2>>) -> (out: Vec<DrawPrimitive>)
    requires
        points@.len() == mesh.geometry.vertex_count,
        mesh.geometry.indices_in_bounds(),
    ensures
        out@ == outline_primitives(
            mesh.geometry.faces@,
            points@,
            mesh.color,
            mesh.geometry.faces@.len(),
        ),
{
    let mut out: Vec<DrawPrimitive> = Vec::new();
    let mut i: usize = 0;
    while i < mesh.geometry.faces.len()
        invariant
            i <= mesh.geometry.faces@.len(),
            points@.len() == mesh.geometry.vertex_count,
            mesh.geometry.indices_in_bounds(),
            out@ == outline_primitives(mesh.geometry.faces@, points@, mesh.color, i as nat),
        decreases mesh.geometry.faces@.len() - i,
    {
        let face = &mesh.geometry.faces[i];
        assert(crate::mesh::face_in_bounds(mesh.geometry.faces@[i as int], mesh.geometry.vertex_count));
        if let Some((a, b, c)) = corners_of(face, points) {
            out.push(DrawPrimitive::Line(a, b, mesh.color));
            out.push(DrawPrimitive::Line(b, c, mesh.color));
            out.push(DrawPrimitive::Line(c, a, mesh.color));
        }
        i += 1;
    }
    out
}

/// Fills the first `count` faces.
fn emit_triangles(
    mesh: &K3dMesh,
    projection: &Projection,
    culling: bool,
    shaded: bool,
    count: usize,
) -> (out: Vec<DrawPrimitive>)
    requires
        projection.points@.len() == mesh.geometry.vertex_count,
        mesh.geometry.indices_in_bounds(),
        count <= mesh.geometry.faces@.len(),
        culling ==> count <= projection.facing@.len(),
        shaded ==> count <= projection.shades@.len(),
    ensures
        out@ == triangle_primitives(
            mesh.geometry.faces@,
            projection.points@,
            projection.facing@,
            culling,
            projection.shades@,
            shaded,
            mesh.color,
            count as nat,
        ),
{
    let mut out: Vec<DrawPrimitive> = Vec::new();
    let mut i: usize = 0;
    while i < count
        invariant
            i <= count,
            projection.points@.len() == mesh.geometry.vertex_count,
            mesh.geometry.indices_in_bounds(),
            count <= mesh.geometry.faces@.len(),
            culling ==> count <= projection.facing@.len(),
            shaded ==> count <= projection.shades@.len(),
            out@ == triangle_primitives(
                mesh.geometry.faces@,
                projection.points@,
                projection.facing@,
                culling,
                projection.shades@,
                shaded,
                mesh.color,
                i as nat,
            ),
        decreases count - i,
    {
        if !culling || projection.facing[i] {
            let face = &mesh.geometry.faces[i];
            assert(crate::mesh::face_in_bounds(mesh.geometry.faces@[i as int], mesh.geometry.vertex_count));
            if let Some((a, b, c)) = corners_of(face, &projection.points) {
                let color = if shaded {
                    projection.shades[i]
                } else {
                    mesh.color
                };
                out.push(DrawPrimitive::ColoredTriangle(a, b, c, color));
            }
        }
        i += 1;
    }
    out
}

/// The renderer for a screen of a given size.
#[derive(Clone, Copy, Debug, PartialEq, Eq, Structural)]
pub struct K3dengine {
    pub width: u16,
    pub height: u16,
}

impl K3dengine {
    /// A renderer for a screen of `width` by `height` pixels.
    pub fn new(width: u16, height: u16) -> (engine: K3dengine)
        ensures
            engine.width == width,
            engine.height == height,
    {
        K3dengine { width, height }
    }

    /// Tells whether the mesh can be rendered with the projection.
    pub fn can_render(&self, mesh: &K3dMesh, projection: &Projection) -> (ok: bool)
        ensures
            ok == renderable(*mesh, *projection),
    {
        if mesh.geometry.vertex_count == 0 {
            return true;
        }
        let shaded = match mesh.render_mode {
            RenderMode::SolidLightDir => true,
            _ => false,
        };
        mesh.geometry.check_indices() && projection.points.len() == mesh.geometry.vertex_count
            && projection.facing.len() == mesh.geometry.normal_count && (!shaded
            || projection.shades.len() == mesh.geometry.normal_count)
    }

    /// The primitives that one mesh draws, in drawing order.
    pub fn render_mesh(&self, mesh: &K3dMesh, projection: &Projection) -> (out: Vec<
        DrawPrimitive,
    >)
        requires
            renderable(*mesh, *projection),
        ensures
            out@ == mesh_primitives(*mesh, *projection),
    {
        if mesh.geometry.vertex_count == 0 {
            return Vec::new();
        }
        let paired = if mesh.geometry.faces.len() <= mesh.geometry.normal_count {
            mesh.geometry.faces.len()
        } else {
            mesh.geometry.normal_count
        };
        match mesh.render_mode {
            RenderMode::Points => emit_points(mesh, &projection.points),
            RenderMode::Lines => {
                if mesh.geometry.lines.len() > 0 {
                    emit_lines(mesh, &projection.points)
                } else {
                    emit_outlines(mesh, &projection.points)
                }
            },
            RenderMode::Solid => {
                if mesh.geometry.normal_count == 0 {
                    emit_triangles(mesh, projection, false, false, mesh.geometry.faces.len())
                } else {
                    emit_triangles(mesh, projection, true, false, paired)
                }
            },
            RenderMode::SolidLightDir => emit_triangles(mesh, projection, true, true, paired),
        }
    }

    /// The primitives that the meshes draw, mesh after mesh, each in its
    /// own drawing order.
    pub fn render(&self, meshes: &Vec<K3dMesh>, projections: &Vec<Projection>) -> (out: Vec<
        DrawPrimitive,
    >)
        requires
            meshes@.len() == projections@.len(),
            forall|i: int|
                0 <= i < meshes@.len() ==> renderable(#[trigger] meshes@[i], projections@[i]),
        ensures
            out@ == scene_primitives(meshes@, projections@, meshes@.len()),
    {
        let mut out: Vec<DrawPrimitive> = Vec::new();
        let mut i: usize = 0;
        while i < meshes.len()
            invariant
                i <= meshes@.len(),
                meshes@.len() == projections@.len(),
                forall|k: int|
                    0 <= k < meshes@.len() ==> renderable(
                        #[trigger] meshes@[k],
                        projections@[k],
                    ),
                out@ == scene_primitives(meshes@, projections@, i as nat),
            decreases meshes@.len() - i,
        {
            let mut part = self.render_mesh(&meshes[i], &projections[i]);
            out.append(&mut part);
            i += 1;
        }
        out
    }
}

} // verus!

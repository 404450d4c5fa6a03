//! Mesh topology: which vertices the faces and edges of a mesh join, the
//! check that every such index names a vertex, and the edges that a list
//! of faces implies.

use vstd::prelude::*;
use crate::color::Rgb565;

verus! {

/// How a mesh is drawn.
#[derive(Clone, Copy, Debug, PartialEq, Eq, Structural)]
pub enum RenderMode {
    /// One point per vertex.
    Points,
    /// The explicit edges, or else the outline of every face.
    Lines,
    /// Filled faces in the colour of the mesh.
    Solid,
    /// Filled faces, each in the colour that a directional light gives it.
    SolidLightDir,
}

/// The shape of a mesh without its coordinates: how many vertices and face
/// normals it has, and the indices that faces, edges and colours refer to
/// them by.
#[derive(Debug)]
pub struct Geometry {
    /// Number of vertices.
    pub vertex_count: usize,
    /// Triangles, each three indices into the vertices.
    pub faces: Vec<[usize; 3]>,
    /// One colour per vertex, or none at all.
    pub colors: Vec<Rgb565>,
    /// Explicit edges, each two indices into the vertices.
    pub lines: Vec<[usize; 2]>,
    /// Number of face normals; the k-th normal belongs to the k-th face.
    pub normal_count: usize,
}

impl Default for Geometry {
    /// The geometry of nothing: no vertex, face, colour, edge or normal.
    fn default() -> (geometry: Geometry)
        ensures
            geometry.vertex_count == 0,
            geometry.faces@.len() == 0,
            geometry.colors@.len() == 0,
            geometry.lines@.len() == 0,
            geometry.normal_count == 0,
    {
        Geometry {
            vertex_count: 0,
            faces: Vec::new(),
            colors: Vec::new(),
            lines: Vec::new(),
            normal_count: 0,
        }
    }
}

/// All three corners of the face name one of `vertex_count` vertices.
pub open spec fn face_in_bounds(face: [usize; 3], vertex_count: usize) -> bool {
    face@[0] < vertex_count && face@[1] < vertex_count && face@[2] < vertex_count
}

/// Both ends of the edge name one of `vertex_count` vertices.
pub open spec fn line_in_bounds(line: [usize; 2], vertex_count: usize) -> bool {
    line@[0] < vertex_count && line@[1] < vertex_count
}

/// The edge between two vertices, written with the lower index first.
pub open spec fn ordered_edge(a: usize, b: usize) -> (usize, usize) {
    if a < b {
        (a, b)
    } else {
        (b, a)
    }
}

/// The `k`-th edge of a list of faces: every face contributes the edges
/// between its first and second, second and third, third and first corner,
/// in that order.
pub open spec fn edge_at(faces: Seq<[usize; 3]>, k: int) -> (usize, usize) {
    let face = faces[k / 3];
    if k % 3 == 0 {
        ordered_edge(face@[0], face@[1])
    } else if k % 3 == 1 {
        ordered_edge(face@[1], face@[2])
    } else {
        ordered_edge(face@[2], face@[0])
    }
}

/// The first `n` edges of the faces with every repetition of an earlier
/// edge left out.
pub open spec fn unique_edges(faces: Seq<[usize; 3]>, n: nat) -> Seq<(usize, usize)>
    decreases n,
{
    if n == 0 {
        Seq::empty()
    } else {
        let earlier = unique_edges(faces, (n - 1) as nat);
        let edge = edge_at(faces, n - 1);
        if earlier.contains(edge) {
            earlier
        } else {
            earlier.push(edge)
        }
    }
}

/// What `unique_edges` keeps: exactly the edges among the first `n`, each
/// once, each with its lower index first.
pub proof fn lemma_unique_edges(faces: Seq<[usize; 3]>, n: nat)
    requires
        n <= 3 * faces.len(),
    ensures
        unique_edges(faces, n).no_duplicates(),
        unique_edges(faces, n).len() <= n,
        forall|e: (usize, usize)|
            unique_edges(faces, n).contains(e) <==> exists|k: int|
                0 <= k < n && #[trigger] edge_at(faces, k) == e,
        forall|i: int|
            0 <= i < unique_edges(faces, n).len() ==> (#[trigger] unique_edges(faces, n)[i]).0
                <= unique_edges(faces, n)[i].1,
    decreases n,
{
    if n > 0 {
        let earlier = unique_edges(faces, (n - 1) as nat);
        let edge = edge_at(faces, n - 1);
        let now = unique_edges(faces, n);
        lemma_unique_edges(faces, (n - 1) as nat);
        assert(edge.0 <= edge.1);
        if earlier.contains(edge) {
            assert forall|e: (usize, usize)| now.contains(e) <==> exists|k: int|
                0 <= k < n && #[trigger] edge_at(faces, k) == e by {
                if now.contains(e) {
                    let k = choose|k: int| 0 <= k < n - 1 && #[trigger] edge_at(faces, k) == e;
                    assert(0 <= k < n && edge_at(faces, k) == e);
                }
                if exists|k: int| 0 <= k < n && #[trigger] edge_at(faces, k) == e {
                    let k = choose|k: int| 0 <= k < n && #[trigger] edge_at(faces, k) == e;
                    if k < n - 1 {
                        assert(0 <= k < n - 1 && edge_at(faces, k) == e);
                    }
                }
            }
        } else {
            assert forall|e: (usize, usize)| now.contains(e) <==> exists|k: int|
                0 <= k < n && #[trigger] edge_at(faces, k) == e by {
                if now.contains(e) {
                    let i = choose|i: int| 0 <= i < now.len() && now[i] == e;
                    if i < earlier.len() {
                        assert(earlier[i] == e);
                        assert(earlier.contains(e));
                        let k = choose|k: int|
                            0 <= k < n - 1 && #[trigger] edge_at(faces, k) == e;
                        assert(0 <= k < n && edge_at(faces, k) == e);
                    } else {
                        assert(0 <= n - 1 < n && edge_at(faces, n - 1) == e);
                    }
                }
                if exists|k: int| 0 <= k < n && #[trigger] edge_at(faces, k) == e {
                    let k = choose|k: int| 0 <= k < n && #[trigger] edge_at(faces, k) == e;
                    if k < n - 1 {
                        assert(0 <= k < n - 1 && edge_at(faces, k) == e);
                        assert(earlier.contains(e));
                        let i = choose|i: int| 0 <= i < earlier.len() && earlier[i] == e;
                        assert(now[i] == e);
                    } else {
                        assert(now[now.len() - 1] == e);
                    }
                }
            }
            assert forall|i: int, j: int|
                0 <= i < now.len() && 0 <= j < now.len() && i != j implies now[i] != now[j] by {
                if i == earlier.len() {
                    assert(earlier[j] == now[j]);
                } else if j == earlier.len() {
                    assert(earlier[i] == now[i]);
                } else {
                    assert(earlier[i] == now[i] && earlier[j] == now[j]);
                }
            }
        }
    }
}

impl Geometry {
    /// Every face and every explicit edge refers to vertices that exist.
    pub open spec fn indices_in_bounds(&self) -> bool {
        &&& forall|i: int|
            0 <= i < self.faces@.len() ==> face_in_bounds(
                #[trigger] self.faces@[i],
                self.vertex_count,
            )
        &&& forall|i: int|
            0 <= i < self.lines@.len() ==> line_in_bounds(
                #[trigger] self.lines@[i],
                self.vertex_count,
            )
    }

    /// The geometry can be drawn: it has a vertex, its indices are in
    /// bounds, and it has a colour for every vertex or for none.
    pub open spec fn is_valid(&self) -> bool {
        &&& self.vertex_count > 0
        &&& self.indices_in_bounds()
        &&& (self.colors@.len() == 0 || self.colors@.len() == self.vertex_count)
    }

    /// Tells whether every face and every explicit edge refers to vertices
    /// that exist.
    pub fn check_indices(&self) -> (ok: bool)
        ensures
            ok == self.indices_in_bounds(),
    {
        let mut i: usize = 0;
        while i < self.faces.len()
            invariant
                i <= self.faces@.len(),
                forall|k: int|
                    0 <= k < i ==> face_in_bounds(#[trigger] self.faces@[k], self.vertex_count),
            decreases self.faces@.len() - i,
        {
            let face = &self.faces[i];
            if face[0] >= self.vertex_count || face[1] >= self.vertex_count || face[2]
                >= self.vertex_count {
                assert(!face_in_bounds(self.faces@[i as int], self.vertex_count));
                return false;
            }
            i += 1;
        }
        let mut j: usize = 0;
        while j < self.lines.len()
            invariant
                j <= self.lines@.len(),
                forall|k: int|
                    0 <= k < j ==> line_in_bounds(#[trigger] self.lines@[k], self.vertex_count),
            decreases self.lines@.len() - j,
        {
            let line = &self.lines[j];
            if line[0] >= self.vertex_count || line[1] >= self.vertex_count {
                assert(!line_in_bounds(self.lines@[j as int], self.vertex_count));
                return false;
            }
            j += 1;
        }
        true
    }

    /// Tells whether the geometry can be drawn.
    pub fn check_validity(&self) -> (ok: bool)
        ensures
            ok == self.is_valid(),
    {
        if self.vertex_count == 0 {
            return false;
        }
        if !self.check_indices() {
            return false;
        }
        if self.colors.len() != 0 && self.colors.len() != self.vertex_count {
            return false;
        }
        true
    }

    /// The edges of a list of faces, each once and with its lower index
    /// first, in the order in which the faces first use them.
    pub fn lines_from_faces(faces: &[[usize; 3]]) -> (lines: Vec<(usize, usize)>)
        ensures
            lines@ == unique_edges(faces@, 3 * faces@.len()),
            lines@.no_duplicates(),
            lines@.len() <= 3 * faces@.len(),
            forall|e: (usize, usize)|
                lines@.contains(e) <==> exists|k: int|
                    0 <= k < 3 * faces@.len() && #[trigger] edge_at(faces@, k) == e,
            forall|i: int| 0 <= i < lines@.len() ==> (#[trigger] lines@[i]).0 <= lines@[i].1,
    {
        let mut lines: Vec<(usize, usize)> = Vec::new();
        let mut i: usize = 0;
        while i < faces.len()
            invariant
                i <= faces@.len(),
                lines@ == unique_edges(faces@, (3 * i) as nat),
            decreases faces@.len() - i,
        {
            let face = &faces[i];
            proof {
                assert(edge_at(faces@, 3 * i) == ordered_edge(face@[0], face@[1]));
                assert(edge_at(faces@, 3 * i + 1) == ordered_edge(face@[1], face@[2]));
                assert(edge_at(faces@, 3 * i + 2) == ordered_edge(face@[2], face@[0]));
                assert(unique_edges(faces@, (3 * i + 1) as nat) == if lines@.contains(
                    edge_at(faces@, 3 * i as int),
                ) {
                    lines@
                } else {
                    lines@.push(edge_at(faces@, 3 * i as int))
                });
            }
            push_unique(&mut lines, order_edge(face[0], face[1]));
            assert(lines@ == unique_edges(faces@, (3 * i + 1) as nat));
            push_unique(&mut lines, order_edge(face[1], face[2]));
            assert(lines@ == unique_edges(faces@, (3 * i + 2) as nat));
            push_unique(&mut lines, order_edge(face[2], face[0]));
            assert(lines@ == unique_edges(faces@, (3 * i + 3) as nat));
            i += 1;
        }
        proof {
            lemma_unique_edges(faces@, 3 * faces@.len());
        }
        lines
    }
}

/// The edge between two vertices with the lower index first.
fn order_edge(a: usize, b: usize) -> (edge: (usize, usize))
    ensures
        edge == ordered_edge(a, b),
{
    if a < b {
        (a, b)
    } else {
        (b, a)
    }
}

/// Appends the edge unless the list already holds it.
fn push_unique(lines: &mut Vec<(usize, usize)>, edge: (usize, usize))
    ensures
        final(lines)@ == if old(lines)@.contains(edge) {
            old(lines)@
        } else {
            old(lines)@.push(edge)
        },
{
    let mut k: usize = 0;
    while k < lines.len()
        invariant
            k <= lines@.len(),
            lines@ == old(lines)@,
            forall|m: int| 0 <= m < k ==> lines@[m] != edge,
        decreases lines@.len() - k,
    {
        if lines[k].0 == edge.0 && lines[k].1 == edge.1 {
            assert(lines@[k as int] == edge);
            return ;
        }
        k += 1;
    }
    assert(!lines@.contains(edge));
    lines.push(edge);
}

/// One object on display: a geometry with the colour and mode it is drawn
/// in.
#[derive(Debug)]
pub struct K3dMesh {
    /// Colour of everything that has no colour of its own.
    pub color: Rgb565,
    /// How the mesh is drawn.
    pub render_mode: RenderMode,
    /// The shape that is drawn.
    pub geometry: Geometry,
}

impl K3dMesh {
    /// A white mesh drawn as points. Only a valid geometry makes a mesh.
    pub fn new(geometry: Geometry) -> (mesh: K3dMesh)
        requires
            geometry.is_valid(),
        ensures
            mesh.geometry == geometry,
            mesh.color.storage == 0xffff,
            mesh.render_mode == RenderMode::Points,
    {
        K3dMesh { color: Rgb565::white(), render_mode: RenderMode::Points, geometry }
    }

    /// Makes a mesh of a geometry that can be drawn, and of no other.
    pub fn try_new(geometry: Geometry) -> (made: Option<K3dMesh>)
        ensures
            made.is_some() == geometry.is_valid(),
            match made {
                Some(mesh) => mesh.geometry == geometry && mesh.color.storage == 0xffff
                    && mesh.render_mode == RenderMode::Points,
                None => true,
            },
    {
        if geometry.check_validity() {
            Some(K3dMesh::new(geometry))
        } else {
            None
        }
    }

    /// Changes the colour and nothing else.
    pub fn set_color(&mut self, color: Rgb565)
        ensures
            final(self).color == color,
            final(self).render_mode == old(self).render_mode,
            final(self).geometry == old(self).geometry,
    {
        self.color = color;
    }

    /// Changes the render mode and nothing else.
    pub fn set_render_mode(&mut self, mode: RenderMode)
        ensures
            final(self).render_mode == mode,
            final(self).color == old(self).color,
            final(self).geometry == old(self).geometry,
    {
        self.render_mode = mode;
    }
}

} // verus!

//! The room's mesh.
//!
//! The room is a box `2 * HALF_SIDE` wide and deep and `HEIGHT` high, with
//! its floor at `y = 0` and centred on the `y` axis. Its six faces (floor,
//! ceiling and four walls) each become one quad of four vertices and two
//! triangles, with normals that point into the room. All coordinates are
//! whole world units, so the mesh is built with integers.

use vstd::prelude::*;

verus! {

/// Half the width (and half the depth) of the room.
pub const HALF_SIDE: i32 = 5;

/// The height of the room.
pub const HEIGHT: i32 = 5;

/// One vertex of the mesh: position, normal and texture coordinate.
#[derive(Clone, Copy, Debug)]
pub struct Vertex {
    pub pos: [i32; 3],
    pub normal: [i32; 3],
    pub uv: [u32; 2],
}

/// The room's mesh: its vertices, the triangle list that indexes them, and
/// the number of indices to draw.
pub struct RoomGeometry {
    pub vertices: Vec<Vertex>,
    pub indices: Vec<u16>,
    pub index_count: u32,
}

/// The texture coordinates of the four corners of every face.
pub open spec fn face_uvs() -> [[u32; 2]; 4] {
    [[0, 0], [1, 0], [1, 1], [0, 1]]
}

/// The four vertices of a quad, in the order of its corners.
pub open spec fn quad_vertices(corners: [[i32; 3]; 4], normal: [i32; 3], uvs: [[u32; 2]; 4]) -> Seq<
    Vertex,
> {
    seq![
        Vertex { pos: corners[0], normal, uv: uvs[0] },
        Vertex { pos: corners[1], normal, uv: uvs[1] },
        Vertex { pos: corners[2], normal, uv: uvs[2] },
        Vertex { pos: corners[3], normal, uv: uvs[3] },
    ]
}

/// The six indices of a quad whose first vertex has index `base`: the
/// triangles 0-1-2 and 0-2-3.
pub open spec fn quad_indices(base: int) -> Seq<u16> {
    seq![
        base as u16,
        (base + 1) as u16,
        (base + 2) as u16,
        base as u16,
        (base + 2) as u16,
        (base + 3) as u16,
    ]
}

/// The corners of face `face`: 0 floor, 1 ceiling, 2 back wall (`z = -HALF_SIDE`),
/// 3 front wall (`z = HALF_SIDE`), 4 left wall (`x = -HALF_SIDE`),
/// 5 right wall (`x = HALF_SIDE`).
pub open spec fn face_corners(face: int) -> [[i32; 3]; 4] {
    let s: i32 = HALF_SIDE;
    let m: i32 = (-HALF_SIDE) as i32;
    let h: i32 = HEIGHT;
    if face == 0 {
        [[m, 0, m], [s, 0, m], [s, 0, s], [m, 0, s]]
    } else if face == 1 {
        [[m, h, s], [s, h, s], [s, h, m], [m, h, m]]
    } else if face == 2 {
        [[m, 0, m], [m, h, m], [s, h, m], [s, 0, m]]
    } else if face == 3 {
        [[s, 0, s], [s, h, s], [m, h, s], [m, 0, s]]
    } else if face == 4 {
        [[m, 0, s], [m, h, s], [m, h, m], [m, 0, m]]
    } else {
        [[s, 0, m], [s, h, m], [s, h, s], [s, 0, s]]
    }
}

/// The normal of face `face` (see [`face_corners`]).
pub open spec fn face_normal(face: int) -> [i32; 3] {
    let m: i32 = (-1) as i32;
    if face == 0 {
        [0, 1, 0]
    } else if face == 1 {
        [0, m, 0]
    } else if face == 2 {
        [0, 0, 1]
    } else if face == 3 {
        [0, 0, m]
    } else if face == 4 {
        [1, 0, 0]
    } else {
        [m, 0, 0]
    }
}

/// The four vertices of face `face`.
pub open spec fn face_vertices(face: int) -> Seq<Vertex> {
    quad_vertices(face_corners(face), face_normal(face), face_uvs())
}

/// The vertices of the room: the six faces in order.
pub open spec fn room_vertices() -> Seq<Vertex> {
    face_vertices(0) + face_vertices(1) + face_vertices(2) + face_vertices(3) + face_vertices(4)
        + face_vertices(5)
}

/// The indices of the room: two triangles per face, in order of the faces.
pub open spec fn room_indices() -> Seq<u16> {
    quad_indices(0) + quad_indices(4) + quad_indices(8) + quad_indices(12) + quad_indices(16)
        + quad_indices(20)
}

/// Appends one quad: its four vertices, and the six indices of its two
/// triangles 0-1-2 and 0-2-3, counted from the first new vertex.
fn quad(
    verts: &mut Vec<Vertex>,
    indices: &mut Vec<u16>,
    corners: [[i32; 3]; 4],
    normal: [i32; 3],
    uvs: [[u32; 2]; 4],
)
    requires
        old(verts)@.len() + 3 <= u16::MAX,
    ensures
        final(verts)@ == old(verts)@ + quad_vertices(corners, normal, uvs),
        final(indices)@ == old(indices)@ + quad_indices(old(verts)@.len() as int),
{
    let base: u16 = verts.len() as u16;
    let mut i: usize = 0;
    while i < 4
        invariant
            i <= 4,
            verts@ == old(verts)@ + quad_vertices(corners, normal, uvs).take(i as int),
        decreases 4 - i,
    {
        verts.push(Vertex { pos: corners[i], normal, uv: uvs[i] });
        assert(quad_vertices(corners, normal, uvs).take(i + 1) =~= quad_vertices(
            corners,
            normal,
            uvs,
        ).take(i as int).push(Vertex { pos: corners[i as int], normal, uv: uvs[i as int] }));
        i = i + 1;
    }
    assert(quad_vertices(corners, normal, uvs).take(4) =~= quad_vertices(corners, normal, uvs));
    indices.push(base);
    indices.push(base + 1);
    indices.push(base + 2);
    indices.push(base);
    indices.push(base + 2);
    indices.push(base + 3);
    assert(indices@ =~= old(indices)@ + quad_indices(old(verts)@.len() as int));
}

/// Builds the room: floor, ceiling, back, front, left and right wall, each
/// a quad whose normal points into the room.
pub fn create() -> (geo: RoomGeometry)
    ensures
        geo.vertices@ == room_vertices(),
        geo.indices@ == room_indices(),
        geo.index_count == 36,
        geo.indices@.len() == 36,
{
    let mut verts: Vec<Vertex> = Vec::new();
    let mut indices: Vec<u16> = Vec::new();
    let s: i32 = HALF_SIDE;
    let h: i32 = HEIGHT;
    let uv: [[u32; 2]; 4] = [[0, 0], [1, 0], [1, 1], [0, 1]];

    // Floor (y = 0, normal up)
    quad(&mut verts, &mut indices, [[-s, 0, -s], [s, 0, -s], [s, 0, s], [-s, 0, s]], [0, 1, 0], uv);
    // Ceiling (y = HEIGHT, normal down)
    quad(&mut verts, &mut indices, [[-s, h, s], [s, h, s], [s, h, -s], [-s, h, -s]], [0, -1, 0], uv);
    // Back wall (z = -HALF_SIDE, normal +z)
    quad(&mut verts, &mut indices, [[-s, 0, -s], [-s, h, -s], [s, h, -s], [s, 0, -s]], [0, 0, 1], uv);
    // Front wall (z = HALF_SIDE, normal -z)
    quad(&mut verts, &mut indices, [[s, 0, s], [s, h, s], [-s, h, s], [-s, 0, s]], [0, 0, -1], uv);
    // Left wall (x = -HALF_SIDE, normal +x)
    quad(&mut verts, &mut indices, [[-s, 0, s], [-s, h, s], [-s, h, -s], [-s, 0, -s]], [1, 0, 0], uv);
    // Right wall (x = HALF_SIDE, normal -x)
    quad(&mut verts, &mut indices, [[s, 0, -s], [s, h, -s], [s, h, s], [s, 0, s]], [-1, 0, 0], uv);

    assert(verts@ =~= room_vertices());
    assert(indices@ =~= room_indices());
    let index_count: u32 = indices.len() as u32;
    RoomGeometry { vertices: verts, indices, index_count }
}

/// The cross product of the edges `b - a` and `c - a`.
pub open spec fn edge_cross(a: [i32; 3], b: [i32; 3], c: [i32; 3]) -> (int, int, int) {
    let (ux, uy, uz) = (b[0] - a[0], b[1] - a[1], b[2] - a[2]);
    let (vx, vy, vz) = (c[0] - a[0], c[1] - a[1], c[2] - a[2]);
    (uy * vz - uz * vy, uz * vx - ux * vz, ux * vy - uy * vx)
}

/// The dot product of an integer vector with a normal.
pub open spec fn dot(v: (int, int, int), n: [i32; 3]) -> int {
    v.0 * n[0] + v.1 * n[1] + v.2 * n[2]
}

/// The triangle `a`, `b`, `c` of `verts` winds clockwise when seen from the
/// side its normal points to: its three vertices share one normal, and the
/// cross product of its edges is a negative multiple of that (unit) normal.
pub open spec fn winds_against_normal(verts: Seq<Vertex>, a: int, b: int, c: int) -> bool {
    let n = verts[a].normal;
    let e = edge_cross(verts[a].pos, verts[b].pos, verts[c].pos);
    let d: int = dot(e, n);
    &&& verts[b].normal == n
    &&& verts[c].normal == n
    &&& d < 0
    &&& e == (d * n[0], d * n[1], d * n[2])
}

/// The vertex `v` lies on the boundary box of the room, and its normal is a
/// unit axis vector that points into the room (towards its centre
/// `(0, HEIGHT / 2, 0)`).
pub open spec fn faces_inward(v: Vertex) -> bool {
    let (x, y, z) = (v.pos[0] as int, v.pos[1] as int, v.pos[2] as int);
    let n = v.normal;
    &&& -HALF_SIDE <= x <= HALF_SIDE
    &&& 0 <= y <= HEIGHT
    &&& -HALF_SIDE <= z <= HALF_SIDE
    &&& n[0] * n[0] + n[1] * n[1] + n[2] * n[2] == 1
    &&& dot((0 - 2 * x, HEIGHT - 2 * y, 0 - 2 * z), n) > 0
}

proof fn lemma_room_vertex_at(i: int)
    requires
        0 <= i < 24,
    ensures
        room_vertices()[i] == face_vertices(i / 4)[i % 4],
{
    assert(room_vertices() =~= Seq::new(24, |j: int| face_vertices(j / 4)[j % 4]));
}

proof fn lemma_room_index_at(i: int)
    requires
        0 <= i < 36,
    ensures
        room_indices()[i] == quad_indices(4 * (i / 6))[i % 6],
{
    assert(room_indices() =~= Seq::new(36, |j: int| quad_indices(4 * (j / 6))[j % 6]));
}

/// The lowest value that the dot product of a point of the room's box
/// (`-HALF_SIDE..=HALF_SIDE` by `0..=HEIGHT` by `-HALF_SIDE..=HALF_SIDE`)
/// with the unit axis vector `n` takes: the offset of the side of the box
/// that `n` points away from.
pub open spec fn box_side_offset(n: [i32; 3]) -> int {
    (if n[0] != 0 { -HALF_SIDE } else { 0 }) + (if n[1] < 0 { -HEIGHT } else { 0 }) + (if n[2]
        != 0 { -HALF_SIDE } else { 0 })
}

/// The vertex `v` lies on the side of the box that its normal points away
/// from (so the normal points across the room, to the opposite side).
pub open spec fn on_box_side(v: Vertex) -> bool {
    dot((v.pos[0] as int, v.pos[1] as int, v.pos[2] as int), v.normal) == box_side_offset(v.normal)
}

/// The face number that a face normal belongs to, in the order of
/// [`face_corners`].
pub open spec fn normal_face(n: [i32; 3]) -> int {
    if n[1] == 1 {
        0
    } else if n[1] == -1 {
        1
    } else if n[2] == 1 {
        2
    } else if n[2] == -1 {
        3
    } else if n[0] == 1 {
        4
    } else {
        5
    }
}

/// The same plane: the vertices `p` and `q` have the same normal `n` and the
/// same offset along it.
pub open spec fn coplanar(p: Vertex, q: Vertex) -> bool {
    let n = p.normal;
    &&& q.normal == n
    &&& dot((p.pos[0] as int, p.pos[1] as int, p.pos[2] as int), n) == dot(
        (q.pos[0] as int, q.pos[1] as int, q.pos[2] as int),
        n,
    )
}

/// What holds of the four vertices of one face.
pub open spec fn face_is_sound(vs: Seq<Vertex>) -> bool {
    &&& vs.len() == 4
    &&& forall|c: int| 0 <= c < 4 ==> #[trigger] faces_inward(vs[c])
    &&& forall|c: int| 0 <= c < 4 ==> #[trigger] on_box_side(vs[c])
    &&& forall|c: int, d: int| 0 <= c < 4 && 0 <= d < 4 ==> #[trigger] coplanar(vs[c], vs[d])
    &&& winds_against_normal(vs, 0, 1, 2)
    &&& winds_against_normal(vs, 0, 2, 3)
}

proof fn lemma_corners_sound(vs: Seq<Vertex>)
    requires
        vs.len() == 4,
        faces_inward(vs[0]),
        faces_inward(vs[1]),
        faces_inward(vs[2]),
        faces_inward(vs[3]),
        on_box_side(vs[0]),
        on_box_side(vs[1]),
        on_box_side(vs[2]),
        on_box_side(vs[3]),
        coplanar(vs[0], vs[1]),
        coplanar(vs[0], vs[2]),
        coplanar(vs[0], vs[3]),
        winds_against_normal(vs, 0, 1, 2),
        winds_against_normal(vs, 0, 2, 3),
    ensures
        face_is_sound(vs),
{
    assert forall|c: int, d: int| 0 <= c < 4 && 0 <= d < 4 implies #[trigger] coplanar(vs[c], vs[d]) by {
        assert(coplanar(vs[0], vs[c]));
        assert(coplanar(vs[0], vs[d]));
    }
}

proof fn lemma_face_vertex(f: int, c: int)
    requires
        0 <= f < 6,
        0 <= c < 4,
    ensures
        face_vertices(f)[c].pos == face_corners(f)[c],
        face_vertices(f)[c].normal == face_normal(f),
        faces_inward(face_vertices(f)[c]),
{
    let v = face_vertices(f)[c];
    assert(v.pos == face_corners(f)[c]);
    assert(v.normal == face_normal(f));
    let n = v.normal;
    assert(n[0] * n[0] + n[1] * n[1] + n[2] * n[2] == 1) by (nonlinear_arith)
        requires
            n == face_normal(f),
            0 <= f < 6,
    {
        if f == 0 {
            assert(n[0] == 0 && n[1] == 1 && n[2] == 0);
        } else if f == 1 {
            assert(n[0] == 0 && n[1] == -1 && n[2] == 0);
        } else if f == 2 {
            assert(n[0] == 0 && n[1] == 0 && n[2] == 1);
        } else if f == 3 {
            assert(n[0] == 0 && n[1] == 0 && n[2] == -1);
        } else if f == 4 {
            assert(n[0] == 1 && n[1] == 0 && n[2] == 0);
        } else {
            assert(n[0] == -1 && n[1] == 0 && n[2] == 0);
        }
    }
}

proof fn lemma_face_sound_0()
    ensures
        face_is_sound(face_vertices(0)),
{
    let vs = face_vertices(0);
    lemma_face_vertex(0, 0);
    assert(vs[0].pos[0] == -5 && vs[0].pos[1] == 0 && vs[0].pos[2] == -5);
    assert(vs[0].normal == vs[0].normal);
    lemma_face_vertex(0, 1);
    assert(vs[1].pos[0] == 5 && vs[1].pos[1] == 0 && vs[1].pos[2] == -5);
    assert(vs[1].normal == vs[0].normal);
    lemma_face_vertex(0, 2);
    assert(vs[2].pos[0] == 5 && vs[2].pos[1] == 0 && vs[2].pos[2] == 5);
    assert(vs[2].normal == vs[0].normal);
    lemma_face_vertex(0, 3);
    assert(vs[3].pos[0] == -5 && vs[3].pos[1] == 0 && vs[3].pos[2] == 5);
    assert(vs[3].normal == vs[0].normal);
    assert(vs[0].normal[0] == 0 && vs[0].normal[1] == 1 && vs[0].normal[2] == 0);
    assert(edge_cross(vs[0].pos, vs[1].pos, vs[2].pos) == (0int, -100int, 0int)) by (nonlinear_arith)
        requires
            vs[0].pos[0] == -5,
            vs[0].pos[1] == 0,
            vs[0].pos[2] == -5,
            vs[1].pos[0] == 5,
            vs[1].pos[1] == 0,
            vs[1].pos[2] == -5,
            vs[2].pos[0] == 5,
            vs[2].pos[1] == 0,
            vs[2].pos[2] == 5,
    ;
    assert(winds_against_normal(vs, 0, 1, 2));
    assert(edge_cross(vs[0].pos, vs[2].pos, vs[3].pos) == (0int, -100int, 0int)) by (nonlinear_arith)
        requires
            vs[0].pos[0] == -5,
            vs[0].pos[1] == 0,
            vs[0].pos[2] == -5,
            vs[2].pos[0] == 5,
            vs[2].pos[1] == 0,
            vs[2].pos[2] == 5,
            vs[3].pos[0] == -5,
            vs[3].pos[1] == 0,
            vs[3].pos[2] == 5,
    ;
    assert(winds_against_normal(vs, 0, 2, 3));
    assert(coplanar(vs[0], vs[1]));
    assert(coplanar(vs[0], vs[2]));
    assert(coplanar(vs[0], vs[3]));
    assert(on_box_side(vs[0]));
    assert(on_box_side(vs[1]));
    assert(on_box_side(vs[2]));
    assert(on_box_side(vs[3]));
    lemma_corners_sound(vs);
}

proof fn lemma_face_sound_1()
    ensures
        face_is_sound(face_vertices(1)),
{
    let vs = face_vertices(1);
    lemma_face_vertex(1, 0);
    assert(vs[0].pos[0] == -5 && vs[0].pos[1] == 5 && vs[0].pos[2] == 5);
    assert(vs[0].normal == vs[0].normal);
    lemma_face_vertex(1, 1);
    assert(vs[1].pos[0] == 5 && vs[1].pos[1] == 5 && vs[1].pos[2] == 5);
    assert(vs[1].normal == vs[0].normal);
    lemma_face_vertex(1, 2);
    assert(vs[2].pos[0] == 5 && vs[2].pos[1] == 5 && vs[2].pos[2] == -5);
    assert(vs[2].normal == vs[0].normal);
    lemma_face_vertex(1, 3);
    assert(vs[3].pos[0] == -5 && vs[3].pos[1] == 5 && vs[3].pos[2] == -5);
    assert(vs[3].normal == vs[0].normal);
    assert(vs[0].normal[0] == 0 && vs[0].normal[1] == -1 && vs[0].normal[2] == 0);
    assert(edge_cross(vs[0].pos, vs[1].pos, vs[2].pos) == (0int, 100int, 0int)) by (nonlinear_arith)
        requires
            vs[0].pos[0] == -5,
            vs[0].pos[1] == 5,
            vs[0].pos[2] == 5,
            vs[1].pos[0] == 5,
            vs[1].pos[1] == 5,
            vs[1].pos[2] == 5,
            vs[2].pos[0] == 5,
            vs[2].pos[1] == 5,
            vs[2].pos[2] == -5,
    ;
    assert(winds_against_normal(vs, 0, 1, 2));
    assert(edge_cross(vs[0].pos, vs[2].pos, vs[3].pos) == (0int, 100int, 0int)) by (nonlinear_arith)
        requires
            vs[0].pos[0] == -5,
            vs[0].pos[1] == 5,
            vs[0].pos[2] == 5,
            vs[2].pos[0] == 5,
            vs[2].pos[1] == 5,
            vs[2].pos[2] == -5,
            vs[3].pos[0] == -5,
            vs[3].pos[1] == 5,
            vs[3].pos[2] == -5,
    ;
    assert(winds_against_normal(vs, 0, 2, 3));
    assert(coplanar(vs[0], vs[1]));
    assert(coplanar(vs[0], vs[2]));
    assert(coplanar(vs[0], vs[3]));
    assert(on_box_side(vs[0]));
    assert(on_box_side(vs[1]));
    assert(on_box_side(vs[2]));
    assert(on_box_side(vs[3]));
    lemma_corners_sound(vs);
}

proof fn lemma_face_sound_2()
    ensures
        face_is_sound(face_vertices(2)),
{
    let vs = face_vertices(2);
    lemma_face_vertex(2, 0);
    assert(vs[0].pos[0] == -5 && vs[0].pos[1] == 0 && vs[0].pos[2] == -5);
    assert(vs[0].normal == vs[0].normal);
    lemma_face_vertex(2, 1);
    assert(vs[1].pos[0] == -5 && vs[1].pos[1] == 5 && vs[1].pos[2] == -5);
    assert(vs[1].normal == vs[0].normal);
    lemma_face_vertex(2, 2);
    assert(vs[2].pos[0] == 5 && vs[2].pos[1] == 5 && vs[2].pos[2] == -5);
    assert(vs[2].normal == vs[0].normal);
    lemma_face_vertex(2, 3);
    assert(vs[3].pos[0] == 5 && vs[3].pos[1] == 0 && vs[3].pos[2] == -5);
    assert(vs[3].normal == vs[0].normal);
    assert(vs[0].normal[0] == 0 && vs[0].normal[1] == 0 && vs[0].normal[2] == 1);
    assert(edge_cross(vs[0].pos, vs[1].pos, vs[2].pos) == (0int, 0int, -50int)) by (nonlinear_arith)
        requires
            vs[0].pos[0] == -5,
            vs[0].pos[1] == 0,
            vs[0].pos[2] == -5,
            vs[1].pos[0] == -5,
            vs[1].pos[1] == 5,
            vs[1].pos[2] == -5,
            vs[2].pos[0] == 5,
            vs[2].pos[1] == 5,
            vs[2].pos[2] == -5,
    ;
    assert(winds_against_normal(vs, 0, 1, 2));
    assert(edge_cross(vs[0].pos, vs[2].pos, vs[3].pos) == (0int, 0int, -50int)) by (nonlinear_arith)
        requires
            vs[0].pos[0] == -5,
            vs[0].pos[1] == 0,
            vs[0].pos[2] == -5,
            vs[2].pos[0] == 5,
            vs[2].pos[1] == 5,
            vs[2].pos[2] == -5,
            vs[3].pos[0] == 5,
            vs[3].pos[1] == 0,
            vs[3].pos[2] == -5,
    ;
    assert(winds_against_normal(vs, 0, 2, 3));
    assert(coplanar(vs[0], vs[1]));
    assert(coplanar(vs[0], vs[2]));
    assert(coplanar(vs[0], vs[3]));
    assert(on_box_side(vs[0]));
    assert(on_box_side(vs[1]));
    assert(on_box_side(vs[2]));
    assert(on_box_side(vs[3]));
    lemma_corners_sound(vs);
}

proof fn lemma_face_sound_3()
    ensures
        face_is_sound(face_vertices(3)),
{
    let vs = face_vertices(3);
    lemma_face_vertex(3, 0);
    assert(vs[0].pos[0] == 5 && vs[0].pos[1] == 0 && vs[0].pos[2] == 5);
    assert(vs[0].normal == vs[0].normal);
    lemma_face_vertex(3, 1);
    assert(vs[1].pos[0] == 5 && vs[1].pos[1] == 5 && vs[1].pos[2] == 5);
    assert(vs[1].normal == vs[0].normal);
    lemma_face_vertex(3, 2);
    assert(vs[2].pos[0] == -5 && vs[2].pos[1] == 5 && vs[2].pos[2] == 5);
    assert(vs[2].normal == vs[0].normal);
    lemma_face_vertex(3, 3);
    assert(vs[3].pos[0] == -5 && vs[3].pos[1] == 0 && vs[3].pos[2] == 5);
    assert(vs[3].normal == vs[0].normal);
    assert(vs[0].normal[0] == 0 && vs[0].normal[1] == 0 && vs[0].normal[2] == -1);
    assert(edge_cross(vs[0].pos, vs[1].pos, vs[2].pos) == (0int, 0int, 50int)) by (nonlinear_arith)
        requires
            vs[0].pos[0] == 5,
            vs[0].pos[1] == 0,
            vs[0].pos[2] == 5,
            vs[1].pos[0] == 5,
            vs[1].pos[1] == 5,
            vs[1].pos[2] == 5,
            vs[2].pos[0] == -5,
            vs[2].pos[1] == 5,
            vs[2].pos[2] == 5,
    ;
    assert(winds_against_normal(vs, 0, 1, 2));
    assert(edge_cross(vs[0].pos, vs[2].pos, vs[3].pos) == (0int, 0int, 50int)) by (nonlinear_arith)
        requires
            vs[0].pos[0] == 5,
            vs[0].pos[1] == 0,
            vs[0].pos[2] == 5,
            vs[2].pos[0] == -5,
            vs[2].pos[1] == 5,
            vs[2].pos[2] == 5,
            vs[3].pos[0] == -5,
            vs[3].pos[1] == 0,
            vs[3].pos[2] == 5,
    ;
    assert(winds_against_normal(vs, 0, 2, 3));
    assert(coplanar(vs[0], vs[1]));
    assert(coplanar(vs[0], vs[2]));
    assert(coplanar(vs[0], vs[3]));
    assert(on_box_side(vs[0]));
    assert(on_box_side(vs[1]));
    assert(on_box_side(vs[2]));
    assert(on_box_side(vs[3]));
    lemma_corners_sound(vs);
}

proof fn lemma_face_sound_4()
    ensures
        face_is_sound(face_vertices(4)),
{
    let vs = face_vertices(4);
    lemma_face_vertex(4, 0);
    assert(vs[0].pos[0] == -5 && vs[0].pos[1] == 0 && vs[0].pos[2] == 5);
    assert(vs[0].normal == vs[0].normal);
    lemma_face_vertex(4, 1);
    assert(vs[1].pos[0] == -5 && vs[1].pos[1] == 5 && vs[1].pos[2] == 5);
    assert(vs[1].normal == vs[0].normal);
    lemma_face_vertex(4, 2);
    assert(vs[2].pos[0] == -5 && vs[2].pos[1] == 5 && vs[2].pos[2] == -5);
    assert(vs[2].normal == vs[0].normal);
    lemma_face_vertex(4, 3);
    assert(vs[3].pos[0] == -5 && vs[3].pos[1] == 0 && vs[3].pos[2] == -5);
    assert(vs[3].normal == vs[0].normal);
    assert(vs[0].normal[0] == 1 && vs[0].normal[1] == 0 && vs[0].normal[2] == 0);
    assert(edge_cross(vs[0].pos, vs[1].pos, vs[2].pos) == (-50int, 0int, 0int)) by (nonlinear_arith)
        requires
            vs[0].pos[0] == -5,
            vs[0].pos[1] == 0,
            vs[0].pos[2] == 5,
            vs[1].pos[0] == -5,
            vs[1].pos[1] == 5,
            vs[1].pos[2] == 5,
            vs[2].pos[0] == -5,
            vs[2].pos[1] == 5,
            vs[2].pos[2] == -5,
    ;
    assert(winds_against_normal(vs, 0, 1, 2));
    assert(edge_cross(vs[0].pos, vs[2].pos, vs[3].pos) == (-50int, 0int, 0int)) by (nonlinear_arith)
        requires
            vs[0].pos[0] == -5,
            vs[0].pos[1] == 0,
            vs[0].pos[2] == 5,
            vs[2].pos[0] == -5,
            vs[2].pos[1] == 5,
            vs[2].pos[2] == -5,
            vs[3].pos[0] == -5,
            vs[3].pos[1] == 0,
            vs[3].pos[2] == -5,
    ;
    assert(winds_against_normal(vs, 0, 2, 3));
    assert(coplanar(vs[0], vs[1]));
    assert(coplanar(vs[0], vs[2]));
    assert(coplanar(vs[0], vs[3]));
    assert(on_box_side(vs[0]));
    assert(on_box_side(vs[1]));
    assert(on_box_side(vs[2]));
    assert(on_box_side(vs[3]));
    lemma_corners_sound(vs);
}

proof fn lemma_face_sound_5()
    ensures
        face_is_sound(face_vertices(5)),
{
    let vs = face_vertices(5);
    lemma_face_vertex(5, 0);
    assert(vs[0].pos[0] == 5 && vs[0].pos[1] == 0 && vs[0].pos[2] == -5);
    assert(vs[0].normal == vs[0].normal);
    lemma_face_vertex(5, 1);
    assert(vs[1].pos[0] == 5 && vs[1].pos[1] == 5 && vs[1].pos[2] == -5);
    assert(vs[1].normal == vs[0].normal);
    lemma_face_vertex(5, 2);
    assert(vs[2].pos[0] == 5 && vs[2].pos[1] == 5 && vs[2].pos[2] == 5);
    assert(vs[2].normal == vs[0].normal);
    lemma_face_vertex(5, 3);
    assert(vs[3].pos[0] == 5 && vs[3].pos[1] == 0 && vs[3].pos[2] == 5);
    assert(vs[3].normal == vs[0].normal);
    assert(vs[0].normal[0] == -1 && vs[0].normal[1] == 0 && vs[0].normal[2] == 0);
    assert(edge_cross(vs[0].pos, vs[1].pos, vs[2].pos) == (50int, 0int, 0int)) by (nonlinear_arith)
        requires
            vs[0].pos[0] == 5,
            vs[0].pos[1] == 0,
            vs[0].pos[2] == -5,
            vs[1].pos[0] == 5,
            vs[1].pos[1] == 5,
            vs[1].pos[2] == -5,
            vs[2].pos[0] == 5,
            vs[2].pos[1] == 5,
            vs[2].pos[2] == 5,
    ;
    assert(winds_against_normal(vs, 0, 1, 2));
    assert(edge_cross(vs[0].pos, vs[2].pos, vs[3].pos) == (50int, 0int, 0int)) by (nonlinear_arith)
        requires
            vs[0].pos[0] == 5,
            vs[0].pos[1] == 0,
            vs[0].pos[2] == -5,
            vs[2].pos[0] == 5,
            vs[2].pos[1] == 5,
            vs[2].pos[2] == 5,
            vs[3].pos[0] == 5,
            vs[3].pos[1] == 0,
            vs[3].pos[2] == 5,
    ;
    assert(winds_against_normal(vs, 0, 2, 3));
    assert(coplanar(vs[0], vs[1]));
    assert(coplanar(vs[0], vs[2]));
    assert(coplanar(vs[0], vs[3]));
    assert(on_box_side(vs[0]));
    assert(on_box_side(vs[1]));
    assert(on_box_side(vs[2]));
    assert(on_box_side(vs[3]));
    lemma_corners_sound(vs);
}

proof fn lemma_face_sound(f: int)
    requires
        0 <= f < 6,
    ensures
        face_is_sound(face_vertices(f)),
{
    if f == 0 {
        lemma_face_sound_0();
    } else if f == 1 {
        lemma_face_sound_1();
    } else if f == 2 {
        lemma_face_sound_2();
    } else if f == 3 {
        lemma_face_sound_3();
    } else if f == 4 {
        lemma_face_sound_4();
    } else {
        lemma_face_sound_5();
    }
}

/// Every vertex of the room lies on the room's boundary box, with a unit
/// normal that points into the room; and the four corners of each face lie
/// in one plane across that face's normal.
pub proof fn lemma_room_faces_inward()
    ensures
        room_vertices().len() == 24,
        forall|i: int| 0 <= i < 24 ==> #[trigger] faces_inward(room_vertices()[i]),
        forall|i: int, j: int|
            0 <= i < 24 && 0 <= j < 24 && i / 4 == j / 4 ==> #[trigger] coplanar(
                room_vertices()[i],
                room_vertices()[j],
            ),
{
    assert forall|i: int| 0 <= i < 24 implies #[trigger] faces_inward(room_vertices()[i]) by {
        lemma_room_vertex_at(i);
        lemma_face_sound(i / 4);
    }
    assert forall|i: int, j: int|
        0 <= i < 24 && 0 <= j < 24 && i / 4 == j / 4 implies #[trigger] coplanar(
            room_vertices()[i],
            room_vertices()[j],
        ) by {
        lemma_room_vertex_at(i);
        lemma_room_vertex_at(j);
        lemma_face_sound(i / 4);
    }
}

/// The room's index list is a list of twelve triangles, two per face, whose
/// indices all name vertices of the room, and all of which wind the same way
/// with respect to their normals.
pub proof fn lemma_room_triangles()
    ensures
        room_indices().len() == 36,
        forall|i: int| 0 <= i < 36 ==> #[trigger] room_indices()[i] < room_vertices().len(),
        forall|t: int|
            0 <= t < 12 ==> #[trigger] winds_against_normal(
                room_vertices(),
                room_indices()[3 * t] as int,
                room_indices()[3 * t + 1] as int,
                room_indices()[3 * t + 2] as int,
            ),
{
    assert forall|i: int| 0 <= i < 36 implies #[trigger] room_indices()[i] < room_vertices().len() by {
        lemma_room_index_at(i);
    }
    assert forall|t: int|
        0 <= t < 12 implies #[trigger] winds_against_normal(
            room_vertices(),
            room_indices()[3 * t] as int,
            room_indices()[3 * t + 1] as int,
            room_indices()[3 * t + 2] as int,
        ) by {
        let f = t / 2;
        lemma_room_index_at(3 * t);
        lemma_room_index_at(3 * t + 1);
        lemma_room_index_at(3 * t + 2);
        let a = room_indices()[3 * t] as int;
        let b = room_indices()[3 * t + 1] as int;
        let c = room_indices()[3 * t + 2] as int;
        lemma_room_vertex_at(a);
        lemma_room_vertex_at(b);
        lemma_room_vertex_at(c);
        lemma_face_sound(f);
        let vs = face_vertices(f);
        if t % 2 == 0 {
            assert(a == 4 * f && b == 4 * f + 1 && c == 4 * f + 2);
            assert(winds_against_normal(vs, 0, 1, 2));
        } else {
            assert(a == 4 * f && b == 4 * f + 2 && c == 4 * f + 3);
            assert(winds_against_normal(vs, 0, 2, 3));
        }
    }
}

/// The bytes of `indices` as they lie in memory, each index as two bytes in
/// the machine's byte order (the layout the GPU index buffer takes).
///
/// Calls `bytemuck::cast_slice::<u16, u8>`, which reinterprets the slice
/// without copying: the result has two bytes per index, and which of the two
/// is the low byte is the machine's byte order, the same for all indices.
#[verifier::external_body]
fn cast_index_bytes(indices: &[u16]) -> (bytes: &[u8])
    ensures
        bytes@.len() == 2 * indices@.len(),
        (forall|i: int|
            0 <= i < indices@.len() ==> #[trigger] indices@[i] == bytes@[2 * i] + 256 * bytes@[2 * i + 1])
            || (forall|i: int|
            0 <= i < indices@.len() ==> #[trigger] indices@[i] == bytes@[2 * i + 1] + 256 * bytes@[2 * i]),
{
    bytemuck::cast_slice::<u16, u8>(indices)
}

impl RoomGeometry {
    /// The index list as the bytes that the GPU index buffer is filled with:
    /// two bytes per index, low byte first on a little-endian machine and
    /// high byte first on a big-endian one.
    pub fn index_bytes(&self) -> (bytes: &[u8])
        ensures
            bytes@.len() == 2 * self.indices@.len(),
            (forall|i: int|
                0 <= i < self.indices@.len() ==> #[trigger] self.indices@[i] == bytes@[2 * i] + 256
                    * bytes@[2 * i + 1]) || (forall|i: int|
                0 <= i < self.indices@.len() ==> #[trigger] self.indices@[i] == bytes@[2 * i + 1]
                    + 256 * bytes@[2 * i]),
    {
        cast_index_bytes(self.indices.as_slice())
    }
}

proof fn lemma_face_normal_distinct(f: int)
    requires
        0 <= f < 6,
    ensures
        normal_face(face_normal(f)) == f,
{
    let n = face_normal(f);
    if f == 0 {
        assert(n[1] == 1);
    } else if f == 1 {
        assert(n[1] == -1);
    } else if f == 2 {
        assert(n[1] == 0 && n[2] == 1);
    } else if f == 3 {
        assert(n[1] == 0 && n[2] == -1);
    } else if f == 4 {
        assert(n[1] == 0 && n[2] == 0 && n[0] == 1);
    } else {
        assert(n[1] == 0 && n[2] == 0 && n[0] == -1);
    }
}

/// The room is closed: its six faces have six different normals, one along
/// each direction of each axis, and every vertex of a face lies on the side
/// of the box that the face's normal points away from. So the floor lies at
/// `y = 0`, the ceiling at `y = HEIGHT`, and there is a wall at each of
/// `x = -HALF_SIDE`, `x = HALF_SIDE`, `z = -HALF_SIDE` and `z = HALF_SIDE`.
pub proof fn lemma_room_closed()
    ensures
        forall|i: int| 0 <= i < 24 ==> #[trigger] on_box_side(room_vertices()[i]),
        forall|i: int, j: int|
            0 <= i < 24 && 0 <= j < 24 && i / 4 != j / 4 ==> #[trigger] room_vertices()[i].normal
                != #[trigger] room_vertices()[j].normal,
        forall|c: int| 0 <= c < 4 ==> #[trigger] room_vertices()[c].pos[1] == 0,
        forall|c: int| 4 <= c < 8 ==> #[trigger] room_vertices()[c].pos[1] == HEIGHT,
        forall|c: int| 8 <= c < 12 ==> #[trigger] room_vertices()[c].pos[2] == -HALF_SIDE,
        forall|c: int| 12 <= c < 16 ==> #[trigger] room_vertices()[c].pos[2] == HALF_SIDE,
        forall|c: int| 16 <= c < 20 ==> #[trigger] room_vertices()[c].pos[0] == -HALF_SIDE,
        forall|c: int| 20 <= c < 24 ==> #[trigger] room_vertices()[c].pos[0] == HALF_SIDE,
{
    assert forall|i: int| 0 <= i < 24 implies #[trigger] on_box_side(room_vertices()[i]) by {
        lemma_room_vertex_at(i);
        lemma_face_sound(i / 4);
    }
    assert forall|i: int, j: int|
        0 <= i < 24 && 0 <= j < 24 && i / 4 != j / 4 implies #[trigger] room_vertices()[i].normal
            != #[trigger] room_vertices()[j].normal by {
        lemma_room_vertex_at(i);
        lemma_room_vertex_at(j);
        lemma_face_vertex(i / 4, i % 4);
        lemma_face_vertex(j / 4, j % 4);
        lemma_face_normal_distinct(i / 4);
        lemma_face_normal_distinct(j / 4);
    }
    assert forall|c: int| 0 <= c < 24 implies {
        let p = #[trigger] room_vertices()[c].pos;
        &&& (c / 4 == 0 ==> p[1] == 0)
        &&& (c / 4 == 1 ==> p[1] == HEIGHT)
        &&& (c / 4 == 2 ==> p[2] == -HALF_SIDE)
        &&& (c / 4 == 3 ==> p[2] == HALF_SIDE)
        &&& (c / 4 == 4 ==> p[0] == -HALF_SIDE)
        &&& (c / 4 == 5 ==> p[0] == HALF_SIDE)
    } by {
        lemma_room_vertex_at(c);
        lemma_face_vertex(c / 4, c % 4);
        lemma_face_sound(c / 4);
        lemma_face_normal_distinct(c / 4);
        assert(on_box_side(room_vertices()[c]));
        let n = face_normal(c / 4);
        if c / 4 == 0 {
            assert(n[0] == 0 && n[1] == 1 && n[2] == 0);
        } else if c / 4 == 1 {
            assert(n[0] == 0 && n[1] == -1 && n[2] == 0);
        } else if c / 4 == 2 {
            assert(n[0] == 0 && n[1] == 0 && n[2] == 1);
        } else if c / 4 == 3 {
            assert(n[0] == 0 && n[1] == 0 && n[2] == -1);
        } else if c / 4 == 4 {
            assert(n[0] == 1 && n[1] == 0 && n[2] == 0);
        } else {
            assert(n[0] == -1 && n[1] == 0 && n[2] == 0);
        }
    }
}

/// The texture coordinates of each face run round the unit square, in the
/// order of its corners: (0, 0), (1, 0), (1, 1), (0, 1).
pub proof fn lemma_room_uvs()
    ensures
        forall|i: int|
            0 <= i < 24 ==> (#[trigger] room_vertices()[i]).uv[0] == (if i % 4 == 1 || i % 4 == 2 {
                1u32
            } else {
                0u32
            }) && room_vertices()[i].uv[1] == (if i % 4 >= 2 { 1u32 } else { 0u32 }),
{
    assert forall|i: int| 0 <= i < 24 implies (#[trigger] room_vertices()[i]).uv[0] == (if i % 4 == 1
        || i % 4 == 2 {
        1u32
    } else {
        0u32
    }) && room_vertices()[i].uv[1] == (if i % 4 >= 2 { 1u32 } else { 0u32 }) by {
        lemma_room_vertex_at(i);
        let c = i % 4;
        let u = face_uvs();
        assert(u[0][0] == 0 && u[0][1] == 0);
        assert(u[1][0] == 1 && u[1][1] == 0);
        assert(u[2][0] == 1 && u[2][1] == 1);
        assert(u[3][0] == 0 && u[3][1] == 1);
    }
}

/// Every face is drawn: triangles `2f` and `2f + 1` use only the vertices of
/// face `f`, and between them they use all four of its corners.
pub proof fn lemma_room_faces_drawn()
    ensures
        forall|i: int| 0 <= i < 36 ==> (#[trigger] room_indices()[i]) / 4 == i / 6,
        forall|f: int, c: int|
            0 <= f < 6 && 0 <= c < 4 ==> #[trigger] room_indices().subrange(6 * f, 6 * f + 6).contains(
                (4 * f + c) as u16,
            ),
{
    assert forall|i: int| 0 <= i < 36 implies (#[trigger] room_indices()[i]) / 4 == i / 6 by {
        lemma_room_index_at(i);
    }
    assert forall|f: int, c: int| 0 <= f < 6 && 0 <= c < 4 implies #[trigger] room_indices().subrange(
        6 * f,
        6 * f + 6,
    ).contains((4 * f + c) as u16) by {
        let sub = room_indices().subrange(6 * f, 6 * f + 6);
        lemma_room_index_at(6 * f);
        lemma_room_index_at(6 * f + 1);
        lemma_room_index_at(6 * f + 2);
        lemma_room_index_at(6 * f + 5);
        let k: int = if c == 3 { 5 } else { c };
        assert(sub[k] == (4 * f + c) as u16);
    }
}

} // verus!

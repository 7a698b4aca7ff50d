//! The fixed debug geometry: a unit cube of 24 vertices (four per face) and
//! the index list that draws each face as two triangles.

use vstd::prelude::*;

verus! {

/// A mesh vertex: a homogeneous position and a texture coordinate.
#[derive(Clone, Copy, Debug)]
pub struct Vertex {
    pub pos: [i8; 4],
    pub tex_coord: [i8; 2],
}

impl Vertex {
    /// Builds a vertex from a 3-component position — the homogeneous
    /// coordinate is fixed at one — and a texture coordinate.
    pub fn new(p: [i8; 3], t: [i8; 2]) -> (v: Vertex)
        ensures
            v.pos@ =~= seq![p@[0], p@[1], p@[2], 1i8],
            v.tex_coord@ =~= t@,
    {
        Vertex { pos: [p[0], p[1], p[2], 1], tex_coord: t }
    }
}

/// The cube's 24 vertices, four per face in face order: top, bottom, right,
/// left, front, back. Every vertex has its homogeneous coordinate at one.
pub fn cube_vertices() -> (v: Vec<Vertex>)
    ensures
        v@.len() == 24,
        forall|i: int| 0 <= i < 24 ==> (#[trigger] v@[i]).pos@[3] == 1,
{
    let mut v: Vec<Vertex> = Vec::new();
    v.push(Vertex::new([-1, -1, 1], [0, 0]));
    v.push(Vertex::new([1, -1, 1], [1, 0]));
    v.push(Vertex::new([1, 1, 1], [1, 1]));
    v.push(Vertex::new([-1, 1, 1], [0, 1]));
    v.push(Vertex::new([-1, 1, -1], [1, 0]));
    v.push(Vertex::new([1, 1, -1], [0, 0]));
    v.push(Vertex::new([1, -1, -1], [0, 1]));
    v.push(Vertex::new([-1, -1, -1], [1, 1]));
    v.push(Vertex::new([1, -1, -1], [0, 0]));
    v.push(Vertex::new([1, 1, -1], [1, 0]));
    v.push(Vertex::new([1, 1, 1], [1, 1]));
    v.push(Vertex::new([1, -1, 1], [0, 1]));
    v.push(Vertex::new([-1, -1, 1], [1, 0]));
    v.push(Vertex::new([-1, 1, 1], [0, 0]));
    v.push(Vertex::new([-1, 1, -1], [0, 1]));
    v.push(Vertex::new([-1, -1, -1], [1, 1]));
    v.push(Vertex::new([1, 1, -1], [1, 0]));
    v.push(Vertex::new([-1, 1, -1], [0, 0]));
    v.push(Vertex::new([-1, 1, 1], [0, 1]));
    v.push(Vertex::new([1, 1, 1], [1, 1]));
    v.push(Vertex::new([1, -1, 1], [0, 0]));
    v.push(Vertex::new([-1, -1, 1], [1, 0]));
    v.push(Vertex::new([-1, -1, -1], [1, 1]));
    v.push(Vertex::new([1, -1, -1], [0, 1]));
    v
}

/// The cube's index list: six faces, each drawn as two triangles over its
/// four vertices in the pattern `b, b+1, b+2, b+2, b+3, b` with `b = 4 * f`.
pub fn cube_indices() -> (idx: Vec<u16>)
    ensures
        idx@.len() == 36,
        forall|f: int|
            0 <= f < 6 ==> {
                &&& (#[trigger] idx@[6 * f]) == 4 * f
                &&& idx@[6 * f + 1] == 4 * f + 1
                &&& idx@[6 * f + 2] == 4 * f + 2
                &&& idx@[6 * f + 3] == 4 * f + 2
                &&& idx@[6 * f + 4] == 4 * f + 3
                &&& idx@[6 * f + 5] == 4 * f
            },
{
    let mut idx: Vec<u16> = Vec::new();
    let mut f: u16 = 0;
    while f < 6
        invariant
            f <= 6,
            idx@.len() == 6 * f,
            forall|g: int|
                0 <= g < f ==> {
                    &&& (#[trigger] idx@[6 * g]) == 4 * g
                    &&& idx@[6 * g + 1] == 4 * g + 1
                    &&& idx@[6 * g + 2] == 4 * g + 2
                    &&& idx@[6 * g + 3] == 4 * g + 2
                    &&& idx@[6 * g + 4] == 4 * g + 3
                    &&& idx@[6 * g + 5] == 4 * g
                },
        decreases 6 - f,
    {
        let base: u16 = 4 * f;
        idx.push(base);
        idx.push(base + 1);
        idx.push(base + 2);
        idx.push(base + 2);
        idx.push(base + 3);
        idx.push(base);
        f = f + 1;
    }
    idx
}

} // verus!

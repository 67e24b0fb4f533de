//! The cube primitive: 8 vertices and 36 indices describing a unit cube
//! centered at the origin, edge length 1, with one uniform color.
//!
//! The triangulation is fixed: two triangles per face, wound outward, in the
//! order front (z = 1/2), back, left, right, top, bottom.

use vstd::prelude::*;

use crate::geometry::{coord_is, spec_coord, Coord, Vec3, Vertex};

verus! {

/// The uniform color of every solid cube vertex (a green, 298/1000,
/// 686/1000, 314/1000 in RGB).
pub open spec fn solid_color_spec() -> Vec3 {
    Vec3 {
        x: spec_coord(298, 1000),
        y: spec_coord(686, 1000),
        z: spec_coord(314, 1000),
    }
}

/// A cube corner: each of `nx`, `ny`, `nz` is 1 or -1, standing for the
/// coordinate value 1/2 or -1/2.
pub open spec fn cube_corner(nx: int, ny: int, nz: int) -> Vertex {
    Vertex {
        pos: Vec3 {
            x: spec_coord(nx, 2),
            y: spec_coord(ny, 2),
            z: spec_coord(nz, 2),
        },
        color: solid_color_spec(),
    }
}

/// The 8 cube vertices, corner order fixed: the four corners of the
/// front face (z = 1/2) counterclockwise from (-1/2, -1/2), then the same
/// four corners on the back face (z = -1/2).
pub open spec fn cube_vertices_spec() -> Seq<Vertex> {
    seq![
        cube_corner(-1, -1, 1),
        cube_corner(1, -1, 1),
        cube_corner(1, 1, 1),
        cube_corner(-1, 1, 1),
        cube_corner(-1, -1, -1),
        cube_corner(1, -1, -1),
        cube_corner(1, 1, -1),
        cube_corner(-1, 1, -1),
    ]
}

/// The 36 cube indices: 12 triangles, 2 per face, each index naming one of
/// the 8 cube vertices.
pub open spec fn cube_indices_spec() -> Seq<u16> {
    seq![
        0u16, 1, 2, 2, 3, 0,
        4, 6, 5, 4, 7, 6,
        0, 7, 4, 0, 3, 7,
        1, 5, 6, 6, 2, 1,
        3, 2, 6, 6, 7, 3,
        0, 5, 1, 5, 0, 4,
    ]
}

/// The uniform solid color.
pub fn solid_color() -> (c: Vec3)
    ensures
        c == solid_color_spec(),
{
    Vec3 { x: Coord::new(298, 1000), y: Coord::new(686, 1000), z: Coord::new(314, 1000) }
}

fn corner_vertex(nx: i64, ny: i64, nz: i64) -> (v: Vertex)
    ensures
        v == cube_corner(nx as int, ny as int, nz as int),
{
    Vertex {
        pos: Vec3 { x: Coord::new(nx, 2), y: Coord::new(ny, 2), z: Coord::new(nz, 2) },
        color: solid_color(),
    }
}

/// The 8 vertices of the cube primitive.
pub fn cube_vertices() -> (r: Vec<Vertex>)
    ensures
        r@ == cube_vertices_spec(),
        r@.len() == 8,
{
    let r: Vec<Vertex> = vec![
        corner_vertex(-1, -1, 1),
        corner_vertex(1, -1, 1),
        corner_vertex(1, 1, 1),
        corner_vertex(-1, 1, 1),
        corner_vertex(-1, -1, -1),
        corner_vertex(1, -1, -1),
        corner_vertex(1, 1, -1),
        corner_vertex(-1, 1, -1),
    ];
    proof {
        assert(r@ =~= cube_vertices_spec());
    }
    r
}

/// The 36 indices of the cube primitive.
pub fn cube_indices() -> (r: Vec<u16>)
    ensures
        r@ == cube_indices_spec(),
        r@.len() == 36,
{
    let r: Vec<u16> = vec![
        0u16, 1, 2, 2, 3, 0,
        4, 6, 5, 4, 7, 6,
        0, 7, 4, 0, 3, 7,
        1, 5, 6, 6, 2, 1,
        3, 2, 6, 6, 7, 3,
        0, 5, 1, 5, 0, 4,
    ];
    proof {
        assert(r@ =~= cube_indices_spec());
    }
    r
}

/// A well-formed cube vertex: position coordinates are 1 or -1 over the
/// denominator 2, and the color is the uniform solid color.
pub open spec fn cube_vertex_wf(v: Vertex) -> bool {
    &&& v.pos.x.den == 2 && -1 <= v.pos.x.num <= 1
    &&& v.pos.y.den == 2 && -1 <= v.pos.y.num <= 1
    &&& v.pos.z.den == 2 && -1 <= v.pos.z.num <= 1
    &&& v.color == solid_color_spec()
}

/// Every vertex of the cube primitive is well formed.
pub proof fn lemma_cube_vertices_wf()
    ensures
        forall|j: int| 0 <= j < 8 ==> cube_vertex_wf(#[trigger] cube_vertices_spec()[j]),
{
}

/// Every cube index names one of the 8 cube vertices.
pub proof fn lemma_cube_indices_in_range()
    ensures
        cube_indices_spec().len() == 36,
        forall|j: int| 0 <= j < 36 ==> cube_indices_spec()[j] < 8,
{
}

/// Every vertex of the cube primitive lies on the surface of the unit cube
/// centered at the origin: each position coordinate has the value 1/2 or -1/2.
pub proof fn lemma_cube_vertices_on_unit_cube()
    ensures
        cube_vertices_spec().len() == 8,
        forall|j: int|
            0 <= j < 8 ==> {
                let p = (#[trigger] cube_vertices_spec()[j]).pos;
                &&& (coord_is(p.x, 1, 2) || coord_is(p.x, -1, 2))
                &&& (coord_is(p.y, 1, 2) || coord_is(p.y, -1, 2))
                &&& (coord_is(p.z, 1, 2) || coord_is(p.z, -1, 2))
            },
{
}

} // verus!

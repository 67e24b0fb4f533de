//! The flat world: the cube primitive and its wireframe overlay tiled across
//! a `width x depth` grid.
//!
//! Tiles are visited in row-major order, `x` outer and `y` inner. Each tile
//! is centered at `(x - width/2, y - depth/2, 1/2)`: a translated copy of the
//! 8 cube vertices and of the shared wireframe pattern is appended, and the
//! 36 cube indices are appended offset by the number of solid vertices
//! emitted before the tile. The wireframe pattern is generated once per call,
//! with [`WIRE_DIVISIONS`] subdivisions, and reused for every tile.
//!
//! The solid indices are 16-bit, so a world may hold at most 65536 solid
//! vertices: callers keep `8 * width * depth` within that bound.

use vstd::prelude::*;

use crate::cube::{
    cube_indices, cube_indices_spec, cube_vertices, cube_vertices_spec, lemma_cube_indices_in_range,
    lemma_cube_vertices_wf,
};
use crate::geometry::{spec_coord, vertex_translated, Coord, Vec3, Vertex};
use crate::wireframe::{
    generate_wireframe_vertices, lemma_interior_upto_len, lemma_wireframe_wf, wireframe_seq,
};

verus! {

/// The subdivision count of the wireframe pattern shared by all tiles.
pub const WIRE_DIVISIONS: u32 = 24;

/// The offset of tile `(x, y)`: the value `(x - width/2, y - depth/2, 1/2)`,
/// held over the denominator 2, the denominator of the cube vertices.
pub open spec fn solid_offset(width: int, depth: int, x: int, y: int) -> Vec3 {
    Vec3 {
        x: spec_coord(2 * x - width, 2),
        y: spec_coord(2 * y - depth, 2),
        z: spec_coord(1, 2),
    }
}

/// The same tile offset held over the denominator 48, the denominator of the
/// wireframe pattern for [`WIRE_DIVISIONS`] (24) subdivisions.
pub open spec fn wire_offset(width: int, depth: int, x: int, y: int) -> Vec3 {
    Vec3 {
        x: spec_coord(48 * x - 24 * width, 48),
        y: spec_coord(48 * y - 24 * depth, 48),
        z: spec_coord(24, 48),
    }
}

/// The 8 solid vertices of tile `(x, y)`: the cube primitive translated by
/// the tile offset.
pub open spec fn tile_solid(width: int, depth: int, x: int, y: int) -> Seq<Vertex> {
    cube_vertices_spec().map(
        |j: int, v: Vertex| vertex_translated(v, solid_offset(width, depth, x, y)),
    )
}

/// The 36 indices of one tile: the cube indices offset by `base`, the number
/// of solid vertices emitted before the tile.
pub open spec fn tile_indices(base: int) -> Seq<u16> {
    cube_indices_spec().map(|j: int, i: u16| (i + base) as u16)
}

/// The wireframe vertices of tile `(x, y)`: the shared wireframe pattern
/// translated by the tile offset.
pub open spec fn tile_wire(width: int, depth: int, x: int, y: int) -> Seq<Vertex> {
    wireframe_seq(WIRE_DIVISIONS as int).map(
        |j: int, v: Vertex| vertex_translated(v, wire_offset(width, depth, x, y)),
    )
}

/// The solid vertices of the first `y` tiles of row `x`.
pub open spec fn solid_row(width: int, depth: int, x: int, y: int) -> Seq<Vertex>
    decreases y,
{
    if y <= 0 {
        Seq::empty()
    } else {
        solid_row(width, depth, x, y - 1) + tile_solid(width, depth, x, y - 1)
    }
}

/// The solid vertices of the first `x` rows.
pub open spec fn solid_grid(width: int, depth: int, x: int) -> Seq<Vertex>
    decreases x,
{
    if x <= 0 {
        Seq::empty()
    } else {
        solid_grid(width, depth, x - 1) + solid_row(width, depth, x - 1, depth)
    }
}

/// The whole solid vertex buffer of a `width x depth` world.
pub open spec fn world_solid_seq(width: int, depth: int) -> Seq<Vertex> {
    solid_grid(width, depth, width)
}

/// The indices of the first `y` tiles of row `x`.
pub open spec fn index_row(width: int, depth: int, x: int, y: int) -> Seq<u16>
    decreases y,
{
    if y <= 0 {
        Seq::empty()
    } else {
        index_row(width, depth, x, y - 1) + tile_indices(8 * (x * depth + y - 1))
    }
}

/// The indices of the first `x` rows.
pub open spec fn index_grid(width: int, depth: int, x: int) -> Seq<u16>
    decreases x,
{
    if x <= 0 {
        Seq::empty()
    } else {
        index_grid(width, depth, x - 1) + index_row(width, depth, x - 1, depth)
    }
}

/// The whole solid index buffer of a `width x depth` world.
pub open spec fn world_index_seq(width: int, depth: int) -> Seq<u16> {
    index_grid(width, depth, width)
}

/// The wireframe vertices of the first `y` tiles of row `x`.
pub open spec fn wire_row(width: int, depth: int, x: int, y: int) -> Seq<Vertex>
    decreases y,
{
    if y <= 0 {
        Seq::empty()
    } else {
        wire_row(width, depth, x, y - 1) + tile_wire(width, depth, x, y - 1)
    }
}

/// The wireframe vertices of the first `x` rows.
pub open spec fn wire_grid(width: int, depth: int, x: int) -> Seq<Vertex>
    decreases x,
{
    if x <= 0 {
        Seq::empty()
    } else {
        wire_grid(width, depth, x - 1) + wire_row(width, depth, x - 1, depth)
    }
}

/// The whole wireframe vertex buffer of a `width x depth` world.
pub open spec fn world_wire_seq(width: int, depth: int) -> Seq<Vertex> {
    wire_grid(width, depth, width)
}

proof fn lemma_wire_pattern_len()
    ensures
        wireframe_seq(WIRE_DIVISIONS as int).len() == 576,
{
    lemma_interior_upto_len(WIRE_DIVISIONS as int, WIRE_DIVISIONS as int - 1);
}

proof fn lemma_solid_row_len(width: int, depth: int, x: int, y: int)
    requires
        y >= 0,
    ensures
        solid_row(width, depth, x, y).len() == 8 * y,
    decreases y,
{
    if y > 0 {
        lemma_solid_row_len(width, depth, x, y - 1);
    }
}

proof fn lemma_solid_grid_len(width: int, depth: int, x: int)
    requires
        x >= 0,
        depth >= 0,
    ensures
        solid_grid(width, depth, x).len() == 8 * (x * depth),
    decreases x,
{
    if x > 0 {
        lemma_solid_grid_len(width, depth, x - 1);
        lemma_solid_row_len(width, depth, x - 1, depth);
        assert(solid_grid(width, depth, x) == solid_grid(width, depth, x - 1) + solid_row(
            width,
            depth,
            x - 1,
            depth,
        ));
        assert(solid_grid(width, depth, x).len() == 8 * ((x - 1) * depth) + 8 * depth);
        assert(8 * (x * depth) == 8 * ((x - 1) * depth) + 8 * depth) by (nonlinear_arith);
    } else {
        assert(8 * (x * depth) == 0) by (nonlinear_arith)
            requires
                x == 0,
        ;
    }
}

proof fn lemma_index_row_len(width: int, depth: int, x: int, y: int)
    requires
        y >= 0,
    ensures
        index_row(width, depth, x, y).len() == 36 * y,
    decreases y,
{
    if y > 0 {
        lemma_index_row_len(width, depth, x, y - 1);
    }
}

proof fn lemma_index_grid_len(width: int, depth: int, x: int)
    requires
        x >= 0,
        depth >= 0,
    ensures
        index_grid(width, depth, x).len() == 36 * (x * depth),
    decreases x,
{
    if x > 0 {
        lemma_index_grid_len(width, depth, x - 1);
        lemma_index_row_len(width, depth, x - 1, depth);
        assert(index_grid(width, depth, x) == index_grid(width, depth, x - 1) + index_row(
            width,
            depth,
            x - 1,
            depth,
        ));
        assert(index_grid(width, depth, x).len() == 36 * ((x - 1) * depth) + 36 * depth);
        assert(36 * (x * depth) == 36 * ((x - 1) * depth) + 36 * depth) by (nonlinear_arith);
    } else {
        assert(36 * (x * depth) == 0) by (nonlinear_arith)
            requires
                x == 0,
        ;
    }
}

proof fn lemma_wire_row_len(width: int, depth: int, x: int, y: int)
    requires
        y >= 0,
    ensures
        wire_row(width, depth, x, y).len() == 576 * y,
    decreases y,
{
    lemma_wire_pattern_len();
    if y > 0 {
        lemma_wire_row_len(width, depth, x, y - 1);
    }
}

proof fn lemma_wire_grid_len(width: int, depth: int, x: int)
    requires
        x >= 0,
        depth >= 0,
    ensures
        wire_grid(width, depth, x).len() == 576 * (x * depth),
    decreases x,
{
    if x > 0 {
        lemma_wire_grid_len(width, depth, x - 1);
        lemma_wire_row_len(width, depth, x - 1, depth);
        assert(wire_grid(width, depth, x) == wire_grid(width, depth, x - 1) + wire_row(
            width,
            depth,
            x - 1,
            depth,
        ));
        assert(wire_grid(width, depth, x).len() == 576 * ((x - 1) * depth) + 576 * depth);
        assert(576 * (x * depth) == 576 * ((x - 1) * depth) + 576 * depth) by (nonlinear_arith);
    } else {
        assert(576 * (x * depth) == 0) by (nonlinear_arith)
            requires
                x == 0,
        ;
    }
}

/// The buffer lengths of any world: 8 solid vertices, 36 indices and 576
/// wireframe vertices (24 per division of the shared pattern) for each of the
/// `width * depth` tiles.
pub proof fn lemma_world_lens(width: u32, depth: u32)
    ensures
        world_solid_seq(width as int, depth as int).len() == 8 * width * depth,
        world_index_seq(width as int, depth as int).len() == 36 * width * depth,
        world_wire_seq(width as int, depth as int).len() == 576 * width * depth,
{
    let wi: int = width as int;
    let di: int = depth as int;
    lemma_solid_grid_len(wi, di, wi);
    lemma_index_grid_len(wi, di, wi);
    lemma_wire_grid_len(wi, di, wi);
    assert(8 * (wi * di) == 8 * wi * di) by (nonlinear_arith);
    assert(36 * (wi * di) == 36 * wi * di) by (nonlinear_arith);
    assert(576 * (wi * di) == 576 * wi * di) by (nonlinear_arith);
}

fn push_tile_solid(out: &mut Vec<Vertex>, cube_verts: &Vec<Vertex>, width: u32, depth: u32, x: u32, y: u32)
    requires
        cube_verts@ == cube_vertices_spec(),
    ensures
        final(out)@ == old(out)@ + tile_solid(width as int, depth as int, x as int, y as int),
{
    let off = Vec3 {
        x: Coord::new(2 * (x as i64) - (width as i64), 2),
        y: Coord::new(2 * (y as i64) - (depth as i64), 2),
        z: Coord::new(1, 2),
    };
    let ghost tile = tile_solid(width as int, depth as int, x as int, y as int);
    proof {
        assert(off == solid_offset(width as int, depth as int, x as int, y as int));
    }
    let mut j: usize = 0;
    while j < 8
        invariant
            j <= 8,
            cube_verts@ == cube_vertices_spec(),
            off == solid_offset(width as int, depth as int, x as int, y as int),
            tile == tile_solid(width as int, depth as int, x as int, y as int),
            out@ == old(out)@ + tile.take(j as int),
        decreases 8 - j,
    {
        proof {
            lemma_cube_vertices_wf();
        }
        let v = cube_verts[j].translated(&off);
        proof {
            assert(tile[j as int] == vertex_translated(
                cube_vertices_spec()[j as int],
                solid_offset(width as int, depth as int, x as int, y as int),
            ));
            assert(tile.take(j as int + 1) =~= tile.take(j as int).push(tile[j as int]));
        }
        out.push(v);
        j = j + 1;
    }
    proof {
        assert(tile.take(8) =~= tile);
    }
}

fn push_tile_indices(out: &mut Vec<u16>, cube_idx: &Vec<u16>, base: u16)
    requires
        cube_idx@ == cube_indices_spec(),
        base as int + 8 <= 65536,
    ensures
        final(out)@ == old(out)@ + tile_indices(base as int),
{
    let ghost tile = tile_indices(base as int);
    let mut j: usize = 0;
    while j < 36
        invariant
            j <= 36,
            cube_idx@ == cube_indices_spec(),
            base as int + 8 <= 65536,
            tile == tile_indices(base as int),
            out@ == old(out)@ + tile.take(j as int),
        decreases 36 - j,
    {
        proof {
            lemma_cube_indices_in_range();
        }
        let idx = cube_idx[j] + base;
        proof {
            assert(tile[j as int] == (cube_indices_spec()[j as int] + base as int) as u16);
            assert(tile.take(j as int + 1) =~= tile.take(j as int).push(tile[j as int]));
        }
        out.push(idx);
        j = j + 1;
    }
    proof {
        assert(tile.take(36) =~= tile);
    }
}

fn push_tile_wire(out: &mut Vec<Vertex>, base_wire: &Vec<Vertex>, width: u32, depth: u32, x: u32, y: u32)
    requires
        base_wire@ == wireframe_seq(WIRE_DIVISIONS as int),
    ensures
        final(out)@ == old(out)@ + tile_wire(width as int, depth as int, x as int, y as int),
{
    let off = Vec3 {
        x: Coord::new(48 * (x as i64) - 24 * (width as i64), 48),
        y: Coord::new(48 * (y as i64) - 24 * (depth as i64), 48),
        z: Coord::new(24, 48),
    };
    let ghost tile = tile_wire(width as int, depth as int, x as int, y as int);
    proof {
        assert(off == wire_offset(width as int, depth as int, x as int, y as int));
    }
    let n = base_wire.len();
    let mut j: usize = 0;
    while j < n
        invariant
            j <= n,
            n == base_wire.len(),
            base_wire@ == wireframe_seq(WIRE_DIVISIONS as int),
            off == wire_offset(width as int, depth as int, x as int, y as int),
            tile == tile_wire(width as int, depth as int, x as int, y as int),
            out@ == old(out)@ + tile.take(j as int),
        decreases n - j,
    {
        proof {
            lemma_wireframe_wf(WIRE_DIVISIONS);
        }
        let v = base_wire[j].translated(&off);
        proof {
            assert(tile[j as int] == vertex_translated(
                wireframe_seq(WIRE_DIVISIONS as int)[j as int],
                wire_offset(width as int, depth as int, x as int, y as int),
            ));
            assert(tile.take(j as int + 1) =~= tile.take(j as int).push(tile[j as int]));
        }
        out.push(v);
        j = j + 1;
    }
    proof {
        assert(tile.take(n as int) =~= tile);
    }
}

/// Generate a flat world of `width x depth` unit cubes: the solid vertex
/// buffer, the solid index buffer, and the wireframe vertex buffer, each tile
/// a translated copy of the cube primitive and of the shared wireframe
/// pattern, the indices of each tile offset by the solid vertices emitted
/// before it. The indices are 16-bit, so the world may hold at most 65536
/// solid vertices.
pub fn generate_flat_world(width: u32, depth: u32) -> (r: (Vec<Vertex>, Vec<u16>, Vec<Vertex>))
    requires
        8 * width * depth <= 65536,
    ensures
        r.0@ == world_solid_seq(width as int, depth as int),
        r.1@ == world_index_seq(width as int, depth as int),
        r.2@ == world_wire_seq(width as int, depth as int),
        r.0@.len() == 8 * width * depth,
        r.1@.len() == 36 * width * depth,
        r.2@.len() == 576 * width * depth,
{
    let wi: Ghost<int> = Ghost(width as int);
    let di: Ghost<int> = Ghost(depth as int);
    let cube_verts = cube_vertices();
    let cube_idx = cube_indices();
    let base_wire = generate_wireframe_vertices(WIRE_DIVISIONS);
    let mut vertices: Vec<Vertex> = Vec::new();
    let mut indices: Vec<u16> = Vec::new();
    let mut wire_vertices: Vec<Vertex> = Vec::new();
    let mut x: u32 = 0;
    while x < width
        invariant
            x <= width,
            8 * width * depth <= 65536,
            wi@ == width as int,
            di@ == depth as int,
            cube_verts@ == cube_vertices_spec(),
            cube_idx@ == cube_indices_spec(),
            base_wire@ == wireframe_seq(WIRE_DIVISIONS as int),
            vertices@ == solid_grid(wi@, di@, x as int),
            indices@ == index_grid(wi@, di@, x as int),
            wire_vertices@ == wire_grid(wi@, di@, x as int),
            vertices@.len() == 8 * (x as int * di@),
        decreases width - x,
    {
        let mut y: u32 = 0;
        while y < depth
            invariant
                y <= depth,
                x < width,
                8 * width * depth <= 65536,
                wi@ == width as int,
                di@ == depth as int,
                cube_verts@ == cube_vertices_spec(),
                cube_idx@ == cube_indices_spec(),
                base_wire@ == wireframe_seq(WIRE_DIVISIONS as int),
                vertices@ == solid_grid(wi@, di@, x as int) + solid_row(wi@, di@, x as int, y as int),
                indices@ == index_grid(wi@, di@, x as int) + index_row(wi@, di@, x as int, y as int),
                wire_vertices@ == wire_grid(wi@, di@, x as int) + wire_row(
                    wi@,
                    di@,
                    x as int,
                    y as int,
                ),
                vertices@.len() == 8 * (x as int * di@ + y as int),
            decreases depth - y,
        {
            proof {
                assert(8 * (x as int * di@ + y as int) + 8 <= 65536) by (nonlinear_arith)
                    requires
                        0 <= (x as int) && (x as int) < wi@,
                        0 <= (y as int) && (y as int) < di@,
                        8 * (width as int) * (depth as int) <= 65536,
                        wi@ == width as int,
                        di@ == depth as int,
                ;
            }
            let base_index: u16 = vertices.len() as u16;
            push_tile_solid(&mut vertices, &cube_verts, width, depth, x, y);
            push_tile_indices(&mut indices, &cube_idx, base_index);
            push_tile_wire(&mut wire_vertices, &base_wire, width, depth, x, y);
            proof {
                assert(vertices@ =~= solid_grid(wi@, di@, x as int) + solid_row(
                    wi@,
                    di@,
                    x as int,
                    y as int + 1,
                ));
                assert(tile_indices(base_index as int) == tile_indices(
                    8 * (x as int * di@ + y as int),
                ));
                assert(indices@ =~= index_grid(wi@, di@, x as int) + index_row(
                    wi@,
                    di@,
                    x as int,
                    y as int + 1,
                ));
                assert(wire_vertices@ =~= wire_grid(wi@, di@, x as int) + wire_row(
                    wi@,
                    di@,
                    x as int,
                    y as int + 1,
                ));
            }
            y = y + 1;
        }
        proof {
            assert(solid_grid(wi@, di@, x as int + 1) == solid_grid(wi@, di@, x as int)
                + solid_row(wi@, di@, x as int, di@));
            assert(index_grid(wi@, di@, x as int + 1) == index_grid(wi@, di@, x as int)
                + index_row(wi@, di@, x as int, di@));
            assert(wire_grid(wi@, di@, x as int + 1) == wire_grid(wi@, di@, x as int) + wire_row(
                wi@,
                di@,
                x as int,
                di@,
            ));
            assert(8 * ((x as int + 1) * di@) == 8 * (x as int * di@ + di@)) by (nonlinear_arith);
        }
        x = x + 1;
    }
    proof {
        lemma_world_lens(width, depth);
    }
    (vertices, indices, wire_vertices)
}

proof fn lemma_index_row_in_range(width: int, depth: int, x: int, y: int)
    requires
        0 <= x < width,
        0 <= y <= depth,
        8 * (width * depth) <= 65536,
    ensures
        forall|j: int|
            0 <= j < index_row(width, depth, x, y).len() ==> (#[trigger] index_row(
                width,
                depth,
                x,
                y,
            )[j] as int) < 8 * (width * depth),
    decreases y,
{
    if y > 0 {
        lemma_index_row_in_range(width, depth, x, y - 1);
        lemma_index_row_len(width, depth, x, y - 1);
        let base = 8 * (x * depth + y - 1);
        assert(0 <= base && base + 8 <= 8 * (width * depth)) by (nonlinear_arith)
            requires
                0 <= x < width,
                0 < y <= depth,
                base == 8 * (x * depth + y - 1),
        ;
        assert forall|t: int| 0 <= t < 36 implies (#[trigger] tile_indices(base)[t] as int) < 8 * (
        width * depth) by {
            lemma_cube_indices_in_range();
            assert(tile_indices(base)[t] == (cube_indices_spec()[t] + base) as u16);
        }
        assert forall|j: int| 0 <= j < index_row(width, depth, x, y).len() implies (
        #[trigger] index_row(width, depth, x, y)[j] as int) < 8 * (width * depth) by {
            let prior = index_row(width, depth, x, y - 1);
            if j < prior.len() {
                assert(index_row(width, depth, x, y)[j] == prior[j]);
            } else {
                assert(index_row(width, depth, x, y)[j] == tile_indices(base)[j - prior.len()]);
            }
        }
    }
}

proof fn lemma_index_grid_in_range(width: int, depth: int, x: int)
    requires
        0 <= x <= width,
        0 <= depth,
        8 * (width * depth) <= 65536,
    ensures
        forall|j: int|
            0 <= j < index_grid(width, depth, x).len() ==> (#[trigger] index_grid(
                width,
                depth,
                x,
            )[j] as int) < 8 * (width * depth),
    decreases x,
{
    if x > 0 {
        lemma_index_grid_in_range(width, depth, x - 1);
        lemma_index_grid_len(width, depth, x - 1);
        lemma_index_row_in_range(width, depth, x - 1, depth);
        assert forall|j: int| 0 <= j < index_grid(width, depth, x).len() implies (
        #[trigger] index_grid(width, depth, x)[j] as int) < 8 * (width * depth) by {
            let prior = index_grid(width, depth, x - 1);
            if j < prior.len() {
                assert(index_grid(width, depth, x)[j] == prior[j]);
            } else {
                assert(index_grid(width, depth, x)[j] == index_row(width, depth, x - 1, depth)[j
                    - prior.len()]);
            }
        }
    }
}

/// The solid buffers of any world are self-contained: there are `36 * width *
/// depth` indices and `8 * width * depth` solid vertices, and every index
/// value is strictly below the solid vertex count.
pub proof fn lemma_world_indices_in_range(width: u32, depth: u32)
    requires
        8 * width * depth <= 65536,
    ensures
        world_index_seq(width as int, depth as int).len() == 36 * width * depth,
        world_solid_seq(width as int, depth as int).len() == 8 * width * depth,
        forall|j: int|
            0 <= j < world_index_seq(width as int, depth as int).len() ==> (
            #[trigger] world_index_seq(width as int, depth as int)[j] as int) < 8 * width * depth,
{
    let wi: int = width as int;
    let di: int = depth as int;
    lemma_world_lens(width, depth);
    assert(8 * (wi * di) == 8 * wi * di) by (nonlinear_arith);
    lemma_index_grid_in_range(wi, di, wi);
}

/// Generating a world twice with the same width and depth gives identical
/// buffers, element for element: the output is a function of the inputs
/// alone.
pub proof fn lemma_world_deterministic(
    width: u32,
    depth: u32,
    first: (Seq<Vertex>, Seq<u16>, Seq<Vertex>),
    second: (Seq<Vertex>, Seq<u16>, Seq<Vertex>),
)
    requires
        first.0 == world_solid_seq(width as int, depth as int),
        first.1 == world_index_seq(width as int, depth as int),
        first.2 == world_wire_seq(width as int, depth as int),
        second.0 == world_solid_seq(width as int, depth as int),
        second.1 == world_index_seq(width as int, depth as int),
        second.2 == world_wire_seq(width as int, depth as int),
    ensures
        first == second,
{
}

} // verus!

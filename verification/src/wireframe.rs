//! The wireframe overlay for one unit cube.
//!
//! Given a subdivision count, the generator emits an ordered vertex list that
//! a renderer consumes as a line list: vertices `2k` and `2k + 1` form one
//! segment. The list holds the interior grid lines of every face (for each
//! interior line index `i` in `1 .. divisions`, 12 segments at the coordinate
//! `-1/2 + i / divisions`), followed by the 12 cube edges.
//!
//! Every coordinate is emitted over the denominator `2 * divisions`, so the
//! whole buffer is uniform: an interior line sits at `(2i - divisions) /
//! (2 * divisions)` and a cube corner at `(+-divisions) / (2 * divisions)`.

use vstd::prelude::*;

use crate::geometry::{coord_eq_value, spec_coord, Coord, Vec3, Vertex};

verus! {

/// The uniform color of every wireframe vertex: black.
pub open spec fn wire_color_spec() -> Vec3 {
    Vec3 { x: spec_coord(0, 1), y: spec_coord(0, 1), z: spec_coord(0, 1) }
}

/// A wireframe vertex at position `(nx, ny, nz) / den`, colored black.
pub open spec fn wire_vertex(nx: int, ny: int, nz: int, den: int) -> Vertex {
    Vertex {
        pos: Vec3 {
            x: spec_coord(nx, den),
            y: spec_coord(ny, den),
            z: spec_coord(nz, den),
        },
        color: wire_color_spec(),
    }
}

/// The 24 vertices (12 segments) of interior grid line `i`: with `p = 2i -
/// divisions` standing for the coordinate `-1/2 + i / divisions`, four lines
/// parallel to X and four parallel to Y across the two XY faces, then the
/// same families across the XZ and YZ faces.
pub open spec fn interior_block(divisions: int, i: int) -> Seq<Vertex> {
    let d = divisions;
    let den = 2 * divisions;
    let p = 2 * i - divisions;
    seq![
        wire_vertex(-d, p, -d, den), wire_vertex(d, p, -d, den),
        wire_vertex(-d, p, d, den), wire_vertex(d, p, d, den),
        wire_vertex(p, -d, -d, den), wire_vertex(p, d, -d, den),
        wire_vertex(p, -d, d, den), wire_vertex(p, d, d, den),
        wire_vertex(-d, -d, p, den), wire_vertex(d, -d, p, den),
        wire_vertex(-d, d, p, den), wire_vertex(d, d, p, den),
        wire_vertex(p, -d, -d, den), wire_vertex(p, -d, d, den),
        wire_vertex(p, d, -d, den), wire_vertex(p, d, d, den),
        wire_vertex(-d, -d, p, den), wire_vertex(-d, d, p, den),
        wire_vertex(d, -d, p, den), wire_vertex(d, d, p, den),
        wire_vertex(-d, p, -d, den), wire_vertex(-d, p, d, den),
        wire_vertex(d, p, -d, den), wire_vertex(d, p, d, den),
    ]
}

/// The 24 vertices of the 12 cube edges, each edge running between two
/// adjacent corners: the four edges parallel to X, then to Y, then to Z.
pub open spec fn edges_seq(divisions: int) -> Seq<Vertex> {
    let d = divisions;
    let den = 2 * divisions;
    seq![
        wire_vertex(-d, -d, -d, den), wire_vertex(d, -d, -d, den),
        wire_vertex(-d, d, -d, den), wire_vertex(d, d, -d, den),
        wire_vertex(-d, -d, d, den), wire_vertex(d, -d, d, den),
        wire_vertex(-d, d, d, den), wire_vertex(d, d, d, den),
        wire_vertex(-d, -d, -d, den), wire_vertex(-d, d, -d, den),
        wire_vertex(d, -d, -d, den), wire_vertex(d, d, -d, den),
        wire_vertex(-d, -d, d, den), wire_vertex(-d, d, d, den),
        wire_vertex(d, -d, d, den), wire_vertex(d, d, d, den),
        wire_vertex(-d, -d, -d, den), wire_vertex(-d, -d, d, den),
        wire_vertex(d, -d, -d, den), wire_vertex(d, -d, d, den),
        wire_vertex(-d, d, -d, den), wire_vertex(-d, d, d, den),
        wire_vertex(d, d, -d, den), wire_vertex(d, d, d, den),
    ]
}

/// The interior grid-line blocks for line indices `1 ..= k`, in order.
pub open spec fn interior_upto(divisions: int, k: int) -> Seq<Vertex>
    decreases k,
{
    if k <= 0 {
        Seq::empty()
    } else {
        interior_upto(divisions, k - 1) + interior_block(divisions, k)
    }
}

/// The whole wireframe buffer: the interior grid lines for `1 ..
/// divisions`, then the 12 cube edges.
pub open spec fn wireframe_seq(divisions: int) -> Seq<Vertex> {
    interior_upto(divisions, divisions - 1) + edges_seq(divisions)
}

pub proof fn lemma_interior_upto_len(divisions: int, k: int)
    requires
        k >= 0,
    ensures
        interior_upto(divisions, k).len() == 24 * k,
    decreases k,
{
    if k > 0 {
        lemma_interior_upto_len(divisions, k - 1);
    }
}

/// A wireframe coordinate for `divisions` subdivisions: denominator
/// `2 * divisions`, numerator between `-divisions` and `divisions`.
pub open spec fn wire_coord_wf(c: Coord, divisions: int) -> bool {
    c.den == 2 * divisions && -divisions <= c.num <= divisions
}

/// A well-formed wireframe vertex: all three position coordinates lie in the
/// unit cube over the uniform denominator, and the color is the wire color.
pub open spec fn wire_vertex_wf(v: Vertex, divisions: int) -> bool {
    &&& wire_coord_wf(v.pos.x, divisions)
    &&& wire_coord_wf(v.pos.y, divisions)
    &&& wire_coord_wf(v.pos.z, divisions)
    &&& v.color == wire_color_spec()
}

proof fn lemma_interior_block_wf(divisions: u32, i: int)
    requires
        divisions >= 1,
        1 <= i < divisions,
    ensures
        interior_block(divisions as int, i).len() == 24,
        forall|t: int|
            0 <= t < 24 ==> wire_vertex_wf(
                #[trigger] interior_block(divisions as int, i)[t],
                divisions as int,
            ),
{
}

proof fn lemma_interior_upto_wf(divisions: u32, k: int)
    requires
        divisions >= 1,
        0 <= k < divisions,
    ensures
        forall|j: int|
            0 <= j < interior_upto(divisions as int, k).len() ==> wire_vertex_wf(
                #[trigger] interior_upto(divisions as int, k)[j],
                divisions as int,
            ),
    decreases k,
{
    let d = divisions as int;
    if k > 0 {
        lemma_interior_upto_wf(divisions, k - 1);
        lemma_interior_block_wf(divisions, k);
        assert forall|j: int|
            0 <= j < interior_upto(d, k).len() implies wire_vertex_wf(
            interior_upto(d, k)[j],
            d,
        ) by {
            let prior = interior_upto(d, k - 1);
            if j < prior.len() {
                assert(interior_upto(d, k)[j] == prior[j]);
            } else {
                assert(interior_upto(d, k)[j] == interior_block(d, k)[j - prior.len()]);
            }
        }
    }
}

proof fn lemma_edges_wf(divisions: u32)
    requires
        divisions >= 1,
    ensures
        edges_seq(divisions as int).len() == 24,
        forall|t: int|
            0 <= t < 24 ==> wire_vertex_wf(
                #[trigger] edges_seq(divisions as int)[t],
                divisions as int,
            ),
{
}

/// Every vertex of a wireframe buffer is well formed: coordinates over the
/// uniform denominator `2 * divisions`, numerators within the unit cube, and
/// the wire color throughout.
pub proof fn lemma_wireframe_wf(divisions: u32)
    requires
        divisions >= 1,
    ensures
        forall|j: int|
            0 <= j < wireframe_seq(divisions as int).len() ==> wire_vertex_wf(
                #[trigger] wireframe_seq(divisions as int)[j],
                divisions as int,
            ),
{
    lemma_interior_upto_wf(divisions, divisions as int - 1);
    lemma_edges_wf(divisions);
}

fn wire_color() -> (c: Vec3)
    ensures
        c == wire_color_spec(),
{
    Vec3 { x: Coord::new(0, 1), y: Coord::new(0, 1), z: Coord::new(0, 1) }
}

fn wire_vertex_at(nx: i64, ny: i64, nz: i64, den: i64) -> (v: Vertex)
    ensures
        v == wire_vertex(nx as int, ny as int, nz as int, den as int),
{
    Vertex {
        pos: Vec3 { x: Coord::new(nx, den), y: Coord::new(ny, den), z: Coord::new(nz, den) },
        color: wire_color(),
    }
}

fn push_interior_block(out: &mut Vec<Vertex>, divisions: u32, i: u32)
    requires
        1 <= i < divisions,
    ensures
        final(out)@ == old(out)@ + interior_block(divisions as int, i as int),
{
    let d: i64 = divisions as i64;
    let den: i64 = 2 * d;
    let p: i64 = 2 * (i as i64) - d;
    out.push(wire_vertex_at(-d, p, -d, den));
    out.push(wire_vertex_at(d, p, -d, den));
    out.push(wire_vertex_at(-d, p, d, den));
    out.push(wire_vertex_at(d, p, d, den));
    out.push(wire_vertex_at(p, -d, -d, den));
    out.push(wire_vertex_at(p, d, -d, den));
    out.push(wire_vertex_at(p, -d, d, den));
    out.push(wire_vertex_at(p, d, d, den));
    out.push(wire_vertex_at(-d, -d, p, den));
    out.push(wire_vertex_at(d, -d, p, den));
    out.push(wire_vertex_at(-d, d, p, den));
    out.push(wire_vertex_at(d, d, p, den));
    out.push(wire_vertex_at(p, -d, -d, den));
    out.push(wire_vertex_at(p, -d, d, den));
    out.push(wire_vertex_at(p, d, -d, den));
    out.push(wire_vertex_at(p, d, d, den));
    out.push(wire_vertex_at(-d, -d, p, den));
    out.push(wire_vertex_at(-d, d, p, den));
    out.push(wire_vertex_at(d, -d, p, den));
    out.push(wire_vertex_at(d, d, p, den));
    out.push(wire_vertex_at(-d, p, -d, den));
    out.push(wire_vertex_at(-d, p, d, den));
    out.push(wire_vertex_at(d, p, -d, den));
    out.push(wire_vertex_at(d, p, d, den));
    proof {
        assert(out@ =~= old(out)@ + interior_block(divisions as int, i as int));
    }
}

fn push_cube_edges(out: &mut Vec<Vertex>, divisions: u32)
    requires
        divisions >= 1,
    ensures
        final(out)@ == old(out)@ + edges_seq(divisions as int),
{
    let d: i64 = divisions as i64;
    let den: i64 = 2 * d;
    out.push(wire_vertex_at(-d, -d, -d, den));
    out.push(wire_vertex_at(d, -d, -d, den));
    out.push(wire_vertex_at(-d, d, -d, den));
    out.push(wire_vertex_at(d, d, -d, den));
    out.push(wire_vertex_at(-d, -d, d, den));
    out.push(wire_vertex_at(d, -d, d, den));
    out.push(wire_vertex_at(-d, d, d, den));
    out.push(wire_vertex_at(d, d, d, den));
    out.push(wire_vertex_at(-d, -d, -d, den));
    out.push(wire_vertex_at(-d, d, -d, den));
    out.push(wire_vertex_at(d, -d, -d, den));
    out.push(wire_vertex_at(d, d, -d, den));
    out.push(wire_vertex_at(-d, -d, d, den));
    out.push(wire_vertex_at(-d, d, d, den));
    out.push(wire_vertex_at(d, -d, d, den));
    out.push(wire_vertex_at(d, d, d, den));
    out.push(wire_vertex_at(-d, -d, -d, den));
    out.push(wire_vertex_at(-d, -d, d, den));
    out.push(wire_vertex_at(d, -d, -d, den));
    out.push(wire_vertex_at(d, -d, d, den));
    out.push(wire_vertex_at(-d, d, -d, den));
    out.push(wire_vertex_at(-d, d, d, den));
    out.push(wire_vertex_at(d, d, -d, den));
    out.push(wire_vertex_at(d, d, d, den));
    proof {
        assert(out@ =~= old(out)@ + edges_seq(divisions as int));
    }
}

/// Generate the wireframe overlay for one unit cube with `divisions` grid
/// cells per face along each axis: the interior grid lines of every face,
/// followed by the 12 cube edges, 24 vertices per division in all.
pub fn generate_wireframe_vertices(divisions: u32) -> (r: Vec<Vertex>)
    requires
        divisions >= 1,
    ensures
        r@ == wireframe_seq(divisions as int),
        r@.len() == 24 * divisions,
{
    let mut vertices: Vec<Vertex> = Vec::new();
    let mut i: u32 = 1;
    while i < divisions
        invariant
            1 <= i <= divisions,
            vertices@ == interior_upto(divisions as int, i as int - 1),
        decreases divisions - i,
    {
        push_interior_block(&mut vertices, divisions, i);
        i = i + 1;
    }
    push_cube_edges(&mut vertices, divisions);
    proof {
        lemma_interior_upto_len(divisions as int, divisions as int - 1);
    }
    vertices
}

/// A wireframe buffer pairs off into line segments, and it always carries the
/// full cube outline: the vertex count is `24 * divisions` (always even), the
/// last 24 vertices are exactly the 12 cube edges, and with one division the
/// buffer is nothing but that outline.
pub proof fn lemma_wireframe_outline(divisions: u32)
    requires
        divisions >= 1,
    ensures
        wireframe_seq(divisions as int).len() == 24 * divisions,
        wireframe_seq(divisions as int).len() % 2 == 0,
        wireframe_seq(divisions as int).subrange(
            24 * divisions as int - 24,
            24 * divisions as int,
        ) == edges_seq(divisions as int),
        wireframe_seq(1) == edges_seq(1),
{
    lemma_interior_upto_len(divisions as int, divisions as int - 1);
    assert(wireframe_seq(divisions as int).subrange(
        24 * divisions as int - 24,
        24 * divisions as int,
    ) =~= edges_seq(divisions as int));
    assert(wireframe_seq(1) =~= edges_seq(1));
}

/// The cube outline is independent of the division count: edge endpoint `j`
/// for any `divisions` has the same rational coordinates as edge endpoint `j`
/// for one division (every endpoint coordinate is 1/2 or -1/2).
pub proof fn lemma_edges_same_for_all_divisions(divisions: u32)
    requires
        divisions >= 1,
    ensures
        edges_seq(divisions as int).len() == 24,
        forall|j: int|
            0 <= j < 24 ==> {
                let a = (#[trigger] edges_seq(divisions as int)[j]).pos;
                let b = edges_seq(1)[j].pos;
                coord_eq_value(a.x, b.x) && coord_eq_value(a.y, b.y) && coord_eq_value(a.z, b.z)
            },
{
    let d = divisions as int;
    lemma_edges_wf(divisions);
    lemma_edges_wf(1);
    assert forall|j: int| 0 <= j < 24 implies {
        let a = (#[trigger] edges_seq(d)[j]).pos;
        let b = edges_seq(1)[j].pos;
        coord_eq_value(a.x, b.x) && coord_eq_value(a.y, b.y) && coord_eq_value(a.z, b.z)
    } by {
        let a = edges_seq(d)[j].pos;
        let b = edges_seq(1)[j].pos;
        assert((a.x.num == d && b.x.num == 1) || (a.x.num == -d && b.x.num == -1));
        assert((a.y.num == d && b.y.num == 1) || (a.y.num == -d && b.y.num == -1));
        assert((a.z.num == d && b.z.num == 1) || (a.z.num == -d && b.z.num == -1));
        assert(a.x.num * b.x.den == b.x.num * a.x.den) by (nonlinear_arith)
            requires
                (a.x.num == d && b.x.num == 1) || (a.x.num == -d && b.x.num == -1),
                b.x.den == 2,
                a.x.den == 2 * d,
        ;
        assert(a.y.num * b.y.den == b.y.num * a.y.den) by (nonlinear_arith)
            requires
                (a.y.num == d && b.y.num == 1) || (a.y.num == -d && b.y.num == -1),
                b.y.den == 2,
                a.y.den == 2 * d,
        ;
        assert(a.z.num * b.z.den == b.z.num * a.z.den) by (nonlinear_arith)
            requires
                (a.z.num == d && b.z.num == 1) || (a.z.num == -d && b.z.num == -1),
                b.z.den == 2,
                a.z.den == 2 * d,
        ;
    }
}

} // verus!

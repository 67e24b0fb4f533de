use gridmesh::cube::{cube_indices, cube_vertices};
use gridmesh::geometry::{Coord, Vertex};
use gridmesh::wireframe::generate_wireframe_vertices;
use gridmesh::world::generate_flat_world;

/// True when `c` denotes the rational `num / den`.
fn coord_has_value(c: &Coord, num: i64, den: i64) -> bool {
    c.den > 0 && den > 0 && c.num as i128 * den as i128 == num as i128 * c.den as i128
}

fn vertex_pos_is(v: &Vertex, x: (i64, i64), y: (i64, i64), z: (i64, i64)) -> bool {
    coord_has_value(&v.pos.x, x.0, x.1)
        && coord_has_value(&v.pos.y, y.0, y.1)
        && coord_has_value(&v.pos.z, z.0, z.1)
}

#[test]
fn cube_primitive_shape() {
    let verts = cube_vertices();
    let idx = cube_indices();
    assert_eq!(verts.len(), 8);
    assert_eq!(idx.len(), 36);
    let expected: Vec<u16> = vec![
        0, 1, 2, 2, 3, 0, 4, 6, 5, 4, 7, 6, 0, 7, 4, 0, 3, 7, 1, 5, 6, 6, 2, 1, 3, 2, 6, 6, 7, 3,
        0, 5, 1, 5, 0, 4,
    ];
    assert_eq!(idx, expected);
    for i in &idx {
        assert!(*i < 8);
    }
}

#[test]
fn cube_vertices_on_unit_cube_surface() {
    // Every coordinate of every cube vertex is exactly 1/2 or -1/2.
    let verts = cube_vertices();
    for v in &verts {
        for c in [&v.pos.x, &v.pos.y, &v.pos.z] {
            assert!(coord_has_value(c, 1, 2) || coord_has_value(c, -1, 2));
        }
    }
    // The fixed corner order, front face then back face.
    let signs = [
        (-1, -1, 1),
        (1, -1, 1),
        (1, 1, 1),
        (-1, 1, 1),
        (-1, -1, -1),
        (1, -1, -1),
        (1, 1, -1),
        (-1, 1, -1),
    ];
    for (v, (sx, sy, sz)) in verts.iter().zip(signs.iter()) {
        assert!(vertex_pos_is(v, (*sx, 2), (*sy, 2), (*sz, 2)));
    }
}

#[test]
fn cube_vertices_share_one_color() {
    let verts = cube_vertices();
    for v in &verts {
        assert!(coord_has_value(&v.color.x, 298, 1000));
        assert!(coord_has_value(&v.color.y, 686, 1000));
        assert!(coord_has_value(&v.color.z, 314, 1000));
    }
}

#[test]
fn wireframe_one_division_is_the_outline() {
    let w = generate_wireframe_vertices(1);
    assert_eq!(w.len(), 24);
    // First edge: from (-1/2, -1/2, -1/2) to (1/2, -1/2, -1/2).
    assert!(vertex_pos_is(&w[0], (-1, 2), (-1, 2), (-1, 2)));
    assert!(vertex_pos_is(&w[1], (1, 2), (-1, 2), (-1, 2)));
    // Last edge: from (1/2, 1/2, -1/2) to (1/2, 1/2, 1/2).
    assert!(vertex_pos_is(&w[22], (1, 2), (1, 2), (-1, 2)));
    assert!(vertex_pos_is(&w[23], (1, 2), (1, 2), (1, 2)));
    // Every outline coordinate is a cube corner coordinate, and black.
    for v in &w {
        for c in [&v.pos.x, &v.pos.y, &v.pos.z] {
            assert!(coord_has_value(c, 1, 2) || coord_has_value(c, -1, 2));
        }
        assert!(coord_has_value(&v.color.x, 0, 1));
        assert!(coord_has_value(&v.color.y, 0, 1));
        assert!(coord_has_value(&v.color.z, 0, 1));
    }
}

#[test]
fn wireframe_count_is_even_and_ends_with_outline() {
    let outline = generate_wireframe_vertices(1);
    for divisions in [1u32, 2, 3, 5, 8, 24] {
        let w = generate_wireframe_vertices(divisions);
        assert_eq!(w.len(), 24 * divisions as usize);
        assert_eq!(w.len() % 2, 0);
        // The last 24 vertices are the 12 cube edges, position for position.
        let tail = &w[w.len() - 24..];
        for (a, b) in tail.iter().zip(outline.iter()) {
            assert!(coord_has_value(&a.pos.x, b.pos.x.num, b.pos.x.den));
            assert!(coord_has_value(&a.pos.y, b.pos.y.num, b.pos.y.den));
            assert!(coord_has_value(&a.pos.z, b.pos.z.num, b.pos.z.den));
        }
    }
}

#[test]
fn wireframe_two_divisions_grid_lines() {
    // With two divisions there is one interior line index (i = 1) at
    // coordinate 0, giving 24 interior vertices before the 24 edge vertices.
    let w = generate_wireframe_vertices(2);
    assert_eq!(w.len(), 48);
    // First interior segment: from (-1/2, 0, -1/2) to (1/2, 0, -1/2).
    assert!(vertex_pos_is(&w[0], (-1, 2), (0, 1), (-1, 2)));
    assert!(vertex_pos_is(&w[1], (1, 2), (0, 1), (-1, 2)));
    // Ninth segment starts the XZ-plane family: (-1/2, -1/2, 0)-(1/2, -1/2, 0).
    assert!(vertex_pos_is(&w[8], (-1, 2), (-1, 2), (0, 1)));
    assert!(vertex_pos_is(&w[9], (1, 2), (-1, 2), (0, 1)));
    // All interior vertices for two divisions sit over the denominator 4.
    for v in &w[..24] {
        assert_eq!(v.pos.x.den, 4);
        assert_eq!(v.pos.y.den, 4);
        assert_eq!(v.pos.z.den, 4);
    }
}

#[test]
fn wireframe_interior_positions_divide_the_face() {
    // For 4 divisions the interior lines sit at -1/4, 0, 1/4.
    let w = generate_wireframe_vertices(4);
    assert_eq!(w.len(), 96);
    // Block i holds the line at -1/2 + i/4; its first vertex's y carries it.
    assert!(coord_has_value(&w[0].pos.y, -1, 4));
    assert!(coord_has_value(&w[24].pos.y, 0, 1));
    assert!(coord_has_value(&w[48].pos.y, 1, 4));
}

#[test]
fn flat_world_empty() {
    let (verts, idx, wire) = generate_flat_world(0, 0);
    assert!(verts.is_empty());
    assert!(idx.is_empty());
    assert!(wire.is_empty());
    let (verts, idx, wire) = generate_flat_world(5, 0);
    assert!(verts.is_empty());
    assert!(idx.is_empty());
    assert!(wire.is_empty());
    let (verts, idx, wire) = generate_flat_world(0, 7);
    assert!(verts.is_empty());
    assert!(idx.is_empty());
    assert!(wire.is_empty());
}

#[test]
fn flat_world_single_tile() {
    let (verts, idx, wire) = generate_flat_world(1, 1);
    assert_eq!(verts.len(), 8);
    assert_eq!(idx.len(), 36);
    for i in &idx {
        assert!(*i < 8);
    }
    assert_eq!(wire.len(), generate_wireframe_vertices(24).len());
    // The tile offset is (-1/2, -1/2, 1/2): the first cube corner
    // (-1/2, -1/2, 1/2) lands at (-1, -1, 1).
    assert!(vertex_pos_is(&verts[0], (-1, 1), (-1, 1), (1, 1)));
    // The top face corners sit flush with the z = 1 plane.
    for (j, v) in verts.iter().enumerate() {
        let expected_z = if j < 4 { (1, 1) } else { (0, 1) };
        assert!(coord_has_value(&v.pos.z, expected_z.0, expected_z.1));
        // Colors carry over from the cube primitive untouched.
        assert!(coord_has_value(&v.color.x, 298, 1000));
    }
    // The indices are the cube indices unshifted (base offset 0).
    assert_eq!(idx, cube_indices());
}

#[test]
fn flat_world_index_lengths_and_bounds() {
    for (w, d) in [(1u32, 1u32), (1, 3), (3, 1), (2, 2), (3, 2), (4, 5)] {
        let (verts, idx, wire) = generate_flat_world(w, d);
        let tiles = (w * d) as usize;
        assert_eq!(verts.len(), 8 * tiles);
        assert_eq!(idx.len(), 36 * tiles);
        assert_eq!(wire.len(), 576 * tiles);
        let bound = (8 * tiles) as u16;
        for i in &idx {
            assert!(*i < bound);
        }
    }
}

#[test]
fn flat_world_per_tile_index_offsets() {
    let (_, idx, _) = generate_flat_world(2, 2);
    let base_idx = cube_indices();
    for tile in 0..4usize {
        for t in 0..36usize {
            assert_eq!(idx[36 * tile + t], base_idx[t] + 8 * tile as u16);
        }
    }
}

#[test]
fn flat_world_tile_offsets_center_the_grid() {
    // For a 2 x 2 world the offsets are (x - 1, y - 1, 1/2): the first solid
    // vertex of tile (x, y) is the corner (-1/2, -1/2, 1/2) translated there.
    let (verts, _, _) = generate_flat_world(2, 2);
    // Tiles in row-major order: (0,0), (0,1), (1,0), (1,1).
    let tile_first = [
        ((-3i64, 2i64), (-3i64, 2i64)),
        ((-3, 2), (-1, 2)),
        ((-1, 2), (-3, 2)),
        ((-1, 2), (-1, 2)),
    ];
    for (tile, ((xn, xd), (yn, yd))) in tile_first.iter().enumerate() {
        let v = &verts[8 * tile];
        assert!(coord_has_value(&v.pos.x, *xn, *xd));
        assert!(coord_has_value(&v.pos.y, *yn, *yd));
        assert!(coord_has_value(&v.pos.z, 1, 1));
    }
}

#[test]
fn flat_world_wireframe_is_translated_pattern() {
    let pattern = generate_wireframe_vertices(24);
    let (_, _, wire) = generate_flat_world(1, 1);
    // Offset (-1/2, -1/2, 1/2): each pattern vertex shifts by it, color kept.
    for (w, p) in wire.iter().zip(pattern.iter()) {
        assert!(coord_has_value(&w.pos.x, p.pos.x.num - 24, p.pos.x.den));
        assert!(coord_has_value(&w.pos.y, p.pos.y.num - 24, p.pos.y.den));
        assert!(coord_has_value(&w.pos.z, p.pos.z.num + 24, p.pos.z.den));
        assert_eq!(w.color, p.color);
    }
}

#[test]
fn flat_world_deterministic() {
    for (w, d) in [(0u32, 0u32), (1, 1), (3, 2), (5, 4)] {
        let first = generate_flat_world(w, d);
        let second = generate_flat_world(w, d);
        assert_eq!(first, second);
    }
    let a = generate_wireframe_vertices(7);
    let b = generate_wireframe_vertices(7);
    assert_eq!(a, b);
}

#[test]
fn flat_world_largest_index_is_tight() {
    // 512 tiles: the largest emitted index is exactly the vertex count - 1.
    let (verts, idx, _) = generate_flat_world(32, 16);
    assert_eq!(verts.len(), 8 * 512);
    let max = idx.iter().copied().max().unwrap();
    assert_eq!(max as usize, verts.len() - 1);
}

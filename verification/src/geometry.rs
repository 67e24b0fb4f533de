//! Exact coordinates and vertices.
//!
//! A `Coord` is a rational number `num / den` with a positive denominator.
//! All generators emit coordinates whose denominators are fixed by the
//! generator's inputs, so equal inputs give identical representations.

use vstd::prelude::*;

verus! {

/// One coordinate: the rational number `num / den`.
#[derive(Clone, Copy, Debug, PartialEq, Eq, Structural)]
pub struct Coord {
    pub num: i64,
    pub den: i64,
}

/// Three coordinates: a position or an RGB color.
#[derive(Clone, Copy, Debug, PartialEq, Eq, Structural)]
pub struct Vec3 {
    pub x: Coord,
    pub y: Coord,
    pub z: Coord,
}

/// A mesh vertex: a position and a color.
#[derive(Clone, Copy, Debug, PartialEq, Eq, Structural)]
pub struct Vertex {
    pub pos: Vec3,
    pub color: Vec3,
}

/// The coordinate `num / den`, for in-range arguments.
pub open spec fn spec_coord(num: int, den: int) -> Coord {
    Coord { num: num as i64, den: den as i64 }
}

/// A coordinate is well formed when its denominator is positive.
pub open spec fn coord_wf(c: Coord) -> bool {
    c.den > 0
}

/// The coordinate `c` has the rational value `num / den`.
pub open spec fn coord_is(c: Coord, num: int, den: int) -> bool {
    coord_wf(c) && den > 0 && c.num * den == num * c.den
}

/// Two coordinates denote the same rational number.
pub open spec fn coord_eq_value(a: Coord, b: Coord) -> bool {
    coord_wf(a) && coord_wf(b) && a.num * b.den == b.num * a.den
}

/// `c` shifted by `o`, where both share a denominator.
pub open spec fn coord_shifted(c: Coord, o: Coord) -> Coord {
    Coord { num: (c.num + o.num) as i64, den: c.den }
}

/// `v` translated by the offset `o`: the position shifts, the color stays.
pub open spec fn vertex_translated(v: Vertex, o: Vec3) -> Vertex {
    Vertex {
        pos: Vec3 {
            x: coord_shifted(v.pos.x, o.x),
            y: coord_shifted(v.pos.y, o.y),
            z: coord_shifted(v.pos.z, o.z),
        },
        color: v.color,
    }
}

impl Coord {
    /// Build the coordinate `num / den`.
    pub fn new(num: i64, den: i64) -> (c: Coord)
        ensures
            c == spec_coord(num as int, den as int),
    {
        Coord { num, den }
    }

    /// Shift this coordinate by `o`; both must share a denominator.
    pub fn shifted_by(self, o: Coord) -> (r: Coord)
        requires
            self.den == o.den,
            i64::MIN <= self.num + o.num <= i64::MAX,
        ensures
            r == coord_shifted(self, o),
    {
        Coord { num: self.num + o.num, den: self.den }
    }
}

impl Vertex {
    /// Translate this vertex by the offset `o`: each position coordinate must
    /// share its denominator with the matching offset coordinate.
    pub fn translated(&self, o: &Vec3) -> (r: Vertex)
        requires
            self.pos.x.den == o.x.den,
            self.pos.y.den == o.y.den,
            self.pos.z.den == o.z.den,
            i64::MIN <= self.pos.x.num + o.x.num <= i64::MAX,
            i64::MIN <= self.pos.y.num + o.y.num <= i64::MAX,
            i64::MIN <= self.pos.z.num + o.z.num <= i64::MAX,
        ensures
            r == vertex_translated(*self, *o),
    {
        Vertex {
            pos: Vec3 {
                x: self.pos.x.shifted_by(o.x),
                y: self.pos.y.shifted_by(o.y),
                z: self.pos.z.shifted_by(o.z),
            },
            color: self.color,
        }
    }
}

} // verus!

//! The two triangles that carry the image onto the surface.

use vstd::prelude::*;

verus! {

/// The largest denominator that a quad's fractions may have.
pub const MAX_DEN: u128 = 0x1000_0000_0000_0000_0000_0000;

/// A corner of a quad.
///
/// `x` and `y` are numerators over the quad's denominator and place the
/// corner between -1 and 1 across the surface; `u` and `v` are 0 or 1 and
/// name the image's corner that is drawn there.
#[derive(Clone, Copy, Debug, PartialEq, Eq, Structural)]
pub struct Vertex {
    pub x: i128,
    pub y: i128,
    pub u: u8,
    pub v: u8,
}

/// A rectangle as two triangles of three corners each.
pub struct Quad {
    vertices: [Vertex; 6],
    den: u128,
}

/// The six corners of the rectangle that starts at `(x, y)` and is `w` wide
/// and `h` high, all in fractions over `den` of the surface, where 0 is one
/// edge of the surface and 1 the opposite edge.
pub open spec fn quad_corners(x: u128, y: u128, w: u128, h: u128, den: u128) -> Seq<Vertex> {
    let x1 = (2 * x - den) as i128;
    let y1 = (2 * y - den) as i128;
    let x2 = (2 * (x + w) - den) as i128;
    let y2 = (2 * (y + h) - den) as i128;
    seq![
        Vertex { x: x1, y: y1, u: 0, v: 1 },
        Vertex { x: x2, y: y1, u: 1, v: 1 },
        Vertex { x: x2, y: y2, u: 1, v: 0 },
        Vertex { x: x1, y: y1, u: 0, v: 1 },
        Vertex { x: x2, y: y2, u: 1, v: 0 },
        Vertex { x: x1, y: y2, u: 0, v: 0 },
    ]
}

impl Quad {
    /// The corners of the quad, in drawing order.
    pub closed spec fn corners(&self) -> Seq<Vertex> {
        self.vertices@
    }

    /// The denominator of the corners' positions.
    pub closed spec fn denominator(&self) -> u128 {
        self.den
    }

    /// The quad over the rectangle that starts at `(x, y)` and is `w` wide
    /// and `h` high, in fractions over `den` of the surface.
    pub fn new(x: u128, y: u128, w: u128, h: u128, den: u128) -> (quad: Quad)
        requires
            x + w <= den,
            y + h <= den,
            den <= MAX_DEN,
        ensures
            quad.corners() == quad_corners(x, y, w, h, den),
            quad.denominator() == den,
    {
        let quad = Quad { vertices: Quad::generate_vertices(x, y, w, h, den), den };
        quad
    }

    /// Reads the corners.
    pub fn get_vertices(&self) -> (vertices: &[Vertex; 6])
        ensures
            vertices@ == self.corners(),
    {
        &self.vertices
    }

    /// Reads the denominator of the corners' positions.
    pub fn get_den(&self) -> (den: u128)
        ensures
            den == self.denominator(),
    {
        self.den
    }

    fn generate_vertices(x: u128, y: u128, w: u128, h: u128, den: u128) -> (vertices: [Vertex; 6])
        requires
            x + w <= den,
            y + h <= den,
            den <= MAX_DEN,
        ensures
            vertices@ == quad_corners(x, y, w, h, den),
    {
        let x1: i128 = 2 * (x as i128) - den as i128;
        let y1: i128 = 2 * (y as i128) - den as i128;
        let x2: i128 = 2 * ((x + w) as i128) - den as i128;
        let y2: i128 = 2 * ((y + h) as i128) - den as i128;
        let vertices = [
            Vertex { x: x1, y: y1, u: 0, v: 1 },
            Vertex { x: x2, y: y1, u: 1, v: 1 },
            Vertex { x: x2, y: y2, u: 1, v: 0 },
            Vertex { x: x1, y: y1, u: 0, v: 1 },
            Vertex { x: x2, y: y2, u: 1, v: 0 },
            Vertex { x: x1, y: y2, u: 0, v: 0 },
        ];
        assert(vertices@ =~= quad_corners(x, y, w, h, den));
        vertices
    }
}

} // verus!

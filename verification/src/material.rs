//! Surface materials and their device records.

use vstd::prelude::*;
use crate::array_buffer::{ArrayBuffer, ArrayBufferUniform};

verus! {

/// The most materials that a scene holds.
pub const MAX_MATERIALS: usize = 8;

/// The bit pattern of the single-precision number one.
pub const CHANNEL_ONE: u32 = 0x3F80_0000;

/// A colour of four channels, each kept as the bit pattern of a
/// single-precision number.
#[derive(Clone, Copy, Debug, PartialEq, Eq, Structural)]
pub struct Color {
    pub r: u32,
    pub g: u32,
    pub b: u32,
    pub a: u32,
}

/// A surface material.
#[derive(Clone, Copy, Debug, PartialEq, Eq, Structural)]
pub struct Material {
    pub color: Color,
}

impl Material {
/// A material of the given colour.
    pub fn new(color: Color) -> (m: Material)
        ensures
            m.color == color,
    {
        Material { color }
    }
}

/// The shape in which a material is handed to the device.
#[derive(Clone, Copy, Debug, PartialEq, Eq, Structural)]
pub struct MaterialUniform {
    pub color: Color,
}

impl MaterialUniform {
    /// The record of a free slot: every channel is one.
    pub open spec fn blank() -> MaterialUniform {
        MaterialUniform {
            color: Color { r: CHANNEL_ONE, g: CHANNEL_ONE, b: CHANNEL_ONE, a: CHANNEL_ONE },
        }
    }
}

impl Default for MaterialUniform {
    fn default() -> (u: MaterialUniform)
        ensures
            u == MaterialUniform::blank(),
    {
        MaterialUniform {
            color: Color { r: CHANNEL_ONE, g: CHANNEL_ONE, b: CHANNEL_ONE, a: CHANNEL_ONE },
        }
    }
}

impl ArrayBufferUniform<Material> for MaterialUniform {
    open spec fn refreshes_to(self, entity: &Material, after: MaterialUniform) -> bool {
        after == (MaterialUniform { color: entity.color })
    }

    fn update(&mut self, material: &Material) {
        self.color = material.color;
    }
}

/// The pool of a scene's materials.
pub type MaterialArrayBuffer = ArrayBuffer<MAX_MATERIALS, Material, MaterialUniform>;

} // verus!

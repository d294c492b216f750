//! Choosing the pixel format of the presentation surface.

use vstd::prelude::*;

verus! {

/// `wgpu::TextureFormat`, a pixel format of the device, carried through
/// unread.
#[verifier::external_type_specification]
#[verifier::external_body]
pub struct ExTextureFormat(wgpu::TextureFormat);

/// Asks `wgpu::TextureFormat::is_srgb` whether a format stores colours in
/// the sRGB encoding. Nothing is claimed of the answer.
#[verifier::external_body]
fn format_is_srgb(format: &wgpu::TextureFormat) -> (srgb: bool) {
    format.is_srgb()
}

/// `index` is the position of the first flag that is set, or 0 where none is.
pub open spec fn is_first_set(flags: Seq<bool>, index: int) -> bool {
    if exists|k: int| 0 <= k < flags.len() && flags[k] {
        &&& 0 <= index < flags.len()
        &&& flags[index]
        &&& forall|k: int| 0 <= k < index ==> !flags[k]
    } else {
        index == 0
    }
}

/// Finds the first flag that is set; where none is, the answer is 0.
pub fn first_flagged(flags: &Vec<bool>) -> (index: usize)
    ensures
        is_first_set(flags@, index as int),
{
    let mut i: usize = 0;
    while i < flags.len()
        invariant
            i <= flags.len(),
            forall|k: int| 0 <= k < i ==> !flags@[k],
        decreases flags.len() - i,
    {
        if flags[i] {
            return i;
        }
        i += 1;
    }
    0
}

/// Tells of each format whether it is an sRGB format.
pub fn srgb_flags(formats: &Vec<wgpu::TextureFormat>) -> (flags: Vec<bool>)
    ensures
        flags@.len() == formats@.len(),
{
    let mut flags: Vec<bool> = Vec::new();
    let mut i: usize = 0;
    while i < formats.len()
        invariant
            i <= formats.len(),
            flags@.len() == i,
        decreases formats.len() - i,
    {
        flags.push(format_is_srgb(&formats[i]));
        i += 1;
    }
    flags
}

/// Chooses among the formats that a surface offers: the first sRGB format,
/// or the first format of all where none is sRGB. The answer is a position in
/// `formats`.
pub fn choose_surface_format(formats: &Vec<wgpu::TextureFormat>) -> (index: usize)
    requires
        formats@.len() > 0,
    ensures
        index < formats@.len(),
{
    let flags = srgb_flags(formats);
    first_flagged(&flags)
}

} // verus!

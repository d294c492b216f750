//! Fitting the image of the last stage onto the presentation surface.

use vstd::prelude::*;
use crate::pipelines::Resolution;

verus! {

/// A rectangle on the surface, in fractions of the surface's width and
/// height: each field is a numerator over `den`.
#[derive(Clone, Copy, Debug, PartialEq, Eq, Structural)]
pub struct ScreenFit {
    pub x: u128,
    pub y: u128,
    pub w: u128,
    pub h: u128,
    pub den: u128,
}

/// The product of two sizes.
pub open spec fn area_of(a: u32, b: u32) -> int {
    a * b
}

/// The image is wider in shape than the surface.
pub open spec fn image_is_wider(image: Resolution, surface: Resolution) -> bool {
    area_of(image.width, surface.height) > area_of(surface.width, image.height)
}

/// The largest rectangle of the image's shape that fits the surface, centred
/// on it. An image wider in shape than the surface fills the width; any other
/// fills the height.
pub open spec fn fitted(image: Resolution, surface: Resolution) -> ScreenFit {
    let across = area_of(image.width, surface.height);
    let along = area_of(surface.width, image.height);
    if image_is_wider(image, surface) {
        ScreenFit {
            x: 0,
            y: (across - along) as u128,
            w: (2 * across) as u128,
            h: (2 * along) as u128,
            den: (2 * across) as u128,
        }
    } else {
        ScreenFit {
            x: (along - across) as u128,
            y: 0,
            w: (2 * across) as u128,
            h: (2 * along) as u128,
            den: (2 * along) as u128,
        }
    }
}

/// The product of two 32-bit sizes.
pub fn area(a: u32, b: u32) -> (product: u128)
    ensures
        product == area_of(a, b),
        product <= 0xFFFF_FFFF * 0xFFFF_FFFF,
{
    assert(0 <= (a as int) * (b as int) <= 0xFFFF_FFFF * 0xFFFF_FFFF) by (nonlinear_arith)
        requires
            0 <= a <= 0xFFFF_FFFF,
            0 <= b <= 0xFFFF_FFFF,
    ;
    (a as u128) * (b as u128)
}

/// Fits an image of resolution `image` onto a surface of size `surface`,
/// keeping the image's shape. There is no fit when a width or a height is
/// zero.
pub fn fit_to_surface(image: Resolution, surface: Resolution) -> (fit: Option<ScreenFit>)
    ensures
        image.width == 0 || image.height == 0 || surface.width == 0 || surface.height == 0
            ==> fit.is_none(),
        image.width > 0 && image.height > 0 && surface.width > 0 && surface.height > 0 ==> fit
            == Some(fitted(image, surface)),
{
    if image.width == 0 || image.height == 0 || surface.width == 0 || surface.height == 0 {
        return None;
    }
    let across = area(image.width, surface.height);
    let along = area(surface.width, image.height);
    if across > along {
        Some(ScreenFit { x: 0, y: across - along, w: 2 * across, h: 2 * along, den: 2 * across })
    } else {
        Some(ScreenFit { x: along - across, y: 0, w: 2 * across, h: 2 * along, den: 2 * along })
    }
}

/// A fitted image lies on the surface, is centred on it, touches two
/// opposite edges of it, and has the shape of the image.
pub proof fn lemma_fit_is_letterbox(image: Resolution, surface: Resolution)
    requires
        image.width > 0,
        image.height > 0,
        surface.width > 0,
        surface.height > 0,
    ensures
        fitted(image, surface).den > 0,
        fitted(image, surface).x + fitted(image, surface).w <= fitted(image, surface).den,
        fitted(image, surface).y + fitted(image, surface).h <= fitted(image, surface).den,
        2 * fitted(image, surface).x + fitted(image, surface).w == fitted(image, surface).den,
        2 * fitted(image, surface).y + fitted(image, surface).h == fitted(image, surface).den,
        fitted(image, surface).w == fitted(image, surface).den || fitted(image, surface).h
            == fitted(image, surface).den,
        fitted(image, surface).w * surface.width * image.height == fitted(image, surface).h
            * surface.height * image.width,
{
    let a = area_of(image.width, surface.height);
    let b = area_of(surface.width, image.height);
    assert(0 < a <= 0xFFFF_FFFF * 0xFFFF_FFFF) by (nonlinear_arith)
        requires
            a == image.width * surface.height,
            0 < image.width <= 0xFFFF_FFFF,
            0 < surface.height <= 0xFFFF_FFFF,
    ;
    assert(0 < b <= 0xFFFF_FFFF * 0xFFFF_FFFF) by (nonlinear_arith)
        requires
            b == surface.width * image.height,
            0 < image.height <= 0xFFFF_FFFF,
            0 < surface.width <= 0xFFFF_FFFF,
    ;
    let f = fitted(image, surface);
    assert(f.w == 2 * a);
    assert(f.h == 2 * b);
    assert((2 * a) * surface.width * image.height == (2 * b) * surface.height * image.width)
        by (nonlinear_arith)
        requires
            a == image.width * surface.height,
            b == surface.width * image.height,
    ;
}

} // verus!

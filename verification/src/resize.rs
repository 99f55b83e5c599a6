//! Bounding a raster for detection: the longer edge is scaled to a fixed
//! maximum with the aspect ratio preserved, rounding each edge to the
//! nearest pixel. The scaling arithmetic is verified; decoding and
//! resampling are the image crate's work, reached through trusted
//! wrappers.
use vstd::arithmetic::div_mod::lemma_div_is_ordered;
use vstd::arithmetic::div_mod::lemma_div_pos_is_pos;
use vstd::arithmetic::div_mod::lemma_fundamental_div_mod_converse;
use vstd::prelude::*;

verus! {

#[verifier::external_type_specification]
#[verifier::external_body]
pub struct ExDynamicImage(image::DynamicImage);

/// A raster's pixel width, as image::DynamicImage::width reports it: a
/// function of the raster alone, left uninterpreted.
pub uninterp spec fn width_of(img: image::DynamicImage) -> u32;

/// A raster's pixel height, as image::DynamicImage::height reports it: a
/// function of the raster alone, left uninterpreted.
pub uninterp spec fn height_of(img: image::DynamicImage) -> u32;

/// One edge scaled by `max_size` over `longest`, rounded to the nearest
/// whole pixel (ties rounding up).
pub open spec fn scaled_dim(dim: int, max_size: int, longest: int) -> int {
    (2 * dim * max_size + longest) / (2 * longest)
}

/// The rounded scaling never exceeds the target and maps the longest edge
/// to it exactly.
proof fn lemma_scaled_dim_bounds(dim: int, max_size: int, longest: int)
    requires
        1 <= dim <= longest,
        max_size >= 1,
    ensures
        0 <= scaled_dim(dim, max_size, longest) <= max_size,
        dim == longest ==> scaled_dim(dim, max_size, longest) == max_size,
{
    let d = 2 * longest;
    let x = 2 * dim * max_size + longest;
    assert(x >= 1 && d >= 2 && x <= max_size * d + (d - 1)) by (nonlinear_arith)
        requires
            1 <= dim <= longest,
            max_size >= 1,
            d == 2 * longest,
            x == 2 * dim * max_size + longest,
    ;
    lemma_div_pos_is_pos(x, d);
    lemma_div_is_ordered(x, max_size * d + (d - 1), d);
    lemma_fundamental_div_mod_converse(max_size * d + (d - 1), d, max_size, d - 1);
    if dim == longest {
        assert(x == max_size * d + longest) by (nonlinear_arith)
            requires
                dim == longest,
                d == 2 * longest,
                x == 2 * dim * max_size + longest,
        ;
        lemma_fundamental_div_mod_converse(x, d, max_size, longest);
    }
}

/// Scales a raster's dimensions so that the longer edge becomes exactly
/// `max_size` and the other edge keeps the aspect ratio, rounded to the
/// nearest pixel; neither result exceeds `max_size`.
pub fn scale_dimensions(original_width: u32, original_height: u32, max_size: u32) -> (dims: (
    u32,
    u32,
))
    requires
        original_width >= 1,
        original_height >= 1,
        max_size >= 1,
    ensures
        ({
            let longest = if original_width >= original_height {
                original_width as int
            } else {
                original_height as int
            };
            &&& dims.0 == scaled_dim(original_width as int, max_size as int, longest)
            &&& dims.1 == scaled_dim(original_height as int, max_size as int, longest)
        }),
        original_width >= original_height ==> dims.0 == max_size,
        original_height >= original_width ==> dims.1 == max_size,
        dims.0 <= max_size,
        dims.1 <= max_size,
{
    let w = original_width as u128;
    let h = original_height as u128;
    let m = max_size as u128;
    let longest = if w >= h {
        w
    } else {
        h
    };
    proof {
        assert(2 * (w as int) * (m as int) + (longest as int) < 0x40000000000000000
            && 2 * (h as int) * (m as int) + (longest as int) < 0x40000000000000000)
            by (nonlinear_arith)
            requires
                w < 0x100000000,
                h < 0x100000000,
                m < 0x100000000,
                longest == if w >= h {
                    w
                } else {
                    h
                },
        ;
        lemma_scaled_dim_bounds(w as int, m as int, longest as int);
        lemma_scaled_dim_bounds(h as int, m as int, longest as int);
    }
    let nw = (2 * w * m + longest) / (2 * longest);
    let nh = (2 * h * m + longest) / (2 * longest);
    (nw as u32, nh as u32)
}

/// Relies on image::DynamicImage::width.
#[verifier::external_body]
fn image_width(img: &image::DynamicImage) -> (r: u32)
    ensures
        r == width_of(*img),
{
    img.width()
}

/// Relies on image::DynamicImage::height.
#[verifier::external_body]
fn image_height(img: &image::DynamicImage) -> (r: u32)
    ensures
        r == height_of(*img),
{
    img.height()
}

/// Relies on image::DynamicImage::resize_exact with nearest-neighbour
/// resampling: a raster of exactly the requested dimensions.
#[verifier::external_body]
fn resize_exact_nearest(img: &image::DynamicImage, width: u32, height: u32) -> (r:
    image::DynamicImage)
    ensures
        width_of(r) == width,
        height_of(r) == height,
{
    img.resize_exact(width, height, image::imageops::FilterType::Nearest)
}

/// Bounds a decoded raster for detection: the longer edge is scaled to
/// `max_size`, the aspect ratio preserved, with nearest-neighbour
/// resampling. A degenerate raster with a zero edge cannot be scaled and
/// yields nothing.
pub fn resize_image(img: &image::DynamicImage, max_size: u32) -> (r: Option<image::DynamicImage>)
    requires
        max_size >= 1,
    ensures
        r is Some <==> (width_of(*img) > 0 && height_of(*img) > 0),
        (r matches Some(out) ==> ({
            let w = width_of(*img) as int;
            let h = height_of(*img) as int;
            let longest = if w >= h {
                w
            } else {
                h
            };
            &&& width_of(out) == scaled_dim(w, max_size as int, longest)
            &&& height_of(out) == scaled_dim(h, max_size as int, longest)
        })),
{
    let w = image_width(img);
    let h = image_height(img);
    if w >= 1 && h >= 1 {
        let dims = scale_dimensions(w, h, max_size);
        Some(resize_exact_nearest(img, dims.0, dims.1))
    } else {
        None
    }
}

} // verus!

use vstd::prelude::*;

verus! {

/// Side length, in pixels, of the reference test-pattern texture.
pub const IMAGE_SIZE: usize = 512;

/// Pixel `(x, y)` of a `size`-by-`size` checkerboard is red exactly when
/// `2x < size` and `2y < size` disagree; otherwise it is blue.
pub open spec fn spec_is_red(size: int, x: int, y: int) -> bool {
    (2 * x < size) != (2 * y < size)
}

/// The red channel of pixel `(x, y)`: 255 on a red pixel, 0 on a blue one.
pub open spec fn spec_red_channel(size: int, x: int, y: int) -> u8 {
    if spec_is_red(size, x, y) {
        255
    } else {
        0
    }
}

/// The blue channel of pixel `(x, y)`: 0 on a red pixel, 255 on a blue one.
pub open spec fn spec_blue_channel(size: int, x: int, y: int) -> u8 {
    if spec_is_red(size, x, y) {
        0
    } else {
        255
    }
}

/// Byte offset of pixel `(x, y)` in a row-major RGBA bitmap of width `size`.
pub open spec fn pixel_base(size: int, x: int, y: int) -> int {
    4 * (y * size + x)
}

/// The four bytes of pixel `(x, y)` hold the checkerboard color:
/// `(255, 0, 0, 0)` on a red pixel, `(0, 0, 255, 0)` on a blue one.
pub open spec fn pixel_ok(pixels: Seq<u8>, size: int, x: int, y: int) -> bool {
    let base = pixel_base(size, x, y);
    &&& pixels[base] == spec_red_channel(size, x, y)
    &&& pixels[base + 1] == 0u8
    &&& pixels[base + 2] == spec_blue_channel(size, x, y)
    &&& pixels[base + 3] == 0u8
}

/// Fill a square RGBA bitmap with the red/blue checkerboard test pattern,
/// row by row from `y = 0`: pixel `(x, y)` starts at byte `4 * (y * size + x)`
/// and holds `(255, 0, 0, 0)` when the pixel is red, `(0, 0, 255, 0)` when it
/// is blue; the green and alpha channels are always 0.
pub fn compute_red_blue_checker_texture(size: usize) -> (pixels: Vec<u8>)
    requires
        4 * size * size <= usize::MAX,
    ensures
        pixels@.len() == 4 * size * size,
        forall|x: int, y: int|
            0 <= x < size && 0 <= y < size ==> #[trigger] pixel_ok(pixels@, size as int, x, y),
{
    let mut pixels: Vec<u8> = Vec::new();
    let mut y: usize = 0;
    while y < size
        invariant
            y <= size,
            4 * size * size <= usize::MAX,
            pixels@.len() == pixel_base(size as int, 0, y as int),
            forall|xx: int, yy: int|
                0 <= xx < size && 0 <= yy < y ==> #[trigger] pixel_ok(
                    pixels@,
                    size as int,
                    xx,
                    yy,
                ),
        decreases size - y,
    {
        let mut x: usize = 0;
        while x < size
            invariant
                x <= size,
                y < size,
                4 * size * size <= usize::MAX,
                pixels@.len() == pixel_base(size as int, x as int, y as int),
                forall|xx: int, yy: int|
                    0 <= xx < size && 0 <= yy < y ==> #[trigger] pixel_ok(
                        pixels@,
                        size as int,
                        xx,
                        yy,
                    ),
                forall|xx: int|
                    0 <= xx < x ==> #[trigger] pixel_ok(pixels@, size as int, xx, y as int),
            decreases size - x,
        {
            proof {
                lemma_pixel_base_bounds(size as int, x as int, y as int);
            }
            let ghost prev = pixels@;
            let is_red = (x < size - x) != (y < size - y);
            let (r, b): (u8, u8) = if is_red {
                (255, 0)
            } else {
                (0, 255)
            };
            pixels.push(r);
            pixels.push(0);
            pixels.push(b);
            pixels.push(0);
            proof {
                assert(is_red == spec_is_red(size as int, x as int, y as int));
                assert(pixel_ok(pixels@, size as int, x as int, y as int));
                assert forall|xx: int, yy: int|
                    0 <= xx < size && (0 <= yy < y || (yy == y && xx < x)) implies #[trigger] pixel_ok(
                    pixels@,
                    size as int,
                    xx,
                    yy,
                ) by {
                    assert(pixel_ok(prev, size as int, xx, yy));
                    assert(pixel_base(size as int, xx, yy) + 4 <= prev.len());
                }
            }
            x = x + 1;
        }
        proof {
            assert(4 * ((y as int) * (size as int) + (size as int)) == 4 * (((y as int) + 1) * (
            size as int))) by (nonlinear_arith);
        }
        y = y + 1;
    }
    proof {
        assert(4 * ((size as int) * (size as int)) == 4 * (size as int) * (size as int))
            by (nonlinear_arith);
    }
    pixels
}

/// Read texel `(x, y)` of the texture as the shader samples it. The bitmap
/// is uploaded bottom row first, which reverses the rows, so texel `(x, y)`
/// reads raw pixel `(x, size - 1 - y)` of the generated bitmap.
pub fn sample_uploaded_texel(pixels: &Vec<u8>, size: usize, x: usize, y: usize) -> (rgba: (
    u8,
    u8,
    u8,
    u8,
))
    requires
        pixels@.len() == 4 * size * size,
        forall|xx: int, yy: int|
            0 <= xx < size && 0 <= yy < size ==> #[trigger] pixel_ok(pixels@, size as int, xx, yy),
        x < size,
        y < size,
    ensures
        rgba.0 == spec_red_channel(size as int, x as int, size - 1 - y),
        rgba.1 == 0u8,
        rgba.2 == spec_blue_channel(size as int, x as int, size - 1 - y),
        rgba.3 == 0u8,
{
    let flipped_y = size - 1 - y;
    let n = pixels.len();
    proof {
        lemma_pixel_base_bounds(size as int, x as int, flipped_y as int);
        assert(pixel_ok(pixels@, size as int, x as int, flipped_y as int));
        assert(4 * ((flipped_y as int) * (size as int) + (x as int)) + 4 <= n);
    }
    let base = 4 * (flipped_y * size + x);
    (pixels[base], pixels[base + 1], pixels[base + 2], pixels[base + 3])
}

proof fn lemma_pixel_base_bounds(size: int, x: int, y: int)
    requires
        0 <= x < size,
        0 <= y < size,
    ensures
        pixel_base(size, x, y) + 4 <= 4 * size * size,
        forall|xx: int, yy: int|
            0 <= xx < size && 0 <= yy < size && (yy < y || (yy == y && xx < x)) ==> (
            #[trigger] pixel_base(size, xx, yy)) + 4 <= pixel_base(size, x, y),
{
    assert(4 * (y * size + x) + 4 <= 4 * size * size) by (nonlinear_arith)
        requires
            0 <= x < size,
            0 <= y < size,
    ;
    assert forall|xx: int, yy: int|
        0 <= xx < size && 0 <= yy < size && (yy < y || (yy == y && xx < x)) implies (
    #[trigger] pixel_base(size, xx, yy)) + 4 <= pixel_base(size, x, y) by {
        if yy < y {
            assert(yy * size + xx < y * size + x) by (nonlinear_arith)
                requires
                    0 <= xx < size,
                    0 <= yy,
                    yy < y,
                    0 <= x,
            ;
        }
    }
}

} // verus!

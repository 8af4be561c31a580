//! Compositing transparent pixels onto the opaque JPEG matte.
use crate::color::RgbColor;
use vstd::prelude::*;

verus! {

/// One channel of a pixel with coverage `alpha` laid over `background`, rounded to nearest.
pub open spec fn blend(channel: u8, alpha: u8, background: u8) -> u8 {
    ((channel * alpha + background * (255 - alpha) + 127) / 255) as u8
}

/// The matte channel that goes with RGB channel `k` (0, 1 or 2).
pub open spec fn matte_channel(background: RgbColor, k: int) -> u8 {
    if k == 0 {
        background.red
    } else if k == 1 {
        background.green
    } else {
        background.blue
    }
}

/// The RGB bytes of `pixels` RGBA pixels laid over `background`.
pub open spec fn composite(rgba: Seq<u8>, pixels: nat, background: RgbColor) -> Seq<u8> {
    Seq::new(
        3 * pixels,
        |i: int| blend(rgba[4 * (i / 3) + i % 3], rgba[4 * (i / 3) + 3], matte_channel(background, i % 3)),
    )
}

/// The blend never leaves the byte range, so the cast above is exact.
pub proof fn lemma_blend_in_range(channel: u8, alpha: u8, background: u8)
    ensures
        0 <= channel * alpha + background * (255 - alpha) + 127 < 255 * 256,
        (channel * alpha + background * (255 - alpha) + 127) / 255 <= 255,
{
    assert(0 <= channel * alpha + background * (255 - alpha) <= 255 * 255) by (nonlinear_arith)
        requires
            channel <= 255,
            alpha <= 255,
            background <= 255,
    ;
}

/// A fully opaque pixel keeps its colour and a fully transparent one shows the matte.
pub proof fn lemma_blend_extremes(channel: u8, background: u8)
    ensures
        blend(channel, 255, background) == channel,
        blend(channel, 0, background) == background,
{
    assert(channel * 255 + background * 0 + 127 == channel * 255 + 127) by (nonlinear_arith);
    assert(channel * 0 + background * 255 + 127 == background * 255 + 127) by (nonlinear_arith);
    assert((channel * 255 + 127) / 255 == channel) by (nonlinear_arith)
        requires
            channel <= 255,
    ;
    assert((background * 255 + 127) / 255 == background) by (nonlinear_arith)
        requires
            background <= 255,
    ;
}

/// One blended channel.
pub fn blend_channel(channel: u8, alpha: u8, background: u8) -> (r: u8)
    ensures
        r == blend(channel, alpha, background),
{
    proof {
        lemma_blend_in_range(channel, alpha, background);
    }
    let c: u32 = channel as u32;
    let a: u32 = alpha as u32;
    let b: u32 = background as u32;
    assert(c * a <= 255 * 255 && b * (255 - a) <= 255 * 255) by (nonlinear_arith)
        requires
            c <= 255,
            a <= 255,
            b <= 255,
    ;
    let sum: u32 = c * a + b * (255 - a) + 127;
    (sum / 255) as u8
}

/// Lays the first `pixels` RGBA pixels of `rgba` over `background`, giving RGB bytes.
pub fn composite_pixels(rgba: &[u8], pixels: usize, background: RgbColor) -> (rgb: Vec<u8>)
    requires
        4 * pixels <= rgba.len(),
    ensures
        rgb@ == composite(rgba@, pixels as nat, background),
{
    let mut rgb: Vec<u8> = Vec::new();
    let mut p: usize = 0;
    while p < pixels
        invariant
            4 * pixels <= rgba.len(),
            0 <= p <= pixels,
            rgb@.len() == 3 * p,
            forall|i: int|
                0 <= i < 3 * p ==> #[trigger] rgb@[i] == blend(
                    rgba@[4 * (i / 3) + i % 3],
                    rgba@[4 * (i / 3) + 3],
                    matte_channel(background, i % 3),
                ),
        decreases pixels - p,
    {
        let base: usize = 4 * p;
        let alpha: u8 = rgba[base + 3];
        let ghost before = rgb@;
        rgb.push(blend_channel(rgba[base], alpha, background.red));
        rgb.push(blend_channel(rgba[base + 1], alpha, background.green));
        rgb.push(blend_channel(rgba[base + 2], alpha, background.blue));
        assert forall|i: int| 0 <= i < 3 * (p + 1) implies #[trigger] rgb@[i] == blend(
            rgba@[4 * (i / 3) + i % 3],
            rgba@[4 * (i / 3) + 3],
            matte_channel(background, i % 3),
        ) by {
            if i >= 3 * p {
                assert(i / 3 == p as int);
                assert(i % 3 == i - 3 * p);
            } else {
                assert(rgb@[i] == before[i]);
            }
        }
        p = p + 1;
    }
    assert(rgb@ =~= composite(rgba@, pixels as nat, background));
    rgb
}

}

//! The tray icon: the bundled PNG decoded to RGBA pixels, drawn white on a dark tray.

use vstd::prelude::*;

verus! {

/// RGBA pixels and their width and height.
#[derive(Debug, Clone)]
pub struct IconImage {
    pub rgba: Vec<u8>,
    pub width: u32,
    pub height: u32,
}

/// What `image::load_from_memory(..).into_rgba8()` gives for encoded image bytes: the
/// pixels, width and height (`None`: the bytes do not decode).
pub uninterp spec fn decoded_rgba(bytes: Seq<u8>) -> Option<(Seq<u8>, u32, u32)>;

/// Decodes an image with `image::load_from_memory` and converts it to 8-bit RGBA; the
/// result is named `decoded_rgba`.
#[verifier::external_body]
fn decode_rgba(bytes: &[u8]) -> (r: Option<IconImage>)
    ensures
        match r {
            Some(img) => decoded_rgba(bytes@) == Some((img.rgba@, img.width, img.height)),
            None => decoded_rgba(bytes@) is None,
        },
{
    let img = image::load_from_memory(bytes).ok()?.into_rgba8();
    let (width, height) = img.dimensions();
    Some(IconImage { rgba: img.into_raw(), width, height })
}

/// Byte `i` of RGBA pixels after every visible pixel (alpha not 0) is made white; bytes
/// past the last whole pixel stay.
pub open spec fn whitened_at(px: Seq<u8>, i: int) -> u8 {
    let start = i - i % 4;
    if start + 4 <= px.len() && i % 4 != 3 && px[start + 3] != 0 {
        255u8
    } else {
        px[i]
    }
}

pub open spec fn is_whitened(px: Seq<u8>, out: Seq<u8>) -> bool {
    out.len() == px.len() && forall|i: int| 0 <= i < px.len() ==> out[i] == #[trigger] whitened_at(px, i)
}

/// Makes every visible pixel white, keeping its alpha.
pub fn whiten(px: &mut Vec<u8>)
    ensures
        is_whitened(old(px)@, final(px)@),
{
    let ghost orig = px@;
    let n = px.len();
    let mut p: usize = 0;
    while n - p >= 4
        invariant
            n == orig.len(),
            px@.len() == n,
            p % 4 == 0,
            p <= n,
            forall|i: int| 0 <= i < p ==> px@[i] == #[trigger] whitened_at(orig, i),
            forall|i: int| p <= i < n ==> px@[i] == orig[i],
        decreases n - p,
    {
        if px[p + 3] != 0 {
            px.set(p, 255);
            px.set(p + 1, 255);
            px.set(p + 2, 255);
        }
        assert forall|i: int| p <= i < p + 4 implies px@[i] == #[trigger] whitened_at(orig, i) by {
            assert(i - i % 4 == p) by (nonlinear_arith)
                requires
                    p % 4 == 0,
                    p <= i < p + 4,
            ;
            assert(i % 4 == i - p) by (nonlinear_arith)
                requires
                    p % 4 == 0,
                    p <= i < p + 4,
            ;
        }
        p += 4;
    }
    assert forall|i: int| p <= i < n implies px@[i] == #[trigger] whitened_at(orig, i) by {
        assert(i - i % 4 >= p) by (nonlinear_arith)
            requires
                p % 4 == 0,
                p <= i,
        ;
    }
}

/// Whether the icon is drawn white: on a dark tray, unless the menu bar tints a template
/// icon itself.
pub open spec fn draws_white(template: bool, dark: bool) -> bool {
    !template && dark
}

/// The tray icon from the encoded image: decoded, and made white when the tray background
/// is dark and the icon is no template.
pub fn load_icon(encoded: &[u8], template: bool, dark: bool) -> (r: Option<IconImage>)
    ensures
        match decoded_rgba(encoded@) {
            Some((px, w, h)) => (r matches Some(img) && img.width == w && img.height == h && if draws_white(
                template,
                dark,
            ) {
                is_whitened(px, img.rgba@)
            } else {
                img.rgba@ == px
            }),
            None => r is None,
        },
{
    let mut img = match decode_rgba(encoded) {
        Some(i) => i,
        None => {
            return None;
        },
    };
    if !template && dark {
        whiten(&mut img.rgba);
    }
    Some(img)
}

} // verus!

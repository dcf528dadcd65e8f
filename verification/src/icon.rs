//! The window's icon: a picture turned into the bytes that a window takes.
use crate::effects::{Notice, NoticeKind};
use vstd::prelude::*;

verus! {

/// A picture, row by row from the top, its colours multiplied by their alpha.
pub struct Raster {
    pub width: usize,
    pub height: usize,
    pub pixels: Vec<(u8, u8, u8, u8)>,
}

/// A picture as a window takes it: four bytes to a pixel, the alpha apart.
pub struct IconPixels {
    pub rgba: Vec<u8>,
    pub width: u32,
    pub height: u32,
}

/// What `Color32::to_srgba_unmultiplied` makes of a colour multiplied by its
/// alpha.
pub uninterp spec fn unmultiplied(r: u8, g: u8, b: u8, a: u8) -> Seq<u8>;

/// `egui::Color32::to_srgba_unmultiplied` of a colour given by its bytes, which
/// are multiplied by alpha: the bytes with that undone. Alpha stays as it is,
/// and so do all bytes where it is none or full.
#[verifier::external_body]
fn unmultiply(r: u8, g: u8, b: u8, a: u8) -> (rgba: [u8; 4])
    ensures
        rgba@ == unmultiplied(r, g, b, a),
        rgba@[3] == a,
        a == 0 || a == 255 ==> rgba@ == seq![r, g, b, a],
{
    egui::Color32::from_rgba_premultiplied(r, g, b, a).to_srgba_unmultiplied()
}

/// The bytes of pixels, one after the other.
pub open spec fn rgba_bytes(pixels: Seq<(u8, u8, u8, u8)>) -> Seq<u8>
    decreases pixels.len(),
{
    if pixels.len() == 0 {
        Seq::empty()
    } else {
        let p = pixels.last();
        rgba_bytes(pixels.drop_last()) + unmultiplied(p.0, p.1, p.2, p.3)
    }
}

/// The bytes of pixels, one after the other: four to each, the last of them its
/// alpha, and all as they are where that is none or full.
pub fn flattened(pixels: &Vec<(u8, u8, u8, u8)>) -> (rgba: Vec<u8>)
    ensures
        rgba@ == rgba_bytes(pixels@),
        rgba@.len() == 4 * pixels@.len(),
        forall|i: int|
            #![trigger pixels@[i]]
            0 <= i < pixels@.len() ==> rgba@[4 * i + 3] == pixels@[i].3 && (pixels@[i].3 == 0
                || pixels@[i].3 == 255 ==> rgba@[4 * i] == pixels@[i].0 && rgba@[4 * i + 1]
                == pixels@[i].1 && rgba@[4 * i + 2] == pixels@[i].2),
{
    let mut rgba: Vec<u8> = Vec::new();
    let mut i: usize = 0;
    while i < pixels.len()
        invariant
            i <= pixels@.len(),
            rgba@ == rgba_bytes(pixels@.take(i as int)),
            rgba@.len() == 4 * i,
            forall|k: int|
                #![trigger pixels@[k]]
                0 <= k < i ==> rgba@[4 * k + 3] == pixels@[k].3 && (pixels@[k].3 == 0
                    || pixels@[k].3 == 255 ==> rgba@[4 * k] == pixels@[k].0 && rgba@[4 * k + 1]
                    == pixels@[k].1 && rgba@[4 * k + 2] == pixels@[k].2),
        decreases pixels.len() - i,
    {
        let pixel: (u8, u8, u8, u8) = pixels[i];
        let bytes: [u8; 4] = unmultiply(pixel.0, pixel.1, pixel.2, pixel.3);
        proof {
            assert(pixels@.take(i + 1).drop_last() =~= pixels@.take(i as int));
            assert(pixels@.take(i + 1).last() == pixel);
            assert(bytes@ =~= seq![bytes@[0], bytes@[1], bytes@[2], bytes@[3]]);
        }
        rgba.push(bytes[0]);
        rgba.push(bytes[1]);
        rgba.push(bytes[2]);
        rgba.push(bytes[3]);
        proof {
            assert(rgba@ =~= rgba_bytes(pixels@.take(i as int)) + bytes@);
        }
        i += 1;
    }
    proof {
        assert(pixels@.take(i as int) =~= pixels@);
    }
    rgba
}

/// `icon` is the picture, as a window takes it. Sides are cut to 32 bits.
pub open spec fn shows_picture(icon: IconPixels, picture: Raster) -> bool {
    &&& icon.rgba@ == rgba_bytes(picture.pixels@)
    &&& icon.width == picture.width as u32
    &&& icon.height == picture.height as u32
}

/// The picture, as a window takes it: four bytes for each pixel.
pub fn icon_of(picture: &Raster) -> (icon: IconPixels)
    ensures
        shows_picture(icon, *picture),
        icon.rgba@.len() == 4 * picture.pixels@.len(),
{
    let rgba: Vec<u8> = flattened(&picture.pixels);
    IconPixels {
        rgba,
        width: #[verifier::truncate] (picture.width as u32),
        height: #[verifier::truncate] (picture.height as u32),
    }
}

/// The window's icon: the picture that its drawing came out as, or, where there
/// is none, what to say of the reason.
pub fn window_icon(picture: Result<Raster, String>) -> (icon: Result<IconPixels, Notice>)
    ensures
        match picture {
            Ok(raster) => icon is Ok && shows_picture(icon->Ok_0, raster),
            Err(reason) => icon == Err::<IconPixels, Notice>(
                Notice { kind: NoticeKind::IconDrawingFailed, detail: reason },
            ),
        },
{
    match picture {
        Ok(raster) => Ok(icon_of(&raster)),
        Err(reason) => Err(Notice { kind: NoticeKind::IconDrawingFailed, detail: reason }),
    }
}

} // verus!

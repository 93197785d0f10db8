//! On-disk PNG storage for clipboard images + thumbnails: file naming, and
//! which files garbage collection removes. Files are named by content hash,
//! so identical images share one file (and the table's dedup keeps a single
//! row): full image `<hash>.png`, thumbnail `<hash>.thumb.png`.

use vstd::prelude::*;
use crate::db::GcPaths;

verus! {

/// The bounding box (width, height) thumbnails are scaled into, preserving
/// aspect ratio.
pub const THUMB_WIDTH: u32 = 360;
pub const THUMB_HEIGHT: u32 = 260;

/// Where a saved image and its thumbnail went, and what they hold.
#[derive(Debug)]
pub struct SavedImage {
    pub image_path: String,
    pub thumb_path: String,
    pub width: i64,
    pub height: i64,
    pub byte_size: i64,
}

/// The file names (full, thumb) for an image with content hash `hash`.
pub fn image_file_names(hash: &str) -> (r: (String, String))
    ensures
        r.0@ == hash@ + ".png"@,
        r.1@ == hash@ + ".thumb.png"@,
{
    (hash.to_owned().concat(".png"), hash.to_owned().concat(".thumb.png"))
}

/// Images with a zero dimension are not stored.
pub fn dims_storable(width: usize, height: usize) -> (r: bool)
    ensures
        r == (width != 0 && height != 0),
{
    width != 0 && height != 0
}

/// What the `image` crate's PNG encoder gives for a `width` x `height` RGBA8
/// image with pixels `rgba`: the bytes, or `None` when the encoder reports
/// an error.
pub uninterp spec fn png_encoding(width: u32, height: u32, rgba: Seq<u8>) -> Option<Seq<u8>>;

/// What the `image` crate gives for the PNG of that image's thumbnail,
/// scaled (aspect ratio kept) into a `max_w` x `max_h` box: the bytes, or
/// `None` when it reports an error.
pub uninterp spec fn thumbnail_png_encoding(
    width: u32,
    height: u32,
    rgba: Seq<u8>,
    max_w: u32,
    max_h: u32,
) -> Option<Seq<u8>>;

/// Whether `len` bytes hold a `width` x `height` RGBA8 image.
pub open spec fn rgba_fits(width: u32, height: u32, len: nat) -> bool {
    4 * width * height <= len
}

/// Whether `len` bytes are exactly a `width` x `height` RGBA8 image.
pub open spec fn rgba_exact(width: u32, height: u32, len: nat) -> bool {
    4 * width * height == len
}

/// The bytes an optional buffer holds.
pub open spec fn opt_bytes(o: Option<Vec<u8>>) -> Option<Seq<u8>> {
    match o {
        Some(b) => Some(b@),
        None => None,
    }
}

/// Calls `image::ImageBuffer::from_raw` and `DynamicImage::write_to` with the
/// PNG format into memory: the result is the name `png_encoding` of the
/// arguments. The PNG encoder asserts that the pixel buffer is exactly
/// `4 * width * height` bytes (it would panic otherwise), so other lengths
/// are left out. Not stated: when the encoder reports an error (the name
/// says only that its answer depends on the arguments alone).
#[verifier::external_body]
fn encode_png(width: u32, height: u32, rgba: &[u8]) -> (r: Option<Vec<u8>>)
    requires
        rgba_exact(width, height, rgba@.len()),
    ensures
        opt_bytes(r) == png_encoding(width, height, rgba@),
{
    let buf = image::RgbaImage::from_raw(width, height, rgba.to_vec())?;
    let mut out = std::io::Cursor::new(Vec::new());
    let img = image::DynamicImage::ImageRgba8(buf);
    img.write_to(&mut out, image::ImageFormat::Png).ok()?;
    Some(out.into_inner())
}

/// Calls `image::ImageBuffer::from_raw` (which refuses a buffer shorter than
/// `4 * width * height` bytes), `DynamicImage::thumbnail` (scales into the
/// box, keeping the aspect ratio, into a fresh buffer) and
/// `DynamicImage::write_to` with the PNG format into memory: the result is
/// the name `thumbnail_png_encoding` of the arguments. Not stated: when the
/// encoder reports an error.
#[verifier::external_body]
fn encode_thumbnail_png(width: u32, height: u32, rgba: &[u8], max_w: u32, max_h: u32) -> (r:
    Option<Vec<u8>>)
    ensures
        !rgba_fits(width, height, rgba@.len()) ==> r is None,
        opt_bytes(r) == thumbnail_png_encoding(width, height, rgba@, max_w, max_h),
{
    let buf = image::RgbaImage::from_raw(width, height, rgba.to_vec())?;
    let mut out = std::io::Cursor::new(Vec::new());
    let thumb = image::DynamicImage::ImageRgba8(buf).thumbnail(max_w, max_h);
    thumb.write_to(&mut out, image::ImageFormat::Png).ok()?;
    Some(out.into_inner())
}

/// The encoded files of a copied image, ready to be written: `<hash>.png`
/// holding `png` and `<hash>.thumb.png` holding `thumb_png`.
pub struct RenderedImage {
    pub image_name: String,
    pub thumb_name: String,
    pub png: Vec<u8>,
    pub thumb_png: Vec<u8>,
}

/// Encode RGBA8 pixels (as the clipboard hands them over) to a PNG and a
/// thumbnail PNG within `THUMB_WIDTH` x `THUMB_HEIGHT`. Nothing is made for
/// an image with a zero dimension, or pixels that are not exactly
/// `4 * width * height` bytes (the sizes are taken modulo 2^32, as the
/// encoder takes them); otherwise the files are made exactly when both
/// encodings succeed.
pub fn render_image(hash: &str, width: usize, height: usize, rgba: &[u8]) -> (r: Option<
    RenderedImage,
>)
    ensures
        width == 0 || height == 0 ==> r is None,
        !rgba_exact(width as u32, height as u32, rgba@.len()) ==> r is None,
        width != 0 && height != 0 && rgba_exact(width as u32, height as u32, rgba@.len()) ==> {
            let png = png_encoding(width as u32, height as u32, rgba@);
            let thumb = thumbnail_png_encoding(
                width as u32,
                height as u32,
                rgba@,
                THUMB_WIDTH,
                THUMB_HEIGHT,
            );
            &&& r is Some <==> png is Some && thumb is Some
            &&& r matches Some(img) ==> {
                &&& img.image_name@ == hash@ + ".png"@
                &&& img.thumb_name@ == hash@ + ".thumb.png"@
                &&& img.png@ == png->0
                &&& img.thumb_png@ == thumb->0
            }
        },
{
    if !dims_storable(width, height) {
        return None;
    }
    #[verifier::truncate]
    let w = width as u32;
    #[verifier::truncate]
    let h = height as u32;
    proof {
        assert((w as int) * (h as int) <= 0xffff_ffff * 0xffff_ffff) by (nonlinear_arith)
            requires
                0 <= w <= 0xffff_ffff,
                0 <= h <= 0xffff_ffff,
        ;
        assert(4 * w * h == ((w as int) * (h as int)) * 4) by (nonlinear_arith);
    }
    let wh: u128 = (w as u128) * (h as u128);
    let need: u128 = wh * 4;
    if rgba.len() as u128 != need {
        return None;
    }
    let png = encode_png(w, h, rgba);
    let thumb_png = match png {
        Some(_) => encode_thumbnail_png(w, h, rgba, THUMB_WIDTH, THUMB_HEIGHT),
        None => None,
    };
    rendered_image(hash, png, thumb_png)
}

/// The files of an image from what the encoders returned: made exactly when
/// both the full PNG and the thumbnail were encoded, named by `hash`.
pub fn rendered_image(hash: &str, png: Option<Vec<u8>>, thumb_png: Option<Vec<u8>>) -> (r: Option<
    RenderedImage,
>)
    ensures
        r is Some <==> png is Some && thumb_png is Some,
        r matches Some(img) ==> {
            &&& img.image_name@ == hash@ + ".png"@
            &&& img.thumb_name@ == hash@ + ".thumb.png"@
            &&& img.png@ == png->0@
            &&& img.thumb_png@ == thumb_png->0@
        },
{
    match (png, thumb_png) {
        (Some(png), Some(thumb_png)) => {
            let (image_name, thumb_name) = image_file_names(hash);
            Some(RenderedImage { image_name, thumb_name, png, thumb_png })
        },
        _ => None,
    }
}

/// The paths present in a list of freed (full, thumb) pairs, in order.
pub open spec fn gc_file_list(paths: Seq<GcPaths>) -> Seq<Seq<char>>
    decreases paths.len(),
{
    if paths.len() == 0 {
        Seq::empty()
    } else {
        let prev = gc_file_list(paths.drop_last());
        let (full, thumb) = paths.last();
        let a = match full {
            Some(p) => prev.push(p@),
            None => prev,
        };
        match thumb {
            Some(p) => a.push(p@),
            None => a,
        }
    }
}

/// The files to remove for a set of deleted rows: each row's full image,
/// then its thumbnail, where present.
pub fn files_to_delete(paths: &Vec<GcPaths>) -> (r: Vec<String>)
    ensures
        r@.map_values(|s: String| s@) == gc_file_list(paths@),
{
    let mut r: Vec<String> = Vec::new();
    let mut i: usize = 0;
    while i < paths.len()
        invariant
            i <= paths@.len(),
            r@.map_values(|s: String| s@) == gc_file_list(paths@.take(i as int)),
        decreases paths@.len() - i,
    {
        assert(paths@.take(i + 1).drop_last() =~= paths@.take(i as int));
        let (full, thumb) = &paths[i];
        let ghost before = r@;
        match full {
            Some(p) => {
                r.push(p.clone());
            },
            None => {},
        }
        let ghost mid = r@;
        match thumb {
            Some(p) => {
                r.push(p.clone());
            },
            None => {},
        }
        proof {
            assert(mid.map_values(|s: String| s@) =~= match full {
                Some(p) => before.map_values(|s: String| s@).push(p@),
                None => before.map_values(|s: String| s@),
            });
            assert(r@.map_values(|s: String| s@) =~= match thumb {
                Some(p) => mid.map_values(|s: String| s@).push(p@),
                None => mid.map_values(|s: String| s@),
            });
        }
        i = i + 1;
    }
    assert(paths@.take(paths@.len() as int) =~= paths@);
    r
}

/// Whether a path is among the referenced ones.
pub open spec fn referenced_in(referenced: Seq<String>, p: Seq<char>) -> bool {
    exists|k: int| 0 <= k < referenced.len() && #[trigger] referenced[k]@ == p
}

/// The files of the images directory that no row references, in order.
pub fn orphan_files(files: &Vec<String>, referenced: &Vec<String>) -> (r: Vec<String>)
    ensures
        r@.map_values(|s: String| s@) == files@.map_values(|s: String| s@).filter(
            |p: Seq<char>| !referenced_in(referenced@, p),
        ),
{
    let ghost fv = files@.map_values(|s: String| s@);
    let ghost keep = |p: Seq<char>| !referenced_in(referenced@, p);
    let mut r: Vec<String> = Vec::new();
    let mut i: usize = 0;
    assert(fv.take(0) =~= Seq::<Seq<char>>::empty());
    proof {
        reveal(Seq::filter);
    }
    while i < files.len()
        invariant
            fv == files@.map_values(|s: String| s@),
            keep == (|p: Seq<char>| !referenced_in(referenced@, p)),
            i <= files@.len(),
            r@.map_values(|s: String| s@) == fv.take(i as int).filter(keep),
        decreases files@.len() - i,
    {
        proof {
            reveal(Seq::filter);
            assert(fv.take(i + 1).drop_last() =~= fv.take(i as int));
            assert(fv.take(i + 1).last() == files@[i as int]@);
        }
        let mut found = false;
        let mut k: usize = 0;
        while k < referenced.len()
            invariant
                i < files@.len(),
                k <= referenced@.len(),
                found == exists|m: int| 0 <= m < k && #[trigger] referenced@[m]@ == files@[i as int]@,
            decreases referenced@.len() - k,
        {
            if crate::text::str_eq(referenced[k].as_str(), files[i].as_str()) {
                found = true;
            }
            k = k + 1;
        }
        if !found {
            let ghost before = r@;
            r.push(files[i].clone());
            assert(r@.map_values(|s: String| s@) =~= before.map_values(|s: String| s@).push(
                files@[i as int]@,
            ));
        }
        i = i + 1;
    }
    assert(fv.take(fv.len() as int) =~= fv);
    r
}



/// Files are named by content hash: identical images share one file, and
/// images with different hashes never share one.
pub proof fn law_file_names_by_hash(h1: Seq<char>, h2: Seq<char>)
    ensures
        (h1 + ".png"@ == h2 + ".png"@) <==> h1 == h2,
        (h1 + ".thumb.png"@ == h2 + ".thumb.png"@) <==> h1 == h2,
{
    lemma_suffix_cancel(h1, h2, ".png"@);
    lemma_suffix_cancel(h1, h2, ".thumb.png"@);
}

proof fn lemma_suffix_cancel(a: Seq<char>, b: Seq<char>, s: Seq<char>)
    ensures
        (a + s == b + s) <==> a == b,
{
    if a + s == b + s {
        assert((a + s).len() == a.len() + s.len());
        assert((b + s).len() == b.len() + s.len());
        assert(a.len() == b.len());
        assert(a =~= (a + s).subrange(0, a.len() as int));
        assert(b =~= (b + s).subrange(0, b.len() as int));
    }
}

} // verus!

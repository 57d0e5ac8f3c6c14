//! The artwork pipeline: decode a cover image, center-crop it square,
//! resize it to the two device thumbnail sizes, convert to the device pixel
//! format, and deduplicate by image-content hash against the artwork index.
//! A given image hash is encoded at most once; later covers with the same
//! hash reuse the registered thumbnail filenames.

use crate::text::{hex_seq, hex_string};
use crate::util::{rgb565_of, rgb_to_rgb565, IPodImage};
use vstd::prelude::*;

verus! {

/// The decoded raster image of the outside image library; opaque here.
#[verifier::external_type_specification]
#[verifier::external_body]
pub struct ExDynamicImage(image::DynamicImage);

/// Whether the outside decoder accepts this byte string as an image. The
/// answer depends on the bytes alone.
pub uninterp spec fn decodable(bytes: Seq<u8>) -> bool;

/// The pixel width of a decoded image value.
pub uninterp spec fn width_of(img: image::DynamicImage) -> u32;

/// The pixel height of a decoded image value.
pub uninterp spec fn height_of(img: image::DynamicImage) -> u32;

/// The RGBA bytes of an image value, four per pixel in row-major order; a
/// function of the image value alone.
pub uninterp spec fn rgba_of(img: image::DynamicImage) -> Seq<u8>;

/// Relies on `image::ImageReader`: guess the format from the bytes and
/// decode them. Succeeds exactly when the bytes are a decodable image.
#[verifier::external_body]
fn decode_image(bytes: &Vec<u8>) -> (r: Option<image::DynamicImage>)
    ensures
        r is Some <==> decodable(bytes@),
{
    image::ImageReader::new(std::io::Cursor::new(bytes.as_slice()))
        .with_guessed_format()
        .ok()?
        .decode()
        .ok()
}

/// Relies on `image::DynamicImage::width`.
#[verifier::external_body]
fn img_width(img: &image::DynamicImage) -> (r: u32)
    ensures
        r == width_of(*img),
{
    img.width()
}

/// Relies on `image::DynamicImage::height`.
#[verifier::external_body]
fn img_height(img: &image::DynamicImage) -> (r: u32)
    ensures
        r == height_of(*img),
{
    img.height()
}

/// Relies on `image::DynamicImage::crop_imm`: the cut-out rectangle, which
/// has exactly the asked-for size when it lies within the image.
#[verifier::external_body]
fn crop_img(img: &image::DynamicImage, x: u32, y: u32, w: u32, h: u32) -> (r: image::DynamicImage)
    requires
        x + w <= width_of(*img),
        y + h <= height_of(*img),
    ensures
        width_of(r) == w,
        height_of(r) == h,
{
    img.crop_imm(x, y, w, h)
}

/// Relies on `image::DynamicImage::resize_exact`: the result has exactly the
/// asked-for dimensions.
#[verifier::external_body]
fn resize_img(img: &image::DynamicImage, w: u32, h: u32) -> (r: image::DynamicImage)
    ensures
        width_of(r) == w,
        height_of(r) == h,
{
    img.resize_exact(w, h, image::imageops::FilterType::Lanczos3)
}

/// Relies on `image::DynamicImage::to_rgba8` and `ImageBuffer::into_raw`:
/// the raw buffer holds four bytes (red, green, blue, alpha) per pixel in
/// row-major order, a function of the image value alone.
#[verifier::external_body]
fn rgba_raw(img: &image::DynamicImage) -> (r: Vec<u8>)
    ensures
        r@ == rgba_of(*img),
        r@.len() == 4 * width_of(*img) * height_of(*img),
{
    img.to_rgba8().into_raw()
}

/// The center-crop rectangle that makes a non-square image square: the side
/// is the shorter dimension, and the longer dimension is trimmed evenly
/// (the extra pixel, if any, going to the far edge).
pub open spec fn square_crop(w: u32, h: u32) -> (int, int, int) {
    if h < w {
        (((w - h) as int) / 2, 0, h as int)
    } else {
        (0, ((h - w) as int) / 2, w as int)
    }
}

/// Compute the center-crop rectangle `(x, y, side)` for a `w` by `h` image.
pub fn square_crop_rect(w: u32, h: u32) -> (r: (u32, u32, u32))
    ensures
        r.0 == square_crop(w, h).0,
        r.1 == square_crop(w, h).1,
        r.2 == square_crop(w, h).2,
        r.0 + r.2 <= w,
        r.1 + r.2 <= h,
{
    if h < w {
        ((w - h) / 2, 0, h)
    } else {
        (0, (h - w) / 2, w)
    }
}

/// The device-format pixels of an RGBA buffer: each pixel's red, green and
/// blue bytes packed to one RGB565 word, in buffer order.
pub open spec fn rgb565_pixels(rgba: Seq<u8>, count: int) -> Seq<u16>
    decreases count,
{
    if count <= 0 {
        Seq::empty()
    } else {
        rgb565_pixels(rgba, count - 1).push(
            rgb565_of(rgba[4 * (count - 1)], rgba[4 * (count - 1) + 1], rgba[4 * (count - 1) + 2]),
        )
    }
}

/// Convert an RGBA buffer to the device pixel format.
pub fn rgba_to_device(rgba: &Vec<u8>, count: usize) -> (r: IPodImage)
    requires
        4 * count <= rgba@.len(),
    ensures
        r.pixels@ == rgb565_pixels(rgba@, count as int),
        r.pixels@.len() == count,
{
    let rl = rgba.len();
    let mut pixels: Vec<u16> = Vec::new();
    let mut i: usize = 0;
    while i < count
        invariant
            i <= count,
            rl == rgba@.len(),
            4 * count <= rl,
            pixels@ =~= rgb565_pixels(rgba@, i as int),
            pixels@.len() == i,
        decreases count - i,
    {
        let p = rgb_to_rgb565(rgba[4 * i], rgba[4 * i + 1], rgba[4 * i + 2]);
        pixels.push(p);
        i = i + 1;
    }
    IPodImage { pixels }
}

/// Decode a cover image, center-crop it square, resize it to `dim_w` by
/// `dim_h`, and convert it to the device pixel format. Fails exactly when
/// the bytes are no decodable image; artwork failure is never fatal to the
/// import that asked for it.
pub fn make_cover_image(cover: &Vec<u8>, dim_w: u32, dim_h: u32) -> (r: Option<IPodImage>)
    requires
        dim_w * dim_h <= usize::MAX / 4,
    ensures
        r is Some <==> decodable(cover@),
        r is Some ==> r->0.pixels@.len() == dim_w * dim_h,
        r is Some ==> exists|img: image::DynamicImage|
            width_of(img) == dim_w && height_of(img) == dim_h && r->0.pixels@
                == #[trigger] rgb565_pixels(rgba_of(img), dim_w * dim_h),
{
    let img = match decode_image(cover) {
        Some(img) => img,
        None => {
            return None;
        },
    };
    let w = img_width(&img);
    let h = img_height(&img);
    let img = if h != w {
        let rect = square_crop_rect(w, h);
        crop_img(&img, rect.0, rect.1, rect.2, rect.2)
    } else {
        img
    };
    let img = resize_img(&img, dim_w, dim_h);
    let rgba = rgba_raw(&img);
    let count: usize = (dim_w as usize) * (dim_h as usize);
    proof {
        vstd::arithmetic::mul::lemma_mul_is_associative(4, dim_w as int, dim_h as int);
    }
    Some(rgba_to_device(&rgba, count))
}

/// One registered cover: its content hash and the two thumbnail filenames
/// that were written for it.
pub struct ArtEntry {
    pub hash: u64,
    pub small_name: String,
    pub large_name: String,
}

/// The artwork index: which image hashes have been encoded, and under which
/// thumbnail filenames. A hash is registered at most once.
pub struct ArtworkIndex {
    pub entries: Vec<ArtEntry>,
    pub next_image_id: u32,
}

/// The filename of the small thumbnail for image number `n`.
pub open spec fn small_name_seq(n: u32) -> Seq<char> {
    "S"@ + hex_seq(n) + ".ithmb"@
}

/// The filename of the large thumbnail for image number `n`.
pub open spec fn large_name_seq(n: u32) -> Seq<char> {
    "L"@ + hex_seq(n) + ".ithmb"@
}

impl ArtworkIndex {
    /// Registered hashes are pairwise distinct.
    pub open spec fn wf(self) -> bool {
        forall|i: int, j: int|
            0 <= i < j < self.entries@.len() ==> (#[trigger] self.entries@[i]).hash != (
            #[trigger] self.entries@[j]).hash
    }

    /// Some entry carries this hash.
    pub open spec fn has_hash(self, hash: u64) -> bool {
        exists|i: int| 0 <= i < self.entries@.len() && (#[trigger] self.entries@[i]).hash == hash
    }

    /// The index of the entry carrying this hash.
    pub open spec fn index_of_hash(self, hash: u64) -> int {
        choose|i: int| 0 <= i < self.entries@.len() && (#[trigger] self.entries@[i]).hash == hash
    }

    /// An empty index.
    pub fn new() -> (r: ArtworkIndex)
        ensures
            r.wf(),
            r.entries@ =~= Seq::<ArtEntry>::empty(),
            r.next_image_id == 1,
    {
        ArtworkIndex { entries: Vec::new(), next_image_id: 1 }
    }

    /// Was a cover with this content hash already encoded?
    pub fn if_cover_present(&self, hash: u64) -> (r: bool)
        ensures
            r == self.has_hash(hash),
    {
        let mut i: usize = 0;
        while i < self.entries.len()
            invariant
                i <= self.entries@.len(),
                forall|k: int| 0 <= k < i ==> (#[trigger] self.entries@[k]).hash != hash,
            decreases self.entries@.len() - i,
        {
            if self.entries[i].hash == hash {
                return true;
            }
            i = i + 1;
        }
        false
    }

    /// The thumbnail filenames for this hash: the registered pair when the
    /// hash is present (the index unchanged), a freshly registered pair
    /// otherwise. The caller must encode the image exactly when the hash
    /// was absent.
    pub fn add_images(&mut self, hash: u64) -> (r: (String, String))
        requires
            old(self).wf(),
            old(self).next_image_id < u32::MAX,
        ensures
            final(self).wf(),
            old(self).has_hash(hash) ==> {
                &&& *final(self) == *old(self)
                &&& r.0@ == old(self).entries@[old(self).index_of_hash(hash)].small_name@
                &&& r.1@ == old(self).entries@[old(self).index_of_hash(hash)].large_name@
            },
            !old(self).has_hash(hash) ==> {
                &&& final(self).entries@.len() == old(self).entries@.len() + 1
                &&& forall|k: int|
                    0 <= k < old(self).entries@.len() ==> final(self).entries@[k] == old(
                        self,
                    ).entries@[k]
                &&& final(self).entries@.last().hash == hash
                &&& final(self).entries@.last().small_name@ == small_name_seq(
                    old(self).next_image_id,
                )
                &&& final(self).entries@.last().large_name@ == large_name_seq(
                    old(self).next_image_id,
                )
                &&& final(self).next_image_id == old(self).next_image_id + 1
                &&& r.0@ == small_name_seq(old(self).next_image_id)
                &&& r.1@ == large_name_seq(old(self).next_image_id)
            },
            final(self).has_hash(hash),
    {
        let mut i: usize = 0;
        while i < self.entries.len()
            invariant
                i <= self.entries@.len(),
                forall|k: int| 0 <= k < i ==> (#[trigger] self.entries@[k]).hash != hash,
            decreases self.entries@.len() - i,
        {
            if self.entries[i].hash == hash {
                proof {
                    let c = self.index_of_hash(hash);
                    assert(self.entries@[c].hash == hash);
                    assert(c == i as int) by {
                        if c != i as int {
                            assert(self.wf());
                        }
                    }
                }
                return (self.entries[i].small_name.clone(), self.entries[i].large_name.clone());
            }
            i = i + 1;
        }
        let n = self.next_image_id;
        let mut small = String::from_str("S");
        small.append(hex_string(n).as_str());
        small.append(".ithmb");
        let mut large = String::from_str("L");
        large.append(hex_string(n).as_str());
        large.append(".ithmb");
        let entry = ArtEntry { hash, small_name: small.clone(), large_name: large.clone() };
        self.entries.push(entry);
        self.next_image_id = n + 1;
        (small, large)
    }
}

/// Artwork dedup: once a cover's hash is registered, asking again for the
/// same hash hands back exactly the registered thumbnail filenames and
/// changes nothing — so each thumbnail size is encoded to disk at most once
/// per distinct image, and every track sharing the cover references the
/// same filenames.
pub proof fn lemma_artwork_dedup(adb: ArtworkIndex, hash: u64, i: int, j: int)
    requires
        adb.wf(),
        0 <= i < adb.entries@.len(),
        0 <= j < adb.entries@.len(),
        adb.entries@[i].hash == hash,
        adb.entries@[j].hash == hash,
    ensures
        i == j,
        adb.has_hash(hash),
        adb.entries@[adb.index_of_hash(hash)].small_name@ == adb.entries@[i].small_name@,
        adb.entries@[adb.index_of_hash(hash)].large_name@ == adb.entries@[i].large_name@,
{
    assert(adb.has_hash(hash));
    let c = adb.index_of_hash(hash);
    assert(adb.entries@[c].hash == hash);
    if c != i {
        assert(adb.entries@[c].hash != adb.entries@[i].hash);
    }
}

} // verus!

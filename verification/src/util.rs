//! Content fingerprinting and the device's 16-bit pixel format.

use vstd::prelude::*;

verus! {

/// The 64-bit content fingerprint of a byte string. It is a pure function of
/// the bytes alone (a truncated cryptographic digest), which is what makes it
/// usable as a persistent dedup key across sessions and machines.
pub uninterp spec fn fingerprint_of(bytes: Seq<u8>) -> u64;

/// Relies on the `md-5` crate's `Md5` digest: the digest depends on the input
/// bytes alone, so the first eight digest bytes, read big-endian, name a
/// deterministic 64-bit fingerprint.
#[verifier::external_body]
pub fn fingerprint(buf: &Vec<u8>) -> (r: u64)
    ensures
        r == fingerprint_of(buf@),
{
    let mut hasher = <md5::Md5 as md5::Digest>::new();
    md5::Digest::update(&mut hasher, buf.as_slice());
    let d = md5::Digest::finalize(hasher);
    u64::from_be_bytes([d[0], d[1], d[2], d[3], d[4], d[5], d[6], d[7]])
}

/// What `rgb_to_rgb565` returns: the top 5 bits of red, 6 of green and 5 of
/// blue, packed from high to low.
pub open spec fn rgb565_of(r: u8, g: u8, b: u8) -> u16 {
    (((r >> 3) as u16) << 11) | (((g >> 2) as u16) << 5) | ((b >> 3) as u16)
}

/// Pack one 8-bit-per-channel pixel into the device's 16-bit RGB565 format.
pub fn rgb_to_rgb565(r: u8, g: u8, b: u8) -> (res: u16)
    ensures
        res == rgb565_of(r, g, b),
{
    let r_565: u8 = (r >> 3) & 0x1F;
    let g_565: u8 = (g >> 2) & 0x3F;
    let b_565: u8 = (b >> 3) & 0x1F;
    let res: u16 = ((r_565 as u16) << 11) | ((g_565 as u16) << 5) | (b_565 as u16);
    proof {
        assert(((((r >> 3) & 0x1F) as u16) << 11) | ((((g >> 2) & 0x3F) as u16) << 5) | ((((b
            >> 3) & 0x1F) as u16)) == (((r >> 3) as u16) << 11) | (((g >> 2) as u16) << 5) | ((b
            >> 3) as u16)) by (bit_vector);
    }
    res
}

/// A raster thumbnail already converted to the device's pixel format:
/// one RGB565 word per pixel, in row-major order.
pub struct IPodImage {
    pub pixels: Vec<u16>,
}

/// The little-endian byte string that a pixel row produces: each 16-bit word
/// contributes its low byte, then its high byte.
pub open spec fn le_bytes_of(pixels: Seq<u16>) -> Seq<u8>
    decreases pixels.len(),
{
    if pixels.len() == 0 {
        Seq::empty()
    } else {
        le_bytes_of(pixels.drop_last()) + seq![
            (pixels.last() & 0xFF) as u8,
            (pixels.last() >> 8) as u8,
        ]
    }
}

impl IPodImage {
    /// Serialize the pixel words to the byte order the device expects
    /// (little-endian, two bytes per pixel).
    pub fn convert_to_u8(&self) -> (r: Vec<u8>)
        ensures
            r@ == le_bytes_of(self.pixels@),
            r@.len() == 2 * self.pixels@.len(),
    {
        let mut out: Vec<u8> = Vec::new();
        let mut i: usize = 0;
        while i < self.pixels.len()
            invariant
                i <= self.pixels.len(),
                out@ == le_bytes_of(self.pixels@.subrange(0, i as int)),
                out@.len() == 2 * i,
            decreases self.pixels.len() - i,
        {
            let p = self.pixels[i];
            out.push((p & 0xFF) as u8);
            out.push((p >> 8) as u8);
            proof {
                let sub = self.pixels@.subrange(0, i + 1 as int);
                assert(sub.drop_last() =~= self.pixels@.subrange(0, i as int));
                assert(out@ =~= le_bytes_of(sub));
            }
            i = i + 1;
        }
        proof {
            assert(self.pixels@.subrange(0, self.pixels@.len() as int) =~= self.pixels@);
        }
        out
    }
}

} // verus!

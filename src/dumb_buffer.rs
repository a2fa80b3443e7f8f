//! A CPU-writable scanout buffer, as plain values: the handles the device
//! gave it and its geometry. Drawing writes into the buffer's mapped bytes,
//! which the caller maps.
use crate::wire::u32_le;
use vstd::prelude::*;

verus! {

/// A dumb buffer and the framebuffer made from it.
#[derive(Clone, Copy, Debug, PartialEq, Eq, Structural)]
pub struct DumbBuffer {
    handle: u32,
    fb: u32,
    width: u32,
    height: u32,
    stride: u32,
}

/// The 32-bit XRGB pixel of a colour: blue, green and red bytes, then an
/// opaque padding byte.
pub open spec fn xrgb(r: u8, g: u8, b: u8) -> u32 {
    (b as int + 256 * g as int + 65536 * r as int + 0xFF000000) as u32
}

proof fn lemma_xrgb_bytes(pixel: u32, r: u8, g: u8, b: u8)
    requires
        pixel == b as int + 256 * g as int + 65536 * r as int + 0xFF000000,
    ensures
        u32_le(pixel) == seq![b, g, r, 0xFFu8],
{
    let x = pixel as int;
    let (bi, gi, ri) = (b as int, g as int, r as int);
    assert(x % 256 == bi && (x / 256) % 256 == gi && (x / 65536) % 256 == ri && x / 16777216 == 255)
        by (nonlinear_arith)
        requires
            x == bi + 256 * gi + 65536 * ri + 0xFF000000,
            0 <= bi < 256,
            0 <= gi < 256,
            0 <= ri < 256,
    ;
    assert(u32_le(pixel) =~= seq![b, g, r, 0xFFu8]);
}

impl DumbBuffer {
    pub closed spec fn spec_handle(&self) -> u32 {
        self.handle
    }

    pub closed spec fn spec_framebuffer(&self) -> u32 {
        self.fb
    }

    pub closed spec fn spec_width(&self) -> u32 {
        self.width
    }

    pub closed spec fn spec_height(&self) -> u32 {
        self.height
    }

    pub closed spec fn spec_stride(&self) -> u32 {
        self.stride
    }

    /// The number of 32-bit pixels that the mapping holds.
    pub closed spec fn pixel_count(&self) -> nat {
        (self.stride / 4) as nat * self.height as nat
    }

    /// A buffer from the handles and geometry the device reported.
    pub fn new(handle: u32, fb: u32, width: u32, height: u32, stride: u32) -> (d: DumbBuffer)
        ensures
            d.spec_handle() == handle,
            d.spec_framebuffer() == fb,
            d.spec_width() == width,
            d.spec_height() == height,
            d.spec_stride() == stride,
    {
        DumbBuffer { handle, fb, width, height, stride }
    }

    /// The framebuffer handle for scanout.
    pub fn framebuffer(&self) -> (r: u32)
        ensures
            r == self.spec_framebuffer(),
    {
        self.fb
    }

    /// The buffer's width and height.
    pub fn size(&self) -> (r: (u32, u32))
        ensures
            r == (self.spec_width(), self.spec_height()),
    {
        (self.width, self.height)
    }

    /// Fills every pixel of the mapping with one 32-bit value; `false`, with
    /// nothing written, when the mapping is too short for the buffer.
    pub fn fill_raw(&self, map: &mut Vec<u8>, pixel: u32) -> (ok: bool)
        ensures
            final(map)@.len() == old(map)@.len(),
            ok == (4 * self.pixel_count() <= old(map)@.len()),
            !ok ==> final(map)@ == old(map)@,
            ok ==> forall|k: int, c: int|
                0 <= k < self.pixel_count() && 0 <= c < 4 ==> #[trigger] final(map)@[4 * k + c] == u32_le(pixel)[c],
            ok ==> forall|i: int| 4 * self.pixel_count() <= i < old(map)@.len() ==> #[trigger] final(map)@[i] == old(map)@[i],
    {
        let quarter = (self.stride / 4) as u64;
        let height = self.height as u64;
        assert(quarter * height <= 0xFFFF_FFFF * 0xFFFF_FFFF) by (nonlinear_arith)
            requires quarter <= 0xFFFF_FFFF, height <= 0xFFFF_FFFF;
        let count: u64 = quarter * height;
        if count > map.len() as u64 / 4 {
            return false;
        }
        let bytes = [(pixel % 256) as u8, ((pixel / 256) % 256) as u8, ((pixel / 65536) % 256) as u8, (pixel / 16777216) as u8];
        assert(bytes@ =~= u32_le(pixel));
        let n = count as usize;
        let len = map.len();
        let mut k: usize = 0;
        while k < n
            invariant
                k <= n,
                len == map@.len(),
                4 * n <= map@.len(),
                n == self.pixel_count(),
                map@.len() == old(map)@.len(),
                bytes@ == u32_le(pixel),
                forall|j: int, c: int| 0 <= j < k && 0 <= c < 4 ==> #[trigger] map@[4 * j + c] == bytes@[c],
                forall|i: int| 4 * k <= i < map@.len() ==> #[trigger] map@[i] == old(map)@[i],
            decreases n - k,
        {
            let base = 4 * k;
            map[base] = bytes[0];
            map[base + 1] = bytes[1];
            map[base + 2] = bytes[2];
            map[base + 3] = bytes[3];
            proof {
                assert forall|j: int, c: int| 0 <= j < k + 1 && 0 <= c < 4 implies #[trigger] map@[4 * j + c] == bytes@[c] by {
                    if j == k {
                        assert(c == 0 || c == 1 || c == 2 || c == 3);
                    }
                }
            }
            k = k + 1;
        }
        true
    }

    /// Fills every pixel of the mapping with one colour.
    pub fn fill(&self, map: &mut Vec<u8>, r: u8, g: u8, b: u8) -> (ok: bool)
        ensures
            final(map)@.len() == old(map)@.len(),
            ok == (4 * self.pixel_count() <= old(map)@.len()),
            !ok ==> final(map)@ == old(map)@,
            ok ==> forall|k: int, c: int|
                0 <= k < self.pixel_count() && 0 <= c < 4 ==> #[trigger] final(map)@[4 * k + c] == seq![b, g, r, 0xFFu8][c],
    {
        let pixel: u32 = b as u32 + 256 * g as u32 + 65536 * r as u32 + 0xFF000000;
        let ok = self.fill_raw(map, pixel);
        proof {
            lemma_xrgb_bytes(pixel, r, g, b);
        }
        ok
    }
}

} // verus!

//! Cursor image buffers (ARGB8888, four bytes per pixel, row-major) and the
//! pixel-level operations used to draw a transformed cursor.
use vstd::prelude::*;

verus! {

/// Number of bytes that one pixel occupies in a cursor buffer.
pub const BYTES_PER_PIXEL: u32 = 4;

/// Index of the first byte of pixel `(x, y)` in a buffer `width` pixels wide.
pub open spec fn pixel_offset(width: int, x: int, y: int) -> int {
    4 * (y * width + x)
}

/// Number of bytes of a `width` x `height` image.
pub open spec fn image_bytes(width: int, height: int) -> int {
    width * height * 4
}

/// Distinct pixels of a `width` x `height` image occupy disjoint byte ranges,
/// and every pixel lies inside the image's bytes.
pub proof fn lemma_pixel_offsets(width: int, height: int, x1: int, y1: int, x2: int, y2: int)
    requires
        0 <= x1 < width,
        0 <= y1 < height,
        0 <= x2 < width,
        0 <= y2 < height,
    ensures
        0 <= pixel_offset(width, x1, y1),
        pixel_offset(width, x1, y1) + 4 <= image_bytes(width, height),
        (x1 != x2 || y1 != y2) ==> (pixel_offset(width, x1, y1) + 4 <= pixel_offset(width, x2, y2)
            || pixel_offset(width, x2, y2) + 4 <= pixel_offset(width, x1, y1)),
{
    assert(0 <= y1 * width) by (nonlinear_arith)
        requires
            0 <= y1,
            0 <= width,
    ;
    assert(y1 * width + x1 < height * width) by (nonlinear_arith)
        requires
            0 <= x1 < width,
            0 <= y1 < height,
    ;
    assert(width * height == height * width) by (nonlinear_arith);
    if y1 < y2 {
        assert(y1 * width + x1 < y2 * width + x2) by (nonlinear_arith)
            requires
                0 <= x1 < width,
                0 <= x2,
                y1 < y2,
        ;
    } else if y2 < y1 {
        assert(y2 * width + x2 < y1 * width + x1) by (nonlinear_arith)
            requires
                0 <= x2 < width,
                0 <= x1,
                y2 < y1,
        ;
    }
}

/// The steps of computing a pixel's offset in `u32` (`y * width`, then `+ x`,
/// then `* 4`) stay within `u32` when the final offset does.
pub proof fn lemma_offset_fits(width: int, x: int, y: int)
    requires
        0 <= width,
        0 <= x,
        0 <= y,
        pixel_offset(width, x, y) <= u32::MAX,
    ensures
        0 <= y * width <= y * width + x <= pixel_offset(width, x, y) <= u32::MAX,
{
    assert(0 <= y * width) by (nonlinear_arith)
        requires
            0 <= y,
            0 <= width,
    ;
}

/// `i + 1`, but no further than `len - 1`.
pub open spec fn clamped_successor(i: int, len: int) -> int {
    if i + 1 < len - 1 {
        i + 1
    } else {
        len - 1
    }
}

/// The bytes a drawn pixel receives from a sampler's answer: the sampled
/// pixel, or transparent black where the sampler found no source pixel.
pub open spec fn sampled_bytes(answer: Option<[u8; 4]>) -> Seq<u8> {
    match answer {
        Some(p) => p@,
        None => seq![0u8, 0u8, 0u8, 0u8],
    }
}

/// `bytes` is what pixel `(x, y)` receives from some answer that `sample`
/// may give for that position.
pub open spec fn drawn_from<F: Fn(u32, u32) -> Option<[u8; 4]>>(
    sample: F,
    x: u32,
    y: u32,
    bytes: Seq<u8>,
) -> bool {
    exists|answer: Option<[u8; 4]>|
        #[trigger] sample.ensures((x, y), answer) && bytes == sampled_bytes(answer)
}

/// `after` is `before` with pixel `(x, y)` replaced by `bytes`, when that
/// pixel lies inside the image; every other pixel is left as it was.
pub open spec fn pixel_written(
    before: CursorBuffer,
    after: CursorBuffer,
    x: int,
    y: int,
    bytes: Seq<u8>,
) -> bool {
    &&& after.width == before.width
    &&& after.height == before.height
    &&& after.data@.len() == before.data@.len()
    &&& forall|xx: int, yy: int|
        before.in_bounds(xx, yy) ==> #[trigger] after.pixel(xx, yy) == if xx == x && yy == y {
            bytes
        } else {
            before.pixel(xx, yy)
        }
}

/// A cursor image: `width` x `height` pixels of four bytes each, row by row,
/// and the hotspot that marks the pointer's position inside the image.
#[derive(Debug, Clone)]
pub struct CursorBuffer {
    pub width: u32,
    pub height: u32,
    pub hotspot_x: i32,
    pub hotspot_y: i32,
    pub data: Vec<u8>,
}

impl CursorBuffer {
    /// The buffer holds exactly the bytes of its `width` x `height` pixels,
    /// and that byte count is representable as a `u32`.
    pub open spec fn wf(&self) -> bool {
        &&& image_bytes(self.width as int, self.height as int) <= u32::MAX
        &&& self.data@.len() == image_bytes(self.width as int, self.height as int)
    }

    pub open spec fn in_bounds(&self, x: int, y: int) -> bool {
        0 <= x < self.width && 0 <= y < self.height
    }

    /// Pixel `(x, y)` can be reached: outside the image there is nothing to
    /// reach, inside it its byte offset is a `u32` and its bytes are held.
    pub open spec fn reachable(&self, x: int, y: int) -> bool {
        self.in_bounds(x, y) ==> {
            let o = pixel_offset(self.width as int, x, y);
            &&& o <= u32::MAX
            &&& o + 4 <= self.data@.len()
        }
    }

    /// The four bytes of pixel `(x, y)`.
    pub open spec fn pixel(&self, x: int, y: int) -> Seq<u8> {
        let o = pixel_offset(self.width as int, x, y);
        self.data@.subrange(o, o + 4)
    }

    /// What reading pixel `(x, y)` gives: its bytes inside the image, and a
    /// transparent black pixel outside it.
    pub open spec fn pixel_or_clear(&self, x: int, y: int) -> Seq<u8> {
        if self.in_bounds(x, y) {
            self.pixel(x, y)
        } else {
            seq![0u8, 0u8, 0u8, 0u8]
        }
    }

    /// A `width` x `height` buffer whose pixels are all zero.
    pub fn new(width: u32, height: u32, hotspot_x: i32, hotspot_y: i32) -> (buffer: Self)
        requires
            image_bytes(width as int, height as int) <= u32::MAX,
        ensures
            buffer.width == width,
            buffer.height == height,
            buffer.hotspot_x == hotspot_x,
            buffer.hotspot_y == hotspot_y,
            buffer.wf(),
            forall|i: int| 0 <= i < buffer.data@.len() ==> buffer.data@[i] == 0u8,
    {
        assert(width * height <= width * height * 4) by (nonlinear_arith)
            requires
                0 <= width * height,
        ;
        assert(0 <= width * height) by (nonlinear_arith)
            requires
                0 <= width,
                0 <= height,
        ;
        let area: u32 = width * height;
        let size = (area * BYTES_PER_PIXEL) as usize;
        let mut data: Vec<u8> = Vec::with_capacity(size);
        let mut i: usize = 0;
        while i < size
            invariant
                i <= size,
                data@.len() == i,
                forall|j: int| 0 <= j < i ==> data@[j] == 0u8,
            decreases size - i,
        {
            data.push(0u8);
            i += 1;
        }
        CursorBuffer { width, height, hotspot_x, hotspot_y, data }
    }

    /// Writes `pixel` at `(x, y)`; a position outside the image changes nothing.
    pub fn set_pixel(&mut self, x: u32, y: u32, pixel: [u8; 4])
        requires
            old(self).reachable(x as int, y as int),
        ensures
            final(self).width == old(self).width,
            final(self).height == old(self).height,
            final(self).hotspot_x == old(self).hotspot_x,
            final(self).hotspot_y == old(self).hotspot_y,
            final(self).data@.len() == old(self).data@.len(),
            !old(self).in_bounds(x as int, y as int) ==> final(self).data@ == old(self).data@,
            old(self).in_bounds(x as int, y as int) ==> {
                let o = pixel_offset(old(self).width as int, x as int, y as int);
                forall|i: int|
                    0 <= i < old(self).data@.len() ==> #[trigger] final(self).data@[i] == if o <= i
                        < o + 4 {
                        pixel@[i - o]
                    } else {
                        old(self).data@[i]
                    }
            },
            old(self).wf() ==> pixel_written(*old(self), *final(self), x as int, y as int, pixel@),
    {
        let ghost before = *self;
        if x >= self.width || y >= self.height {
            return;
        }
        proof {
            lemma_offset_fits(self.width as int, x as int, y as int);
        }
        let offset = ((y * self.width + x) * BYTES_PER_PIXEL) as usize;
        self.data.set(offset, pixel[0]);
        self.data.set(offset + 1, pixel[1]);
        self.data.set(offset + 2, pixel[2]);
        self.data.set(offset + 3, pixel[3]);
        proof {
            if before.wf() {
            let w = self.width as int;
            let h = self.height as int;
            let o = pixel_offset(w, x as int, y as int);
            assert forall|xx: int, yy: int| before.in_bounds(xx, yy) implies #[trigger] self.pixel(
                xx,
                yy,
            ) == if xx == x && yy == y {
                pixel@
            } else {
                before.pixel(xx, yy)
            } by {
                lemma_pixel_offsets(w, h, xx, yy, x as int, y as int);
                if xx == x && yy == y {
                    assert(self.pixel(xx, yy) =~= pixel@);
                } else {
                    assert(self.pixel(xx, yy) =~= before.pixel(xx, yy));
                }
            }
            }
        }
    }

    /// Reads pixel `(x, y)`; outside the image the pixel is transparent black.
    pub fn pixel_at(&self, x: u32, y: u32) -> (pixel: [u8; 4])
        requires
            self.reachable(x as int, y as int),
        ensures
            pixel@ == self.pixel_or_clear(x as int, y as int),
    {
        if x >= self.width || y >= self.height {
            return [0u8, 0u8, 0u8, 0u8];
        }
        proof {
            lemma_offset_fits(self.width as int, x as int, y as int);
        }
        let offset = ((y * self.width + x) * BYTES_PER_PIXEL) as usize;
        let pixel = [
            self.data[offset],
            self.data[offset + 1],
            self.data[offset + 2],
            self.data[offset + 3],
        ];
        assert(pixel@ =~= self.pixel(x as int, y as int));
        pixel
    }

    /// The four pixels that bilinear sampling blends for a point whose
    /// integer part is `(x0, y0)`: the neighbour to the right and the one
    /// below are clamped to the last column and the last row.
    /// The result is `(p00, p01, p10, p11)`, where the first digit is the
    /// column (`x0` or its neighbour) and the second the row.
    pub fn bilinear_corners(&self, x0: u32, y0: u32) -> (corners: ([u8; 4], [u8; 4], [u8; 4], [u8; 4]))
        requires
            self.width >= 1,
            self.height >= 1,
            x0 < u32::MAX,
            y0 < u32::MAX,
            ({
                let x1 = clamped_successor(x0 as int, self.width as int);
                let y1 = clamped_successor(y0 as int, self.height as int);
                &&& self.reachable(x0 as int, y0 as int)
                &&& self.reachable(x0 as int, y1)
                &&& self.reachable(x1, y0 as int)
                &&& self.reachable(x1, y1)
            }),
        ensures
            ({
                let x1 = clamped_successor(x0 as int, self.width as int);
                let y1 = clamped_successor(y0 as int, self.height as int);
                &&& corners.0@ == self.pixel_or_clear(x0 as int, y0 as int)
                &&& corners.1@ == self.pixel_or_clear(x0 as int, y1)
                &&& corners.2@ == self.pixel_or_clear(x1, y0 as int)
                &&& corners.3@ == self.pixel_or_clear(x1, y1)
            }),
    {
        let x1 = if x0 + 1 < self.width - 1 {
            x0 + 1
        } else {
            self.width - 1
        };
        let y1 = if y0 + 1 < self.height - 1 {
            y0 + 1
        } else {
            self.height - 1
        };
        let p00 = self.pixel_at(x0, y0);
        let p01 = self.pixel_at(x0, y1);
        let p10 = self.pixel_at(x1, y0);
        let p11 = self.pixel_at(x1, y1);
        (p00, p01, p10, p11)
    }

    /// Draws a `new_width` x `new_height` image pixel by pixel, row by row:
    /// each pixel is what `sample` answers for its position, or stays
    /// transparent black where `sample` answers `None`. The hotspot is kept.
    pub fn resample<F: Fn(u32, u32) -> Option<[u8; 4]>>(
        &self,
        new_width: u32,
        new_height: u32,
        sample: F,
    ) -> (result: CursorBuffer)
        requires
            image_bytes(new_width as int, new_height as int) <= u32::MAX,
            forall|x: u32, y: u32| sample.requires((x, y)),
        ensures
            result.width == new_width,
            result.height == new_height,
            result.hotspot_x == self.hotspot_x,
            result.hotspot_y == self.hotspot_y,
            result.wf(),
            forall|x: u32, y: u32|
                result.in_bounds(x as int, y as int) ==> drawn_from(
                    sample,
                    x,
                    y,
                    #[trigger] result.pixel(x as int, y as int),
                ),
    {
        let mut result = CursorBuffer::new(new_width, new_height, self.hotspot_x, self.hotspot_y);
        let ghost zero = seq![0u8, 0u8, 0u8, 0u8];
        proof {
            assert forall|xx: int, yy: int| result.in_bounds(xx, yy) implies #[trigger] result.pixel(
                xx,
                yy,
            ) == zero by {
                lemma_pixel_offsets(new_width as int, new_height as int, xx, yy, 0, 0);
                assert(result.pixel(xx, yy) =~= zero);
            }
        }
        let mut y: u32 = 0;
        while y < new_height
            invariant
                y <= new_height,
                zero == seq![0u8, 0u8, 0u8, 0u8],
                result.width == new_width,
                result.height == new_height,
                result.hotspot_x == self.hotspot_x,
                result.hotspot_y == self.hotspot_y,
                result.wf(),
                forall|x: u32, y: u32| sample.requires((x, y)),
                forall|xx: u32, yy: u32|
                    result.in_bounds(xx as int, yy as int) && yy < y ==> drawn_from(
                        sample,
                        xx,
                        yy,
                        #[trigger] result.pixel(xx as int, yy as int),
                    ),
                forall|xx: int, yy: int|
                    result.in_bounds(xx, yy) && yy >= y ==> #[trigger] result.pixel(xx, yy) == zero,
            decreases new_height - y,
        {
            let mut x: u32 = 0;
            while x < new_width
                invariant
                    x <= new_width,
                    zero == seq![0u8, 0u8, 0u8, 0u8],
                    y < new_height,
                    result.width == new_width,
                    result.height == new_height,
                    result.hotspot_x == self.hotspot_x,
                    result.hotspot_y == self.hotspot_y,
                    result.wf(),
                    forall|x: u32, y: u32| sample.requires((x, y)),
                    forall|xx: u32, yy: u32|
                        result.in_bounds(xx as int, yy as int) && (yy < y || (yy == y && xx < x))
                            ==> drawn_from(
                            sample,
                            xx,
                            yy,
                            #[trigger] result.pixel(xx as int, yy as int),
                        ),
                    forall|xx: int, yy: int|
                        result.in_bounds(xx, yy) && (yy > y || (yy == y && xx >= x))
                            ==> #[trigger] result.pixel(xx, yy) == zero,
                decreases new_width - x,
            {
                let answer = sample(x, y);
                let ghost prev = result;
                match answer {
                    Some(pixel) => {
                        proof {
                            lemma_pixel_offsets(
                                new_width as int,
                                new_height as int,
                                x as int,
                                y as int,
                                0,
                                0,
                            );
                        }
                        result.set_pixel(x, y, pixel);
                    },
                    None => {
                        assert(result.pixel(x as int, y as int) == zero);
                        assert(sampled_bytes(answer) =~= zero);
                    },
                }
                proof {
                    assert(result.pixel(x as int, y as int) == sampled_bytes(answer));
                    assert(drawn_from(sample, x, y, result.pixel(x as int, y as int)));
                    assert forall|xx: u32, yy: u32|
                        result.in_bounds(xx as int, yy as int) && (yy < y || (yy == y && xx < x
                            + 1)) implies drawn_from(
                        sample,
                        xx,
                        yy,
                        #[trigger] result.pixel(xx as int, yy as int),
                    ) by {
                        if xx != x || yy != y {
                            assert(result.pixel(xx as int, yy as int) == prev.pixel(
                                xx as int,
                                yy as int,
                            ));
                        }
                    }
                }
                x += 1;
            }
            y += 1;
        }
        result
    }
}

/// Reading a pixel gives back what was last written there; writing a pixel
/// changes what no other position reads; writing outside the image changes
/// nothing that can be read.
pub proof fn law_read_after_write(
    before: CursorBuffer,
    after: CursorBuffer,
    x: int,
    y: int,
    bytes: Seq<u8>,
)
    requires
        before.wf(),
        pixel_written(before, after, x, y, bytes),
    ensures
        after.wf(),
        after.pixel_or_clear(x, y) == if before.in_bounds(x, y) {
            bytes
        } else {
            before.pixel_or_clear(x, y)
        },
        forall|xx: int, yy: int|
            (xx != x || yy != y) ==> #[trigger] after.pixel_or_clear(xx, yy)
                == before.pixel_or_clear(xx, yy),
{
    assert forall|xx: int, yy: int|
        (xx != x || yy != y) implies #[trigger] after.pixel_or_clear(xx, yy)
            == before.pixel_or_clear(xx, yy) by {
        if before.in_bounds(xx, yy) {
            assert(after.pixel(xx, yy) == before.pixel(xx, yy));
        }
    }
    if before.in_bounds(x, y) {
        assert(after.pixel(x, y) == bytes);
    }
}

/// Every pixel of a buffer whose bytes are all zero reads transparent black,
/// as every pixel of a newly made buffer does.
pub proof fn law_zeroed_buffer_is_clear(buffer: CursorBuffer)
    requires
        buffer.wf(),
        forall|i: int| 0 <= i < buffer.data@.len() ==> buffer.data@[i] == 0u8,
    ensures
        forall|x: int, y: int| #[trigger]
            buffer.pixel_or_clear(x, y) == seq![0u8, 0u8, 0u8, 0u8],
{
    assert forall|x: int, y: int| #[trigger]
        buffer.pixel_or_clear(x, y) == seq![0u8, 0u8, 0u8, 0u8] by {
        if buffer.in_bounds(x, y) {
            lemma_pixel_offsets(buffer.width as int, buffer.height as int, x, y, 0, 0);
            assert(buffer.pixel(x, y) =~= seq![0u8, 0u8, 0u8, 0u8]);
        }
    }
}

/// Every pixel of a well-formed buffer can be read and written.
pub proof fn lemma_well_formed_is_reachable(buffer: CursorBuffer, x: int, y: int)
    requires
        buffer.wf(),
    ensures
        buffer.reachable(x, y),
{
    if buffer.in_bounds(x, y) {
        lemma_pixel_offsets(buffer.width as int, buffer.height as int, x, y, 0, 0);
    }
}

/// The neighbour that bilinear sampling takes in a dimension of `len`
/// pixels is the next index, or the last index where there is no next one:
/// the smaller of `i + 1` and `len - 1`.
pub proof fn law_neighbour_is_next_or_last(i: int, len: int)
    requires
        0 <= i,
        1 <= len,
    ensures
        clamped_successor(i, len) <= i + 1,
        clamped_successor(i, len) <= len - 1,
        clamped_successor(i, len) == i + 1 || clamped_successor(i, len) == len - 1,
        i + 1 < len ==> clamped_successor(i, len) == i + 1,
{
}

/// Pixels are laid out row by row, four bytes each: the first pixel starts
/// at byte 0, the next pixel in a row four bytes later, the pixel below one
/// row of `4 * width` bytes later, and the image ends after `height` rows.
pub proof fn law_row_major_layout(width: int, height: int, x: int, y: int)
    ensures
        pixel_offset(width, 0, 0) == 0,
        pixel_offset(width, x + 1, y) == pixel_offset(width, x, y) + 4,
        pixel_offset(width, x, y + 1) == pixel_offset(width, x, y) + 4 * width,
        image_bytes(width, height) == pixel_offset(width, 0, height),
{
    assert((y + 1) * width == y * width + width) by (nonlinear_arith);
    assert(width * height == height * width) by (nonlinear_arith);
}

/// A drawn pixel is the sampled pixel, or transparent black where the
/// sampler found no source pixel.
pub proof fn law_sampled_bytes(pixel: [u8; 4])
    ensures
        sampled_bytes(Some(pixel)) == pixel@,
        sampled_bytes(None) == seq![0u8, 0u8, 0u8, 0u8],
{
}

} // verus!

//! Packing the composited REX3 framebuffer into a tightly-packed RGBA frame
//! for the GUI to upload as a texture.

use vstd::prelude::*;

verus! {

/// Row stride (in pixels) of the compositor's output buffer.
pub const STRIDE: usize = 2048;

/// One captured frame: tightly-packed RGBA bytes plus pixel dimensions.
#[derive(Clone)]
pub struct Frame {
    pub width: usize,
    pub height: usize,
    /// Length is `width * height * 4`. Pixel order: R, G, B, A.
    pub rgba: Vec<u8>,
    /// Bumped every time a new frame is captured; 0 = no frame produced yet.
    pub seq: u64,
}

impl Default for Frame {
    fn default() -> (f: Self)
        ensures
            f.width == 0,
            f.height == 0,
            f.rgba@ == Seq::<u8>::empty(),
            f.seq == 0,
    {
        Frame { width: 0, height: 0, rgba: Vec::new(), seq: 0 }
    }
}

/// The RGBA bytes of one compositor word (0xFFBBGGRR with the alpha byte
/// forced opaque), in little-endian order: R, G, B, A.
pub open spec fn pixel_bytes(word: u32) -> Seq<u8> {
    let w = word | 0xFF00_0000u32;
    seq![(w & 0xffu32) as u8, ((w >> 8u32) & 0xffu32) as u8, ((w >> 16u32) & 0xffu32) as u8, (w
        >> 24u32) as u8]
}

/// The first `n` pixels of the row starting at `start`, as RGBA bytes.
pub open spec fn row_bytes(pixels: Seq<u32>, start: int, n: nat) -> Seq<u8>
    decreases n,
{
    if n == 0 {
        Seq::empty()
    } else {
        row_bytes(pixels, start, (n - 1) as nat) + pixel_bytes(pixels[start + n - 1])
    }
}

/// The first `rows` rows of `width` pixels of the stride-2048 buffer.
pub open spec fn packed_rows(pixels: Seq<u32>, width: nat, rows: nat) -> Seq<u8>
    decreases rows,
{
    if rows == 0 {
        Seq::empty()
    } else {
        packed_rows(pixels, width, (rows - 1) as nat) + row_bytes(
            pixels,
            (rows - 1) * 2048,
            width,
        )
    }
}

proof fn lemma_row_len(pixels: Seq<u32>, start: int, n: nat)
    ensures
        row_bytes(pixels, start, n).len() == 4 * n,
    decreases n,
{
    if n > 0 {
        lemma_row_len(pixels, start, (n - 1) as nat);
    }
}

proof fn lemma_packed_len(pixels: Seq<u32>, width: nat, rows: nat)
    ensures
        packed_rows(pixels, width, rows).len() == rows * width * 4,
    decreases rows,
{
    if rows > 0 {
        lemma_packed_len(pixels, width, (rows - 1) as nat);
        lemma_row_len(pixels, (rows - 1) * 2048, width);
        assert((rows - 1) * width * 4 + 4 * width == rows * width * 4) by (nonlinear_arith);
    } else {
        assert(rows * width * 4 == 0) by (nonlinear_arith)
            requires
                rows == 0,
        ;
    }
}

proof fn lemma_row_opaque(pixels: Seq<u32>, start: int, n: nat)
    ensures
        forall|j: int|
            0 <= j < 4 * n && j % 4 == 3 ==> #[trigger] row_bytes(pixels, start, n)[j] == 0xFFu8,
    decreases n,
{
    if n > 0 {
        let prev = row_bytes(pixels, start, (n - 1) as nat);
        let w = pixels[start + n - 1];
        lemma_row_opaque(pixels, start, (n - 1) as nat);
        lemma_row_len(pixels, start, (n - 1) as nat);
        assert(((w | 0xFF00_0000u32) >> 24u32) as u8 == 0xFFu8) by (bit_vector);
        assert forall|j: int| 0 <= j < 4 * n && j % 4 == 3 implies #[trigger] row_bytes(
            pixels,
            start,
            n,
        )[j] == 0xFFu8 by {
            if j >= 4 * (n - 1) {
                assert(j == 4 * (n - 1) + 3);
            }
        }
    }
}

/// Every captured pixel is opaque: the alpha byte of each RGBA quadruple of a
/// packed frame is 0xFF.
pub proof fn law_frame_opaque(pixels: Seq<u32>, width: nat, rows: nat)
    ensures
        forall|j: int|
            0 <= j < packed_rows(pixels, width, rows).len() && j % 4 == 3 ==> #[trigger] packed_rows(
                pixels,
                width,
                rows,
            )[j] == 0xFFu8,
    decreases rows,
{
    if rows > 0 {
        let q = (rows - 1) * width;
        let start = (rows - 1) * 2048;
        law_frame_opaque(pixels, width, (rows - 1) as nat);
        lemma_packed_len(pixels, width, (rows - 1) as nat);
        lemma_row_len(pixels, start, width);
        lemma_row_opaque(pixels, start, width);
        assert((rows - 1) * width * 4 == 4 * q) by (nonlinear_arith)
            requires
                q == (rows - 1) * width,
        ;
        let whole = packed_rows(pixels, width, rows);
        assert forall|j: int| 0 <= j < whole.len() && j % 4 == 3 implies #[trigger] whole[j]
            == 0xFFu8 by {
            if j >= 4 * q {
                assert((j - 4 * q) % 4 == 3);
                assert(whole[j] == row_bytes(pixels, start, width)[j - 4 * q]);
            }
        }
    }
}

/// The sequence number stamped on the next captured frame; it wraps past
/// `u64::MAX`.
pub fn next_seq(seq: u64) -> (n: u64)
    ensures
        n == (if seq == u64::MAX {
            0
        } else {
            seq + 1
        }),
{
    if seq == u64::MAX {
        0
    } else {
        seq + 1
    }
}

/// Store a freshly composited picture of `width` x `height` pixels (from the
/// stride-2048 buffer `pixels`) into `frame` as tightly-packed RGBA, stamped
/// with `seq`. An empty picture leaves the frame as it was.
pub fn capture(frame: &mut Frame, pixels: &[u32], width: usize, height: usize, seq: u64)
    requires
        width * height * 4 <= usize::MAX,
        width > 0 && height > 0 ==> (height - 1) * 2048 + width <= pixels@.len(),
    ensures
        if width == 0 || height == 0 {
            *final(frame) == *old(frame)
        } else {
            &&& final(frame).width == width
            &&& final(frame).height == height
            &&& final(frame).rgba@ == packed_rows(pixels@, width as nat, height as nat)
            &&& final(frame).rgba@.len() == width * height * 4
            &&& final(frame).seq == seq
        },
{
    if width == 0 || height == 0 {
        return;
    }
    let plen = pixels.len();
    let mut out: Vec<u8> = Vec::new();
    let mut y: usize = 0;
    while y < height
        invariant
            0 < width,
            0 < height,
            y <= height,
            plen == pixels@.len(),
            (height - 1) * 2048 + width <= pixels@.len(),
            out@ == packed_rows(pixels@, width as nat, y as nat),
        decreases height - y,
    {
        assert(y * 2048 + width <= pixels@.len()) by (nonlinear_arith)
            requires
                y < height,
                (height - 1) * 2048 + width <= pixels@.len(),
        ;
        let start: usize = y * STRIDE;
        let ghost base = out@;
        let mut x: usize = 0;
        while x < width
            invariant
                x <= width,
                start == y * 2048,
                start + width <= pixels@.len(),
                plen == pixels@.len(),
                out@ == base + row_bytes(pixels@, start as int, x as nat),
            decreases width - x,
        {
            let w: u32 = pixels[start + x] | 0xFF00_0000u32;
            out.push((w & 0xffu32) as u8);
            out.push(((w >> 8u32) & 0xffu32) as u8);
            out.push(((w >> 16u32) & 0xffu32) as u8);
            out.push((w >> 24u32) as u8);
            assert(out@ =~= base + row_bytes(pixels@, start as int, (x + 1) as nat));
            x = x + 1;
        }
        y = y + 1;
    }
    proof {
        lemma_packed_len(pixels@, width as nat, height as nat);
        assert(height * width * 4 == width * height * 4) by (nonlinear_arith);
    }
    frame.rgba = out;
    frame.width = width;
    frame.height = height;
    frame.seq = seq;
}

} // verus!

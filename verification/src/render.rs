//! Where a picture of the set is computed.

use vstd::prelude::*;
use crate::text::same_text;

verus! {

/// The engine that computes the points of a picture.
#[derive(Clone, Copy, Debug, PartialEq, Eq, Structural)]
pub enum RenderingEngine {
    /// The points are computed where the picture is shown.
    Local,
    /// The points are asked of the service.
    Remote,
}

impl RenderingEngine {
    /// The engine that a form value selects: `local` or `remote`.
    pub open spec fn spec_from_value(value: Seq<char>) -> Option<RenderingEngine> {
        if value == "local"@ {
            Some(RenderingEngine::Local)
        } else if value == "remote"@ {
            Some(RenderingEngine::Remote)
        } else {
            None
        }
    }

    /// The engine that a form value selects, if it selects one.
    pub fn from_value(value: &str) -> (engine: Option<RenderingEngine>)
        ensures
            engine == RenderingEngine::spec_from_value(value@),
    {
        if same_text(value, "local") {
            Some(RenderingEngine::Local)
        } else if same_text(value, "remote") {
            Some(RenderingEngine::Remote)
        } else {
            None
        }
    }
}

/// How bright a colour is at position `at` along an extent: it grows from 0 at the
/// start towards 255 at the end, which is not reached.
pub open spec fn shade(at: nat, extent: nat) -> u8 {
    (at * 255 / extent) as u8
}

/// The four bytes (red, green, blue, alpha) of the pixel of index `p`, counted row
/// by row, of the test picture of the given size.
pub open spec fn gradient_pixel(p: nat, width: nat, height: nat) -> Seq<u8> {
    seq![shade(p % width, width), 0u8, shade(p / width, height), 255u8]
}

/// The bytes of the test picture of the given size, pixel after pixel.
pub open spec fn gradient(width: nat, height: nat) -> Seq<u8> {
    Seq::new(4 * width * height, |i: int| gradient_pixel((i / 4) as nat, width, height)[i % 4])
}

/// Paints the test picture: opaque pixels whose red grows with the column and whose
/// blue grows with the row. A picture of more bytes than 32 bits can count is refused.
pub fn gradient_pixels(width: u32, height: u32) -> (pixels: Option<Vec<u8>>)
    ensures
        match pixels {
            Some(bytes) => 4 * width * height <= u32::MAX && bytes@ == gradient(
                width as nat,
                height as nat,
            ),
            None => 4 * width * height > u32::MAX,
        },
{
    let w: u64 = width as u64;
    let h: u64 = height as u64;
    assert(w * h <= 0xffff_ffff * 0xffff_ffff) by (nonlinear_arith)
        requires
            w <= 0xffff_ffff,
            h <= 0xffff_ffff,
    ;
    let count: u64 = w * h;
    assert(4 * width * height == 4 * (w * h) && 4 * (width as nat) * (height as nat) == 4 * (w
        * h)) by (nonlinear_arith)
        requires
            w == width,
            h == height,
    ;
    if count > 0x3fff_ffff {
        return None;
    }
    let mut bytes: Vec<u8> = Vec::new();
    let mut p: u64 = 0;
    while p < count
        invariant
            p <= count,
            count == w * h,
            count <= 0x3fff_ffff,
            w == width,
            h == height,
            bytes@.len() == 4 * p,
            forall|i: int|
                0 <= i < 4 * p ==> #[trigger] bytes@[i] == gradient_pixel(
                    (i / 4) as nat,
                    w as nat,
                    h as nat,
                )[i % 4],
        decreases count - p,
    {
        assert(w > 0 && h > 0) by (nonlinear_arith)
            requires
                p < w * h,
        ;
        let x: u64 = p % w;
        let y: u64 = p / w;
        assert(y < h) by (nonlinear_arith)
            requires
                p < w * h,
                w > 0,
                y == p / w,
        ;
        assert(x * 255 / (w as int) < 255 && x * 255 <= 0xffff_ffff * 255) by (nonlinear_arith)
            requires
                x < w,
                w <= 0xffff_ffff,
        ;
        assert(y * 255 / (h as int) < 255 && y * 255 <= 0xffff_ffff * 255) by (nonlinear_arith)
            requires
                y < h,
                h <= 0xffff_ffff,
        ;
        let red: u8 = (x * 255 / w) as u8;
        let blue: u8 = (y * 255 / h) as u8;
        let ghost before = bytes@;
        bytes.push(red);
        bytes.push(0);
        bytes.push(blue);
        bytes.push(255);
        proof {
            let pixel = gradient_pixel(p as nat, w as nat, h as nat);
            assert(pixel[0] == red && pixel[1] == 0 && pixel[2] == blue && pixel[3] == 255);
            assert forall|i: int| 0 <= i < 4 * (p + 1) implies #[trigger] bytes@[i]
                == gradient_pixel((i / 4) as nat, w as nat, h as nat)[i % 4] by {
                if i < 4 * p {
                    assert(bytes@[i] == before[i]);
                } else {
                    assert(i / 4 == p);
                }
            }
        }
        p = p + 1;
    }
    assert(bytes@.len() == gradient(width as nat, height as nat).len());
    assert(bytes@ =~= gradient(width as nat, height as nat));
    Some(bytes)
}

} // verus!

//! Pixel format conversion between the renderer's RGBA output and a BGRA
//! window buffer.

use vstd::prelude::*;

verus! {

/// A pixel with its red and blue channels exchanged.
pub open spec fn swap_red_blue(p: [u8; 4]) -> Seq<u8> {
    seq![p@[2], p@[1], p@[0], p@[3]]
}

/// Writes each pixel of `src` into `dst`, RGBA to BGRA (the same exchange
/// turns BGRA back into RGBA). Pixels are paired by position; where one
/// slice is longer, its extra pixels are left alone.
pub fn transpose(dst: &mut [[u8; 4]], src: &[[u8; 4]])
    ensures
        final(dst)@.len() == old(dst)@.len(),
        forall|i: int|
            0 <= i < old(dst)@.len() && i < src@.len() ==> (#[trigger] final(dst)@[i])@
                == swap_red_blue(src@[i]),
        forall|i: int|
            src@.len() <= i < old(dst)@.len() ==> #[trigger] final(dst)@[i] == old(dst)@[i],
{
    let n: usize = if dst.len() < src.len() { dst.len() } else { src.len() };
    let mut i: usize = 0;
    while i < n
        invariant
            n <= dst@.len(),
            n <= src@.len(),
            n == old(dst)@.len() || n == src@.len(),
            i <= n,
            dst@.len() == old(dst)@.len(),
            forall|k: int| 0 <= k < i ==> (#[trigger] dst@[k])@ == swap_red_blue(src@[k]),
            forall|k: int| i <= k < dst@.len() ==> #[trigger] dst@[k] == old(dst)@[k],
        decreases n - i,
    {
        let p: [u8; 4] = src[i];
        dst[i] = [p[2], p[1], p[0], p[3]];
        i = i + 1;
    }
}

} // verus!

//! One output frame: the background, the tinted history oldest first, then
//! the current frame on top.

use vstd::prelude::*;
use crate::blend::{highlighted, overlay_current, overlay_tinted, tinted};
use crate::cache::{FrameCache, uniform};
use crate::canvas::{Canvas, Pixel, with_alpha};
use crate::color::Color;

verus! {

/// How frames are composited.
#[derive(Clone, Copy, Debug, PartialEq, Eq, Structural)]
pub struct CompositeParams {
    /// The number of preceding frames shown; at least 1.
    pub history_length: usize,
    pub background: Color,
    pub current_color: Color,
    pub history_color: Color,
}

/// The first frame of the history window of frame `index`.
pub open spec fn window_start(index: int, h: int) -> int {
    if index >= h {
        index - h
    } else {
        0
    }
}

/// The number of history frames shown behind frame `index`.
pub open spec fn window_len(index: int, h: int) -> int {
    index - window_start(index, h)
}

/// Pixel `p` once the background and the oldest `k` frames of the window of
/// frame `index` have been painted.
pub open spec fn layered(frames: Seq<Canvas>, index: int, params: CompositeParams, p: int, k: nat) -> Pixel
    decreases k,
{
    if k == 0 {
        with_alpha(params.background, 255)
    } else {
        let h = params.history_length as int;
        let j = window_start(index, h) + k - 1;
        tinted(
            layered(frames, index, params, p, (k - 1) as nat),
            frames[j].pixels@[p],
            params.history_color,
            index - j,
            h,
        )
    }
}

/// Pixel `p` of the output for frame `index`.
pub open spec fn composite_pixel(frames: Seq<Canvas>, index: int, params: CompositeParams, p: int) -> Pixel {
    let h = params.history_length as int;
    highlighted(
        layered(frames, index, params, p, window_len(index, h) as nat),
        frames[index].pixels@[p],
        params.current_color,
    )
}

/// The output canvas for frame `index`.
pub open spec fn is_composite(r: Canvas, frames: Seq<Canvas>, index: int, params: CompositeParams) -> bool {
    &&& r.wf()
    &&& r.same_shape(&frames[index])
    &&& r.pixels@.len() == frames[index].pixels@.len()
    &&& forall|p: int| 0 <= p < r.pixels@.len() ==> #[trigger] r.pixels@[p] == composite_pixel(frames, index, params, p)
}

/// The range of frames shown as history behind frame `index`: the at most
/// `history_length` frames just before it.
pub fn history_window(index: usize, history_length: usize) -> (r: (usize, usize))
    ensures
        r.0 == window_start(index as int, history_length as int),
        r.1 == index,
        r.1 - r.0 == if index < history_length { index as int } else { history_length as int },
{
    if index >= history_length {
        (index - history_length, index)
    } else {
        (0, index)
    }
}

/// Composites frame `index` of `cache`: a canvas of the frames' size filled
/// with the background, the history window painted in the history color,
/// oldest first and faded by age, and the current frame painted on top in the
/// current color.
pub fn composite(index: usize, cache: &FrameCache, params: &CompositeParams) -> (r: Canvas)
    requires
        cache.wf(),
        index < cache.view_frames().len(),
        params.history_length >= 1,
    ensures
        is_composite(r, cache.view_frames(), index as int, *params),
{
    let ghost frames = cache.view_frames();
    let h = params.history_length;
    let current = cache.frame(index);
    let mut out = Canvas::filled_like(current, Pixel::from_color(params.background, 255));
    let (start, end) = history_window(index, h);
    let n = current.pixels.len();
    let mut j = start;
    while j < end
        invariant
            uniform(frames),
            frames == cache.view_frames(),
            cache.wf(),
            index < frames.len(),
            end == index,
            window_start(index as int, h as int) <= j <= end,
            start == window_start(index as int, h as int),
            h == params.history_length,
            h >= 1,
            n == frames[index as int].pixels@.len(),
            out.wf(),
            out.same_shape(&frames[index as int]),
            out.pixels@.len() == n,
            forall|p: int| 0 <= p < n ==> #[trigger] out.pixels@[p] == layered(
                frames, index as int, *params, p, (j - start) as nat),
        decreases end - j,
    {
        let src = cache.frame(j);
        proof {
            assert(frames[j as int].same_shape(&frames[0]));
            assert(frames[index as int].same_shape(&frames[0]));
        }
        let ghost before = out;
        overlay_tinted(&mut out, src, params.history_color, index - j, h);
        proof {
            assert forall|p: int| 0 <= p < n implies #[trigger] out.pixels@[p] == layered(
                frames, index as int, *params, p, (j + 1 - start) as nat) by {
                assert(out.pixels@[p] == tinted(before.pixels@[p], src.pixels@[p], params.history_color,
                    (index - j) as int, h as int));
            }
        }
        j = j + 1;
    }
    overlay_current(&mut out, current, params.current_color);
    out
}

} // verus!

verus! {

/// The first frame has no history: its output is the background with only
/// the current frame painted over it, whatever the history length.
pub proof fn lemma_first_frame_has_no_history(frames: Seq<Canvas>, params: CompositeParams, p: int)
    requires
        frames.len() > 0,
        params.history_length >= 1,
    ensures
        window_len(0, params.history_length as int) == 0,
        composite_pixel(frames, 0, params, p) == highlighted(
            with_alpha(params.background, 255), frames[0].pixels@[p], params.current_color),
{
}

/// Painting a fully opaque current-frame pixel leaves exactly the current
/// color, whatever lies below.
pub proof fn lemma_current_pixel_is_opaque(d: Pixel, s: Pixel, c: Color)
    requires
        s.a != 0,
    ensures
        highlighted(d, s, c) == with_alpha(c, 255),
{
    crate::blend::lemma_over_opaque(d, c);
}

} // verus!

//! The decisions of the per-folder frame scheduler: how many workers, when
//! to report progress, how task outcomes add up, where the output goes, and
//! which worker composites which frame.

use vstd::prelude::*;
use vstd::arithmetic::div_mod::lemma_fundamental_div_mod;
use crate::cache::FrameCache;
use crate::canvas::Canvas;
use crate::color::hex_digit_text;
use crate::engine::{CompositeParams, composite, is_composite};

verus! {

/// The least time between two progress reports, in milliseconds.
pub const PROGRESS_INTERVAL_MS: u64 = 100;

/// The number of workers: the one asked for, or, where that is 0, the
/// number of execution units available.
pub fn worker_count(requested: usize, available: usize) -> (r: usize)
    ensures
        r == if requested == 0 { available } else { requested },
{
    if requested == 0 {
        available
    } else {
        requested
    }
}

/// When the last progress report was made, shared by the workers of a folder.
pub struct ProgressThrottle {
    pub last_ms: u64,
}

/// The milliseconds from `last` to `now`, 0 where the clock went back.
pub open spec fn elapsed(last: u64, now: u64) -> int {
    if now >= last {
        now - last
    } else {
        0
    }
}

impl ProgressThrottle {
    /// A throttle whose last report is at `now_ms`.
    pub fn new(now_ms: u64) -> (r: ProgressThrottle)
        ensures
            r.last_ms == now_ms,
    {
        ProgressThrottle { last_ms: now_ms }
    }

    /// A task has just made `done` of `total` frames. A report is due where
    /// at least `PROGRESS_INTERVAL_MS` passed since the last one, or where
    /// this is the last frame; the time of a due report is kept.
    pub fn observe(&mut self, now_ms: u64, done: usize, total: usize) -> (r: bool)
        ensures
            r == (elapsed(old(self).last_ms, now_ms) >= PROGRESS_INTERVAL_MS || done == total),
            r ==> final(self).last_ms == now_ms,
            !r ==> final(self).last_ms == old(self).last_ms,
    {
        let since = if now_ms >= self.last_ms { now_ms - self.last_ms } else { 0 };
        if since >= PROGRESS_INTERVAL_MS || done == total {
            self.last_ms = now_ms;
            true
        } else {
            false
        }
    }
}

/// The number of `false` entries.
pub open spec fn count_failed(s: Seq<bool>) -> nat
    decreases s.len(),
{
    if s.len() == 0 {
        0
    } else {
        count_failed(s.drop_last()) + if s.last() { 0nat } else { 1nat }
    }
}

/// The number of frame tasks that failed, each task given as `true` where it
/// succeeded.
pub fn count_failures(results: &Vec<bool>) -> (r: usize)
    ensures
        r == count_failed(results@),
{
    let mut c: usize = 0;
    let mut i: usize = 0;
    while i < results.len()
        invariant
            i <= results@.len(),
            c == count_failed(results@.subrange(0, i as int)),
            c <= i,
        decreases results@.len() - i,
    {
        assert(results@.subrange(0, i as int + 1).drop_last() =~= results@.subrange(0, i as int));
        if !results[i] {
            c = c + 1;
        }
        i = i + 1;
    }
    assert(results@.subrange(0, i as int) =~= results@);
    c
}

/// The decimal digits of `n`.
pub open spec fn decimal(n: nat) -> Seq<char>
    decreases n,
{
    if n < 10 {
        seq![(n + '0' as int) as char]
    } else {
        decimal(n / 10) + seq![((n % 10) + '0' as int) as char]
    }
}

fn push_decimal(s: &mut String, n: usize)
    ensures
        final(s)@ == old(s)@ + decimal(n as nat),
    decreases n,
{
    if n >= 10 {
        push_decimal(s, n / 10);
    }
    s.append(hex_digit_text((n % 10) as u8));
    assert(final(s)@ =~= old(s)@ + decimal(n as nat));
}

/// The name of the output directory of a folder: `<name>_trail_<history_length>`.
pub fn output_folder_name(folder_name: &str, history_length: usize) -> (r: String)
    ensures
        r@ == folder_name@ + "_trail_"@ + decimal(history_length as nat),
{
    let mut s = String::from_str(folder_name);
    s.append("_trail_");
    push_decimal(&mut s, history_length);
    assert(s@ =~= folder_name@ + "_trail_"@ + decimal(history_length as nat));
    s
}

proof fn lemma_same_residue_gap(t: int, i: int, w: int)
    requires
        w > 0,
        0 <= i < t,
        t % w == i % w,
    ensures
        t >= i + w,
{
    lemma_fundamental_div_mod(t, w);
    lemma_fundamental_div_mod(i, w);
    let qt = t / w;
    let qi = i / w;
    assert(t - i == w * (qt - qi)) by (nonlinear_arith)
        requires
            t == w * qt + t % w,
            i == w * qi + i % w,
            t % w == i % w,
    ;
    assert(t - i >= w) by (nonlinear_arith)
        requires
            t - i == w * (qt - qi),
            t - i > 0,
            w > 0,
    ;
}

proof fn lemma_mod_at_most(u: int, w: int)
    requires
        w > 0,
        0 <= u,
    ensures
        u % w <= u,
{
    lemma_fundamental_div_mod(u, w);
    assert(u / w >= 0) by (nonlinear_arith)
        requires
            u >= 0,
            w > 0,
    ;
    assert(u % w <= u) by (nonlinear_arith)
        requires
            u == w * (u / w) + u % w,
            u / w >= 0,
            w > 0,
    ;
}

/// Every entry of `outs` is the output for the frame at its index.
pub open spec fn all_composites(outs: Seq<Canvas>, cache: &FrameCache, params: CompositeParams) -> bool {
    &&& outs.len() == cache.view_frames().len()
    &&& forall|i: int| 0 <= i < outs.len() ==> is_composite(#[trigger] outs[i], cache.view_frames(), i, params)
}

/// Composites every frame of `cache` as `workers` workers would share them:
/// worker `k` takes frames `k`, `k + workers`, `k + 2 * workers`, and so on.
/// The outputs are gathered by frame index.
pub fn composite_all(cache: &FrameCache, params: &CompositeParams, workers: usize) -> (r: Vec<Canvas>)
    requires
        cache.wf(),
        params.history_length >= 1,
        workers >= 1,
    ensures
        all_composites(r@, cache, *params),
{
    let n = cache.len();
    let ghost frames = cache.view_frames();
    let mut slots: Vec<Option<Canvas>> = Vec::new();
    let mut t: usize = 0;
    while t < n
        invariant
            n == frames.len(),
            t <= n,
            slots@.len() == t,
            forall|u: int| 0 <= u < t ==> #[trigger] slots@[u] is None,
        decreases n - t,
    {
        slots.push(None);
        t = t + 1;
    }
    let w = workers;
    let mut k: usize = 0;
    while k < w
        invariant
            n == frames.len(),
            frames == cache.view_frames(),
            cache.wf(),
            params.history_length >= 1,
            w >= 1,
            k <= w,
            slots@.len() == n,
            forall|u: int| 0 <= u < n ==> (#[trigger] slots@[u] is Some <==> u % (w as int) < k),
            forall|u: int| 0 <= u < n && #[trigger] slots@[u] is Some ==> is_composite(
                slots@[u]->Some_0, frames, u, *params),
        decreases w - k,
    {
        let mut i: usize = k;
        let mut more = k < n;
        proof {
            vstd::arithmetic::div_mod::lemma_small_mod(k as nat, w as nat);
            assert forall|u: int| 0 <= u < n implies (#[trigger] slots@[u] is Some <==> (u % (w as int) < k
                || (u % (w as int) == k && (u < i || !more)))) by {
                lemma_mod_at_most(u, w as int);
            }
        }
        while more
            invariant
                n == frames.len(),
                frames == cache.view_frames(),
                cache.wf(),
                params.history_length >= 1,
                w >= 1,
                k < w,
                k <= i,
                more ==> i < n,
                i as int % w as int == k as int,
                slots@.len() == n,
                forall|u: int| 0 <= u < n ==> (#[trigger] slots@[u] is Some <==> (u % (w as int) < k
                    || (u % (w as int) == k && (u < i || !more)))),
                forall|u: int| 0 <= u < n && #[trigger] slots@[u] is Some ==> is_composite(
                    slots@[u]->Some_0, frames, u, *params),
            decreases if more { n - i + 1 } else { 0 },
        {
            let out = composite(i, cache, params);
            slots.set(i, Some(out));
            if n - i > w {
                proof {
                    vstd::arithmetic::div_mod::lemma_mod_add_multiples_vanish(i as int, w as int);
                    assert forall|u: int| 0 <= u < n implies (#[trigger] slots@[u] is Some <==> (u % (w as int) < k
                        || (u % (w as int) == k && u < i + w))) by {
                        if u % (w as int) == k && u > i {
                            lemma_same_residue_gap(u, i as int, w as int);
                        }
                    }
                }
                i = i + w;
            } else {
                proof {
                    assert forall|u: int| 0 <= u < n implies (#[trigger] slots@[u] is Some <==> (u % (w as int) < k
                        || u % (w as int) == k)) by {
                        if u % (w as int) == k && u > i {
                            lemma_same_residue_gap(u, i as int, w as int);
                        }
                    }
                }
                more = false;
            }
        }
        proof {
            assert forall|u: int| 0 <= u < n implies (#[trigger] slots@[u] is Some <==> u % (w as int) < k + 1) by {
                if u % (w as int) == k && slots@[u] is None {
                    assert(u >= i);
                }
            }
        }
        k = k + 1;
    }
    let mut outs: Vec<Canvas> = Vec::new();
    let mut j: usize = 0;
    while j < n
        invariant
            n == frames.len(),
            frames == cache.view_frames(),
            w >= 1,
            k == w,
            j <= n,
            slots@.len() == n - j,
            outs@.len() == j,
            forall|u: int| 0 <= u < n - j ==> (#[trigger] slots@[u]) is Some && is_composite(
                slots@[u]->Some_0, frames, u + j, *params),
            forall|u: int| 0 <= u < j ==> is_composite(#[trigger] outs@[u], frames, u, *params),
        decreases n - j,
    {
        let s = slots.remove(0);
        match s {
            Some(c) => outs.push(c),
            None => {
                assert(false);
                return outs;
            },
        }
        j = j + 1;
    }
    outs
}

} // verus!

verus! {

/// Outputs gathered from any two schedules (any two worker counts) are the
/// same, frame by frame: size and every pixel.
pub proof fn lemma_outputs_independent_of_schedule(
    a: Seq<Canvas>,
    b: Seq<Canvas>,
    cache: &FrameCache,
    params: CompositeParams,
)
    requires
        all_composites(a, cache, params),
        all_composites(b, cache, params),
    ensures
        a.len() == b.len(),
        forall|i: int| 0 <= i < a.len() ==> (#[trigger] a[i]).width == b[i].width && a[i].height == b[i].height
            && a[i].pixels@ == b[i].pixels@,
{
    assert forall|i: int| 0 <= i < a.len() implies (#[trigger] a[i]).width == b[i].width && a[i].height
        == b[i].height && a[i].pixels@ == b[i].pixels@ by {
        assert(is_composite(a[i], cache.view_frames(), i, params));
        assert(is_composite(b[i], cache.view_frames(), i, params));
        assert(a[i].pixels@ =~= b[i].pixels@);
    }
}

} // verus!

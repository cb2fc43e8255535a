//! The decoded frames of one folder, all of one size.

use vstd::prelude::*;
use crate::canvas::Canvas;

verus! {

/// Why a folder's frames cannot be composited.
#[derive(Clone, Copy, Debug, PartialEq, Eq, Structural)]
pub enum CacheError {
    /// The folder holds no frame.
    Empty,
    /// The frame at `index` is not the size of the first frame.
    DimensionMismatch { index: usize },
}

/// Every frame of `frames` is well formed and the size of the first one.
pub open spec fn uniform(frames: Seq<Canvas>) -> bool {
    &&& frames.len() > 0
    &&& forall|i: int| 0 <= i < frames.len() ==> (#[trigger] frames[i]).wf()
        && frames[i].same_shape(&frames[0])
}

/// The first frame whose size differs from the first frame's.
pub open spec fn first_mismatch(frames: Seq<Canvas>, j: int) -> bool {
    &&& 0 < j < frames.len()
    &&& !frames[j].same_shape(&frames[0])
    &&& forall|k: int| 0 <= k < j ==> (#[trigger] frames[k]).same_shape(&frames[0])
}

/// The files of a folder to take as frames: the first `limit` of them where
/// a limit is given, else all.
pub fn apply_limit<T>(files: Vec<T>, limit: Option<usize>) -> (r: Vec<T>)
    ensures
        r@ == match limit {
            Some(l) => if l < files@.len() { files@.take(l as int) } else { files@ },
            None => files@,
        },
{
    let mut files = files;
    if let Some(l) = limit {
        files.truncate(l);
    }
    files
}

/// The frames of one folder, in order, all of one width and height.
pub struct FrameCache {
    frames: Vec<Canvas>,
}

impl FrameCache {
    pub closed spec fn view_frames(&self) -> Seq<Canvas> {
        self.frames@
    }

    pub open spec fn wf(&self) -> bool {
        uniform(self.view_frames())
    }

    /// Takes the decoded frames of a folder. Fails with `Empty` where there is
    /// none, and with `DimensionMismatch` naming the first frame whose size is
    /// not the first frame's.
    pub fn load(frames: Vec<Canvas>) -> (r: Result<FrameCache, CacheError>)
        requires
            forall|i: int| 0 <= i < frames@.len() ==> (#[trigger] frames@[i]).wf(),
        ensures
            frames@.len() == 0 <==> r == Err::<FrameCache, CacheError>(CacheError::Empty),
            r is Ok <==> frames@.len() > 0 && uniform(frames@),
            r is Ok ==> r->Ok_0.wf() && r->Ok_0.view_frames() == frames@,
            forall|j: usize| r == Err::<FrameCache, CacheError>(CacheError::DimensionMismatch { index: j })
                <==> first_mismatch(frames@, j as int),
    {
        if frames.len() == 0 {
            return Err(CacheError::Empty);
        }
        let w = frames[0].width;
        let h = frames[0].height;
        let mut i: usize = 1;
        while i < frames.len()
            invariant
                1 <= i <= frames@.len(),
                w == frames@[0].width,
                h == frames@[0].height,
                forall|k: int| 0 <= k < i ==> (#[trigger] frames@[k]).same_shape(&frames@[0]),
            decreases frames@.len() - i,
        {
            if frames[i].width != w || frames[i].height != h {
                proof {
                    assert forall|j: usize| first_mismatch(frames@, j as int) implies j == i by {
                        if j < i {
                            assert(frames@[j as int].same_shape(&frames@[0]));
                        } else if j > i {
                            assert(frames@[i as int].same_shape(&frames@[0]));
                        }
                    }
                    assert(!uniform(frames@)) by {
                        assert(!frames@[i as int].same_shape(&frames@[0]));
                    }
                }
                return Err(CacheError::DimensionMismatch { index: i });
            }
            i = i + 1;
        }
        Ok(FrameCache { frames })
    }

    pub fn len(&self) -> (r: usize)
        ensures
            r == self.view_frames().len(),
    {
        self.frames.len()
    }

    /// The frame at `index`.
    pub fn frame(&self, index: usize) -> (r: &Canvas)
        requires
            index < self.view_frames().len(),
        ensures
            *r == self.view_frames()[index as int],
    {
        &self.frames[index]
    }
}

} // verus!

//! Memory of the previous run's frames and the unchanged-prefix diff.
use vstd::prelude::*;

verus! {

/// The texts of a list of strings.
pub open spec fn texts(v: Seq<String>) -> Seq<Seq<char>> {
    v.map_values(|s: String| s@)
}

/// `n` is the length of the longest common prefix of `a` and `b`.
pub open spec fn is_common_prefix_len(a: Seq<Seq<char>>, b: Seq<Seq<char>>, n: int) -> bool {
    &&& 0 <= n <= a.len()
    &&& n <= b.len()
    &&& forall|i: int| 0 <= i < n ==> a[i] == b[i]
    &&& (n < a.len() && n < b.len() ==> a[n] != b[n])
}

/// Number of leading positions at which `current` and `previous` hold the
/// same text, stopping at the first mismatch or at the shorter length.
pub fn diff(current: &Vec<String>, previous: &Vec<String>) -> (r: usize)
    ensures
        is_common_prefix_len(texts(current@), texts(previous@), r as int),
{
    let mut i: usize = 0;
    loop
        invariant
            i <= current.len(),
            i <= previous.len(),
            forall|j: int| 0 <= j < i ==> current@[j]@ == previous@[j]@,
        ensures
            i <= current.len(),
            i <= previous.len(),
            forall|j: int| 0 <= j < i ==> current@[j]@ == previous@[j]@,
            i < current.len() && i < previous.len() ==> current@[i as int]@ != previous@[i as int]@,
        decreases current.len() - i,
    {
        if i >= current.len() || i >= previous.len() {
            break;
        }
        if current[i] != previous[i] {
            break;
        }
        i = i + 1;
    }
    proof {
        let a = texts(current@);
        let b = texts(previous@);
        assert(forall|j: int| 0 <= j < i ==> a[j] == b[j]);
    }
    i
}

/// Which frame the preview shows: the first changed one, or the first frame
/// when nothing changed.
pub open spec fn preview_choice(diff_index: int, n_frames: int) -> int {
    if diff_index == n_frames {
        0
    } else {
        diff_index
    }
}

/// Index of the frame whose artifact the preview exposes, given the diff
/// index and the number of frames.
pub fn preview_index(diff_index: usize, n_frames: usize) -> (r: usize)
    requires
        diff_index <= n_frames,
    ensures
        r as int == preview_choice(diff_index as int, n_frames as int),
        n_frames > 0 ==> r < n_frames,
{
    if diff_index == n_frames {
        0
    } else {
        diff_index
    }
}

/// The frames of the most recent completed run. Empty at the start of a
/// process; replaced once at the end of each run.
pub struct RunHistory {
    pub frames: Vec<String>,
}

impl RunHistory {
    /// A history that has seen no run.
    pub fn new() -> (r: RunHistory)
        ensures
            r.frames@.len() == 0,
    {
        RunHistory { frames: Vec::new() }
    }

    /// The unchanged prefix of `current` against the remembered frames.
    pub fn diff_against(&self, current: &Vec<String>) -> (r: usize)
        ensures
            is_common_prefix_len(texts(current@), texts(self.frames@), r as int),
    {
        diff(current, &self.frames)
    }

    /// Remember `frames` as the latest run's frame list.
    pub fn record(&mut self, frames: Vec<String>)
        ensures
            final(self).frames@ == frames@,
    {
        self.frames = frames;
    }
}

} // verus!

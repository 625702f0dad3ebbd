//! What a run builds: frames, preamble, format identifier, one compile unit
//! per frame and the fingerprints that key the artifact cache.
use vstd::prelude::*;
use crate::extract::extract_frames;
use crate::extract::frame_texts;
use crate::extract::preamble_of;
use crate::extract::preamble_spec;
use crate::fingerprint::compile_unit;
use crate::fingerprint::compile_unit_spec;
use crate::fingerprint::fingerprint;
use crate::fingerprint::fingerprint_spec;
use crate::fingerprint::format_id;
use crate::fingerprint::format_id_spec;
use crate::history::texts;

verus! {

/// The frames a run works on: those of the structural strategy when it found
/// any, else those of the textual scan.
pub open spec fn chosen_frames(content: Seq<char>, structural: Seq<Seq<char>>) -> Seq<Seq<char>> {
    if structural.len() > 0 {
        structural
    } else {
        frame_texts(content)
    }
}

/// Pick the frames of a document: the structural result when non-empty,
/// else the textual scan of `content`.
pub fn select_frames(content: &str, structural: Vec<String>) -> (r: Vec<String>)
    ensures
        texts(r@) == chosen_frames(content@, texts(structural@)),
{
    if structural.len() > 0 {
        structural
    } else {
        let r = extract_frames(content);
        assert(texts(r@) =~= frame_texts(content@));
        r
    }
}

/// Everything a run derives from the document before it compiles anything.
pub struct BuildPlan {
    pub preamble: String,
    pub format_id: String,
    pub frames: Vec<String>,
    pub units: Vec<String>,
    pub fingerprints: Vec<String>,
}

impl BuildPlan {
    /// The plan is the one derived from `content`, `frames` and the flags.
    pub open spec fn derived_from(
        self,
        content: Seq<char>,
        frames: Seq<Seq<char>>,
        numbering: bool,
        draft: bool,
    ) -> bool {
        &&& self.preamble@ == preamble_spec(content)
        &&& self.format_id@ == format_id_spec(self.preamble@, draft)
        &&& texts(self.frames@) == frames
        &&& self.units@.len() == frames.len()
        &&& self.fingerprints@.len() == frames.len()
        &&& forall|k: int|
            0 <= k < frames.len() ==> #[trigger] self.units@[k]@ == compile_unit_spec(
                self.format_id@,
                self.preamble@,
                k as nat,
                numbering,
                frames[k],
            )
        &&& forall|k: int|
            0 <= k < frames.len() ==> #[trigger] self.fingerprints@[k]@ == fingerprint_spec(
                self.units@[k]@,
            )
    }

    /// Derive the plan of a document from its text and its frames.
    pub fn new(content: &str, frames: Vec<String>, numbering: bool, draft: bool) -> (r: BuildPlan)
        ensures
            r.derived_from(content@, texts(frames@), numbering, draft),
    {
        let preamble = preamble_of(content);
        let fid = format_id(preamble.as_str(), draft);
        let mut units: Vec<String> = Vec::new();
        let mut fps: Vec<String> = Vec::new();
        let mut k: usize = 0;
        while k < frames.len()
            invariant
                k <= frames@.len(),
                units@.len() == k,
                fps@.len() == k,
                forall|j: int|
                    0 <= j < k ==> #[trigger] units@[j]@ == compile_unit_spec(
                        fid@,
                        preamble@,
                        j as nat,
                        numbering,
                        frames@[j]@,
                    ),
                forall|j: int| 0 <= j < k ==> #[trigger] fps@[j]@ == fingerprint_spec(units@[j]@),
            decreases frames.len() - k,
        {
            let unit = compile_unit(fid.as_str(), preamble.as_str(), k, numbering, frames[k].as_str());
            let fp = fingerprint(unit.as_str());
            units.push(unit);
            fps.push(fp);
            k = k + 1;
        }
        BuildPlan { preamble, format_id: fid, frames, units, fingerprints: fps }
    }
}

/// Two plans derived from the same document, frames and flags hold the same
/// fingerprints; so once every artifact of the first run is in the cache,
/// the second run finds every unit present and has nothing to compile.
pub proof fn lemma_unchanged_document_is_all_cached(
    first: BuildPlan,
    second: BuildPlan,
    content: Seq<char>,
    frames: Seq<Seq<char>>,
    numbering: bool,
    draft: bool,
    cached: Set<Seq<char>>,
    present: Seq<bool>,
    stale: Seq<usize>,
)
    requires
        first.derived_from(content, frames, numbering, draft),
        second.derived_from(content, frames, numbering, draft),
        forall|k: int| 0 <= k < frames.len() ==> cached.contains(#[trigger] first.fingerprints@[k]@),
        present.len() == frames.len(),
        forall|k: int| 0 <= k < frames.len() ==> #[trigger] present[k] == cached.contains(second.fingerprints@[k]@),
        crate::pipeline::is_stale_list(stale, present, frames.len() as int),
    ensures
        forall|k: int| 0 <= k < frames.len() ==> #[trigger] second.fingerprints@[k]@ == first.fingerprints@[k]@,
        stale.len() == 0,
{
    assert forall|k: int| 0 <= k < frames.len() implies #[trigger] second.fingerprints@[k]@ == first.fingerprints@[k]@ by {
        assert(second.units@[k]@ == first.units@[k]@);
    }
    if stale.len() > 0 {
        let k = stale[0] as int;
        assert(present[k]);
    }
}

/// Indices, in increasing order, of the units whose artifact is absent.
pub fn stale_units(present: &Vec<bool>) -> (r: Vec<usize>)
    ensures
        forall|i: int, j: int| 0 <= i < j < r@.len() ==> r@[i] < r@[j],
        forall|i: int| 0 <= i < r@.len() ==> r@[i] < present@.len() && !present@[r@[i] as int],
        forall|k: int| 0 <= k < present@.len() && !present@[k] ==> r@.contains(k as usize),
{
    let mut r: Vec<usize> = Vec::new();
    let mut k: usize = 0;
    while k < present.len()
        invariant
            k <= present@.len(),
            forall|i: int, j: int| 0 <= i < j < r@.len() ==> r@[i] < r@[j],
            forall|i: int| 0 <= i < r@.len() ==> r@[i] < k && !present@[r@[i] as int],
            forall|m: int| 0 <= m < k && !present@[m] ==> r@.contains(m as usize),
        decreases present.len() - k,
    {
        let ghost prev = r@;
        if !present[k] {
            r.push(k);
            assert(r@[r@.len() - 1] == k);
        }
        assert forall|m: int| 0 <= m < k + 1 && !present@[m] implies r@.contains(m as usize) by {
            if m == k {
                assert(r@[r@.len() - 1] == k);
            } else {
                let i = choose|i: int| 0 <= i < prev.len() && prev[i] == m as usize;
                assert(r@[i] == m as usize);
            }
        }
        k = k + 1;
    }
    r
}

} // verus!

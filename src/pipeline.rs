//! One invocation of the pipeline as a state machine. The caller performs
//! each requested action (file checks, compiler runs, linking) and reports
//! its outcome as the next event; the session decides what comes next.
use vstd::prelude::*;
use crate::history::preview_choice;
use crate::history::preview_index;
use crate::history::texts;
use crate::plan::BuildPlan;
use crate::plan::stale_units;
use crate::stitch::stitch;
use crate::stitch::stitch_spec;

verus! {

/// Why an invocation ended without producing the requested output.
#[derive(PartialEq, Eq, Structural, Clone, Copy, Debug)]
pub enum FasterBeamerError {
    InputFileNotExistent,
    IoError,
    CompileError,
    PdfUniteError,
}

/// How the final output is assembled.
#[derive(PartialEq, Eq, Structural, Clone, Copy, Debug)]
pub enum OutputMode {
    /// Link the artifact of the first changed frame.
    Preview,
    /// Concatenate every frame's artifact in frame order.
    Concatenate,
    /// Compile the source document with each frame replaced by its artifact.
    Stitch,
}

/// Where the session stands.
#[derive(PartialEq, Eq, Structural, Clone, Copy, Debug)]
pub enum Stage {
    AwaitCacheDir,
    AwaitFormatCheck,
    AwaitFormatCompile,
    AwaitArtifacts,
    AwaitUnits,
    AwaitAssembly,
    AwaitLink,
    Done,
}

/// The outcome of the action last requested.
pub enum Event {
    /// The cache directory was created, or already existed.
    CacheDirReady { ok: bool },
    /// Whether the precompiled format already exists.
    FormatChecked { present: bool },
    /// Whether compiling the format succeeded.
    FormatCompiled { ok: bool },
    /// For each unit, in order, whether its artifact exists.
    ArtifactsChecked { artifacts: Vec<bool> },
    /// The stale units were compiled (each one may have failed).
    UnitsCompiled,
    /// Whether the concatenation tool succeeded.
    Concatenated { ok: bool },
    /// Whether the stitched document was written, and whether its render
    /// exists after compiling it.
    StitchedCompiled { written: bool, render_present: bool },
    /// Whether the artifact selected for preview exists.
    PreviewChecked { present: bool },
    /// Whether removing the old output and linking the new one succeeded.
    Linked { ok: bool },
}

/// What is linked to the output path.
pub enum LinkTarget {
    /// The artifact with this fingerprint.
    Artifact(String),
    /// The render of the stitched document.
    Stitched,
}

/// The next thing the caller is to do.
pub enum Action {
    CreateCacheDir,
    CheckFormat,
    CompileFormat,
    CheckArtifacts,
    /// Compile the units at these indices.
    CompileUnits(Vec<usize>),
    /// Concatenate the artifacts with these fingerprints, in this order.
    Concatenate(Vec<String>),
    /// Write this document and compile it.
    CompileStitched(String),
    /// Check that the artifact with this fingerprint exists.
    CheckPreview(String),
    Link(LinkTarget),
    /// The invocation is over: show the error slide when `error_slide` holds,
    /// remember `history` as the run's frames, and return `result`.
    Finish { result: Result<(), FasterBeamerError>, error_slide: bool, history: Vec<String> },
    /// The event does not belong to the current stage: nothing to do.
    Idle,
}

/// The first check of an invocation: a missing input file ends it at once,
/// before anything else happens.
pub fn validate_input(input_exists: bool) -> (r: Result<(), FasterBeamerError>)
    ensures
        input_exists <==> r is Ok,
        !input_exists ==> r == Err::<(), _>(FasterBeamerError::InputFileNotExistent),
{
    if input_exists {
        Ok(())
    } else {
        Err(FasterBeamerError::InputFileNotExistent)
    }
}

/// `r` ends the invocation with error `e`, showing the error slide and
/// remembering `frames`.
pub open spec fn finishes_with(r: Action, e: FasterBeamerError, frames: Seq<Seq<char>>) -> bool {
    r matches Action::Finish { result, error_slide, history } && result == Err::<(), _>(e)
        && error_slide && texts(history@) == frames
}

/// `r` ends the invocation successfully, remembering `frames`.
pub open spec fn finishes_ok(r: Action, frames: Seq<Seq<char>>) -> bool {
    r matches Action::Finish { result, error_slide, history } && result is Ok && !error_slide
        && texts(history@) == frames
}

/// Unit `k` of `n` has no artifact according to `present`.
pub open spec fn is_stale(present: Seq<bool>, k: int) -> bool {
    !(k < present.len() && present[k])
}

/// `v` lists, in increasing order, exactly the stale units among `n`.
pub open spec fn is_stale_list(v: Seq<usize>, present: Seq<bool>, n: int) -> bool {
    &&& forall|i: int, j: int| 0 <= i < j < v.len() ==> v[i] < v[j]
    &&& forall|i: int| 0 <= i < v.len() ==> v[i] < n && is_stale(present, v[i] as int)
    &&& forall|k: int| 0 <= k < n && is_stale(present, k) ==> v.contains(k as usize)
}

/// Presence of each of `n` artifacts; those that `artifacts` does not
/// mention are absent.
fn presence(artifacts: &Vec<bool>, n: usize) -> (r: Vec<bool>)
    ensures
        r@.len() == n,
        forall|j: int| 0 <= j < n ==> r@[j] == !is_stale(artifacts@, j),
{
    let mut full: Vec<bool> = Vec::new();
    let mut k: usize = 0;
    while k < n
        invariant
            k <= n,
            full@.len() == k,
            forall|j: int| 0 <= j < k ==> full@[j] == !is_stale(artifacts@, j),
        decreases n - k,
    {
        full.push(k < artifacts.len() && artifacts[k]);
        k = k + 1;
    }
    full
}

/// The state of one invocation.
pub struct Session {
    pub mode: OutputMode,
    pub content: String,
    pub plan: BuildPlan,
    pub diff_index: usize,
    pub stage: Stage,
}

impl Session {
    pub open spec fn wf(self) -> bool {
        &&& self.plan.fingerprints@.len() == self.plan.frames@.len()
        &&& self.diff_index <= self.plan.frames@.len()
        &&& (self.stage == Stage::AwaitAssembly || self.stage == Stage::AwaitLink) && self.mode
            == OutputMode::Preview ==> self.plan.frames@.len() > 0
    }

    /// Index of the frame that preview mode shows.
    pub open spec fn preview_frame(self) -> int {
        preview_choice(self.diff_index as int, self.plan.frames@.len() as int)
    }

    /// A session for a planned run; `diff_index` is the unchanged prefix of
    /// the frames against the previous run.
    pub fn new(mode: OutputMode, content: String, plan: BuildPlan, diff_index: usize) -> (r: Session)
        requires
            plan.fingerprints@.len() == plan.frames@.len(),
            diff_index <= plan.frames@.len(),
        ensures
            r.wf(),
            r.stage == Stage::AwaitCacheDir,
            r.mode == mode,
            r.content == content,
            r.plan == plan,
            r.diff_index == diff_index,
    {
        Session { mode, content, plan, diff_index, stage: Stage::AwaitCacheDir }
    }

    /// The first action of a session.
    pub fn start(&self) -> (r: Action)
        ensures
            r is CreateCacheDir,
    {
        Action::CreateCacheDir
    }

    /// Advance on the outcome of the last action and say what to do next.
    pub fn step(&mut self, event: Event) -> (r: Action)
        requires
            old(self).wf(),
        ensures
            final(self).wf(),
            final(self).plan == old(self).plan,
            final(self).mode == old(self).mode,
            final(self).content == old(self).content,
            final(self).diff_index == old(self).diff_index,
            ({
                let s = old(self).stage;
                let t = final(self).stage;
                let frames = texts(old(self).plan.frames@);
                let fps = texts(old(self).plan.fingerprints@);
                let n = frames.len();
                let mode = old(self).mode;
                match event {
                    Event::CacheDirReady { ok } if s == Stage::AwaitCacheDir => if ok {
                        t == Stage::AwaitFormatCheck && r is CheckFormat
                    } else {
                        t == Stage::Done && finishes_with(r, FasterBeamerError::IoError, frames)
                    },
                    Event::FormatChecked { present } if s == Stage::AwaitFormatCheck => if present {
                        t == Stage::AwaitArtifacts && r is CheckArtifacts
                    } else {
                        t == Stage::AwaitFormatCompile && r is CompileFormat
                    },
                    Event::FormatCompiled { ok } if s == Stage::AwaitFormatCompile => if ok {
                        t == Stage::AwaitArtifacts && r is CheckArtifacts
                    } else {
                        t == Stage::Done && finishes_with(r, FasterBeamerError::CompileError, seq![])
                    },
                    Event::ArtifactsChecked { artifacts } if s == Stage::AwaitArtifacts => t
                        == Stage::AwaitUnits && (r matches Action::CompileUnits(v) && is_stale_list(
                        v@,
                        artifacts@,
                        n as int,
                    )),
                    Event::UnitsCompiled if s == Stage::AwaitUnits => match mode {
                        OutputMode::Concatenate => t == Stage::AwaitAssembly
                            && (r matches Action::Concatenate(v) && texts(v@) == fps),
                        OutputMode::Stitch => t == Stage::AwaitAssembly
                            && (r matches Action::CompileStitched(d) && d@ == stitch_spec(
                            old(self).content@,
                            frames,
                            fps,
                        )),
                        OutputMode::Preview => if n == 0 {
                            t == Stage::Done && finishes_ok(r, frames)
                        } else {
                            t == Stage::AwaitAssembly && (r matches Action::CheckPreview(f) && f@
                                == fps[old(self).preview_frame()])
                        },
                    },
                    Event::Concatenated { ok } if s == Stage::AwaitAssembly && mode
                        == OutputMode::Concatenate => if ok {
                        t == Stage::Done && finishes_ok(r, frames)
                    } else {
                        t == Stage::Done && finishes_with(r, FasterBeamerError::PdfUniteError, frames)
                    },
                    Event::StitchedCompiled { written, render_present } if s == Stage::AwaitAssembly
                        && mode == OutputMode::Stitch => if !written {
                        t == Stage::Done && finishes_with(r, FasterBeamerError::PdfUniteError, frames)
                    } else if !render_present {
                        t == Stage::Done && finishes_with(r, FasterBeamerError::CompileError, frames)
                    } else {
                        t == Stage::AwaitLink && r matches Action::Link(LinkTarget::Stitched)
                    },
                    Event::PreviewChecked { present } if s == Stage::AwaitAssembly && mode
                        == OutputMode::Preview => if present {
                        t == Stage::AwaitLink && (r matches Action::Link(LinkTarget::Artifact(f))
                            && f@ == fps[old(self).preview_frame()])
                    } else {
                        t == Stage::Done && finishes_with(r, FasterBeamerError::CompileError, frames)
                    },
                    Event::Linked { ok } if s == Stage::AwaitLink => if ok {
                        t == Stage::Done && finishes_ok(r, frames)
                    } else {
                        t == Stage::Done && finishes_with(r, FasterBeamerError::IoError, frames)
                    },
                    _ => t == s && r is Idle,
                }
            }),
    {
        let n = self.plan.frames.len();
        let stage = self.stage;
        let mode = self.mode;
        let r = match (stage, event) {
            (Stage::AwaitCacheDir, Event::CacheDirReady { ok }) => {
                if ok {
                    self.stage = Stage::AwaitFormatCheck;
                    Action::CheckFormat
                } else {
                    self.fail(FasterBeamerError::IoError, true)
                }
            },
            (Stage::AwaitFormatCheck, Event::FormatChecked { present }) => {
                if present {
                    self.stage = Stage::AwaitArtifacts;
                    Action::CheckArtifacts
                } else {
                    self.stage = Stage::AwaitFormatCompile;
                    Action::CompileFormat
                }
            },
            (Stage::AwaitFormatCompile, Event::FormatCompiled { ok }) => {
                if ok {
                    self.stage = Stage::AwaitArtifacts;
                    Action::CheckArtifacts
                } else {
                    self.fail(FasterBeamerError::CompileError, false)
                }
            },
            (Stage::AwaitArtifacts, Event::ArtifactsChecked { artifacts }) => {
                let full = presence(&artifacts, n);
                let v = stale_units(&full);
                self.stage = Stage::AwaitUnits;
                Action::CompileUnits(v)
            },
            (Stage::AwaitUnits, Event::UnitsCompiled) => {
                match mode {
                    OutputMode::Concatenate => {
                        self.stage = Stage::AwaitAssembly;
                        let v = self.plan.fingerprints.clone();
                        assert(texts(v@) =~= texts(self.plan.fingerprints@));
                        Action::Concatenate(v)
                    },
                    OutputMode::Stitch => {
                        self.stage = Stage::AwaitAssembly;
                        let d = stitch(self.content.as_str(), &self.plan.frames, &self.plan.fingerprints);
                        assert(texts(self.plan.frames@) =~= self.plan.frames@.map_values(|f: String| f@));
                        assert(texts(self.plan.fingerprints@) =~= self.plan.fingerprints@.map_values(|f: String| f@));
                        Action::CompileStitched(d)
                    },
                    OutputMode::Preview => {
                        if n == 0 {
                            self.succeed()
                        } else {
                            self.stage = Stage::AwaitAssembly;
                            let i = preview_index(self.diff_index, n);
                            Action::CheckPreview(self.plan.fingerprints[i].clone())
                        }
                    },
                }
            },
            (Stage::AwaitAssembly, Event::Concatenated { ok }) => {
                if mode != OutputMode::Concatenate {
                    Action::Idle
                } else {
                    if ok {
                        self.succeed()
                    } else {
                        self.fail(FasterBeamerError::PdfUniteError, true)
                    }
                }
            },
            (Stage::AwaitAssembly, Event::StitchedCompiled { written, render_present }) => {
                if mode != OutputMode::Stitch {
                    Action::Idle
                } else {
                    if !written {
                        self.fail(FasterBeamerError::PdfUniteError, true)
                    } else if !render_present {
                        self.fail(FasterBeamerError::CompileError, true)
                    } else {
                        self.stage = Stage::AwaitLink;
                        Action::Link(LinkTarget::Stitched)
                    }
                }
            },
            (Stage::AwaitAssembly, Event::PreviewChecked { present }) => {
                if mode != OutputMode::Preview {
                    Action::Idle
                } else {
                    if present {
                        self.stage = Stage::AwaitLink;
                        let i = preview_index(self.diff_index, n);
                        Action::Link(LinkTarget::Artifact(self.plan.fingerprints[i].clone()))
                    } else {
                        self.fail(FasterBeamerError::CompileError, true)
                    }
                }
            },
            (Stage::AwaitLink, Event::Linked { ok }) => {
                if ok {
                    self.succeed()
                } else {
                    self.fail(FasterBeamerError::IoError, true)
                }
            },
            _ => Action::Idle,
        };
        r
    }

    fn fail(&mut self, e: FasterBeamerError, keep_frames: bool) -> (r: Action)
        requires
            old(self).wf(),
        ensures
            final(self).wf(),
            final(self).stage == Stage::Done,
            final(self).plan == old(self).plan,
            final(self).mode == old(self).mode,
            final(self).content == old(self).content,
            final(self).diff_index == old(self).diff_index,
            r matches Action::Finish { result, error_slide, history } && result == Err::<(), _>(e)
                && error_slide && texts(history@) == (if keep_frames {
                texts(old(self).plan.frames@)
            } else {
                Seq::<Seq<char>>::empty()
            }),
    {
        self.stage = Stage::Done;
        let history = if keep_frames {
            self.plan.frames.clone()
        } else {
            Vec::new()
        };
        proof {
            if keep_frames {
                assert(texts(history@) =~= texts(self.plan.frames@));
            } else {
                assert(texts(history@) =~= Seq::<Seq<char>>::empty());
            }
        }
        Action::Finish { result: Err(e), error_slide: true, history }
    }

    fn succeed(&mut self) -> (r: Action)
        requires
            old(self).wf(),
        ensures
            final(self).wf(),
            final(self).stage == Stage::Done,
            final(self).plan == old(self).plan,
            final(self).mode == old(self).mode,
            final(self).content == old(self).content,
            final(self).diff_index == old(self).diff_index,
            r matches Action::Finish { result, error_slide, history } && result is Ok
                && !error_slide && texts(history@) == texts(old(self).plan.frames@),
    {
        self.stage = Stage::Done;
        let history = self.plan.frames.clone();
        assert(texts(history@) =~= texts(self.plan.frames@));
        Action::Finish { result: Ok(()), error_slide: false, history }
    }
}

} // verus!

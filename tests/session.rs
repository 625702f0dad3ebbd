use faster_beamer::history::RunHistory;
use faster_beamer::pipeline::validate_input;
use faster_beamer::pipeline::Action;
use faster_beamer::pipeline::Event;
use faster_beamer::pipeline::FasterBeamerError;
use faster_beamer::pipeline::LinkTarget;
use faster_beamer::pipeline::OutputMode;
use faster_beamer::pipeline::Session;
use faster_beamer::pipeline::Stage;
use faster_beamer::plan::BuildPlan;
use std::collections::HashSet;

/// An in-memory world: the artifact cache, a compiler that succeeds or
/// fails, and the output path.
struct World {
    cache: HashSet<String>,
    format_ready: bool,
    compiler_ok: bool,
    compiled: Vec<String>,
    output: Option<String>,
}

impl World {
    fn new(compiler_ok: bool) -> World {
        World { cache: HashSet::new(), format_ready: false, compiler_ok, compiled: Vec::new(), output: None }
    }
}

fn run(
    world: &mut World,
    history: &mut RunHistory,
    mode: OutputMode,
    content: &str,
    frames: &[&str],
) -> Result<(), FasterBeamerError> {
    let frames: Vec<String> = frames.iter().map(|s| s.to_string()).collect();
    let plan = BuildPlan::new(content, frames.clone(), false, false);
    let diff = history.diff_against(&frames);
    let fps = plan.fingerprints.clone();
    let mut session = Session::new(mode, content.to_string(), plan, diff);
    let mut action = session.start();
    loop {
        let event = match action {
            Action::CreateCacheDir => Event::CacheDirReady { ok: true },
            Action::CheckFormat => Event::FormatChecked { present: world.format_ready },
            Action::CompileFormat => {
                world.format_ready = world.compiler_ok;
                Event::FormatCompiled { ok: world.compiler_ok }
            }
            Action::CheckArtifacts => Event::ArtifactsChecked {
                artifacts: fps.iter().map(|f| world.cache.contains(f)).collect(),
            },
            Action::CompileUnits(stale) => {
                for i in stale {
                    world.compiled.push(fps[i].clone());
                    if world.compiler_ok {
                        world.cache.insert(fps[i].clone());
                    }
                }
                Event::UnitsCompiled
            }
            Action::Concatenate(v) => {
                let ok = v.iter().all(|f| world.cache.contains(f));
                if ok {
                    world.output = Some(v.join("+"));
                }
                Event::Concatenated { ok }
            }
            Action::CompileStitched(_) => Event::StitchedCompiled { written: true, render_present: world.compiler_ok },
            Action::CheckPreview(f) => Event::PreviewChecked { present: world.cache.contains(&f) },
            Action::Link(LinkTarget::Artifact(f)) => {
                world.output = Some(f);
                Event::Linked { ok: true }
            }
            Action::Link(LinkTarget::Stitched) => {
                world.output = Some("united".to_string());
                Event::Linked { ok: true }
            }
            Action::Finish { result, error_slide, history: h } => {
                if error_slide {
                    world.output = Some("error".to_string());
                }
                history.record(h);
                return result;
            }
            Action::Idle => panic!("unexpected idle"),
        };
        action = session.step(event);
    }
}

#[test]
fn scenario_two_runs_preview() {
    let mut world = World::new(true);
    let mut history = RunHistory::new();
    let r = run(&mut world, &mut history, OutputMode::Preview, "P\\begin{document}", &["F1", "F2"]);
    assert!(r.is_ok());
    assert_eq!(world.compiled.len(), 2);
    assert_eq!(history.frames, vec!["F1".to_string(), "F2".to_string()]);
    let f1 = world.compiled[0].clone();
    assert_eq!(world.output, Some(f1.clone()));

    world.compiled.clear();
    let r = run(&mut world, &mut history, OutputMode::Preview, "P\\begin{document}", &["F1", "F2-edited"]);
    assert!(r.is_ok());
    assert_eq!(world.compiled.len(), 1);
    assert_ne!(world.compiled[0], f1);
    assert_eq!(world.output, Some(world.compiled[0].clone()));
    assert_eq!(history.frames, vec!["F1".to_string(), "F2-edited".to_string()]);
}

#[test]
fn unchanged_document_compiles_nothing_twice() {
    let mut world = World::new(true);
    let mut history = RunHistory::new();
    run(&mut world, &mut history, OutputMode::Concatenate, "P", &["A", "B", "C"]).unwrap();
    assert_eq!(world.compiled.len(), 3);
    world.compiled.clear();
    run(&mut world, &mut history, OutputMode::Concatenate, "P", &["A", "B", "C"]).unwrap();
    assert_eq!(world.compiled.len(), 0);
}

#[test]
fn failing_compiler_shows_error_slide() {
    for mode in [OutputMode::Preview, OutputMode::Concatenate, OutputMode::Stitch] {
        let mut world = World::new(false);
        world.format_ready = true;
        let mut history = RunHistory::new();
        let r = run(&mut world, &mut history, mode, "P", &["A", "B"]);
        assert!(r == Err(FasterBeamerError::CompileError) || r == Err(FasterBeamerError::PdfUniteError));
        assert_eq!(world.output, Some("error".to_string()));
        assert_eq!(history.frames.len(), 2);
    }
}

#[test]
fn failing_format_clears_history() {
    let mut world = World::new(false);
    let mut history = RunHistory::new();
    history.record(vec!["old".to_string()]);
    let r = run(&mut world, &mut history, OutputMode::Preview, "P", &["A"]);
    assert_eq!(r, Err(FasterBeamerError::CompileError));
    assert_eq!(world.output, Some("error".to_string()));
    assert!(history.frames.is_empty());
}

#[test]
fn preview_without_frames_produces_no_output() {
    let mut world = World::new(true);
    let mut history = RunHistory::new();
    let r = run(&mut world, &mut history, OutputMode::Preview, "P", &[]);
    assert!(r.is_ok());
    assert_eq!(world.output, None);
}

#[test]
fn stitch_links_united_render() {
    let mut world = World::new(true);
    let mut history = RunHistory::new();
    let r = run(&mut world, &mut history, OutputMode::Stitch, "x\nF1\ny", &["F1"]);
    assert!(r.is_ok());
    assert_eq!(world.output, Some("united".to_string()));
}

#[test]
fn failed_cache_dir_and_link_are_io_errors() {
    let plan = BuildPlan::new("P", vec!["A".to_string()], false, false);
    let mut s = Session::new(OutputMode::Preview, "P".to_string(), plan, 0);
    match s.step(Event::CacheDirReady { ok: false }) {
        Action::Finish { result, error_slide, .. } => {
            assert_eq!(result, Err(FasterBeamerError::IoError));
            assert!(error_slide);
        }
        _ => panic!("expected finish"),
    }
    assert_eq!(s.stage, Stage::Done);
}

#[test]
fn out_of_order_event_is_ignored() {
    let plan = BuildPlan::new("P", vec!["A".to_string()], false, false);
    let mut s = Session::new(OutputMode::Preview, "P".to_string(), plan, 0);
    assert!(matches!(s.step(Event::UnitsCompiled), Action::Idle));
    assert_eq!(s.stage, Stage::AwaitCacheDir);
}

#[test]
fn missing_input_is_reported() {
    assert_eq!(validate_input(false), Err(FasterBeamerError::InputFileNotExistent));
    assert_eq!(validate_input(true), Ok(()));
}

use faster_beamer::extract::extract_frames;
use faster_beamer::extract::preamble_of;
use faster_beamer::fingerprint::compile_unit;
use faster_beamer::fingerprint::fingerprint;
use faster_beamer::fingerprint::format_id;
use faster_beamer::history::diff;
use faster_beamer::history::preview_index;
use faster_beamer::history::RunHistory;
use faster_beamer::plan::select_frames;
use faster_beamer::plan::stale_units;
use faster_beamer::plan::BuildPlan;
use faster_beamer::stitch::stitch;
use regex::Regex;

fn strings(v: &[&str]) -> Vec<String> {
    v.iter().map(|s| s.to_string()).collect()
}

fn regex_frames(doc: &str) -> Vec<String> {
    let re = Regex::new(r"(?ms)^[\s\t]*?\\begin\{frame\}.*?^[\s\t]*?\\end\{frame\}").unwrap();
    re.find_iter(doc).map(|m| m.as_str().to_string()).collect()
}

#[test]
fn diff_stops_at_first_mismatch() {
    assert_eq!(diff(&strings(&["A", "B", "C"]), &strings(&["A", "B", "X"])), 2);
}

#[test]
fn diff_of_equal_lists_is_full_length() {
    assert_eq!(diff(&strings(&["A", "B"]), &strings(&["A", "B"])), 2);
    assert_eq!(preview_index(2, 2), 0);
}

#[test]
fn diff_of_empty_lists() {
    assert_eq!(diff(&Vec::new(), &Vec::new()), 0);
    assert_eq!(diff(&strings(&["A"]), &Vec::new()), 0);
}

#[test]
fn preview_index_keeps_changed_frame() {
    assert_eq!(preview_index(1, 3), 1);
    assert_eq!(preview_index(0, 0), 0);
}

#[test]
fn history_records_and_diffs() {
    let mut h = RunHistory::new();
    assert_eq!(h.diff_against(&strings(&["F1"])), 0);
    h.record(strings(&["F1", "F2"]));
    assert_eq!(h.diff_against(&strings(&["F1", "F2-edited"])), 1);
}

const DOC: &str = "\\documentclass{beamer}\n\\usepackage{x}\n\\begin{document}\n\\begin{frame}\nOne\n\\end{frame}\n\n  \\begin{frame}{T}\nTwo\n  \\end{frame}\n\\end{document}\n";

#[test]
fn extracts_two_frames_exactly() {
    let f = extract_frames(DOC);
    assert_eq!(
        f,
        strings(&[
            "\\begin{frame}\nOne\n\\end{frame}",
            "\n  \\begin{frame}{T}\nTwo\n  \\end{frame}",
        ])
    );
}

#[test]
fn extraction_agrees_with_regex_scan() {
    let docs = [
        DOC,
        "",
        "no frames here",
        "\\begin{frame}a\\end{frame}\n\\end{frame}",
        "x \\begin{frame}\n\\end{frame}",
        "\\begin{frame}\nunterminated",
        "\t\\begin{frame}\n\u{a0}\\end{frame}\r\n\\begin{frame}\n\\end{frame}x\n\\end{frame}",
        "\\begin{frame}\n\\begin{frame}\n\\end{frame}\n\\end{frame}\n",
        "é\n\\begin{frame}ü\n \\end{frame}\n",
    ];
    for d in docs.iter() {
        assert_eq!(extract_frames(d), regex_frames(d), "document {:?}", d);
    }
}

#[test]
fn extraction_rejoins_to_body() {
    let f = extract_frames(DOC);
    let start = DOC.find(&f[0]).unwrap();
    let end = DOC.rfind(&f[1]).unwrap() + f[1].len();
    let gap = &DOC[start + f[0].len()..DOC.rfind(&f[1]).unwrap()];
    assert_eq!(format!("{}{}{}", f[0], gap, f[1]), &DOC[start..end]);
}

#[test]
fn preamble_before_body_marker() {
    assert_eq!(preamble_of(DOC), "\\documentclass{beamer}\n\\usepackage{x}\n");
}

#[test]
fn preamble_defaults_without_marker() {
    assert_eq!(
        preamble_of("\\begin{frame}\n\\end{frame}"),
        "\\documentclass[aspectratio=43,c,xcolor=dvipsnames]{beamer}"
    );
}

#[test]
fn fingerprint_is_md5_hex() {
    assert_eq!(fingerprint(""), "d41d8cd98f00b204e9800998ecf8427e");
    assert_eq!(fingerprint("abc"), "900150983cd24fb0d6963f7d28e17f72");
    assert_eq!(fingerprint("abc"), fingerprint("abc"));
}

#[test]
fn format_id_joins_fingerprint_and_flag() {
    assert_eq!(format_id("abc", true), "900150983cd24fb0d6963f7d28e17f72_true");
    assert_eq!(format_id("", false), "d41d8cd98f00b204e9800998ecf8427e_false");
}

#[test]
fn compile_unit_layout() {
    assert_eq!(
        compile_unit("fid", "P", 12, true, "F"),
        "%&fid\nP\n\\begin{document}\n\\addtocounter{framenumber}{12}\nF\n\\end{document}\n"
    );
    assert_eq!(
        compile_unit("fid", "P", 12, false, "F"),
        "%&fid\nP\n\\begin{document}\n\\addtocounter{framenumber}{0}\nF\n\\end{document}\n"
    );
    assert_eq!(
        fingerprint(&compile_unit("fid", "P", 3, false, "F")),
        fingerprint(&compile_unit("fid", "P", 7, false, "F"))
    );
}

#[test]
fn stitch_replaces_each_frame_once() {
    let frames = strings(&["\\begin{frame}\nOne\n\\end{frame}"]);
    let doc = "A\n\\begin{frame}\nOne\n\\end{frame}\nB";
    let out = stitch(doc, &frames, &strings(&["h1"]));
    assert_eq!(
        out,
        "\\RequirePackage{pdfpages}\nA\n{\\setbeamercolor{background canvas}{bg=}\n\\includepdf[pages=-]{h1.pdf}\n}\nB"
    );
}

#[test]
fn stitch_leaves_missing_frames_alone() {
    let out = stitch("abc", &strings(&["zz"]), &strings(&["h"]));
    assert_eq!(out, "\\RequirePackage{pdfpages}\nabc");
}

#[test]
fn stale_units_lists_missing_artifacts() {
    assert_eq!(stale_units(&vec![true, false, true, false]), vec![1, 3]);
    assert_eq!(stale_units(&vec![true, true]), Vec::<usize>::new());
}

#[test]
fn structural_frames_take_precedence() {
    assert_eq!(select_frames(DOC, strings(&["S"])), strings(&["S"]));
    assert_eq!(select_frames(DOC, Vec::new()).len(), 2);
}

#[test]
fn plan_builds_one_unit_per_frame() {
    let frames = extract_frames(DOC);
    let plan = BuildPlan::new(DOC, frames.clone(), true, false);
    let fid = format_id(&preamble_of(DOC), false);
    assert_eq!(plan.format_id, fid);
    assert_eq!(plan.units.len(), 2);
    assert_eq!(plan.units[1], compile_unit(&fid, &plan.preamble, 1, true, &frames[1]));
    assert_eq!(plan.fingerprints[1], fingerprint(&plan.units[1]));
    assert_ne!(plan.fingerprints[0], plan.fingerprints[1]);
}

//! Textual frame extraction and preamble isolation.
//!
//! A frame opens at the start of a line that holds only whitespace before
//! `\begin{frame}`, and closes at the first later line that holds only
//! whitespace before `\end{frame}`. Whitespace here may span several lines,
//! so a frame's text begins at the earliest line start of that blank run.
use vstd::prelude::*;
use crate::text::chars_of;
use crate::text::is_ws;
use crate::text::is_ws_char;
use crate::text::occurs_in_at;

verus! {

broadcast use vstd::string::group_string_axioms;

pub open spec fn begin_frame() -> Seq<char> {
    "\\begin{frame}"@
}

pub open spec fn end_frame() -> Seq<char> {
    "\\end{frame}"@
}

pub open spec fn begin_document() -> Seq<char> {
    "\\begin{document}"@
}

/// The preamble used when a document has no body marker.
pub open spec fn default_preamble() -> Seq<char> {
    "\\documentclass[aspectratio=43,c,xcolor=dvipsnames]{beamer}"@
}

/// `p` is the start of a line of `t`.
pub open spec fn line_start(t: Seq<char>, p: int) -> bool {
    p == 0 || (0 < p <= t.len() && t[p - 1] == '\n')
}

/// `w` occurs in `t` at position `p`.
pub open spec fn occurs_at(t: Seq<char>, p: int, w: Seq<char>) -> bool {
    0 <= p && p + w.len() <= t.len() && t.subrange(p, p + w.len()) == w
}

/// The first position at or after `p` that does not hold whitespace.
pub open spec fn ws_end(t: Seq<char>, p: int) -> int
    decreases t.len() - p,
{
    if p < 0 || p >= t.len() {
        p
    } else if is_ws(t[p]) {
        ws_end(t, p + 1)
    } else {
        p
    }
}

/// At line start `p`, whitespace then the marker `w`.
pub open spec fn marker_line_at(t: Seq<char>, p: int, w: Seq<char>) -> bool {
    line_start(t, p) && occurs_at(t, ws_end(t, p), w)
}

/// The first position at or after `p` where `marker_line_at` holds, or -1.
pub open spec fn next_marker_line(t: Seq<char>, p: int, w: Seq<char>) -> int
    decreases t.len() + 1 - p,
{
    if p < 0 || p > t.len() {
        -1
    } else if marker_line_at(t, p, w) {
        p
    } else {
        next_marker_line(t, p + 1, w)
    }
}

/// The span of the first frame at or after `from`, if any: its start and the
/// position just past its end marker.
pub open spec fn next_frame(t: Seq<char>, from: int) -> Option<(int, int)> {
    let p = next_marker_line(t, from, begin_frame());
    if p < 0 {
        None
    } else {
        let m = next_marker_line(t, ws_end(t, p) + begin_frame().len(), end_frame());
        if m < 0 {
            None
        } else {
            Some((p, ws_end(t, m) + end_frame().len()))
        }
    }
}

/// The spans of all frames of `t` at or after `from`, in order.
pub open spec fn frame_spans(t: Seq<char>, from: int) -> Seq<(int, int)>
    decreases t.len() + 1 - from,
{
    match next_frame(t, from) {
        None => Seq::empty(),
        Some(s) => if from < s.1 <= t.len() + 1 {
            seq![s] + frame_spans(t, s.1)
        } else {
            Seq::empty()
        },
    }
}

/// The texts of the frames of `t`.
pub open spec fn frame_texts(t: Seq<char>) -> Seq<Seq<char>> {
    frame_spans(t, 0).map_values(|s: (int, int)| t.subrange(s.0, s.1))
}

/// The first position at or after `p` where `w` occurs in `t`, or -1.
pub open spec fn find_from(t: Seq<char>, w: Seq<char>, p: int) -> int
    decreases t.len() + 1 - p,
{
    if p < 0 || p > t.len() {
        -1
    } else if occurs_at(t, p, w) {
        p
    } else {
        find_from(t, w, p + 1)
    }
}

/// The text before the first body marker, or the default preamble when the
/// document has none.
pub open spec fn preamble_spec(t: Seq<char>) -> Seq<char> {
    let x = find_from(t, begin_document(), 0);
    if x >= 0 {
        t.subrange(0, x)
    } else {
        default_preamble()
    }
}

/// `find_from` over a vector of characters.
pub fn find_text(t: &Vec<char>, w: &Vec<char>, p: usize) -> (r: Option<usize>)
    ensures
        match r {
            None => find_from(t@, w@, p as int) == -1,
            Some(x) => x as int == find_from(t@, w@, p as int) && p <= x <= t@.len()
                && occurs_at(t@, x as int, w@),
        },
{
    if p > t.len() {
        return None;
    }
    let mut i: usize = p;
    loop
        invariant
            p <= i <= t@.len(),
            find_from(t@, w@, p as int) == find_from(t@, w@, i as int),
        decreases t.len() - i,
    {
        if occurs_in_at(t, i, w) {
            return Some(i);
        }
        if i == t.len() {
            assert(find_from(t@, w@, i + 1) == -1);
            return None;
        }
        i = i + 1;
    }
}

/// The preamble of a document: its text strictly before the first
/// `\begin{document}`, or a minimal default when there is none.
pub fn preamble_of(content: &str) -> (r: String)
    ensures
        r@ == preamble_spec(content@),
{
    let t = chars_of(content);
    let marker = chars_of("\\begin{document}");
    match find_text(&t, &marker, 0) {
        Some(x) => content.substring_char(0, x).to_string(),
        None => "\\documentclass[aspectratio=43,c,xcolor=dvipsnames]{beamer}".to_string(),
    }
}

/// Each span lies in `t` at or after `from`, is non-empty, and ends no later
/// than the next one starts.
pub open spec fn spans_ordered(t: Seq<char>, spans: Seq<(int, int)>, from: int) -> bool {
    &&& forall|k: int| 0 <= k < spans.len() ==> from <= #[trigger] spans[k].0 < spans[k].1 <= t.len()
    &&& forall|k: int| 0 <= k < spans.len() - 1 ==> #[trigger] spans[k].1 <= spans[k + 1].0
}

/// The frames of `spans` joined with the text that lies between them.
pub open spec fn rejoin(t: Seq<char>, spans: Seq<(int, int)>) -> Seq<char>
    decreases spans.len(),
{
    if spans.len() == 0 {
        Seq::empty()
    } else if spans.len() == 1 {
        t.subrange(spans[0].0, spans[0].1)
    } else {
        t.subrange(spans[0].0, spans[0].1) + t.subrange(spans[0].1, spans[1].0) + rejoin(
            t,
            spans.drop_first(),
        )
    }
}

proof fn lemma_ws_end_bounds(t: Seq<char>, p: int)
    requires
        0 <= p <= t.len(),
    ensures
        p <= ws_end(t, p) <= t.len(),
    decreases t.len() - p,
{
    if p < t.len() && is_ws(t[p]) {
        lemma_ws_end_bounds(t, p + 1);
    }
}

proof fn lemma_next_marker_line_bounds(t: Seq<char>, p: int, w: Seq<char>)
    ensures
        next_marker_line(t, p, w) >= 0 ==> p <= next_marker_line(t, p, w) <= t.len()
            && marker_line_at(t, next_marker_line(t, p, w), w),
    decreases t.len() + 1 - p,
{
    if 0 <= p <= t.len() && !marker_line_at(t, p, w) {
        lemma_next_marker_line_bounds(t, p + 1, w);
    }
}

/// A frame found at or after `from` starts there or later and ends within
/// the text, after it starts.
pub proof fn lemma_next_frame_bounds(t: Seq<char>, from: int)
    requires
        0 <= from,
    ensures
        next_frame(t, from) matches Some(s) ==> from <= s.0 < s.1 <= t.len(),
{
    reveal_strlit("\\begin{frame}");
    reveal_strlit("\\end{frame}");
    let p = next_marker_line(t, from, begin_frame());
    lemma_next_marker_line_bounds(t, from, begin_frame());
    if p >= 0 {
        lemma_ws_end_bounds(t, p);
        let m = next_marker_line(t, ws_end(t, p) + begin_frame().len(), end_frame());
        lemma_next_marker_line_bounds(t, ws_end(t, p) + begin_frame().len(), end_frame());
        if m >= 0 {
            lemma_ws_end_bounds(t, m);
        }
    }
}

/// The frame spans from `from` on are ordered.
pub proof fn lemma_frame_spans_ordered(t: Seq<char>, from: int)
    requires
        0 <= from,
    ensures
        spans_ordered(t, frame_spans(t, from), from),
    decreases t.len() + 1 - from,
{
    lemma_next_frame_bounds(t, from);
    if let Some(s) = next_frame(t, from) {
        lemma_frame_spans_ordered(t, s.1);
        let rest = frame_spans(t, s.1);
        let all = frame_spans(t, from);
        assert(all == seq![s] + rest);
        assert forall|k: int| 0 <= k < all.len() - 1 implies #[trigger] all[k].1 <= all[k + 1].0 by {
            if k > 0 {
                assert(all[k] == rest[k - 1]);
                assert(all[k + 1] == rest[k]);
            }
        }
        assert forall|k: int| 0 <= k < all.len() implies from <= #[trigger] all[k].0 < all[k].1 <= t.len() by {
            if k > 0 {
                assert(all[k] == rest[k - 1]);
            }
        }
    }
}

/// Ordered spans, rejoined with the text between them, give back the text
/// from the first start to the last end.
pub proof fn lemma_rejoin(t: Seq<char>, spans: Seq<(int, int)>, from: int)
    requires
        0 <= from,
        spans_ordered(t, spans, from),
        spans.len() > 0,
    ensures
        spans[0].0 < spans[spans.len() - 1].1,
        rejoin(t, spans) == t.subrange(spans[0].0, spans[spans.len() - 1].1),
    decreases spans.len(),
{
    assert(from <= spans[0].0 < spans[0].1 <= t.len());
    if spans.len() > 1 {
        let rest = spans.drop_first();
        assert(spans_ordered(t, rest, from)) by {
            assert forall|k: int| 0 <= k < rest.len() - 1 implies #[trigger] rest[k].1 <= rest[k + 1].0 by {
                assert(rest[k] == spans[k + 1]);
                assert(rest[k + 1] == spans[k + 2]);
            }
            assert forall|k: int| 0 <= k < rest.len() implies from <= #[trigger] rest[k].0 < rest[k].1 <= t.len() by {
                assert(rest[k] == spans[k + 1]);
            }
        }
        lemma_rejoin(t, rest, from);
        assert(spans[0].1 <= spans[1].0);
        assert(rest[0] == spans[1]);
        assert(rest[rest.len() - 1] == spans[spans.len() - 1]);
        let a = spans[0].0;
        let b = spans[0].1;
        let c = spans[1].0;
        let e = spans[spans.len() - 1].1;
        assert(from <= spans[0].0 < spans[0].1 <= t.len());
        assert(from <= spans[spans.len() - 1].0 < spans[spans.len() - 1].1 <= t.len());
        assert(0 <= a < b <= c < e <= t.len());
        assert(t.subrange(a, b) + t.subrange(b, c) + t.subrange(c, e) =~= t.subrange(a, e));
    }
}

/// The textual scan returns the frames in order, each the exact text of its
/// span, the spans do not overlap, and the frames joined with the text
/// between them give back the document from the first frame's start to the
/// last frame's end.
pub proof fn lemma_extraction_round_trip(t: Seq<char>)
    ensures
        spans_ordered(t, frame_spans(t, 0), 0),
        frame_texts(t).len() == frame_spans(t, 0).len(),
        forall|k: int|
            0 <= k < frame_spans(t, 0).len() ==> #[trigger] frame_texts(t)[k] == t.subrange(
                frame_spans(t, 0)[k].0,
                frame_spans(t, 0)[k].1,
            ),
        frame_spans(t, 0).len() > 0 ==> rejoin(t, frame_spans(t, 0)) == t.subrange(
            frame_spans(t, 0)[0].0,
            frame_spans(t, 0)[frame_spans(t, 0).len() - 1].1,
        ),
{
    lemma_frame_spans_ordered(t, 0);
    if frame_spans(t, 0).len() > 0 {
        lemma_rejoin(t, frame_spans(t, 0), 0);
    }
}

/// A text is a frame environment when it starts, after whitespace, with the
/// frame's begin marker.
pub open spec fn is_frame_env(t: Seq<char>) -> bool {
    occurs_at(t, ws_end(t, 0), begin_frame())
}

/// Whether `s`, a syntax node's text, is a frame environment.
pub fn is_frame_environment(s: &str) -> (r: bool)
    ensures
        r == is_frame_env(s@),
{
    let t = chars_of(s);
    let open = chars_of("\\begin{frame}");
    let b = skip_ws(&t, 0);
    occurs_in_at(&t, b, &open)
}

/// `ws_end` over a vector of characters.
fn skip_ws(t: &Vec<char>, p: usize) -> (r: usize)
    requires
        p <= t@.len(),
    ensures
        r as int == ws_end(t@, p as int),
        p <= r <= t@.len(),
{
    let mut i: usize = p;
    while i < t.len() && is_ws_char(t[i])
        invariant
            p <= i <= t@.len(),
            ws_end(t@, p as int) == ws_end(t@, i as int),
        decreases t.len() - i,
    {
        i = i + 1;
    }
    i
}

/// `marker_line_at` over a vector of characters.
fn is_marker_line(t: &Vec<char>, p: usize, w: &Vec<char>) -> (r: bool)
    requires
        p <= t@.len(),
    ensures
        r == marker_line_at(t@, p as int, w@),
{
    if p != 0 && t[p - 1] != '\n' {
        return false;
    }
    let b = skip_ws(t, p);
    occurs_in_at(t, b, w)
}

/// `next_marker_line` over a vector of characters.
fn find_marker_line(t: &Vec<char>, p: usize, w: &Vec<char>) -> (r: Option<usize>)
    ensures
        match r {
            None => next_marker_line(t@, p as int, w@) == -1,
            Some(x) => x as int == next_marker_line(t@, p as int, w@) && p <= x <= t@.len()
                && marker_line_at(t@, x as int, w@),
        },
{
    if p > t.len() {
        return None;
    }
    let mut i: usize = p;
    loop
        invariant
            p <= i <= t@.len(),
            next_marker_line(t@, p as int, w@) == next_marker_line(t@, i as int, w@),
        decreases t.len() - i,
    {
        if is_marker_line(t, i, w) {
            return Some(i);
        }
        if i == t.len() {
            assert(next_marker_line(t@, i + 1, w@) == -1);
            return None;
        }
        i = i + 1;
    }
}

/// `next_frame` over a vector of characters.
fn find_frame(t: &Vec<char>, from: usize, open: &Vec<char>, close: &Vec<char>) -> (r: Option<(usize, usize)>)
    requires
        open@ == begin_frame(),
        close@ == end_frame(),
    ensures
        match r {
            None => next_frame(t@, from as int) is None,
            Some(s) => next_frame(t@, from as int) == Some((s.0 as int, s.1 as int))
                && from <= s.0 < s.1 <= t@.len(),
        },
{
    proof {
        reveal_strlit("\\begin{frame}");
        reveal_strlit("\\end{frame}");
    }
    match find_marker_line(t, from, open) {
        None => None,
        Some(p) => {
            let b = skip_ws(t, p);
            if t.len() - b < open.len() {
                assert(next_marker_line(t@, ws_end(t@, p as int) + begin_frame().len(), end_frame()) == -1);
                return None;
            }
            match find_marker_line(t, b + open.len(), close) {
                None => None,
                Some(m) => {
                    let e = skip_ws(t, m);
                    assert(occurs_at(t@, e as int, end_frame()));
                    Some((p, e + close.len()))
                },
            }
        },
    }
}

/// Frames of `content` found by the textual scan, in order, each the exact
/// text of the document from its first line through its end marker.
pub fn extract_frames(content: &str) -> (r: Vec<String>)
    ensures
        r@.len() == frame_texts(content@).len(),
        forall|k: int| 0 <= k < r@.len() ==> #[trigger] r@[k]@ == frame_texts(content@)[k],
{
    let t = chars_of(content);
    let open = chars_of("\\begin{frame}");
    let close = chars_of("\\end{frame}");
    let mut out: Vec<String> = Vec::new();
    let mut pos: usize = 0;
    let ghost mut done: Seq<(int, int)> = Seq::empty();
    loop
        invariant
            t@ == content@,
            open@ == begin_frame(),
            close@ == end_frame(),
            pos <= t@.len(),
            done + frame_spans(t@, pos as int) == frame_spans(t@, 0),
            out@.len() == done.len(),
            forall|k: int| 0 <= k < done.len() ==> #[trigger] out@[k]@ == t@.subrange(done[k].0, done[k].1),
        ensures
            done == frame_spans(t@, 0),
            out@.len() == done.len(),
            forall|k: int| 0 <= k < done.len() ==> #[trigger] out@[k]@ == t@.subrange(done[k].0, done[k].1),
        decreases t@.len() - pos,
    {
        match find_frame(&t, pos, &open, &close) {
            None => {
                assert(done + frame_spans(t@, pos as int) =~= done);
                break;
            },
            Some(s) => {
                let frame = content.substring_char(s.0, s.1).to_string();
                out.push(frame);
                proof {
                    let sp = (s.0 as int, s.1 as int);
                    assert(frame_spans(t@, pos as int) == seq![sp] + frame_spans(t@, s.1 as int));
                    assert(done + frame_spans(t@, pos as int) =~= done.push(sp) + frame_spans(t@, s.1 as int));
                    done = done.push(sp);
                }
                pos = s.1;
            },
        }
    }
    out
}

} // verus!

//! Stitch mode: the source document with each frame replaced by an
//! embedding of its precompiled artifact.
use vstd::prelude::*;
use crate::extract::find_from;
use crate::extract::occurs_at;
use crate::text::chars_of;
use crate::text::push_chars;
use crate::text::string_from_chars;
use crate::extract::find_text;

verus! {

broadcast use vstd::string::group_string_axioms;

/// `t` with the first occurrence of `pat` replaced by `rep`; `t` itself when
/// `pat` does not occur.
pub open spec fn replace_first(t: Seq<char>, pat: Seq<char>, rep: Seq<char>) -> Seq<char> {
    let x = find_from(t, pat, 0);
    if x >= 0 {
        t.subrange(0, x) + rep + t.subrange(x + pat.len(), t.len() as int)
    } else {
        t
    }
}

/// The directive that shows a frame's artifact on a blank background.
pub open spec fn embed_directive(fp: Seq<char>) -> Seq<char> {
    "{\\setbeamercolor{background canvas}{bg=}\n\\includepdf[pages=-]{"@ + fp + ".pdf}\n}"@
}

/// The stitched document after the first `n` frames were replaced.
pub open spec fn stitched_upto(
    content: Seq<char>,
    frames: Seq<Seq<char>>,
    fps: Seq<Seq<char>>,
    n: nat,
) -> Seq<char>
    decreases n,
{
    if n == 0 {
        "\\RequirePackage{pdfpages}\n"@ + content
    } else {
        replace_first(
            stitched_upto(content, frames, fps, (n - 1) as nat),
            frames[n - 1],
            embed_directive(fps[n - 1]),
        )
    }
}

/// The stitched document: every frame (paired in order with a fingerprint)
/// replaced once.
pub open spec fn stitch_spec(content: Seq<char>, frames: Seq<Seq<char>>, fps: Seq<Seq<char>>) -> Seq<char> {
    let n = if frames.len() <= fps.len() {
        frames.len()
    } else {
        fps.len()
    };
    stitched_upto(content, frames, fps, n)
}

proof fn lemma_find_from_first(t: Seq<char>, w: Seq<char>, p: int, x: int)
    requires
        0 <= p <= x,
        occurs_at(t, x, w),
        forall|y: int| p <= y < x ==> !occurs_at(t, y, w),
    ensures
        find_from(t, w, p) == x,
    decreases x - p,
{
    if p < x {
        lemma_find_from_first(t, w, p + 1, x);
    }
}

/// Where `pat` occurs in `t` only at `x`, replacing its first occurrence
/// replaces exactly that one: the text before `x` and the text after the
/// occurrence are kept as they were, with `rep` between them.
pub proof fn lemma_replace_unique(t: Seq<char>, pat: Seq<char>, rep: Seq<char>, x: int)
    requires
        occurs_at(t, x, pat),
        forall|y: int| y != x ==> !occurs_at(t, y, pat),
    ensures
        replace_first(t, pat, rep) == t.subrange(0, x) + rep + t.subrange(x + pat.len(), t.len() as int),
        replace_first(t, pat, rep).subrange(0, x) == t.subrange(0, x),
        replace_first(t, pat, rep).subrange(x + rep.len(), replace_first(t, pat, rep).len() as int)
            == t.subrange(x + pat.len(), t.len() as int),
{
    lemma_find_from_first(t, pat, 0, x);
    let r = replace_first(t, pat, rep);
    assert(r.subrange(0, x) =~= t.subrange(0, x));
    assert(r.subrange(x + rep.len(), r.len() as int) =~= t.subrange(x + pat.len(), t.len() as int));
}

/// Replace the first occurrence of `pat` in `t` by `rep`.
pub fn replace_first_in(t: &Vec<char>, pat: &Vec<char>, rep: &Vec<char>) -> (r: Vec<char>)
    ensures
        r@ == replace_first(t@, pat@, rep@),
{
    match find_text(t, pat, 0) {
        None => t.clone(),
        Some(x) => {
            let mut out: Vec<char> = Vec::new();
            let mut i: usize = 0;
            while i < x
                invariant
                    x <= t@.len(),
                    i <= x,
                    out@ == t@.subrange(0, i as int),
                decreases x - i,
            {
                out.push(t[i]);
                assert(out@ =~= t@.subrange(0, i as int + 1));
                i = i + 1;
            }
            let ghost before = out@;
            let mut k: usize = 0;
            while k < rep.len()
                invariant
                    k <= rep@.len(),
                    out@ == before + rep@.subrange(0, k as int),
                decreases rep.len() - k,
            {
                out.push(rep[k]);
                assert(out@ =~= before + rep@.subrange(0, k as int + 1));
                k = k + 1;
            }
            assert(rep@.subrange(0, rep@.len() as int) =~= rep@);
            let ghost mid = out@;
            proof {
                assert(occurs_at(t@, x as int, pat@));
                assert(x + pat@.len() <= t@.len());
            }
            let tl = t.len();
            assert(x + pat@.len() <= tl);
            let mut j: usize = x + pat.len();
            let ghost s = j;
            while j < t.len()
                invariant
                    s <= j <= t@.len(),
                    out@ == mid + t@.subrange(s as int, j as int),
                decreases t.len() - j,
            {
                out.push(t[j]);
                assert(out@ =~= mid + t@.subrange(s as int, j as int + 1));
                j = j + 1;
            }
            out
        },
    }
}

/// The stitched document: `\RequirePackage{pdfpages}` and a line break,
/// then `content` in which, in order, the first occurrence of each frame is
/// replaced by the directive that embeds the artifact named by its
/// fingerprint.
pub fn stitch(content: &str, frames: &Vec<String>, fingerprints: &Vec<String>) -> (r: String)
    ensures
        r@ == stitch_spec(
            content@,
            frames@.map_values(|f: String| f@),
            fingerprints@.map_values(|f: String| f@),
        ),
{
    let ghost fr = frames@.map_values(|f: String| f@);
    let ghost fp = fingerprints@.map_values(|f: String| f@);
    let n: usize = if frames.len() <= fingerprints.len() {
        frames.len()
    } else {
        fingerprints.len()
    };
    let mut cur: Vec<char> = Vec::new();
    push_chars(&mut cur, "\\RequirePackage{pdfpages}\n");
    push_chars(&mut cur, content);
    let mut k: usize = 0;
    while k < n
        invariant
            n <= frames@.len(),
            n <= fingerprints@.len(),
            k <= n,
            fr == frames@.map_values(|f: String| f@),
            fp == fingerprints@.map_values(|f: String| f@),
            cur@ == stitched_upto(content@, fr, fp, k as nat),
        decreases n - k,
    {
        let pat = chars_of(frames[k].as_str());
        let mut rep: Vec<char> = Vec::new();
        push_chars(&mut rep, "{\\setbeamercolor{background canvas}{bg=}\n\\includepdf[pages=-]{");
        push_chars(&mut rep, fingerprints[k].as_str());
        push_chars(&mut rep, ".pdf}\n}");
        assert(rep@ =~= embed_directive(fp[k as int]));
        cur = replace_first_in(&cur, &pat, &rep);
        k = k + 1;
    }
    string_from_chars(&cur)
}

} // verus!

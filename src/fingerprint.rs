//! Content fingerprints, format identifiers and compile units.
use vstd::prelude::*;
use crate::text::push_chars;
use crate::text::string_from_chars;

verus! {

broadcast use vstd::string::group_string_axioms;

/// The MD5 digest of the UTF-8 encoding of a text.
pub uninterp spec fn md5_digest(s: Seq<char>) -> Seq<u8>;

/// Relies on md5::compute: the 16-byte digest of the text's UTF-8 bytes,
/// which depends on those bytes alone.
#[verifier::external_body]
fn md5_of(s: &str) -> (r: [u8; 16])
    ensures
        r@ == md5_digest(s@),
{
    md5::compute(s.as_bytes()).0
}

/// Lower-case hexadecimal digit of `n < 16`.
pub open spec fn hex_digit(n: int) -> char {
    if n < 10 {
        ((n + 48) as u8) as char
    } else {
        ((n + 87) as u8) as char
    }
}

/// Two lower-case hexadecimal digits per byte, most significant first.
pub open spec fn hex_spec(b: Seq<u8>) -> Seq<char>
    decreases b.len(),
{
    if b.len() == 0 {
        Seq::empty()
    } else {
        let x = b.last() as int;
        hex_spec(b.drop_last()) + seq![hex_digit(x / 16), hex_digit(x % 16)]
    }
}

/// Decimal digit of `n < 10`.
pub open spec fn dec_digit(n: int) -> char {
    ((n + 48) as u8) as char
}

/// Decimal notation of `n`, without leading zeros.
pub open spec fn decimal(n: nat) -> Seq<char>
    decreases n,
{
    if n < 10 {
        seq![dec_digit(n as int)]
    } else {
        decimal(n / 10).push(dec_digit((n % 10) as int))
    }
}

/// Fingerprint of a text: the hexadecimal form of its MD5 digest.
pub open spec fn fingerprint_spec(s: Seq<char>) -> Seq<char> {
    hex_spec(md5_digest(s))
}

/// How a boolean flag is written in a format identifier.
pub open spec fn flag_text(b: bool) -> Seq<char> {
    if b {
        "true"@
    } else {
        "false"@
    }
}

/// Format identifier of a preamble and draft flag.
pub open spec fn format_id_spec(preamble: Seq<char>, draft: bool) -> Seq<char> {
    fingerprint_spec(preamble) + "_"@ + flag_text(draft)
}

/// The standalone document that renders one frame.
pub open spec fn compile_unit_spec(
    format_id: Seq<char>,
    preamble: Seq<char>,
    index: nat,
    numbering: bool,
    frame: Seq<char>,
) -> Seq<char> {
    let shown: nat = if numbering {
        index
    } else {
        0
    };
    "%&"@ + format_id + "\n"@ + preamble + "\n\\begin{document}\n\\addtocounter{framenumber}{"@
        + decimal(shown) + "}\n"@ + frame + "\n\\end{document}\n"@
}

/// The fingerprint of a compile unit depends only on the format identifier,
/// the preamble, the frame text and the numbering flag, and, when numbering
/// is off, not on the frame's index.
pub proof fn lemma_unit_fingerprint_deterministic(
    format_id: Seq<char>,
    preamble: Seq<char>,
    frame: Seq<char>,
    numbering: bool,
    i: nat,
    j: nat,
)
    requires
        !numbering || i == j,
    ensures
        fingerprint_spec(compile_unit_spec(format_id, preamble, i, numbering, frame))
            == fingerprint_spec(compile_unit_spec(format_id, preamble, j, numbering, frame)),
{
}

fn push_hex_digit(out: &mut Vec<char>, n: u8)
    requires
        n < 16,
    ensures
        final(out)@ == old(out)@.push(hex_digit(n as int)),
{
    if n < 10 {
        out.push(((n + 48) as u8) as char);
    } else {
        out.push(((n + 87) as u8) as char);
    }
}

/// Append the hexadecimal form of `b` to `out`.
fn push_hex(out: &mut Vec<char>, b: &[u8; 16])
    ensures
        final(out)@ == old(out)@ + hex_spec(b@),
{
    let ghost start = out@;
    let mut i: usize = 0;
    while i < 16
        invariant
            0 <= i <= 16,
            b@.len() == 16,
            out@ == start + hex_spec(b@.subrange(0, i as int)),
        decreases 16 - i,
    {
        let x = b[i];
        proof {
            let pre = b@.subrange(0, i as int + 1);
            assert(pre.drop_last() =~= b@.subrange(0, i as int));
            assert(pre.last() == x);
        }
        push_hex_digit(out, x / 16);
        push_hex_digit(out, x % 16);
        proof {
            let pre = b@.subrange(0, i as int + 1);
            assert(out@ =~= start + hex_spec(pre));
        }
        i = i + 1;
    }
    assert(b@.subrange(0, 16) =~= b@);
}

/// Append the decimal notation of `n` to `out`.
fn push_decimal(out: &mut Vec<char>, n: usize)
    ensures
        final(out)@ == old(out)@ + decimal(n as nat),
    decreases n,
{
    if n >= 10 {
        push_decimal(out, n / 10);
    }
    let d = (n % 10) as u8;
    out.push(((d + 48) as u8) as char);
    assert(final(out)@ =~= old(out)@ + decimal(n as nat));
}

/// Fingerprint of a text: 32 lower-case hexadecimal digits of its MD5 digest.
pub fn fingerprint(s: &str) -> (r: String)
    ensures
        r@ == fingerprint_spec(s@),
{
    let d = md5_of(s);
    let mut out: Vec<char> = Vec::new();
    push_hex(&mut out, &d);
    assert(out@ =~= hex_spec(d@));
    string_from_chars(&out)
}

/// Identifier of the precompiled format of a preamble: its fingerprint, an
/// underscore and the draft flag.
pub fn format_id(preamble: &str, draft: bool) -> (r: String)
    ensures
        r@ == format_id_spec(preamble@, draft),
{
    let d = md5_of(preamble);
    let mut out: Vec<char> = Vec::new();
    push_hex(&mut out, &d);
    push_chars(&mut out, "_");
    if draft {
        push_chars(&mut out, "true");
    } else {
        push_chars(&mut out, "false");
    }
    proof {
        reveal_strlit("true");
        reveal_strlit("false");
    }
    assert(out@ =~= format_id_spec(preamble@, draft));
    string_from_chars(&out)
}

/// The standalone document for frame `index`: a header naming the format,
/// the preamble, the body markers, a frame-counter correction (the index
/// when `numbering` is set, else zero) and the frame text.
pub fn compile_unit(format_id: &str, preamble: &str, index: usize, numbering: bool, frame: &str) -> (r: String)
    ensures
        r@ == compile_unit_spec(format_id@, preamble@, index as nat, numbering, frame@),
{
    let mut out: Vec<char> = Vec::new();
    push_chars(&mut out, "%&");
    push_chars(&mut out, format_id);
    push_chars(&mut out, "\n");
    push_chars(&mut out, preamble);
    push_chars(&mut out, "\n\\begin{document}\n\\addtocounter{framenumber}{");
    if numbering {
        push_decimal(&mut out, index);
    } else {
        push_decimal(&mut out, 0);
    }
    push_chars(&mut out, "}\n");
    push_chars(&mut out, frame);
    push_chars(&mut out, "\n\\end{document}\n");
    assert(out@ =~= compile_unit_spec(format_id@, preamble@, index as nat, numbering, frame@));
    string_from_chars(&out)
}

} // verus!

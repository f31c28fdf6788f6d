//! The syllable boundary finder: cuts Myanmar text into the spans that the
//! decomposer reads one at a time.
use vstd::prelude::*;
use vstd::string::StrSliceExecFns;
use crate::text::chars_of;

verus! {

/// A Myanmar consonant letter, က to အ.
pub open spec fn is_consonant_letter(c: char) -> bool {
    0x1000 <= c as u32 <= 0x1021
}

/// A white-space character, as Unicode's White_Space property lists them.
pub open spec fn is_white_space(c: char) -> bool {
    let v = c as u32;
    ||| 0x09 <= v <= 0x0D
    ||| v == 0x20 || v == 0x85 || v == 0xA0 || v == 0x1680
    ||| 0x2000 <= v <= 0x200A
    ||| v == 0x2028 || v == 0x2029 || v == 0x202F || v == 0x205F || v == 0x3000
}

/// A character that always starts a span of its own: an ASCII letter, digit
/// or punctuation mark, an independent vowel (ဣ ဤ ဥ ဦ ဧ ဩ ဪ), a Myanmar
/// digit, one of the symbols ၌ ၍ ၏, the marks ၊ ။, or white space.
pub open spec fn is_stand_alone(c: char) -> bool {
    let v = c as u32;
    ||| 0x21 <= v <= 0x7E
    ||| v == 0x1023 || v == 0x1024 || v == 0x1025 || v == 0x1026 || v == 0x1027
        || v == 0x1029 || v == 0x102A
    ||| 0x1040 <= v <= 0x1049
    ||| 0x104A <= v <= 0x104D || v == 0x104F
    ||| is_white_space(c)
}

/// Whether a span starts at `cs[i]`: a consonant letter that does not stand
/// below a stack sign ္ and is not followed by the asat ် or a stack sign,
/// or a character that always starts a span.
pub open spec fn is_boundary(cs: Seq<char>, i: int) -> bool {
    &&& 0 <= i < cs.len()
    &&& {
        ||| (is_consonant_letter(cs[i]) && !(i > 0 && cs[i - 1] == '\u{1039}') && !(i + 1 < cs.len()
            && (cs[i + 1] == '\u{103A}' || cs[i + 1] == '\u{1039}')))
        ||| is_stand_alone(cs[i])
    }
}

/// The first boundary at or after `j`, or the end of the text.
pub open spec fn next_boundary(cs: Seq<char>, j: int) -> int
    decreases cs.len() - j,
{
    if j >= cs.len() {
        cs.len() as int
    } else if is_boundary(cs, j) {
        j
    } else {
        next_boundary(cs, j + 1)
    }
}

/// The spans from the boundary `i` on: each runs from a boundary to the
/// next one, the last to the end of the text.
pub open spec fn spans_from(cs: Seq<char>, i: int) -> Seq<Seq<char>>
    decreases cs.len() - i,
    via spans_from_decreases
{
    if i < 0 || i >= cs.len() {
        Seq::empty()
    } else {
        let e = next_boundary(cs, i + 1);
        seq![cs.subrange(i, e)] + spans_from(cs, e)
    }
}

/// The spans of a text, cut at each boundary: the first runs from the start
/// of the text to the first boundary after it, so no character is left out.
pub open spec fn spec_split_syllables(cs: Seq<char>) -> Seq<Seq<char>> {
    spans_from(cs, 0)
}

proof fn lemma_next_boundary_bounds(cs: Seq<char>, j: int)
    requires
        0 <= j,
    ensures
        j <= next_boundary(cs, j) <= cs.len() || (j > cs.len() && next_boundary(cs, j) == cs.len()),
    decreases cs.len() - j,
{
    if j < cs.len() && !is_boundary(cs, j) {
        lemma_next_boundary_bounds(cs, j + 1);
    }
}

#[via_fn]
proof fn spans_from_decreases(cs: Seq<char>, i: int) {
    if 0 <= i < cs.len() {
        lemma_next_boundary_bounds(cs, i + 1);
    }
}

proof fn lemma_spans_flatten(cs: Seq<char>, i: int)
    requires
        0 <= i <= cs.len(),
    ensures
        spans_from(cs, i).flatten() == cs.subrange(i, cs.len() as int),
    decreases cs.len() - i,
{
    if i < cs.len() {
        let e = next_boundary(cs, i + 1);
        lemma_next_boundary_bounds(cs, i + 1);
        lemma_spans_flatten(cs, e);
        let ss = spans_from(cs, i);
        assert(ss.drop_first() =~= spans_from(cs, e));
        assert(ss.first() == cs.subrange(i, e));
        assert(cs.subrange(i, e) + cs.subrange(e, cs.len() as int) =~= cs.subrange(i, cs.len() as int));
    } else {
        assert(cs.subrange(i, cs.len() as int) =~= Seq::<char>::empty());
    }
}

/// The spans of a text partition it: laid end to end they give the text
/// back.
pub proof fn lemma_split_partition(cs: Seq<char>)
    ensures
        spec_split_syllables(cs).flatten() == cs,
{
    lemma_spans_flatten(cs, 0);
    assert(cs.subrange(0, cs.len() as int) =~= cs);
}

fn is_boundary_at(cs: &Vec<char>, i: usize) -> (r: bool)
    requires
        i < cs@.len(),
    ensures
        r == is_boundary(cs@, i as int),
{
    let len = cs.len();
    let c = cs[i];
    let v = c as u32;
    let consonant = 0x1000 <= v && v <= 0x1021;
    let below_stack = i > 0 && cs[i - 1] == '\u{1039}';
    let before_mark = i + 1 < cs.len() && (cs[i + 1] == '\u{103A}' || cs[i + 1] == '\u{1039}');
    let white = (0x09 <= v && v <= 0x0D) || v == 0x20 || v == 0x85 || v == 0xA0 || v == 0x1680
        || (0x2000 <= v && v <= 0x200A) || v == 0x2028 || v == 0x2029 || v == 0x202F || v == 0x205F
        || v == 0x3000;
    let alone = (0x21 <= v && v <= 0x7E) || v == 0x1023 || v == 0x1024 || v == 0x1025 || v == 0x1026
        || v == 0x1027 || v == 0x1029 || v == 0x102A || (0x1040 <= v && v <= 0x1049) || (0x104A
        <= v && v <= 0x104D) || v == 0x104F || white;
    (consonant && !below_stack && !before_mark) || alone
}

/// Cuts `input` into syllable spans. A span starts at each consonant letter
/// that is not stacked below another and does not close a syllable (no
/// asat or stack sign after it), and at each character that always stands
/// alone (ASCII letters, digits and punctuation, independent vowels, Myanmar
/// digits and punctuation, white space); it runs to the next such start, the
/// last one to the end of the text. The text before the first such start is
/// a span of its own, so the spans laid end to end give the input back. A
/// stacked cluster stays in one span: တက္ကသိုလ် gives တက္က and သိုလ်.
pub fn split_syllables<'i>(input: &'i str) -> (r: Vec<&'i str>)
    ensures
        r@.map_values(|s: &str| s@) == spec_split_syllables(input@),
        r@.map_values(|s: &str| s@).flatten() == input@,
{
    let cs = chars_of(input);
    let n = cs.len();
    let mut out: Vec<&'i str> = Vec::new();
    let mut cur: Option<usize> = None;
    let mut j: usize = 0;
    while j < n
        invariant
            n == cs@.len(),
            cs@ == input@,
            j <= n,
            match cur {
                None => out@.len() == 0 && j == 0,
                Some(s) => s < j && next_boundary(cs@, s + 1)
                    == next_boundary(cs@, j as int) && out@.map_values(|t: &str| t@) + spans_from(
                    cs@,
                    s as int,
                ) == spec_split_syllables(cs@),
            },
        decreases n - j,
    {
        if j == 0 || is_boundary_at(&cs, j) {
            match cur {
                None => {},
                Some(s) => {
                    let span = input.substring_char(s, j);
                    proof {
                        let ghost old_out = out@;
                        let e = next_boundary(cs@, s + 1);
                        assert(e == j);
                        assert(spans_from(cs@, s as int) == seq![cs@.subrange(s as int, j as int)]
                            + spans_from(cs@, j as int));
                    }
                    let ghost before = out@.map_values(|t: &str| t@);
                    out.push(span);
                    assert(out@.map_values(|t: &str| t@) =~= before.push(span@));
                    assert(before + spans_from(cs@, s as int) =~= out@.map_values(|t: &str| t@)
                        + spans_from(cs@, j as int));
                },
            }
            cur = Some(j);
        }
        j = j + 1;
    }
    match cur {
        None => {
            assert(out@.map_values(|t: &str| t@) =~= spec_split_syllables(cs@));
        },
        Some(s) => {
            let span = input.substring_char(s, n);
            let ghost before = out@.map_values(|t: &str| t@);
            proof {
                assert(next_boundary(cs@, s + 1) == n);
                assert(spans_from(cs@, s as int) == seq![cs@.subrange(s as int, n as int)] + spans_from(cs@, n as int));
                assert(spans_from(cs@, n as int) =~= Seq::<Seq<char>>::empty());
            }
            out.push(span);
            assert(out@.map_values(|t: &str| t@) =~= before.push(span@));
            assert(out@.map_values(|t: &str| t@) =~= before + spans_from(cs@, s as int));
        },
    }
    proof {
        lemma_split_partition(input@);
    }
    out
}

} // verus!

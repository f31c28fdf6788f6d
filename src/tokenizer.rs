//! The MLCTS tokenizer: a longest-match lexer that cuts MLCTS text into
//! syllables, white-space runs and unknown characters, with byte offsets
//! into the input.
use vstd::prelude::*;
use crate::phoneme::{BasicConsonant, BasicVowel, Consonant, MedialDiacritic, Syllable, Tone, Virama, Vowel};
use crate::text::{
    at, chars_of, lemma_encode_concat, lemma_prefix_char_boundary, lemma_utf8_len_positive, peek,
    str_byte_len, utf8_len, utf8_width,
};
use vstd::string::StringSliceAdditionalSpecFns;
use vstd::utf8::{encode_utf8, is_char_boundary};
use vstd::utf8::{is_ascii_chars, is_ascii_chars_encode_utf8};

verus! {

/// The consonant letter at the start of `cs` and its length; the digraphs
/// hk, hc, ht, hp, bh, dh, gh, jh, ny and ng come before single letters.
#[verifier::opaque]
pub open spec fn spec_consonant_letter(cs: Seq<char>) -> Option<(BasicConsonant, nat)> {
    match (at(cs, 0), at(cs, 1)) {
        (Some('h'), Some('k')) => Some((BasicConsonant::Hk, 2)),
        (Some('h'), Some('c')) => Some((BasicConsonant::Hc, 2)),
        (Some('h'), Some('t')) => Some((BasicConsonant::Ht, 2)),
        (Some('h'), Some('p')) => Some((BasicConsonant::Hp, 2)),
        (Some('b'), Some('h')) => Some((BasicConsonant::Bh, 2)),
        (Some('d'), Some('h')) => Some((BasicConsonant::Dh, 2)),
        (Some('g'), Some('h')) => Some((BasicConsonant::Gh, 2)),
        (Some('j'), Some('h')) => Some((BasicConsonant::Jh, 2)),
        (Some('n'), Some('y')) => Some((BasicConsonant::Ny, 2)),
        (Some('n'), Some('g')) => Some((BasicConsonant::Ng, 2)),
        (Some('k'), _) => Some((BasicConsonant::K, 1)),
        (Some('g'), _) => Some((BasicConsonant::G, 1)),
        (Some('c'), _) => Some((BasicConsonant::C, 1)),
        (Some('j'), _) => Some((BasicConsonant::J, 1)),
        (Some('t'), _) => Some((BasicConsonant::T, 1)),
        (Some('d'), _) => Some((BasicConsonant::D, 1)),
        (Some('n'), _) => Some((BasicConsonant::N, 1)),
        (Some('p'), _) => Some((BasicConsonant::P, 1)),
        (Some('b'), _) => Some((BasicConsonant::B, 1)),
        (Some('m'), _) => Some((BasicConsonant::M, 1)),
        (Some('y'), _) => Some((BasicConsonant::Y, 1)),
        (Some('r'), _) => Some((BasicConsonant::R, 1)),
        (Some('l'), _) => Some((BasicConsonant::L, 1)),
        (Some('w'), _) => Some((BasicConsonant::W, 1)),
        (Some('s'), _) => Some((BasicConsonant::S, 1)),
        (Some('h'), _) => Some((BasicConsonant::H, 1)),
        (Some('a'), _) => Some((BasicConsonant::A, 1)),
        _ => None,
    }
}

/// The medial letters after a consonant letter: `y` or `r`, then `w`.
#[verifier::opaque]
pub open spec fn spec_medial_tail(cs: Seq<char>) -> (Option<MedialDiacritic>, nat) {
    match (at(cs, 0), at(cs, 1)) {
        (Some('y'), Some('w')) => (Some(MedialDiacritic::Yw), 2),
        (Some('r'), Some('w')) => (Some(MedialDiacritic::Rw), 2),
        (Some('y'), _) => (Some(MedialDiacritic::Y), 1),
        (Some('r'), _) => (Some(MedialDiacritic::R), 1),
        (Some('w'), _) => (Some(MedialDiacritic::W), 1),
        _ => (None, 0),
    }
}

/// The vowel letters at the start of `cs`; ai, au and ui come before a, i,
/// u and e.
#[verifier::opaque]
pub open spec fn spec_vowel_letters(cs: Seq<char>) -> Option<(BasicVowel, nat)> {
    match (at(cs, 0), at(cs, 1)) {
        (Some('a'), Some('i')) => Some((BasicVowel::Ai, 2)),
        (Some('a'), Some('u')) => Some((BasicVowel::Au, 2)),
        (Some('u'), Some('i')) => Some((BasicVowel::Ui, 2)),
        (Some('a'), _) => Some((BasicVowel::A, 1)),
        (Some('i'), _) => Some((BasicVowel::I, 1)),
        (Some('u'), _) => Some((BasicVowel::U, 1)),
        (Some('e'), _) => Some((BasicVowel::E, 1)),
        _ => None,
    }
}

/// The spelling of a final at the start of `cs`; ng, ny and ht come before
/// single letters.
#[verifier::opaque]
pub open spec fn spec_final_letters(cs: Seq<char>) -> Option<(Virama, nat)> {
    match (at(cs, 0), at(cs, 1)) {
        (Some('n'), Some('g')) => Some((Virama::Ng, 2)),
        (Some('n'), Some('y')) => Some((Virama::Ny, 2)),
        (Some('h'), Some('t')) => Some((Virama::Ht, 2)),
        (Some('k'), _) => Some((Virama::K, 1)),
        (Some('g'), _) => Some((Virama::G, 1)),
        (Some('c'), _) => Some((Virama::C, 1)),
        (Some('j'), _) => Some((Virama::J, 1)),
        (Some('t'), _) => Some((Virama::T, 1)),
        (Some('d'), _) => Some((Virama::D, 1)),
        (Some('n'), _) => Some((Virama::N, 1)),
        (Some('p'), _) => Some((Virama::P, 1)),
        (Some('b'), _) => Some((Virama::B, 1)),
        (Some('m'), _) => Some((Virama::M, 1)),
        (Some('s'), _) => Some((Virama::S, 1)),
        (Some('l'), _) => Some((Virama::L, 1)),
        _ => None,
    }
}

/// The tone mark at the start of `cs`: `:` is high, `.` creaky.
pub open spec fn spec_tone_mark(cs: Seq<char>) -> Option<Tone> {
    match at(cs, 0) {
        Some(':') => Some(Tone::High),
        Some('.') => Some(Tone::Creaky),
        _ => None,
    }
}

/// The onset read without a leading `h` of a medial: a consonant letter and
/// its medial letters.
pub open spec fn spec_plain_onset(cs: Seq<char>) -> Option<(Consonant, nat)> {
    match spec_consonant_letter(cs) {
        None => None,
        Some((b, k)) => {
            let (m, t) = spec_medial_tail(cs.skip(k as int));
            Some((Consonant { basic: b, medial: m }, k + t))
        },
    }
}

/// The medial that a leading `h` makes of the medial letters after the
/// consonant.
pub open spec fn spec_with_h(m: Option<MedialDiacritic>) -> MedialDiacritic {
    match m {
        Some(MedialDiacritic::Y) => MedialDiacritic::Hy,
        Some(MedialDiacritic::R) => MedialDiacritic::Hr,
        Some(MedialDiacritic::W) => MedialDiacritic::Hw,
        Some(MedialDiacritic::Yw) => MedialDiacritic::Hyw,
        Some(MedialDiacritic::Rw) => MedialDiacritic::Hrw,
        _ => MedialDiacritic::H,
    }
}

/// The onset read with a leading `h` that belongs to the medial: `h`, a
/// consonant letter and its medial letters.
pub open spec fn spec_h_onset(cs: Seq<char>) -> Option<(Consonant, nat)> {
    if at(cs, 0) == Some('h') {
        match spec_plain_onset(cs.skip(1)) {
            None => None,
            Some((c, k)) => Some((Consonant { basic: c.basic, medial: Some(spec_with_h(c.medial)) }, k + 1)),
        }
    } else {
        None
    }
}

/// An onset and the vowel after it: the consonant, the vowel, the length,
/// and whether the vowel is written (else it is the inherent `a`).
pub open spec fn spec_head_after(onset: Option<(Consonant, nat)>, cs: Seq<char>) -> Option<(Consonant, BasicVowel, nat, bool)> {
    match onset {
        None => None,
        Some((c, k)) => match spec_vowel_letters(cs.skip(k as int)) {
            Some((v, n)) => Some((c, v, k + n, true)),
            None => Some((c, BasicVowel::A, k, false)),
        },
    }
}

/// The onset and vowel at the start of `cs`. Both readings of a leading `h`
/// are tried, and the longer one is kept; on a tie the `h` belongs to the
/// consonant letter (so `hka` is `Hk` with `a`).
#[verifier::opaque]
pub open spec fn spec_head(cs: Seq<char>) -> Option<(Consonant, BasicVowel, nat, bool)> {
    let plain = spec_head_after(spec_plain_onset(cs), cs);
    let with_h = spec_head_after(spec_h_onset(cs), cs);
    match (plain, with_h) {
        (Some(a), Some(b)) => if b.2 > a.2 { Some(b) } else { Some(a) },
        (Some(a), None) => Some(a),
        (None, b) => b,
    }
}

/// Whether a syllable with a written vowel starts at the start of `cs`.
pub open spec fn starts_voweled_syllable(cs: Seq<char>) -> bool {
    spec_head(cs) matches Some((_, _, _, true))
}

/// The MLCTS syllable at the start of `cs`, and its length.
///
/// Onset and vowel come from `spec_head`. A bare onset is a syllable with
/// the inherent `a`, and takes neither final nor tone. After a written vowel
/// come an optional final and an optional tone mark. The letters of a final
/// are taken as a final only where they do not begin a syllable with a
/// written vowel (so `kaka` is two syllables, `kak` one). A stop final (k,
/// c, t, p) before a tone mark is not taken: it begins the next syllable.
#[verifier::opaque]
pub open spec fn spec_mlcts_syllable(cs: Seq<char>) -> Option<(Syllable, nat)> {
    match spec_head(cs) {
        None => None,
        Some((c, v, k, written)) => {
            let bare = Vowel { basic: v, virama: None, tone: None };
            if !written {
                Some((Syllable { consonant: c, vowel: bare, bottom_syllable: None }, k))
            } else {
                let after = cs.skip(k as int);
                match spec_final_letters(after) {
                    Some((f, n)) if !starts_voweled_syllable(after) && !(f.spec_is_stop()
                        && spec_tone_mark(after.skip(n as int)) is Some) => {
                        let t = spec_tone_mark(after.skip(n as int));
                        let vowel = Vowel { basic: v, virama: Some(f), tone: t };
                        Some((
                            Syllable { consonant: c, vowel, bottom_syllable: None },
                            k + n + if t is Some { 1nat } else { 0nat },
                        ))
                    },
                    _ => {
                        let t = spec_tone_mark(after);
                        let vowel = Vowel { basic: v, virama: None, tone: t };
                        Some((
                            Syllable { consonant: c, vowel, bottom_syllable: None },
                            k + if t is Some { 1nat } else { 0nat },
                        ))
                    },
                }
            }
        },
    }
}

fn consonant_letter(cs: &Vec<char>, i: usize) -> (r: Option<(BasicConsonant, usize)>)
    requires
        i <= cs@.len(),
    ensures
        match spec_consonant_letter(cs@.skip(i as int)) {
            Some((x, k)) => r == Some((x, k as usize)) && 1 <= k <= 2 && i + k <= cs@.len(),
            None => r is None,
        },
{
    reveal(spec_consonant_letter);
    match (peek(cs, i, 0), peek(cs, i, 1)) {
        (Some('h'), Some('k')) => Some((BasicConsonant::Hk, 2)),
        (Some('h'), Some('c')) => Some((BasicConsonant::Hc, 2)),
        (Some('h'), Some('t')) => Some((BasicConsonant::Ht, 2)),
        (Some('h'), Some('p')) => Some((BasicConsonant::Hp, 2)),
        (Some('b'), Some('h')) => Some((BasicConsonant::Bh, 2)),
        (Some('d'), Some('h')) => Some((BasicConsonant::Dh, 2)),
        (Some('g'), Some('h')) => Some((BasicConsonant::Gh, 2)),
        (Some('j'), Some('h')) => Some((BasicConsonant::Jh, 2)),
        (Some('n'), Some('y')) => Some((BasicConsonant::Ny, 2)),
        (Some('n'), Some('g')) => Some((BasicConsonant::Ng, 2)),
        (Some('k'), _) => Some((BasicConsonant::K, 1)),
        (Some('g'), _) => Some((BasicConsonant::G, 1)),
        (Some('c'), _) => Some((BasicConsonant::C, 1)),
        (Some('j'), _) => Some((BasicConsonant::J, 1)),
        (Some('t'), _) => Some((BasicConsonant::T, 1)),
        (Some('d'), _) => Some((BasicConsonant::D, 1)),
        (Some('n'), _) => Some((BasicConsonant::N, 1)),
        (Some('p'), _) => Some((BasicConsonant::P, 1)),
        (Some('b'), _) => Some((BasicConsonant::B, 1)),
        (Some('m'), _) => Some((BasicConsonant::M, 1)),
        (Some('y'), _) => Some((BasicConsonant::Y, 1)),
        (Some('r'), _) => Some((BasicConsonant::R, 1)),
        (Some('l'), _) => Some((BasicConsonant::L, 1)),
        (Some('w'), _) => Some((BasicConsonant::W, 1)),
        (Some('s'), _) => Some((BasicConsonant::S, 1)),
        (Some('h'), _) => Some((BasicConsonant::H, 1)),
        (Some('a'), _) => Some((BasicConsonant::A, 1)),
        _ => None,
    }
}

fn medial_tail(cs: &Vec<char>, i: usize) -> (r: (Option<MedialDiacritic>, usize))
    requires
        i <= cs@.len(),
    ensures
        r.0 == spec_medial_tail(cs@.skip(i as int)).0,
        r.1 == spec_medial_tail(cs@.skip(i as int)).1,
        r.1 <= 2,
        i + r.1 <= cs@.len(),
{
    reveal(spec_medial_tail);
    match (peek(cs, i, 0), peek(cs, i, 1)) {
        (Some('y'), Some('w')) => (Some(MedialDiacritic::Yw), 2),
        (Some('r'), Some('w')) => (Some(MedialDiacritic::Rw), 2),
        (Some('y'), _) => (Some(MedialDiacritic::Y), 1),
        (Some('r'), _) => (Some(MedialDiacritic::R), 1),
        (Some('w'), _) => (Some(MedialDiacritic::W), 1),
        _ => (None, 0),
    }
}

fn vowel_letters(cs: &Vec<char>, i: usize) -> (r: Option<(BasicVowel, usize)>)
    requires
        i <= cs@.len(),
    ensures
        match spec_vowel_letters(cs@.skip(i as int)) {
            Some((x, k)) => r == Some((x, k as usize)) && 1 <= k <= 2 && i + k <= cs@.len(),
            None => r is None,
        },
{
    reveal(spec_vowel_letters);
    match (peek(cs, i, 0), peek(cs, i, 1)) {
        (Some('a'), Some('i')) => Some((BasicVowel::Ai, 2)),
        (Some('a'), Some('u')) => Some((BasicVowel::Au, 2)),
        (Some('u'), Some('i')) => Some((BasicVowel::Ui, 2)),
        (Some('a'), _) => Some((BasicVowel::A, 1)),
        (Some('i'), _) => Some((BasicVowel::I, 1)),
        (Some('u'), _) => Some((BasicVowel::U, 1)),
        (Some('e'), _) => Some((BasicVowel::E, 1)),
        _ => None,
    }
}

fn final_letters(cs: &Vec<char>, i: usize) -> (r: Option<(Virama, usize)>)
    requires
        i <= cs@.len(),
    ensures
        match spec_final_letters(cs@.skip(i as int)) {
            Some((x, k)) => r == Some((x, k as usize)) && 1 <= k <= 2 && i + k <= cs@.len(),
            None => r is None,
        },
{
    reveal(spec_final_letters);
    match (peek(cs, i, 0), peek(cs, i, 1)) {
        (Some('n'), Some('g')) => Some((Virama::Ng, 2)),
        (Some('n'), Some('y')) => Some((Virama::Ny, 2)),
        (Some('h'), Some('t')) => Some((Virama::Ht, 2)),
        (Some('k'), _) => Some((Virama::K, 1)),
        (Some('g'), _) => Some((Virama::G, 1)),
        (Some('c'), _) => Some((Virama::C, 1)),
        (Some('j'), _) => Some((Virama::J, 1)),
        (Some('t'), _) => Some((Virama::T, 1)),
        (Some('d'), _) => Some((Virama::D, 1)),
        (Some('n'), _) => Some((Virama::N, 1)),
        (Some('p'), _) => Some((Virama::P, 1)),
        (Some('b'), _) => Some((Virama::B, 1)),
        (Some('m'), _) => Some((Virama::M, 1)),
        (Some('s'), _) => Some((Virama::S, 1)),
        (Some('l'), _) => Some((Virama::L, 1)),
        _ => None,
    }
}

fn tone_mark(cs: &Vec<char>, i: usize) -> (r: Option<Tone>)
    requires
        i <= cs@.len(),
    ensures
        r == spec_tone_mark(cs@.skip(i as int)),
        r is Some ==> i < cs@.len(),
{
    match peek(cs, i, 0) {
        Some(':') => Some(Tone::High),
        Some('.') => Some(Tone::Creaky),
        _ => None,
    }
}

fn plain_onset(cs: &Vec<char>, i: usize) -> (r: Option<(Consonant, usize)>)
    requires
        i <= cs@.len(),
    ensures
        match spec_plain_onset(cs@.skip(i as int)) {
            Some((c, k)) => r == Some((c, k as usize)) && 1 <= k <= 4 && i + k <= cs@.len(),
            None => r is None,
        },
{
    let total = cs.len();
    match consonant_letter(cs, i) {
        None => None,
        Some((b, k)) => {
            let (m, t) = medial_tail(cs, i + k);
            assert(cs@.skip(i as int).skip(k as int) =~= cs@.skip(i + k));
            Some((Consonant { basic: b, medial: m }, k + t))
        },
    }
}

fn with_h(m: Option<MedialDiacritic>) -> (r: MedialDiacritic)
    ensures
        r == spec_with_h(m),
{
    match m {
        Some(MedialDiacritic::Y) => MedialDiacritic::Hy,
        Some(MedialDiacritic::R) => MedialDiacritic::Hr,
        Some(MedialDiacritic::W) => MedialDiacritic::Hw,
        Some(MedialDiacritic::Yw) => MedialDiacritic::Hyw,
        Some(MedialDiacritic::Rw) => MedialDiacritic::Hrw,
        _ => MedialDiacritic::H,
    }
}

fn h_onset(cs: &Vec<char>, i: usize) -> (r: Option<(Consonant, usize)>)
    requires
        i <= cs@.len(),
    ensures
        match spec_h_onset(cs@.skip(i as int)) {
            Some((c, k)) => r == Some((c, k as usize)) && 1 <= k <= 5 && i + k <= cs@.len(),
            None => r is None,
        },
{
    let total = cs.len();
    if peek(cs, i, 0) == Some('h') {
        assert(cs@.skip(i as int).skip(1) =~= cs@.skip(i + 1));
        match plain_onset(cs, i + 1) {
            None => None,
            Some((c, k)) => Some((Consonant { basic: c.basic, medial: Some(with_h(c.medial)) }, k + 1)),
        }
    } else {
        None
    }
}

fn head_after(onset: Option<(Consonant, usize)>, cs: &Vec<char>, i: usize) -> (r: Option<(Consonant, BasicVowel, usize, bool)>)
    requires
        i <= cs@.len(),
        onset matches Some((_, k)) ==> 1 <= k <= 5 && i + k <= cs@.len(),
    ensures
        match spec_head_after(
            match onset {
                Some((c, k)) => Some((c, k as nat)),
                None => None,
            },
            cs@.skip(i as int),
        ) {
            Some((c, v, k, w)) => r == Some((c, v, k as usize, w)) && 1 <= k <= 7 && i + k <= cs@.len(),
            None => r is None,
        },
{
    let total = cs.len();
    match onset {
        None => None,
        Some((c, k)) => {
            assert(cs@.skip(i as int).skip(k as int) =~= cs@.skip(i + k));
            match vowel_letters(cs, i + k) {
                Some((v, n)) => Some((c, v, k + n, true)),
                None => Some((c, BasicVowel::A, k, false)),
            }
        },
    }
}

fn head(cs: &Vec<char>, i: usize) -> (r: Option<(Consonant, BasicVowel, usize, bool)>)
    requires
        i <= cs@.len(),
    ensures
        match spec_head(cs@.skip(i as int)) {
            Some((c, v, k, w)) => r == Some((c, v, k as usize, w)) && 1 <= k <= 7 && i + k <= cs@.len(),
            None => r is None,
        },
{
    reveal(spec_head);
    let plain = head_after(plain_onset(cs, i), cs, i);
    let with_h = head_after(h_onset(cs, i), cs, i);
    match (plain, with_h) {
        (Some(a), Some(b)) => if b.2 > a.2 { Some(b) } else { Some(a) },
        (Some(a), None) => Some(a),
        (None, b) => b,
    }
}

/// Reads the MLCTS syllable at `i`, and its length.
fn mlcts_syllable(cs: &Vec<char>, i: usize) -> (r: Option<(Syllable, usize)>)
    requires
        i <= cs@.len(),
    ensures
        match spec_mlcts_syllable(cs@.skip(i as int)) {
            Some((s, k)) => r == Some((s, k as usize)) && 1 <= k && i + k <= cs@.len(),
            None => r is None,
        },
{
    reveal(spec_mlcts_syllable);
    let total = cs.len();
    match head(cs, i) {
        None => None,
        Some((c, v, k, written)) => {
            if !written {
                return Some((Syllable { consonant: c, vowel: Vowel { basic: v, virama: None, tone: None }, bottom_syllable: None }, k));
            }
            let ghost after = cs@.skip(i as int).skip(k as int);
            assert(after =~= cs@.skip(i + k));
            let voweled = match head(cs, i + k) {
                Some((_, _, _, w)) => w,
                None => false,
            };
            match final_letters(cs, i + k) {
                Some((f, n)) => {
                    assert(after.skip(n as int) =~= cs@.skip(i + k + n));
                    let t = tone_mark(cs, i + k + n);
                    let stop = f == Virama::K || f == Virama::C || f == Virama::T || f == Virama::P;
                    if !voweled && !(stop && t.is_some()) {
                        let len = if t.is_some() { k + n + 1 } else { k + n };
                        return Some((Syllable { consonant: c, vowel: Vowel { basic: v, virama: Some(f), tone: t }, bottom_syllable: None }, len));
                    }
                },
                None => {},
            }
            let t = tone_mark(cs, i + k);
            let len = if t.is_some() { k + 1 } else { k };
            Some((Syllable { consonant: c, vowel: Vowel { basic: v, virama: None, tone: t }, bottom_syllable: None }, len))
        },
    }
}

/// What a token is.
#[derive(Debug, Clone, Copy, PartialEq, Eq, Structural)]
pub enum TokenKind {
    /// A syllable, fully decomposed.
    Syllable(Syllable),
    /// A run of ASCII white space.
    Whitespace,
    /// A character that starts no syllable.
    Unknown,
    /// The end of the input.
    EndOfInput,
}

/// A token, with the byte offset and byte length of its text in the input.
#[derive(Debug, Clone, Copy, PartialEq, Eq, Structural)]
pub struct Token {
    /// What the token is.
    pub kind: TokenKind,
    /// The byte offset where it starts.
    pub start: usize,
    /// Its length in bytes.
    pub len: usize,
}

/// ASCII white space: space, tab, line feed, form feed, carriage return.
pub open spec fn is_ascii_white(c: char) -> bool {
    c == ' ' || c == '\t' || c == '\n' || c == '\x0C' || c == '\r'
}

/// The length of the run of ASCII white space at the start of `cs`.
pub open spec fn white_run(cs: Seq<char>) -> nat
    decreases cs.len(),
{
    if cs.len() > 0 && is_ascii_white(cs[0]) {
        1 + white_run(cs.drop_first())
    } else {
        0
    }
}

/// The input as the tokenizer reads it: each `nhg` becomes `hng` and each
/// `nhy` becomes `hny`, from left to right.
pub open spec fn spec_normalize(cs: Seq<char>) -> Seq<char>
    decreases cs.len(),
{
    if cs.len() >= 3 && cs[0] == 'n' && cs[1] == 'h' && (cs[2] == 'g' || cs[2] == 'y') {
        seq!['h', 'n', cs[2]] + spec_normalize(cs.skip(3))
    } else if cs.len() == 0 {
        Seq::empty()
    } else {
        seq![cs[0]] + spec_normalize(cs.skip(1))
    }
}

/// Normalizing keeps the length, so positions in the input and in its
/// normal form agree.
pub proof fn lemma_normalize_len(cs: Seq<char>)
    ensures
        spec_normalize(cs).len() == cs.len(),
    decreases cs.len(),
{
    if cs.len() >= 3 && cs[0] == 'n' && cs[1] == 'h' && (cs[2] == 'g' || cs[2] == 'y') {
        lemma_normalize_len(cs.skip(3));
    } else if cs.len() > 0 {
        lemma_normalize_len(cs.skip(1));
    }
}

/// The token at the start of the normalized text `cs`, and its length in
/// characters: the end of the input; a run of ASCII white space; the
/// syllable there; or else one unknown character.
pub open spec fn spec_token(cs: Seq<char>) -> (TokenKind, nat) {
    if cs.len() == 0 {
        (TokenKind::EndOfInput, 0)
    } else if is_ascii_white(cs[0]) {
        (TokenKind::Whitespace, white_run(cs))
    } else {
        match spec_mlcts_syllable(cs) {
            Some((s, k)) => (TokenKind::Syllable(s), k),
            None => (TokenKind::Unknown, 1),
        }
    }
}

/// The number of characters of the token at character `pos` of `text`.
pub open spec fn spec_token_len(text: Seq<char>, pos: nat) -> nat {
    spec_token(spec_normalize(text).skip(pos as int)).1
}

/// The token at character `pos` of `text`, with its byte offsets.
pub open spec fn spec_token_at(text: Seq<char>, pos: nat) -> Token {
    let k = spec_token_len(text, pos);
    Token {
        kind: spec_token(spec_normalize(text).skip(pos as int)).0,
        start: utf8_len(text.take(pos as int)) as usize,
        len: utf8_len(text.subrange(pos as int, (pos + k) as int)) as usize,
    }
}

/// A MLCTS tokenizer over one input. It reads the input token by token;
/// after the end it keeps returning `EndOfInput`.
pub struct Tokenizer {
    text: Vec<char>,
    norm: Vec<char>,
    pos: usize,
    offset: usize,
}

impl Tokenizer {
    /// The input.
    pub closed spec fn input(self) -> Seq<char> {
        self.text@
    }

    /// The number of characters read so far.
    pub closed spec fn position(self) -> nat {
        self.pos as nat
    }

    /// The tokenizer's own invariant.
    pub closed spec fn wf(self) -> bool {
        &&& self.norm@ == spec_normalize(self.text@)
        &&& self.pos <= self.text@.len()
        &&& self.offset == utf8_len(self.text@.take(self.pos as int))
        &&& utf8_len(self.text@) <= usize::MAX
    }
}

proof fn lemma_tables_bounded(cs: Seq<char>)
    ensures
        spec_consonant_letter(cs) matches Some((_, k)) ==> 1 <= k <= 2 && k <= cs.len(),
        spec_medial_tail(cs).1 <= cs.len(),
        spec_vowel_letters(cs) matches Some((_, k)) ==> 1 <= k <= 2 && k <= cs.len(),
        spec_final_letters(cs) matches Some((_, k)) ==> 1 <= k <= 2 && k <= cs.len(),
        spec_tone_mark(cs) is Some ==> 1 <= cs.len(),
{
    reveal(spec_consonant_letter);
    reveal(spec_medial_tail);
    reveal(spec_vowel_letters);
    reveal(spec_final_letters);
}

proof fn lemma_onset_bounded(cs: Seq<char>)
    ensures
        spec_plain_onset(cs) matches Some((_, k)) ==> 1 <= k <= cs.len(),
        spec_h_onset(cs) matches Some((_, k)) ==> 1 <= k <= cs.len(),
{
    lemma_tables_bounded(cs);
    if let Some((b, k)) = spec_consonant_letter(cs) {
        lemma_tables_bounded(cs.skip(k as int));
    }
    if at(cs, 0) == Some('h') {
        let t = cs.skip(1);
        lemma_tables_bounded(t);
        if let Some((b, k)) = spec_consonant_letter(t) {
            lemma_tables_bounded(t.skip(k as int));
        }
    }
}

proof fn lemma_head_bounded(cs: Seq<char>)
    ensures
        spec_head(cs) matches Some((_, _, k, _)) ==> 1 <= k <= cs.len(),
{
    reveal(spec_head);
    lemma_onset_bounded(cs);
    if let Some((c, k)) = spec_plain_onset(cs) {
        lemma_tables_bounded(cs.skip(k as int));
    }
    if let Some((c, k)) = spec_h_onset(cs) {
        lemma_tables_bounded(cs.skip(k as int));
    }
}

proof fn lemma_white_run_bounded(cs: Seq<char>)
    ensures
        white_run(cs) <= cs.len(),
        cs.len() > 0 && is_ascii_white(cs[0]) ==> white_run(cs) >= 1,
    decreases cs.len(),
{
    if cs.len() > 0 && is_ascii_white(cs[0]) {
        lemma_white_run_bounded(cs.drop_first());
    }
}

/// A token other than the end of the input takes at least one character,
/// and no more than the text holds.
pub proof fn lemma_token_bounded(cs: Seq<char>)
    ensures
        cs.len() > 0 ==> 1 <= spec_token(cs).1 <= cs.len(),
{
    reveal(spec_mlcts_syllable);
    lemma_white_run_bounded(cs);
    lemma_head_bounded(cs);
    if let Some((c, v, k, w)) = spec_head(cs) {
        let after = cs.skip(k as int);
        lemma_tables_bounded(after);
        if let Some((f, n)) = spec_final_letters(after) {
            lemma_tables_bounded(after.skip(n as int));
        }
    }
}

fn normalize(cs: &Vec<char>) -> (r: Vec<char>)
    ensures
        r@ == spec_normalize(cs@),
{
    let n = cs.len();
    let mut out: Vec<char> = Vec::new();
    let mut i: usize = 0;
    assert(cs@.skip(0) =~= cs@);
    assert(out@ + spec_normalize(cs@) =~= spec_normalize(cs@));
    while i < n
        invariant
            n == cs@.len(),
            i <= n,
            out@ + spec_normalize(cs@.skip(i as int)) == spec_normalize(cs@),
        decreases n - i,
    {
        let ghost rest = cs@.skip(i as int);
        if n - i >= 3 && cs[i] == 'n' && cs[i + 1] == 'h' && (cs[i + 2] == 'g' || cs[i + 2] == 'y') {
            let last = cs[i + 2];
            assert(rest.skip(3) =~= cs@.skip(i + 3));
            let ghost before = out@;
            out.push('h');
            out.push('n');
            out.push(last);
            assert(out@ =~= before + seq!['h', 'n', last]);
            assert(before + spec_normalize(rest) =~= out@ + spec_normalize(cs@.skip(i + 3)));
            i = i + 3;
        } else {
            let c = cs[i];
            assert(rest.skip(1) =~= cs@.skip(i + 1));
            let ghost before = out@;
            out.push(c);
            assert(before + spec_normalize(rest) =~= out@ + spec_normalize(cs@.skip(i + 1)));
            i = i + 1;
        }
    }
    assert(cs@.skip(n as int) =~= Seq::<char>::empty());
    assert(out@ + Seq::<char>::empty() =~= out@);
    out
}

fn white_run_at(cs: &Vec<char>, i: usize) -> (r: usize)
    requires
        i <= cs@.len(),
    ensures
        r == white_run(cs@.skip(i as int)),
{
    let n = cs.len();
    let mut j: usize = i;
    while j < n && (cs[j] == ' ' || cs[j] == '\t' || cs[j] == '\n' || cs[j] == '\x0C' || cs[j] == '\r')
        invariant
            i <= j <= n,
            n == cs@.len(),
            white_run(cs@.skip(i as int)) == (j - i) + white_run(cs@.skip(j as int)),
        decreases n - j,
    {
        assert(cs@.skip(j as int).drop_first() =~= cs@.skip(j + 1));
        j = j + 1;
    }
    j - i
}

/// The tokens of `text` from character `pos` on, up to the end of the input
/// (which is not among them).
pub open spec fn spec_tokens_from(text: Seq<char>, pos: nat) -> Seq<Token>
    decreases text.len() - pos,
    via tokens_from_decreases
{
    if pos >= text.len() {
        Seq::empty()
    } else {
        seq![spec_token_at(text, pos)] + spec_tokens_from(text, pos + spec_token_len(text, pos))
    }
}

#[via_fn]
proof fn tokens_from_decreases(text: Seq<char>, pos: nat) {
    if pos < text.len() {
        lemma_normalize_len(text);
        lemma_token_bounded(spec_normalize(text).skip(pos as int));
    }
}

/// The tokens of `text`, in order, without the end of the input.
pub open spec fn spec_tokenize(text: Seq<char>) -> Seq<Token> {
    spec_tokens_from(text, 0)
}

impl Tokenizer {
    /// A tokenizer at the start of `input`.
    pub fn new(input: &str) -> (r: Tokenizer)
        ensures
            r.wf(),
            r.input() == input@,
            r.position() == 0,
    {
        let text = chars_of(input);
        let _ = str_byte_len(input);
        let norm = normalize(&text);
        proof {
            assert(text@.take(0) =~= Seq::<char>::empty());
            assert(utf8_len(Seq::<char>::empty()) == 0);
        }
        Tokenizer { text, norm, pos: 0, offset: 0 }
    }

    /// Reads the next token: at the end of the input `EndOfInput` (with
    /// length 0, and again on every later call); at ASCII white space the
    /// whole run of it; where a syllable starts, the syllable; else one
    /// unknown character. The token starts where the last one ended.
    pub fn next_token(&mut self) -> (r: Token)
        requires
            old(self).wf(),
        ensures
            final(self).wf(),
            final(self).input() == old(self).input(),
            r == spec_token_at(old(self).input(), old(self).position()),
            final(self).position() == old(self).position() + spec_token_len(old(self).input(), old(self).position()),
    {
        let n = self.norm.len();
        proof {
            lemma_normalize_len(self.text@);
            lemma_token_bounded(self.norm@.skip(self.pos as int));
        }
        let pos = self.pos;
        let ghost rest = self.norm@.skip(pos as int);
        let (kind, k): (TokenKind, usize) = if pos == n {
            (TokenKind::EndOfInput, 0)
        } else if self.norm[pos] == ' ' || self.norm[pos] == '\t' || self.norm[pos] == '\n'
            || self.norm[pos] == '\x0C' || self.norm[pos] == '\r' {
            (TokenKind::Whitespace, white_run_at(&self.norm, pos))
        } else {
            match mlcts_syllable(&self.norm, pos) {
                Some((syl, k)) => (TokenKind::Syllable(syl), k),
                None => (TokenKind::Unknown, 1),
            }
        };
        proof {
            lemma_encode_concat(self.text@.take(pos as int), self.text@.subrange(pos as int, pos + k));
            assert(self.text@.take(pos as int) + self.text@.subrange(pos as int, pos + k) =~= self.text@.take(pos + k));
            lemma_encode_concat(self.text@.take(pos + k), self.text@.skip(pos + k));
            assert(self.text@.take(pos + k) + self.text@.skip(pos + k) =~= self.text@);
        }
        let len = utf8_width(&self.text, pos, pos + k);
        let start = self.offset;
        self.pos = pos + k;
        self.offset = start + len;
        Token { kind, start, len }
    }
}

/// Reads all of `input` into tokens, in order, up to the end of the input
/// (which is not among them). The tokens cover the input with no gap and no
/// overlap: the first starts at 0, each starts where the one before ends,
/// and the last ends at the input's byte length. Each token takes at least
/// one byte and starts on a character boundary.
pub fn tokenize(input: &str) -> (r: Vec<Token>)
    ensures
        r@ == spec_tokenize(input@),
        r@.len() > 0 ==> r@[0].start == 0,
        forall|i: int| 0 <= i < r@.len() - 1 ==> #[trigger] r@[i].start + r@[i].len == r@[i + 1].start,
        r@.len() > 0 ==> r@.last().start + r@.last().len == input.len(),
        forall|i: int| 0 <= i < r@.len() ==> (#[trigger] r@[i]).kind != TokenKind::EndOfInput,
        forall|i: int| 0 <= i < r@.len() ==> (#[trigger] r@[i]).len > 0,
        forall|i: int| 0 <= i < r@.len() ==> is_char_boundary(input.spec_bytes(), (#[trigger] r@[i]).start as int),
{
    let mut t = Tokenizer::new(input);
    let mut out: Vec<Token> = Vec::new();
    assert(out@ + spec_tokens_from(input@, 0) =~= spec_tokenize(input@));
    loop
        invariant
            t.wf(),
            t.input() == input@,
            t.position() <= input@.len(),
            out@ + spec_tokens_from(input@, t.position()) == spec_tokenize(input@),
        ensures
            out@ == spec_tokenize(input@),
        decreases input@.len() - t.position(),
    {
        let ghost p = t.position();
        proof {
            lemma_tokens_from_step(input@, p);
        }
        let tok = t.next_token();
        if tok.kind == TokenKind::EndOfInput {
            assert(out@ + Seq::<Token>::empty() =~= out@);
            break;
        }
        let ghost before = out@;
        out.push(tok);
        assert(before + spec_tokens_from(input@, p) =~= out@ + spec_tokens_from(input@, t.position()));
    }
    let _ = str_byte_len(input);
    proof {
        lemma_tokens_tile(input@, 0);
        assert(input@.take(0) =~= Seq::<char>::empty());
    }
    out
}

proof fn lemma_tokens_from_step(text: Seq<char>, pos: nat)
    requires
        pos <= text.len(),
    ensures
        pos == text.len() ==> spec_tokens_from(text, pos) == Seq::<Token>::empty(),
        pos == text.len() ==> spec_token_at(text, pos).kind == TokenKind::EndOfInput,
        pos < text.len() ==> spec_token_at(text, pos).kind != TokenKind::EndOfInput,
        pos < text.len() ==> pos + spec_token_len(text, pos) <= text.len(),
        pos < text.len() ==> spec_token_len(text, pos) >= 1,
        pos < text.len() ==> spec_tokens_from(text, pos) == seq![spec_token_at(text, pos)]
            + spec_tokens_from(text, pos + spec_token_len(text, pos)),
{
    lemma_normalize_len(text);
    lemma_token_bounded(spec_normalize(text).skip(pos as int));
}

proof fn lemma_prefix_len(text: Seq<char>, a: int, b: int)
    requires
        0 <= a <= b <= text.len(),
    ensures
        utf8_len(text.take(a)) + utf8_len(text.subrange(a, b)) == utf8_len(text.take(b)),
        utf8_len(text.take(b)) <= utf8_len(text),
{
    lemma_encode_concat(text.take(a), text.subrange(a, b));
    assert(text.take(a) + text.subrange(a, b) =~= text.take(b));
    lemma_encode_concat(text.take(b), text.skip(b));
    assert(text.take(b) + text.skip(b) =~= text);
}

/// The tokens from character `pos` on cover the input from there with no
/// gap and no overlap: the first starts at the byte offset of `pos`, each
/// starts where the one before ends, and the last ends at the end of the
/// input.
pub proof fn lemma_tokens_tile(text: Seq<char>, pos: nat)
    requires
        pos <= text.len(),
        utf8_len(text) <= usize::MAX,
    ensures
        ({
            let toks = spec_tokens_from(text, pos);
            &&& toks.len() > 0 ==> toks[0].start == utf8_len(text.take(pos as int))
            &&& forall|i: int| 0 <= i < toks.len() - 1 ==> #[trigger] toks[i].start + toks[i].len == toks[i + 1].start
            &&& toks.len() > 0 ==> toks.last().start + toks.last().len == utf8_len(text)
            &&& toks.len() == 0 ==> pos == text.len()
            &&& forall|i: int| 0 <= i < toks.len() ==> (#[trigger] toks[i]).kind != TokenKind::EndOfInput
            &&& forall|i: int| 0 <= i < toks.len() ==> (#[trigger] toks[i]).len > 0
            &&& forall|i: int| 0 <= i < toks.len() ==> is_char_boundary(encode_utf8(text), (#[trigger] toks[i]).start as int)
        }),
    decreases text.len() - pos,
{
    if pos < text.len() {
        lemma_normalize_len(text);
        let cs = spec_normalize(text).skip(pos as int);
        lemma_token_bounded(cs);
        let k = spec_token_len(text, pos);
        lemma_prefix_len(text, pos as int, (pos + k) as int);
        lemma_tokens_tile(text, pos + k);
        let toks = spec_tokens_from(text, pos);
        let rest = spec_tokens_from(text, pos + k);
        assert(toks == seq![spec_token_at(text, pos)] + rest);
        assert(toks[0] == spec_token_at(text, pos));
        assert(toks[0].start == utf8_len(text.take(pos as int)));
        assert(toks[0].start + toks[0].len == utf8_len(text.take((pos + k) as int)));
        if rest.len() == 0 {
            assert(text.take((pos + k) as int) =~= text);
        } else {
            assert(toks[1] == rest[0]);
        }
        assert forall|i: int| 0 <= i < toks.len() - 1 implies #[trigger] toks[i].start + toks[i].len
            == toks[i + 1].start by {
            if i > 0 {
                assert(toks[i] == rest[i - 1]);
                assert(toks[i + 1] == rest[i]);
            }
        }
        lemma_utf8_len_positive(text.subrange(pos as int, (pos + k) as int));
        lemma_prefix_char_boundary(text, pos as int);
        assert forall|i: int| 0 <= i < toks.len() implies (#[trigger] toks[i]).kind != TokenKind::EndOfInput
            && toks[i].len > 0 && is_char_boundary(encode_utf8(text), toks[i].start as int) by {
            if i > 0 {
                assert(toks[i] == rest[i - 1]);
            }
        }
        if rest.len() > 0 {
            assert(toks.last() == rest.last());
        }
    } else {
        assert(text.take(pos as int) =~= text);
    }
}

/// One of the MLCTS vowel letters a, i, u, e.
pub open spec fn is_vowel_letter(c: char) -> bool {
    c == 'a' || c == 'i' || c == 'u' || c == 'e'
}

/// One of the medial letters y, r, w.
pub open spec fn is_tail_letter(c: char) -> bool {
    c == 'y' || c == 'r' || c == 'w'
}

proof fn lemma_letter_render(cs: Seq<char>)
    ensures
        spec_consonant_letter(cs) matches Some((b, k)) ==> b.spec_mlcts() =~= cs.take(k as int),
{
    reveal(spec_consonant_letter);
}

proof fn lemma_tail_render(cs: Seq<char>)
    ensures
        ({
            let (m, t) = spec_medial_tail(cs);
            &&& t <= cs.len()
            &&& match m {
                None => t == 0,
                Some(x) => !x.spec_has_h() && x.spec_suffix() =~= cs.take(t as int),
            }
        }),
{
    reveal(spec_medial_tail);
}

proof fn lemma_vowel_render(cs: Seq<char>)
    ensures
        spec_vowel_letters(cs) matches Some((v, k)) ==> v.spec_mlcts() =~= cs.take(k as int) && k
            <= cs.len() && is_vowel_letter(cs[k - 1]),
{
    reveal(spec_vowel_letters);
}

proof fn lemma_plain_onset_render(cs: Seq<char>)
    ensures
        spec_plain_onset(cs) matches Some((c, k)) ==> c.spec_mlcts() =~= cs.take(k as int) && k <= cs.len()
            && (c.medial matches Some(m) ==> !m.spec_has_h()),
{
    lemma_letter_render(cs);
    lemma_tables_bounded(cs);
    if let Some((b, k)) = spec_consonant_letter(cs) {
        lemma_tail_render(cs.skip(k as int));
        let (m, t) = spec_medial_tail(cs.skip(k as int));
        assert(cs.take(k as int) + cs.skip(k as int).take(t as int) =~= cs.take((k + t) as int));
    }
}

proof fn lemma_h_onset_render(cs: Seq<char>)
    ensures
        spec_h_onset(cs) matches Some((c, k)) ==> c.spec_mlcts() =~= cs.take(k as int) && k <= cs.len(),
{
    if at(cs, 0) == Some('h') {
        lemma_plain_onset_render(cs.skip(1));
        if let Some((c, k)) = spec_plain_onset(cs.skip(1)) {
            assert(seq!['h'] + cs.skip(1).take(k as int) =~= cs.take((k + 1) as int));
            match c.medial {
                None => {},
                Some(m) => {},
            }
        }
    }
}

proof fn lemma_head_after_render(o: Option<(Consonant, nat)>, cs: Seq<char>)
    requires
        o matches Some((c, k)) ==> c.spec_mlcts() =~= cs.take(k as int) && k <= cs.len(),
    ensures
        spec_head_after(o, cs) matches Some((c, v, k, w)) ==> k <= cs.len() && (w ==> c.spec_mlcts()
            + v.spec_mlcts() =~= cs.take(k as int) && is_vowel_letter(cs[k - 1])),
{
    if let Some((c, k)) = o {
        lemma_vowel_render(cs.skip(k as int));
        if let Some((v, n)) = spec_vowel_letters(cs.skip(k as int)) {
            assert(cs.take(k as int) + cs.skip(k as int).take(n as int) =~= cs.take((k + n) as int));
            assert(cs.skip(k as int)[n - 1] == cs[k + n - 1]);
        }
    }
}

/// A head with a written vowel spells exactly the letters it takes, and
/// ends with a vowel letter.
proof fn lemma_head_render(cs: Seq<char>)
    ensures
        spec_head(cs) matches Some((c, v, k, w)) ==> k <= cs.len() && (w ==> c.spec_mlcts()
            + v.spec_mlcts() =~= cs.take(k as int) && is_vowel_letter(cs[k - 1])),
{
    lemma_plain_onset_render(cs);
    lemma_h_onset_render(cs);
    lemma_head_after_render(spec_plain_onset(cs), cs);
    lemma_head_after_render(spec_h_onset(cs), cs);
    reveal(spec_head);
}

/// The medial letters of a medial without ှ, or none.
pub open spec fn tail_spelling(m: Option<MedialDiacritic>) -> Seq<char> {
    match m {
        Some(x) => x.spec_suffix(),
        None => Seq::empty(),
    }
}

proof fn lemma_letter_of_spelling(b: BasicConsonant, y: Seq<char>)
    requires
        y.len() > 0,
        is_tail_letter(y[0]) || is_vowel_letter(y[0]),
    ensures
        spec_consonant_letter(b.spec_mlcts() + y) == if b == BasicConsonant::N && y[0] == 'y' {
            Some((BasicConsonant::Ny, 2nat))
        } else {
            Some((b, b.spec_mlcts().len()))
        },
{
    reveal(spec_consonant_letter);
    let cs = b.spec_mlcts() + y;
    assert(cs[b.spec_mlcts().len() as int] == y[0]);
}

proof fn lemma_tail_of_spelling(m: Option<MedialDiacritic>, z: Seq<char>)
    requires
        m matches Some(x) ==> !x.spec_has_h(),
        z.len() > 0,
        is_vowel_letter(z[0]),
    ensures
        spec_medial_tail(tail_spelling(m) + z) == (m, tail_spelling(m).len()),
{
    reveal(spec_medial_tail);
    let cs = tail_spelling(m) + z;
    assert(cs[tail_spelling(m).len() as int] == z[0]);
}

/// The onset spelled `b` with the medial letters of `m`, before a vowel
/// letter, is read back whole.
proof fn lemma_plain_onset_of_spelling(b: BasicConsonant, m: Option<MedialDiacritic>, z: Seq<char>)
    requires
        m matches Some(x) ==> !x.spec_has_h(),
        z.len() > 0,
        is_vowel_letter(z[0]),
    ensures
        spec_plain_onset(b.spec_mlcts() + tail_spelling(m) + z) matches Some((_, k)) && k == b.spec_mlcts().len()
            + tail_spelling(m).len(),
{
    let y = tail_spelling(m) + z;
    assert(b.spec_mlcts() + tail_spelling(m) + z =~= b.spec_mlcts() + y);
    assert(y[0] == if tail_spelling(m).len() > 0 { tail_spelling(m)[0] } else { z[0] });
    lemma_letter_of_spelling(b, y);
    let cs = b.spec_mlcts() + y;
    if b == BasicConsonant::N && y[0] == 'y' {
        assert(tail_spelling(m).len() > 0);
        let rest = tail_spelling(m).skip(1);
        assert(cs.skip(2) =~= rest + z);
        reveal(spec_medial_tail);
        assert((rest + z)[rest.len() as int] == z[0]);
    } else {
        assert(cs.skip(b.spec_mlcts().len() as int) =~= y);
        lemma_tail_of_spelling(m, z);
    }
}

proof fn lemma_vowel_of_spelling(v: BasicVowel, rest: Seq<char>)
    requires
        rest.len() > 0 ==> !is_vowel_letter(rest[0]),
    ensures
        spec_vowel_letters(v.spec_mlcts() + rest) == Some((v, v.spec_mlcts().len())),
{
    reveal(spec_vowel_letters);
    let cs = v.spec_mlcts() + rest;
    if rest.len() > 0 {
        assert(cs[v.spec_mlcts().len() as int] == rest[0]);
    }
}

/// Where a vowel letter stands inside an onset, it is the letter `a` of the
/// consonant အ, first in the onset and followed only by medial letters.
proof fn lemma_plain_onset_shape(cs: Seq<char>)
    ensures
        spec_plain_onset(cs) matches Some((_, k)) ==> (forall|i: int| 0 <= i < k - 1 && #[trigger] is_vowel_letter(cs[i])
            ==> i == 0 && is_tail_letter(cs[1])) && (is_vowel_letter(cs[k - 1]) ==> k == 1),
{
    reveal(spec_consonant_letter);
    reveal(spec_medial_tail);
    if let Some((b, k)) = spec_consonant_letter(cs) {
        let t = cs.skip(k as int);
        assert(forall|j: int| 0 <= j < t.len() ==> t[j] == cs[k + j]);
    }
}

/// No head reads past a vowel letter at `l - 1` when no vowel letter
/// follows and the next character is no medial letter.
proof fn lemma_head_bound(cs: Seq<char>, l: int)
    requires
        1 <= l <= cs.len(),
        is_vowel_letter(cs[l - 1]),
        forall|i: int| l <= i < cs.len() ==> !is_vowel_letter(#[trigger] cs[i]),
        l < cs.len() ==> !is_tail_letter(cs[l]),
    ensures
        spec_head_after(spec_plain_onset(cs), cs) matches Some((_, _, k, w)) ==> k <= l && (!w && k == l ==> l
            == 1),
        spec_head_after(spec_h_onset(cs), cs) matches Some((_, _, k, w)) ==> k <= l && (!w && k == l ==> l
            <= 2),
{
    lemma_plain_onset_shape(cs);
    lemma_plain_onset_render(cs);
    if let Some((c, k)) = spec_plain_onset(cs) {
        lemma_vowel_render(cs.skip(k as int));
        if let Some((v, n)) = spec_vowel_letters(cs.skip(k as int)) {
            assert(cs.skip(k as int)[n - 1] == cs[k + n - 1]);
        } else {
            if k > l {
                assert(is_vowel_letter(cs[l - 1]));
            }
        }
    }
    if at(cs, 0) == Some('h') {
        let t = cs.skip(1);
        lemma_plain_onset_shape(t);
        lemma_plain_onset_render(t);
        if let Some((c, k)) = spec_plain_onset(t) {
            assert(forall|j: int| 0 <= j < t.len() ==> t[j] == cs[1 + j]);
            lemma_vowel_render(cs.skip((k + 1) as int));
            if let Some((v, n)) = spec_vowel_letters(cs.skip((k + 1) as int)) {
                assert(cs.skip((k + 1) as int)[n - 1] == cs[k + 1 + n - 1]);
            } else {
                if k + 1 > l && l >= 2 {
                    assert(is_vowel_letter(t[l - 2]));
                }
            }
        }
    }
}

/// The medial letters of a medial with ှ, read after its `h`.
pub open spec fn without_h(m: MedialDiacritic) -> Option<MedialDiacritic> {
    match m {
        MedialDiacritic::Hy => Some(MedialDiacritic::Y),
        MedialDiacritic::Hr => Some(MedialDiacritic::R),
        MedialDiacritic::Hw => Some(MedialDiacritic::W),
        MedialDiacritic::Hyw => Some(MedialDiacritic::Yw),
        MedialDiacritic::Hrw => Some(MedialDiacritic::Rw),
        _ => None,
    }
}

proof fn lemma_vowel_spelling_letters(v: BasicVowel)
    ensures
        v.spec_mlcts().len() >= 1,
        forall|i: int| 0 <= i < v.spec_mlcts().len() ==> is_vowel_letter(#[trigger] v.spec_mlcts()[i]),
{
}

proof fn lemma_plain_candidate(b: BasicConsonant, m: Option<MedialDiacritic>, v: BasicVowel, rest: Seq<char>)
    requires
        m matches Some(x) ==> !x.spec_has_h(),
        rest.len() > 0 ==> !is_vowel_letter(rest[0]),
    ensures
        spec_head_after(
            spec_plain_onset(b.spec_mlcts() + tail_spelling(m) + v.spec_mlcts() + rest),
            b.spec_mlcts() + tail_spelling(m) + v.spec_mlcts() + rest,
        ) matches Some((_, _, k, true)) && k == b.spec_mlcts().len() + tail_spelling(m).len()
            + v.spec_mlcts().len(),
{
    let z = v.spec_mlcts() + rest;
    let cs = b.spec_mlcts() + tail_spelling(m) + z;
    assert(cs =~= b.spec_mlcts() + tail_spelling(m) + v.spec_mlcts() + rest);
    lemma_vowel_spelling_letters(v);
    assert(z[0] == v.spec_mlcts()[0]);
    lemma_plain_onset_of_spelling(b, m, z);
    lemma_vowel_of_spelling(v, rest);
    assert(cs.skip((b.spec_mlcts().len() + tail_spelling(m).len()) as int) =~= z);
}

proof fn lemma_h_candidate(b: BasicConsonant, m: Option<MedialDiacritic>, v: BasicVowel, rest: Seq<char>)
    requires
        m matches Some(x) ==> !x.spec_has_h(),
        rest.len() > 0 ==> !is_vowel_letter(rest[0]),
    ensures
        spec_head_after(
            spec_h_onset(seq!['h'] + (b.spec_mlcts() + tail_spelling(m) + v.spec_mlcts() + rest)),
            seq!['h'] + (b.spec_mlcts() + tail_spelling(m) + v.spec_mlcts() + rest),
        ) matches Some((_, _, k, true)) && k == 1 + b.spec_mlcts().len() + tail_spelling(m).len()
            + v.spec_mlcts().len(),
{
    let t = b.spec_mlcts() + tail_spelling(m) + v.spec_mlcts() + rest;
    let cs = seq!['h'] + t;
    lemma_plain_candidate(b, m, v, rest);
    assert(cs.skip(1) =~= t);
    assert(at(cs, 0) == Some('h'));
    let (c0, k0) = spec_plain_onset(t)->0;
    assert(cs.skip((k0 + 1) as int) =~= t.skip(k0 as int));
}

proof fn lemma_consonant_spelling(c: Consonant)
    ensures
        c.medial matches Some(m) && m.spec_has_h() ==> c.spec_mlcts() =~= seq!['h'] + c.basic.spec_mlcts()
            + tail_spelling(without_h(c.medial->0)),
        !(c.medial matches Some(m) && m.spec_has_h()) ==> c.spec_mlcts() =~= c.basic.spec_mlcts()
            + tail_spelling(c.medial),
        !(c.medial matches Some(m) && m.spec_has_h()) ==> (c.medial matches Some(x) ==> !x.spec_has_h()),
        without_h(c.medial->0) matches Some(x) ==> !x.spec_has_h(),
{
}

proof fn lemma_head_choice(cs: Seq<char>, l: int)
    requires
        1 <= l <= cs.len(),
        is_vowel_letter(cs[l - 1]),
        forall|i: int| l <= i < cs.len() ==> !is_vowel_letter(#[trigger] cs[i]),
        l < cs.len() ==> !is_tail_letter(cs[l]),
        (spec_head_after(spec_plain_onset(cs), cs) matches Some((_, _, k, true)) && k == l) || (
        spec_head_after(spec_h_onset(cs), cs) matches Some((_, _, k, true)) && k == l && l >= 3),
    ensures
        spec_head(cs) matches Some((c2, v2, k, true)) && k == l && c2.spec_mlcts() + v2.spec_mlcts() == cs.take(l),
{
    lemma_head_bound(cs, l);
    lemma_head_render(cs);
    reveal(spec_head);
}

proof fn lemma_head_generic(cs: Seq<char>, onset: Seq<char>, vv: Seq<char>, rest: Seq<char>)
    requires
        cs == onset + vv + rest,
        vv.len() >= 1,
        forall|i: int| 0 <= i < vv.len() ==> is_vowel_letter(#[trigger] vv[i]),
        forall|i: int| 0 <= i < rest.len() ==> !is_vowel_letter(#[trigger] rest[i]),
        rest.len() > 0 ==> !is_tail_letter(rest[0]),
        (spec_head_after(spec_plain_onset(cs), cs) matches Some((_, _, k, true)) && k == onset.len()
            + vv.len()) || (spec_head_after(spec_h_onset(cs), cs) matches Some((_, _, k, true)) && k
            == onset.len() + vv.len() && onset.len() + vv.len() >= 3),
    ensures
        spec_head(cs) matches Some((c2, v2, k, true)) && k == onset.len() + vv.len() && c2.spec_mlcts()
            + v2.spec_mlcts() == onset + vv,
{
    let l = onset.len() + vv.len();
    assert(cs[l - 1] == vv[vv.len() - 1]);
    assert(forall|i: int| l <= i < cs.len() ==> cs[i] == rest[i - l]);
    assert(cs.take(l as int) =~= onset + vv);
    lemma_head_choice(cs, l as int);
}

/// The onset and vowel of a syllable's spelling are read back as its first
/// letters, whatever follows them that is neither a vowel letter nor, right
/// after them, a medial letter. The onset is spelled `pre` (an `h` or
/// nothing), the letter `b` and the medial letters of `m`.
proof fn lemma_head_of_spelling(pre: Seq<char>, b: BasicConsonant, m: Option<MedialDiacritic>, v: BasicVowel, rest: Seq<char>)
    requires
        pre == Seq::<char>::empty() || pre == seq!['h'],
        m matches Some(x) ==> !x.spec_has_h(),
        forall|i: int| 0 <= i < rest.len() ==> !is_vowel_letter(#[trigger] rest[i]),
        rest.len() > 0 ==> !is_tail_letter(rest[0]),
    ensures
        ({
            let onset = pre + b.spec_mlcts() + tail_spelling(m);
            spec_head(onset + v.spec_mlcts() + rest) matches Some((c2, v2, k, true)) && k == onset.len()
                + v.spec_mlcts().len() && c2.spec_mlcts() + v2.spec_mlcts() == onset + v.spec_mlcts()
        }),
{
    let onset = pre + b.spec_mlcts() + tail_spelling(m);
    let cs = onset + v.spec_mlcts() + rest;
    lemma_vowel_spelling_letters(v);
    lemma_spelling_candidate(pre, b, m, v, rest, cs);
    lemma_head_generic(cs, onset, v.spec_mlcts(), rest);
}

#[verifier::rlimit(40)]
proof fn lemma_spelling_candidate(pre: Seq<char>, b: BasicConsonant, m: Option<MedialDiacritic>, v: BasicVowel, rest: Seq<char>, cs: Seq<char>)
    requires
        pre == Seq::<char>::empty() || pre == seq!['h'],
        m matches Some(x) ==> !x.spec_has_h(),
        rest.len() > 0 ==> !is_vowel_letter(rest[0]),
        cs == pre + b.spec_mlcts() + tail_spelling(m) + v.spec_mlcts() + rest,
    ensures
        ({
            let l = pre.len() + b.spec_mlcts().len() + tail_spelling(m).len() + v.spec_mlcts().len();
            (spec_head_after(spec_plain_onset(cs), cs) matches Some((_, _, k, true)) && k == l) || (
            spec_head_after(spec_h_onset(cs), cs) matches Some((_, _, k, true)) && k == l && l >= 3)
        }),
{
    let t = b.spec_mlcts() + tail_spelling(m) + v.spec_mlcts() + rest;
    assert(cs =~= pre + t);
    if pre.len() == 0 {
        assert(pre + t =~= t);
        lemma_plain_candidate(b, m, v, rest);
    } else {
        lemma_h_candidate(b, m, v, rest);
    }
}

/// The spelling of an optional final.
pub open spec fn final_spelling(f: Option<Virama>) -> Seq<char> {
    match f {
        Some(x) => x.spec_mlcts(),
        None => Seq::empty(),
    }
}

/// The spelling of an optional tone mark.
pub open spec fn tone_spelling(t: Option<Tone>) -> Seq<char> {
    match t {
        Some(x) => x.spec_mlcts(),
        None => Seq::empty(),
    }
}

proof fn lemma_coda_of_spelling(f: Option<Virama>, t: Option<Tone>)
    ensures
        ({
            let rest = final_spelling(f) + tone_spelling(t);
            &&& forall|i: int| 0 <= i < rest.len() ==> !is_vowel_letter(#[trigger] rest[i])
            &&& rest.len() > 0 ==> !is_tail_letter(rest[0])
            &&& spec_final_letters(rest) == match f {
                Some(x) => Some((x, x.spec_mlcts().len())),
                None => None::<(Virama, nat)>,
            }
            &&& spec_tone_mark(rest.skip(final_spelling(f).len() as int)) == t
            &&& spec_tone_mark(tone_spelling(t)) == t
            &&& tone_spelling(t).len() == if t is Some { 1nat } else { 0nat }
        }),
{
    reveal(spec_final_letters);
    let fs = final_spelling(f);
    let ts = tone_spelling(t);
    let rest = fs + ts;
    assert(rest.skip(fs.len() as int) =~= ts);
    assert(forall|i: int| 0 <= i < rest.len() ==> rest[i] == if i < fs.len() { fs[i] } else { ts[i - fs.len()] });
    if fs.len() > 0 {
        assert(rest[0] == fs[0]);
        if fs.len() == 1 && ts.len() > 0 {
            assert(rest[1] == ts[0]);
        }
    } else if ts.len() > 0 {
        assert(rest[0] == ts[0]);
    }
}

/// No syllable with a written vowel starts in text without vowel letters.
proof fn lemma_no_voweled_syllable(cs: Seq<char>)
    requires
        forall|i: int| 0 <= i < cs.len() ==> !is_vowel_letter(#[trigger] cs[i]),
    ensures
        !starts_voweled_syllable(cs),
{
    lemma_head_render(cs);
}

proof fn lemma_syllable_spelling_parts(s: Syllable)
    requires
        s.bottom_syllable is None,
    ensures
        s.spec_mlcts() =~= s.consonant.spec_mlcts() + s.vowel.basic.spec_mlcts() + (final_spelling(
            s.vowel.virama,
        ) + tone_spelling(s.vowel.tone)),
{
}

proof fn lemma_read_back_generic(
    m: Seq<char>,
    onset: Seq<char>,
    vv: Seq<char>,
    f: Option<Virama>,
    t: Option<Tone>,
)
    requires
        m == onset + vv + (final_spelling(f) + tone_spelling(t)),
        spec_head(m) matches Some((c2, v2, k, true)) && k == onset.len() + vv.len() && c2.spec_mlcts()
            + v2.spec_mlcts() == onset + vv,
        (f matches Some(x) && x.spec_is_stop()) ==> t is None,
    ensures
        spec_mlcts_syllable(m) matches Some((s2, k)) && k == m.len() && s2.spec_mlcts() == m,
{
    let fs = final_spelling(f);
    let ts = tone_spelling(t);
    let rest = fs + ts;
    let l = onset.len() + vv.len();
    lemma_coda_of_spelling(f, t);
    assert(m.skip(l as int) =~= rest);
    lemma_no_voweled_syllable(rest);
    reveal(spec_mlcts_syllable);
    let (c2, v2, k, w) = spec_head(m)->0;
    let s2 = Syllable { consonant: c2, vowel: Vowel { basic: v2, virama: f, tone: t }, bottom_syllable: None };
    assert(s2.spec_mlcts() =~= c2.spec_mlcts() + v2.spec_mlcts() + fs + ts);
    if f is None {
        assert(fs =~= Seq::<char>::empty());
        assert(rest =~= ts);
    }
    assert(m =~= c2.spec_mlcts() + v2.spec_mlcts() + fs + ts);
}

/// The MLCTS spelling of every well-formed syllable with nothing stacked
/// below it is read back as one syllable that takes the whole spelling and
/// is spelled the same way.
pub proof fn lemma_syllable_spelling_read_back(s: Syllable)
    requires
        s.bottom_syllable is None,
        s.vowel.wf(),
    ensures
        spec_mlcts_syllable(s.spec_mlcts()) matches Some((s2, k)) && k == s.spec_mlcts().len()
            && s2.spec_mlcts() == s.spec_mlcts(),
{
    let c = s.consonant;
    let has_h = c.medial matches Some(m) && m.spec_has_h();
    let pre: Seq<char> = if has_h { seq!['h'] } else { Seq::empty() };
    let tm = if has_h { without_h(c.medial->0) } else { c.medial };
    lemma_consonant_spelling(c);
    let onset = pre + c.basic.spec_mlcts() + tail_spelling(tm);
    assert(onset =~= c.spec_mlcts());
    let vv = s.vowel.basic.spec_mlcts();
    let rest = final_spelling(s.vowel.virama) + tone_spelling(s.vowel.tone);
    lemma_coda_of_spelling(s.vowel.virama, s.vowel.tone);
    lemma_head_of_spelling(pre, c.basic, tm, s.vowel.basic, rest);
    lemma_syllable_spelling_parts(s);
    lemma_read_back_generic(s.spec_mlcts(), onset, vv, s.vowel.virama, s.vowel.tone);
}

/// No `n` stands right before an `h`, so normalizing changes nothing.
pub open spec fn no_nh(cs: Seq<char>) -> bool {
    forall|i: int| 0 <= i < cs.len() - 1 ==> !(#[trigger] cs[i] == 'n' && cs[i + 1] == 'h')
}

proof fn lemma_normalize_identity(cs: Seq<char>)
    requires
        no_nh(cs),
    ensures
        spec_normalize(cs) == cs,
    decreases cs.len(),
{
    if cs.len() > 0 {
        let t = cs.skip(1);
        assert(forall|i: int| 0 <= i < t.len() ==> t[i] == cs[i + 1]);
        assert(no_nh(t));
        lemma_normalize_identity(t);
        assert(seq![cs[0]] + t =~= cs);
    }
}

proof fn lemma_spelling_concat(a: Seq<char>, b: Seq<char>)
    requires
        no_nh(a),
        no_nh(b),
        is_ascii_chars(a),
        is_ascii_chars(b),
        !(a.len() > 0 && b.len() > 0 && a.last() == 'n' && b[0] == 'h'),
    ensures
        no_nh(a + b),
        is_ascii_chars(a + b),
{
    let cs = a + b;
    assert(forall|i: int| 0 <= i < cs.len() ==> cs[i] == if i < a.len() { a[i] } else { b[i - a.len()] });
    assert forall|i: int| 0 <= i < cs.len() - 1 implies !(#[trigger] cs[i] == 'n' && cs[i + 1] == 'h') by {
        if i + 1 < a.len() {
            assert(cs[i] == a[i] && cs[i + 1] == a[i + 1]);
        } else if i + 1 == a.len() {
        } else {
            assert(cs[i] == b[i - a.len()] && cs[i + 1] == b[i - a.len() + 1]);
        }
    }
}

proof fn lemma_part_spellings(b: BasicConsonant, m: Option<MedialDiacritic>, v: BasicVowel, f: Option<Virama>, t: Option<Tone>)
    ensures
        no_nh(b.spec_mlcts()) && is_ascii_chars(b.spec_mlcts()) && b.spec_mlcts().len() >= 1,
        no_nh(tail_spelling(m)) && is_ascii_chars(tail_spelling(m)),
        tail_spelling(m).len() > 0 ==> is_tail_letter(tail_spelling(m)[0]),
        no_nh(v.spec_mlcts()) && is_ascii_chars(v.spec_mlcts()),
        v.spec_mlcts().len() >= 1 && is_vowel_letter(v.spec_mlcts()[0]) && is_vowel_letter(v.spec_mlcts().last()),
        no_nh(final_spelling(f)) && is_ascii_chars(final_spelling(f)),
        no_nh(tone_spelling(t)) && is_ascii_chars(tone_spelling(t)),
        tone_spelling(t).len() > 0 ==> tone_spelling(t)[0] == ':' || tone_spelling(t)[0] == '.',
        no_nh(seq!['h']) && is_ascii_chars(seq!['h']),
        no_nh(Seq::<char>::empty()) && is_ascii_chars(Seq::<char>::empty()),
        b.spec_mlcts().len() <= 2 && tail_spelling(m).len() <= 2 && v.spec_mlcts().len() <= 2,
        final_spelling(f).len() <= 2 && tone_spelling(t).len() <= 1,
{
}

proof fn lemma_spelling_chars_generic(
    pre: Seq<char>,
    bs: Seq<char>,
    ts: Seq<char>,
    vv: Seq<char>,
    fs: Seq<char>,
    tn: Seq<char>,
)
    requires
        pre == Seq::<char>::empty() || pre == seq!['h'],
        no_nh(pre) && is_ascii_chars(pre),
        no_nh(bs) && is_ascii_chars(bs) && bs.len() >= 1 && bs[0] != ' ' && bs[0] != '\t' && bs[0] != '\n'
            && bs[0] != '\x0C' && bs[0] != '\r',
        no_nh(ts) && is_ascii_chars(ts),
        ts.len() > 0 ==> is_tail_letter(ts[0]),
        no_nh(vv) && is_ascii_chars(vv),
        vv.len() >= 1 && is_vowel_letter(vv[0]) && is_vowel_letter(vv.last()),
        no_nh(fs) && is_ascii_chars(fs),
        no_nh(tn) && is_ascii_chars(tn),
        tn.len() > 0 ==> tn[0] == ':' || tn[0] == '.',
        bs.len() <= 2 && ts.len() <= 2 && vv.len() <= 2 && fs.len() <= 2 && tn.len() <= 1,
    ensures
        ({
            let cs = pre + bs + ts + vv + (fs + tn);
            &&& cs.len() <= 10
            &&& no_nh(cs)
            &&& is_ascii_chars(cs)
            &&& cs.len() > 0
            &&& cs[0] != ' ' && cs[0] != '\t' && cs[0] != '\n' && cs[0] != '\x0C' && cs[0] != '\r'
        }),
{
    lemma_spelling_concat(pre, bs);
    let p1 = pre + bs;
    assert(p1.last() == bs.last());
    lemma_spelling_concat(p1, ts);
    let p2 = p1 + ts;
    lemma_spelling_concat(p2, vv);
    let p3 = p2 + vv;
    assert(p3.last() == vv.last());
    lemma_spelling_concat(fs, tn);
    lemma_spelling_concat(p3, fs + tn);
    assert(p1[0] == if pre.len() > 0 { 'h' } else { bs[0] });
    assert((p3 + (fs + tn))[0] == p1[0]);
}

/// The spelling of a syllable with nothing stacked below it is ASCII and
/// holds no `n` before an `h`.
proof fn lemma_syllable_spelling_chars(s: Syllable)
    requires
        s.bottom_syllable is None,
    ensures
        no_nh(s.spec_mlcts()),
        is_ascii_chars(s.spec_mlcts()),
        0 < s.spec_mlcts().len() <= 10,
        s.spec_mlcts()[0] != ' ' && s.spec_mlcts()[0] != '\t' && s.spec_mlcts()[0] != '\n'
            && s.spec_mlcts()[0] != '\x0C' && s.spec_mlcts()[0] != '\r',
{
    let c = s.consonant;
    let has_h = c.medial matches Some(m) && m.spec_has_h();
    let pre: Seq<char> = if has_h { seq!['h'] } else { Seq::empty() };
    let tm = if has_h { without_h(c.medial->0) } else { c.medial };
    lemma_consonant_spelling(c);
    lemma_syllable_spelling_parts(s);
    lemma_part_spellings(c.basic, tm, s.vowel.basic, s.vowel.virama, s.vowel.tone);
    let bs = c.basic.spec_mlcts();
    assert(bs[0] != ' ' && bs[0] != '\t' && bs[0] != '\n' && bs[0] != '\x0C' && bs[0] != '\r');
    lemma_spelling_chars_generic(
        pre,
        bs,
        tail_spelling(tm),
        s.vowel.basic.spec_mlcts(),
        final_spelling(s.vowel.virama),
        tone_spelling(s.vowel.tone),
    );
    assert(c.spec_mlcts() =~= pre + bs + tail_spelling(tm));
}

proof fn lemma_tokenize_one_syllable(m: Seq<char>)
    requires
        no_nh(m),
        is_ascii_chars(m),
        0 < m.len() <= 10,
        m[0] != ' ' && m[0] != '\t' && m[0] != '\n' && m[0] != '\x0C' && m[0] != '\r',
        spec_mlcts_syllable(m) matches Some((s2, k)) && k == m.len() && s2.spec_mlcts() == m,
    ensures
        ({
            let toks = spec_tokenize(m);
            &&& toks.len() == 1
            &&& toks[0].start == 0
            &&& toks[0].len == m.len()
            &&& toks[0].kind matches TokenKind::Syllable(s2) && s2.spec_mlcts() == m
        }),
{
    lemma_normalize_identity(m);
    assert(spec_normalize(m).skip(0) =~= m);
    assert(spec_token(m).1 == m.len());
    assert(spec_token_len(m, 0) == m.len());
    is_ascii_chars_encode_utf8(m);
    assert(m.take(0) =~= Seq::<char>::empty());
    assert(utf8_len(Seq::<char>::empty()) == 0);
    assert(m.subrange(0, m.len() as int) =~= m);
    let tok = spec_token_at(m, 0);
    assert(tok.start == 0);
    assert(tok.len == m.len());
    lemma_tokens_from_step(m, 0);
    lemma_tokens_from_step(m, m.len());
    assert(spec_tokenize(m) =~= seq![tok]);
}

/// Tokenizing the MLCTS spelling of a well-formed syllable with nothing
/// stacked below it gives exactly one token: a syllable that covers the
/// whole spelling and is spelled the same way.
pub proof fn lemma_tokenize_syllable_spelling(s: Syllable)
    requires
        s.bottom_syllable is None,
        s.vowel.wf(),
    ensures
        ({
            let m = s.spec_mlcts();
            let toks = spec_tokenize(m);
            &&& toks.len() == 1
            &&& toks[0].start == 0
            &&& toks[0].len == m.len()
            &&& toks[0].kind matches TokenKind::Syllable(s2) && s2.spec_mlcts() == m
        }),
{
    lemma_syllable_spelling_chars(s);
    lemma_syllable_spelling_read_back(s);
    lemma_tokenize_one_syllable(s.spec_mlcts());
}

} // verus!

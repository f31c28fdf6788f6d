//! The Myanmar-script decomposer: reads one syllable of Myanmar text into a
//! `Syllable`, and transliterates whole texts into MLCTS.
use vstd::prelude::*;
use vstd::string::{StrSliceExecFns, StringExecFns};
use crate::segment::{spec_split_syllables, split_syllables};
use crate::text::{at, chars_of, peek, str_byte_len, utf8_len, utf8_width};
use crate::phoneme::{BaseSyllable, BasicConsonant, BasicVowel, Consonant, MedialDiacritic, Syllable, Tone, Virama, Vowel};

verus! {

/// Why a span of Myanmar text could not be read as a syllable.
#[derive(Debug, Clone, Copy, PartialEq, Eq, Structural)]
pub enum ParseError {
    /// The span does not start with a consonant letter.
    NotAConsonant,
    /// What follows the vowel matches no row of the closure table.
    UnknownCluster,
    /// A stacked cluster ends before its bottom consonant.
    UnexpectedEnd,
}

/// What follows the vowel: a final, a stacked cluster or the ligature ဿ.
#[derive(Debug, Clone, Copy, PartialEq, Eq, Structural)]
pub enum Closure {
    /// A final written with the asat, the tone mark after it if any, and
    /// the number of characters taken.
    Final(Virama, Option<Tone>, usize),
    /// A final on top of a stacked cluster, and the number of characters
    /// before the bottom syllable.
    Stacked(Virama, usize),
    /// The ligature ဿ, which stands for သ္သ.
    Ligature,
    /// No row matches.
    Fail(ParseError),
}

/// The medial cluster at the start of `cs` and the number of marks it takes:
/// the first of the shapes ြွှ, ျွှ, ွှ, ြွ, ျွ, ြှ, ျှ, ွ, ြ, ျ, ှ that
/// matches.
#[verifier::opaque]
pub open spec fn spec_medial(cs: Seq<char>) -> (Option<MedialDiacritic>, usize) {
    match (at(cs, 0), at(cs, 1), at(cs, 2)) {
        (Some('\u{103C}'), Some('\u{103D}'), Some('\u{103E}')) => (Some(MedialDiacritic::Hrw), 3),
        (Some('\u{103B}'), Some('\u{103D}'), Some('\u{103E}')) => (Some(MedialDiacritic::Hyw), 3),
        (Some('\u{103D}'), Some('\u{103E}'), _) => (Some(MedialDiacritic::Hw), 2),
        (Some('\u{103C}'), Some('\u{103D}'), _) => (Some(MedialDiacritic::Rw), 2),
        (Some('\u{103B}'), Some('\u{103D}'), _) => (Some(MedialDiacritic::Yw), 2),
        (Some('\u{103C}'), Some('\u{103E}'), _) => (Some(MedialDiacritic::Hr), 2),
        (Some('\u{103B}'), Some('\u{103E}'), _) => (Some(MedialDiacritic::Hy), 2),
        (Some('\u{103D}'), _, _) => (Some(MedialDiacritic::W), 1),
        (Some('\u{103C}'), _, _) => (Some(MedialDiacritic::R), 1),
        (Some('\u{103B}'), _, _) => (Some(MedialDiacritic::Y), 1),
        (Some('\u{103E}'), _, _) => (Some(MedialDiacritic::H), 1),
        _ => (None, 0),
    }
}

/// The onset at the start of `cs` and the number of characters it takes: a
/// consonant letter (စျ reads as ဈ, and the medial marks after it are read
/// as after ဈ) and, unless the letter is အ, its medial cluster.
pub open spec fn spec_parse_consonant(cs: Seq<char>) -> Option<(Consonant, nat)> {
    if at(cs, 0) == Some('စ') && at(cs, 1) == Some('\u{103B}') {
        let (m, k) = spec_medial(cs.skip(2));
        Some((Consonant { basic: BasicConsonant::Jh, medial: m }, (2 + k) as nat))
    } else if cs.len() == 0 {
        None
    } else {
        match BasicConsonant::spec_from_myanmar(cs[0]) {
            None => None,
            Some(BasicConsonant::A) => Some((Consonant { basic: BasicConsonant::A, medial: None }, 1)),
            Some(b) => {
                let (m, k) = spec_medial(cs.skip(1));
                Some((Consonant { basic: b, medial: m }, (1 + k) as nat))
            },
        }
    }
}

/// The vowel signs at the start of `cs` (what follows the onset): the vowel
/// quality, its tone, the number of characters taken, and whether the
/// syllable ends there. The first matching shape wins; "end" means that the
/// text ends after the shape.
#[verifier::opaque]
pub open spec fn spec_vowel_signs(cs: Seq<char>) -> (BasicVowel, Option<Tone>, usize, bool) {
    match (at(cs, 0), at(cs, 1), at(cs, 2)) {
        // ား end
        (Some('\u{102C}'), Some('\u{1038}'), None) => (BasicVowel::A, Some(Tone::High), 2, true),
        // ာ end
        (Some('\u{102C}'), None, _) => (BasicVowel::A, None, 1, true),
        // ာ
        (Some('\u{102C}'), _, _) => (BasicVowel::A, None, 1, false),
        // ယ် end
        (Some('ယ'), Some('\u{103A}'), None) => (BasicVowel::Ai, None, 2, true),
        // ဲ့ end
        (Some('\u{1032}'), Some('\u{1037}'), None) => (BasicVowel::Ai, Some(Tone::Creaky), 2, true),
        // ဲ end
        (Some('\u{1032}'), None, _) => (BasicVowel::Ai, Some(Tone::High), 1, true),
        // ော်
        (Some('\u{1031}'), Some('\u{102C}'), Some('\u{103A}')) => (BasicVowel::Au, None, 3, true),
        // ော့
        (Some('\u{1031}'), Some('\u{102C}'), Some('\u{1037}')) => (BasicVowel::Au, Some(Tone::Creaky), 3, true),
        // ော end
        (Some('\u{1031}'), Some('\u{102C}'), None) => (BasicVowel::Au, None, 2, true),
        // ော
        (Some('\u{1031}'), Some('\u{102C}'), _) => (BasicVowel::Au, None, 2, false),
        // ူ end
        (Some('\u{1030}'), None, _) => (BasicVowel::U, None, 1, true),
        // ူး end
        (Some('\u{1030}'), Some('\u{1038}'), None) => (BasicVowel::U, Some(Tone::High), 2, true),
        // ု end
        (Some('\u{102F}'), None, _) => (BasicVowel::U, None, 1, true),
        // ု
        (Some('\u{102F}'), _, _) => (BasicVowel::U, Some(Tone::Creaky), 1, false),
        // ိုး
        (Some('\u{102D}'), Some('\u{102F}'), Some('\u{1038}')) => (BasicVowel::Ui, Some(Tone::High), 3, true),
        // ို့
        (Some('\u{102D}'), Some('\u{102F}'), Some('\u{1037}')) => (BasicVowel::Ui, Some(Tone::Creaky), 3, true),
        // ို end
        (Some('\u{102D}'), Some('\u{102F}'), None) => (BasicVowel::Ui, None, 2, true),
        // ို
        (Some('\u{102D}'), Some('\u{102F}'), _) => (BasicVowel::Ui, None, 2, false),
        // ီ end
        (Some('\u{102E}'), None, _) => (BasicVowel::I, None, 1, true),
        // ီး end
        (Some('\u{102E}'), Some('\u{1038}'), None) => (BasicVowel::I, Some(Tone::High), 2, true),
        // ိ end
        (Some('\u{102D}'), None, _) => (BasicVowel::I, None, 1, true),
        // ိ
        (Some('\u{102D}'), _, _) => (BasicVowel::I, None, 1, false),
        // ေး end
        (Some('\u{1031}'), Some('\u{1038}'), None) => (BasicVowel::E, Some(Tone::High), 2, true),
        // ေ့ end
        (Some('\u{1031}'), Some('\u{1037}'), None) => (BasicVowel::E, Some(Tone::Creaky), 2, true),
        // ေ end
        (Some('\u{1031}'), None, _) => (BasicVowel::E, None, 1, true),
        // ေ
        (Some('\u{1031}'), _, _) => (BasicVowel::E, None, 1, false),
        // no vowel sign: the inherent vowel
        _ => (BasicVowel::A, None, 0, false),
    }
}

/// The letters that may stand below a stacked final, one set per final.
pub open spec fn is_bottom_k(c: Option<char>) -> bool { c == Some('က') || c == Some('ခ') }
pub open spec fn is_bottom_g(c: Option<char>) -> bool { c == Some('ဂ') || c == Some('ဃ') }
pub open spec fn is_bottom_c(c: Option<char>) -> bool { c == Some('စ') || c == Some('ဆ') }
pub open spec fn is_bottom_j(c: Option<char>) -> bool { c == Some('ဇ') || c == Some('ဈ') }
pub open spec fn is_bottom_ny(c: Option<char>) -> bool { c == Some('စ') || c == Some('ဇ') }
pub open spec fn is_bottom_retroflex_t(c: Option<char>) -> bool { c == Some('ဋ') || c == Some('ဌ') }
pub open spec fn is_bottom_retroflex_d(c: Option<char>) -> bool { c == Some('ဍ') || c == Some('ဎ') }
pub open spec fn is_bottom_n(c: Option<char>) -> bool {
    c == Some('တ') || c == Some('ထ') || c == Some('ဒ') || c == Some('ဓ') || c == Some('န')
}
pub open spec fn is_bottom_b(c: Option<char>) -> bool { c == Some('ဗ') || c == Some('ဘ') }
pub open spec fn is_bottom_m(c: Option<char>) -> bool {
    c == Some('ပ') || c == Some('ဗ') || c == Some('ဘ') || c == Some('မ')
}
pub open spec fn is_ny(c: Option<char>) -> bool { c == Some('ည') || c == Some('ဉ') }

/// The closure table: what the characters after the vowel make of the
/// syllable. `ASAT` is ်, `STACK` is ္; a tone mark is း (high) or ့
/// (creaky).
#[verifier::opaque]
pub open spec fn spec_closure(cs: Seq<char>) -> Closure {
    let t = at(cs, 0);
    let sg = at(cs, 1);
    let x = at(cs, 2);
    let y = at(cs, 3);
    let asat = Some('\u{103A}');
    let stack = Some('\u{1039}');
    let high = Some('\u{1038}');
    let creaky = Some('\u{1037}');
    if t == Some('က') && sg == asat && x is None { Closure::Final(Virama::K, None, 2) }
    else if t == Some('က') && sg == stack && is_bottom_k(x) { Closure::Stacked(Virama::K, 2) }
    else if t == Some('ဂ') && sg == stack && is_bottom_g(x) { Closure::Stacked(Virama::G, 2) }
    else if t == Some('င') && sg == asat && x == stack && y is None { Closure::Fail(ParseError::UnexpectedEnd) }
    else if t == Some('င') && sg == asat && x == stack { Closure::Stacked(Virama::Ng, 3) }
    else if t == Some('င') && sg == asat && x == high && y is None { Closure::Final(Virama::Ng, Some(Tone::High), 3) }
    else if t == Some('င') && sg == asat && x == creaky && y is None { Closure::Final(Virama::Ng, Some(Tone::Creaky), 3) }
    else if t == Some('စ') && sg == asat && x is None { Closure::Final(Virama::C, None, 2) }
    else if t == Some('စ') && sg == stack && is_bottom_c(x) { Closure::Stacked(Virama::C, 2) }
    else if t == Some('ဇ') && sg == stack && is_bottom_j(x) { Closure::Stacked(Virama::J, 2) }
    else if is_ny(t) && sg == asat && x is None { Closure::Final(Virama::Ny, None, 2) }
    else if is_ny(t) && sg == asat && x == creaky && y is None { Closure::Final(Virama::Ny, Some(Tone::Creaky), 3) }
    else if is_ny(t) && sg == asat && x == high && y is None { Closure::Final(Virama::Ny, Some(Tone::High), 3) }
    else if is_ny(t) && sg == stack && is_bottom_ny(x) { Closure::Stacked(Virama::Ny, 2) }
    else if t == Some('ဋ') && sg == asat && x is None { Closure::Final(Virama::T, None, 2) }
    else if t == Some('ဋ') && sg == stack && is_bottom_retroflex_t(x) { Closure::Stacked(Virama::T, 2) }
    else if t == Some('ဍ') && sg == stack && is_bottom_retroflex_d(x) { Closure::Stacked(Virama::D, 2) }
    else if t == Some('ဏ') && sg == asat && x is None { Closure::Final(Virama::N, None, 2) }
    else if t == Some('ဏ') && sg == stack && x == Some('ဍ') { Closure::Stacked(Virama::N, 2) }
    else if t == Some('တ') && sg == asat && x is None { Closure::Final(Virama::T, None, 2) }
    else if t == Some('တ') && sg == stack && x == Some('တ') { Closure::Stacked(Virama::T, 2) }
    else if t == Some('ထ') && sg == stack && x == Some('ထ') { Closure::Stacked(Virama::Ht, 2) }
    else if t == Some('ဒ') && sg == stack && x == Some('ဒ') { Closure::Stacked(Virama::D, 2) }
    else if t == Some('န') && sg == asat && x is None { Closure::Final(Virama::N, None, 2) }
    else if t == Some('န') && sg == asat && x == high && y is None { Closure::Final(Virama::N, Some(Tone::High), 3) }
    else if t == Some('န') && sg == asat && x == creaky && y is None { Closure::Final(Virama::N, Some(Tone::Creaky), 3) }
    else if t == Some('န') && sg == stack && is_bottom_n(x) { Closure::Stacked(Virama::N, 2) }
    else if t == Some('ပ') && sg == asat && x is None { Closure::Final(Virama::P, None, 2) }
    else if t == Some('ပ') && sg == stack && x == Some('ပ') { Closure::Stacked(Virama::P, 2) }
    else if t == Some('ဗ') && sg == stack && is_bottom_b(x) { Closure::Stacked(Virama::B, 2) }
    else if t == Some('မ') && sg == asat && x is None { Closure::Final(Virama::M, None, 2) }
    else if t == Some('မ') && sg == asat && x == high && y is None { Closure::Final(Virama::M, Some(Tone::High), 3) }
    else if t == Some('မ') && sg == asat && x == creaky && y is None { Closure::Final(Virama::M, Some(Tone::Creaky), 3) }
    else if t == Some('မ') && sg == stack && is_bottom_m(x) { Closure::Stacked(Virama::M, 2) }
    else if t == Some('\u{103F}') { Closure::Ligature }
    else if t == Some('လ') && sg == stack && x == Some('လ') { Closure::Stacked(Virama::L, 2) }
    else { Closure::Fail(ParseError::UnknownCluster) }
}

/// The rhyme after a final: the final set, the tone of the mark after the
/// asat if there is one, else the vowel's own tone, which a stop final drops.
pub open spec fn spec_close_vowel(v: Vowel, f: Virama, mark: Option<Tone>) -> Vowel {
    Vowel {
        basic: v.basic,
        virama: Some(f),
        tone: if mark is Some { mark } else if f.spec_is_stop() { None } else { v.tone },
    }
}

/// Reads one syllable at the start of `cs`: the syllable and the number of
/// characters it takes. The onset comes first, then the vowel signs, then
/// the closure table; a stacked syllable below a final is read the same
/// way, and ဿ reads as သ above a syllable starting with သ.
pub open spec fn spec_parse_syllable(cs: Seq<char>) -> Result<(Syllable, nat), ParseError>
    decreases cs.len(),
{
    match spec_parse_consonant(cs) {
        None => Err(ParseError::NotAConsonant),
        Some((c, k)) => {
            let plain = Vowel { basic: BasicVowel::A, virama: None, tone: None };
            if k >= cs.len() {
                Ok((Syllable { consonant: c, vowel: plain, bottom_syllable: None }, k))
            } else {
                let (b, t, vk, done) = spec_vowel_signs(cs.skip(k as int));
                let v = Vowel { basic: b, virama: None, tone: t };
                let p = (k + vk) as nat;
                if done {
                    Ok((Syllable { consonant: c, vowel: v, bottom_syllable: None }, p))
                } else if p >= cs.len() {
                    Err(ParseError::UnknownCluster)
                } else {
                    match spec_closure(cs.skip(p as int)) {
                        Closure::Final(f, mark, n) => Ok((
                            Syllable { consonant: c, vowel: spec_close_vowel(v, f, mark), bottom_syllable: None },
                            (p + n) as nat,
                        )),
                        Closure::Stacked(f, n) => {
                            if p + n > cs.len() { Err(ParseError::UnexpectedEnd) } else {
                            match spec_parse_syllable(cs.skip(p + n)) {
                                Ok((bottom, bk)) => Ok((
                                    Syllable {
                                        consonant: c,
                                        vowel: spec_close_vowel(v, f, None),
                                        bottom_syllable: Some(BaseSyllable { consonant: bottom.consonant, vowel: bottom.vowel }),
                                    },
                                    (p + n + bk) as nat,
                                )),
                                Err(e) => Err(e),
                            }}
                        },
                        Closure::Ligature => {
                            match spec_parse_syllable(cs.skip(p as int).update(0, 'သ')) {
                                Ok((bottom, bk)) => Ok((
                                    Syllable {
                                        consonant: c,
                                        vowel: spec_close_vowel(v, Virama::S, None),
                                        bottom_syllable: Some(BaseSyllable { consonant: bottom.consonant, vowel: bottom.vowel }),
                                    },
                                    (p + bk) as nat,
                                )),
                                Err(e) => Err(e),
                            }
                        },
                        Closure::Fail(e) => Err(e),
                    }
                }
            }
        },
    }
}

fn parse_medial(cs: &Vec<char>, i: usize) -> (r: (Option<MedialDiacritic>, usize))
    requires
        i <= cs@.len(),
    ensures
        r == spec_medial(cs@.skip(i as int)),
        r.1 <= 3,
        r.1 <= cs@.len() - i,
{
    reveal(spec_medial);
    match (peek(cs, i, 0), peek(cs, i, 1), peek(cs, i, 2)) {
        (Some('\u{103C}'), Some('\u{103D}'), Some('\u{103E}')) => (Some(MedialDiacritic::Hrw), 3),
        (Some('\u{103B}'), Some('\u{103D}'), Some('\u{103E}')) => (Some(MedialDiacritic::Hyw), 3),
        (Some('\u{103D}'), Some('\u{103E}'), _) => (Some(MedialDiacritic::Hw), 2),
        (Some('\u{103C}'), Some('\u{103D}'), _) => (Some(MedialDiacritic::Rw), 2),
        (Some('\u{103B}'), Some('\u{103D}'), _) => (Some(MedialDiacritic::Yw), 2),
        (Some('\u{103C}'), Some('\u{103E}'), _) => (Some(MedialDiacritic::Hr), 2),
        (Some('\u{103B}'), Some('\u{103E}'), _) => (Some(MedialDiacritic::Hy), 2),
        (Some('\u{103D}'), _, _) => (Some(MedialDiacritic::W), 1),
        (Some('\u{103C}'), _, _) => (Some(MedialDiacritic::R), 1),
        (Some('\u{103B}'), _, _) => (Some(MedialDiacritic::Y), 1),
        (Some('\u{103E}'), _, _) => (Some(MedialDiacritic::H), 1),
        _ => (None, 0),
    }
}

/// Reads the onset at `i`: its consonant and the number of characters taken.
fn parse_consonant(cs: &Vec<char>, i: usize) -> (r: Option<(Consonant, usize)>)
    requires
        i <= cs@.len(),
    ensures
        match spec_parse_consonant(cs@.skip(i as int)) {
            Some((c, k)) => r == Some((c, k as usize)) && 1 <= k <= 5 && i + k <= cs@.len(),
            None => r is None,
        },
{
    let total = cs.len();
    if peek(cs, i, 0) == Some('စ') && peek(cs, i, 1) == Some('\u{103B}') {
        let (m, k) = parse_medial(cs, i + 2);
        assert(cs@.skip(i as int).skip(2) =~= cs@.skip(i + 2));
        return Some((Consonant::new(BasicConsonant::Jh, m), 2 + k));
    }
    if i == cs.len() {
        return None;
    }
    assert(cs@.skip(i as int)[0] == cs@[i as int]);
    match BasicConsonant::from_my_alphabet(cs[i]) {
        Err(_) => None,
        Ok(BasicConsonant::A) => Some((Consonant::simple(BasicConsonant::A), 1)),
        Ok(b) => {
            let (m, k) = parse_medial(cs, i + 1);
            assert(cs@.skip(i as int).skip(1) =~= cs@.skip(i + 1));
            Some((Consonant::new(b, m), 1 + k))
        },
    }
}

/// The same letter sets, for executable code.
#[verifier::when_used_as_spec(is_bottom_k)]
fn exec_is_bottom_k(c: Option<char>) -> (r: bool)
    ensures
        r == is_bottom_k(c),
{
    c == Some('က') || c == Some('ခ')
}

#[verifier::when_used_as_spec(is_bottom_g)]
fn exec_is_bottom_g(c: Option<char>) -> (r: bool)
    ensures
        r == is_bottom_g(c),
{
    c == Some('ဂ') || c == Some('ဃ')
}

#[verifier::when_used_as_spec(is_bottom_c)]
fn exec_is_bottom_c(c: Option<char>) -> (r: bool)
    ensures
        r == is_bottom_c(c),
{
    c == Some('စ') || c == Some('ဆ')
}

#[verifier::when_used_as_spec(is_bottom_j)]
fn exec_is_bottom_j(c: Option<char>) -> (r: bool)
    ensures
        r == is_bottom_j(c),
{
    c == Some('ဇ') || c == Some('ဈ')
}

#[verifier::when_used_as_spec(is_bottom_ny)]
fn exec_is_bottom_ny(c: Option<char>) -> (r: bool)
    ensures
        r == is_bottom_ny(c),
{
    c == Some('စ') || c == Some('ဇ')
}

#[verifier::when_used_as_spec(is_bottom_retroflex_t)]
fn exec_is_bottom_retroflex_t(c: Option<char>) -> (r: bool)
    ensures
        r == is_bottom_retroflex_t(c),
{
    c == Some('ဋ') || c == Some('ဌ')
}

#[verifier::when_used_as_spec(is_bottom_retroflex_d)]
fn exec_is_bottom_retroflex_d(c: Option<char>) -> (r: bool)
    ensures
        r == is_bottom_retroflex_d(c),
{
    c == Some('ဍ') || c == Some('ဎ')
}

#[verifier::when_used_as_spec(is_bottom_n)]
fn exec_is_bottom_n(c: Option<char>) -> (r: bool)
    ensures
        r == is_bottom_n(c),
{
    c == Some('တ') || c == Some('ထ') || c == Some('ဒ') || c == Some('ဓ') || c == Some('န')
}

#[verifier::when_used_as_spec(is_bottom_b)]
fn exec_is_bottom_b(c: Option<char>) -> (r: bool)
    ensures
        r == is_bottom_b(c),
{
    c == Some('ဗ') || c == Some('ဘ')
}

#[verifier::when_used_as_spec(is_bottom_m)]
fn exec_is_bottom_m(c: Option<char>) -> (r: bool)
    ensures
        r == is_bottom_m(c),
{
    c == Some('ပ') || c == Some('ဗ') || c == Some('ဘ') || c == Some('မ')
}

#[verifier::when_used_as_spec(is_ny)]
fn exec_is_ny(c: Option<char>) -> (r: bool)
    ensures
        r == is_ny(c),
{
    c == Some('ည') || c == Some('ဉ')
}

/// Reads the vowel signs at `i`.
fn vowel_signs(cs: &Vec<char>, i: usize) -> (r: (BasicVowel, Option<Tone>, usize, bool))
    requires
        i <= cs@.len(),
    ensures
        r == spec_vowel_signs(cs@.skip(i as int)),
        r.2 <= cs@.len() - i,
{
    reveal(spec_vowel_signs);
    match (peek(cs, i, 0), peek(cs, i, 1), peek(cs, i, 2)) {
        // ား end
        (Some('\u{102C}'), Some('\u{1038}'), None) => (BasicVowel::A, Some(Tone::High), 2, true),
        // ာ end
        (Some('\u{102C}'), None, _) => (BasicVowel::A, None, 1, true),
        // ာ
        (Some('\u{102C}'), _, _) => (BasicVowel::A, None, 1, false),
        // ယ် end
        (Some('ယ'), Some('\u{103A}'), None) => (BasicVowel::Ai, None, 2, true),
        // ဲ့ end
        (Some('\u{1032}'), Some('\u{1037}'), None) => (BasicVowel::Ai, Some(Tone::Creaky), 2, true),
        // ဲ end
        (Some('\u{1032}'), None, _) => (BasicVowel::Ai, Some(Tone::High), 1, true),
        // ော်
        (Some('\u{1031}'), Some('\u{102C}'), Some('\u{103A}')) => (BasicVowel::Au, None, 3, true),
        // ော့
        (Some('\u{1031}'), Some('\u{102C}'), Some('\u{1037}')) => (BasicVowel::Au, Some(Tone::Creaky), 3, true),
        // ော end
        (Some('\u{1031}'), Some('\u{102C}'), None) => (BasicVowel::Au, None, 2, true),
        // ော
        (Some('\u{1031}'), Some('\u{102C}'), _) => (BasicVowel::Au, None, 2, false),
        // ူ end
        (Some('\u{1030}'), None, _) => (BasicVowel::U, None, 1, true),
        // ူး end
        (Some('\u{1030}'), Some('\u{1038}'), None) => (BasicVowel::U, Some(Tone::High), 2, true),
        // ု end
        (Some('\u{102F}'), None, _) => (BasicVowel::U, None, 1, true),
        // ု
        (Some('\u{102F}'), _, _) => (BasicVowel::U, Some(Tone::Creaky), 1, false),
        // ိုး
        (Some('\u{102D}'), Some('\u{102F}'), Some('\u{1038}')) => (BasicVowel::Ui, Some(Tone::High), 3, true),
        // ို့
        (Some('\u{102D}'), Some('\u{102F}'), Some('\u{1037}')) => (BasicVowel::Ui, Some(Tone::Creaky), 3, true),
        // ို end
        (Some('\u{102D}'), Some('\u{102F}'), None) => (BasicVowel::Ui, None, 2, true),
        // ို
        (Some('\u{102D}'), Some('\u{102F}'), _) => (BasicVowel::Ui, None, 2, false),
        // ီ end
        (Some('\u{102E}'), None, _) => (BasicVowel::I, None, 1, true),
        // ီး end
        (Some('\u{102E}'), Some('\u{1038}'), None) => (BasicVowel::I, Some(Tone::High), 2, true),
        // ိ end
        (Some('\u{102D}'), None, _) => (BasicVowel::I, None, 1, true),
        // ိ
        (Some('\u{102D}'), _, _) => (BasicVowel::I, None, 1, false),
        // ေး end
        (Some('\u{1031}'), Some('\u{1038}'), None) => (BasicVowel::E, Some(Tone::High), 2, true),
        // ေ့ end
        (Some('\u{1031}'), Some('\u{1037}'), None) => (BasicVowel::E, Some(Tone::Creaky), 2, true),
        // ေ end
        (Some('\u{1031}'), None, _) => (BasicVowel::E, None, 1, true),
        // ေ
        (Some('\u{1031}'), _, _) => (BasicVowel::E, None, 1, false),
        // no vowel sign: the inherent vowel
        _ => (BasicVowel::A, None, 0, false),
    }
}

/// Looks up the closure table at `i`.
fn closure(cs: &Vec<char>, i: usize) -> (r: Closure)
    requires
        i <= cs@.len(),
    ensures
        r == spec_closure(cs@.skip(i as int)),
        r matches Closure::Final(_, _, n) ==> n <= cs@.len() - i,
        r matches Closure::Stacked(_, n) ==> n < cs@.len() - i,
        r is Ligature ==> i < cs@.len(),
{
    reveal(spec_closure);
    let t = peek(cs, i, 0);
    let sg = peek(cs, i, 1);
    let x = peek(cs, i, 2);
    let y = peek(cs, i, 3);
    let asat: Option<char> = Some('\u{103A}');
    let stack: Option<char> = Some('\u{1039}');
    let high: Option<char> = Some('\u{1038}');
    let creaky: Option<char> = Some('\u{1037}');
    if t == Some('က') && sg == asat && x == None { Closure::Final(Virama::K, None, 2) }
    else if t == Some('က') && sg == stack && exec_is_bottom_k(x) { Closure::Stacked(Virama::K, 2) }
    else if t == Some('ဂ') && sg == stack && exec_is_bottom_g(x) { Closure::Stacked(Virama::G, 2) }
    else if t == Some('င') && sg == asat && x == stack && y == None { Closure::Fail(ParseError::UnexpectedEnd) }
    else if t == Some('င') && sg == asat && x == stack { Closure::Stacked(Virama::Ng, 3) }
    else if t == Some('င') && sg == asat && x == high && y == None { Closure::Final(Virama::Ng, Some(Tone::High), 3) }
    else if t == Some('င') && sg == asat && x == creaky && y == None { Closure::Final(Virama::Ng, Some(Tone::Creaky), 3) }
    else if t == Some('စ') && sg == asat && x == None { Closure::Final(Virama::C, None, 2) }
    else if t == Some('စ') && sg == stack && exec_is_bottom_c(x) { Closure::Stacked(Virama::C, 2) }
    else if t == Some('ဇ') && sg == stack && exec_is_bottom_j(x) { Closure::Stacked(Virama::J, 2) }
    else if exec_is_ny(t) && sg == asat && x == None { Closure::Final(Virama::Ny, None, 2) }
    else if exec_is_ny(t) && sg == asat && x == creaky && y == None { Closure::Final(Virama::Ny, Some(Tone::Creaky), 3) }
    else if exec_is_ny(t) && sg == asat && x == high && y == None { Closure::Final(Virama::Ny, Some(Tone::High), 3) }
    else if exec_is_ny(t) && sg == stack && exec_is_bottom_ny(x) { Closure::Stacked(Virama::Ny, 2) }
    else if t == Some('ဋ') && sg == asat && x == None { Closure::Final(Virama::T, None, 2) }
    else if t == Some('ဋ') && sg == stack && exec_is_bottom_retroflex_t(x) { Closure::Stacked(Virama::T, 2) }
    else if t == Some('ဍ') && sg == stack && exec_is_bottom_retroflex_d(x) { Closure::Stacked(Virama::D, 2) }
    else if t == Some('ဏ') && sg == asat && x == None { Closure::Final(Virama::N, None, 2) }
    else if t == Some('ဏ') && sg == stack && x == Some('ဍ') { Closure::Stacked(Virama::N, 2) }
    else if t == Some('တ') && sg == asat && x == None { Closure::Final(Virama::T, None, 2) }
    else if t == Some('တ') && sg == stack && x == Some('တ') { Closure::Stacked(Virama::T, 2) }
    else if t == Some('ထ') && sg == stack && x == Some('ထ') { Closure::Stacked(Virama::Ht, 2) }
    else if t == Some('ဒ') && sg == stack && x == Some('ဒ') { Closure::Stacked(Virama::D, 2) }
    else if t == Some('န') && sg == asat && x == None { Closure::Final(Virama::N, None, 2) }
    else if t == Some('န') && sg == asat && x == high && y == None { Closure::Final(Virama::N, Some(Tone::High), 3) }
    else if t == Some('န') && sg == asat && x == creaky && y == None { Closure::Final(Virama::N, Some(Tone::Creaky), 3) }
    else if t == Some('န') && sg == stack && exec_is_bottom_n(x) { Closure::Stacked(Virama::N, 2) }
    else if t == Some('ပ') && sg == asat && x == None { Closure::Final(Virama::P, None, 2) }
    else if t == Some('ပ') && sg == stack && x == Some('ပ') { Closure::Stacked(Virama::P, 2) }
    else if t == Some('ဗ') && sg == stack && exec_is_bottom_b(x) { Closure::Stacked(Virama::B, 2) }
    else if t == Some('မ') && sg == asat && x == None { Closure::Final(Virama::M, None, 2) }
    else if t == Some('မ') && sg == asat && x == high && y == None { Closure::Final(Virama::M, Some(Tone::High), 3) }
    else if t == Some('မ') && sg == asat && x == creaky && y == None { Closure::Final(Virama::M, Some(Tone::Creaky), 3) }
    else if t == Some('မ') && sg == stack && exec_is_bottom_m(x) { Closure::Stacked(Virama::M, 2) }
    else if t == Some('\u{103F}') { Closure::Ligature }
    else if t == Some('လ') && sg == stack && x == Some('လ') { Closure::Stacked(Virama::L, 2) }
    else { Closure::Fail(ParseError::UnknownCluster) }
}

/// `cs` from `i` on, with its first character replaced by `c`.
fn replace_first(cs: &Vec<char>, i: usize, c: char) -> (r: Vec<char>)
    requires
        i < cs@.len(),
    ensures
        r@ == cs@.skip(i as int).update(0, c),
{
    let mut r: Vec<char> = Vec::new();
    r.push(c);
    let len = cs.len();
    let mut j: usize = i + 1;
    while j < cs.len()
        invariant
            i < j <= cs@.len(),
            r@ =~= cs@.subrange(i as int, j as int).update(0, c),
        decreases cs@.len() - j,
    {
        r.push(cs[j]);
        j = j + 1;
    }
    assert(cs@.subrange(i as int, cs@.len() as int) =~= cs@.skip(i as int));
    r
}

/// Reads one syllable of `cs` from `i` on: the syllable and the number of
/// characters it takes.
fn parse_at(cs: &Vec<char>, i: usize) -> (r: Result<(Syllable, usize), ParseError>)
    requires
        i <= cs@.len(),
    ensures
        match spec_parse_syllable(cs@.skip(i as int)) {
            Ok((syl, k)) => r matches Ok((s2, k2)) && s2 == syl && k2 == k && k <= cs@.len() - i,
            Err(e) => r == Err::<(Syllable, usize), ParseError>(e),
        },
    decreases cs@.len() - i,
{
    let ghost rest = cs@.skip(i as int);
    let len = cs.len();
    let (c, k) = match parse_consonant(cs, i) {
        None => return Err(ParseError::NotAConsonant),
        Some(ck) => ck,
    };
    if i + k >= cs.len() {
        return Ok((Syllable { consonant: c, vowel: Vowel::simple(BasicVowel::A), bottom_syllable: None }, k));
    }
    let (b, t, vk, done) = vowel_signs(cs, i + k);
    assert(rest.skip(k as int) =~= cs@.skip(i + k));
    let v = Vowel { basic: b, virama: None, tone: t };
    let p = k + vk;
    if done {
        return Ok((Syllable { consonant: c, vowel: v, bottom_syllable: None }, p));
    }
    if i + p >= len {
        return Err(ParseError::UnknownCluster);
    }
    assert(rest.skip(p as int) =~= cs@.skip(i + p));
    match closure(cs, i + p) {
        Closure::Final(f, mark, n) => {
            Ok((Syllable { consonant: c, vowel: close_vowel(v, f, mark), bottom_syllable: None }, p + n))
        },
        Closure::Stacked(f, n) => {
            assert(rest.skip(p + n) =~= cs@.skip(i + p + n));
            match parse_at(cs, i + p + n) {
                Ok((bottom, bk)) => Ok((
                    Syllable {
                        consonant: c,
                        vowel: close_vowel(v, f, None),
                        bottom_syllable: Some(BaseSyllable { consonant: bottom.consonant, vowel: bottom.vowel }),
                    },
                    p + n + bk,
                )),
                Err(e) => Err(e),
            }
        },
        Closure::Ligature => {
            let expanded = replace_first(cs, i + p, 'သ');
            assert(rest.skip(p as int).update(0, 'သ') =~= expanded@.skip(0));
            match parse_at(&expanded, 0) {
                Ok((bottom, bk)) => Ok((
                    Syllable {
                        consonant: c,
                        vowel: close_vowel(v, Virama::S, None),
                        bottom_syllable: Some(BaseSyllable { consonant: bottom.consonant, vowel: bottom.vowel }),
                    },
                    p + bk,
                )),
                Err(e) => Err(e),
            }
        },
        Closure::Fail(e) => Err(e),
    }
}

fn close_vowel(v: Vowel, f: Virama, mark: Option<Tone>) -> (r: Vowel)
    ensures
        r == spec_close_vowel(v, f, mark),
{
    let tone = if mark.is_some() {
        mark
    } else if f == Virama::K || f == Virama::C || f == Virama::T || f == Virama::P {
        None
    } else {
        v.tone
    };
    Vowel { basic: v.basic, virama: Some(f), tone }
}

/// Every syllable the decomposer reads is well formed.
pub proof fn lemma_parse_wf(cs: Seq<char>)
    ensures
        spec_parse_syllable(cs) matches Ok((s, _)) ==> s.wf(),
    decreases cs.len(),
{
    reveal(spec_closure);
    match spec_parse_consonant(cs) {
        None => {},
        Some((c, k)) => {
            if k < cs.len() {
                let (b, t, vk, done) = spec_vowel_signs(cs.skip(k as int));
                let p = (k + vk) as nat;
                if !done && p < cs.len() {
                    match spec_closure(cs.skip(p as int)) {
                        Closure::Stacked(f, n) => {
                            if p + n <= cs.len() {
                                lemma_parse_wf(cs.skip(p + n));
                            }
                        },
                        Closure::Ligature => {
                            lemma_parse_wf(cs.skip(p as int).update(0, 'သ'));
                        },
                        _ => {},
                    }
                }
            }
        },
    }
}

/// Reads one syllable at the start of `syllable`. On success it returns the
/// syllable and the number of bytes it takes; the syllable is well formed.
/// A text that does not start with a consonant letter is `NotAConsonant`; a
/// closure that matches no row of the table is `UnknownCluster`; a stacked
/// cluster cut short is `UnexpectedEnd`. A stop final (K, C, T, P) carries
/// no tone, so the tone of a vowel sign before one is dropped.
pub fn parse_syllable(syllable: &str) -> (r: Result<(Syllable, usize), ParseError>)
    ensures
        match spec_parse_syllable(syllable@) {
            Ok((s, k)) => r matches Ok((s2, n)) && s2 == s && k <= syllable@.len()
                && n == utf8_len(syllable@.take(k as int)),
            Err(e) => r == Err::<(Syllable, usize), ParseError>(e),
        },
        r matches Ok((s, _)) ==> s.wf(),
{
    let cs = chars_of(syllable);
    let _ = str_byte_len(syllable);
    proof {
        lemma_parse_wf(cs@);
        assert(cs@.skip(0) =~= cs@);
    }
    match parse_at(&cs, 0) {
        Ok((syl, k)) => {
            let n = utf8_width(&cs, 0, k);
            assert(cs@.subrange(0, k as int) =~= syllable@.take(k as int));
            Ok((syl, n))
        },
        Err(e) => Err(e),
    }
}

/// The MLCTS of one span: that of the syllable read from it, or the span
/// itself where it cannot be read.
pub open spec fn spec_transliterate_span(span: Seq<char>) -> Seq<char> {
    match spec_parse_syllable(span) {
        Ok((s, _)) => s.spec_mlcts(),
        Err(_) => span,
    }
}

/// The text with each စျ (ca with medial ya) rewritten as ဈ (jha), from left
/// to right.
pub open spec fn spec_normalize_jha(cs: Seq<char>) -> Seq<char>
    decreases cs.len(),
{
    if cs.len() >= 2 && cs[0] == 'စ' && cs[1] == '\u{103B}' {
        seq!['ဈ'] + spec_normalize_jha(cs.skip(2))
    } else if cs.len() == 0 {
        Seq::empty()
    } else {
        seq![cs[0]] + spec_normalize_jha(cs.skip(1))
    }
}

proof fn lemma_normalize_jha_first(cs: Seq<char>)
    ensures
        spec_normalize_jha(cs).len() > 0 <==> cs.len() > 0,
        cs.len() > 0 ==> (spec_normalize_jha(cs)[0] == '\u{103B}' <==> cs[0] == '\u{103B}'),
{
}

/// Rewriting a second time changes nothing.
proof fn lemma_normalize_jha_idempotent(cs: Seq<char>)
    ensures
        spec_normalize_jha(spec_normalize_jha(cs)) == spec_normalize_jha(cs),
    decreases cs.len(),
{
    let n = spec_normalize_jha(cs);
    if cs.len() >= 2 && cs[0] == 'စ' && cs[1] == '\u{103B}' {
        let rest = spec_normalize_jha(cs.skip(2));
        lemma_normalize_jha_idempotent(cs.skip(2));
        assert(n.skip(1) =~= rest);
        assert(n[0] == 'ဈ');
    } else if cs.len() > 0 {
        let rest = spec_normalize_jha(cs.skip(1));
        lemma_normalize_jha_idempotent(cs.skip(1));
        lemma_normalize_jha_first(cs.skip(1));
        assert(n.skip(1) =~= rest);
        assert(n[0] == cs[0]);
        if n.len() >= 2 {
            assert(n[1] == rest[0]);
            assert(cs.skip(1)[0] == cs[1]);
        }
    }
}

/// The MLCTS of a Myanmar text whose စျ are already rewritten: the
/// transliterations of its spans, laid end to end.
pub open spec fn spec_transliterate(text: Seq<char>) -> Seq<char> {
    spec_split_syllables(text).map_values(|span: Seq<char>| spec_transliterate_span(span)).flatten()
}

/// The MLCTS of a Myanmar text: each စျ is rewritten as ဈ, then the text is
/// transliterated span by span.
pub open spec fn spec_from_my(text: Seq<char>) -> Seq<char> {
    spec_transliterate(spec_normalize_jha(text))
}

/// Transliterating a text and transliterating it with each စျ rewritten as
/// ဈ give the same result.
pub proof fn lemma_from_my_normalized(text: Seq<char>)
    ensures
        spec_from_my(text) == spec_from_my(spec_normalize_jha(text)),
{
    lemma_normalize_jha_idempotent(text);
}

/// Rewrites each စျ of `input` as ဈ.
fn normalize_jha(input: &str) -> (r: String)
    ensures
        r@ == spec_normalize_jha(input@),
{
    let cs = chars_of(input);
    let n = cs.len();
    proof {
        reveal_strlit("");
    }
    let mut out = String::from_str("");
    let mut last: usize = 0;
    let mut i: usize = 0;
    assert(cs@.skip(0) =~= cs@);
    while i < n
        invariant
            n == cs@.len(),
            cs@ == input@,
            last <= i <= n,
            out@ + cs@.subrange(last as int, i as int) + spec_normalize_jha(cs@.skip(i as int))
                == spec_normalize_jha(cs@),
        decreases n - i,
    {
        let ghost rest = cs@.skip(i as int);
        if i + 1 < n && cs[i] == 'စ' && cs[i + 1] == '\u{103B}' {
            let run = input.substring_char(last, i);
            let jha = "ဈ";
            proof {
                reveal_strlit("ဈ");
            }
            assert(jha@ =~= seq!['ဈ']);
            let ghost before = out@;
            out.append(run);
            let ghost mid = out@;
            assert(mid =~= before + cs@.subrange(last as int, i as int));
            out.append(jha);
            assert(rest.skip(2) =~= cs@.skip(i + 2));
            assert(out@ =~= before + cs@.subrange(last as int, i as int) + seq!['ဈ']);
            assert(cs@.subrange((i + 2) as int, (i + 2) as int) =~= Seq::<char>::empty());
            assert(before + cs@.subrange(last as int, i as int) + spec_normalize_jha(rest) =~= out@
                + cs@.subrange((i + 2) as int, (i + 2) as int) + spec_normalize_jha(cs@.skip(i + 2)));
            last = i + 2;
            i = i + 2;
        } else {
            assert(rest.skip(1) =~= cs@.skip(i + 1));
            assert(cs@.subrange(last as int, i as int) + seq![cs@[i as int]] =~= cs@.subrange(
                last as int,
                (i + 1) as int,
            ));
            assert(out@ + cs@.subrange(last as int, i as int) + spec_normalize_jha(rest) =~= out@
                + cs@.subrange(last as int, (i + 1) as int) + spec_normalize_jha(cs@.skip(i + 1)));
            i = i + 1;
        }
    }
    let run = input.substring_char(last, n);
    let ghost before = out@;
    out.append(run);
    assert(cs@.skip(n as int) =~= Seq::<char>::empty());
    assert(out@ =~= before + cs@.subrange(last as int, n as int) + spec_normalize_jha(cs@.skip(n as int)));
    out
}

/// Transliterates Myanmar text into MLCTS: each စျ is first rewritten as ဈ;
/// the text is then cut into syllable spans, each span is read as a
/// syllable and written in MLCTS, and a span that cannot be read is copied
/// as it is. ပိဿာ gives `pissa`.
pub fn from_my(input: &str) -> (r: String)
    ensures
        r@ == spec_from_my(input@),
{
    let text = normalize_jha(input);
    transliterate(text.as_str())
}

/// Transliterates text whose စျ are already rewritten, span by span.
fn transliterate(text: &str) -> (r: String)
    ensures
        r@ == spec_transliterate(text@),
{
    let spans = split_syllables(text);
    let ghost views = spans@.map_values(|t: &str| t@);
    let ghost parts = views.map_values(|span: Seq<char>| spec_transliterate_span(span));
    let mut out = String::from_str("");
    proof {
        reveal_strlit("");
    }
    let mut j: usize = 0;
    while j < spans.len()
        invariant
            j <= spans@.len(),
            views == spans@.map_values(|t: &str| t@),
            parts == views.map_values(|span: Seq<char>| spec_transliterate_span(span)),
            out@ == parts.take(j as int).flatten(),
        decreases spans@.len() - j,
    {
        let span = spans[j];
        proof {
            parts.take(j as int).lemma_flatten_push(parts[j as int]);
            assert(parts.take(j as int).push(parts[j as int]) =~= parts.take(j + 1));
        }
        match parse_syllable(span) {
            Ok((syl, _)) => {
                let m = syl.to_mlcts();
                out.append(m.as_str());
            },
            Err(_) => {
                out.append(span);
            },
        }
        j = j + 1;
    }
    assert(parts.take(spans@.len() as int) =~= parts);
    out
}

/// Reading the consonant letter `c` followed by the vowel signs `p` gives
/// the syllable of `c` with vowel `v` and tone `t`, and takes all of it.
pub open spec fn pattern_reads(c: char, p: Seq<char>, v: BasicVowel, t: Option<Tone>) -> bool {
    spec_parse_syllable(seq![c] + p) == Ok::<(Syllable, nat), ParseError>((
        Syllable {
            consonant: Consonant { basic: BasicConsonant::spec_from_myanmar(c)->0, medial: None },
            vowel: Vowel { basic: v, virama: None, tone: t },
            bottom_syllable: None,
        },
        1 + p.len(),
    ))
}

proof fn lemma_vowel_pattern(c: char, p: Seq<char>, v: BasicVowel, t: Option<Tone>)
    requires
        BasicConsonant::spec_from_myanmar(c) is Some,
        1 <= p.len() <= 3,
        spec_vowel_signs(p) == (v, t, p.len() as usize, true),
        p[0] != '\u{103B}' && p[0] != '\u{103C}' && p[0] != '\u{103D}' && p[0] != '\u{103E}',
    ensures
        pattern_reads(c, p, v, t),
{
    reveal(spec_medial);
    let cs = seq![c] + p;
    assert(cs.skip(1) =~= p);
    assert(cs[0] == c);
    assert(cs[1] == p[0]);
}

proof fn lemma_vowel_patterns_0(c: char)
    requires
        BasicConsonant::spec_from_myanmar(c) is Some,
    ensures
        pattern_reads(c, seq!['\u{102C}', '\u{1038}'], BasicVowel::A, Some(Tone::High)),
        pattern_reads(c, seq!['\u{102C}'], BasicVowel::A, None),
        pattern_reads(c, seq!['ယ', '\u{103A}'], BasicVowel::Ai, None),
        pattern_reads(c, seq!['\u{1032}', '\u{1037}'], BasicVowel::Ai, Some(Tone::Creaky)),
        pattern_reads(c, seq!['\u{1032}'], BasicVowel::Ai, Some(Tone::High)),
{
    reveal(spec_vowel_signs);
    lemma_vowel_pattern(c, seq!['\u{102C}', '\u{1038}'], BasicVowel::A, Some(Tone::High));
    lemma_vowel_pattern(c, seq!['\u{102C}'], BasicVowel::A, None);
    lemma_vowel_pattern(c, seq!['ယ', '\u{103A}'], BasicVowel::Ai, None);
    lemma_vowel_pattern(c, seq!['\u{1032}', '\u{1037}'], BasicVowel::Ai, Some(Tone::Creaky));
    lemma_vowel_pattern(c, seq!['\u{1032}'], BasicVowel::Ai, Some(Tone::High));
}

proof fn lemma_vowel_patterns_1(c: char)
    requires
        BasicConsonant::spec_from_myanmar(c) is Some,
    ensures
        pattern_reads(c, seq!['\u{1031}', '\u{102C}', '\u{103A}'], BasicVowel::Au, None),
        pattern_reads(c, seq!['\u{1031}', '\u{102C}', '\u{1037}'], BasicVowel::Au, Some(Tone::Creaky)),
        pattern_reads(c, seq!['\u{1031}', '\u{102C}'], BasicVowel::Au, None),
        pattern_reads(c, seq!['\u{1030}'], BasicVowel::U, None),
        pattern_reads(c, seq!['\u{1030}', '\u{1038}'], BasicVowel::U, Some(Tone::High)),
{
    reveal(spec_vowel_signs);
    lemma_vowel_pattern(c, seq!['\u{1031}', '\u{102C}', '\u{103A}'], BasicVowel::Au, None);
    lemma_vowel_pattern(c, seq!['\u{1031}', '\u{102C}', '\u{1037}'], BasicVowel::Au, Some(Tone::Creaky));
    lemma_vowel_pattern(c, seq!['\u{1031}', '\u{102C}'], BasicVowel::Au, None);
    lemma_vowel_pattern(c, seq!['\u{1030}'], BasicVowel::U, None);
    lemma_vowel_pattern(c, seq!['\u{1030}', '\u{1038}'], BasicVowel::U, Some(Tone::High));
}

proof fn lemma_vowel_patterns_2(c: char)
    requires
        BasicConsonant::spec_from_myanmar(c) is Some,
    ensures
        pattern_reads(c, seq!['\u{102F}'], BasicVowel::U, None),
        pattern_reads(c, seq!['\u{102D}', '\u{102F}', '\u{1038}'], BasicVowel::Ui, Some(Tone::High)),
        pattern_reads(c, seq!['\u{102D}', '\u{102F}', '\u{1037}'], BasicVowel::Ui, Some(Tone::Creaky)),
        pattern_reads(c, seq!['\u{102D}', '\u{102F}'], BasicVowel::Ui, None),
        pattern_reads(c, seq!['\u{102E}'], BasicVowel::I, None),
{
    reveal(spec_vowel_signs);
    lemma_vowel_pattern(c, seq!['\u{102F}'], BasicVowel::U, None);
    lemma_vowel_pattern(c, seq!['\u{102D}', '\u{102F}', '\u{1038}'], BasicVowel::Ui, Some(Tone::High));
    lemma_vowel_pattern(c, seq!['\u{102D}', '\u{102F}', '\u{1037}'], BasicVowel::Ui, Some(Tone::Creaky));
    lemma_vowel_pattern(c, seq!['\u{102D}', '\u{102F}'], BasicVowel::Ui, None);
    lemma_vowel_pattern(c, seq!['\u{102E}'], BasicVowel::I, None);
}

proof fn lemma_vowel_patterns_3(c: char)
    requires
        BasicConsonant::spec_from_myanmar(c) is Some,
    ensures
        pattern_reads(c, seq!['\u{102E}', '\u{1038}'], BasicVowel::I, Some(Tone::High)),
        pattern_reads(c, seq!['\u{102D}'], BasicVowel::I, None),
        pattern_reads(c, seq!['\u{1031}', '\u{1038}'], BasicVowel::E, Some(Tone::High)),
        pattern_reads(c, seq!['\u{1031}', '\u{1037}'], BasicVowel::E, Some(Tone::Creaky)),
        pattern_reads(c, seq!['\u{1031}'], BasicVowel::E, None),
{
    reveal(spec_vowel_signs);
    lemma_vowel_pattern(c, seq!['\u{102E}', '\u{1038}'], BasicVowel::I, Some(Tone::High));
    lemma_vowel_pattern(c, seq!['\u{102D}'], BasicVowel::I, None);
    lemma_vowel_pattern(c, seq!['\u{1031}', '\u{1038}'], BasicVowel::E, Some(Tone::High));
    lemma_vowel_pattern(c, seq!['\u{1031}', '\u{1037}'], BasicVowel::E, Some(Tone::Creaky));
    lemma_vowel_pattern(c, seq!['\u{1031}'], BasicVowel::E, None);
}

/// Read after any consonant letter, each vowel pattern that ends a syllable
/// gives exactly its vowel and tone, and the whole text is taken: ား ာ ယ် ဲ့
/// ဲ ော် ော့ ော ူ ူး ု ိုး ို့ ို ီ ီး ိ ေး ေ့ ေ.
pub proof fn lemma_vowel_patterns(c: char)
    requires
        BasicConsonant::spec_from_myanmar(c) is Some,
    ensures
        pattern_reads(c, seq!['\u{102C}', '\u{1038}'], BasicVowel::A, Some(Tone::High)),
        pattern_reads(c, seq!['\u{102C}'], BasicVowel::A, None),
        pattern_reads(c, seq!['ယ', '\u{103A}'], BasicVowel::Ai, None),
        pattern_reads(c, seq!['\u{1032}', '\u{1037}'], BasicVowel::Ai, Some(Tone::Creaky)),
        pattern_reads(c, seq!['\u{1032}'], BasicVowel::Ai, Some(Tone::High)),
        pattern_reads(c, seq!['\u{1031}', '\u{102C}', '\u{103A}'], BasicVowel::Au, None),
        pattern_reads(c, seq!['\u{1031}', '\u{102C}', '\u{1037}'], BasicVowel::Au, Some(Tone::Creaky)),
        pattern_reads(c, seq!['\u{1031}', '\u{102C}'], BasicVowel::Au, None),
        pattern_reads(c, seq!['\u{1030}'], BasicVowel::U, None),
        pattern_reads(c, seq!['\u{1030}', '\u{1038}'], BasicVowel::U, Some(Tone::High)),
        pattern_reads(c, seq!['\u{102F}'], BasicVowel::U, None),
        pattern_reads(c, seq!['\u{102D}', '\u{102F}', '\u{1038}'], BasicVowel::Ui, Some(Tone::High)),
        pattern_reads(c, seq!['\u{102D}', '\u{102F}', '\u{1037}'], BasicVowel::Ui, Some(Tone::Creaky)),
        pattern_reads(c, seq!['\u{102D}', '\u{102F}'], BasicVowel::Ui, None),
        pattern_reads(c, seq!['\u{102E}'], BasicVowel::I, None),
        pattern_reads(c, seq!['\u{102E}', '\u{1038}'], BasicVowel::I, Some(Tone::High)),
        pattern_reads(c, seq!['\u{102D}'], BasicVowel::I, None),
        pattern_reads(c, seq!['\u{1031}', '\u{1038}'], BasicVowel::E, Some(Tone::High)),
        pattern_reads(c, seq!['\u{1031}', '\u{1037}'], BasicVowel::E, Some(Tone::Creaky)),
        pattern_reads(c, seq!['\u{1031}'], BasicVowel::E, None),
{
    lemma_vowel_patterns_0(c);
    lemma_vowel_patterns_1(c);
    lemma_vowel_patterns_2(c);
    lemma_vowel_patterns_3(c);
}

/// The Myanmar letter that writes a consonant; where two letters share a
/// consonant, the common one (တ for `T`, န for `N`, ည for `Ny`, လ for `L`).
pub open spec fn spec_myanmar_letter(b: BasicConsonant) -> char {
    match b {
        BasicConsonant::K => 'က',
        BasicConsonant::Hk => 'ခ',
        BasicConsonant::G => 'ဂ',
        BasicConsonant::Gh => 'ဃ',
        BasicConsonant::Ng => 'င',
        BasicConsonant::C => 'စ',
        BasicConsonant::Hc => 'ဆ',
        BasicConsonant::J => 'ဇ',
        BasicConsonant::Jh => 'ဈ',
        BasicConsonant::Ny => 'ည',
        BasicConsonant::T => 'တ',
        BasicConsonant::Ht => 'ထ',
        BasicConsonant::D => 'ဒ',
        BasicConsonant::Dh => 'ဓ',
        BasicConsonant::N => 'န',
        BasicConsonant::P => 'ပ',
        BasicConsonant::Hp => 'ဖ',
        BasicConsonant::B => 'ဗ',
        BasicConsonant::Bh => 'ဘ',
        BasicConsonant::M => 'မ',
        BasicConsonant::Y => 'ယ',
        BasicConsonant::R => 'ရ',
        BasicConsonant::L => 'လ',
        BasicConsonant::W => 'ဝ',
        BasicConsonant::S => 'သ',
        BasicConsonant::H => 'ဟ',
        BasicConsonant::A => 'အ',
    }
}

/// The medial marks that write a medial cluster.
pub open spec fn spec_medial_marks(m: Option<MedialDiacritic>) -> Seq<char> {
    match m {
        None => Seq::empty(),
        Some(MedialDiacritic::Y) => seq!['\u{103B}'],
        Some(MedialDiacritic::R) => seq!['\u{103C}'],
        Some(MedialDiacritic::W) => seq!['\u{103D}'],
        Some(MedialDiacritic::H) => seq!['\u{103E}'],
        Some(MedialDiacritic::Yw) => seq!['\u{103B}', '\u{103D}'],
        Some(MedialDiacritic::Rw) => seq!['\u{103C}', '\u{103D}'],
        Some(MedialDiacritic::Hy) => seq!['\u{103B}', '\u{103E}'],
        Some(MedialDiacritic::Hr) => seq!['\u{103C}', '\u{103E}'],
        Some(MedialDiacritic::Hw) => seq!['\u{103D}', '\u{103E}'],
        Some(MedialDiacritic::Hyw) => seq!['\u{103B}', '\u{103D}', '\u{103E}'],
        Some(MedialDiacritic::Hrw) => seq!['\u{103C}', '\u{103D}', '\u{103E}'],
    }
}

/// The vowel signs of a syllable with no final.
pub open spec fn spec_open_signs(v: BasicVowel, t: Option<Tone>) -> Seq<char> {
    match (v, t) {
        (BasicVowel::A, None) => seq![],
        (BasicVowel::A, Some(Tone::High)) => seq!['\u{102C}', '\u{1038}'],
        (BasicVowel::A, Some(Tone::Creaky)) => seq!['\u{1037}'],
        (BasicVowel::I, None) => seq!['\u{102D}'],
        (BasicVowel::I, Some(Tone::High)) => seq!['\u{102E}', '\u{1038}'],
        (BasicVowel::I, Some(Tone::Creaky)) => seq!['\u{102D}', '\u{1037}'],
        (BasicVowel::U, None) => seq!['\u{102F}'],
        (BasicVowel::U, Some(Tone::High)) => seq!['\u{1030}', '\u{1038}'],
        (BasicVowel::U, Some(Tone::Creaky)) => seq!['\u{102F}', '\u{1037}'],
        (BasicVowel::E, None) => seq!['\u{1031}'],
        (BasicVowel::E, Some(Tone::High)) => seq!['\u{1031}', '\u{1038}'],
        (BasicVowel::E, Some(Tone::Creaky)) => seq!['\u{1031}', '\u{1037}'],
        (BasicVowel::Ai, None) => seq!['ယ', '\u{103A}'],
        (BasicVowel::Ai, Some(Tone::High)) => seq!['\u{1032}'],
        (BasicVowel::Ai, Some(Tone::Creaky)) => seq!['\u{1032}', '\u{1037}'],
        (BasicVowel::Au, None) => seq!['\u{1031}', '\u{102C}', '\u{103A}'],
        (BasicVowel::Au, Some(Tone::High)) => seq!['\u{1031}', '\u{102C}', '\u{1038}'],
        (BasicVowel::Au, Some(Tone::Creaky)) => seq!['\u{1031}', '\u{102C}', '\u{1037}'],
        (BasicVowel::Ui, None) => seq!['\u{102D}', '\u{102F}'],
        (BasicVowel::Ui, Some(Tone::High)) => seq!['\u{102D}', '\u{102F}', '\u{1038}'],
        (BasicVowel::Ui, Some(Tone::Creaky)) => seq!['\u{102D}', '\u{102F}', '\u{1037}'],
    }
}

/// The vowel signs before a final.
pub open spec fn spec_closed_signs(v: BasicVowel) -> Seq<char> {
    match v {
        BasicVowel::A => seq![],
        BasicVowel::I => seq!['\u{102D}'],
        BasicVowel::U => seq!['\u{102F}'],
        BasicVowel::E => seq!['\u{1031}'],
        BasicVowel::Ai => seq!['\u{1032}'],
        BasicVowel::Au => seq!['\u{1031}', '\u{102C}'],
        BasicVowel::Ui => seq!['\u{102D}', '\u{102F}'],
    }
}

/// The Myanmar letter of a final.
pub open spec fn spec_final_letter(f: Virama) -> char {
    match f {
        Virama::K => 'က',
        Virama::G => 'ဂ',
        Virama::Ng => 'င',
        Virama::C => 'စ',
        Virama::J => 'ဇ',
        Virama::Ny => 'ည',
        Virama::T => 'တ',
        Virama::Ht => 'ထ',
        Virama::D => 'ဒ',
        Virama::N => 'န',
        Virama::P => 'ပ',
        Virama::B => 'ဗ',
        Virama::M => 'မ',
        Virama::S => 'သ',
        Virama::L => 'လ',
    }
}

/// The tone mark after a final.
pub open spec fn spec_final_tone(t: Option<Tone>) -> Seq<char> {
    match t {
        Some(Tone::High) => seq!['\u{1038}'],
        Some(Tone::Creaky) => seq!['\u{1037}'],
        None => Seq::empty(),
    }
}

/// The Myanmar spelling of an onset and a rhyme: the letter, its medial
/// marks, then the vowel signs; a final follows as its letter with the asat
/// and the tone mark, or, with `stacked`, as its letter with the stack sign.
pub open spec fn spec_base_to_myanmar(c: Consonant, v: Vowel, stacked: bool) -> Seq<char> {
    seq![spec_myanmar_letter(c.basic)] + spec_medial_marks(c.medial) + match v.virama {
        None => spec_open_signs(v.basic, v.tone),
        Some(f) => spec_closed_signs(v.basic) + seq![spec_final_letter(f)] + if stacked {
            seq!['\u{1039}']
        } else {
            seq!['\u{103A}'] + spec_final_tone(v.tone)
        },
    }
}

impl Syllable {
    /// The Myanmar spelling of the syllable; a stacked syllable follows the
    /// stack sign ္ after the final.
    pub open spec fn spec_to_myanmar(self) -> Seq<char> {
        match self.bottom_syllable {
            None => spec_base_to_myanmar(self.consonant, self.vowel, false),
            Some(b) => spec_base_to_myanmar(self.consonant, self.vowel, true) + spec_base_to_myanmar(
                b.consonant,
                b.vowel,
                false,
            ),
        }
    }
}

fn myanmar_letter(b: BasicConsonant) -> (r: &'static str)
    ensures
        r@ == seq![spec_myanmar_letter(b)],
{
    match b {
        BasicConsonant::K => { proof { reveal_strlit("က"); } "က" },
        BasicConsonant::Hk => { proof { reveal_strlit("ခ"); } "ခ" },
        BasicConsonant::G => { proof { reveal_strlit("ဂ"); } "ဂ" },
        BasicConsonant::Gh => { proof { reveal_strlit("ဃ"); } "ဃ" },
        BasicConsonant::Ng => { proof { reveal_strlit("င"); } "င" },
        BasicConsonant::C => { proof { reveal_strlit("စ"); } "စ" },
        BasicConsonant::Hc => { proof { reveal_strlit("ဆ"); } "ဆ" },
        BasicConsonant::J => { proof { reveal_strlit("ဇ"); } "ဇ" },
        BasicConsonant::Jh => { proof { reveal_strlit("ဈ"); } "ဈ" },
        BasicConsonant::Ny => { proof { reveal_strlit("ည"); } "ည" },
        BasicConsonant::T => { proof { reveal_strlit("တ"); } "တ" },
        BasicConsonant::Ht => { proof { reveal_strlit("ထ"); } "ထ" },
        BasicConsonant::D => { proof { reveal_strlit("ဒ"); } "ဒ" },
        BasicConsonant::Dh => { proof { reveal_strlit("ဓ"); } "ဓ" },
        BasicConsonant::N => { proof { reveal_strlit("န"); } "န" },
        BasicConsonant::P => { proof { reveal_strlit("ပ"); } "ပ" },
        BasicConsonant::Hp => { proof { reveal_strlit("ဖ"); } "ဖ" },
        BasicConsonant::B => { proof { reveal_strlit("ဗ"); } "ဗ" },
        BasicConsonant::Bh => { proof { reveal_strlit("ဘ"); } "ဘ" },
        BasicConsonant::M => { proof { reveal_strlit("မ"); } "မ" },
        BasicConsonant::Y => { proof { reveal_strlit("ယ"); } "ယ" },
        BasicConsonant::R => { proof { reveal_strlit("ရ"); } "ရ" },
        BasicConsonant::L => { proof { reveal_strlit("လ"); } "လ" },
        BasicConsonant::W => { proof { reveal_strlit("ဝ"); } "ဝ" },
        BasicConsonant::S => { proof { reveal_strlit("သ"); } "သ" },
        BasicConsonant::H => { proof { reveal_strlit("ဟ"); } "ဟ" },
        BasicConsonant::A => { proof { reveal_strlit("အ"); } "အ" },
    }
}

fn medial_marks(m: Option<MedialDiacritic>) -> (r: &'static str)
    ensures
        r@ == spec_medial_marks(m),
{
    match m {
        None => { proof { reveal_strlit(""); } "" },
        Some(MedialDiacritic::Y) => { proof { reveal_strlit("\u{103B}"); } "\u{103B}" },
        Some(MedialDiacritic::R) => { proof { reveal_strlit("\u{103C}"); } "\u{103C}" },
        Some(MedialDiacritic::W) => { proof { reveal_strlit("\u{103D}"); } "\u{103D}" },
        Some(MedialDiacritic::H) => { proof { reveal_strlit("\u{103E}"); } "\u{103E}" },
        Some(MedialDiacritic::Yw) => { proof { reveal_strlit("\u{103B}\u{103D}"); } "\u{103B}\u{103D}" },
        Some(MedialDiacritic::Rw) => { proof { reveal_strlit("\u{103C}\u{103D}"); } "\u{103C}\u{103D}" },
        Some(MedialDiacritic::Hy) => { proof { reveal_strlit("\u{103B}\u{103E}"); } "\u{103B}\u{103E}" },
        Some(MedialDiacritic::Hr) => { proof { reveal_strlit("\u{103C}\u{103E}"); } "\u{103C}\u{103E}" },
        Some(MedialDiacritic::Hw) => { proof { reveal_strlit("\u{103D}\u{103E}"); } "\u{103D}\u{103E}" },
        Some(MedialDiacritic::Hyw) => { proof { reveal_strlit("\u{103B}\u{103D}\u{103E}"); } "\u{103B}\u{103D}\u{103E}" },
        Some(MedialDiacritic::Hrw) => { proof { reveal_strlit("\u{103C}\u{103D}\u{103E}"); } "\u{103C}\u{103D}\u{103E}" },
    }
}

fn open_signs(v: BasicVowel, t: Option<Tone>) -> (r: &'static str)
    ensures
        r@ == spec_open_signs(v, t),
{
    match (v, t) {
        (BasicVowel::A, None) => { proof { reveal_strlit(""); } "" },
        (BasicVowel::A, Some(Tone::High)) => { proof { reveal_strlit("\u{102C}\u{1038}"); } "\u{102C}\u{1038}" },
        (BasicVowel::A, Some(Tone::Creaky)) => { proof { reveal_strlit("\u{1037}"); } "\u{1037}" },
        (BasicVowel::I, None) => { proof { reveal_strlit("\u{102D}"); } "\u{102D}" },
        (BasicVowel::I, Some(Tone::High)) => { proof { reveal_strlit("\u{102E}\u{1038}"); } "\u{102E}\u{1038}" },
        (BasicVowel::I, Some(Tone::Creaky)) => { proof { reveal_strlit("\u{102D}\u{1037}"); } "\u{102D}\u{1037}" },
        (BasicVowel::U, None) => { proof { reveal_strlit("\u{102F}"); } "\u{102F}" },
        (BasicVowel::U, Some(Tone::High)) => { proof { reveal_strlit("\u{1030}\u{1038}"); } "\u{1030}\u{1038}" },
        (BasicVowel::U, Some(Tone::Creaky)) => { proof { reveal_strlit("\u{102F}\u{1037}"); } "\u{102F}\u{1037}" },
        (BasicVowel::E, None) => { proof { reveal_strlit("\u{1031}"); } "\u{1031}" },
        (BasicVowel::E, Some(Tone::High)) => { proof { reveal_strlit("\u{1031}\u{1038}"); } "\u{1031}\u{1038}" },
        (BasicVowel::E, Some(Tone::Creaky)) => { proof { reveal_strlit("\u{1031}\u{1037}"); } "\u{1031}\u{1037}" },
        (BasicVowel::Ai, None) => { proof { reveal_strlit("ယ\u{103A}"); } "ယ\u{103A}" },
        (BasicVowel::Ai, Some(Tone::High)) => { proof { reveal_strlit("\u{1032}"); } "\u{1032}" },
        (BasicVowel::Ai, Some(Tone::Creaky)) => { proof { reveal_strlit("\u{1032}\u{1037}"); } "\u{1032}\u{1037}" },
        (BasicVowel::Au, None) => { proof { reveal_strlit("\u{1031}\u{102C}\u{103A}"); } "\u{1031}\u{102C}\u{103A}" },
        (BasicVowel::Au, Some(Tone::High)) => { proof { reveal_strlit("\u{1031}\u{102C}\u{1038}"); } "\u{1031}\u{102C}\u{1038}" },
        (BasicVowel::Au, Some(Tone::Creaky)) => { proof { reveal_strlit("\u{1031}\u{102C}\u{1037}"); } "\u{1031}\u{102C}\u{1037}" },
        (BasicVowel::Ui, None) => { proof { reveal_strlit("\u{102D}\u{102F}"); } "\u{102D}\u{102F}" },
        (BasicVowel::Ui, Some(Tone::High)) => { proof { reveal_strlit("\u{102D}\u{102F}\u{1038}"); } "\u{102D}\u{102F}\u{1038}" },
        (BasicVowel::Ui, Some(Tone::Creaky)) => { proof { reveal_strlit("\u{102D}\u{102F}\u{1037}"); } "\u{102D}\u{102F}\u{1037}" },
    }
}

fn closed_signs(v: BasicVowel) -> (r: &'static str)
    ensures
        r@ == spec_closed_signs(v),
{
    match v {
        BasicVowel::A => { proof { reveal_strlit(""); } "" },
        BasicVowel::I => { proof { reveal_strlit("\u{102D}"); } "\u{102D}" },
        BasicVowel::U => { proof { reveal_strlit("\u{102F}"); } "\u{102F}" },
        BasicVowel::E => { proof { reveal_strlit("\u{1031}"); } "\u{1031}" },
        BasicVowel::Ai => { proof { reveal_strlit("\u{1032}"); } "\u{1032}" },
        BasicVowel::Au => { proof { reveal_strlit("\u{1031}\u{102C}"); } "\u{1031}\u{102C}" },
        BasicVowel::Ui => { proof { reveal_strlit("\u{102D}\u{102F}"); } "\u{102D}\u{102F}" },
    }
}

fn final_letter(f: Virama) -> (r: &'static str)
    ensures
        r@ == seq![spec_final_letter(f)],
{
    match f {
        Virama::K => { proof { reveal_strlit("က"); } "က" },
        Virama::G => { proof { reveal_strlit("ဂ"); } "ဂ" },
        Virama::Ng => { proof { reveal_strlit("င"); } "င" },
        Virama::C => { proof { reveal_strlit("စ"); } "စ" },
        Virama::J => { proof { reveal_strlit("ဇ"); } "ဇ" },
        Virama::Ny => { proof { reveal_strlit("ည"); } "ည" },
        Virama::T => { proof { reveal_strlit("တ"); } "တ" },
        Virama::Ht => { proof { reveal_strlit("ထ"); } "ထ" },
        Virama::D => { proof { reveal_strlit("ဒ"); } "ဒ" },
        Virama::N => { proof { reveal_strlit("န"); } "န" },
        Virama::P => { proof { reveal_strlit("ပ"); } "ပ" },
        Virama::B => { proof { reveal_strlit("ဗ"); } "ဗ" },
        Virama::M => { proof { reveal_strlit("မ"); } "မ" },
        Virama::S => { proof { reveal_strlit("သ"); } "သ" },
        Virama::L => { proof { reveal_strlit("လ"); } "လ" },
    }
}

fn final_tone(t: Option<Tone>) -> (r: &'static str)
    ensures
        r@ == spec_final_tone(t),
{
    match t {
        Some(Tone::High) => { proof { reveal_strlit("\u{1038}"); } "\u{1038}" },
        Some(Tone::Creaky) => { proof { reveal_strlit("\u{1037}"); } "\u{1037}" },
        None => { proof { reveal_strlit(""); } "" },
    }
}

fn base_to_myanmar(c: Consonant, v: Vowel, stacked: bool) -> (r: String)
    ensures
        r@ == spec_base_to_myanmar(c, v, stacked),
{
    let mut r = String::from_str(myanmar_letter(c.basic));
    r.append(medial_marks(c.medial));
    match v.virama {
        None => r.append(open_signs(v.basic, v.tone)),
        Some(f) => {
            r.append(closed_signs(v.basic));
            r.append(final_letter(f));
            if stacked {
                proof { reveal_strlit("\u{1039}"); }
                r.append("\u{1039}");
            } else {
                proof { reveal_strlit("\u{103A}"); }
                r.append("\u{103A}");
                r.append(final_tone(v.tone));
            }
        },
    }
    proof {
        assert(r@ =~= spec_base_to_myanmar(c, v, stacked));
    }
    r
}

impl Syllable {
    /// Writes the syllable in Myanmar script: the common letter of its
    /// consonant, its medial marks, its vowel signs, then its final with the
    /// asat and tone mark, or with the stack sign and the stacked syllable.
    /// Letters that share one consonant are not told apart, so the spelling
    /// of a syllable read from Myanmar text may differ from that text.
    pub fn to_myanmar(&self) -> (r: String)
        ensures
            r@ == self.spec_to_myanmar(),
    {
        match self.bottom_syllable {
            None => base_to_myanmar(self.consonant, self.vowel, false),
            Some(b) => {
                let mut r = base_to_myanmar(self.consonant, self.vowel, true);
                let t = base_to_myanmar(b.consonant, b.vowel, false);
                r.append(t.as_str());
                r
            },
        }
    }
}

/// A syllable whose Myanmar spelling reads back: no final and nothing
/// stacked; no medial on အ; no ျ after စ (the pair reads as ဈ); and not one
/// of the rhymes that the vowel table cannot end a syllable with (a creaky
/// `a`, `i` or `u`, a high `au`).
pub open spec fn open_spellable(s: Syllable) -> bool {
    &&& s.bottom_syllable is None
    &&& s.vowel.virama is None
    &&& s.consonant.basic == BasicConsonant::A ==> s.consonant.medial is None
    &&& s.consonant.basic == BasicConsonant::C ==> !(s.consonant.medial == Some(MedialDiacritic::Y)
        || s.consonant.medial == Some(MedialDiacritic::Yw) || s.consonant.medial == Some(MedialDiacritic::Hy)
        || s.consonant.medial == Some(MedialDiacritic::Hyw))
    &&& !(s.vowel.basic == BasicVowel::A && s.vowel.tone == Some(Tone::Creaky))
    &&& !(s.vowel.basic == BasicVowel::I && s.vowel.tone == Some(Tone::Creaky))
    &&& !(s.vowel.basic == BasicVowel::U && s.vowel.tone == Some(Tone::Creaky))
    &&& !(s.vowel.basic == BasicVowel::Au && s.vowel.tone == Some(Tone::High))
}

/// Not one of the medial marks ျ ြ ွ ှ.
pub open spec fn not_medial_mark(c: char) -> bool {
    c != '\u{103B}' && c != '\u{103C}' && c != '\u{103D}' && c != '\u{103E}'
}

proof fn lemma_letter_reads_back(b: BasicConsonant)
    ensures
        BasicConsonant::spec_from_myanmar(spec_myanmar_letter(b)) == Some(b),
        spec_myanmar_letter(b) == 'စ' <==> b == BasicConsonant::C,
        not_medial_mark(spec_myanmar_letter(b)),
{
}

proof fn lemma_marks_read_back(m: Option<MedialDiacritic>, rest: Seq<char>)
    requires
        rest.len() > 0 ==> not_medial_mark(rest[0]),
    ensures
        spec_medial(spec_medial_marks(m) + rest) == (m, spec_medial_marks(m).len() as usize),
        spec_medial_marks(m).len() <= 3,
        spec_medial_marks(m).len() > 0 ==> (spec_medial_marks(m)[0] == '\u{103B}' <==> (m == Some(
            MedialDiacritic::Y) || m == Some(MedialDiacritic::Yw) || m == Some(MedialDiacritic::Hy) || m
            == Some(MedialDiacritic::Hyw))),
        m is None <==> spec_medial_marks(m).len() == 0,
{
    reveal(spec_medial);
    let cs = spec_medial_marks(m) + rest;
    if rest.len() > 0 {
        assert(cs[spec_medial_marks(m).len() as int] == rest[0]);
    }
}

proof fn lemma_open_signs_read_back(v: BasicVowel, t: Option<Tone>)
    requires
        !(v == BasicVowel::A && t == Some(Tone::Creaky)),
        !(v == BasicVowel::I && t == Some(Tone::Creaky)),
        !(v == BasicVowel::U && t == Some(Tone::Creaky)),
        !(v == BasicVowel::Au && t == Some(Tone::High)),
    ensures
        spec_open_signs(v, t).len() == 0 <==> (v == BasicVowel::A && t is None),
        spec_open_signs(v, t).len() <= 3,
        spec_open_signs(v, t).len() > 0 ==> spec_vowel_signs(spec_open_signs(v, t)) == (v, t, spec_open_signs(v, t).len() as usize, true)
            && not_medial_mark(spec_open_signs(v, t)[0]),
{
    reveal(spec_vowel_signs);
}

/// The Myanmar spelling of a syllable that `open_spellable` admits reads
/// back as that very syllable, and the whole spelling is taken.
pub proof fn lemma_open_syllable_round_trip(s: Syllable)
    requires
        open_spellable(s),
    ensures
        spec_parse_syllable(s.spec_to_myanmar()) == Ok::<(Syllable, nat), ParseError>((s, s.spec_to_myanmar().len())),
{
    let b = s.consonant.basic;
    let m = s.consonant.medial;
    let signs = spec_open_signs(s.vowel.basic, s.vowel.tone);
    let marks = spec_medial_marks(m);
    lemma_letter_reads_back(b);
    lemma_open_signs_read_back(s.vowel.basic, s.vowel.tone);
    lemma_marks_read_back(m, signs);
    let cs = s.spec_to_myanmar();
    assert(cs =~= seq![spec_myanmar_letter(b)] + (marks + signs));
    assert(cs.skip(1) =~= marks + signs);
    assert(cs[0] == spec_myanmar_letter(b));
    if marks.len() > 0 {
        assert(cs[1] == marks[0]);
    } else if signs.len() > 0 {
        assert(cs[1] == signs[0]);
    }
    assert(cs.skip((1 + marks.len()) as int) =~= signs);
}

/// A syllable closed by an asat final whose Myanmar spelling reads back:
/// nothing stacked; the final one of K, C, T, P, N, M, Ny (any tone the
/// rhyme allows) or Ng with a tone mark; the vowel written before a final
/// (not `ai`); a `u` before a final other than a stop carries a tone; and
/// the onset as `open_spellable` asks.
pub open spec fn closed_spellable(s: Syllable) -> bool {
    &&& s.bottom_syllable is None
    &&& s.vowel.wf()
    &&& s.vowel.virama matches Some(f) && {
        ||| f == Virama::K || f == Virama::C || f == Virama::T || f == Virama::P
        ||| f == Virama::N || f == Virama::M || f == Virama::Ny
        ||| (f == Virama::Ng && s.vowel.tone is Some)
    }
    &&& s.vowel.basic != BasicVowel::Ai
    &&& (s.vowel.basic == BasicVowel::U && s.vowel.tone is None) ==> s.vowel.virama->0.spec_is_stop()
    &&& s.consonant.basic == BasicConsonant::A ==> s.consonant.medial is None
    &&& s.consonant.basic == BasicConsonant::C ==> !(s.consonant.medial == Some(MedialDiacritic::Y)
        || s.consonant.medial == Some(MedialDiacritic::Yw) || s.consonant.medial == Some(MedialDiacritic::Hy)
        || s.consonant.medial == Some(MedialDiacritic::Hyw))
}

/// The finals that an asat closes in the decomposer's table.
pub open spec fn asat_final(f: Virama) -> bool {
    f == Virama::K || f == Virama::C || f == Virama::T || f == Virama::P || f == Virama::N || f
        == Virama::M || f == Virama::Ny || f == Virama::Ng
}

proof fn lemma_closed_signs_read_back(v: BasicVowel, f: Virama, rest: Seq<char>)
    requires
        v != BasicVowel::Ai,
        rest.len() >= 1,
        rest[0] == '\u{103A}' || rest[0] == '\u{1039}',
    ensures
        ({
            let cs = spec_closed_signs(v) + seq![spec_final_letter(f)] + rest;
            &&& spec_vowel_signs(cs) == (v, if v == BasicVowel::U { Some(Tone::Creaky) } else {
                None::<Tone>
            }, spec_closed_signs(v).len() as usize, false)
            &&& spec_closed_signs(v).len() <= 2
            &&& cs.len() > 0 ==> not_medial_mark(cs[0])
        }),
{
    reveal(spec_vowel_signs);
    let sg = spec_closed_signs(v);
    let cs = sg + seq![spec_final_letter(f)] + rest;
    assert(cs[sg.len() as int] == spec_final_letter(f));
    assert(cs[(sg.len() + 1) as int] == rest[0]);
    if sg.len() > 0 {
        assert(cs[0] == sg[0]);
    }
    if sg.len() > 1 {
        assert(cs[1] == sg[1]);
    }
}

proof fn lemma_asat_closure_reads_back(f: Virama, t: Option<Tone>)
    requires
        asat_final(f),
        f.spec_is_stop() ==> t is None,
        f == Virama::Ng ==> t is Some,
    ensures
        spec_closure(seq![spec_final_letter(f), '\u{103A}'] + spec_final_tone(t)) == Closure::Final(
            f,
            t,
            (2 + spec_final_tone(t).len()) as usize,
        ),
{
    reveal(spec_closure);
    let cs = seq![spec_final_letter(f), '\u{103A}'] + spec_final_tone(t);
    assert(cs[0] == spec_final_letter(f));
    assert(cs[1] == '\u{103A}');
    if t is Some {
        assert(cs[2] == spec_final_tone(t)[0]);
    }
}

proof fn lemma_closed_parse_generic(
    cs: Seq<char>,
    c: Consonant,
    marks: Seq<char>,
    after: Seq<char>,
    sg_len: nat,
    v: Vowel,
    f: Virama,
    t: Option<Tone>,
    n: usize,
)
    requires
        cs == seq![spec_myanmar_letter(c.basic)] + (marks + after),
        BasicConsonant::spec_from_myanmar(spec_myanmar_letter(c.basic)) == Some(c.basic),
        c.basic == BasicConsonant::A ==> c.medial is None,
        spec_myanmar_letter(c.basic) == 'စ' ==> !(marks.len() > 0 && marks[0] == '\u{103B}'),
        marks.len() == 0 <==> c.medial is None,
        spec_medial(marks + after) == (c.medial, marks.len() as usize),
        marks.len() <= 3,
        after.len() > 0 && not_medial_mark(after[0]),
        spec_vowel_signs(after) == (v.basic, v.tone, sg_len as usize, false),
        sg_len <= 2,
        sg_len + n == after.len(),
        n >= 1,
        v.virama is None,
        spec_closure(after.skip(sg_len as int)) == Closure::Final(f, t, n),
    ensures
        spec_parse_syllable(cs) == Ok::<(Syllable, nat), ParseError>((
            Syllable { consonant: c, vowel: spec_close_vowel(v, f, t), bottom_syllable: None },
            cs.len(),
        )),
{
    assert(cs.skip(1) =~= marks + after);
    assert(cs[0] == spec_myanmar_letter(c.basic));
    if marks.len() > 0 {
        assert(cs[1] == marks[0]);
    } else {
        assert(cs[1] == after[0]);
    }
    let k = 1 + marks.len();
    assert(at(cs, 1) != Some('\u{103B}') || spec_myanmar_letter(c.basic) != 'စ');
    assert(spec_parse_consonant(cs) == Some((c, k as nat)));
    assert(cs.skip(k as int) =~= after);
    assert(k < cs.len());
    assert(spec_vowel_signs(cs.skip(k as int)) == (v.basic, v.tone, sg_len as usize, false));
    assert(cs.skip((k + sg_len) as int) =~= after.skip(sg_len as int));
    assert(Vowel { basic: v.basic, virama: None, tone: v.tone } == v);
}

/// The Myanmar spelling of a syllable that `closed_spellable` admits reads
/// back as that very syllable, and the whole spelling is taken.
pub proof fn lemma_closed_syllable_round_trip(s: Syllable)
    requires
        closed_spellable(s),
    ensures
        spec_parse_syllable(s.spec_to_myanmar()) == Ok::<(Syllable, nat), ParseError>((s, s.spec_to_myanmar().len())),
{
    let b = s.consonant.basic;
    let m = s.consonant.medial;
    let f = s.vowel.virama->0;
    let t = s.vowel.tone;
    let marks = spec_medial_marks(m);
    let sg = spec_closed_signs(s.vowel.basic);
    let coda = seq![spec_final_letter(f), '\u{103A}'] + spec_final_tone(t);
    let after = sg + coda;
    assert(sg + seq![spec_final_letter(f)] + (seq!['\u{103A}'] + spec_final_tone(t)) =~= after);
    assert(after.skip(sg.len() as int) =~= coda);
    lemma_letter_reads_back(b);
    lemma_closed_signs_read_back(s.vowel.basic, f, seq!['\u{103A}'] + spec_final_tone(t));
    lemma_asat_closure_reads_back(f, t);
    lemma_marks_read_back(m, after);
    let vt = if s.vowel.basic == BasicVowel::U { Some(Tone::Creaky) } else { None::<Tone> };
    let v0 = Vowel { basic: s.vowel.basic, virama: None, tone: vt };
    assert(spec_close_vowel(v0, f, t) == s.vowel);
    assert(s.spec_to_myanmar() =~= seq![spec_myanmar_letter(b)] + (marks + after));
    lemma_closed_parse_generic(
        s.spec_to_myanmar(),
        s.consonant,
        marks,
        after,
        sg.len(),
        v0,
        f,
        t,
        (2 + spec_final_tone(t).len()) as usize,
    );
}

/// The finals that can stand on top of a stacked syllable starting with
/// `b`, as the closure table has them for the letters that write them.
pub open spec fn stack_pair(f: Virama, b: BasicConsonant) -> bool {
    match f {
        Virama::K => b == BasicConsonant::K || b == BasicConsonant::Hk,
        Virama::G => b == BasicConsonant::G || b == BasicConsonant::Gh,
        Virama::C => b == BasicConsonant::C || b == BasicConsonant::Hc,
        Virama::J => b == BasicConsonant::J || b == BasicConsonant::Jh,
        Virama::Ny => b == BasicConsonant::C || b == BasicConsonant::J,
        Virama::T => b == BasicConsonant::T,
        Virama::Ht => b == BasicConsonant::Ht,
        Virama::D => b == BasicConsonant::D,
        Virama::N => b == BasicConsonant::T || b == BasicConsonant::Ht || b == BasicConsonant::D
            || b == BasicConsonant::Dh || b == BasicConsonant::N,
        Virama::P => b == BasicConsonant::P,
        Virama::B => b == BasicConsonant::B || b == BasicConsonant::Bh,
        Virama::M => b == BasicConsonant::P || b == BasicConsonant::B || b == BasicConsonant::Bh
            || b == BasicConsonant::M,
        Virama::L => b == BasicConsonant::L,
        _ => false,
    }
}

proof fn lemma_stack_closure_reads_back(f: Virama, b: BasicConsonant, rest: Seq<char>)
    requires
        stack_pair(f, b),
    ensures
        spec_closure(seq![spec_final_letter(f), '\u{1039}', spec_myanmar_letter(b)] + rest)
            == Closure::Stacked(f, 2),
{
    reveal(spec_closure);
    let cs = seq![spec_final_letter(f), '\u{1039}', spec_myanmar_letter(b)] + rest;
    assert(cs[0] == spec_final_letter(f));
    assert(cs[1] == '\u{1039}');
    assert(cs[2] == spec_myanmar_letter(b));
}

/// A stacked syllable whose Myanmar spelling reads back: the final on top
/// and the first consonant below form a pair of the closure table; the top
/// vowel is written before a final (not `ai`) and carries no tone but the
/// creaky one that a `u` sign gives a final other than a stop; the onset is
/// as `open_spellable` asks; and the syllable below reads back alone.
pub open spec fn stacked_spellable(s: Syllable) -> bool {
    &&& s.bottom_syllable matches Some(b) && {
        let below = Syllable { consonant: b.consonant, vowel: b.vowel, bottom_syllable: None };
        open_spellable(below) || closed_spellable(below)
    }
    &&& s.vowel.virama matches Some(f) && stack_pair(f, s.bottom_syllable->0.consonant.basic)
    &&& s.vowel.basic != BasicVowel::Ai
    &&& s.vowel.tone == if s.vowel.basic == BasicVowel::U && !s.vowel.virama->0.spec_is_stop() {
        Some(Tone::Creaky)
    } else {
        None
    }
    &&& s.consonant.basic == BasicConsonant::A ==> s.consonant.medial is None
    &&& s.consonant.basic == BasicConsonant::C ==> !(s.consonant.medial == Some(MedialDiacritic::Y)
        || s.consonant.medial == Some(MedialDiacritic::Yw) || s.consonant.medial == Some(MedialDiacritic::Hy)
        || s.consonant.medial == Some(MedialDiacritic::Hyw))
}

proof fn lemma_stacked_parse_generic(
    cs: Seq<char>,
    c: Consonant,
    marks: Seq<char>,
    after: Seq<char>,
    sg_len: nat,
    v: Vowel,
    f: Virama,
    below: Seq<char>,
    bsyl: Syllable,
)
    requires
        cs == seq![spec_myanmar_letter(c.basic)] + (marks + after),
        BasicConsonant::spec_from_myanmar(spec_myanmar_letter(c.basic)) == Some(c.basic),
        c.basic == BasicConsonant::A ==> c.medial is None,
        spec_myanmar_letter(c.basic) == 'စ' ==> !(marks.len() > 0 && marks[0] == '\u{103B}'),
        marks.len() == 0 <==> c.medial is None,
        spec_medial(marks + after) == (c.medial, marks.len() as usize),
        marks.len() <= 3,
        after.len() > 0 && not_medial_mark(after[0]),
        spec_vowel_signs(after) == (v.basic, v.tone, sg_len as usize, false),
        sg_len <= 2,
        v.virama is None,
        after.len() == sg_len + 2 + below.len(),
        after.skip((sg_len + 2) as int) == below,
        spec_closure(after.skip(sg_len as int)) == Closure::Stacked(f, 2),
        spec_parse_syllable(below) == Ok::<(Syllable, nat), ParseError>((bsyl, below.len())),
    ensures
        spec_parse_syllable(cs) == Ok::<(Syllable, nat), ParseError>((
            Syllable {
                consonant: c,
                vowel: spec_close_vowel(v, f, None),
                bottom_syllable: Some(BaseSyllable { consonant: bsyl.consonant, vowel: bsyl.vowel }),
            },
            cs.len(),
        )),
{
    assert(cs.skip(1) =~= marks + after);
    assert(cs[0] == spec_myanmar_letter(c.basic));
    if marks.len() > 0 {
        assert(cs[1] == marks[0]);
    } else {
        assert(cs[1] == after[0]);
    }
    let k = 1 + marks.len();
    assert(spec_parse_consonant(cs) == Some((c, k as nat)));
    assert(cs.skip(k as int) =~= after);
    assert(cs.skip((k + sg_len) as int) =~= after.skip(sg_len as int));
    assert(cs.skip((k + sg_len + 2) as int) =~= below);
    assert(Vowel { basic: v.basic, virama: None, tone: v.tone } == v);
}

proof fn lemma_below_reads_back(bb: BaseSyllable)
    requires
        ({
            let below = Syllable { consonant: bb.consonant, vowel: bb.vowel, bottom_syllable: None };
            open_spellable(below) || closed_spellable(below)
        }),
    ensures
        ({
            let below = spec_base_to_myanmar(bb.consonant, bb.vowel, false);
            &&& below.len() > 0
            &&& below[0] == spec_myanmar_letter(bb.consonant.basic)
            &&& spec_parse_syllable(below) == Ok::<(Syllable, nat), ParseError>((
                Syllable { consonant: bb.consonant, vowel: bb.vowel, bottom_syllable: None },
                below.len(),
            ))
        }),
{
    let below_syl = Syllable { consonant: bb.consonant, vowel: bb.vowel, bottom_syllable: None };
    assert(below_syl.spec_to_myanmar() == spec_base_to_myanmar(bb.consonant, bb.vowel, false));
    if open_spellable(below_syl) {
        lemma_open_syllable_round_trip(below_syl);
    } else {
        lemma_closed_syllable_round_trip(below_syl);
    }
}

proof fn lemma_stacked_spelling_parts(s: Syllable)
    requires
        s.bottom_syllable is Some,
        s.vowel.virama is Some,
    ensures
        s.spec_to_myanmar() =~= seq![spec_myanmar_letter(s.consonant.basic)] + (spec_medial_marks(
            s.consonant.medial,
        ) + (spec_closed_signs(s.vowel.basic) + seq![spec_final_letter(s.vowel.virama->0)] + (seq![
            '\u{1039}',
        ] + spec_base_to_myanmar(
            s.bottom_syllable->0.consonant,
            s.bottom_syllable->0.vowel,
            false,
        )))),
{
}

/// The Myanmar spelling of a syllable that `stacked_spellable` admits reads
/// back as that very syllable, and the whole spelling is taken.
pub proof fn lemma_stacked_syllable_round_trip(s: Syllable)
    requires
        stacked_spellable(s),
    ensures
        spec_parse_syllable(s.spec_to_myanmar()) == Ok::<(Syllable, nat), ParseError>((s, s.spec_to_myanmar().len())),
{
    let b = s.consonant.basic;
    let m = s.consonant.medial;
    let f = s.vowel.virama->0;
    let bb = s.bottom_syllable->0;
    let below_syl = Syllable { consonant: bb.consonant, vowel: bb.vowel, bottom_syllable: None };
    let below = spec_base_to_myanmar(bb.consonant, bb.vowel, false);
    lemma_below_reads_back(bb);
    let marks = spec_medial_marks(m);
    let sg = spec_closed_signs(s.vowel.basic);
    let tail = seq!['\u{1039}'] + below;
    let after = sg + seq![spec_final_letter(f)] + tail;
    let bl = spec_myanmar_letter(bb.consonant.basic);
    assert(below =~= seq![bl] + below.skip(1));
    assert(after.skip(sg.len() as int) =~= seq![spec_final_letter(f), '\u{1039}', bl] + below.skip(1));
    assert(after.skip((sg.len() + 2) as int) =~= below);
    lemma_letter_reads_back(b);
    lemma_closed_signs_read_back(s.vowel.basic, f, tail);
    lemma_stack_closure_reads_back(f, bb.consonant.basic, below.skip(1));
    lemma_marks_read_back(m, after);
    let vt = if s.vowel.basic == BasicVowel::U { Some(Tone::Creaky) } else { None::<Tone> };
    let v0 = Vowel { basic: s.vowel.basic, virama: None, tone: vt };
    assert(spec_close_vowel(v0, f, None) == s.vowel);
    lemma_stacked_spelling_parts(s);
    lemma_stacked_parse_generic(s.spec_to_myanmar(), s.consonant, marks, after, sg.len(), v0, f, below, below_syl);
}

} // verus!

//! Transliteration between the Myanmar script and MLCTS, the Latin
//! notation of the Myanmar Language Commission.
//!
//! `phoneme` holds the structured syllable that both directions share;
//! `tokenizer` reads MLCTS text into syllables; `segment` cuts Myanmar text
//! into syllable spans and `myanmar` reads those spans into syllables and
//! writes them in MLCTS.
pub mod myanmar;
pub mod phoneme;
pub mod segment;
pub mod text;
pub mod tokenizer;

pub use myanmar::{from_my, parse_syllable, ParseError};
pub use phoneme::{
    BaseSyllable, BasicConsonant, BasicVowel, Consonant, IllegalMedialCombination,
    MedialDiacritic, NotAConsonant, Syllable, Tone, Virama, Vowel,
};
pub use segment::split_syllables;
pub use tokenizer::{tokenize, Token, TokenKind, Tokenizer};

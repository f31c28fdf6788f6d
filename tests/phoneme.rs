use mlcts::{
    BaseSyllable, BasicConsonant, BasicVowel, Consonant, MedialDiacritic, Syllable, Tone,
    Virama, Vowel,
};

#[test]
fn medial_combine_defined_pairs() {
    type M = MedialDiacritic;
    let all = [M::Y, M::R, M::W, M::H, M::Yw, M::Rw, M::Hy, M::Hr, M::Hw, M::Hyw, M::Hrw];
    let defined = [
        (M::H, M::Y, M::Hy),
        (M::H, M::R, M::Hr),
        (M::H, M::W, M::Hw),
        (M::Y, M::W, M::Yw),
        (M::R, M::W, M::Rw),
        (M::Hy, M::W, M::Hyw),
        (M::Hr, M::W, M::Hrw),
    ];
    for a in all {
        for b in all {
            let expected = defined.iter().find(|(x, y, _)| *x == a && *y == b).map(|(_, _, m)| *m);
            match expected {
                Some(m) => assert_eq!(a.combine(b), Ok(m)),
                None => assert!(a.combine(b).is_err()),
            }
        }
    }
}

#[test]
fn medial_combine_examples() {
    assert_eq!(MedialDiacritic::Hy.combine(MedialDiacritic::W), Ok(MedialDiacritic::Hyw));
    assert!(MedialDiacritic::R.combine(MedialDiacritic::Y).is_err());
}

#[test]
fn medial_combine_options() {
    type M = MedialDiacritic;
    assert_eq!(M::combine_medial_diacritics(None, None), Ok(None));
    assert_eq!(M::combine_medial_diacritics(Some(M::Y), None), Ok(Some(M::Y)));
    assert_eq!(M::combine_medial_diacritics(None, Some(M::W)), Ok(Some(M::W)));
    assert_eq!(M::combine_medial_diacritics(Some(M::H), Some(M::R)), Ok(Some(M::Hr)));
    assert!(M::combine_medial_diacritics(Some(M::W), Some(M::H)).is_err());
}

#[test]
fn consonant_mlcts_places_h_before() {
    assert_eq!(Consonant::with_medial(BasicConsonant::M, MedialDiacritic::Hyw).to_mlcts(), "hmyw");
    assert_eq!(Consonant::with_medial(BasicConsonant::K, MedialDiacritic::Rw).to_mlcts(), "krw");
    assert_eq!(Consonant::with_medial(BasicConsonant::N, MedialDiacritic::H).to_mlcts(), "hn");
    assert_eq!(Consonant::simple(BasicConsonant::Hk).to_mlcts(), "hk");
}

#[test]
fn letter_spellings() {
    assert_eq!(BasicConsonant::Ng.to_mlcts(), "ng");
    assert_eq!(BasicConsonant::A.to_mlcts(), "a");
    assert_eq!(Virama::Ht.to_mlcts(), "ht");
    assert_eq!(BasicVowel::Ui.to_mlcts(), "ui");
    assert_eq!(Tone::High.to_mlcts(), ":");
    assert_eq!(Tone::Creaky.to_mlcts(), ".");
    let b: BasicConsonant = Virama::Ny.into();
    assert_eq!(b, BasicConsonant::Ny);
    assert_eq!(Virama::S.to_basic_consonant(), BasicConsonant::S);
}

#[test]
fn from_myanmar_letters() {
    assert_eq!(BasicConsonant::from_my_alphabet('က'), Ok(BasicConsonant::K));
    assert_eq!(BasicConsonant::from_my_alphabet('ဋ'), Ok(BasicConsonant::T));
    assert_eq!(BasicConsonant::from_my_alphabet('တ'), Ok(BasicConsonant::T));
    assert_eq!(BasicConsonant::from_my_alphabet('ဉ'), Ok(BasicConsonant::Ny));
    assert_eq!(BasicConsonant::from_my_alphabet('ဠ'), Ok(BasicConsonant::L));
    assert_eq!(BasicConsonant::from_my_alphabet('အ'), Ok(BasicConsonant::A));
    assert!(BasicConsonant::from_my_alphabet('a').is_err());
    assert!(BasicConsonant::from_my_alphabet('ာ').is_err());
}

#[test]
fn vowel_and_syllable_mlcts() {
    assert_eq!(Vowel::new(BasicVowel::A, Some(Virama::N), Some(Tone::High)).to_mlcts(), "an:");
    assert_eq!(Vowel::simple(BasicVowel::A).to_mlcts(), "a");
    assert_eq!(Vowel::with_tone(BasicVowel::E, Some(Tone::Creaky)).to_mlcts(), "e.");
    assert_eq!(Vowel::with_virama(BasicVowel::A, Virama::K).to_mlcts(), "ak");
    let bottom = BaseSyllable {
        consonant: Consonant::simple(BasicConsonant::K),
        vowel: Vowel::simple(BasicVowel::A),
    };
    let s = Syllable::new(
        Consonant::simple(BasicConsonant::T),
        Vowel::with_virama(BasicVowel::A, Virama::K),
        Some(bottom),
    );
    assert_eq!(s.to_mlcts(), "takka");
    assert_eq!(Syllable::simple(Vowel::simple(BasicVowel::I)).to_mlcts(), "ai");
    assert_eq!(Syllable::with_vowel(Vowel::simple(BasicVowel::U)), Syllable::simple(Vowel::simple(BasicVowel::U)));
    let base: BaseSyllable = s.into();
    assert_eq!(base.to_mlcts(), "tak");
    let back: Syllable = base.into();
    assert_eq!(back.bottom_syllable, None);
}

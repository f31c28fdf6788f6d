use mlcts::{
    from_my, parse_syllable, split_syllables, BaseSyllable, BasicConsonant, BasicVowel,
    Consonant, MedialDiacritic, ParseError, Syllable, Tone, Virama, Vowel,
};

fn plain(b: BasicConsonant, v: Vowel) -> Syllable {
    Syllable { consonant: Consonant::simple(b), vowel: v, bottom_syllable: None }
}

#[test]
fn test_split_syllables() {
    let input = "ကျွန်တော်ကသုတေသနသမားပါ။\n\
    နေ့ရောညရောမြန်မာစာနဲ့ကွန်ပျူတာနဲ့ပဲအလုပ် များ ပါ တယ်\n\
    မင်းကကောဘာအလုပ်လုပ်တာလဲ။\n\
    ပြောပြပါအုံး\n\
    ကော်ဖီလည်းထပ်သောက်ချင်ရင်ပြောကွာ";

    let syllables = split_syllables(input);
    let expected = &[
      "ကျွန်", "တော်", "က", "သု", "တေ", "သ", "န", "သ", "မား", "ပါ", "။", "\n",
      "နေ့", "ရော", "ည", "ရော", "မြန်", "မာ", "စာ", "နဲ့",
      "ကွန်", "ပျူ", "တာ", "နဲ့", "ပဲ",
      "အ", "လုပ်", " ", "များ", " ", "ပါ", " ", "တယ်", "\n",
      "မင်း", "က", "ကော","ဘာ", "အ", "လုပ်", "လုပ်", "တာ", "လဲ", "။", "\n",
      "ပြော", "ပြ", "ပါ", "အုံး", "\n",
      "ကော်", "ဖီ", "လည်း", "ထပ်", "သောက်", "ချင်", "ရင်", "ပြော", "ကွာ"];
    assert_eq!(syllables, expected)
}

#[test]
fn split_syllables_sentence() {
    let input = "ကျွန်တော်က တက္ကသိုလ်ကျောင်းသားပါ။";
    let expected = &["ကျွန်", "တော်", "က", " ", "တက္က", "သိုလ်", "ကျောင်း", "သား", "ပါ", "။"];
    assert_eq!(split_syllables(input), expected);
}

#[test]
fn split_syllables_partition_and_edges() {
    let input = "ab, ကို";
    let spans = split_syllables(input);
    assert_eq!(spans.concat(), input);
    assert_eq!(spans, vec!["a", "b", ",", " ", "ကို"]);
    assert!(split_syllables("").is_empty());
    // text before the first boundary is a span of its own
    assert_eq!(split_syllables("ါက"), vec!["ါ", "က"]);
    assert_eq!(split_syllables("ါက").concat(), "ါက");
}

#[test]
fn test_mlcts_from_my() {
    let input = "ပိဿာ";
    let mlcts = from_my(input);
    assert_eq!(mlcts, "pissa");
}

#[test]
fn from_my_passes_unreadable_spans_through() {
    assert_eq!(from_my("မြန်မာ"), "mranma");
    assert_eq!(from_my("ပါ"), "ပါ");
    assert_eq!(from_my("ab"), "ab");
    assert_eq!(from_my(""), "");
}

#[test]
fn parse_stacked_cluster() {
    let (s, n) = parse_syllable("တက္က").unwrap();
    assert_eq!(n, "တက္က".len());
    assert_eq!(s.consonant, Consonant::simple(BasicConsonant::T));
    assert_eq!(s.vowel, Vowel::with_virama(BasicVowel::A, Virama::K));
    assert_eq!(
        s.bottom_syllable,
        Some(BaseSyllable { consonant: Consonant::simple(BasicConsonant::K), vowel: Vowel::simple(BasicVowel::A) })
    );
    assert_eq!(s.to_mlcts(), "takka");
}

#[test]
fn parse_medials_and_tones() {
    let (s, n) = parse_syllable("ကျွန်").unwrap();
    assert_eq!(n, "ကျွန်".len());
    assert_eq!(s.consonant, Consonant::with_medial(BasicConsonant::K, MedialDiacritic::Yw));
    assert_eq!(s.vowel, Vowel::with_virama(BasicVowel::A, Virama::N));
    let (s, _) = parse_syllable("ကျောင်း").unwrap();
    assert_eq!(s.consonant, Consonant::with_medial(BasicConsonant::K, MedialDiacritic::Y));
    assert_eq!(s.vowel, Vowel::new(BasicVowel::Au, Some(Virama::Ng), Some(Tone::High)));
    assert_eq!(s.to_mlcts(), "kyaung:");
    let (s, _) = parse_syllable("မှ").unwrap();
    assert_eq!(s.consonant, Consonant::with_medial(BasicConsonant::M, MedialDiacritic::H));
    let (s, _) = parse_syllable("ကြွှ").unwrap();
    assert_eq!(s.consonant, Consonant::with_medial(BasicConsonant::K, MedialDiacritic::Hrw));
}

#[test]
fn parse_vowel_patterns() {
    let cases: &[(&str, BasicVowel, Option<Tone>)] = &[
        ("ကား", BasicVowel::A, Some(Tone::High)),
        ("ကာ", BasicVowel::A, None),
        ("ကယ်", BasicVowel::Ai, None),
        ("ကဲ့", BasicVowel::Ai, Some(Tone::Creaky)),
        ("ကဲ", BasicVowel::Ai, Some(Tone::High)),
        ("ကော်", BasicVowel::Au, None),
        ("ကော့", BasicVowel::Au, Some(Tone::Creaky)),
        ("ကော", BasicVowel::Au, None),
        ("ကူ", BasicVowel::U, None),
        ("ကူး", BasicVowel::U, Some(Tone::High)),
        ("ကု", BasicVowel::U, None),
        ("ကိုး", BasicVowel::Ui, Some(Tone::High)),
        ("ကို့", BasicVowel::Ui, Some(Tone::Creaky)),
        ("ကို", BasicVowel::Ui, None),
        ("ကီ", BasicVowel::I, None),
        ("ကီး", BasicVowel::I, Some(Tone::High)),
        ("ကိ", BasicVowel::I, None),
        ("ကေး", BasicVowel::E, Some(Tone::High)),
        ("ကေ့", BasicVowel::E, Some(Tone::Creaky)),
        ("ကေ", BasicVowel::E, None),
    ];
    for (text, v, t) in cases {
        let (s, n) = parse_syllable(text).unwrap();
        assert_eq!(n, text.len());
        assert_eq!(s, plain(BasicConsonant::K, Vowel::with_tone(*v, *t)), "{}", text);
    }
}

#[test]
fn parse_creaky_u_before_final() {
    let (s, _) = parse_syllable("ကုန်").unwrap();
    assert_eq!(s.vowel, Vowel::new(BasicVowel::U, Some(Virama::N), Some(Tone::Creaky)));
    // a stop final carries no tone
    let (s, _) = parse_syllable("ကုတ်").unwrap();
    assert_eq!(s.vowel, Vowel::with_virama(BasicVowel::U, Virama::T));
}

#[test]
fn parse_errors() {
    assert_eq!(parse_syllable(""), Err(ParseError::NotAConsonant));
    assert_eq!(parse_syllable("ab"), Err(ParseError::NotAConsonant));
    assert_eq!(parse_syllable("ပါ"), Err(ParseError::UnknownCluster));
    assert_eq!(parse_syllable("ကင်္"), Err(ParseError::UnexpectedEnd));
}

#[test]
fn parse_normalizes_ca_with_medial_y() {
    let (s, n) = parse_syllable("စျေး").unwrap();
    assert_eq!(n, "စျေး".len());
    assert_eq!(s, plain(BasicConsonant::Jh, Vowel::with_tone(BasicVowel::E, Some(Tone::High))));
}

#[test]
fn parse_final_stop_consumes_asat_only() {
    let (s, n) = parse_syllable("ပပ်").unwrap();
    assert_eq!(n, "ပပ်".len());
    assert_eq!(s.vowel, Vowel::with_virama(BasicVowel::A, Virama::P));
}

#[test]
fn to_myanmar_spelling_reads_back() {
    let s = Syllable::new(
        Consonant::with_medial(BasicConsonant::K, MedialDiacritic::Y),
        Vowel::with_tone(BasicVowel::Au, Some(Tone::Creaky)),
        None,
    );
    let text = s.to_myanmar();
    assert_eq!(text, "ကျော့");
    let (back, n) = parse_syllable(&text).unwrap();
    assert_eq!(back, s);
    assert_eq!(n, text.len());
    assert_eq!(back.to_mlcts(), s.to_mlcts());
}

#[test]
fn to_myanmar_open_syllables_round_trip() {
    let vowels = [
        (BasicVowel::A, None),
        (BasicVowel::A, Some(Tone::High)),
        (BasicVowel::I, None),
        (BasicVowel::I, Some(Tone::High)),
        (BasicVowel::U, None),
        (BasicVowel::U, Some(Tone::High)),
        (BasicVowel::E, Some(Tone::Creaky)),
        (BasicVowel::Ai, None),
        (BasicVowel::Ai, Some(Tone::High)),
        (BasicVowel::Au, None),
        (BasicVowel::Ui, Some(Tone::High)),
    ];
    for (v, t) in vowels {
        let s = Syllable::new(Consonant::with_medial(BasicConsonant::M, MedialDiacritic::Hrw), Vowel::with_tone(v, t), None);
        let (back, _) = parse_syllable(&s.to_myanmar()).unwrap();
        assert_eq!(back.to_mlcts(), s.to_mlcts());
    }
}

#[test]
fn to_myanmar_closed_and_stacked() {
    let s = Syllable::new(Consonant::simple(BasicConsonant::N), Vowel::new(BasicVowel::A, Some(Virama::N), Some(Tone::High)), None);
    assert_eq!(s.to_myanmar(), "နန်း");
    let bottom = BaseSyllable { consonant: Consonant::simple(BasicConsonant::K), vowel: Vowel::simple(BasicVowel::A) };
    let s = Syllable::new(Consonant::simple(BasicConsonant::T), Vowel::with_virama(BasicVowel::A, Virama::K), Some(bottom));
    assert_eq!(s.to_myanmar(), "တက္က");
}

#[test]
fn to_myanmar_closed_syllables_round_trip() {
    let cases = [
        Syllable::new(Consonant::with_medial(BasicConsonant::K, MedialDiacritic::Y), Vowel::new(BasicVowel::A, Some(Virama::N), Some(Tone::High)), None),
        Syllable::new(Consonant::simple(BasicConsonant::P), Vowel::with_virama(BasicVowel::U, Virama::K), None),
        Syllable::new(Consonant::simple(BasicConsonant::M), Vowel::new(BasicVowel::Au, Some(Virama::Ng), Some(Tone::Creaky)), None),
        Syllable::new(Consonant::simple(BasicConsonant::L), Vowel::with_virama(BasicVowel::Ui, Virama::M), None),
    ];
    for s in cases {
        let text = s.to_myanmar();
        let (back, n) = parse_syllable(&text).unwrap();
        assert_eq!(back, s, "{}", text);
        assert_eq!(n, text.len());
    }
}

#[test]
fn parse_ca_medial_y_then_more_medials() {
    let (s, n) = parse_syllable("စျွက်").unwrap();
    assert_eq!(n, "စျွက်".len());
    assert_eq!(s.consonant, Consonant::with_medial(BasicConsonant::Jh, MedialDiacritic::W));
    assert_eq!(s.vowel, Vowel::with_virama(BasicVowel::A, Virama::K));
    let (s, _) = parse_syllable("စျွင်း").unwrap();
    assert_eq!(s.vowel, Vowel::new(BasicVowel::A, Some(Virama::Ng), Some(Tone::High)));
    assert!(parse_syllable("စျွက္က").unwrap().0.bottom_syllable.is_some());
    assert_eq!(from_my("စျွာ"), "jhwa");
    assert_eq!(from_my("စျွာ"), from_my("ဈွာ"));
}

#[test]
fn from_my_rewrites_ca_medial_y_everywhere() {
    assert_eq!(from_my("စျ့"), from_my("ဈ့"));
    assert_eq!(from_my("စျ့"), "ဈ့");
    assert_eq!(from_my("စျ်"), from_my("ဈ်"));
    assert_eq!(from_my("ကစျေး"), from_my("ကဈေး"));
    assert_eq!(from_my("ကစျေး"), "kajhe:");
}

#[test]
fn to_myanmar_stacked_syllables_round_trip() {
    let cases = [
        Syllable::new(
            Consonant::simple(BasicConsonant::T),
            Vowel::with_virama(BasicVowel::A, Virama::K),
            Some(BaseSyllable { consonant: Consonant::simple(BasicConsonant::K), vowel: Vowel::simple(BasicVowel::A) }),
        ),
        Syllable::new(
            Consonant::with_medial(BasicConsonant::K, MedialDiacritic::R),
            Vowel::new(BasicVowel::U, Some(Virama::M), Some(Tone::Creaky)),
            Some(BaseSyllable {
                consonant: Consonant::simple(BasicConsonant::Bh),
                vowel: Vowel::with_tone(BasicVowel::A, Some(Tone::High)),
            }),
        ),
        Syllable::new(
            Consonant::simple(BasicConsonant::S),
            Vowel::with_virama(BasicVowel::A, Virama::N),
            Some(BaseSyllable {
                consonant: Consonant::simple(BasicConsonant::T),
                vowel: Vowel::with_virama(BasicVowel::A, Virama::N),
            }),
        ),
    ];
    for s in cases {
        let text = s.to_myanmar();
        let (back, n) = parse_syllable(&text).unwrap();
        assert_eq!(back, s, "{}", text);
        assert_eq!(n, text.len());
    }
}

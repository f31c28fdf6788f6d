use mlcts::{
    tokenize, BasicConsonant, BasicVowel, Consonant, MedialDiacritic, Syllable, Token, TokenKind,
    Tokenizer, Tone, Virama, Vowel,
};

fn syl(c: Consonant, v: Vowel) -> TokenKind {
    TokenKind::Syllable(Syllable::new(c, v, None))
}

fn first_kind(input: &str) -> TokenKind {
    let mut tokenizer = Tokenizer::new(input);
    tokenizer.next_token().kind
}

fn check_class(cases: &[(&str, BasicConsonant, Option<MedialDiacritic>, Vowel)]) {
    for (input, c, m, v) in cases {
        assert_eq!(first_kind(input), syl(Consonant::new(*c, *m), *v), "{}", input);
    }
}

#[test]
fn test_basic_consonants() {
    type B = BasicConsonant;
    let all = [
        B::K, B::Hk, B::G, B::Gh, B::Ng, B::C, B::Hc, B::J, B::Jh, B::Ny, B::T, B::Ht, B::D, B::Dh,
        B::N, B::P, B::Hp, B::B, B::Bh, B::M, B::Y, B::R, B::L, B::W, B::S, B::H, B::A,
    ];
    for c in all {
        let input = format!("{}a.", c.to_mlcts());
        let mut tokenizer = Tokenizer::new(&input);
        let token = tokenizer.next_token();
        assert_eq!(token.kind, syl(Consonant::simple(c), Vowel::with_tone(BasicVowel::A, Some(Tone::Creaky))), "{}", input);
        assert_eq!(token.len, input.len());
    }
}

#[test]
fn test_vowel_a() {
    type B = BasicConsonant;
    check_class(&[
        ("ka", B::K, None, Vowel::simple(BasicVowel::A)),
        ("mya", B::M, Some(MedialDiacritic::Y), Vowel::simple(BasicVowel::A)),
        ("hmya", B::M, Some(MedialDiacritic::Hy), Vowel::simple(BasicVowel::A)),
        ("kwa", B::K, Some(MedialDiacritic::W), Vowel::simple(BasicVowel::A)),
    ]);
}

#[test]
fn test_vowel_a_high() {
    type B = BasicConsonant;
    check_class(&[
        ("ka:", B::K, None, Vowel::with_tone(BasicVowel::A, Some(Tone::High))),
        ("sa:", B::S, None, Vowel::with_tone(BasicVowel::A, Some(Tone::High))),
        ("hnga:", B::Ng, Some(MedialDiacritic::H), Vowel::with_tone(BasicVowel::A, Some(Tone::High))),
    ]);
}

#[test]
fn test_vowel_ak() {
    type B = BasicConsonant;
    check_class(&[
        ("kak", B::K, None, Vowel::with_virama(BasicVowel::A, Virama::K)),
        ("pyak", B::P, Some(MedialDiacritic::Y), Vowel::with_virama(BasicVowel::A, Virama::K)),
    ]);
}

#[test]
fn test_vowel_ac() {
    type B = BasicConsonant;
    check_class(&[
        ("sac", B::S, None, Vowel::with_virama(BasicVowel::A, Virama::C)),
        ("hkyac", B::Hk, Some(MedialDiacritic::Y), Vowel::with_virama(BasicVowel::A, Virama::C)),
    ]);
}

#[test]
fn test_vowel_at() {
    type B = BasicConsonant;
    check_class(&[
        ("tat", B::T, None, Vowel::with_virama(BasicVowel::A, Virama::T)),
        ("mrat", B::M, Some(MedialDiacritic::R), Vowel::with_virama(BasicVowel::A, Virama::T)),
    ]);
}

#[test]
fn test_vowel_ap() {
    type B = BasicConsonant;
    check_class(&[
        ("hap", B::H, None, Vowel::with_virama(BasicVowel::A, Virama::P)),
        ("lap", B::L, None, Vowel::with_virama(BasicVowel::A, Virama::P)),
    ]);
}

#[test]
fn tokenize_ka() {
    let tokens = tokenize("ka");
    assert_eq!(tokens, vec![Token { kind: syl(Consonant::simple(BasicConsonant::K), Vowel::simple(BasicVowel::A)), start: 0, len: 2 }]);
}

#[test]
fn tokenize_hkyau_high() {
    let tokens = tokenize("hkyau:");
    let expected = syl(
        Consonant::with_medial(BasicConsonant::Hk, MedialDiacritic::Y),
        Vowel::with_tone(BasicVowel::Au, Some(Tone::High)),
    );
    assert_eq!(tokens, vec![Token { kind: expected, start: 0, len: 6 }]);
}

#[test]
fn tokenize_myan_mar() {
    let tokens = tokenize("myan mar");
    let kinds: Vec<TokenKind> = tokens.iter().map(|t| t.kind).collect();
    assert_eq!(
        kinds,
        vec![
            syl(Consonant::with_medial(BasicConsonant::M, MedialDiacritic::Y), Vowel::with_virama(BasicVowel::A, Virama::N)),
            TokenKind::Whitespace,
            syl(Consonant::simple(BasicConsonant::M), Vowel::simple(BasicVowel::A)),
            syl(Consonant::simple(BasicConsonant::R), Vowel::simple(BasicVowel::A)),
        ]
    );
    let spans: Vec<(usize, usize)> = tokens.iter().map(|t| (t.start, t.len)).collect();
    assert_eq!(spans, vec![(0, 4), (4, 1), (5, 2), (7, 1)]);
}

#[test]
fn tokens_tile_the_input() {
    let input = "mingala pa  ?é kaka kak. nhga";
    let tokens = tokenize(input);
    assert_eq!(tokens[0].start, 0);
    for w in tokens.windows(2) {
        assert_eq!(w[0].start + w[0].len, w[1].start);
    }
    let last = tokens.last().unwrap();
    assert_eq!(last.start + last.len, input.len());
    assert!(tokens.iter().any(|t| t.kind == TokenKind::Unknown && t.len == 2));
}

#[test]
fn tokenizer_end_of_input_repeats() {
    let mut t = Tokenizer::new("a");
    assert!(matches!(t.next_token().kind, TokenKind::Syllable(_)));
    let end = t.next_token();
    assert_eq!(end, Token { kind: TokenKind::EndOfInput, start: 1, len: 0 });
    assert_eq!(t.next_token(), end);
    assert!(tokenize("").is_empty());
}

#[test]
fn tokenize_finals_and_onsets() {
    let kinds: Vec<TokenKind> = tokenize("kaka").iter().map(|t| t.kind).collect();
    let ka = syl(Consonant::simple(BasicConsonant::K), Vowel::simple(BasicVowel::A));
    assert_eq!(kinds, vec![ka, ka]);
    // a stop final before a tone mark begins the next syllable
    let kinds: Vec<TokenKind> = tokenize("kak.").iter().map(|t| t.kind).collect();
    assert_eq!(kinds, vec![ka, ka, TokenKind::Unknown]);
    // the nasal final takes a tone
    let kinds: Vec<TokenKind> = tokenize("kan:").iter().map(|t| t.kind).collect();
    assert_eq!(kinds, vec![syl(Consonant::simple(BasicConsonant::K), Vowel::new(BasicVowel::A, Some(Virama::N), Some(Tone::High)))]);
}

#[test]
fn tokenize_normalizes_nhg() {
    let tokens = tokenize("nhga");
    assert_eq!(tokens.len(), 1);
    assert_eq!(tokens[0].kind, syl(Consonant::with_medial(BasicConsonant::Ng, MedialDiacritic::H), Vowel::simple(BasicVowel::A)));
    assert_eq!(tokens[0].len, 4);
}

#[test]
fn tokenize_whitespace_run_and_unknown() {
    let tokens = tokenize(" \t\n?");
    assert_eq!(tokens, vec![
        Token { kind: TokenKind::Whitespace, start: 0, len: 3 },
        Token { kind: TokenKind::Unknown, start: 3, len: 1 },
    ]);
}

#[test]
fn spelled_syllables_tokenize_whole() {
    let cases = [
        Syllable::new(Consonant::with_medial(BasicConsonant::Ng, MedialDiacritic::Hyw), Vowel::new(BasicVowel::Ui, Some(Virama::Ng), Some(Tone::High)), None),
        Syllable::new(Consonant::with_medial(BasicConsonant::K, MedialDiacritic::H), Vowel::simple(BasicVowel::A), None),
        Syllable::new(Consonant::with_medial(BasicConsonant::A, MedialDiacritic::H), Vowel::simple(BasicVowel::I), None),
        Syllable::new(Consonant::with_medial(BasicConsonant::N, MedialDiacritic::Yw), Vowel::with_virama(BasicVowel::E, Virama::Ht), None),
        Syllable::new(Consonant::simple(BasicConsonant::A), Vowel::with_virama(BasicVowel::Au, Virama::P), None),
    ];
    for s in cases {
        let m = s.to_mlcts();
        let tokens = tokenize(&m);
        assert_eq!(tokens.len(), 1, "{}", m);
        assert_eq!(tokens[0].start, 0);
        assert_eq!(tokens[0].len, m.len());
        match tokens[0].kind {
            TokenKind::Syllable(back) => assert_eq!(back.to_mlcts(), m),
            _ => panic!("not a syllable: {}", m),
        }
    }
}

#[test]
fn tokens_are_non_empty_and_on_char_boundaries() {
    let input = "ká mya\u{1000}n";
    for t in tokenize(input) {
        assert!(t.len > 0);
        assert!(input.is_char_boundary(t.start));
    }
}

//! The phoneme model: the letters, marks and clusters a Burmese syllable is
//! made of, their MLCTS spellings, and the algebra of medial clusters.
use vstd::prelude::*;
use vstd::string::StringExecFns;

verus! {

/// An MLCTS consonant letter. Several Myanmar letters share one variant
/// (for instance both ဋ and တ are `T`).
#[derive(Debug, Clone, Copy, PartialEq, Eq, Structural)]
pub enum BasicConsonant {
    /// က
    K,
    /// ခ
    Hk,
    /// ဂ
    G,
    /// ဃ
    Gh,
    /// င
    Ng,
    /// စ
    C,
    /// ဆ
    Hc,
    /// ဇ
    J,
    /// ဈ
    Jh,
    /// ည or ဉ
    Ny,
    /// ဋ or တ
    T,
    /// ဌ or ထ
    Ht,
    /// ဍ or ဒ
    D,
    /// ဎ or ဓ
    Dh,
    /// ဏ or န
    N,
    /// ပ
    P,
    /// ဖ
    Hp,
    /// ဗ
    B,
    /// ဘ
    Bh,
    /// မ
    M,
    /// ယ
    Y,
    /// ရ
    R,
    /// လ or ဠ
    L,
    /// ဝ
    W,
    /// သ
    S,
    /// ဟ
    H,
    /// အ
    A,
}

/// The character given to `BasicConsonant::from_my_alphabet` is no Myanmar
/// consonant letter.
#[derive(Debug, Clone, Copy, PartialEq, Eq, Structural)]
pub struct NotAConsonant;

impl BasicConsonant {
    /// The MLCTS spelling of the letter.
    pub open spec fn spec_mlcts(self) -> Seq<char> {
        match self {
            BasicConsonant::K => seq!['k'],
            BasicConsonant::Hk => seq!['h', 'k'],
            BasicConsonant::G => seq!['g'],
            BasicConsonant::Gh => seq!['g', 'h'],
            BasicConsonant::Ng => seq!['n', 'g'],
            BasicConsonant::C => seq!['c'],
            BasicConsonant::Hc => seq!['h', 'c'],
            BasicConsonant::J => seq!['j'],
            BasicConsonant::Jh => seq!['j', 'h'],
            BasicConsonant::Ny => seq!['n', 'y'],
            BasicConsonant::T => seq!['t'],
            BasicConsonant::Ht => seq!['h', 't'],
            BasicConsonant::D => seq!['d'],
            BasicConsonant::Dh => seq!['d', 'h'],
            BasicConsonant::N => seq!['n'],
            BasicConsonant::P => seq!['p'],
            BasicConsonant::Hp => seq!['h', 'p'],
            BasicConsonant::B => seq!['b'],
            BasicConsonant::Bh => seq!['b', 'h'],
            BasicConsonant::M => seq!['m'],
            BasicConsonant::Y => seq!['y'],
            BasicConsonant::R => seq!['r'],
            BasicConsonant::L => seq!['l'],
            BasicConsonant::W => seq!['w'],
            BasicConsonant::S => seq!['s'],
            BasicConsonant::H => seq!['h'],
            BasicConsonant::A => seq!['a'],
        }
    }

    /// The consonant that a Myanmar letter stands for, if it is one of the
    /// 33 consonant letters.
    pub open spec fn spec_from_myanmar(c: char) -> Option<BasicConsonant> {
        if c == 'က' { Some(BasicConsonant::K) }
        else if c == 'ခ' { Some(BasicConsonant::Hk) }
        else if c == 'ဂ' { Some(BasicConsonant::G) }
        else if c == 'ဃ' { Some(BasicConsonant::Gh) }
        else if c == 'င' { Some(BasicConsonant::Ng) }
        else if c == 'စ' { Some(BasicConsonant::C) }
        else if c == 'ဆ' { Some(BasicConsonant::Hc) }
        else if c == 'ဇ' { Some(BasicConsonant::J) }
        else if c == 'ဈ' { Some(BasicConsonant::Jh) }
        else if c == 'ဉ' || c == 'ည' { Some(BasicConsonant::Ny) }
        else if c == 'ဋ' || c == 'တ' { Some(BasicConsonant::T) }
        else if c == 'ဌ' || c == 'ထ' { Some(BasicConsonant::Ht) }
        else if c == 'ဍ' || c == 'ဒ' { Some(BasicConsonant::D) }
        else if c == 'ဎ' || c == 'ဓ' { Some(BasicConsonant::Dh) }
        else if c == 'ဏ' || c == 'န' { Some(BasicConsonant::N) }
        else if c == 'ပ' { Some(BasicConsonant::P) }
        else if c == 'ဖ' { Some(BasicConsonant::Hp) }
        else if c == 'ဗ' { Some(BasicConsonant::B) }
        else if c == 'ဘ' { Some(BasicConsonant::Bh) }
        else if c == 'မ' { Some(BasicConsonant::M) }
        else if c == 'ယ' { Some(BasicConsonant::Y) }
        else if c == 'ရ' { Some(BasicConsonant::R) }
        else if c == 'လ' || c == 'ဠ' { Some(BasicConsonant::L) }
        else if c == 'ဝ' { Some(BasicConsonant::W) }
        else if c == 'သ' { Some(BasicConsonant::S) }
        else if c == 'ဟ' { Some(BasicConsonant::H) }
        else if c == 'အ' { Some(BasicConsonant::A) }
        else { None }
    }

    /// Converts the letter into its MLCTS spelling.
    pub fn to_mlcts(&self) -> (r: &'static str)
        ensures
            r@ == self.spec_mlcts(),
    {
        match self {
            BasicConsonant::K => { proof { reveal_strlit("k"); } "k" },
            BasicConsonant::Hk => { proof { reveal_strlit("hk"); } "hk" },
            BasicConsonant::G => { proof { reveal_strlit("g"); } "g" },
            BasicConsonant::Gh => { proof { reveal_strlit("gh"); } "gh" },
            BasicConsonant::Ng => { proof { reveal_strlit("ng"); } "ng" },
            BasicConsonant::C => { proof { reveal_strlit("c"); } "c" },
            BasicConsonant::Hc => { proof { reveal_strlit("hc"); } "hc" },
            BasicConsonant::J => { proof { reveal_strlit("j"); } "j" },
            BasicConsonant::Jh => { proof { reveal_strlit("jh"); } "jh" },
            BasicConsonant::Ny => { proof { reveal_strlit("ny"); } "ny" },
            BasicConsonant::T => { proof { reveal_strlit("t"); } "t" },
            BasicConsonant::Ht => { proof { reveal_strlit("ht"); } "ht" },
            BasicConsonant::D => { proof { reveal_strlit("d"); } "d" },
            BasicConsonant::Dh => { proof { reveal_strlit("dh"); } "dh" },
            BasicConsonant::N => { proof { reveal_strlit("n"); } "n" },
            BasicConsonant::P => { proof { reveal_strlit("p"); } "p" },
            BasicConsonant::Hp => { proof { reveal_strlit("hp"); } "hp" },
            BasicConsonant::B => { proof { reveal_strlit("b"); } "b" },
            BasicConsonant::Bh => { proof { reveal_strlit("bh"); } "bh" },
            BasicConsonant::M => { proof { reveal_strlit("m"); } "m" },
            BasicConsonant::Y => { proof { reveal_strlit("y"); } "y" },
            BasicConsonant::R => { proof { reveal_strlit("r"); } "r" },
            BasicConsonant::L => { proof { reveal_strlit("l"); } "l" },
            BasicConsonant::W => { proof { reveal_strlit("w"); } "w" },
            BasicConsonant::S => { proof { reveal_strlit("s"); } "s" },
            BasicConsonant::H => { proof { reveal_strlit("h"); } "h" },
            BasicConsonant::A => { proof { reveal_strlit("a"); } "a" },
        }
    }

    /// Reads a Myanmar consonant letter. Each of the 33 consonant letters
    /// gives its variant; any other character gives `NotAConsonant`.
    pub fn from_my_alphabet(c: char) -> (r: Result<BasicConsonant, NotAConsonant>)
        ensures
            match Self::spec_from_myanmar(c) {
                Some(b) => r == Ok::<BasicConsonant, NotAConsonant>(b),
                None => r is Err,
            },
    {
        match c {
            'က' => Ok(BasicConsonant::K),
            'ခ' => Ok(BasicConsonant::Hk),
            'ဂ' => Ok(BasicConsonant::G),
            'ဃ' => Ok(BasicConsonant::Gh),
            'င' => Ok(BasicConsonant::Ng),
            'စ' => Ok(BasicConsonant::C),
            'ဆ' => Ok(BasicConsonant::Hc),
            'ဇ' => Ok(BasicConsonant::J),
            'ဈ' => Ok(BasicConsonant::Jh),
            'ဉ' => Ok(BasicConsonant::Ny),
            'ည' => Ok(BasicConsonant::Ny),
            'ဋ' => Ok(BasicConsonant::T),
            'ဌ' => Ok(BasicConsonant::Ht),
            'ဍ' => Ok(BasicConsonant::D),
            'ဎ' => Ok(BasicConsonant::Dh),
            'ဏ' => Ok(BasicConsonant::N),
            'တ' => Ok(BasicConsonant::T),
            'ထ' => Ok(BasicConsonant::Ht),
            'ဒ' => Ok(BasicConsonant::D),
            'ဓ' => Ok(BasicConsonant::Dh),
            'န' => Ok(BasicConsonant::N),
            'ပ' => Ok(BasicConsonant::P),
            'ဖ' => Ok(BasicConsonant::Hp),
            'ဗ' => Ok(BasicConsonant::B),
            'ဘ' => Ok(BasicConsonant::Bh),
            'မ' => Ok(BasicConsonant::M),
            'ယ' => Ok(BasicConsonant::Y),
            'ရ' => Ok(BasicConsonant::R),
            'လ' => Ok(BasicConsonant::L),
            'ဝ' => Ok(BasicConsonant::W),
            'သ' => Ok(BasicConsonant::S),
            'ဟ' => Ok(BasicConsonant::H),
            'ဠ' => Ok(BasicConsonant::L),
            'အ' => Ok(BasicConsonant::A),
            _ => Err(NotAConsonant),
        }
    }
}

/// A medial cluster: one of the four medial marks, or one of the seven
/// legal compositions of them.
#[derive(Debug, Clone, Copy, PartialEq, Eq, Structural)]
pub enum MedialDiacritic {
    /// ျ
    Y,
    /// ြ
    R,
    /// ွ
    W,
    /// ှ
    H,
    /// ျွ
    Yw,
    /// ြွ
    Rw,
    /// ျှ
    Hy,
    /// ြှ
    Hr,
    /// ွှ
    Hw,
    /// ျွှ
    Hyw,
    /// ြွှ
    Hrw,
}

/// The two medials given to `MedialDiacritic::combine` do not compose.
#[derive(Debug, Clone, Copy, PartialEq, Eq, Structural)]
pub struct IllegalMedialCombination;

impl MedialDiacritic {
    /// The composition of two medials, where it is defined.
    pub open spec fn spec_combine(self, b: MedialDiacritic) -> Option<MedialDiacritic> {
        match (self, b) {
            (MedialDiacritic::H, MedialDiacritic::Y) => Some(MedialDiacritic::Hy),
            (MedialDiacritic::H, MedialDiacritic::R) => Some(MedialDiacritic::Hr),
            (MedialDiacritic::H, MedialDiacritic::W) => Some(MedialDiacritic::Hw),
            (MedialDiacritic::Y, MedialDiacritic::W) => Some(MedialDiacritic::Yw),
            (MedialDiacritic::R, MedialDiacritic::W) => Some(MedialDiacritic::Rw),
            (MedialDiacritic::Hy, MedialDiacritic::W) => Some(MedialDiacritic::Hyw),
            (MedialDiacritic::Hr, MedialDiacritic::W) => Some(MedialDiacritic::Hrw),
            _ => None,
        }
    }

    /// The composition of two optional medials, an absent one being the
    /// identity.
    pub open spec fn spec_combine_options(
        first: Option<MedialDiacritic>,
        second: Option<MedialDiacritic>,
    ) -> Option<Option<MedialDiacritic>> {
        match (first, second) {
            (Some(a), Some(b)) => match a.spec_combine(b) {
                Some(m) => Some(Some(m)),
                None => None,
            },
            (Some(a), None) => Some(Some(a)),
            (None, Some(b)) => Some(Some(b)),
            (None, None) => Some(None),
        }
    }

    /// Whether the cluster holds the medial ှ, which MLCTS writes as an `h`
    /// before the consonant.
    pub open spec fn spec_has_h(self) -> bool {
        match self {
            MedialDiacritic::H | MedialDiacritic::Hy | MedialDiacritic::Hr | MedialDiacritic::Hw
            | MedialDiacritic::Hyw | MedialDiacritic::Hrw => true,
            _ => false,
        }
    }

    /// The letters MLCTS writes after the consonant for this cluster.
    pub open spec fn spec_suffix(self) -> Seq<char> {
        match self {
            MedialDiacritic::Y | MedialDiacritic::Hy => seq!['y'],
            MedialDiacritic::R | MedialDiacritic::Hr => seq!['r'],
            MedialDiacritic::W | MedialDiacritic::Hw => seq!['w'],
            MedialDiacritic::Yw | MedialDiacritic::Hyw => seq!['y', 'w'],
            MedialDiacritic::Rw | MedialDiacritic::Hrw => seq!['r', 'w'],
            MedialDiacritic::H => seq![],
        }
    }

    /// Combines two medials. Exactly these pairs compose: H with Y, R or W,
    /// Y with W, R with W, Hy with W and Hr with W; every other pair is an
    /// `IllegalMedialCombination`.
    pub fn combine(self, b: Self) -> (r: Result<Self, IllegalMedialCombination>)
        ensures
            match self.spec_combine(b) {
                Some(m) => r == Ok::<Self, IllegalMedialCombination>(m),
                None => r is Err,
            },
    {
        match (self, b) {
            (Self::H, Self::Y) => Ok(Self::Hy),
            (Self::H, Self::R) => Ok(Self::Hr),
            (Self::H, Self::W) => Ok(Self::Hw),
            (Self::Y, Self::W) => Ok(Self::Yw),
            (Self::R, Self::W) => Ok(Self::Rw),
            (Self::Hy, Self::W) => Ok(Self::Hyw),
            (Self::Hr, Self::W) => Ok(Self::Hrw),
            _ => Err(IllegalMedialCombination),
        }
    }

    /// Combines two optional medials: an absent one leaves the other as it
    /// is, and two present ones combine as `combine` does.
    pub fn combine_medial_diacritics(
        first: Option<Self>,
        second: Option<Self>,
    ) -> (r: Result<Option<Self>, IllegalMedialCombination>)
        ensures
            match Self::spec_combine_options(first, second) {
                Some(m) => r == Ok::<Option<Self>, IllegalMedialCombination>(m),
                None => r is Err,
            },
    {
        match (first, second) {
            (Some(a), Some(b)) => match a.combine(b) {
                Ok(m) => Ok(Some(m)),
                Err(e) => Err(e),
            },
            (Some(a), None) => Ok(Some(a)),
            (None, Some(b)) => Ok(Some(b)),
            (None, None) => Ok(None),
        }
    }
}

/// Two medials combine exactly when they form one of the seven listed
/// pairs.
pub proof fn lemma_combine_defined_pairs(a: MedialDiacritic, b: MedialDiacritic)
    ensures
        a.spec_combine(b) is Some <==> {
            ||| (a == MedialDiacritic::H && b == MedialDiacritic::Y)
            ||| (a == MedialDiacritic::H && b == MedialDiacritic::R)
            ||| (a == MedialDiacritic::H && b == MedialDiacritic::W)
            ||| (a == MedialDiacritic::Y && b == MedialDiacritic::W)
            ||| (a == MedialDiacritic::R && b == MedialDiacritic::W)
            ||| (a == MedialDiacritic::Hy && b == MedialDiacritic::W)
            ||| (a == MedialDiacritic::Hr && b == MedialDiacritic::W)
        },
{
}

/// The onset of a syllable: a consonant letter with an optional medial
/// cluster.
#[derive(Debug, Clone, Copy, PartialEq, Eq, Structural)]
pub struct Consonant {
    /// The consonant letter.
    pub basic: BasicConsonant,
    /// The optional medial cluster.
    pub medial: Option<MedialDiacritic>,
}

impl Consonant {
    /// The MLCTS spelling: the `h` of a cluster with ှ comes before the
    /// letter, the other medial letters after it.
    pub open spec fn spec_mlcts(self) -> Seq<char> {
        match self.medial {
            None => self.basic.spec_mlcts(),
            Some(m) => (if m.spec_has_h() { seq!['h'] } else { seq![] }) + self.basic.spec_mlcts()
                + m.spec_suffix(),
        }
    }

    /// A consonant with the given letter and medial cluster.
    pub fn new(basic: BasicConsonant, medial: Option<MedialDiacritic>) -> (r: Self)
        ensures
            r.basic == basic,
            r.medial == medial,
    {
        Consonant { basic, medial }
    }

    /// A consonant with no medial cluster.
    pub fn simple(basic: BasicConsonant) -> (r: Self)
        ensures
            r.basic == basic,
            r.medial is None,
    {
        Self::new(basic, None)
    }

    /// A consonant with the given medial cluster.
    pub fn with_medial(basic: BasicConsonant, medial: MedialDiacritic) -> (r: Self)
        ensures
            r.basic == basic,
            r.medial == Some(medial),
    {
        Self::new(basic, Some(medial))
    }

    /// Converts the consonant into MLCTS, for instance `M` with `Hyw` into
    /// `hmyw`.
    pub fn to_mlcts(&self) -> (r: String)
        ensures
            r@ == self.spec_mlcts(),
    {
        let basic = self.basic.to_mlcts();
        match self.medial {
            None => String::from_str(basic),
            Some(m) => {
                let mut r = if m.has_h() {
                    proof { reveal_strlit("h"); }
                    String::from_str("h")
                } else {
                    proof { reveal_strlit(""); }
                    String::from_str("")
                };
                r.append(basic);
                r.append(m.suffix());
                r
            },
        }
    }
}

impl MedialDiacritic {
    fn has_h(&self) -> (r: bool)
        ensures
            r == self.spec_has_h(),
    {
        match self {
            Self::H | Self::Hy | Self::Hr | Self::Hw | Self::Hyw | Self::Hrw => true,
            _ => false,
        }
    }

    fn suffix(&self) -> (r: &'static str)
        ensures
            r@ == self.spec_suffix(),
    {
        match self {
            Self::Y | Self::Hy => { proof { reveal_strlit("y"); } "y" },
            Self::R | Self::Hr => { proof { reveal_strlit("r"); } "r" },
            Self::W | Self::Hw => { proof { reveal_strlit("w"); } "w" },
            Self::Yw | Self::Hyw => { proof { reveal_strlit("yw"); } "yw" },
            Self::Rw | Self::Hrw => { proof { reveal_strlit("rw"); } "rw" },
            Self::H => { proof { reveal_strlit(""); } "" },
        }
    }
}

/// A tone mark.
#[derive(Debug, Clone, Copy, PartialEq, Eq, Structural)]
pub enum Tone {
    /// The visarga း, MLCTS `:`.
    High,
    /// The dot below ့, MLCTS `.`.
    Creaky,
}

impl Tone {
    /// The MLCTS mark of the tone.
    pub open spec fn spec_mlcts(self) -> Seq<char> {
        match self {
            Tone::High => seq![':'],
            Tone::Creaky => seq!['.'],
        }
    }

    /// Converts the tone into its MLCTS mark.
    pub fn to_mlcts(&self) -> (r: &'static str)
        ensures
            r@ == self.spec_mlcts(),
    {
        match self {
            Tone::High => { proof { reveal_strlit(":"); } ":" },
            Tone::Creaky => { proof { reveal_strlit("."); } "." },
        }
    }
}

/// A syllable-final consonant, written with the asat ် (or as the top of a
/// stacked cluster).
#[derive(Debug, Clone, Copy, PartialEq, Eq, Structural)]
pub enum Virama {
    /// က်
    K,
    /// ဂ်
    G,
    /// င်
    Ng,
    /// စ်
    C,
    /// ဇ်
    J,
    /// ည် or ဉ်
    Ny,
    /// ဋ် or တ်
    T,
    /// ထ်
    Ht,
    /// ဒ်
    D,
    /// ဏ် or န်
    N,
    /// ပ်
    P,
    /// ဗ်
    B,
    /// မ်
    M,
    /// သ်
    S,
    /// လ်
    L,
}

impl Virama {
    /// The consonant that the final stands for as an onset.
    pub open spec fn spec_basic_consonant(self) -> BasicConsonant {
        match self {
            Virama::K => BasicConsonant::K,
            Virama::G => BasicConsonant::G,
            Virama::Ng => BasicConsonant::Ng,
            Virama::C => BasicConsonant::C,
            Virama::J => BasicConsonant::J,
            Virama::Ny => BasicConsonant::Ny,
            Virama::T => BasicConsonant::T,
            Virama::Ht => BasicConsonant::Ht,
            Virama::D => BasicConsonant::D,
            Virama::N => BasicConsonant::N,
            Virama::P => BasicConsonant::P,
            Virama::B => BasicConsonant::B,
            Virama::M => BasicConsonant::M,
            Virama::S => BasicConsonant::S,
            Virama::L => BasicConsonant::L,
        }
    }

    /// The MLCTS spelling of the final: that of its onset consonant.
    pub open spec fn spec_mlcts(self) -> Seq<char> {
        self.spec_basic_consonant().spec_mlcts()
    }

    /// Whether the final is one of the stops K, C, T and P, which carry no
    /// tone mark.
    pub open spec fn spec_is_stop(self) -> bool {
        self == Virama::K || self == Virama::C || self == Virama::T || self == Virama::P
    }

    /// Converts the final into MLCTS.
    pub fn to_mlcts(&self) -> (r: &'static str)
        ensures
            r@ == self.spec_mlcts(),
    {
        self.to_basic_consonant().to_mlcts()
    }

    /// The consonant that the final stands for as an onset.
    pub fn to_basic_consonant(&self) -> (r: BasicConsonant)
        ensures
            r == self.spec_basic_consonant(),
    {
        match self {
            Virama::K => BasicConsonant::K,
            Virama::G => BasicConsonant::G,
            Virama::Ng => BasicConsonant::Ng,
            Virama::C => BasicConsonant::C,
            Virama::J => BasicConsonant::J,
            Virama::Ny => BasicConsonant::Ny,
            Virama::T => BasicConsonant::T,
            Virama::Ht => BasicConsonant::Ht,
            Virama::D => BasicConsonant::D,
            Virama::N => BasicConsonant::N,
            Virama::P => BasicConsonant::P,
            Virama::B => BasicConsonant::B,
            Virama::M => BasicConsonant::M,
            Virama::S => BasicConsonant::S,
            Virama::L => BasicConsonant::L,
        }
    }
}

impl From<Virama> for BasicConsonant {
    fn from(v: Virama) -> (r: BasicConsonant)
        ensures
            r == v.spec_basic_consonant(),
    {
        v.to_basic_consonant()
    }
}

impl vstd::std_specs::convert::FromSpecImpl<Virama> for BasicConsonant {
    open spec fn obeys_from_spec() -> bool {
        true
    }

    open spec fn from_spec(v: Virama) -> BasicConsonant {
        v.spec_basic_consonant()
    }
}

/// A vowel quality; vowels that differ in tone only share one variant.
#[derive(Debug, Clone, Copy, PartialEq, Eq, Structural)]
pub enum BasicVowel {
    /// အ, အာ, အား
    A,
    /// အိ, အီ, အီး
    I,
    /// အု, အူ, အူး
    U,
    /// အေ, အေ့, အေး
    E,
    /// အဲ့, အယ်, အဲ
    Ai,
    /// အော့, အော်, အော
    Au,
    /// အို, အို့, အိုး
    Ui,
}

impl BasicVowel {
    /// The MLCTS spelling of the vowel.
    pub open spec fn spec_mlcts(self) -> Seq<char> {
        match self {
            BasicVowel::A => seq!['a'],
            BasicVowel::I => seq!['i'],
            BasicVowel::U => seq!['u'],
            BasicVowel::E => seq!['e'],
            BasicVowel::Ai => seq!['a', 'i'],
            BasicVowel::Au => seq!['a', 'u'],
            BasicVowel::Ui => seq!['u', 'i'],
        }
    }

    /// Converts the vowel into MLCTS.
    pub fn to_mlcts(&self) -> (r: &'static str)
        ensures
            r@ == self.spec_mlcts(),
    {
        match self {
            BasicVowel::A => { proof { reveal_strlit("a"); } "a" },
            BasicVowel::I => { proof { reveal_strlit("i"); } "i" },
            BasicVowel::U => { proof { reveal_strlit("u"); } "u" },
            BasicVowel::E => { proof { reveal_strlit("e"); } "e" },
            BasicVowel::Ai => { proof { reveal_strlit("ai"); } "ai" },
            BasicVowel::Au => { proof { reveal_strlit("au"); } "au" },
            BasicVowel::Ui => { proof { reveal_strlit("ui"); } "ui" },
        }
    }
}

/// The rhyme of a syllable: a vowel, an optional final and an optional tone.
#[derive(Debug, Clone, Copy, PartialEq, Eq, Structural)]
pub struct Vowel {
    /// The vowel quality.
    pub basic: BasicVowel,
    /// The optional final consonant.
    pub virama: Option<Virama>,
    /// The optional tone mark.
    pub tone: Option<Tone>,
}

impl Vowel {
    /// A rhyme is well formed when a stop final (K, C, T, P) carries no tone.
    pub open spec fn wf(self) -> bool {
        match self.virama {
            Some(v) => v.spec_is_stop() ==> self.tone is None,
            None => true,
        }
    }

    /// The MLCTS spelling: vowel, then final, then tone mark.
    pub open spec fn spec_mlcts(self) -> Seq<char> {
        self.basic.spec_mlcts() + match self.virama {
            Some(v) => v.spec_mlcts(),
            None => seq![],
        } + match self.tone {
            Some(t) => t.spec_mlcts(),
            None => seq![],
        }
    }

    /// A rhyme of the given parts.
    pub fn new(basic: BasicVowel, virama: Option<Virama>, tone: Option<Tone>) -> (r: Self)
        requires
            (Vowel { basic, virama, tone }).wf(),
        ensures
            r == (Vowel { basic, virama, tone }),
    {
        Vowel { basic, virama, tone }
    }

    /// A bare vowel, with no final and no tone.
    pub fn simple(basic: BasicVowel) -> (r: Self)
        ensures
            r == (Vowel { basic, virama: None, tone: None }),
            r.wf(),
    {
        Self::new(basic, None, None)
    }

    /// A vowel with an optional tone and no final.
    pub fn with_tone(basic: BasicVowel, tone: Option<Tone>) -> (r: Self)
        ensures
            r == (Vowel { basic, virama: None, tone }),
            r.wf(),
    {
        Self::new(basic, None, tone)
    }

    /// A vowel with a final and no tone.
    pub fn with_virama(basic: BasicVowel, virama: Virama) -> (r: Self)
        ensures
            r == (Vowel { basic, virama: Some(virama), tone: None }),
            r.wf(),
    {
        Self::new(basic, Some(virama), None)
    }

    /// Converts the rhyme into MLCTS, for instance `A` with final `N` and
    /// high tone into `an:`.
    pub fn to_mlcts(&self) -> (r: String)
        ensures
            r@ == self.spec_mlcts(),
    {
        let mut r = String::from_str(self.basic.to_mlcts());
        match self.virama {
            Some(v) => r.append(v.to_mlcts()),
            None => {},
        }
        match self.tone {
            Some(t) => r.append(t.to_mlcts()),
            None => {},
        }
        proof {
            assert(r@ =~= self.spec_mlcts());
        }
        r
    }
}

/// A syllable that carries no stacked syllable below it.
#[derive(Debug, Clone, Copy, PartialEq, Eq, Structural)]
pub struct BaseSyllable {
    /// The onset.
    pub consonant: Consonant,
    /// The rhyme.
    pub vowel: Vowel,
}

/// A syllable: an onset, a rhyme and, where the final is the top of a
/// stacked cluster, the syllable written below it.
#[derive(Debug, Clone, Copy, PartialEq, Eq, Structural)]
pub struct Syllable {
    /// The onset.
    pub consonant: Consonant,
    /// The rhyme.
    pub vowel: Vowel,
    /// The syllable stacked below the final; present only with a final.
    pub bottom_syllable: Option<BaseSyllable>,
}

impl BaseSyllable {
    /// The MLCTS spelling: onset, then rhyme.
    pub open spec fn spec_mlcts(self) -> Seq<char> {
        self.consonant.spec_mlcts() + self.vowel.spec_mlcts()
    }

    /// Converts the syllable into MLCTS.
    pub fn to_mlcts(&self) -> (r: String)
        ensures
            r@ == self.spec_mlcts(),
    {
        let mut r = self.consonant.to_mlcts();
        let v = self.vowel.to_mlcts();
        r.append(v.as_str());
        r
    }
}

impl Syllable {
    /// A syllable is well formed when its rhymes are, and a stacked syllable
    /// stands only below a final.
    pub open spec fn wf(self) -> bool {
        &&& self.vowel.wf()
        &&& match self.bottom_syllable {
            Some(b) => self.vowel.virama is Some && b.vowel.wf(),
            None => true,
        }
    }

    /// The MLCTS spelling: onset, rhyme, then the spelling of the stacked
    /// syllable, with no separator.
    pub open spec fn spec_mlcts(self) -> Seq<char> {
        self.consonant.spec_mlcts() + self.vowel.spec_mlcts() + match self.bottom_syllable {
            Some(b) => b.spec_mlcts(),
            None => seq![],
        }
    }

    /// A syllable of the given parts.
    pub fn new(consonant: Consonant, vowel: Vowel, bottom_syllable: Option<BaseSyllable>) -> (r:
        Self)
        requires
            (Syllable { consonant, vowel, bottom_syllable }).wf(),
        ensures
            r == (Syllable { consonant, vowel, bottom_syllable }),
    {
        Syllable { consonant, vowel, bottom_syllable }
    }

    /// A syllable of the vowel alone, written on the carrier အ (consonant `A`).
    pub fn simple(vowel: Vowel) -> (r: Self)
        requires
            vowel.wf(),
        ensures
            r == (Syllable {
                consonant: Consonant { basic: BasicConsonant::A, medial: None },
                vowel,
                bottom_syllable: None,
            }),
    {
        Self::new(Consonant::simple(BasicConsonant::A), vowel, None)
    }

    /// The same as `simple`: a syllable of the vowel alone on the carrier အ.
    pub fn with_vowel(vowel: Vowel) -> (r: Self)
        requires
            vowel.wf(),
        ensures
            r == (Syllable {
                consonant: Consonant { basic: BasicConsonant::A, medial: None },
                vowel,
                bottom_syllable: None,
            }),
    {
        Self::simple(vowel)
    }

    /// Converts the syllable into MLCTS.
    pub fn to_mlcts(&self) -> (r: String)
        ensures
            r@ == self.spec_mlcts(),
    {
        let mut r = self.consonant.to_mlcts();
        let v = self.vowel.to_mlcts();
        r.append(v.as_str());
        match self.bottom_syllable {
            Some(b) => {
                let t = b.to_mlcts();
                r.append(t.as_str());
            },
            None => {},
        }
        proof {
            assert(r@ =~= self.spec_mlcts());
        }
        r
    }
}

impl From<BaseSyllable> for Syllable {
    fn from(b: BaseSyllable) -> (r: Syllable)
        ensures
            r == (Syllable { consonant: b.consonant, vowel: b.vowel, bottom_syllable: None }),
    {
        Syllable { consonant: b.consonant, vowel: b.vowel, bottom_syllable: None }
    }
}

impl vstd::std_specs::convert::FromSpecImpl<BaseSyllable> for Syllable {
    open spec fn obeys_from_spec() -> bool {
        true
    }

    open spec fn from_spec(b: BaseSyllable) -> Syllable {
        Syllable { consonant: b.consonant, vowel: b.vowel, bottom_syllable: None }
    }
}

impl From<Syllable> for BaseSyllable {
    fn from(s: Syllable) -> (r: BaseSyllable)
        ensures
            r == (BaseSyllable { consonant: s.consonant, vowel: s.vowel }),
    {
        BaseSyllable { consonant: s.consonant, vowel: s.vowel }
    }
}

impl vstd::std_specs::convert::FromSpecImpl<Syllable> for BaseSyllable {
    open spec fn obeys_from_spec() -> bool {
        true
    }

    open spec fn from_spec(s: Syllable) -> BaseSyllable {
        BaseSyllable { consonant: s.consonant, vowel: s.vowel }
    }
}

} // verus!

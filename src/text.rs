//! Text helpers shared by the parsers: the characters of a string, and the
//! UTF-8 byte length of a run of characters.
use vstd::prelude::*;
use vstd::string::StringSliceAdditionalSpecFns;
use vstd::utf8::{
    encode_scalar, encode_utf8, encode_utf8_first_scalar, encode_utf8_valid_utf8, is_char_boundary,
    pop_first_scalar,
};

verus! {

/// The character at `i`, if `cs` reaches that far.
pub open spec fn at(cs: Seq<char>, i: int) -> Option<char> {
    if 0 <= i < cs.len() {
        Some(cs[i])
    } else {
        None
    }
}

/// The number of bytes that UTF-8 takes for the characters `cs`.
pub open spec fn utf8_len(cs: Seq<char>) -> nat {
    encode_utf8(cs).len()
}

/// UTF-8 encodes a concatenation piece by piece.
pub proof fn lemma_encode_concat(a: Seq<char>, b: Seq<char>)
    ensures
        encode_utf8(a + b) == encode_utf8(a) + encode_utf8(b),
    decreases a.len(),
{
    if a.len() == 0 {
        assert(a + b =~= b);
        assert(encode_utf8(a) =~= Seq::<u8>::empty());
        assert(encode_utf8(a) + encode_utf8(b) =~= encode_utf8(b));
    } else {
        assert((a + b).drop_first() =~= a.drop_first() + b);
        lemma_encode_concat(a.drop_first(), b);
        assert(encode_utf8(a + b) =~= encode_utf8(a) + encode_utf8(b));
    }
}

/// The characters of `s`, in order.
pub fn chars_of(s: &str) -> (r: Vec<char>)
    ensures
        r@ == s@,
{
    let mut out: Vec<char> = Vec::new();
    for c in it: s.chars()
        invariant
            out@ == it.seq().take(it.index() as int),
    {
        out.push(c);
    }
    proof {
        broadcast use vstd::string::axiom_spec_iter;
    }
    assert(out@ =~= s@);
    out
}

/// The number of bytes that UTF-8 takes for `c`.
pub fn char_width(c: char) -> (r: usize)
    ensures
        r == encode_scalar(c as u32).len(),
        r == utf8_len(seq![c]),
        1 <= r <= 4,
{
    let v = c as u32;
    proof {
        broadcast use vstd::utf8::char_is_scalar;
        assert(seq![c].drop_first() =~= Seq::<char>::empty());
        assert(encode_utf8(seq![c]) =~= encode_scalar(c as u32) + encode_utf8(Seq::<char>::empty()));
    }
    if v <= 0x7F {
        1
    } else if v <= 0x7FF {
        2
    } else if v <= 0xFFFF {
        3
    } else {
        4
    }
}

/// The number of bytes that UTF-8 takes for `cs[from..to]`.
pub fn utf8_width(cs: &Vec<char>, from: usize, to: usize) -> (r: usize)
    requires
        from <= to <= cs@.len(),
        utf8_len(cs@) <= usize::MAX,
    ensures
        r == utf8_len(cs@.subrange(from as int, to as int)),
{
    proof {
        lemma_encode_concat(cs@.subrange(0, from as int), cs@.subrange(from as int, cs@.len() as int));
        lemma_encode_concat(cs@.subrange(from as int, to as int), cs@.subrange(to as int, cs@.len() as int));
        assert(cs@.subrange(0, from as int) + cs@.subrange(from as int, cs@.len() as int) =~= cs@);
        assert(cs@.subrange(from as int, to as int) + cs@.subrange(to as int, cs@.len() as int) =~= cs@.subrange(from as int, cs@.len() as int));
    }
    let mut n: usize = 0;
    let mut j: usize = from;
    while j < to
        invariant
            from <= j <= to <= cs@.len(),
            utf8_len(cs@) <= usize::MAX,
            utf8_len(cs@.subrange(from as int, to as int)) <= usize::MAX,
            n == utf8_len(cs@.subrange(from as int, j as int)),
        decreases to - j,
    {
        let w = char_width(cs[j]);
        proof {
            lemma_encode_concat(cs@.subrange(from as int, j as int), seq![cs@[j as int]]);
            assert(cs@.subrange(from as int, j as int) + seq![cs@[j as int]] =~= cs@.subrange(from as int, j + 1));
            lemma_encode_concat(cs@.subrange(from as int, j + 1), cs@.subrange(j + 1, to as int));
            assert(cs@.subrange(from as int, j + 1) + cs@.subrange(j + 1, to as int) =~= cs@.subrange(from as int, to as int));
        }
        n = n + w;
        j = j + 1;
    }
    n
}

/// The byte length of `s` is the UTF-8 length of its characters, and fits
/// in a `usize`.
pub fn str_byte_len(s: &str) -> (r: usize)
    ensures
        r == utf8_len(s@),
        r == s.spec_bytes().len(),
{
    let b = s.as_bytes();
    b.len()
}

/// The character `d` places after `i`, if the text reaches that far.
pub fn peek(cs: &Vec<char>, i: usize, d: usize) -> (r: Option<char>)
    requires
        i <= cs@.len(),
    ensures
        r == at(cs@.skip(i as int), d as int),
{
    if d < cs.len() - i {
        Some(cs[i + d])
    } else {
        None
    }
}

/// Characters that are not empty take at least one byte.
pub proof fn lemma_utf8_len_positive(cs: Seq<char>)
    ensures
        cs.len() > 0 ==> utf8_len(cs) >= 1,
{
    if cs.len() > 0 {
        assert(encode_utf8(cs) == encode_scalar(cs[0] as u32) + encode_utf8(cs.drop_first()));
    }
}

/// The byte offset of each character position is a character boundary of
/// the encoding.
pub proof fn lemma_prefix_char_boundary(cs: Seq<char>, k: int)
    requires
        0 <= k <= cs.len(),
    ensures
        is_char_boundary(encode_utf8(cs), utf8_len(cs.take(k)) as int),
    decreases k,
{
    let bytes = encode_utf8(cs);
    encode_utf8_valid_utf8(cs);
    if k == 0 {
        assert(cs.take(0) =~= Seq::<char>::empty());
        assert(encode_utf8(Seq::<char>::empty()) =~= Seq::<u8>::empty());
    } else {
        let t = cs.drop_first();
        encode_utf8_first_scalar(cs);
        assert(pop_first_scalar(bytes) =~= encode_utf8(t));
        lemma_prefix_char_boundary(t, k - 1);
        assert(cs.take(k).drop_first() =~= t.take(k - 1));
        assert(cs.take(k)[0] == cs[0]);
        lemma_encode_concat(cs.take(k), cs.skip(k));
        assert(cs.take(k) + cs.skip(k) =~= cs);
        lemma_utf8_len_positive(cs.take(k));
    }
}

} // verus!

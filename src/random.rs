//! The deterministic random source: a seeded generator together with the
//! character set that text strings are drawn from.
use vstd::prelude::*;
use rand::distributions::Alphanumeric;
use rand::rngs::StdRng;
use rand::Rng;
use rand::SeedableRng;

verus! {

#[verifier::external_type_specification]
#[verifier::external_body]
pub struct ExStdRng(rand::rngs::StdRng);

/// Whether `c` is an ASCII letter or digit.
pub open spec fn is_alphanumeric(c: char) -> bool {
    ('A' <= c && c <= 'Z') || ('a' <= c && c <= 'z') || ('0' <= c && c <= '9')
}

/// Whether every character of `s` is an ASCII letter or digit.
pub open spec fn all_alphanumeric(s: Seq<char>) -> bool {
    forall|i: int| 0 <= i < s.len() ==> #[trigger] is_alphanumeric(s[i])
}

/// Whether `n` is `a * b` for some `a` in `[alo, ahi)` and `b` in `[blo, bhi)`.
pub open spec fn is_product_in(n: int, alo: int, ahi: int, blo: int, bhi: int) -> bool {
    exists|a: int, b: int| alo <= a < ahi && blo <= b < bhi && n == #[trigger] (a * b)
}

/// The characters of the default text set: upper-case letters, digits, space,
/// two accented letters, tab, newline and a few lower-case letters.
pub open spec fn default_charset() -> Seq<char> {
    seq![
        'A', 'B', 'C', 'D', 'E', 'F', 'G', 'H', 'I', 'J', 'K', 'L', 'M', 'N', 'O', 'P', 'Q', 'R',
        'S', 'T', 'U', 'V', 'W', 'X', 'Y', 'Z', '0', '1', '2', '3', '4', '5', '6', '7', '8', '9',
        ' ', '\u{ee}', '\u{e4}', '\t', '\n', 'a', 'b', 'c', 'd', 'e', 'f', 'g', 'h',
    ]
}

/// A seeded generator and the character set of `rand_text`.
pub struct RandomSource {
    pub rng: StdRng,
    pub charset: Vec<char>,
}

impl RandomSource {
    /// Whether the character set can be drawn from.
    pub open spec fn wf(&self) -> bool {
        self.charset.len() > 0
    }

    /// A source seeded with `seed`, drawing text from the default set.
    pub fn new(seed: u64) -> (r: RandomSource)
        ensures
            r.wf(),
            r.charset@ == default_charset(),
    {
        let charset = vec![
            'A', 'B', 'C', 'D', 'E', 'F', 'G', 'H', 'I', 'J', 'K', 'L', 'M', 'N', 'O', 'P', 'Q',
            'R', 'S', 'T', 'U', 'V', 'W', 'X', 'Y', 'Z', '0', '1', '2', '3', '4', '5', '6', '7',
            '8', '9', ' ', '\u{ee}', '\u{e4}', '\t', '\n', 'a', 'b', 'c', 'd', 'e', 'f', 'g', 'h',
        ];
        assert(charset@ =~= default_charset());
        RandomSource::with_charset(seed, charset)
    }

    /// A source seeded with `seed`, drawing text from `charset`.
    pub fn with_charset(seed: u64, charset: Vec<char>) -> (r: RandomSource)
        requires
            charset.len() > 0,
        ensures
            r.wf(),
            r.charset@ == charset@,
    {
        RandomSource { rng: seeded(seed), charset }
    }
}

/// Relies on `StdRng::seed_from_u64`: a generator whose stream depends on the
/// seed alone.
#[verifier::external_body]
fn seeded(seed: u64) -> StdRng {
    StdRng::seed_from_u64(seed)
}

/// Relies on `Rng::gen_range` over `usize`: a value of `[lo, hi)` (it panics on
/// an empty range, which `requires` leaves out).
#[verifier::external_body]
pub(crate) fn below(rng: &mut StdRng, lo: usize, hi: usize) -> (r: usize)
    requires
        lo < hi,
    ensures
        lo <= r < hi,
{
    rng.gen_range(lo..hi)
}

/// Relies on `Rng::gen` for `bool`: a fair coin.
#[verifier::external_body]
pub(crate) fn coin(rng: &mut StdRng) -> bool {
    rng.gen::<bool>()
}

/// Relies on `Rng::gen` for `u8`.
#[verifier::external_body]
pub(crate) fn any_u8(rng: &mut StdRng) -> u8 {
    rng.gen::<u8>()
}

/// Relies on `Rng::gen` for `i16`.
#[verifier::external_body]
pub(crate) fn any_i16(rng: &mut StdRng) -> i16 {
    rng.gen::<i16>()
}

/// Relies on `Rng::gen` for `i32`.
#[verifier::external_body]
pub(crate) fn any_i32(rng: &mut StdRng) -> i32 {
    rng.gen::<i32>()
}

/// Relies on `Rng::gen` for `u32`.
#[verifier::external_body]
pub(crate) fn any_u32(rng: &mut StdRng) -> u32 {
    rng.gen::<u32>()
}

/// Relies on `Rng::gen` for `u64`.
#[verifier::external_body]
pub(crate) fn any_u64(rng: &mut StdRng) -> u64 {
    rng.gen::<u64>()
}

/// Relies on sampling `rand::distributions::Alphanumeric`, which picks a byte
/// of `A-Z`, `a-z` or `0-9`.
#[verifier::external_body]
fn alphanumeric(rng: &mut StdRng) -> (c: char)
    ensures
        is_alphanumeric(c),
{
    char::from(rng.sample(Alphanumeric))
}

/// Relies on `String::push`, which appends one character.
#[verifier::external_body]
pub(crate) fn push_char(s: &mut String, c: char)
    ensures
        final(s)@ == old(s)@.push(c),
{
    s.push(c)
}

/// A string of `len` random ASCII letters and digits.
pub fn rand_string_of_len(r: &mut RandomSource, len: usize) -> (s: String)
    ensures
        final(r).charset@ == old(r).charset@,
        s@.len() == len,
        all_alphanumeric(s@),
{
    let mut s = String::new();
    let mut i: usize = 0;
    while i < len
        invariant
            i <= len,
            s@.len() == i,
            all_alphanumeric(s@),
            r.charset@ == old(r).charset@,
        decreases len - i,
    {
        let c = alphanumeric(&mut r.rng);
        push_char(&mut s, c);
        i = i + 1;
    }
    s
}

/// A string of random ASCII letters and digits whose length is the product of
/// a draw in `[3, 8)` and a draw in `[1, 12)`.
pub fn rand_string(r: &mut RandomSource) -> (s: String)
    ensures
        final(r).charset@ == old(r).charset@,
        is_product_in(s@.len() as int, 3, 8, 1, 12),
        3 <= s@.len() < 78,
        all_alphanumeric(s@),
{
    let a = below(&mut r.rng, 3, 8);
    let b = below(&mut r.rng, 1, 12);
    assert(3 <= a * b < 78) by (nonlinear_arith)
        requires
            3 <= a < 8,
            1 <= b < 12,
    ;
    let s = rand_string_of_len(r, a * b);
    assert(s@.len() == (a as int) * (b as int));
    s
}

/// A string of characters of the source's set whose length is the product of
/// a draw in `[3, 25)` and a draw in `[8, 25)`.
pub fn rand_text(r: &mut RandomSource) -> (s: String)
    requires
        old(r).wf(),
    ensures
        final(r).charset@ == old(r).charset@,
        is_product_in(s@.len() as int, 3, 25, 8, 25),
        forall|i: int| 0 <= i < s@.len() ==> old(r).charset@.contains(#[trigger] s@[i]),
{
    let a = below(&mut r.rng, 3, 25);
    let b = below(&mut r.rng, 8, 25);
    assert(a * b < 625) by (nonlinear_arith)
        requires
            a < 25,
            b < 25,
    ;
    let len = a * b;
    let mut s = String::new();
    let mut i: usize = 0;
    while i < len
        invariant
            i <= len,
            s@.len() == i,
            r.charset@ == old(r).charset@,
            r.charset.len() > 0,
            forall|j: int| 0 <= j < s@.len() ==> old(r).charset@.contains(#[trigger] s@[j]),
        decreases len - i,
    {
        let k = below(&mut r.rng, 0, r.charset.len());
        let c = r.charset[k];
        assert(old(r).charset@[k as int] == c);
        push_char(&mut s, c);
        i = i + 1;
    }
    assert(s@.len() == (a as int) * (b as int));
    s
}

} // verus!

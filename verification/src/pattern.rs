//! Wildcard byte signatures and the scanner that locates them in memory.
//!
//! A textual signature is a sequence of space-separated tokens; each
//! token is either two hexadecimal digits (a concrete byte, case-insensitive)
//! or the literal `??` (a wildcard that matches any byte). `Pattern::parse`
//! turns such text into a [`Pattern`]; [`scan`] finds the earliest offset of
//! a region at which every non-wildcard position agrees with the memory.

use vstd::prelude::*;
use vstd::string::StringSliceAdditionalSpecFns;

use crate::Error;

verus! {

/// One position of a parsed signature: a concrete byte that the scanned
/// memory must hold, or a wildcard that matches any byte.
#[derive(Clone, Copy, Debug, PartialEq, Eq, Structural)]
pub enum PatternToken {
    Byte(u8),
    Wildcard,
}

/// Whether the memory byte `b` satisfies the pattern position `t`.
pub open spec fn token_matches(t: PatternToken, b: u8) -> bool {
    match t {
        PatternToken::Byte(v) => v == b,
        PatternToken::Wildcard => true,
    }
}

/// Whether the whole pattern matches the region when laid down at offset `i`.
pub open spec fn matches_at(region: Seq<u8>, pat: Seq<PatternToken>, i: int) -> bool {
    &&& 0 <= i
    &&& i + pat.len() <= region.len()
    &&& forall|j: int| 0 <= j < pat.len() ==> token_matches(pat[j], region[i + j])
}

/// The ASCII code of the space that separates tokens.
pub const SPACE: u8 = 32;

/// The ASCII code of `?`, two of which form a wildcard token.
pub const QUESTION_MARK: u8 = 63;

/// Whether `c` is an ASCII hexadecimal digit.
pub open spec fn is_hex_digit(c: u8) -> bool {
    ||| 48 <= c <= 57  // '0' ..= '9'
    ||| 65 <= c <= 70  // 'A' ..= 'F'
    ||| 97 <= c <= 102  // 'a' ..= 'f'
}

/// The numeric value of an ASCII hexadecimal digit.
pub open spec fn hex_value(c: u8) -> u8
    recommends
        is_hex_digit(c),
{
    if c <= 57 {
        (c - 48) as u8
    } else if c <= 70 {
        (c - 55) as u8
    } else {
        (c - 87) as u8
    }
}

/// What a two-character token denotes: `??` is a wildcard, two hexadecimal
/// digits are a concrete byte, and everything else — a lone `?`, any other
/// wildcard syntax, a non-hexadecimal character — is malformed.
pub open spec fn spec_token(a: u8, b: u8) -> Option<PatternToken> {
    if a == QUESTION_MARK && b == QUESTION_MARK {
        Some(PatternToken::Wildcard)
    } else if is_hex_digit(a) && is_hex_digit(b) {
        Some(PatternToken::Byte((hex_value(a) * 16 + hex_value(b)) as u8))
    } else {
        None
    }
}

/// The pattern grammar over the signature's bytes: tokens of exactly two
/// characters, separated by one or more spaces, each read by [`spec_token`].
/// `None` means the signature is malformed.
pub open spec fn spec_parse(s: Seq<u8>) -> Option<Seq<PatternToken>>
    decreases s.len(),
{
    if s.len() == 0 {
        Some(Seq::empty())
    } else if s[0] == SPACE {
        spec_parse(s.skip(1))
    } else if s.len() >= 2 && (s.len() == 2 || s[2] == SPACE) {
        match spec_token(s[0], s[1]) {
            Some(t) => match spec_parse(s.skip(2)) {
                Some(rest) => Some(seq![t] + rest),
                None => None,
            },
            None => None,
        }
    } else {
        None
    }
}

/// A parsed wildcard byte signature, ready to be scanned for.
#[derive(Debug)]
pub struct Pattern {
    tokens: Vec<PatternToken>,
}

impl View for Pattern {
    type V = Seq<PatternToken>;

    closed spec fn view(&self) -> Seq<PatternToken> {
        self.tokens@
    }
}

/// Reads the token at position `i` of the signature text: two characters
/// that `spec_token` accepts, followed by a space or the end of the text.
fn read_token(bytes: &[u8], i: usize) -> (r: Option<PatternToken>)
    requires
        i < bytes@.len(),
        bytes@[i as int] != SPACE,
    ensures
        ({
            let s = bytes@.skip(i as int);
            match r {
                Some(t) => s.len() >= 2 && (s.len() == 2 || s[2] == SPACE) && spec_token(
                    s[0],
                    s[1],
                ) == Some(t),
                None => !(s.len() >= 2 && (s.len() == 2 || s[2] == SPACE) && spec_token(
                    s[0],
                    s[1],
                ) is Some),
            }
        }),
{
    let n = bytes.len();
    if i + 1 >= n {
        return None;
    }
    if i + 2 < n && *vstd::slice::slice_index_get(bytes, i + 2) != SPACE {
        return None;
    }
    let a = *vstd::slice::slice_index_get(bytes, i);
    let b = *vstd::slice::slice_index_get(bytes, i + 1);
    if a == QUESTION_MARK && b == QUESTION_MARK {
        Some(PatternToken::Wildcard)
    } else {
        let va = match hex_digit_value(a) {
            Some(v) => v,
            None => {
                return None;
            },
        };
        let vb = match hex_digit_value(b) {
            Some(v) => v,
            None => {
                return None;
            },
        };
        Some(PatternToken::Byte(va * 16 + vb))
    }
}

/// The numeric value of an ASCII hexadecimal digit, or `None` for any other
/// character.
fn hex_digit_value(c: u8) -> (r: Option<u8>)
    ensures
        match r {
            Some(v) => is_hex_digit(c) && v == hex_value(c),
            None => !is_hex_digit(c),
        },
{
    if 48 <= c && c <= 57 {
        Some(c - 48)
    } else if 65 <= c && c <= 70 {
        Some(c - 55)
    } else if 97 <= c && c <= 102 {
        Some(c - 87)
    } else {
        None
    }
}

/// Parses the signature text from position `i` on, mirroring [`spec_parse`]
/// on the remaining bytes.
fn parse_from(bytes: &[u8], i: usize) -> (r: Result<Vec<PatternToken>, Error>)
    requires
        i <= bytes@.len(),
    ensures
        match r {
            Ok(toks) => spec_parse(bytes@.skip(i as int)) == Some(toks@),
            Err(e) => spec_parse(bytes@.skip(i as int)) is None && e == Error::PatternMalformed,
        },
    decreases bytes@.len() - i,
{
    let ghost s = bytes@.skip(i as int);
    let n = bytes.len();
    if i == n {
        let toks: Vec<PatternToken> = Vec::new();
        proof {
            assert(s =~= Seq::<u8>::empty());
        }
        return Ok(toks);
    }
    proof {
        assert(s.len() == n - i);
    }
    let c = *vstd::slice::slice_index_get(bytes, i);
    proof {
        assert(s[0] == c);
    }
    if c == SPACE {
        let r = parse_from(bytes, i + 1);
        proof {
            assert(s.skip(1) =~= bytes@.skip(i + 1));
        }
        return r;
    }
    match read_token(bytes, i) {
        Some(t) => {
            proof {
                assert(s.skip(2) =~= bytes@.skip(i + 2));
                assert(s[1] == bytes@[i + 1]);
            }
            match parse_from(bytes, i + 2) {
                Ok(mut rest) => {
                    let ghost rest0 = rest@;
                    rest.insert(0, t);
                    proof {
                        assert(rest@ =~= seq![t] + rest0);
                    }
                    Ok(rest)
                },
                Err(e) => Err(e),
            }
        },
        None => Err(Error::PatternMalformed),
    }
}

impl Pattern {
    /// Parses a textual signature. Returns `Err(Error::PatternMalformed)`
    /// exactly when the text does not follow the grammar of [`spec_parse`],
    /// and the parsed token sequence otherwise.
    pub fn parse(signature: &str) -> (r: Result<Pattern, Error>)
        ensures
            match r {
                Ok(p) => spec_parse(signature.spec_bytes()) == Some(p@),
                Err(e) => spec_parse(signature.spec_bytes()) is None && e
                    == Error::PatternMalformed,
            },
    {
        let bytes = signature.as_bytes();
        proof {
            assert(bytes@.skip(0) =~= bytes@);
        }
        match parse_from(bytes, 0) {
            Ok(toks) => Ok(Pattern { tokens: toks }),
            Err(e) => Err(e),
        }
    }

    /// The number of byte positions the pattern covers.
    pub fn len(&self) -> (r: usize)
        ensures
            r == self@.len(),
    {
        self.tokens.len()
    }
}

/// Whether every position of the pattern is a wildcard.
pub open spec fn all_wildcards(pat: Seq<PatternToken>) -> bool {
    forall|j: int| 0 <= j < pat.len() ==> pat[j] is Wildcard
}

/// Whether the pattern has no wildcard at all.
pub open spec fn concrete(pat: Seq<PatternToken>) -> bool {
    forall|j: int| 0 <= j < pat.len() ==> pat[j] is Byte
}

/// The byte sequence a concrete pattern stands for.
pub open spec fn bytes_of(pat: Seq<PatternToken>) -> Seq<u8>
    recommends
        concrete(pat),
{
    Seq::new(pat.len(), |j: int| pat[j]->Byte_0)
}

/// Law: a pattern made of wildcards alone matches a region at every offset
/// where it fits — in particular at offset 0 of any region at least as long
/// as the pattern, so a scan of such a region returns its start.
pub proof fn lemma_all_wildcards_match(region: Seq<u8>, pat: Seq<PatternToken>)
    requires
        all_wildcards(pat),
    ensures
        forall|k: int| 0 <= k <= region.len() - pat.len() ==> matches_at(region, pat, k),
        pat.len() <= region.len() ==> matches_at(region, pat, 0),
{
    assert forall|k: int| 0 <= k <= region.len() - pat.len() implies matches_at(
        region,
        pat,
        k,
    ) by {
        assert(forall|j: int| 0 <= j < pat.len() ==> token_matches(pat[j], region[k + j]));
    }
}

/// Law: a concrete pattern matches at an offset exactly when the region
/// holds its byte sequence there, so a scan returns `None` exactly when the
/// sequence is absent and the first occurrence's offset when it is present.
pub proof fn lemma_concrete_matches_iff_bytes(region: Seq<u8>, pat: Seq<PatternToken>, i: int)
    requires
        concrete(pat),
    ensures
        matches_at(region, pat, i) <==> (0 <= i && i + pat.len() <= region.len()
            && region.subrange(i, i + pat.len()) == bytes_of(pat)),
{
    if matches_at(region, pat, i) {
        assert(region.subrange(i, i + pat.len()) =~= bytes_of(pat)) by {
            assert(forall|j: int|
                0 <= j < pat.len() ==> token_matches(pat[j], region[i + j]) && pat[j] is Byte);
        }
    }
    if 0 <= i && i + pat.len() <= region.len() && region.subrange(i, i + pat.len()) == bytes_of(
        pat,
    ) {
        assert forall|j: int| 0 <= j < pat.len() implies token_matches(pat[j], region[i + j]) by {
            assert(region.subrange(i, i + pat.len())[j] == region[i + j]);
            assert(bytes_of(pat)[j] == pat[j]->Byte_0);
        }
    }
}

/// Law: a wildcard position matches regardless of the underlying byte. Two
/// regions of the same length that agree on every non-wildcard position of
/// the pattern are matched alike, whatever bytes stand at the wildcards.
pub proof fn lemma_wildcards_ignore_bytes(
    r1: Seq<u8>,
    r2: Seq<u8>,
    pat: Seq<PatternToken>,
    i: int,
)
    requires
        r1.len() == r2.len(),
        forall|j: int| 0 <= j < pat.len() && pat[j] is Byte ==> r1[i + j] == r2[i + j],
    ensures
        matches_at(r1, pat, i) == matches_at(r2, pat, i),
{
    if matches_at(r1, pat, i) {
        assert forall|j: int| 0 <= j < pat.len() implies token_matches(pat[j], r2[i + j]) by {
            assert(token_matches(pat[j], r1[i + j]));
        }
    }
    if matches_at(r2, pat, i) {
        assert forall|j: int| 0 <= j < pat.len() implies token_matches(pat[j], r1[i + j]) by {
            assert(token_matches(pat[j], r2[i + j]));
        }
    }
}

/// Whether the pattern matches the region at offset `i`, position by
/// position.
fn match_here(region: &[u8], pattern: &Pattern, i: usize) -> (r: bool)
    requires
        i + pattern@.len() <= region@.len(),
    ensures
        r == matches_at(region@, pattern@, i as int),
{
    let n = region.len();
    let m = pattern.tokens.len();
    let mut j: usize = 0;
    while j < m
        invariant
            m == pattern@.len(),
            n == region@.len(),
            i + m <= n,
            j <= m,
            forall|q: int| 0 <= q < j ==> token_matches(pattern@[q], region@[i + q]),
        decreases m - j,
    {
        let b = *vstd::slice::slice_index_get(region, i + j);
        match pattern.tokens[j] {
            PatternToken::Byte(v) => {
                if v != b {
                    assert(!token_matches(pattern@[j as int], region@[i + j]));
                    return false;
                }
            },
            PatternToken::Wildcard => {},
        }
        j = j + 1;
    }
    true
}

/// Scans the region left to right and returns the earliest offset at which
/// the pattern matches, or `None` when it matches nowhere. Only the first
/// match is ever reported; further matches are not looked for.
pub fn scan(region: &[u8], pattern: &Pattern) -> (r: Option<usize>)
    ensures
        match r {
            Some(i) => matches_at(region@, pattern@, i as int) && (forall|k: int|
                0 <= k < i ==> !matches_at(region@, pattern@, k)),
            None => forall|k: int| !matches_at(region@, pattern@, k),
        },
{
    let n = region.len();
    let m = pattern.tokens.len();
    if m > n {
        return None;
    }
    let mut i: usize = 0;
    while i <= n - m
        invariant
            m == pattern@.len(),
            n == region@.len(),
            m <= n,
            i <= n - m + 1,
            forall|k: int| 0 <= k < i ==> !matches_at(region@, pattern@, k),
        decreases n - m - i + 1,
    {
        if match_here(region, pattern, i) {
            return Some(i);
        }
        i = i + 1;
    }
    None
}

} // verus!

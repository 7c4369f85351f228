//! Small string utilities: a verified prefix test and column padding,
//! and trusted wrappers for case folding and whitespace trimming.

use vstd::prelude::*;
use vstd::string::StrSliceExecFns;
use vstd::string::StringExecFns;

verus! {

/// `p` is a prefix of `s`.
pub open spec fn is_prefix_of(p: Seq<char>, s: Seq<char>) -> bool {
    p.len() <= s.len() && forall|i: int| 0 <= i < p.len() ==> s[i] == p[i]
}

/// Prefixes compose transitively.
pub proof fn lemma_prefix_trans(a: Seq<char>, b: Seq<char>, c: Seq<char>)
    requires
        is_prefix_of(a, b),
        is_prefix_of(b, c),
    ensures
        is_prefix_of(a, c),
{
}

/// A sequence is a prefix of any of its extensions.
pub proof fn lemma_prefix_ext(a: Seq<char>, x: Seq<char>)
    ensures
        is_prefix_of(a, a + x),
{
}

/// Whether `s` starts with `prefix`, compared character by character.
pub fn str_starts_with(s: &str, prefix: &str) -> (b: bool)
    ensures
        b == is_prefix_of(prefix@, s@),
{
    let n = s.unicode_len();
    let p = prefix.unicode_len();
    if p > n {
        return false;
    }
    let mut i: usize = 0;
    while i < p
        invariant
            0 <= i <= p,
            p == prefix@.len(),
            n == s@.len(),
            p <= n,
            forall|j: int| 0 <= j < i ==> s@[j] == prefix@[j],
        decreases p - i,
    {
        if s.get_char(i) != prefix.get_char(i) {
            return false;
        }
        i = i + 1;
    }
    true
}

/// A run of `n` spaces.
pub open spec fn spaces(n: nat) -> Seq<char> {
    Seq::new(n, |i: int| ' ')
}

/// `s` padded on the left with spaces up to `width`; a string at least
/// `width` long is returned unchanged.
pub open spec fn pad_left_spec(s: Seq<char>, width: nat) -> Seq<char> {
    if s.len() >= width {
        s
    } else {
        spaces((width - s.len()) as nat) + s
    }
}

/// Right-aligns `s` in a column of `width` characters.
pub fn pad_left(s: &str, width: usize) -> (r: String)
    ensures
        r@ == pad_left_spec(s@, width as nat),
{
    let n = s.unicode_len();
    let mut r = String::new();
    if n < width {
        let pad = width - n;
        let mut i: usize = 0;
        proof {
            reveal_strlit(" ");
        }
        while i < pad
            invariant
                0 <= i <= pad,
                " "@ =~= seq![' '],
                r@ =~= spaces(i as nat),
            decreases pad - i,
        {
            r.append(" ");
            proof {
                assert(r@ =~= spaces((i + 1) as nat));
            }
            i = i + 1;
        }
        proof {
            assert(r@ + s@ =~= pad_left_spec(s@, width as nat));
        }
    } else {
        proof {
            assert(r@ + s@ =~= s@);
        }
    }
    r.append(s);
    r
}

/// The case-folded form of a string, as `str::to_lowercase` computes
/// it; a function of the characters alone.
pub uninterp spec fn lower_of(s: Seq<char>) -> Seq<char>;

/// Relies on `str::to_lowercase`: the lowercase equivalent of the
/// string, depending on its characters alone.
#[verifier::external_body]
pub fn lowercase(s: &str) -> (r: String)
    ensures
        r@ == lower_of(s@),
{
    s.to_lowercase()
}

/// The whitespace-trimmed form of a string, as `str::trim` computes
/// it; a function of the characters alone.
pub uninterp spec fn trim_of(s: Seq<char>) -> Seq<char>;

/// Relies on `str::trim`: the input with leading and trailing
/// whitespace removed, depending on its characters alone.
#[verifier::external_body]
pub fn trim_ws<'a>(s: &'a str) -> (r: &'a str)
    ensures
        r@ == trim_of(s@),
{
    s.trim()
}

} // verus!

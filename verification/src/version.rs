//! Local version sanitization.
//!
//! A recipe's local version string may carry a version-control-state suffix
//! (`1.2.3+git20230101`). Before comparison against upstream versions the
//! suffix is stripped: everything from the earliest occurrence of any
//! delimiter marker onward is discarded.

use vstd::prelude::*;

verus! {

/// A delimiter occurs in `text` at position `i`.
pub open spec fn match_at(text: Seq<char>, delim: Seq<char>, i: int) -> bool {
    &&& 0 <= i
    &&& i + delim.len() <= text.len()
    &&& text.subrange(i, i + delim.len() as int) == delim
}

/// Some delimiter of `delims` occurs in `text` at position `i`.
pub open spec fn any_match_at(text: Seq<char>, delims: Seq<Seq<char>>, i: int) -> bool {
    exists|k: int| 0 <= k < delims.len() && match_at(text, #[trigger] delims[k], i)
}

/// The earliest position at or after `i` where some delimiter occurs,
/// or `text.len()` if none occurs.
pub open spec fn cut_from(text: Seq<char>, delims: Seq<Seq<char>>, i: int) -> int
    decreases text.len() - i,
{
    if i < 0 || i >= text.len() {
        text.len() as int
    } else if any_match_at(text, delims, i) {
        i
    } else {
        cut_from(text, delims, i + 1)
    }
}

/// The earliest position in `text` where some delimiter occurs, or `text.len()`.
pub open spec fn cut_pos(text: Seq<char>, delims: Seq<Seq<char>>) -> int {
    cut_from(text, delims, 0)
}

/// What splitting before the earliest delimiter yields: the prefix of `text`
/// up to the earliest occurrence of any delimiter.
pub open spec fn spec_split_before(text: Seq<char>, delims: Seq<Seq<char>>) -> Seq<char> {
    text.take(cut_pos(text, delims))
}

proof fn lemma_cut_from_characterize(text: Seq<char>, delims: Seq<Seq<char>>, i: int, p: int)
    requires
        0 <= i <= p <= text.len(),
        forall|j: int| i <= j < p ==> !any_match_at(text, delims, j),
        p == text.len() || any_match_at(text, delims, p),
    ensures
        cut_from(text, delims, i) == p,
    decreases text.len() - i,
{
    if i >= text.len() {
    } else if any_match_at(text, delims, i) {
        assert(i == p);
    } else {
        lemma_cut_from_characterize(text, delims, i + 1, p);
    }
}

proof fn lemma_cut_no_match_before(text: Seq<char>, delims: Seq<Seq<char>>, i: int, j: int)
    requires
        0 <= i <= j < cut_from(text, delims, i),
    ensures
        !any_match_at(text, delims, j),
    decreases text.len() - i,
{
    if i >= text.len() {
    } else if any_match_at(text, delims, i) {
    } else {
        if i < j {
            lemma_cut_no_match_before(text, delims, i + 1, j);
        }
    }
}

/// Sanitizing is idempotent: splitting an already-split string before the
/// same delimiters is a no-op, for every text and every delimiter set.
pub proof fn lemma_split_before_idempotent(text: Seq<char>, delims: Seq<Seq<char>>)
    ensures
        spec_split_before(spec_split_before(text, delims), delims) == spec_split_before(
            text,
            delims,
        ),
{
    let p = cut_pos(text, delims);
    lemma_cut_from_bounds(text, delims, 0);
    let prefix = text.take(p);
    assert forall|j: int| 0 <= j < prefix.len() implies !any_match_at(prefix, delims, j) by {
        if any_match_at(prefix, delims, j) {
            let k = choose|k: int|
                0 <= k < delims.len() && match_at(prefix, #[trigger] delims[k], j);
            assert(prefix.subrange(j, j + delims[k].len() as int) =~= text.subrange(
                j,
                j + delims[k].len() as int,
            ));
            assert(match_at(text, delims[k], j));
            lemma_cut_no_match_before(text, delims, 0, j);
        }
    }
    lemma_cut_from_characterize(prefix, delims, 0, prefix.len() as int);
    assert(prefix.take(prefix.len() as int) =~= prefix);
}

proof fn lemma_cut_from_bounds(text: Seq<char>, delims: Seq<Seq<char>>, i: int)
    requires
        0 <= i <= text.len(),
    ensures
        i <= cut_from(text, delims, i) <= text.len(),
    decreases text.len() - i,
{
    if i >= text.len() {
    } else if any_match_at(text, delims, i) {
    } else {
        lemma_cut_from_bounds(text, delims, i + 1);
    }
}

/// Whether `delim` occurs in `text` at character position `i`.
fn matches_at(text: &str, delim: &str, i: usize) -> (b: bool)
    ensures
        b == match_at(text@, delim@, i as int),
{
    let tlen = text.unicode_len();
    let dlen = delim.unicode_len();
    if i > tlen || dlen > tlen - i {
        return false;
    }
    let mut j: usize = 0;
    while j < dlen
        invariant
            0 <= j <= dlen,
            i + dlen <= tlen,
            tlen == text@.len(),
            dlen == delim@.len(),
            forall|q: int| 0 <= q < j ==> text@[i + q] == delim@[q],
        decreases dlen - j,
    {
        if text.get_char(i + j) != delim.get_char(j) {
            return false;
        }
        j += 1;
    }
    proof {
        assert(text@.subrange(i as int, i + dlen as int) =~= delim@);
    }
    true
}

/// Whether any delimiter of `delimiters` occurs in `text` at position `i`.
fn any_delim_at(text: &str, delimiters: &[&str], i: usize) -> (b: bool)
    ensures
        b == any_match_at(text@, delimiters.deep_view(), i as int),
{
    let n = delimiters.len();
    let mut k: usize = 0;
    while k < n
        invariant
            0 <= k <= n,
            n == delimiters@.len(),
            forall|q: int| 0 <= q < k ==> !match_at(text@, delimiters.deep_view()[q], i as int),
        decreases n - k,
    {
        if matches_at(text, delimiters[k], i) {
            assert(delimiters.deep_view()[k as int] == delimiters@[k as int]@);
            return true;
        }
        k += 1;
    }
    false
}

/// Splits `text` before the earliest occurrence of any of `delimiters`,
/// returning the prefix; `text` unchanged when none occurs.
pub fn split_before_delimiters<'a>(text: &'a str, delimiters: &[&str]) -> (r: &'a str)
    ensures
        r@ == spec_split_before(text@, delimiters.deep_view()),
{
    let tlen = text.unicode_len();
    let mut i: usize = 0;
    while i < tlen
        invariant
            0 <= i <= tlen,
            tlen == text@.len(),
            forall|j: int| 0 <= j < i ==> !any_match_at(text@, delimiters.deep_view(), j),
        decreases tlen - i,
    {
        if any_delim_at(text, delimiters, i) {
            proof {
                lemma_cut_from_characterize(text@, delimiters.deep_view(), 0, i as int);
            }
            return text.substring_char(0, i);
        }
        i += 1;
    }
    proof {
        lemma_cut_from_characterize(text@, delimiters.deep_view(), 0, tlen as int);
        assert(text@.take(tlen as int) =~= text@);
    }
    text
}

/// The delimiter markers that introduce a version-control-state suffix.
pub open spec fn vcs_delims() -> Seq<Seq<char>> {
    seq!["+git"@, "+vcs"@, "+mur"@]
}

/// The delimiter markers that introduce a version-control-state suffix,
/// as executable values.
pub fn vcs_delimiters() -> (v: Vec<&'static str>)
    ensures
        v.deep_view() == vcs_delims(),
{
    let mut v: Vec<&'static str> = Vec::new();
    v.push("+git");
    v.push("+vcs");
    v.push("+mur");
    proof {
        assert(v.deep_view() =~= vcs_delims());
    }
    v
}

/// What sanitizing a local version string yields: the prefix before the
/// earliest version-control delimiter marker.
pub open spec fn spec_sanitize(text: Seq<char>) -> Seq<char> {
    spec_split_before(text, vcs_delims())
}

/// Strips any version-control-state suffix from a local version string.
pub fn sanitize_version<'a>(text: &'a str) -> (r: &'a str)
    ensures
        r@ == spec_sanitize(text@),
{
    let delims = vcs_delimiters();
    split_before_delimiters(text, delims.as_slice())
}

/// Sanitizing an already-sanitized version string is a no-op.
pub proof fn lemma_sanitize_idempotent(text: Seq<char>)
    ensures
        spec_sanitize(spec_sanitize(text)) == spec_sanitize(text),
{
    lemma_split_before_idempotent(text, vcs_delims());
}

} // verus!

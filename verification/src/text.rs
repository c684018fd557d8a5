//! Character-level text operations: classification of punctuation and
//! whitespace characters, case folding, punctuation stripping, and
//! whitespace tokenization.

use vstd::prelude::*;

verus! {

/// An ASCII punctuation character, as `char::is_ascii_punctuation`
/// classifies them: `!..=/`, `:..=@`, `[..=`` ` ``, `{..=~`.
pub open spec fn is_punct_char(c: char) -> bool {
    (33 <= c as int && c as int <= 47) || (58 <= c as int && c as int <= 64) || (91 <= c as int
        && c as int <= 96) || (123 <= c as int && c as int <= 126)
}

/// A whitespace character, as `char::is_whitespace` classifies them:
/// the characters with the Unicode `White_Space` property.
pub open spec fn is_space_char(c: char) -> bool {
    c as int == 0x09 || c as int == 0x0a || c as int == 0x0b || c as int == 0x0c || c as int == 0x0d
        || c as int == 0x20 || c as int == 0x85 || c as int == 0xa0 || c as int == 0x1680 || (0x2000
        <= c as int && c as int <= 0x200a) || c as int == 0x2028 || c as int == 0x2029 || c as int
        == 0x202f || c as int == 0x205f || c as int == 0x3000
}

/// Decides `is_punct_char`.
pub fn is_punct(c: char) -> (r: bool)
    ensures
        r == is_punct_char(c),
{
    let u = c as u32;
    (33 <= u && u <= 47) || (58 <= u && u <= 64) || (91 <= u && u <= 96) || (123 <= u && u <= 126)
}

/// Decides `is_space_char`.
pub fn is_space(c: char) -> (r: bool)
    ensures
        r == is_space_char(c),
{
    let u = c as u32;
    u == 0x09 || u == 0x0a || u == 0x0b || u == 0x0c || u == 0x0d || u == 0x20 || u == 0x85 || u
        == 0xa0 || u == 0x1680 || (0x2000 <= u && u <= 0x200a) || u == 0x2028 || u == 0x2029 || u
        == 0x202f || u == 0x205f || u == 0x3000
}

/// Relies on `str::chars`: yields the characters of the string in order.
#[verifier::external_body]
pub(crate) fn chars_of(s: &str) -> (v: Vec<char>)
    ensures
        v@ == s@,
{
    s.chars().collect()
}

/// Relies on `String`'s `FromIterator<char>`: collecting characters
/// builds the string of exactly those characters in order.
#[verifier::external_body]
pub(crate) fn string_of(cs: &Vec<char>) -> (s: String)
    ensures
        s@ == cs@,
{
    cs.iter().collect()
}

/// The sequence of characters that `str::to_lowercase` returns for `s`:
/// Unicode lowercasing is a pure function of the characters alone.
pub uninterp spec fn lower_of(s: Seq<char>) -> Seq<char>;

/// Relies on `str::to_lowercase`: the result depends on the characters of
/// the input alone, and an empty input gives an empty result.
#[verifier::external_body]
pub(crate) fn lower_str(s: &str) -> (r: String)
    ensures
        r@ == lower_of(s@),
        s@.len() == 0 ==> r@.len() == 0,
{
    s.to_lowercase()
}

/// Removes every ASCII punctuation character, keeping the order and
/// identity of all other characters.
pub fn strip_punct_chars(v: &Vec<char>) -> (out: Vec<char>)
    ensures
        out@ == v@.filter(|c: char| !is_punct_char(c)),
{
    let mut out: Vec<char> = Vec::new();
    for i in 0..v.len()
        invariant
            out@ == v@.take(i as int).filter(|c: char| !is_punct_char(c)),
    {
        proof {
            reveal(Seq::filter);
            assert(v@.take(i + 1).drop_last() =~= v@.take(i as int));
            assert(v@.take(i + 1).last() == v@[i as int]);
        }
        if !is_punct(v[i]) {
            out.push(v[i]);
        }
    }
    proof {
        assert(v@.take(v@.len() as int) =~= v@);
    }
    out
}

/// One step of a left-to-right tokenization scan: the completed tokens so
/// far and the token under construction, after consuming `s`.
pub open spec fn token_fold(s: Seq<char>) -> (Seq<Seq<char>>, Seq<char>)
    decreases s.len(),
{
    if s.len() == 0 {
        (Seq::empty(), Seq::empty())
    } else {
        let (toks, cur) = token_fold(s.drop_last());
        let c = s.last();
        if is_space_char(c) {
            if cur.len() == 0 {
                (toks, Seq::empty())
            } else {
                (toks.push(cur), Seq::empty())
            }
        } else {
            (toks, cur.push(c))
        }
    }
}

/// The whitespace-delimited tokens of `s`, in order, with empty fragments
/// discarded.
pub open spec fn tokens_of(s: Seq<char>) -> Seq<Seq<char>> {
    let (toks, cur) = token_fold(s);
    if cur.len() == 0 {
        toks
    } else {
        toks.push(cur)
    }
}

/// The views of a sequence of strings.
pub open spec fn str_views(ts: Seq<String>) -> Seq<Seq<char>> {
    ts.map_values(|t: String| t@)
}

/// Splits `v` on runs of whitespace into its tokens, in order; all-space
/// or empty input gives no tokens.
pub fn tokenize_chars(v: &Vec<char>) -> (toks: Vec<String>)
    ensures
        str_views(toks@) == tokens_of(v@),
{
    let mut toks: Vec<String> = Vec::new();
    let mut cur: Vec<char> = Vec::new();
    for i in 0..v.len()
        invariant
            str_views(toks@) == token_fold(v@.take(i as int)).0,
            cur@ == token_fold(v@.take(i as int)).1,
    {
        proof {
            assert(v@.take(i + 1).drop_last() =~= v@.take(i as int));
            assert(v@.take(i + 1).last() == v@[i as int]);
        }
        let c = v[i];
        if is_space(c) {
            if cur.len() > 0 {
                let t = string_of(&cur);
                toks.push(t);
                cur = Vec::new();
                proof {
                    assert(str_views(toks@) =~= token_fold(v@.take(i + 1)).0);
                }
            }
        } else {
            cur.push(c);
        }
    }
    proof {
        assert(v@.take(v@.len() as int) =~= v@);
    }
    if cur.len() > 0 {
        let t = string_of(&cur);
        toks.push(t);
        proof {
            assert(str_views(toks@) =~= tokens_of(v@));
        }
    }
    toks
}

} // verus!

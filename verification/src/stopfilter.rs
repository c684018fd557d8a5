//! Stopword filtering: a fixed English reference stopword list, obtained
//! once from an external dataset, and the stage that removes its words
//! from every record's token sequence by exact, case-sensitive match.

use vstd::prelude::*;
use stopwords::{Language, Stopwords, NLTK};
use crate::records::{Dataset, TokenizedData};
use crate::text::str_views;

verus! {

/// Whether a word is in the NLTK English stopword list: the list is a
/// fixed dataset of the `stopwords` crate, so membership is a function of
/// the word alone.
pub uninterp spec fn nltk_english_stop(w: Seq<char>) -> bool;

/// Relies on `NLTK::stopwords(Language::English)` of the `stopwords`
/// crate: English is among its provided languages, so the call returns
/// its fixed English stopword list, whose members are exactly the words
/// satisfying `nltk_english_stop`.
#[verifier::external_body]
fn nltk_english_stopwords() -> (r: Vec<String>)
    ensures
        forall|i: int| 0 <= i < r@.len() ==> nltk_english_stop(#[trigger] r@[i]@),
        forall|w: Seq<char>| nltk_english_stop(w) ==> str_views(r@).contains(w),
{
    NLTK::stopwords(Language::English).unwrap().iter().map(|s| s.to_string()).collect()
}

/// Whether `t` occurs in `v`, by exact string comparison.
fn contains_str(v: &Vec<String>, t: &String) -> (b: bool)
    ensures
        b == str_views(v@).contains(t@),
{
    let n = v.len();
    for k in 0..n
        invariant
            n == v@.len(),
            forall|j: int| 0 <= j < k ==> str_views(v@)[j] != t@,
    {
        if v[k].eq(t) {
            proof {
                assert(str_views(v@)[k as int] == t@);
            }
            return true;
        }
    }
    proof {
        if str_views(v@).contains(t@) {
            let j = choose|j: int| 0 <= j < str_views(v@).len() && str_views(v@)[j] == t@;
            assert(str_views(v@)[j] != t@);
        }
    }
    false
}

/// Keeps the tokens of one record that are not stopwords, in order.
fn filter_row(row: &TokenizedData, stops: &Vec<String>) -> (out: TokenizedData)
    requires
        forall|i: int| 0 <= i < stops@.len() ==> nltk_english_stop(#[trigger] stops@[i]@),
        forall|w: Seq<char>| nltk_english_stop(w) ==> str_views(stops@).contains(w),
    ensures
        out@ == row@.filter(|t: Seq<char>| !nltk_english_stop(t)),
{
    let mut kept: Vec<String> = Vec::new();
    let n = row.tokens.len();
    for i in 0..n
        invariant
            n == row.tokens@.len(),
            forall|k: int| 0 <= k < stops@.len() ==> nltk_english_stop(#[trigger] stops@[k]@),
            forall|w: Seq<char>| nltk_english_stop(w) ==> str_views(stops@).contains(w),
            str_views(kept@) == row@.take(i as int).filter(|t: Seq<char>| !nltk_english_stop(t)),
    {
        proof {
            reveal(Seq::filter);
            assert(row@.take(i + 1).drop_last() =~= row@.take(i as int));
            assert(row@.take(i + 1).last() == row@[i as int]);
        }
        let stop = contains_str(stops, &row.tokens[i]);
        proof {
            if stop {
                let j = choose|j: int|
                    0 <= j < str_views(stops@).len() && str_views(stops@)[j] == row.tokens@[
                        i as int
                    ]@;
                assert(nltk_english_stop(stops@[j]@));
            }
        }
        if !stop {
            kept.push(row.tokens[i].clone());
            proof {
                assert(str_views(kept@) =~= row@.take(i + 1).filter(
                    |t: Seq<char>| !nltk_english_stop(t),
                ));
            }
        }
    }
    proof {
        assert(row@.take(row@.len() as int) =~= row@);
    }
    TokenizedData { tokens: kept }
}

impl Dataset {
    /// Removes every token that is in the fixed English reference
    /// stopword list, by exact case-sensitive match, preserving the
    /// relative order of the surviving tokens; labels and record order
    /// are untouched.
    pub fn stop_words(self) -> (d: Self)
        ensures
            d.labels@ == self.labels@,
            d.data@.len() == self.data@.len(),
            forall|i: int|
                0 <= i < self.data@.len() ==> #[trigger] d.data@[i]@ == self.data@[i]@.filter(
                    |t: Seq<char>| !nltk_english_stop(t),
                ),
    {
        let stops = nltk_english_stopwords();
        let mut data: Vec<TokenizedData> = Vec::new();
        let n = self.data.len();
        for i in 0..n
            invariant
                n == self.data@.len(),
                data@.len() == i,
                forall|k: int| 0 <= k < stops@.len() ==> nltk_english_stop(#[trigger] stops@[k]@),
                forall|w: Seq<char>| nltk_english_stop(w) ==> str_views(stops@).contains(w),
                forall|k: int|
                    0 <= k < i ==> #[trigger] data@[k]@ == self.data@[k]@.filter(
                        |t: Seq<char>| !nltk_english_stop(t),
                    ),
        {
            let row = filter_row(&self.data[i], &stops);
            data.push(row);
        }
        Dataset { labels: self.labels, data }
    }
}

} // verus!

//! The vocabulary — a frozen mapping from token to a dense index assigned
//! in first-occurrence order over the whole corpus — and the bag-of-words
//! encoder that turns one token sequence into a term-frequency vector
//! over that vocabulary.

use vstd::prelude::*;
use crate::records::TokenizedData;
use crate::text::str_views;

verus! {

/// The distinct elements of a token stream, in first-occurrence order.
pub open spec fn distinct_fold(ts: Seq<Seq<char>>) -> Seq<Seq<char>>
    decreases ts.len(),
{
    if ts.len() == 0 {
        Seq::empty()
    } else {
        let pre = distinct_fold(ts.drop_last());
        if pre.contains(ts.last()) {
            pre
        } else {
            pre.push(ts.last())
        }
    }
}

/// All tokens of a corpus, row by row, in token order.
pub open spec fn corpus_tokens(rows: Seq<Seq<Seq<char>>>) -> Seq<Seq<char>>
    decreases rows.len(),
{
    if rows.len() == 0 {
        Seq::empty()
    } else {
        corpus_tokens(rows.drop_last()) + rows.last()
    }
}

/// The vocabulary of a corpus: its distinct tokens, in first-occurrence
/// order, scanning records in row order and tokens within each record in
/// sequence order.
pub open spec fn vocab_of(rows: Seq<Seq<Seq<char>>>) -> Seq<Seq<char>> {
    distinct_fold(corpus_tokens(rows))
}

/// How many entries of `ts` equal `w`.
pub open spec fn count_tok(ts: Seq<Seq<char>>, w: Seq<char>) -> nat
    decreases ts.len(),
{
    if ts.len() == 0 {
        0
    } else {
        count_tok(ts.drop_last(), w) + if ts.last() == w {
            1nat
        } else {
            0nat
        }
    }
}

/// Law: a token stream's distinct tokens hold each of its tokens exactly
/// once. The result has no duplicate, is no longer than the stream, and
/// holds exactly the stream's tokens.
pub proof fn lemma_distinct_fold(ts: Seq<Seq<char>>)
    ensures
        distinct_fold(ts).no_duplicates(),
        distinct_fold(ts).len() <= ts.len(),
        forall|w: Seq<char>| distinct_fold(ts).contains(w) <==> ts.contains(w),
    decreases ts.len(),
{
    if ts.len() > 0 {
        lemma_distinct_fold(ts.drop_last());
        let pre = distinct_fold(ts.drop_last());
        let out = distinct_fold(ts);
        assert forall|w: Seq<char>| out.contains(w) implies ts.contains(w) by {
            if pre.contains(w) {
                assert(ts.drop_last().contains(w));
                let j = choose|j: int|
                    0 <= j < ts.drop_last().len() && ts.drop_last()[j] == w;
                assert(ts[j] == w);
            } else {
                assert(w == ts.last());
                assert(ts[ts.len() - 1] == w);
            }
        }
        assert forall|w: Seq<char>| ts.contains(w) implies out.contains(w) by {
            let j = choose|j: int| 0 <= j < ts.len() && ts[j] == w;
            if j < ts.len() - 1 {
                assert(ts.drop_last()[j] == w);
                assert(ts.drop_last().contains(w));
                assert(pre.contains(w));
                if !pre.contains(ts.last()) {
                    let k = choose|k: int| 0 <= k < pre.len() && pre[k] == w;
                    assert(out[k] == w);
                }
            } else {
                assert(ts.last() == w);
                if !pre.contains(ts.last()) {
                    assert(out.last() == w);
                } else {
                    let k = choose|k: int| 0 <= k < pre.len() && pre[k] == w;
                    assert(out[k] == w);
                }
            }
        }
        if !pre.contains(ts.last()) {
            assert(out.drop_last() =~= pre);
        }
    }
}

/// Law: a corpus's vocabulary assigns every distinct surviving token
/// exactly one index, and is no larger than the total token count of the
/// corpus.
pub proof fn lemma_vocabulary_bounds(rows: Seq<Seq<Seq<char>>>)
    ensures
        vocab_of(rows).no_duplicates(),
        vocab_of(rows).len() <= corpus_tokens(rows).len(),
        forall|w: Seq<char>| vocab_of(rows).contains(w) <==> corpus_tokens(rows).contains(w),
{
    lemma_distinct_fold(corpus_tokens(rows));
}

/// A count never exceeds the length of the counted stream.
pub proof fn lemma_count_le_len(ts: Seq<Seq<char>>, w: Seq<char>)
    ensures
        count_tok(ts, w) <= ts.len(),
    decreases ts.len(),
{
    if ts.len() > 0 {
        lemma_count_le_len(ts.drop_last(), w);
    }
}

/// The frozen token-to-index mapping that defines the feature space:
/// token `words[k]` has index `k`, so indices are the dense range from 0
/// to the vocabulary's length. Built once from the corpus and read-only
/// afterwards.
#[derive(Debug, Clone)]
pub struct Vocabulary {
    pub words: Vec<String>,
}

impl View for Vocabulary {
    type V = Seq<Seq<char>>;

    open spec fn view(&self) -> Seq<Seq<char>> {
        str_views(self.words@)
    }
}

impl Vocabulary {
    /// Well-formedness: no token holds two indices.
    pub open spec fn wf(&self) -> bool {
        self@.no_duplicates()
    }

    /// The number of tokens in the vocabulary.
    pub fn len(&self) -> (n: usize)
        ensures
            n == self@.len(),
    {
        self.words.len()
    }

    /// Whether the vocabulary holds no tokens.
    pub fn is_empty(&self) -> (b: bool)
        ensures
            b == (self@.len() == 0),
    {
        self.words.len() == 0
    }

    /// The index of a token: the first position holding it, or none if
    /// the token is out of vocabulary.
    pub fn index_of(&self, t: &String) -> (r: Option<usize>)
        ensures
            match r {
                Some(k) => k < self@.len() && self@[k as int] == t@ && forall|j: int|
                    0 <= j < k ==> self@[j] != t@,
                None => !self@.contains(t@),
            },
    {
        let n = self.words.len();
        for k in 0..n
            invariant
                n == self@.len(),
                forall|j: int| 0 <= j < k ==> self@[j] != t@,
        {
            if self.words[k].eq(t) {
                proof {
                    assert(self@[k as int] == t@);
                }
                return Some(k);
            }
        }
        proof {
            if self@.contains(t@) {
                let j = choose|j: int| 0 <= j < self@.len() && self@[j] == t@;
                assert(self@[j] != t@);
            }
        }
        None
    }

    /// Builds the vocabulary of a corpus: scans records in row order and
    /// tokens within each record in order, assigning each previously
    /// unseen token the next index. Never reorders, sorts, or
    /// deduplicates by any criterion other than first occurrence.
    pub fn from_corpus(corpus: &Vec<TokenizedData>) -> (voc: Vocabulary)
        ensures
            voc@ == vocab_of(corpus@.map_values(|t: TokenizedData| t@)),
            voc.wf(),
    {
        let ghost rows = corpus@.map_values(|t: TokenizedData| t@);
        let mut words: Vec<String> = Vec::new();
        let n = corpus.len();
        for i in 0..n
            invariant
                n == corpus@.len(),
                rows == corpus@.map_values(|t: TokenizedData| t@),
                str_views(words@) == distinct_fold(corpus_tokens(rows.take(i as int))),
        {
            proof {
                assert(rows.take(i + 1).drop_last() =~= rows.take(i as int));
                assert(rows.take(i + 1).last() == rows[i as int]);
            }
            let row = &corpus[i];
            let m = row.tokens.len();
            let ghost base = corpus_tokens(rows.take(i as int));
            for j in 0..m
                invariant
                    m == row.tokens@.len(),
                    row@ == corpus@.map_values(|t: TokenizedData| t@)[i as int],
                    base == corpus_tokens(rows.take(i as int)),
                    str_views(words@) == distinct_fold(base + row@.take(j as int)),
            {
                proof {
                    assert((base + row@.take(j + 1)).drop_last() =~= base + row@.take(j as int));
                    assert((base + row@.take(j + 1)).last() == row@[j as int]);
                }
                let voc_so_far = Vocabulary { words };
                let idx = voc_so_far.index_of(&row.tokens[j]);
                words = voc_so_far.words;
                if idx.is_none() {
                    words.push(row.tokens[j].clone());
                    proof {
                        assert(str_views(words@) =~= distinct_fold(base + row@.take(j + 1)));
                    }
                }
            }
            proof {
                assert(base + row@.take(row@.len() as int) =~= corpus_tokens(rows.take(i + 1)));
            }
        }
        proof {
            assert(rows.take(rows.len() as int) =~= rows);
            lemma_distinct_fold(corpus_tokens(rows));
        }
        Vocabulary { words }
    }
}

/// Encodes one token sequence as a dense term-frequency vector over the
/// vocabulary: element `k` counts the occurrences of vocabulary token
/// `k` in the sequence. The length is always exactly the vocabulary's
/// length; out-of-vocabulary tokens are silently dropped.
pub fn bag_of_words(tokens: Vec<String>, vocabulary: &Vocabulary) -> (m: Vec<usize>)
    requires
        vocabulary.wf(),
    ensures
        m@.len() == vocabulary@.len(),
        forall|k: int|
            0 <= k < vocabulary@.len() ==> m@[k] == count_tok(
                str_views(tokens@),
                vocabulary@[k],
            ),
{
    let ghost ts = str_views(tokens@);
    let mut m: Vec<usize> = Vec::new();
    let vlen = vocabulary.words.len();
    for k in 0..vlen
        invariant
            vlen == vocabulary@.len(),
            m@.len() == k,
            forall|j: int| 0 <= j < k ==> m@[j] == 0,
    {
        m.push(0);
    }
    let n = tokens.len();
    for i in 0..n
        invariant
            n == tokens@.len(),
            ts == str_views(tokens@),
            m@.len() == vocabulary@.len(),
            vocabulary.wf(),
            forall|k: int|
                0 <= k < vocabulary@.len() ==> m@[k] == count_tok(ts.take(i as int), vocabulary@[k]),
    {
        proof {
            assert(ts.take(i + 1).drop_last() =~= ts.take(i as int));
            assert(ts.take(i + 1).last() == ts[i as int]);
        }
        match vocabulary.index_of(&tokens[i]) {
            Some(k) => {
                proof {
                    lemma_count_le_len(ts.take(i as int), vocabulary@[k as int]);
                    assert forall|j: int|
                        0 <= j < vocabulary@.len() && j != k implies vocabulary@[j] != ts[
                        i as int
                    ] by {
                        if vocabulary@[j] == vocabulary@[k as int] {
                            assert(!vocabulary@.no_duplicates());
                        }
                    }
                }
                let c = m[k];
                m.set(k, c + 1);
            },
            None => {
                proof {
                    assert forall|j: int| 0 <= j < vocabulary@.len() implies vocabulary@[j] != ts[
                        i as int
                    ] by {
                        if vocabulary@[j] == ts[i as int] {
                            assert(vocabulary@.contains(ts[i as int]));
                        }
                    }
                }
            },
        }
    }
    proof {
        assert(ts.take(ts.len() as int) =~= ts);
    }
    m
}

} // verus!

//! The feature-encoding boundary: turning the cleaned dataset into the
//! triple handed to the external trainer — a dense feature matrix, an
//! aligned numeric label vector, and the frozen vocabulary — and the pure
//! single-message encoder used at inference time.

use vstd::prelude::*;
use smartcore::linalg::basic::matrix::DenseMatrix;
use crate::errors::DataError;
use crate::label::{label_num, Label};
use crate::loader::parse_text_spec;
use crate::records::Dataset;
use crate::stopfilter::nltk_english_stop;
use crate::text::{chars_of, is_punct_char, lower_of, str_views, strip_punct_chars, tokenize_chars, tokens_of};
use crate::vocab::{bag_of_words, count_tok, vocab_of, Vocabulary};

verus! {

#[verifier::external_type_specification]
#[verifier::external_body]
#[verifier::reject_recursive_types(T)]
pub struct ExDenseMatrix<T>(DenseMatrix<T>);

/// The rows of a dense matrix, top to bottom, each left to right.
pub uninterp spec fn matrix_rows(m: DenseMatrix<usize>) -> Seq<Seq<usize>>;

/// Relies on smartcore's `DenseMatrix::from_2d_vec`: its source refuses
/// only an empty or jagged input, so on a non-empty rectangular input
/// with non-empty rows it returns the matrix holding exactly those rows.
#[verifier::external_body]
fn dense_from_rows(rows: &Vec<Vec<usize>>) -> (m: DenseMatrix<usize>)
    requires
        rows@.len() > 0,
        rows@[0]@.len() > 0,
        forall|i: int| 0 <= i < rows@.len() ==> (#[trigger] rows@[i])@.len() == rows@[0]@.len(),
    ensures
        matrix_rows(m) == rows@.map_values(|r: Vec<usize>| r@),
{
    DenseMatrix::from_2d_vec(rows).unwrap()
}

/// Relies on smartcore's `DenseMatrix::new`: it accepts any shape whose
/// row-column product equals the number of values handed in, so `nrows`
/// rows of zero columns, holding no values at all, are accepted and give
/// the matrix of that many empty rows.
#[verifier::external_body]
fn dense_zero_cols(nrows: usize) -> (m: DenseMatrix<usize>)
    ensures
        matrix_rows(m) == Seq::new(nrows as nat, |i: int| Seq::<usize>::empty()),
{
    DenseMatrix::new(nrows, 0, Vec::new(), true).unwrap()
}

/// An exact copy of a token vector.
fn copy_tokens(v: &Vec<String>) -> (r: Vec<String>)
    ensures
        r@ == v@,
{
    let mut r: Vec<String> = Vec::new();
    let n = v.len();
    for i in 0..n
        invariant
            n == v@.len(),
            r@ == v@.take(i as int),
    {
        r.push(v[i].clone());
        proof {
            assert(v@.take(i + 1) =~= v@.take(i as int).push(v@[i as int]));
        }
    }
    proof {
        assert(v@.take(n as int) =~= v@);
    }
    r
}

impl Dataset {
    /// Hands the dataset to the external trainer: encodes every record as
    /// a term-frequency row over the corpus vocabulary, and every label
    /// as its numeric target, both in record order. Always succeeds; a
    /// dataset with no records, or one whose records keep no token at
    /// all, gives a matrix with no columns.
    pub fn to_smartcore(self) -> (r: Result<
        (DenseMatrix<usize>, Vec<usize>, Vocabulary),
        DataError,
    >)
        ensures
            r is Ok,
            ({
                let voc = vocab_of(self.rows());
                let (m, y, v) = r->Ok_0;
                &&& v@ == voc
                &&& v.wf()
                &&& y@.len() == self.labels@.len()
                &&& (forall|i: int|
                    0 <= i < self.labels@.len() ==> y@[i] == label_num(#[trigger] self.labels@[i]))
                &&& matrix_rows(m).len() == self.data@.len()
                &&& (forall|i: int|
                    0 <= i < self.data@.len() ==> (#[trigger] matrix_rows(m)[i]).len() == voc.len())
                &&& (forall|i: int, k: int|
                    0 <= i < self.data@.len() && 0 <= k < voc.len() ==> #[trigger] matrix_rows(
                        m,
                    )[i][k] == count_tok(self.data@[i]@, voc[k]))
            }),
    {
        let voc = Vocabulary::from_corpus(&self.data);
        let mut y: Vec<usize> = Vec::new();
        let nl = self.labels.len();
        for i in 0..nl
            invariant
                nl == self.labels@.len(),
                y@.len() == i,
                forall|k: int| 0 <= k < i ==> y@[k] == label_num(#[trigger] self.labels@[k]),
        {
            y.push(self.labels[i].encode());
        }
        let n = self.data.len();
        if voc.is_empty() {
            let m = dense_zero_cols(n);
            proof {
                assert(matrix_rows(m).len() == n);
                assert forall|i: int| 0 <= i < n implies (#[trigger] matrix_rows(m)[i]).len()
                    == voc@.len() by {
                    assert(matrix_rows(m)[i] =~= Seq::<usize>::empty());
                }
            }
            return Ok((m, y, voc));
        }
        proof {
            if n == 0 {
                assert(self.rows() =~= Seq::<Seq<Seq<char>>>::empty());
                assert(voc@.len() == 0);
            }
        }
        let mut rows_m: Vec<Vec<usize>> = Vec::new();
        for i in 0..n
            invariant
                n == self.data@.len(),
                voc@ == vocab_of(self.rows()),
                voc.wf(),
                voc@.len() > 0,
                rows_m@.len() == i,
                forall|k: int| 0 <= k < i ==> (#[trigger] rows_m@[k])@.len() == voc@.len(),
                forall|k: int, j: int|
                    0 <= k < i && 0 <= j < voc@.len() ==> #[trigger] rows_m@[k]@[j] == count_tok(
                        self.data@[k]@,
                        voc@[j],
                    ),
        {
            let tokens = copy_tokens(&self.data[i].tokens);
            proof {
                assert(str_views(tokens@) == self.data@[i as int]@);
            }
            let row = bag_of_words(tokens, &voc);
            rows_m.push(row);
        }
        let m = dense_from_rows(&rows_m);
        proof {
            assert(matrix_rows(m).len() == n);
            assert forall|i: int| 0 <= i < n implies (#[trigger] matrix_rows(m)[i]).len()
                == voc@.len() by {
                assert(matrix_rows(m)[i] == rows_m@[i]@);
            }
            assert forall|i: int, k: int| 0 <= i < n && 0 <= k < voc@.len()
                implies #[trigger] matrix_rows(m)[i][k] == count_tok(
                self.data@[i]@,
                voc@[k],
            ) by {
                assert(matrix_rows(m)[i] == rows_m@[i]@);
            }
        }
        Ok((m, y, voc))
    }
}

/// The tokens of one message after the training-path text cleaning:
/// lowercased, stripped of ASCII punctuation, and split on whitespace.
pub open spec fn clean_tokens(s: Seq<char>) -> Seq<Seq<char>> {
    tokens_of(lower_of(s).filter(|c: char| !is_punct_char(c)))
}

/// The tokens of one message that survive the whole training-path
/// cleaning, stopword filtering included.
pub open spec fn surviving_tokens(s: Seq<char>) -> Seq<Seq<char>> {
    clean_tokens(s).filter(|t: Seq<char>| !nltk_english_stop(t))
}

/// The token rows of the training pipeline, one per record.
pub open spec fn pipeline_rows(recs: Seq<(Label, Seq<char>)>) -> Seq<Seq<Seq<char>>> {
    recs.map_values(|r: (Label, Seq<char>)| surviving_tokens(r.1))
}

/// The vocabulary of the training pipeline.
pub open spec fn pipeline_vocab(recs: Seq<(Label, Seq<char>)>) -> Seq<Seq<char>> {
    vocab_of(pipeline_rows(recs))
}

/// Runs the whole training pipeline on source text: load, lowercase,
/// strip punctuation, tokenize, filter stopwords, and hand the result to
/// the external trainer as a feature matrix, a label vector, and the
/// frozen vocabulary.
pub fn create_smartcore_input(text: &str) -> (r: Result<
    (DenseMatrix<usize>, Vec<usize>, Vocabulary),
    DataError,
>)
    ensures
        ({
            match parse_text_spec(text@) {
                Err(e) => r is Err && r->Err_0 == e,
                Ok(recs) => {
                    let voc = pipeline_vocab(recs);
                    &&& r is Ok
                    &&& ({
                        let (m, y, v) = r->Ok_0;
                        &&& v@ == voc
                        &&& v.wf()
                        &&& y@.len() == recs.len()
                        &&& (forall|i: int|
                            0 <= i < recs.len() ==> y@[i] == label_num((#[trigger] recs[i]).0))
                        &&& matrix_rows(m).len() == recs.len()
                        &&& (forall|i: int|
                            0 <= i < recs.len() ==> (#[trigger] matrix_rows(m)[i]).len()
                                == voc.len())
                        &&& (forall|i: int, k: int|
                            0 <= i < recs.len() && 0 <= k < voc.len()
                                ==> #[trigger] matrix_rows(m)[i][k] == count_tok(
                                pipeline_rows(recs)[i],
                                voc[k],
                            ))
                    })
                },
            }
        }),
{
    match crate::records::RawDataset::from_text(text) {
        Err(e) => Err(e),
        Ok(ds0) => {
            let ghost recs = parse_text_spec(text@)->Ok_0;
            let ds1 = ds0.lowercase();
            let ds2 = ds1.without_punctuaction();
            let ds3 = ds2.tokenize();
            let ds4 = ds3.stop_words();
            proof {
                assert forall|i: int| 0 <= i < recs.len() implies #[trigger] ds4.data@[i]@
                    == surviving_tokens(recs[i].1) && ds4.labels@[i] == recs[i].0 by {
                    assert(ds1@[i].0 == ds0@[i].0);
                    assert(ds1@[i].1 =~= lower_of(ds0@[i].1));
                    assert(ds2@[i].0 == ds1@[i].0);
                    assert(ds2@[i].1 =~= ds1@[i].1.filter(|c: char| !is_punct_char(c)));
                    assert(ds3.labels@[i] == ds2@[i].0);
                    assert(ds3.data@[i]@ =~= tokens_of(ds2@[i].1));
                    assert(ds4.data@[i]@ =~= ds3.data@[i]@.filter(
                        |t: Seq<char>| !nltk_english_stop(t),
                    ));
                }
                assert(ds4.rows() =~= pipeline_rows(recs));
                assert(ds4.data@.len() == recs.len());
            }
            let res = ds4.to_smartcore();
            proof {
                let voc = pipeline_vocab(recs);
                assert(vocab_of(ds4.rows()) == voc);
                if res is Ok {
                    let (m, y, v) = res->Ok_0;
                    assert forall|i: int| 0 <= i < recs.len() implies y@[i] == label_num(
                        (#[trigger] recs[i]).0,
                    ) by {
                        assert(ds4.data@[i]@ == surviving_tokens(recs[i].1));
                        assert(y@[i] == label_num(ds4.labels@[i]));
                    }
                    assert forall|i: int, k: int|
                        0 <= i < recs.len() && 0 <= k < voc.len()
                            implies #[trigger] matrix_rows(m)[i][k] == count_tok(
                        pipeline_rows(recs)[i],
                        voc[k],
                    ) by {
                        assert(ds4.data@[i]@ == surviving_tokens(recs[i].1));
                        assert(matrix_rows(m)[i][k] == count_tok(ds4.data@[i]@, voc[k]));
                        assert(pipeline_rows(recs)[i] == surviving_tokens(recs[i].1));
                    }
                }
            }
            res
        },
    }
}

/// Encodes one raw message against a frozen vocabulary, for inference:
/// strips ASCII punctuation, splits on whitespace, and counts vocabulary
/// tokens. This deliberately mirrors the deployed inference path, which
/// — unlike the training path — neither lowercases the text nor filters
/// stopwords; a vocabulary built from lowercased text therefore only
/// matches message text that is already lowercase. One deliberate
/// difference: the deployed plugin split on ASCII whitespace only, while
/// this encoder splits on Unicode whitespace exactly as the training
/// path does, so the two tokenize alike on every ASCII message and this
/// one also breaks tokens at non-ASCII space characters.
pub fn encode_message(text: &str, vocabulary: &Vocabulary) -> (m: Vec<usize>)
    requires
        vocabulary.wf(),
    ensures
        m@.len() == vocabulary@.len(),
        forall|k: int|
            0 <= k < vocabulary@.len() ==> m@[k] == count_tok(
                tokens_of(text@.filter(|c: char| !is_punct_char(c))),
                vocabulary@[k],
            ),
{
    let cs = chars_of(text);
    let stripped = strip_punct_chars(&cs);
    let tokens = tokenize_chars(&stripped);
    bag_of_words(tokens, vocabulary)
}

/// Law: the training pipeline is deterministic. Its loaded records, its
/// token rows, and its vocabulary are functions of the source text
/// alone, so byte-identical input yields an identical vocabulary mapping
/// and identical token sequences.
pub proof fn lemma_pipeline_deterministic(a: Seq<char>, b: Seq<char>)
    requires
        a == b,
    ensures
        parse_text_spec(a) == parse_text_spec(b),
        parse_text_spec(a) is Ok ==> pipeline_rows(parse_text_spec(a)->Ok_0) == pipeline_rows(
            parse_text_spec(b)->Ok_0,
        ),
        parse_text_spec(a) is Ok ==> pipeline_vocab(parse_text_spec(a)->Ok_0) == pipeline_vocab(
            parse_text_spec(b)->Ok_0,
        ),
{
}

/// Law: the pipeline keeps its columns aligned. The token rows hold one
/// row per loaded record, so together with the contracts of the stages
/// the label vector, the feature rows, and the loaded dataset always
/// have one entry per source record.
pub proof fn lemma_pipeline_alignment(recs: Seq<(Label, Seq<char>)>)
    ensures
        pipeline_rows(recs).len() == recs.len(),
{
}

} // verus!

//! The record types of the pipeline and the per-record transform stages:
//! lowercasing, punctuation stripping, and whitespace tokenization. Each
//! stage consumes its input and produces a new value; nothing is mutated
//! in place.

use vstd::prelude::*;
use crate::label::Label;
use crate::text::{
    chars_of, is_punct_char, lower_of, lower_str, str_views, strip_punct_chars, string_of,
    tokenize_chars, tokens_of,
};

verus! {

/// One loaded record: its label and its raw message text.
#[derive(Debug)]
pub struct RawData {
    pub label: Label,
    pub sms: String,
}

impl View for RawData {
    type V = (Label, Seq<char>);

    open spec fn view(&self) -> (Label, Seq<char>) {
        (self.label, self.sms@)
    }
}

/// One record's message after tokenization: its tokens, in text order.
#[derive(Debug, Default, Clone)]
pub struct TokenizedData {
    pub tokens: Vec<String>,
}

impl View for TokenizedData {
    type V = Seq<Seq<char>>;

    open spec fn view(&self) -> Seq<Seq<char>> {
        str_views(self.tokens@)
    }
}

impl RawData {
    /// Case-folds the message text; the label is untouched.
    pub fn lowercase(self) -> (r: Self)
        ensures
            r.label == self.label,
            r.sms@ == lower_of(self.sms@),
    {
        Self { label: self.label, sms: lower_str(self.sms.as_str()) }
    }

    /// Removes every ASCII punctuation character from the message text,
    /// preserving the order and identity of all remaining characters; the
    /// label is untouched.
    pub fn without_punctuaction(self) -> (r: Self)
        ensures
            r.label == self.label,
            r.sms@ == self.sms@.filter(|c: char| !is_punct_char(c)),
    {
        let cs = chars_of(self.sms.as_str());
        let stripped = strip_punct_chars(&cs);
        Self { label: self.label, sms: string_of(&stripped) }
    }
}

/// The loaded dataset: the records in source line order.
#[derive(Debug)]
pub struct RawDataset {
    pub data: Vec<RawData>,
}

impl View for RawDataset {
    type V = Seq<(Label, Seq<char>)>;

    open spec fn view(&self) -> Seq<(Label, Seq<char>)> {
        self.data@.map_values(|d: RawData| d@)
    }
}

/// The tokenized dataset: aligned label and token-sequence columns,
/// `labels[i]` and `data[i]` both describing record `i`.
#[derive(Debug)]
pub struct Dataset {
    pub labels: Vec<Label>,
    pub data: Vec<TokenizedData>,
}

impl Dataset {
    /// The token rows of the dataset, one per record.
    pub open spec fn rows(&self) -> Seq<Seq<Seq<char>>> {
        self.data@.map_values(|t: TokenizedData| t@)
    }

    /// Well-formedness: the label and token columns are aligned.
    pub open spec fn wf(&self) -> bool {
        self.labels@.len() == self.data@.len()
    }

    /// The number of records.
    pub fn len(&self) -> (n: usize)
        ensures
            n == self.data@.len(),
    {
        self.data.len()
    }

    /// Whether the dataset holds no records.
    pub fn is_empty(&self) -> (b: bool)
        ensures
            b == (self.data@.len() == 0),
    {
        self.len() == 0
    }
}

impl RawDataset {
    /// The number of records.
    pub fn len(&self) -> (n: usize)
        ensures
            n == self@.len(),
    {
        self.data.len()
    }

    /// Whether the dataset holds no records.
    pub fn is_empty(&self) -> (b: bool)
        ensures
            b == (self@.len() == 0),
    {
        self.len() == 0
    }

    /// Case-folds every record's message text; labels and record order
    /// are untouched.
    pub fn lowercase(self) -> (r: Self)
        ensures
            r@.len() == self@.len(),
            forall|i: int|
                0 <= i < self@.len() ==> #[trigger] r@[i].0 == self@[i].0 && r@[i].1 == lower_of(
                    self@[i].1,
                ),
    {
        let mut out: Vec<RawData> = Vec::new();
        let n = self.data.len();
        for i in 0..n
            invariant
                n == self.data@.len(),
                out@.len() == i,
                forall|k: int|
                    0 <= k < i ==> #[trigger] out@[k].label == self.data@[k].label
                        && out@[k].sms@ == lower_of(self.data@[k].sms@),
        {
            let d = &self.data[i];
            out.push(RawData { label: d.label, sms: lower_str(d.sms.as_str()) });
        }
        RawDataset { data: out }
    }

    /// Removes every ASCII punctuation character from every record's
    /// message text; labels and record order are untouched.
    pub fn without_punctuaction(self) -> (r: Self)
        ensures
            r@.len() == self@.len(),
            forall|i: int|
                0 <= i < self@.len() ==> #[trigger] r@[i].0 == self@[i].0 && r@[i].1
                    == self@[i].1.filter(|c: char| !is_punct_char(c)),
    {
        let mut out: Vec<RawData> = Vec::new();
        let n = self.data.len();
        for i in 0..n
            invariant
                n == self.data@.len(),
                out@.len() == i,
                forall|k: int|
                    0 <= k < i ==> #[trigger] out@[k].label == self.data@[k].label
                        && out@[k].sms@ == self.data@[k].sms@.filter(|c: char| !is_punct_char(c)),
        {
            let d = &self.data[i];
            let cs = chars_of(d.sms.as_str());
            let stripped = strip_punct_chars(&cs);
            out.push(RawData { label: d.label, sms: string_of(&stripped) });
        }
        RawDataset { data: out }
    }

    /// Splits every record's message text into whitespace-delimited
    /// tokens, preserving token order within each record and record order
    /// across the dataset; the label column stays aligned with the token
    /// column.
    pub fn tokenize(self) -> (d: Dataset)
        ensures
            d.wf(),
            d.labels@.len() == self@.len(),
            d.data@.len() == self@.len(),
            forall|i: int| 0 <= i < self@.len() ==> #[trigger] d.labels@[i] == self@[i].0,
            forall|i: int| 0 <= i < self@.len() ==> #[trigger] d.data@[i]@ == tokens_of(self@[i].1),
    {
        let mut labels: Vec<Label> = Vec::new();
        let mut data: Vec<TokenizedData> = Vec::new();
        let n = self.data.len();
        for i in 0..n
            invariant
                n == self.data@.len(),
                labels@.len() == i,
                data@.len() == i,
                forall|k: int| 0 <= k < i ==> #[trigger] labels@[k] == self.data@[k].label,
                forall|k: int|
                    0 <= k < i ==> #[trigger] data@[k]@ == tokens_of(self.data@[k].sms@),
        {
            let d = &self.data[i];
            let cs = chars_of(d.sms.as_str());
            let tokens = tokenize_chars(&cs);
            labels.push(d.label);
            data.push(TokenizedData { tokens });
        }
        Dataset { labels, data }
    }
}

} // verus!

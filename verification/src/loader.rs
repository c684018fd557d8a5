//! Loading a dataset from delimited text: one record per line, a label
//! field and a message field separated by a single tab. Record order in
//! the loaded dataset equals line order in the source; no line is dropped
//! or reordered.

use vstd::prelude::*;
use crate::errors::DataError;
use crate::label::{label_from_chars, label_of, Label};
use crate::records::{RawData, RawDataset};
use crate::text::{chars_of, string_of};

verus! {

/// Drops one trailing carriage return, if the line ends in one.
pub open spec fn strip_cr(l: Seq<char>) -> Seq<char> {
    if l.len() > 0 && l.last() == '\r' {
        l.drop_last()
    } else {
        l
    }
}

/// One step of a left-to-right line-splitting scan: the completed lines
/// so far and the line under construction, after consuming `s`. A line
/// ends at each newline, which is not part of it; a carriage return just
/// before the newline is dropped too.
pub open spec fn line_fold(s: Seq<char>) -> (Seq<Seq<char>>, Seq<char>)
    decreases s.len(),
{
    if s.len() == 0 {
        (Seq::empty(), Seq::empty())
    } else {
        let (ls, cur) = line_fold(s.drop_last());
        let c = s.last();
        if c == '\n' {
            (ls.push(strip_cr(cur)), Seq::empty())
        } else {
            (ls, cur.push(c))
        }
    }
}

/// The lines of `s`: text before each newline, and the text after the
/// last newline if any remains. A trailing newline adds no empty line.
pub open spec fn lines_of(s: Seq<char>) -> Seq<Seq<char>> {
    let (ls, cur) = line_fold(s);
    if cur.len() == 0 {
        ls
    } else {
        ls.push(cur)
    }
}

/// The index of the first tab in `l`, or `l.len()` if it has none.
pub open spec fn first_tab(l: Seq<char>) -> int
    decreases l.len(),
{
    if l.len() == 0 {
        0
    } else if l[0] == '\t' {
        0
    } else {
        1 + first_tab(l.subrange(1, l.len() as int))
    }
}

proof fn lemma_first_tab_at(l: Seq<char>, i: int)
    requires
        0 <= i <= l.len(),
        forall|j: int| 0 <= j < i ==> l[j] != '\t',
        i < l.len() ==> l[i] == '\t',
    ensures
        first_tab(l) == i,
    decreases i,
{
    if l.len() == 0 {
    } else if i == 0 {
    } else {
        let tail = l.subrange(1, l.len() as int);
        lemma_first_tab_at(tail, i - 1);
    }
}

/// The parse of one line: it must hold a tab; the text before the first
/// tab must spell a label; the text after it is the message.
pub open spec fn parse_line_spec(l: Seq<char>) -> Result<(Label, Seq<char>), DataError> {
    let ft = first_tab(l);
    if ft == l.len() {
        Err(DataError::FormatError)
    } else {
        match label_of(l.take(ft)) {
            Some(lab) => Ok((lab, l.skip(ft + 1))),
            None => Err(DataError::LabelError),
        }
    }
}

/// The parse of a sequence of lines, in order: the records of all lines,
/// or the first failure.
pub open spec fn parse_all(lines: Seq<Seq<char>>) -> Result<
    Seq<(Label, Seq<char>)>,
    DataError,
>
    decreases lines.len(),
{
    if lines.len() == 0 {
        Ok(Seq::empty())
    } else {
        match parse_all(lines.drop_last()) {
            Err(e) => Err(e),
            Ok(rs) => match parse_line_spec(lines.last()) {
                Err(e) => Err(e),
                Ok(r) => Ok(rs.push(r)),
            },
        }
    }
}

/// The parse of a whole source text: its lines, each parsed in order.
pub open spec fn parse_text_spec(s: Seq<char>) -> Result<Seq<(Label, Seq<char>)>, DataError> {
    parse_all(lines_of(s))
}

/// Law: a well-formed source loads one record per line. If the parse of
/// a text succeeds, the loaded dataset has exactly as many records as
/// the text has lines.
pub proof fn lemma_loaded_len(lines: Seq<Seq<char>>)
    requires
        parse_all(lines) is Ok,
    ensures
        parse_all(lines)->Ok_0.len() == lines.len(),
    decreases lines.len(),
{
    if lines.len() > 0 {
        lemma_loaded_len(lines.drop_last());
    }
}

/// An error in the parse of a prefix of the lines settles the parse of
/// them all.
proof fn lemma_parse_all_prefix_err(lines: Seq<Seq<char>>, k: int)
    requires
        0 <= k <= lines.len(),
        parse_all(lines.take(k)) is Err,
    ensures
        parse_all(lines) == parse_all(lines.take(k)),
    decreases lines.len(),
{
    if k == lines.len() {
        assert(lines.take(k) =~= lines);
    } else {
        assert(lines.drop_last().take(k) =~= lines.take(k));
        lemma_parse_all_prefix_err(lines.drop_last(), k);
    }
}

/// Splits the text into its lines.
fn split_lines(v: &Vec<char>) -> (out: Vec<Vec<char>>)
    ensures
        out@.map_values(|l: Vec<char>| l@) == lines_of(v@),
{
    let mut out: Vec<Vec<char>> = Vec::new();
    let mut cur: Vec<char> = Vec::new();
    for i in 0..v.len()
        invariant
            out@.map_values(|l: Vec<char>| l@) == line_fold(v@.take(i as int)).0,
            cur@ == line_fold(v@.take(i as int)).1,
    {
        proof {
            assert(v@.take(i + 1).drop_last() =~= v@.take(i as int));
            assert(v@.take(i + 1).last() == v@[i as int]);
        }
        let c = v[i];
        if c == '\n' {
            if cur.len() > 0 && cur[cur.len() - 1] == '\r' {
                cur.pop();
            }
            out.push(cur);
            cur = Vec::new();
            proof {
                assert(out@.map_values(|l: Vec<char>| l@) =~= line_fold(v@.take(i + 1)).0);
            }
        } else {
            cur.push(c);
        }
    }
    proof {
        assert(v@.take(v@.len() as int) =~= v@);
    }
    if cur.len() > 0 {
        out.push(cur);
        proof {
            assert(out@.map_values(|l: Vec<char>| l@) =~= lines_of(v@));
        }
    }
    out
}

/// Parses one line into a record: the text before the first tab is the
/// label, the text after it is the message. A line without a tab fails
/// with `FormatError`; an unrecognized label fails with `LabelError`.
fn parse_line(l: &Vec<char>) -> (r: Result<RawData, DataError>)
    ensures
        match parse_line_spec(l@) {
            Ok(rec) => r is Ok && r->Ok_0@ == rec,
            Err(e) => r == Result::<RawData, DataError>::Err(e),
        },
{
    let n = l.len();
    let mut t: usize = 0;
    while t < n && l[t] != '\t'
        invariant
            0 <= t <= n,
            n == l@.len(),
            forall|j: int| 0 <= j < t ==> l@[j] != '\t',
        decreases n - t,
    {
        t += 1;
    }
    proof {
        lemma_first_tab_at(l@, t as int);
    }
    if t == n {
        return Err(DataError::FormatError);
    }
    proof {
        assert(l@.take(t as int) =~= l@.subrange(0, t as int));
    }
    match label_from_chars(l, 0, t) {
        Err(e) => Err(e),
        Ok(lab) => {
            let mut sms_chars: Vec<char> = Vec::new();
            let mut j: usize = t + 1;
            while j < n
                invariant
                    t + 1 <= j <= n,
                    n == l@.len(),
                    sms_chars@ == l@.subrange(t + 1, j as int),
                decreases n - j,
            {
                sms_chars.push(l[j]);
                proof {
                    assert(l@.subrange(t + 1, j + 1) =~= l@.subrange(t + 1, j as int).push(
                        l@[j as int],
                    ));
                }
                j += 1;
            }
            proof {
                assert(l@.skip(t + 1) =~= l@.subrange(t + 1, n as int));
            }
            let sms = string_of(&sms_chars);
            Ok(RawData { label: lab, sms })
        },
    }
}

impl RawDataset {
    /// Loads a dataset from source text: one record per line, label and
    /// message separated by a tab. Succeeds exactly when every line is
    /// well-formed, and then holds one record per source line, in line
    /// order; otherwise fails with the first line's failure.
    pub fn from_text(text: &str) -> (r: Result<RawDataset, DataError>)
        ensures
            match parse_text_spec(text@) {
                Ok(recs) => r is Ok && r->Ok_0@ == recs,
                Err(e) => r is Err && r->Err_0 == e,
            },
            r is Ok ==> r->Ok_0@.len() == lines_of(text@).len(),
    {
        let cs = chars_of(text);
        let lines = split_lines(&cs);
        let ghost lseq = lines@.map_values(|l: Vec<char>| l@);
        let mut data: Vec<RawData> = Vec::new();
        let n = lines.len();
        for i in 0..n
            invariant
                n == lines@.len(),
                lseq == lines@.map_values(|l: Vec<char>| l@),
                lseq == lines_of(text@),
                parse_all(lseq.take(i as int)) is Ok,
                data@.map_values(|d: RawData| d@) == parse_all(lseq.take(i as int))->Ok_0,
        {
            proof {
                assert(lseq.take(i + 1).drop_last() =~= lseq.take(i as int));
                assert(lseq.take(i + 1).last() == lseq[i as int]);
            }
            match parse_line(&lines[i]) {
                Ok(rec) => {
                    data.push(rec);
                    proof {
                        assert(data@.map_values(|d: RawData| d@) =~= parse_all(
                            lseq.take(i + 1),
                        )->Ok_0);
                    }
                },
                Err(e) => {
                    proof {
                        lemma_parse_all_prefix_err(lseq, i + 1);
                    }
                    return Err(e);
                },
            }
        }
        proof {
            assert(lseq.take(n as int) =~= lseq);
            lemma_loaded_len(lseq);
        }
        Ok(RawDataset { data })
    }
}

} // verus!

//! The two-valued record label and its encodings: parsed exclusively from
//! the exact strings `ham` and `spam`, and mapped to the numeric targets
//! `0` and `1`.

use vstd::prelude::*;
use crate::errors::DataError;
use crate::text::chars_of;

verus! {

/// The tag of one record: ham (legitimate) or spam.
#[derive(Clone, Copy, Debug, PartialEq, Eq, Structural)]
pub enum Label {
    Ham,
    Spam,
}

/// The label that the character sequence `s` denotes: exactly `ham` or
/// `spam`, anything else denotes none.
pub open spec fn label_of(s: Seq<char>) -> Option<Label> {
    if s == seq!['h', 'a', 'm'] {
        Some(Label::Ham)
    } else if s == seq!['s', 'p', 'a', 'm'] {
        Some(Label::Spam)
    } else {
        None
    }
}

/// The numeric target of a label: ham is 0, spam is 1.
pub open spec fn label_num(l: Label) -> usize {
    match l {
        Label::Ham => 0,
        Label::Spam => 1,
    }
}

/// Parses a label from a character sequence starting at `from`:
/// `v[from..]` must spell exactly `ham` or `spam`.
pub(crate) fn label_from_chars(v: &Vec<char>, from: usize, to: usize) -> (r: Result<
    Label,
    DataError,
>)
    requires
        from <= to <= v@.len(),
    ensures
        match label_of(v@.subrange(from as int, to as int)) {
            Some(l) => r == Result::<Label, DataError>::Ok(l),
            None => r == Result::<Label, DataError>::Err(DataError::LabelError),
        },
{
    let ghost s = v@.subrange(from as int, to as int);
    if to - from == 3 && v[from] == 'h' && v[from + 1] == 'a' && v[from + 2] == 'm' {
        proof {
            assert(s =~= seq!['h', 'a', 'm']);
        }
        Ok(Label::Ham)
    } else if to - from == 4 && v[from] == 's' && v[from + 1] == 'p' && v[from + 2] == 'a' && v[from
        + 3] == 'm' {
        proof {
            assert(s =~= seq!['s', 'p', 'a', 'm']);
        }
        Ok(Label::Spam)
    } else {
        proof {
            if s == seq!['h', 'a', 'm'] {
                assert(s.len() == 3 && s[0] == 'h' && s[1] == 'a' && s[2] == 'm');
            }
            if s == seq!['s', 'p', 'a', 'm'] {
                assert(s.len() == 4 && s[0] == 's' && s[1] == 'p' && s[2] == 'a' && s[3] == 'm');
            }
        }
        Err(DataError::LabelError)
    }
}

impl Label {
    /// Parses a label from its exact string form: `ham` or `spam`; any
    /// other string is rejected with `LabelError`.
    pub fn from_str(s: &str) -> (r: Result<Label, DataError>)
        ensures
            match label_of(s@) {
                Some(l) => r == Result::<Label, DataError>::Ok(l),
                None => r == Result::<Label, DataError>::Err(DataError::LabelError),
            },
    {
        let v = chars_of(s);
        let n = v.len();
        proof {
            assert(v@.subrange(0, v@.len() as int) =~= s@);
        }
        label_from_chars(&v, 0, n)
    }

    /// Encodes the label as its numeric target: ham to 0, spam to 1.
    pub fn encode(self) -> (n: usize)
        ensures
            n == label_num(self),
    {
        match self {
            Label::Ham => 0,
            Label::Spam => 1,
        }
    }
}

/// Law: labels round-trip. The string `ham` parses to `Ham`, which
/// encodes to 0; `spam` parses to `Spam`, which encodes to 1; and a
/// string parses to some label only if it is exactly one of the two.
pub proof fn lemma_label_round_trip()
    ensures
        label_of(seq!['h', 'a', 'm']) == Some(Label::Ham) && label_num(Label::Ham) == 0,
        label_of(seq!['s', 'p', 'a', 'm']) == Some(Label::Spam) && label_num(Label::Spam) == 1,
        forall|s: Seq<char>|
            #[trigger] label_of(s) is None <==> (s != seq!['h', 'a', 'm'] && s != seq![
                's',
                'p',
                'a',
                'm',
            ]),
{
    assert(seq!['h', 'a', 'm'] != seq!['s', 'p', 'a', 'm']) by {
        assert(seq!['h', 'a', 'm'].len() == 3);
    }
}

} // verus!

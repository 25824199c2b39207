//! The packed form of a CIGAR: one 32-bit word per operation, the kind in the
//! low four bits and the length in the twenty-eight above them.

use crate::cigar::{cigar_valid, is_valid, CigarOp};
use vstd::prelude::*;

verus! {

/// A word whose low four bits name no operation kind.
#[derive(Clone, Copy, Debug, PartialEq, Eq, Structural)]
pub struct UnknownOp {
    /// The position of the word in its CIGAR.
    pub index: usize,
    /// The four bits found where a kind was expected.
    pub code: u32,
}

/// The kind bits of a packed operation.
pub open spec fn word_code(word: u32) -> u32 {
    word & 0xf
}

/// The length bits of a packed operation.
pub open spec fn word_length(word: u32) -> u32 {
    word >> 4
}

/// The operation that a word packs, if its kind bits name one.
pub open spec fn decode_word(word: u32) -> Option<CigarOp> {
    let code = word_code(word);
    let len = word_length(word);
    if code == 0 {
        Some(CigarOp::Match(len))
    } else if code == 1 {
        Some(CigarOp::Ins(len))
    } else if code == 2 {
        Some(CigarOp::Del(len))
    } else if code == 3 {
        Some(CigarOp::RefSkip(len))
    } else if code == 4 {
        Some(CigarOp::SoftClip(len))
    } else if code == 5 {
        Some(CigarOp::HardClip(len))
    } else if code == 6 {
        Some(CigarOp::Pad(len))
    } else if code == 7 {
        Some(CigarOp::Equal(len))
    } else if code == 8 {
        Some(CigarOp::Diff(len))
    } else if code == 9 {
        Some(CigarOp::Back(len))
    } else {
        None
    }
}

/// Every word of the sequence packs an operation.
pub open spec fn words_known(words: Seq<u32>) -> bool {
    forall|i: int| 0 <= i < words.len() ==> decode_word(words[i]) is Some
}

/// The operations that the words pack, in order. It says nothing of a
/// position whose word packs none: contracts use it under `words_known`.
pub open spec fn decode_words(words: Seq<u32>) -> Seq<CigarOp> {
    Seq::new(words.len(), |i: int| decode_word(words[i])->Some_0)
}

/// `e` reports the first word of `words` that packs no operation.
pub open spec fn is_first_unknown(words: Seq<u32>, e: UnknownOp) -> bool {
    &&& e.index < words.len()
    &&& decode_word(words[e.index as int]) is None
    &&& e.code == word_code(words[e.index as int])
    &&& forall|j: int| 0 <= j < e.index ==> decode_word(words[j]) is Some
}

impl CigarOp {
    /// Unpacks one operation, or returns `None` where the kind bits name none.
    pub fn from_raw(word: u32) -> (op: Option<CigarOp>)
        ensures
            op == decode_word(word),
    {
        let len: u32 = word >> 4;
        let code: u32 = word & 0xf;
        if code == 0 {
            Some(CigarOp::Match(len))
        } else if code == 1 {
            Some(CigarOp::Ins(len))
        } else if code == 2 {
            Some(CigarOp::Del(len))
        } else if code == 3 {
            Some(CigarOp::RefSkip(len))
        } else if code == 4 {
            Some(CigarOp::SoftClip(len))
        } else if code == 5 {
            Some(CigarOp::HardClip(len))
        } else if code == 6 {
            Some(CigarOp::Pad(len))
        } else if code == 7 {
            Some(CigarOp::Equal(len))
        } else if code == 8 {
            Some(CigarOp::Diff(len))
        } else if code == 9 {
            Some(CigarOp::Back(len))
        } else {
            None
        }
    }
}

/// Unpacks a whole CIGAR.
///
/// Succeeds exactly when every word packs an operation; otherwise reports
/// the first word that does not.
pub fn decode_cigar(words: &[u32]) -> (r: Result<Vec<CigarOp>, UnknownOp>)
    ensures
        words_known(words@) ==> r is Ok && r->Ok_0@ == decode_words(words@),
        !words_known(words@) ==> r is Err && is_first_unknown(words@, r->Err_0),
{
    let mut ops: Vec<CigarOp> = Vec::new();
    let mut i: usize = 0;
    while i < words.len()
        invariant
            i <= words.len(),
            ops@.len() == i,
            forall|j: int| 0 <= j < i ==> decode_word(words@[j]) is Some,
            forall|j: int| 0 <= j < i ==> ops@[j] == decode_word(words@[j])->Some_0,
        decreases words.len() - i,
    {
        match CigarOp::from_raw(words[i]) {
            Some(op) => {
                ops.push(op);
            },
            None => {
                return Err(UnknownOp { index: i, code: words[i] & 0xf });
            },
        }
        i = i + 1;
    }
    assert(ops@ =~= decode_words(words@));
    Ok(ops)
}

/// The words pack a valid CIGAR: each of them packs an operation, and the
/// operations form a valid CIGAR.
pub open spec fn raw_cigar_valid(words: Seq<u32>) -> bool {
    words_known(words) && cigar_valid(decode_words(words))
}

/// Decides whether a packed CIGAR is valid.
///
/// A CIGAR with a word that packs no operation is neither valid nor invalid:
/// the first such word is reported instead.
pub fn check_raw_cigar(words: &[u32]) -> (r: Result<bool, UnknownOp>)
    ensures
        words_known(words@) ==> r == Ok::<bool, UnknownOp>(raw_cigar_valid(words@)),
        !words_known(words@) ==> r is Err && is_first_unknown(words@, r->Err_0),
{
    match decode_cigar(words) {
        Ok(ops) => Ok(is_valid(ops.as_slice())),
        Err(e) => Err(e),
    }
}

} // verus!

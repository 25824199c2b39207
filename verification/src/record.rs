//! The validity rule applied to alignment records as `rust_htslib` holds them.
//!
//! A record keeps its name, its packed CIGAR and the rest of its variable
//! part in one buffer, and counts in its fixed part how long each piece is.
//! The packed CIGAR is read only from a record whose counts fit its buffer.

use crate::raw::{check_raw_cigar, is_first_unknown, raw_cigar_valid, words_known, UnknownOp};
use rust_htslib::bam::Record;
use vstd::prelude::*;

verus! {

/// An alignment record of `rust_htslib`, carried through as an opaque value.
#[verifier::external_type_specification]
#[verifier::external_body]
pub struct ExRecord(rust_htslib::bam::Record);

/// The packed CIGAR that a record holds: one word per operation, in order.
pub uninterp spec fn packed_cigar(record: Record) -> Seq<u32>;

/// The number of bytes that the record says its buffer holds.
pub uninterp spec fn buffer_len(record: Record) -> int;

/// The number of bytes at the head of the buffer that the record sets aside
/// for the read's name, terminator and padding included.
pub uninterp spec fn name_capacity(record: Record) -> nat;

/// `Record::cigar_len` of `rust_htslib`: the number of operations in the
/// record's CIGAR, read from the record's fixed-size part.
pub assume_specification[ rust_htslib::bam::Record::cigar_len ](record: &Record) -> (n: usize)
    ensures
        n == packed_cigar(*record).len(),
;

/// `Record::raw_cigar` of `rust_htslib`: the packed CIGAR as it lies in the
/// record's buffer.
///
/// The method skips the name's bytes and takes as many words as the record
/// counts operations, without looking at the buffer's length. The call is
/// therefore kept to records whose buffer is long enough for name and words
/// and whose words start on a word boundary. A record that was never filled
/// has no buffer at all; it counts no operation and is left out with the
/// records that count none. The length that the record states for its
/// buffer is taken at its word: it is the one that `rust_htslib` sets
/// whenever it fills or resizes the buffer.
pub assume_specification[ rust_htslib::bam::Record::raw_cigar ](record: &Record) -> (words: &[u32])
    requires
        packed_cigar(*record).len() > 0,
        name_capacity(*record) % 4 == 0,
        name_capacity(*record) + 4 * packed_cigar(*record).len() <= buffer_len(*record),
    ensures
        words@ == packed_cigar(*record),
;

/// The field `l_data` of the record that `Record::inner` of `rust_htslib`
/// hands out: the length that the record states for its buffer.
#[verifier::external_body]
fn stated_buffer_len(record: &Record) -> (n: i32)
    ensures
        n == buffer_len(*record),
{
    record.inner().l_data
}

/// The field `core.l_qname` of the record that `Record::inner` of
/// `rust_htslib` hands out: the bytes set aside for the read's name.
#[verifier::external_body]
fn stated_name_capacity(record: &Record) -> (n: u16)
    ensures
        n == name_capacity(*record),
{
    record.inner().core.l_qname
}

/// Whether a buffer of `buffer` bytes that opens with `name` bytes for the
/// read's name has room, right behind them, for `ops` packed operations on a
/// word boundary.
pub open spec fn words_fit(buffer: int, name: nat, ops: nat) -> bool {
    &&& name % 4 == 0
    &&& name + 4 * ops <= buffer
}

/// Decides whether the counts of a record fit its buffer.
pub fn layout_fits(buffer: i32, name: u16, ops: usize) -> (fits: bool)
    ensures
        fits == words_fit(buffer as int, name as nat, ops as nat),
{
    // No buffer of a 32-bit length holds more words than this.
    if buffer < 0 || ops > 0x1fff_ffff {
        return false;
    }
    name % 4 == 0 && name as u64 + 4 * (ops as u64) <= buffer as u64
}

/// Why a record could not be judged.
#[derive(Clone, Copy, Debug, PartialEq, Eq, Structural)]
pub enum RecordError {
    /// The record counts a name and operations that its buffer has no room
    /// for, or the operations would not start on a word boundary.
    Layout,
    /// A word of the CIGAR packs no operation.
    Unknown(UnknownOp),
}

/// The packed CIGAR of the record can be read: the counts fit the buffer.
pub open spec fn record_readable(record: Record) -> bool {
    words_fit(buffer_len(record), name_capacity(record), packed_cigar(record).len())
}

/// The record can be judged: its CIGAR can be read, and each of its words
/// packs an operation.
pub open spec fn record_well_formed(record: Record) -> bool {
    record_readable(record) && words_known(packed_cigar(record))
}

/// The record is kept: it can be judged, and its CIGAR is valid.
pub open spec fn record_valid(record: Record) -> bool {
    record_well_formed(record) && raw_cigar_valid(packed_cigar(record))
}

/// `e` says why `record` cannot be judged: its layout where the CIGAR cannot
/// be read, else the first word that packs no operation.
pub open spec fn is_record_error(record: Record, e: RecordError) -> bool {
    match e {
        RecordError::Layout => !record_readable(record),
        RecordError::Unknown(op) => record_readable(record) && is_first_unknown(
            packed_cigar(record),
            op,
        ),
    }
}

/// Decides whether a record is to be kept: whether its CIGAR is valid.
///
/// A record without operations is kept. A record that cannot be judged is
/// reported with the reason.
pub fn check_cigar(read: &Record) -> (r: Result<bool, RecordError>)
    ensures
        record_well_formed(*read) ==> r == Ok::<bool, RecordError>(record_valid(*read)),
        !record_well_formed(*read) ==> r is Err && is_record_error(*read, r->Err_0),
{
    let ops = read.cigar_len();
    if !layout_fits(stated_buffer_len(read), stated_name_capacity(read), ops) {
        return Err(RecordError::Layout);
    }
    // A record without operations may have no buffer to take the words from.
    if ops == 0 {
        return Ok(true);
    }
    match check_raw_cigar(read.raw_cigar()) {
        Ok(ok) => Ok(ok),
        Err(op) => Err(RecordError::Unknown(op)),
    }
}

} // verus!

//! Structural filtering of alignment records by their CIGAR.
//!
//! A CIGAR is the ordered list of operations that lays a read against a
//! reference. A record is kept when its CIGAR holds nothing but aligned runs
//! and indels that come after the alignment has started; clipping, padding
//! and skips are never kept.

pub mod cigar;
pub mod filter;
pub mod raw;
pub mod record;

pub use cigar::{is_valid, CigarOp};
pub use filter::{filter_records, MalformedRecord};
pub use raw::{check_raw_cigar, decode_cigar, UnknownOp};
pub use record::{check_cigar, layout_fits, RecordError};

//! Filtering a run of records: the valid ones are kept, in the order in
//! which they came.

use crate::record::{check_cigar, is_record_error, record_valid, record_well_formed, RecordError};
use rust_htslib::bam::Record;
use vstd::prelude::*;

verus! {

/// A record of a run that could not be judged.
#[derive(Clone, Copy, Debug, PartialEq, Eq, Structural)]
pub struct MalformedRecord {
    /// The position of the record in the run.
    pub position: usize,
    /// Why it could not be judged.
    pub error: RecordError,
}

/// Every record of the run can be judged.
pub open spec fn records_well_formed(records: Seq<Record>) -> bool {
    forall|i: int| 0 <= i < records.len() ==> record_well_formed(records[i])
}

/// The records of the run that are kept: the valid ones, in their order.
pub open spec fn kept(records: Seq<Record>) -> Seq<Record> {
    records.filter(|record: Record| record_valid(record))
}

/// `e` reports the first record of `records` that cannot be judged, and
/// why it cannot.
pub open spec fn is_first_malformed(records: Seq<Record>, e: MalformedRecord) -> bool {
    &&& e.position < records.len()
    &&& !record_well_formed(records[e.position as int])
    &&& is_record_error(records[e.position as int], e.error)
    &&& forall|j: int| 0 <= j < e.position ==> record_well_formed(records[j])
}

/// How `kept` treats the last record of a run.
proof fn lemma_kept_unfold(records: Seq<Record>)
    ensures
        records.len() == 0 ==> kept(records) == Seq::<Record>::empty(),
        records.len() > 0 ==> kept(records) == if record_valid(records.last()) {
            kept(records.drop_last()).push(records.last())
        } else {
            kept(records.drop_last())
        },
{
    reveal(Seq::filter);
    assert(records.len() == 0 ==> kept(records) =~= Seq::<Record>::empty());
}

/// Keeping from one record more: the record is appended if it is valid.
proof fn lemma_kept_step(records: Seq<Record>, i: int)
    requires
        0 <= i < records.len(),
    ensures
        kept(records.take(i + 1)) == if record_valid(records[i]) {
            kept(records.take(i)).push(records[i])
        } else {
            kept(records.take(i))
        },
{
    lemma_kept_unfold(records.take(i + 1));
    assert(records.take(i + 1).drop_last() =~= records.take(i));
}

/// A run of valid records is kept whole.
proof fn lemma_kept_of_valid(records: Seq<Record>)
    requires
        forall|i: int| 0 <= i < records.len() ==> record_valid(records[i]),
    ensures
        kept(records) == records,
    decreases records.len(),
{
    lemma_kept_unfold(records);
    if records.len() > 0 {
        lemma_kept_of_valid(records.drop_last());
        assert(records.drop_last().push(records.last()) =~= records);
    }
}

/// Every kept record is valid and comes from the run.
proof fn lemma_kept_members(records: Seq<Record>)
    ensures
        forall|k: int|
            0 <= k < kept(records).len() ==> record_valid(#[trigger] kept(records)[k])
                && records.contains(kept(records)[k]),
    decreases records.len(),
{
    lemma_kept_unfold(records);
    if records.len() > 0 {
        let front = records.drop_last();
        lemma_kept_members(front);
        assert forall|k: int| 0 <= k < kept(records).len() implies record_valid(
            #[trigger] kept(records)[k],
        ) && records.contains(kept(records)[k]) by {
            if k < kept(front).len() {
                let j = choose|j: int| 0 <= j < front.len() && front[j] == kept(front)[k];
                assert(records[j] == kept(records)[k]);
            } else {
                assert(records[records.len() - 1] == kept(records)[k]);
            }
        }
    }
}

/// Filtering is idempotent: what a filter kept can all be judged, and is
/// kept whole when it is filtered again.
pub proof fn lemma_filter_idempotent(records: Seq<Record>)
    ensures
        records_well_formed(kept(records)),
        kept(kept(records)) == kept(records),
{
    lemma_kept_members(records);
    lemma_kept_of_valid(kept(records));
}

/// `at` lists positions of `run` in increasing order, `chosen` holds the
/// records at those positions, and the positions listed are those of the
/// valid records of `run`, all of them.
pub open spec fn selects_valid(run: Seq<Record>, chosen: Seq<Record>, at: Seq<int>) -> bool {
    &&& at.len() == chosen.len()
    &&& forall|k: int|
        0 <= k < at.len() ==> 0 <= #[trigger] at[k] < run.len() && chosen[k] == run[at[k]]
    &&& forall|k: int, l: int| 0 <= k < l < at.len() ==> at[k] < at[l]
    &&& forall|i: int| 0 <= i < run.len() ==> (record_valid(#[trigger] run[i]) <==> at.contains(i))
}

/// The positions of the valid records of a run, in increasing order.
spec fn valid_positions(records: Seq<Record>) -> Seq<int>
    decreases records.len(),
{
    if records.len() == 0 {
        Seq::empty()
    } else if record_valid(records.last()) {
        valid_positions(records.drop_last()).push(records.len() - 1)
    } else {
        valid_positions(records.drop_last())
    }
}

proof fn lemma_valid_positions_select(records: Seq<Record>)
    ensures
        selects_valid(records, kept(records), valid_positions(records)),
    decreases records.len(),
{
    lemma_kept_unfold(records);
    if records.len() > 0 {
        let front = records.drop_last();
        let last = records.len() - 1;
        let at = valid_positions(records);
        let before = valid_positions(front);
        lemma_valid_positions_select(front);
        assert forall|k: int| 0 <= k < at.len() implies 0 <= #[trigger] at[k] < records.len()
            && kept(records)[k] == records[at[k]] by {
            if k < before.len() {
                assert(before[k] == at[k]);
                assert(front[before[k]] == records[before[k]]);
            }
        }
        assert forall|k: int, l: int| 0 <= k < l < at.len() implies at[k] < at[l] by {
            assert(at[k] == before[k]);
            if l < before.len() {
                assert(at[l] == before[l]);
            }
        }
        assert forall|i: int| 0 <= i < records.len() implies (record_valid(#[trigger] records[i])
            <==> at.contains(i)) by {
            if i < last {
                assert(front[i] == records[i]);
                if before.contains(i) {
                    let k = choose|k: int| 0 <= k < before.len() && before[k] == i;
                    assert(at[k] == i);
                }
                if at.contains(i) {
                    let k = choose|k: int| 0 <= k < at.len() && at[k] == i;
                    assert(before[k] == i);
                }
            } else {
                if record_valid(records[i]) {
                    assert(at[at.len() - 1] == i);
                }
                if at.contains(i) {
                    let k = choose|k: int| 0 <= k < at.len() && at[k] == i;
                    if !record_valid(records.last()) {
                        assert(before[k] < front.len());
                    }
                }
            }
        }
    }
}

/// Filtering preserves order: the kept records are the valid records of the
/// run, each taken once from its position, and they stand in the order in
/// which the run held them.
pub proof fn lemma_filter_preserves_order(records: Seq<Record>)
    ensures
        exists|at: Seq<int>| selects_valid(records, kept(records), at),
{
    lemma_valid_positions_select(records);
}

/// Filters a run of records.
///
/// Returns the valid records in the order in which they were given. A run
/// that holds a record that cannot be judged is not filtered: the first such
/// record is reported.
pub fn filter_records(records: Vec<Record>) -> (r: Result<Vec<Record>, MalformedRecord>)
    ensures
        records_well_formed(records@) ==> r is Ok && r->Ok_0@ == kept(records@),
        !records_well_formed(records@) ==> r is Err && is_first_malformed(records@, r->Err_0),
{
    let ghost all = records@;
    assert(all.len() == records.len());
    let mut out: Vec<Record> = Vec::new();
    let mut position: usize = 0;
    for record in it: records
        invariant
            it.seq() == all,
            all.len() <= usize::MAX,
            position == it.index(),
            out@ == kept(all.take(position as int)),
            forall|j: int| 0 <= j < position ==> record_well_formed(all[j]),
    {
        proof {
            lemma_kept_step(all, position as int);
        }
        match check_cigar(&record) {
            Ok(true) => {
                out.push(record);
            },
            Ok(false) => {},
            Err(error) => {
                return Err(MalformedRecord { position, error });
            },
        }
        position = position + 1;
    }
    assert(all.take(position as int) =~= all);
    Ok(out)
}

} // verus!

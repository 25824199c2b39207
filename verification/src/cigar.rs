//! CIGAR operations and the validity rule over a sequence of them.

use vstd::prelude::*;

verus! {

/// One CIGAR operation: its kind, and the number of bases it covers.
#[derive(Clone, Copy, Debug, PartialEq, Eq, Structural)]
pub enum CigarOp {
    /// Bases aligned to the reference, equal or not (`M`).
    Match(u32),
    /// Bases present in the read only (`I`).
    Ins(u32),
    /// Bases present in the reference only (`D`).
    Del(u32),
    /// A stretch of the reference that the read skips (`N`).
    RefSkip(u32),
    /// Bases of the read kept in the record but left out of the alignment (`S`).
    SoftClip(u32),
    /// Bases of the read that the record no longer holds (`H`).
    HardClip(u32),
    /// Silent padding against a padded reference (`P`).
    Pad(u32),
    /// Aligned bases that equal the reference (`=`).
    Equal(u32),
    /// Aligned bases that differ from the reference (`X`).
    Diff(u32),
    /// A step back along the reference (`B`).
    Back(u32),
}

impl CigarOp {
    /// The number of bases that the operation covers.
    pub open spec fn length(self) -> nat {
        match self {
            CigarOp::Match(n) => n as nat,
            CigarOp::Ins(n) => n as nat,
            CigarOp::Del(n) => n as nat,
            CigarOp::RefSkip(n) => n as nat,
            CigarOp::SoftClip(n) => n as nat,
            CigarOp::HardClip(n) => n as nat,
            CigarOp::Pad(n) => n as nat,
            CigarOp::Equal(n) => n as nat,
            CigarOp::Diff(n) => n as nat,
            CigarOp::Back(n) => n as nat,
        }
    }

    /// The operation walks read and reference in step: a match, an equal run or a mismatch.
    pub open spec fn is_aligned(self) -> bool {
        self is Match || self is Equal || self is Diff
    }

    /// The operation is an insertion or a deletion.
    pub open spec fn is_indel(self) -> bool {
        self is Ins || self is Del
    }

    /// The operation is of a kind that no kept record may hold: a skip, a clip,
    /// padding or a step back.
    pub open spec fn is_excluded(self) -> bool {
        !self.is_aligned() && !self.is_indel()
    }

    /// How far the operation moves the pileup cursor: its length if it is
    /// aligned, nothing otherwise.
    pub open spec fn advance(self) -> nat {
        if self.is_aligned() {
            self.length()
        } else {
            0
        }
    }
}

/// Where the pileup cursor stands after all of `ops`: the summed lengths of
/// the aligned operations among them.
pub open spec fn pileup_offset(ops: Seq<CigarOp>) -> nat
    decreases ops.len(),
{
    if ops.len() == 0 {
        0
    } else {
        pileup_offset(ops.drop_last()) + ops.last().advance()
    }
}

/// Whether the operation at position `i` of `ops` is acceptable where it stands.
///
/// An aligned operation always is. An indel is acceptable once the cursor has
/// left zero, that is once the operations before it have advanced it. Every
/// other kind is refused wherever it stands.
pub open spec fn op_permitted(ops: Seq<CigarOp>, i: int) -> bool {
    if ops[i].is_aligned() {
        true
    } else if ops[i].is_indel() {
        pileup_offset(ops.take(i)) != 0
    } else {
        false
    }
}

/// A CIGAR is valid when each of its operations is acceptable where it stands.
pub open spec fn cigar_valid(ops: Seq<CigarOp>) -> bool {
    forall|i: int| 0 <= i < ops.len() ==> op_permitted(ops, i)
}

/// The cursor after `i + 1` operations is the cursor after `i` of them, moved
/// by the operation at `i`.
pub proof fn lemma_offset_step(ops: Seq<CigarOp>, i: int)
    requires
        0 <= i < ops.len(),
    ensures
        pileup_offset(ops.take(i + 1)) == pileup_offset(ops.take(i)) + ops[i].advance(),
{
    assert(ops.take(i + 1).drop_last() =~= ops.take(i));
}

/// Some operation before position `i` of `ops` is an aligned run that covers
/// at least one base.
pub open spec fn aligned_before(ops: Seq<CigarOp>, i: int) -> bool {
    exists|j: int| 0 <= j < i && j < ops.len() && #[trigger] ops[j].advance() > 0
}

/// The cursor has left zero exactly when one of the operations was an aligned
/// run that covers at least one base.
pub proof fn lemma_offset_nonzero(ops: Seq<CigarOp>)
    ensures
        pileup_offset(ops) != 0 <==> aligned_before(ops, ops.len() as int),
    decreases ops.len(),
{
    if ops.len() > 0 {
        let front = ops.drop_last();
        lemma_offset_nonzero(front);
        if aligned_before(front, front.len() as int) {
            let j = choose|j: int| 0 <= j < front.len() && #[trigger] front[j].advance() > 0;
            assert(ops[j].advance() > 0);
        }
        if ops.last().advance() > 0 {
            assert(ops[ops.len() - 1].advance() > 0);
        }
        if aligned_before(ops, ops.len() as int) {
            let j = choose|j: int| 0 <= j < ops.len() && #[trigger] ops[j].advance() > 0;
            if j < front.len() {
                assert(front[j].advance() > 0);
            }
        }
    }
}

/// What `op_permitted` asks of position `i`, said without the cursor: the
/// operation is no skip, clip, padding or step back, and if it is an indel,
/// an aligned run that covers at least one base comes before it.
pub open spec fn op_well_placed(ops: Seq<CigarOp>, i: int) -> bool {
    &&& !ops[i].is_excluded()
    &&& ops[i].is_indel() ==> aligned_before(ops, i)
}

/// Validity without the cursor: a CIGAR is valid exactly when each of its
/// operations is well placed.
pub proof fn lemma_valid_closed_form(ops: Seq<CigarOp>)
    ensures
        cigar_valid(ops) <==> forall|i: int| 0 <= i < ops.len() ==> op_well_placed(ops, i),
{
    assert forall|i: int| 0 <= i < ops.len() implies (op_permitted(ops, i) <==> op_well_placed(
        ops,
        i,
    )) by {
        let front = ops.take(i);
        lemma_offset_nonzero(front);
        if aligned_before(front, i) {
            let j = choose|j: int| 0 <= j < i && #[trigger] front[j].advance() > 0;
            assert(ops[j].advance() > 0);
        }
        if aligned_before(ops, i) {
            let j = choose|j: int| 0 <= j < i && #[trigger] ops[j].advance() > 0;
            assert(front[j].advance() > 0);
        }
    }
}

/// A CIGAR made of matches, equal runs and mismatches alone is valid.
pub proof fn lemma_aligned_only_is_valid(ops: Seq<CigarOp>)
    requires
        forall|i: int| 0 <= i < ops.len() ==> ops[i].is_aligned(),
    ensures
        cigar_valid(ops),
{
}

/// A CIGAR that opens with an insertion or a deletion is not valid, whatever
/// follows.
pub proof fn lemma_leading_indel_is_invalid(ops: Seq<CigarOp>)
    requires
        ops.len() > 0,
        ops[0].is_indel(),
    ensures
        !cigar_valid(ops),
{
    assert(ops.take(0) =~= Seq::<CigarOp>::empty());
    assert(!op_permitted(ops, 0));
}

/// A CIGAR that holds a skip, a clip, padding or a step back anywhere is not
/// valid, whatever else it holds.
pub proof fn lemma_excluded_kind_is_invalid(ops: Seq<CigarOp>)
    requires
        exists|i: int| 0 <= i < ops.len() && ops[i].is_excluded(),
    ensures
        !cigar_valid(ops),
{
    let i = choose|i: int| 0 <= i < ops.len() && ops[i].is_excluded();
    assert(!op_permitted(ops, i));
}

/// Decides whether a CIGAR is valid.
///
/// The whole sequence is scanned with one running cursor; the empty CIGAR is
/// valid.
pub fn is_valid(cigar: &[CigarOp]) -> (ok: bool)
    ensures
        ok == cigar_valid(cigar@),
{
    // Wide enough for the sum of any slice of 32-bit lengths.
    let mut offset: u128 = 0;
    let mut ok: bool = true;
    let mut i: usize = 0;
    while i < cigar.len()
        invariant
            i <= cigar.len(),
            offset == pileup_offset(cigar@.take(i as int)),
            offset <= i * 0xffff_ffff,
            ok == (forall|j: int| 0 <= j < i ==> op_permitted(cigar@, j)),
        decreases cigar.len() - i,
    {
        let ghost before = ok;
        proof {
            lemma_offset_step(cigar@, i as int);
        }
        match cigar[i] {
            CigarOp::Match(len) | CigarOp::Equal(len) | CigarOp::Diff(len) => {
                offset = offset + len as u128;
            },
            CigarOp::Ins(_) | CigarOp::Del(_) => {
                if offset == 0 {
                    ok = false;
                }
            },
            _ => {
                ok = false;
            },
        }
        assert(ok == (before && op_permitted(cigar@, i as int)));
        i = i + 1;
    }
    ok
}

} // verus!

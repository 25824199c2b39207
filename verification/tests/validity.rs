use filter_cigars::{is_valid, CigarOp};

#[test]
fn single_match_is_valid() {
    assert!(is_valid(&[CigarOp::Match(100)]));
}

#[test]
fn leading_deletion_is_invalid() {
    assert!(!is_valid(&[CigarOp::Del(3), CigarOp::Match(97)]));
}

#[test]
fn leading_insertion_is_invalid() {
    assert!(!is_valid(&[CigarOp::Ins(3), CigarOp::Match(97)]));
}

#[test]
fn insertion_after_match_is_valid() {
    assert!(is_valid(&[CigarOp::Match(50), CigarOp::Ins(2), CigarOp::Match(48)]));
}

#[test]
fn deletion_after_match_is_valid() {
    assert!(is_valid(&[CigarOp::Match(50), CigarOp::Del(2), CigarOp::Match(48)]));
}

#[test]
fn soft_clip_is_invalid() {
    assert!(!is_valid(&[CigarOp::SoftClip(10), CigarOp::Match(90)]));
}

#[test]
fn empty_cigar_is_valid() {
    assert!(is_valid(&[]));
}

#[test]
fn aligned_kinds_alone_are_valid() {
    assert!(is_valid(&[CigarOp::Equal(7)]));
    assert!(is_valid(&[CigarOp::Diff(1)]));
    assert!(is_valid(&[
        CigarOp::Match(10),
        CigarOp::Equal(20),
        CigarOp::Diff(1),
        CigarOp::Match(0),
        CigarOp::Equal(4),
    ]));
}

#[test]
fn indels_after_equal_or_diff_are_valid() {
    assert!(is_valid(&[CigarOp::Equal(3), CigarOp::Del(1)]));
    assert!(is_valid(&[CigarOp::Diff(3), CigarOp::Ins(1)]));
}

#[test]
fn consecutive_insertions_after_a_match_are_valid() {
    assert!(is_valid(&[CigarOp::Match(5), CigarOp::Ins(2), CigarOp::Ins(3)]));
}

#[test]
fn consecutive_leading_deletions_are_invalid() {
    assert!(!is_valid(&[CigarOp::Del(1), CigarOp::Del(1)]));
    assert!(!is_valid(&[CigarOp::Del(1), CigarOp::Del(1), CigarOp::Match(10)]));
}

#[test]
fn lone_indel_is_invalid() {
    assert!(!is_valid(&[CigarOp::Ins(4)]));
    assert!(!is_valid(&[CigarOp::Del(4)]));
}

#[test]
fn empty_match_does_not_move_the_cursor() {
    assert!(!is_valid(&[CigarOp::Match(0), CigarOp::Ins(1)]));
    assert!(!is_valid(&[CigarOp::Equal(0), CigarOp::Diff(0), CigarOp::Del(1)]));
    assert!(is_valid(&[CigarOp::Match(0), CigarOp::Match(1), CigarOp::Ins(1)]));
}

#[test]
fn indels_do_not_move_the_cursor() {
    assert!(!is_valid(&[CigarOp::Ins(5), CigarOp::Del(5)]));
    assert!(!is_valid(&[CigarOp::Del(5), CigarOp::Ins(5)]));
}

#[test]
fn excluded_kinds_are_invalid_wherever_they_stand() {
    let excluded = [
        CigarOp::RefSkip(3),
        CigarOp::SoftClip(3),
        CigarOp::HardClip(3),
        CigarOp::Pad(3),
        CigarOp::Back(3),
    ];
    for op in excluded {
        assert!(!is_valid(&[op]), "{:?} alone", op);
        assert!(!is_valid(&[op, CigarOp::Match(10)]), "{:?} first", op);
        assert!(!is_valid(&[CigarOp::Match(10), op]), "{:?} last", op);
        assert!(
            !is_valid(&[CigarOp::Match(10), op, CigarOp::Match(10)]),
            "{:?} in the middle",
            op
        );
    }
}

#[test]
fn excluded_kind_of_length_zero_is_invalid() {
    assert!(!is_valid(&[CigarOp::Match(10), CigarOp::SoftClip(0)]));
}

#[test]
fn a_later_match_does_not_mend_an_earlier_fault() {
    assert!(!is_valid(&[CigarOp::Ins(1), CigarOp::Match(10), CigarOp::Ins(1)]));
    assert!(!is_valid(&[CigarOp::Match(10), CigarOp::HardClip(2), CigarOp::Match(10)]));
}

#[test]
fn cursor_does_not_wrap_past_32_bits() {
    let half: u32 = 0x8000_0000;
    assert!(is_valid(&[CigarOp::Match(half), CigarOp::Match(half), CigarOp::Ins(1)]));
    assert!(is_valid(&[
        CigarOp::Match(u32::MAX),
        CigarOp::Match(1),
        CigarOp::Del(1),
    ]));
}

#[test]
fn long_cigar_of_aligned_runs_and_indels_is_valid() {
    let mut cigar = Vec::new();
    for i in 0..1000u32 {
        cigar.push(CigarOp::Match(i + 1));
        cigar.push(CigarOp::Ins(1));
        cigar.push(CigarOp::Del(2));
    }
    assert!(is_valid(&cigar));
    cigar.push(CigarOp::Pad(1));
    assert!(!is_valid(&cigar));
}

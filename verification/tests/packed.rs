use filter_cigars::{check_raw_cigar, decode_cigar, CigarOp, UnknownOp};

fn pack(len: u32, code: u32) -> u32 {
    (len << 4) | code
}

#[test]
fn each_kind_is_unpacked_from_its_code() {
    assert_eq!(CigarOp::from_raw(pack(100, 0)), Some(CigarOp::Match(100)));
    assert_eq!(CigarOp::from_raw(pack(101, 1)), Some(CigarOp::Ins(101)));
    assert_eq!(CigarOp::from_raw(pack(102, 2)), Some(CigarOp::Del(102)));
    assert_eq!(CigarOp::from_raw(pack(103, 3)), Some(CigarOp::RefSkip(103)));
    assert_eq!(CigarOp::from_raw(pack(104, 4)), Some(CigarOp::SoftClip(104)));
    assert_eq!(CigarOp::from_raw(pack(105, 5)), Some(CigarOp::HardClip(105)));
    assert_eq!(CigarOp::from_raw(pack(106, 6)), Some(CigarOp::Pad(106)));
    assert_eq!(CigarOp::from_raw(pack(107, 7)), Some(CigarOp::Equal(107)));
    assert_eq!(CigarOp::from_raw(pack(108, 8)), Some(CigarOp::Diff(108)));
    assert_eq!(CigarOp::from_raw(pack(109, 9)), Some(CigarOp::Back(109)));
}

#[test]
fn unassigned_codes_unpack_to_nothing() {
    for code in 10..16u32 {
        assert_eq!(CigarOp::from_raw(pack(5, code)), None);
    }
}

#[test]
fn length_takes_the_upper_twenty_eight_bits() {
    assert_eq!(CigarOp::from_raw(0), Some(CigarOp::Match(0)));
    assert_eq!(CigarOp::from_raw(0x0000_0010), Some(CigarOp::Match(1)));
    assert_eq!(CigarOp::from_raw(0xffff_fff0), Some(CigarOp::Match(0x0fff_ffff)));
    assert_eq!(CigarOp::from_raw(0xffff_fff8), Some(CigarOp::Diff(0x0fff_ffff)));
    assert_eq!(CigarOp::from_raw(0xffff_ffff), None);
    assert_eq!(CigarOp::from_raw(0x0000_0641), Some(CigarOp::Ins(100)));
}

#[test]
fn decode_keeps_the_order_of_the_words() {
    let words = [pack(50, 0), pack(2, 1), pack(48, 0)];
    assert_eq!(
        decode_cigar(&words),
        Ok(vec![CigarOp::Match(50), CigarOp::Ins(2), CigarOp::Match(48)])
    );
}

#[test]
fn decode_of_nothing_is_nothing() {
    assert_eq!(decode_cigar(&[]), Ok(vec![]));
}

#[test]
fn decode_reports_the_first_unknown_word() {
    let words = [pack(5, 0), pack(1, 12), pack(1, 0), pack(1, 15)];
    assert_eq!(decode_cigar(&words), Err(UnknownOp { index: 1, code: 12 }));
    assert_eq!(decode_cigar(&[pack(7, 10)]), Err(UnknownOp { index: 0, code: 10 }));
    assert_eq!(
        decode_cigar(&[pack(7, 9), pack(7, 8), pack(0, 11)]),
        Err(UnknownOp { index: 2, code: 11 })
    );
}

#[test]
fn packed_match_is_valid() {
    assert_eq!(check_raw_cigar(&[pack(100, 0)]), Ok(true));
}

#[test]
fn packed_leading_deletion_is_invalid() {
    assert_eq!(check_raw_cigar(&[pack(3, 2), pack(97, 0)]), Ok(false));
}

#[test]
fn packed_insertion_after_match_is_valid() {
    assert_eq!(check_raw_cigar(&[pack(50, 0), pack(2, 1), pack(48, 0)]), Ok(true));
}

#[test]
fn packed_soft_clip_is_invalid() {
    assert_eq!(check_raw_cigar(&[pack(10, 4), pack(90, 0)]), Ok(false));
}

#[test]
fn packed_empty_cigar_is_valid() {
    assert_eq!(check_raw_cigar(&[]), Ok(true));
}

#[test]
fn packed_back_is_invalid() {
    assert_eq!(check_raw_cigar(&[pack(10, 0), pack(2, 9), pack(10, 0)]), Ok(false));
}

#[test]
fn packed_unknown_word_is_reported_even_after_a_fault() {
    assert_eq!(
        check_raw_cigar(&[pack(3, 2), pack(4, 13)]),
        Err(UnknownOp { index: 1, code: 13 })
    );
}

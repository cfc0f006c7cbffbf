use bits::{repack, BitWord, RepackError};

#[test]
fn test1() {
    let src = [0b_00101001_00010000_u16, 0b_00101001_00010000_u16];
    let dst = [0b_00101001_u8, 0b_00010000_u8, 0b_00101001u8, 0b_00010000_u8];
    let r: Vec<u8> = repack(&src, 16, 8, 32).unwrap();
    assert_eq!(dst, r.as_slice());
}

#[test]
fn test2() {
    let src = [0xFFu32, 0xFF];
    let dst = [0u8, 0, 0, 0xFF, 0, 0, 0, 0xFF];
    let r: Vec<u8> = repack(&src, 32, 8, 64).unwrap();
    assert_eq!(dst, r.as_slice());
}

#[test]
fn test3() {
    let src = [0xFFu32, 0xFF];
    let r: Result<Vec<u8>, RepackError> = repack(&src, 32, 7, 64);
    assert_eq!(r, Err(RepackError::LimitNotAligned));
}

#[test]
fn test4() {
    let src = [0xFFu32, 0xFF];
    let r: Result<Vec<u8>, RepackError> = repack(&src, 256, 7, 64);
    assert_eq!(r, Err(RepackError::SourceWidthExceeded));
}

#[test]
fn test5() {
    let src = [0xFFu32, 0xFF];
    let r: Result<Vec<u8>, RepackError> = repack(&src, 32, 16, 64);
    assert_eq!(r, Err(RepackError::DestWidthExceeded));
}

#[test]
fn test6() {
    let src = [0xFFu32, 0xFF];
    let r: Result<Vec<u8>, RepackError> = repack(&src, 0, 16, 64);
    assert_eq!(r, Err(RepackError::InvalidParameter));
}

#[test]
fn test7() {
    let src = [0xFFu32, 0xFF];
    let r: Result<Vec<u8>, RepackError> = repack(&src, 32, 0, 64);
    assert_eq!(r, Err(RepackError::InvalidParameter));
}

#[test]
fn test8() {
    let src = [0xFFu32, 0xFF];
    let r: Result<Vec<u8>, RepackError> = repack(&src, 32, 16, 0);
    assert_eq!(r, Err(RepackError::InvalidParameter));
}

#[test]
fn test9() {
    let src = [0b_00101001_u8, 0b_00010000_u8, 0b_00101001u8, 0b_00010000_u8];
    let dst = [0b_00101001_00010000_u16, 0b_00101001_00010000_u16];
    let r: Vec<u16> = repack(&src, 8, 16, 32).unwrap();
    assert_eq!(dst, r.as_slice());
}

#[test]
fn test10() {
    let src = [5u16, 5]; // [0b_101, 0b_101]
    let dst = [11u8, 4]; // [0b_1011, 0b_0100]
    let r: Vec<u8> = repack(&src, 3, 4, 8).unwrap();
    assert_eq!(dst, r.as_slice());
}

#[test]
fn narrowing_three_bits_into_two() {
    let src = [5u16, 5];
    let r: Vec<u8> = repack(&src, 3, 2, 6).unwrap();
    assert_eq!(r, vec![2u8, 3, 1]);
}

#[test]
fn exact_width_splits_words_msb_first() {
    let src = [0xABCDu16, 0x1234];
    let r: Vec<u8> = repack(&src, 16, 8, 32).unwrap();
    assert_eq!(r, vec![0xABu8, 0xCD, 0x12, 0x34]);
}

#[test]
fn padding_past_the_source_reads_zero() {
    let src = [0b111u8];
    let r: Vec<u8> = repack(&src, 3, 3, 12).unwrap();
    assert_eq!(r, vec![0b111u8, 0, 0, 0]);
}

#[test]
fn empty_source_gives_zeros() {
    let src: [u16; 0] = [];
    let r: Vec<u32> = repack(&src, 5, 4, 16).unwrap();
    assert_eq!(r, vec![0u32; 4]);
}

#[test]
fn limit_shorter_than_source_truncates() {
    let src = [0b1011u8, 0b1111];
    let r: Vec<u8> = repack(&src, 4, 2, 4).unwrap();
    assert_eq!(r, vec![0b10u8, 0b11]);
}

#[test]
fn high_bits_of_source_elements_are_ignored() {
    let src = [0b1111_0101u8, 0b1000_0010];
    let r: Vec<u8> = repack(&src, 4, 8, 8).unwrap();
    assert_eq!(r, vec![0b0101_0010u8]);
}

#[test]
fn full_sixty_four_bit_words() {
    let src = [0x0123_4567_89AB_CDEFu64];
    let r: Vec<u32> = repack(&src, 64, 32, 64).unwrap();
    assert_eq!(r, vec![0x0123_4567u32, 0x89AB_CDEF]);
    let back: Vec<u64> = repack(&r, 32, 64, 64).unwrap();
    assert_eq!(back, vec![0x0123_4567_89AB_CDEFu64]);
}

#[test]
fn output_length_is_limit_over_bits_out() {
    let src = [1u8, 2, 3];
    for (bits_out, limit) in [(1usize, 5usize), (2, 8), (3, 30), (8, 64)] {
        let r: Vec<u16> = repack(&src, 2, bits_out, limit).unwrap();
        assert_eq!(r.len(), limit / bits_out);
    }
}

#[test]
fn round_trip_with_padding_of_the_last_element() {
    let src = [5u16, 3, 6, 1, 7];
    let total = src.len() * 3;
    let mid: Vec<u8> = repack(&src, 3, 4, 16).unwrap();
    assert_eq!(mid.len(), 4);
    let back: Vec<u16> = repack(&mid, 4, 3, total).unwrap();
    assert_eq!(back, vec![5u16, 3, 6, 1, 7]);
}

#[test]
fn round_trip_keeps_only_significant_bits() {
    let src = [0xF5u8, 0x0A];
    let mid: Vec<u64> = repack(&src, 4, 1, 8).unwrap();
    assert_eq!(mid, vec![0u64, 1, 0, 1, 1, 0, 1, 0]);
    let back: Vec<u8> = repack(&mid, 1, 4, 8).unwrap();
    assert_eq!(back, vec![0x05u8, 0x0A]);
}

#[test]
fn zero_limit_is_checked_before_widths() {
    let src = [1u8];
    let r: Result<Vec<u8>, RepackError> = repack(&src, 100, 100, 0);
    assert_eq!(r, Err(RepackError::InvalidParameter));
}

#[test]
fn source_width_is_checked_before_destination_width() {
    let src = [1u8];
    let r: Result<Vec<u8>, RepackError> = repack(&src, 9, 9, 9);
    assert_eq!(r, Err(RepackError::SourceWidthExceeded));
}

#[test]
fn destination_width_is_checked_before_alignment() {
    let src = [1u16];
    let r: Result<Vec<u8>, RepackError> = repack(&src, 16, 9, 10);
    assert_eq!(r, Err(RepackError::DestWidthExceeded));
}

#[test]
fn word_operations_follow_their_widths() {
    assert_eq!(<u8 as BitWord>::width(), 8);
    assert_eq!(<u64 as BitWord>::width(), 64);
    assert_eq!(0b1100_0001u8.shift_left(&2), 0b0000_0100);
    assert_eq!(0xF0u8.shift_right(&4), 0x0F);
    assert_eq!(<u8 as BitWord>::from_u64(256), None);
    assert_eq!(<u8 as BitWord>::from_u64(255), Some(255u8));
    assert_eq!(<u16 as BitWord>::from_u64(0x1_0000), None);
    assert_eq!(0xFFFF_FFFFu32.to_u64(), 0xFFFF_FFFFu64);
    assert_eq!(0b1010u16.bit_and(&0b0110), 0b0010);
    assert_eq!(0b1010u32.bit_or(&0b0110), 0b1110);
}

use netframe::checksum::{append_fcs, header_checksum, seal_frame};

#[test]
fn checksum_of_known_words() {
    assert_eq!(
        header_checksum(&[0x00, 0x01, 0xf2, 0x03, 0xf4, 0xf5, 0xf6, 0xf7]),
        0x220d
    );
}

#[test]
fn checksum_of_nothing_is_all_ones() {
    assert_eq!(header_checksum(&[]), 0xffff);
    assert_eq!(header_checksum(&[0, 0, 0, 0]), 0xffff);
}

#[test]
fn checksum_of_all_ones_is_zero() {
    assert_eq!(header_checksum(&[0xff, 0xff]), 0);
    assert_eq!(header_checksum(&[0xff, 0xff, 0xff, 0xff]), 0);
}

#[test]
fn checksum_pads_an_odd_byte_with_zero() {
    assert_eq!(header_checksum(&[1]), 0xfeff);
    assert_eq!(header_checksum(&[1, 2, 3]), 0xfbfd);
    assert_eq!(header_checksum(&[1, 2, 3]), header_checksum(&[1, 2, 3, 0]));
}

#[test]
fn checksum_is_big_endian() {
    assert_eq!(header_checksum(&[0x12, 0x34]), 0xedcb);
    assert_eq!(header_checksum(&[0x34, 0x12]), 0xcbed);
}

#[test]
fn checksum_of_the_longest_input() {
    let bytes: Vec<u8> = (0..63u8).collect();
    assert_eq!(header_checksum(bytes.as_slice()), 0x1c3b);
}

#[test]
fn checksum_of_a_header_without_its_field() {
    let header = [
        0x45, 0x00, 0x00, 0x18, 0x12, 0x34, 0x40, 0x00, 0x08, 0x11, 1, 2, 3, 4, 5, 6, 7, 8,
    ];
    assert_eq!(header_checksum(&header), 0x508e);
}

#[test]
fn checksum_in_place_validates() {
    let header = [
        0x45, 0x00, 0x00, 0x18, 0x12, 0x34, 0x40, 0x00, 0x08, 0x11, 0x50, 0x8e, 1, 2, 3, 4, 5, 6,
        7, 8,
    ];
    assert_eq!(header_checksum(&header), 0);
}

#[test]
fn check_sequence_is_appended_big_endian() {
    assert_eq!(
        append_fcs(vec![1, 2], 0xa46dc91d),
        vec![1, 2, 0xa4, 0x6d, 0xc9, 0x1d]
    );
    assert_eq!(append_fcs(Vec::new(), 1), vec![0, 0, 0, 1]);
}

#[test]
fn sealed_frame_ends_in_its_crc() {
    let sealed = seal_frame(b"123456789".to_vec());
    assert_eq!(&sealed[..9], b"123456789");
    assert_eq!(&sealed[9..], &[0xcb, 0xf4, 0x39, 0x26]);
    assert_eq!(seal_frame(Vec::new()), vec![0, 0, 0, 0]);
    assert_eq!(seal_frame(vec![0]), vec![0, 0xd2, 0x02, 0xef, 0x8d]);
}

use netframe::error::{Error, Missing};
use netframe::readext::{ReadExt, SliceReader};

#[test]
fn reads_are_big_endian() {
    let raw = [0x12, 0x34, 0x56, 0x78, 0x9a, 0xbc, 0xde, 0xf0];
    let mut reader = SliceReader::new(&raw);
    assert_eq!(reader.position(), 0);
    assert_eq!(reader.read_u8(), Ok(0x12));
    assert_eq!(reader.position(), 1);
    assert_eq!(reader.read_be_u16(), Ok(0x3456));
    assert_eq!(reader.position(), 3);
    assert_eq!(reader.read_be_u32(), Ok(0x789abcde));
    assert_eq!(reader.position(), 7);
    assert_eq!(reader.read_u8(), Ok(0xf0));
    assert_eq!(reader.position(), 8);
    assert_eq!(reader.read_u8(), Err(Error::Truncated(Missing::Field)));
    assert_eq!(reader.position(), 8);
}

#[test]
fn read_exact_hands_out_the_next_bytes() {
    let raw = [1, 2, 3, 4, 5];
    let mut reader = SliceReader::new(&raw);
    assert_eq!(reader.read_exact(0), Ok(Vec::new()));
    assert_eq!(reader.read_exact(2), Ok(vec![1, 2]));
    assert_eq!(reader.remaining_len(), 3);
    assert_eq!(reader.read_exact(3), Ok(vec![3, 4, 5]));
    assert_eq!(reader.remaining_len(), 0);
    assert_eq!(reader.read_exact(0), Ok(Vec::new()));
    assert_eq!(reader.position(), 5);
}

#[test]
fn short_read_drains_the_source() {
    let raw = [1, 2, 3];
    let mut reader = SliceReader::new(&raw);
    assert_eq!(reader.read_be_u32(), Err(Error::Truncated(Missing::Field)));
    assert_eq!(reader.position(), 3);
    assert_eq!(reader.read_u8(), Err(Error::Truncated(Missing::Field)));

    let mut reader = SliceReader::new(&raw);
    assert_eq!(reader.read_be_u16(), Ok(0x0102));
    assert_eq!(reader.read_be_u16(), Err(Error::Truncated(Missing::Field)));
    assert_eq!(reader.position(), 3);

    let mut reader = SliceReader::new(&raw);
    assert_eq!(
        reader.read_exact(usize::MAX),
        Err(Error::Truncated(Missing::Field))
    );
    assert_eq!(reader.position(), 3);
}

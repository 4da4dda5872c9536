use bytes::Bytes;
use erlang_rt::compact_term::{read, CompactTerm};
use erlang_rt::reader::BinaryReader;
use erlang_rt::rterror::Error;

#[test]
fn reads_numbers_most_significant_byte_first() {
    let data = [0x12, 0x34, 0x56, 0x78, 0x9A, 0xBC, 0xDE];
    let mut r = BinaryReader::new(&data);
    assert_eq!(r.peek(1), Ok(0x34));
    assert_eq!(r.read_u8(), Ok(0x12));
    assert_eq!(r.read_u16be(), Ok(0x3456));
    assert_eq!(r.position(), 3);
    assert_eq!(r.read_u32be(), Ok(0x789A_BCDE));
    assert_eq!(r.remaining(), 0);
    assert_eq!(r.read_u8(), Err(Error::CodeLoadingPrematureEOF));
    assert_eq!(r.peek(0), Err(Error::CodeLoadingPrematureEOF));
}

#[test]
fn a_failed_read_does_not_move() {
    let data = [1, 2, 3];
    let mut r = BinaryReader::new(&data);
    assert_eq!(r.read_u32be(), Err(Error::CodeLoadingPrematureEOF));
    assert_eq!(r.position(), 0);
    assert_eq!(r.read_u8(), Ok(1));
    assert_eq!(r.read_u16be(), Ok(0x0203));
    assert_eq!(r.read_u16be(), Err(Error::CodeLoadingPrematureEOF));
    assert_eq!(r.read_bytes(1), Err(Error::CodeLoadingPrematureEOF));
    assert_eq!(r.read_bytes(0), Ok(vec![]));
}

#[test]
fn read_bytes_takes_exactly_what_is_asked() {
    let data = [1, 2, 3, 4, 5];
    let mut r = BinaryReader::new(&data);
    assert_eq!(r.read_bytes(2), Ok(vec![1, 2]));
    assert_eq!(r.read_bytes(3), Ok(vec![3, 4, 5]));
    assert_eq!(r.remaining(), 0);
}

#[test]
fn skip_stops_at_the_end() {
    let data = [1, 2, 3, 4, 5];
    let mut r = BinaryReader::new(&data);
    r.skip(2);
    assert_eq!(r.position(), 2);
    assert_eq!(r.read_u8(), Ok(3));
    r.skip(10);
    assert_eq!(r.position(), 5);
    assert_eq!(r.remaining(), 0);
}

#[test]
fn ensure_bytes_compares_with_the_sample() {
    let data = *b"FOR1rest";
    let mut r = BinaryReader::new(&data);
    assert_eq!(r.ensure_bytes(&Bytes::from_static(b"FOR2")), Err(Error::CodeLoadingBadSignature));
    assert_eq!(r.position(), 0);
    assert_eq!(r.ensure_bytes(&Bytes::from_static(b"FOR1")), Ok(()));
    assert_eq!(r.position(), 4);
    assert_eq!(r.ensure_bytes(&Bytes::from_static(b"rest!")), Err(Error::CodeLoadingPrematureEOF));
    assert_eq!(r.ensure_bytes(&Bytes::from_static(b"rest")), Ok(()));
    assert_eq!(r.ensure_bytes(&Bytes::new()), Ok(()));
    assert_eq!(r.position(), 8);
}

#[test]
fn strings_are_read_in_both_encodings() {
    let data = [0x41, 0xE9, 0xC3, 0xA9, 0x42, 0xFF];
    let mut r = BinaryReader::new(&data);
    assert_eq!(r.read_str_latin1(2), Ok("A\u{e9}".to_string()));
    assert_eq!(r.read_str_utf8(3), Ok("\u{e9}B".to_string()));
    assert_eq!(r.read_str_utf8(1), Err(Error::CodeLoadingBadString));
    assert_eq!(r.position(), 5);
    assert_eq!(r.read_str_utf8(2), Err(Error::CodeLoadingPrematureEOF));
    assert_eq!(r.read_str_latin1(2), Err(Error::CodeLoadingPrematureEOF));
    assert_eq!(r.read_str_latin1(1), Ok("\u{ff}".to_string()));
}

fn decode(bytes: &[u8]) -> (Result<CompactTerm, Error>, usize) {
    let mut r = BinaryReader::new(bytes);
    let t = read(&mut r);
    (t, r.position())
}

#[test]
fn four_bit_operands_of_every_kind() {
    assert_eq!(decode(&[0x50]), (Ok(CompactTerm::Literal(5)), 1));
    assert_eq!(decode(&[0xF1]), (Ok(CompactTerm::Integer(15)), 1));
    assert_eq!(decode(&[0x02]), (Ok(CompactTerm::Atom(0)), 1));
    assert_eq!(decode(&[0x33]), (Ok(CompactTerm::XReg(3)), 1));
    assert_eq!(decode(&[0x14]), (Ok(CompactTerm::YReg(1)), 1));
    assert_eq!(decode(&[0x75, 0xFF]), (Ok(CompactTerm::Label(7)), 1));
    assert_eq!(decode(&[0x26]), (Ok(CompactTerm::Character(2)), 1));
}

#[test]
fn eleven_bit_operands() {
    assert_eq!(decode(&[0x29, 0x2C]), (Ok(CompactTerm::Integer(300)), 2));
    assert_eq!(decode(&[0xEA, 0xFF]), (Ok(CompactTerm::Atom(2047)), 2));
    assert_eq!(decode(&[0x08, 0x10]), (Ok(CompactTerm::Literal(16)), 2));
    assert_eq!(decode(&[0x08]), (Err(Error::CodeLoadingPrematureEOF), 0));
}

#[test]
fn long_operands_are_big_endian() {
    assert_eq!(decode(&[0x18, 0x12, 0x34]), (Ok(CompactTerm::Literal(0x1234)), 3));
    assert_eq!(decode(&[0x39, 0x01, 0x00, 0x00]), (Ok(CompactTerm::Integer(65536)), 4));
    assert_eq!(
        decode(&[0xD8, 0xFF, 0xFF, 0xFF, 0xFF, 0xFF, 0xFF, 0xFF, 0xFF]),
        (Ok(CompactTerm::Literal(u64::MAX)), 9)
    );
    assert_eq!(decode(&[0x18, 0x12]), (Err(Error::CodeLoadingPrematureEOF), 0));
}

#[test]
fn long_integers_are_twos_complement() {
    assert_eq!(decode(&[0x19, 0xFF, 0xFF]), (Ok(CompactTerm::Integer(-1)), 3));
    assert_eq!(decode(&[0x19, 0x80, 0x00]), (Ok(CompactTerm::Integer(-32768)), 3));
    assert_eq!(decode(&[0x19, 0x7F, 0xFF]), (Ok(CompactTerm::Integer(32767)), 3));
    assert_eq!(
        decode(&[0xD9, 0x80, 0, 0, 0, 0, 0, 0, 0]),
        (Ok(CompactTerm::Integer(i64::MIN)), 9)
    );
    assert_eq!(
        decode(&[0xD9, 0x7F, 0xFF, 0xFF, 0xFF, 0xFF, 0xFF, 0xFF, 0xFF]),
        (Ok(CompactTerm::Integer(i64::MAX)), 9)
    );
    assert_eq!(
        decode(&[0xB9, 0xFF, 0xFF, 0xFF, 0xFF, 0xFF, 0xFF, 0xFE]),
        (Ok(CompactTerm::Integer(-2)), 8)
    );
}

#[test]
fn forms_that_are_not_decoded() {
    assert_eq!(decode(&[0x17]), (Err(Error::CodeLoadingCompactTerm), 0));
    assert_eq!(decode(&[0x47, 0x00]), (Err(Error::CodeLoadingCompactTerm), 0));
    assert_eq!(decode(&[0xF9, 0x00, 1, 2, 3]), (Err(Error::CodeLoadingCompactTerm), 0));
    assert_eq!(decode(&[]), (Err(Error::CodeLoadingPrematureEOF), 0));
}

use rvwire::config::WireConfig;
use rvwire::error::DecodeError;
use rvwire::reader::Reader;
use rvwire::rvtype::RVType;
use rvwire::wire_string::WireString;
use rvwire::writer::Writer;

fn cfg() -> WireConfig {
    WireConfig::new(2, 4, false)
}

#[test]
fn write_u16_little_endian_bytes() {
    let mut w = Writer::new(cfg());
    w.write_u16_le(0x1234);
    assert_eq!(w.bytes().as_slice(), &[0x34, 0x12]);
}

#[test]
fn write_u32_little_endian_bytes() {
    let mut w = Writer::new(cfg());
    w.write_u32_le(0xdead_beef);
    assert_eq!(w.bytes().as_slice(), &[0xef, 0xbe, 0xad, 0xde]);
}

#[test]
fn write_u64_little_endian_bytes() {
    let mut w = Writer::new(cfg());
    w.write_u64_le(0x0102_0304_0506_0708);
    assert_eq!(w.bytes().as_slice(), &[8, 7, 6, 5, 4, 3, 2, 1]);
}

#[test]
fn numeric_round_trips() {
    let mut w = Writer::new(cfg());
    w.write_u8(0xab);
    w.write_u16_le(0xbeef);
    w.write_u32_le(0x1234_5678);
    w.write_u64_le(u64::MAX - 7);
    w.write_bool(true);
    w.write_bool(false);
    let mut r = Reader::new(w.bytes().clone(), cfg());
    assert_eq!(r.read_u8().unwrap(), 0xab);
    assert_eq!(r.read_u16_le().unwrap(), 0xbeef);
    assert_eq!(r.read_u32_le().unwrap(), 0x1234_5678);
    assert_eq!(r.read_u64_le().unwrap(), u64::MAX - 7);
    assert_eq!(r.read_bool().unwrap(), true);
    assert_eq!(r.read_bool().unwrap(), false);
    assert_eq!(r.remaining(), 0);
}

#[test]
fn signed_round_trips() {
    let mut w = Writer::new(cfg());
    w.write_i8(-1);
    w.write_i16_le(-2);
    w.write_i32_le(-70000);
    w.write_i64_le(i64::MIN);
    w.write_i64_le(i64::MAX);
    let mut r = Reader::new(w.bytes().clone(), cfg());
    assert_eq!(r.read_i8().unwrap(), -1);
    assert_eq!(r.read_i16_le().unwrap(), -2);
    assert_eq!(r.read_i32_le().unwrap(), -70000);
    assert_eq!(r.read_i64_le().unwrap(), i64::MIN);
    assert_eq!(r.read_i64_le().unwrap(), i64::MAX);
    assert_eq!(r.remaining(), 0);
}

#[test]
fn signed_two_complement_bytes() {
    let mut w = Writer::new(cfg());
    w.write_i16_le(-2);
    assert_eq!(w.bytes().as_slice(), &[0xfe, 0xff]);
}

#[test]
fn short_read_is_io_failure() {
    let mut r = Reader::new(vec![1, 2, 3], cfg());
    assert_eq!(r.read_u32_le(), Err(DecodeError::IoFailure));
    // the failed read consumed nothing
    assert_eq!(r.remaining(), 3);
    assert_eq!(r.read_u16_le().unwrap(), 0x0201);
}

#[test]
fn read_and_remaining() {
    let mut r = Reader::new(vec![1, 2, 3, 4, 5], cfg());
    let first = r.read(2).unwrap();
    assert_eq!(first, vec![1, 2]);
    assert_eq!(r.remaining(), 3);
    assert_eq!(r.read(9), Err(DecodeError::IoFailure));
    let rest = r.read_remaining();
    assert_eq!(rest, vec![3, 4, 5]);
    assert_eq!(r.remaining(), 0);
}

#[test]
fn copy_new_preserves_configuration_and_starts_empty() {
    let mut w = Writer::new(WireConfig::new(4, 8, true));
    w.write_u8(9);
    let scratch = w.copy_new();
    assert_eq!(scratch.bytes().len(), 0);
    assert_eq!(scratch.string_length_size(), 4);
    assert_eq!(scratch.pid_size(), 8);
    assert_eq!(scratch.use_structure_header(), true);
}

#[test]
fn string_wire_bytes_two_byte_prefix() {
    // length counts the content plus the terminator; terminator is zero
    let s = WireString::from_text("AB");
    let mut w = Writer::new(cfg());
    s.write_to(&mut w);
    assert_eq!(w.bytes().as_slice(), &[0x03, 0x00, 0x41, 0x42, 0x00]);
}

#[test]
fn string_wire_bytes_four_byte_prefix() {
    let s = WireString::from_text("AB");
    let mut w = Writer::new(WireConfig::new(4, 4, false));
    s.write_to(&mut w);
    assert_eq!(w.bytes().as_slice(), &[0x03, 0x00, 0x00, 0x00, 0x41, 0x42, 0x00]);
}

#[test]
fn string_round_trip_both_widths() {
    for width in [2u8, 4u8] {
        let c = WireConfig::new(width, 4, false);
        let s = WireString::from_text("hello wire");
        let mut w = Writer::new(c);
        s.write_to(&mut w);
        let mut r = Reader::new(w.bytes().clone(), c);
        let mut out = WireString::new();
        out.extract_from(&mut r).unwrap();
        assert!(out.equals(&s));
        assert_eq!(r.remaining(), 0);
    }
}

#[test]
fn string_zero_length_declaration_is_malformed() {
    // a declared length of zero cannot even cover the terminator
    let mut r = Reader::new(vec![0x00, 0x00], cfg());
    let mut out = WireString::new();
    assert_eq!(
        out.extract_from(&mut r),
        Err(DecodeError::MalformedFrame { expected: 1, available: 0 })
    );
}

#[test]
fn string_truncated_content_is_io_failure() {
    let mut r = Reader::new(vec![0x05, 0x00, 0x41], cfg());
    let mut out = WireString::new();
    assert_eq!(out.extract_from(&mut r), Err(DecodeError::IoFailure));
}

#[test]
fn string_equality_is_content_equality() {
    let a = WireString::from_text("same");
    let b = WireString::from_bytes(vec![b's', b'a', b'm', b'e']);
    let c = WireString::from_text("other");
    assert!(a.equals(&b));
    assert!(!a.equals(&c));
    assert_eq!(a.len(), 4);
}

use rvwire::class_version_container::{format_u32, format_u64, format_usize, ClassVersionContainer};
use rvwire::config::WireConfig;
use rvwire::error::DecodeError;
use rvwire::reader::Reader;
use rvwire::rv_map::RvMap;
use rvwire::rvtype::RVType;
use rvwire::wire_string::WireString;
use rvwire::writer::Writer;

fn cfg() -> WireConfig {
    WireConfig::new(2, 4, false)
}

fn key(text: &str) -> WireString {
    WireString::from_text(text)
}

#[test]
fn empty_map_basics() {
    let m: RvMap<WireString, u16> = RvMap::new();
    assert_eq!(m.len(), 0);
    assert!(m.is_empty());
}

#[test]
fn insert_and_len() {
    let mut m: RvMap<WireString, u16> = RvMap::new();
    m.insert(key("a"), 1);
    m.insert(key("b"), 2);
    assert_eq!(m.len(), 2);
    assert!(!m.is_empty());
}

#[test]
fn insert_under_equal_key_replaces() {
    let mut m: RvMap<WireString, u16> = RvMap::new();
    m.insert(key("a"), 1);
    m.insert(key("a"), 9);
    assert_eq!(m.len(), 1);
    let mut expected: RvMap<WireString, u16> = RvMap::new();
    expected.insert(key("a"), 9);
    assert!(m.equals(&expected));
    let mut not_expected: RvMap<WireString, u16> = RvMap::new();
    not_expected.insert(key("a"), 1);
    assert!(!m.equals(&not_expected));
}

#[test]
fn equality_is_order_independent() {
    let mut m1: RvMap<WireString, u16> = RvMap::new();
    m1.insert(key("a"), 1);
    m1.insert(key("b"), 2);
    let mut m2: RvMap<WireString, u16> = RvMap::new();
    m2.insert(key("b"), 2);
    m2.insert(key("a"), 1);
    assert!(m1.equals(&m2));
    assert!(m2.equals(&m1));
}

#[test]
fn equality_detects_missing_key_and_unequal_value() {
    let mut m1: RvMap<WireString, u16> = RvMap::new();
    m1.insert(key("a"), 1);
    m1.insert(key("b"), 2);
    let mut missing: RvMap<WireString, u16> = RvMap::new();
    missing.insert(key("a"), 1);
    assert!(!m1.equals(&missing));
    let mut unequal: RvMap<WireString, u16> = RvMap::new();
    unequal.insert(key("a"), 1);
    unequal.insert(key("b"), 3);
    assert!(!m1.equals(&unequal));
}

#[test]
fn map_wire_bytes() {
    // count prefix, then each key and value through their own contract
    let mut m: RvMap<WireString, u16> = RvMap::new();
    m.insert(key("A"), 0x0102);
    let mut w = Writer::new(cfg());
    m.write_to(&mut w);
    assert_eq!(
        w.bytes().as_slice(),
        &[0x01, 0x00, 0x00, 0x00, 0x02, 0x00, 0x41, 0x00, 0x02, 0x01]
    );
}

#[test]
fn map_round_trip() {
    let mut m: RvMap<WireString, u16> = RvMap::new();
    m.insert(key("one"), 1);
    m.insert(key("two"), 2);
    m.insert(key("three"), 3);
    let mut w = Writer::new(cfg());
    m.write_to(&mut w);
    let mut r = Reader::new(w.bytes().clone(), cfg());
    let mut out: RvMap<WireString, u16> = RvMap::new();
    out.extract_from(&mut r).unwrap();
    assert!(out.equals(&m));
    assert_eq!(r.remaining(), 0);
}

#[test]
fn map_truncated_pair_is_io_failure() {
    // a count of one with no pair bytes behind it
    let mut r = Reader::new(vec![0x01, 0x00, 0x00, 0x00], cfg());
    let mut out: RvMap<WireString, u16> = RvMap::new();
    assert_eq!(out.extract_from(&mut r), Err(DecodeError::IoFailure));
}

#[test]
fn container_round_trip() {
    let mut c = ClassVersionContainer::new();
    c.set_version(key("Alpha"), 1);
    c.set_version(key("Beta"), 2);
    let mut w = Writer::new(cfg());
    c.write_to(&mut w);
    let mut r = Reader::new(w.bytes().clone(), cfg());
    let mut out = ClassVersionContainer::new();
    out.extract_from(&mut r).unwrap();
    assert!(out.equals(&c));
}

#[test]
fn container_equality_ignores_structure_version() {
    let mut c1 = ClassVersionContainer::new();
    c1.set_version(key("Alpha"), 1);
    let mut c2 = ClassVersionContainer::new();
    c2.structure_version = 5;
    c2.set_version(key("Alpha"), 1);
    assert!(c1.equals(&c2));
}

#[test]
fn container_format_to_string() {
    let c = ClassVersionContainer::new();
    assert_eq!(
        c.format_to_string(0),
        "ClassVersionContainer{\n\tStructureVersion: 0,\n\tClassVersions: {}\n}"
    );
    let mut c2 = ClassVersionContainer::new();
    c2.structure_version = 417;
    c2.set_version(key("Alpha"), 1);
    c2.set_version(key("Beta"), 30);
    assert_eq!(
        c2.format_to_string(1),
        "ClassVersionContainer{\n\t\tStructureVersion: 417,\n\t\tClassVersions: {\n\tAlpha: 1,\n\tBeta: 30,\n}\n\t}"
    );
}

#[test]
fn decimal_rendering_keeps_the_full_value() {
    assert_eq!(format_u64(0), "0");
    assert_eq!(format_u64(18446744073709551615), "18446744073709551615");
    assert_eq!(format_u32(4294967295), "4294967295");
    assert_eq!(format_usize(usize::MAX), usize::MAX.to_string());
}

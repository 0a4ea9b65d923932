use rvwire::any_object_holder::AnyObjectHolder;
use rvwire::bool_type::Bool;
use rvwire::class_version_container::ClassVersionContainer;
use rvwire::config::WireConfig;
use rvwire::error::DecodeError;
use rvwire::object::WireObject;
use rvwire::pid::PID;
use rvwire::reader::Reader;
use rvwire::registry::{register_object_holder_type, HoldableObject, Registry};
use rvwire::rvtype::RVType;
use rvwire::wire_string::WireString;
use rvwire::writer::Writer;

fn cfg2() -> WireConfig {
    WireConfig::new(2, 4, false)
}

fn bool_registry(id: &str, value: bool) -> Registry {
    let mut reg = Registry::new();
    register_object_holder_type(
        &mut reg,
        HoldableObject::new(WireString::from_text(id), WireObject::Bool(Bool::new(value))),
    );
    reg
}

#[test]
fn concrete_scenario_boolean_envelope_bytes() {
    // identifier "B", two-byte string length prefix, boolean true payload:
    // 02 00 'B' 00 | 05 00 00 00 | 01, with frame length 5 == 1 + 4
    let env = AnyObjectHolder::holding(HoldableObject::new(
        WireString::from_text("B"),
        WireObject::Bool(Bool::new(true)),
    ));
    let mut w = Writer::new(cfg2());
    env.write_to(&mut w);
    assert_eq!(
        w.bytes().as_slice(),
        &[0x02, 0x00, 0x42, 0x00, 0x05, 0x00, 0x00, 0x00, 0x01]
    );

    let reg = bool_registry("B", false);
    let mut holder = AnyObjectHolder::new();
    let mut r = Reader::new(w.bytes().clone(), cfg2());
    holder.extract_from(&mut r, &reg).unwrap();
    match &holder.object.value {
        WireObject::Bool(b) => assert_eq!(b.0, true),
        _ => panic!("decoded value has the wrong concrete type"),
    }
}

#[test]
fn envelope_round_trip_bool() {
    let env = AnyObjectHolder::holding(HoldableObject::new(
        WireString::from_text("B"),
        WireObject::Bool(Bool::new(true)),
    ));
    let mut w = Writer::new(cfg2());
    env.write_to(&mut w);
    let reg = bool_registry("B", false);
    let mut holder = AnyObjectHolder::new();
    let mut r = Reader::new(w.bytes().clone(), cfg2());
    holder.extract_from(&mut r, &reg).unwrap();
    assert!(holder.equals(&env));
    assert_eq!(r.remaining(), 0);
}

#[test]
fn envelope_round_trip_pid_both_widths() {
    for pid_size in [4u8, 8u8] {
        let c = WireConfig::new(2, pid_size, false);
        let env = AnyObjectHolder::holding(HoldableObject::new(
            WireString::from_text("PID"),
            WireObject::Pid(PID::new(0x0102_0304)),
        ));
        let mut w = Writer::new(c);
        env.write_to(&mut w);
        let mut reg = Registry::new();
        register_object_holder_type(
            &mut reg,
            HoldableObject::new(WireString::from_text("PID"), WireObject::Pid(PID::new(0))),
        );
        let mut holder = AnyObjectHolder::new();
        let mut r = Reader::new(w.bytes().clone(), c);
        holder.extract_from(&mut r, &reg).unwrap();
        assert!(holder.equals(&env));
    }
}

#[test]
fn envelope_round_trip_class_version_container() {
    let mut cvc = ClassVersionContainer::new();
    cvc.set_version(WireString::from_text("Alpha"), 3);
    cvc.set_version(WireString::from_text("Beta"), 7);
    let env = AnyObjectHolder::holding(HoldableObject::new(
        WireString::from_text("CVC"),
        WireObject::ClassVersions(cvc),
    ));
    let mut w = Writer::new(cfg2());
    env.write_to(&mut w);
    let mut reg = Registry::new();
    register_object_holder_type(
        &mut reg,
        HoldableObject::new(
            WireString::from_text("CVC"),
            WireObject::ClassVersions(ClassVersionContainer::new()),
        ),
    );
    let mut holder = AnyObjectHolder::new();
    let mut r = Reader::new(w.bytes().clone(), cfg2());
    holder.extract_from(&mut r, &reg).unwrap();
    assert!(holder.equals(&env));
}

#[test]
fn pid_encoding_length_follows_configuration() {
    let p = PID::new(0x0102_0304);
    let mut w4 = Writer::new(WireConfig::new(2, 4, false));
    p.write_to(&mut w4);
    assert_eq!(w4.bytes().as_slice(), &[0x04, 0x03, 0x02, 0x01]);
    let mut w8 = Writer::new(WireConfig::new(2, 8, false));
    p.write_to(&mut w8);
    assert_eq!(w8.bytes().as_slice(), &[0x04, 0x03, 0x02, 0x01, 0, 0, 0, 0]);
}

#[test]
fn unknown_identifier_fails_and_preserves_held_value() {
    let env = AnyObjectHolder::holding(HoldableObject::new(
        WireString::from_text("NOPE"),
        WireObject::Bool(Bool::new(true)),
    ));
    let mut w = Writer::new(cfg2());
    env.write_to(&mut w);

    let reg = bool_registry("B", false);
    let before = AnyObjectHolder::holding(HoldableObject::new(
        WireString::from_text("B"),
        WireObject::Bool(Bool::new(false)),
    ));
    let mut holder = before.copy();
    let mut r = Reader::new(w.bytes().clone(), cfg2());
    assert_eq!(
        holder.extract_from(&mut r, &reg),
        Err(DecodeError::UnknownTypeIdentifier(vec![b'N', b'O', b'P', b'E']))
    );
    assert!(holder.equals(&before));
}

#[test]
fn partial_payload_failure_preserves_held_value() {
    // identifier resolves, frame passes, but the container payload breaks
    // off after its count: the held value must stay what it was
    let mut reg = Registry::new();
    register_object_holder_type(
        &mut reg,
        HoldableObject::new(
            WireString::from_text("CVC"),
            WireObject::ClassVersions(ClassVersionContainer::new()),
        ),
    );
    let mut bytes: Vec<u8> = vec![0x04, 0x00, b'C', b'V', b'C', 0x00];
    bytes.extend_from_slice(&[0x08, 0x00, 0x00, 0x00]); // frame: 4 payload bytes + 4
    bytes.extend_from_slice(&[0x01, 0x00, 0x00, 0x00]); // count 1, then nothing

    let before = AnyObjectHolder::holding(HoldableObject::new(
        WireString::from_text("B"),
        WireObject::Bool(Bool::new(true)),
    ));
    let mut holder = before.copy();
    let mut r = Reader::new(bytes, cfg2());
    assert_eq!(
        holder.extract_from(&mut r, &reg),
        Err(DecodeError::IoFailure)
    );
    assert!(holder.equals(&before));
}

#[test]
fn frame_longer_than_available_bytes_is_malformed() {
    let reg = bool_registry("B", false);
    // identifier "B", frame length 10 declares 6 payload bytes, 1 present
    let bytes: Vec<u8> = vec![0x02, 0x00, 0x42, 0x00, 0x0a, 0x00, 0x00, 0x00, 0x01];
    let mut holder = AnyObjectHolder::new();
    let mut r = Reader::new(bytes, cfg2());
    assert_eq!(
        holder.extract_from(&mut r, &reg),
        Err(DecodeError::MalformedFrame { expected: 6, available: 1 })
    );
}

#[test]
fn frame_field_below_four_is_malformed() {
    let reg = bool_registry("B", false);
    let bytes: Vec<u8> = vec![0x02, 0x00, 0x42, 0x00, 0x03, 0x00, 0x00, 0x00, 0x01];
    let mut holder = AnyObjectHolder::new();
    let mut r = Reader::new(bytes, cfg2());
    assert_eq!(
        holder.extract_from(&mut r, &reg),
        Err(DecodeError::MalformedFrame { expected: 4, available: 3 })
    );
}

#[test]
fn truncated_identifier_is_io_failure() {
    let reg = bool_registry("B", false);
    let mut holder = AnyObjectHolder::new();
    let mut r = Reader::new(vec![0x09, 0x00, 0x41], cfg2());
    assert_eq!(
        holder.extract_from(&mut r, &reg),
        Err(DecodeError::IoFailure)
    );
}

#[test]
fn later_registration_replaces_earlier_one() {
    let mut reg = Registry::new();
    register_object_holder_type(
        &mut reg,
        HoldableObject::new(WireString::from_text("X"), WireObject::Bool(Bool::new(false))),
    );
    register_object_holder_type(
        &mut reg,
        HoldableObject::new(WireString::from_text("X"), WireObject::Pid(PID::new(0))),
    );
    // a payload of four bytes now decodes as a process identifier
    let env = AnyObjectHolder::holding(HoldableObject::new(
        WireString::from_text("X"),
        WireObject::Pid(PID::new(0xfeed)),
    ));
    let mut w = Writer::new(cfg2());
    env.write_to(&mut w);
    let mut holder = AnyObjectHolder::new();
    let mut r = Reader::new(w.bytes().clone(), cfg2());
    holder.extract_from(&mut r, &reg).unwrap();
    match &holder.object.value {
        WireObject::Pid(p) => assert_eq!(p.0, 0xfeed),
        _ => panic!("the later registration did not win"),
    }
}

#[test]
fn equality_across_concrete_types_is_false() {
    let a = AnyObjectHolder::holding(HoldableObject::new(
        WireString::from_text("B"),
        WireObject::Bool(Bool::new(true)),
    ));
    let b = AnyObjectHolder::holding(HoldableObject::new(
        WireString::from_text("P"),
        WireObject::Pid(PID::new(1)),
    ));
    assert!(!a.equals(&b));
}

#[test]
fn placeholder_envelope_equals_anything() {
    let fresh = AnyObjectHolder::new();
    let other = AnyObjectHolder::holding(HoldableObject::new(
        WireString::from_text("B"),
        WireObject::Bool(Bool::new(true)),
    ));
    assert!(fresh.equals(&other));
    assert!(!other.equals(&fresh));
}

#[test]
fn envelope_copy_is_equal_and_independent() {
    let env = AnyObjectHolder::holding(HoldableObject::new(
        WireString::from_text("B"),
        WireObject::Bool(Bool::new(true)),
    ));
    let copy = env.copy();
    assert!(copy.equals(&env));
}

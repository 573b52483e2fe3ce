use grug_rs::Arguments;
use grug_rs::GrugValue;
use grug_rs::grug_value::CustomValue;
use grug_rs::OpaqueGrugType;
use grug_rs::RawAddr;

#[test]
fn marshal_empty_list() {
    let mut args = Arguments::empty();
    let handles = args.into_raw();
    assert!(handles.is_empty());
    assert!(args.stored_c_strings.is_empty());
}

#[test]
fn marshal_round_trip_one_primitive() {
    let mut args = Arguments::new(vec![GrugValue::I32(7)]);
    let handles = args.into_raw();
    assert_eq!(handles, vec![OpaqueGrugType { raw: RawAddr::ValueSlot(0) }]);
    // Reading the slot back reaches the value's own storage at position 0.
    assert_eq!(args.values[0], GrugValue::I32(7));
}

#[test]
fn marshal_round_trip_two_primitives_in_order() {
    let mut args = Arguments::new(vec![GrugValue::Bool(true), GrugValue::F32(1.5f32.to_bits())]);
    let handles = args.into_raw();
    assert_eq!(
        handles,
        vec![
            OpaqueGrugType { raw: RawAddr::ValueSlot(0) },
            OpaqueGrugType { raw: RawAddr::ValueSlot(1) },
        ]
    );
    assert_eq!(args.values[0], GrugValue::Bool(true));
    assert_eq!(args.values[1], GrugValue::F32(1.5f32.to_bits()));
}

#[test]
fn marshal_string_goes_through_cache() {
    let mut args = Arguments::new(vec![GrugValue::String(String::from("hello, world"))]);
    let handles = args.into_raw();
    assert_eq!(handles, vec![OpaqueGrugType { raw: RawAddr::StringBuf(0) }]);
    assert_eq!(args.stored_c_strings, vec![String::from("hello, world")]);
}

#[test]
fn marshal_same_string_twice_shares_one_buffer() {
    let mut args = Arguments::new(vec![
        GrugValue::String(String::from("hi")),
        GrugValue::I32(3),
        GrugValue::String(String::from("hi")),
    ]);
    let handles = args.into_raw();
    assert_eq!(handles[0].raw, RawAddr::StringBuf(0));
    assert_eq!(handles[2].raw, RawAddr::StringBuf(0));
    assert_eq!(handles[0].raw, handles[2].raw);
    // One cached buffer, not two.
    assert_eq!(args.stored_c_strings, vec![String::from("hi")]);
}

#[test]
fn marshal_distinct_strings_get_distinct_buffers() {
    let mut args = Arguments::new(vec![
        GrugValue::String(String::from("a")),
        GrugValue::String(String::from("b")),
    ]);
    let handles = args.into_raw();
    assert_eq!(handles[0].raw, RawAddr::StringBuf(0));
    assert_eq!(handles[1].raw, RawAddr::StringBuf(1));
    assert_eq!(args.stored_c_strings, vec![String::from("a"), String::from("b")]);
}

#[test]
fn marshal_string_address_stable_across_calls() {
    let mut args = Arguments::new(vec![GrugValue::String(String::from("stay"))]);
    let first = args.into_raw();
    let second = args.into_raw();
    assert_eq!(first, second);
    assert_eq!(args.stored_c_strings, vec![String::from("stay")]);
}

#[test]
fn marshal_custom_passes_address_through() {
    let mut args = Arguments::new(vec![GrugValue::custom(0x1234)]);
    let handles = args.into_raw();
    assert_eq!(handles[0].raw, RawAddr::Custom(0x1234));
}

#[test]
fn custom_value_keeps_address() {
    let v = CustomValue::new(42);
    assert_eq!(v.raw, 42);
    let g = GrugValue::custom(42);
    assert_eq!(g, GrugValue::Custom(v));
}

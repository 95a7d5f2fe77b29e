use yarn_slinger_runtime::yarn_fn::{
    UntypedYarnFn, YarnBaseType, YarnFn, YarnFnType, YarnFnWrapper, YarnValue,
};

fn accept_yarn_fn<Marker>(_: impl YarnFn<Marker>) {}

fn no_params() -> bool {
    true
}

fn takes_string(_: String) -> bool {
    true
}

fn takes_string_ref(_: &String) -> bool {
    true
}

fn takes_str(_: &str) -> bool {
    true
}

fn takes_usize(_: usize) -> bool {
    true
}

fn takes_usize_ref(_: &usize) -> bool {
    true
}

fn takes_value(_: YarnValue) -> bool {
    true
}

fn takes_value_ref(_: &YarnValue) -> bool {
    true
}

fn takes_strings(s: String, _: String, _: &str, _: String, _: &str) -> String {
    s
}

#[allow(clippy::too_many_arguments)]
fn takes_many(
    _: String,
    _: usize,
    _: &str,
    _: &YarnValue,
    _: &bool,
    _: isize,
    _: String,
    _: &u32,
) -> bool {
    true
}

fn describe(name: &str, age: usize, is_cool: bool) -> String {
    format!("{name} is {age} years old and is {} cool", if is_cool { "very" } else { "not" })
}

fn halve(n: u8) -> u64 {
    (n / 2) as u64
}

fn huge() -> u64 {
    u64::MAX
}

#[test]
fn accepts_no_params() {
    accept_yarn_fn(no_params);
}

#[test]
fn accepts_string() {
    accept_yarn_fn(takes_string);
}

#[test]
fn accepts_string_ref() {
    accept_yarn_fn(takes_string_ref);
}

#[test]
fn accepts_string_slice() {
    accept_yarn_fn(takes_str);
}

#[test]
fn accepts_usize() {
    accept_yarn_fn(takes_usize);
}

#[test]
fn accepts_usize_ref() {
    accept_yarn_fn(takes_usize_ref);
}

#[test]
fn accepts_yarn_value() {
    accept_yarn_fn(takes_value);
}

#[test]
fn accepts_yarn_value_ref() {
    accept_yarn_fn(takes_value_ref);
}

#[test]
fn accepts_multiple_strings() {
    accept_yarn_fn(takes_strings);
}

#[test]
fn accepts_lots_of_different_types() {
    accept_yarn_fn(takes_many);
}

#[test]
fn call_converts_arguments_in_order() {
    let out = YarnFn::call(
        &describe,
        vec![
            YarnValue::String("Bob".to_string()),
            YarnValue::Number(42),
            YarnValue::Boolean(true),
        ],
    );
    assert_eq!(out, Some("Bob is 42 years old and is very cool".to_string()));
}

#[test]
fn call_rejects_wrong_arity() {
    let out = YarnFn::call(&describe, vec![YarnValue::String("Bob".to_string())]);
    assert_eq!(out, None);
}

#[test]
fn call_rejects_wrong_kind() {
    let out = YarnFn::call(
        &describe,
        vec![YarnValue::Number(1), YarnValue::Number(42), YarnValue::Boolean(true)],
    );
    assert_eq!(out, None);
}

#[test]
fn call_rejects_out_of_range_number() {
    assert_eq!(YarnFn::call(&halve, vec![YarnValue::Number(256)]), None);
    assert_eq!(YarnFn::call(&halve, vec![YarnValue::Number(-1)]), None);
    assert_eq!(YarnFn::call(&halve, vec![YarnValue::Number(255)]), Some(127));
    assert_eq!(YarnFn::call(&takes_usize, vec![YarnValue::Number(-3)]), None);
}

#[test]
fn erased_call_turns_result_into_value() {
    let wrapped = YarnFnWrapper::new(halve);
    assert_eq!(UntypedYarnFn::call(&wrapped, vec![YarnValue::Number(9)]), Some(YarnValue::Number(4)));
    let too_big = YarnFnWrapper::new(huge);
    assert_eq!(UntypedYarnFn::call(&too_big, vec![]), None);
}

#[test]
fn parameter_and_return_types_are_recorded() {
    let wrapped = YarnFnWrapper::new(takes_many);
    let types = UntypedYarnFn::parameter_types(&wrapped);
    assert_eq!(types.len(), 8);
    assert_eq!(types[0], YarnFnType { base: YarnBaseType::String, by_ref: false });
    assert_eq!(types[2], YarnFnType { base: YarnBaseType::Str, by_ref: true });
    assert_eq!(types[4], YarnFnType { base: YarnBaseType::Bool, by_ref: true });
    assert_eq!(types[7], YarnFnType { base: YarnBaseType::U32, by_ref: true });
    assert_eq!(
        UntypedYarnFn::return_type(&wrapped),
        YarnFnType { base: YarnBaseType::Bool, by_ref: false }
    );
}

#[test]
fn native_arguments_round_trip_through_values() {
    let direct = takes_strings(
        "a".to_string(),
        "b".to_string(),
        "c",
        "d".to_string(),
        "e",
    );
    let bridged = YarnFn::call(
        &takes_strings,
        vec![
            YarnValue::String("a".to_string()),
            YarnValue::String("b".to_string()),
            YarnValue::String("c".to_string()),
            YarnValue::String("d".to_string()),
            YarnValue::String("e".to_string()),
        ],
    );
    assert_eq!(bridged, Some(direct));
    let value = YarnValue::Boolean(false);
    assert_eq!(YarnFn::call(&|v: YarnValue| v == YarnValue::Boolean(false), vec![value]), Some(true));
}

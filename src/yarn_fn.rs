//! The typed bridge between host functions and scripts: a host function of
//! any accepted signature becomes a callable that takes a list of values,
//! checks their number and kinds, converts them, and converts its result back.
use vstd::prelude::*;
use std::marker::PhantomData;

verus! {

/// A value as scripts see it. Numbers are whole numbers.
#[derive(PartialEq, Eq, Debug)]
pub enum YarnValue {
    Number(i64),
    String(String),
    Boolean(bool),
}

impl YarnValue {
    /// A copy of the value.
    pub fn duplicate(&self) -> (r: YarnValue)
        ensures
            r == *self,
    {
        match self {
            YarnValue::Number(n) => YarnValue::Number(*n),
            YarnValue::String(s) => YarnValue::String(s.clone()),
            YarnValue::Boolean(b) => YarnValue::Boolean(*b),
        }
    }
}

/// The native types that a host function may take or return.
#[derive(PartialEq, Eq, Structural, Clone, Copy, Debug)]
pub enum YarnBaseType {
    Bool,
    I8,
    I16,
    I32,
    I64,
    I128,
    Isize,
    U8,
    U16,
    U32,
    U64,
    U128,
    Usize,
    String,
    Str,
    Value,
}

/// A parameter or result type: a native type, taken by value or by reference.
#[derive(PartialEq, Eq, Structural, Clone, Copy, Debug)]
pub struct YarnFnType {
    pub base: YarnBaseType,
    pub by_ref: bool,
}

/// A native type that a host function can take as a parameter. `Owned` is what
/// a script value converts to; `Item` is what the function receives, which may
/// borrow from it.
pub trait YarnFnParam {
    type Owned;

    type Item<'a>;

    spec fn spec_type() -> YarnFnType;

    /// What a script value converts to, if it converts.
    spec fn spec_convert(v: YarnValue) -> Option<Self::Owned>;

    /// The script value that stands for a native one.
    spec fn spec_value_of(o: Self::Owned) -> YarnValue;

    /// `item` is what the function receives for the converted value `o`.
    spec fn spec_lent(o: Self::Owned, item: Self::Item<'static>) -> bool;

    fn param_type() -> (r: YarnFnType)
        ensures
            r == Self::spec_type(),
    ;

    fn convert(v: &YarnValue) -> (r: Option<Self::Owned>)
        ensures
            r == Self::spec_convert(*v),
    ;

    fn lend<'a>(o: &'a Self::Owned) -> (r: Self::Item<'a>)
        ensures
            Self::spec_lent(*o, r),
    ;

    /// Whether a script value can stand for the native value `o`.
    spec fn spec_representable(o: Self::Owned) -> bool;

    /// A native value that a script value can stand for, turned into that
    /// script value, converts back to itself.
    proof fn lemma_round_trip(o: Self::Owned)
        requires
            Self::spec_representable(o),
        ensures
            Self::spec_convert(Self::spec_value_of(o)) == Some(o),
    ;
}

/// A native type that a host function can return.
pub trait IntoYarnValue {
    spec fn spec_return_type() -> YarnFnType;

    /// The script value of a result, or `None` where it does not fit a number.
    spec fn spec_into(self) -> Option<YarnValue>;

    fn return_type() -> (r: YarnFnType)
        ensures
            r == Self::spec_return_type(),
    ;

    fn into_yarn_value(self) -> (r: Option<YarnValue>)
        ensures
            r == self.spec_into(),
    ;
}

impl YarnFnParam for i8 {
    type Owned = i8;

    type Item<'a> = i8;

    open spec fn spec_type() -> YarnFnType {
        YarnFnType { base: YarnBaseType::I8, by_ref: false }
    }

    open spec fn spec_convert(v: YarnValue) -> Option<i8> {
        match v {
            YarnValue::Number(n) => if -128 <= n && n <= 127 {
                Some(n as i8)
            } else {
                None
            },
            _ => None,
        }
    }

    open spec fn spec_value_of(o: i8) -> YarnValue {
        YarnValue::Number(o as i64)
    }

    open spec fn spec_lent(o: i8, item: i8) -> bool {
        item == o
    }

    open spec fn spec_representable(o: i8) -> bool {
        true
    }

    fn param_type() -> (r: YarnFnType) {
        YarnFnType { base: YarnBaseType::I8, by_ref: false }
    }

    fn convert(v: &YarnValue) -> (r: Option<i8>) {
        match v {
            YarnValue::Number(n) => if -128 <= *n && *n <= 127 {
                Some(*n as i8)
            } else {
                None
            },
            _ => None,
        }
    }

    fn lend<'a>(o: &'a i8) -> (r: i8) {
        *o
    }

    proof fn lemma_round_trip(o: i8) {
    }
}

impl IntoYarnValue for i8 {
    open spec fn spec_return_type() -> YarnFnType {
        YarnFnType { base: YarnBaseType::I8, by_ref: false }
    }

    open spec fn spec_into(self) -> Option<YarnValue> {
        if true {
            Some(YarnValue::Number(self as i64))
        } else {
            None
        }
    }

    fn return_type() -> (r: YarnFnType) {
        YarnFnType { base: YarnBaseType::I8, by_ref: false }
    }

    fn into_yarn_value(self) -> (r: Option<YarnValue>) {
        if true {
            Some(YarnValue::Number(self as i64))
        } else {
            None
        }
    }
}

impl YarnFnParam for i16 {
    type Owned = i16;

    type Item<'a> = i16;

    open spec fn spec_type() -> YarnFnType {
        YarnFnType { base: YarnBaseType::I16, by_ref: false }
    }

    open spec fn spec_convert(v: YarnValue) -> Option<i16> {
        match v {
            YarnValue::Number(n) => if -32768 <= n && n <= 32767 {
                Some(n as i16)
            } else {
                None
            },
            _ => None,
        }
    }

    open spec fn spec_value_of(o: i16) -> YarnValue {
        YarnValue::Number(o as i64)
    }

    open spec fn spec_lent(o: i16, item: i16) -> bool {
        item == o
    }

    open spec fn spec_representable(o: i16) -> bool {
        true
    }

    fn param_type() -> (r: YarnFnType) {
        YarnFnType { base: YarnBaseType::I16, by_ref: false }
    }

    fn convert(v: &YarnValue) -> (r: Option<i16>) {
        match v {
            YarnValue::Number(n) => if -32768 <= *n && *n <= 32767 {
                Some(*n as i16)
            } else {
                None
            },
            _ => None,
        }
    }

    fn lend<'a>(o: &'a i16) -> (r: i16) {
        *o
    }

    proof fn lemma_round_trip(o: i16) {
    }
}

impl IntoYarnValue for i16 {
    open spec fn spec_return_type() -> YarnFnType {
        YarnFnType { base: YarnBaseType::I16, by_ref: false }
    }

    open spec fn spec_into(self) -> Option<YarnValue> {
        if true {
            Some(YarnValue::Number(self as i64))
        } else {
            None
        }
    }

    fn return_type() -> (r: YarnFnType) {
        YarnFnType { base: YarnBaseType::I16, by_ref: false }
    }

    fn into_yarn_value(self) -> (r: Option<YarnValue>) {
        if true {
            Some(YarnValue::Number(self as i64))
        } else {
            None
        }
    }
}

impl YarnFnParam for i32 {
    type Owned = i32;

    type Item<'a> = i32;

    open spec fn spec_type() -> YarnFnType {
        YarnFnType { base: YarnBaseType::I32, by_ref: false }
    }

    open spec fn spec_convert(v: YarnValue) -> Option<i32> {
        match v {
            YarnValue::Number(n) => if -2147483648 <= n && n <= 2147483647 {
                Some(n as i32)
            } else {
                None
            },
            _ => None,
        }
    }

    open spec fn spec_value_of(o: i32) -> YarnValue {
        YarnValue::Number(o as i64)
    }

    open spec fn spec_lent(o: i32, item: i32) -> bool {
        item == o
    }

    open spec fn spec_representable(o: i32) -> bool {
        true
    }

    fn param_type() -> (r: YarnFnType) {
        YarnFnType { base: YarnBaseType::I32, by_ref: false }
    }

    fn convert(v: &YarnValue) -> (r: Option<i32>) {
        match v {
            YarnValue::Number(n) => if -2147483648 <= *n && *n <= 2147483647 {
                Some(*n as i32)
            } else {
                None
            },
            _ => None,
        }
    }

    fn lend<'a>(o: &'a i32) -> (r: i32) {
        *o
    }

    proof fn lemma_round_trip(o: i32) {
    }
}

impl IntoYarnValue for i32 {
    open spec fn spec_return_type() -> YarnFnType {
        YarnFnType { base: YarnBaseType::I32, by_ref: false }
    }

    open spec fn spec_into(self) -> Option<YarnValue> {
        if true {
            Some(YarnValue::Number(self as i64))
        } else {
            None
        }
    }

    fn return_type() -> (r: YarnFnType) {
        YarnFnType { base: YarnBaseType::I32, by_ref: false }
    }

    fn into_yarn_value(self) -> (r: Option<YarnValue>) {
        if true {
            Some(YarnValue::Number(self as i64))
        } else {
            None
        }
    }
}

impl YarnFnParam for i64 {
    type Owned = i64;

    type Item<'a> = i64;

    open spec fn spec_type() -> YarnFnType {
        YarnFnType { base: YarnBaseType::I64, by_ref: false }
    }

    open spec fn spec_convert(v: YarnValue) -> Option<i64> {
        match v {
            YarnValue::Number(n) => if true {
                Some(n as i64)
            } else {
                None
            },
            _ => None,
        }
    }

    open spec fn spec_value_of(o: i64) -> YarnValue {
        YarnValue::Number(o as i64)
    }

    open spec fn spec_lent(o: i64, item: i64) -> bool {
        item == o
    }

    open spec fn spec_representable(o: i64) -> bool {
        true
    }

    fn param_type() -> (r: YarnFnType) {
        YarnFnType { base: YarnBaseType::I64, by_ref: false }
    }

    fn convert(v: &YarnValue) -> (r: Option<i64>) {
        match v {
            YarnValue::Number(n) => if true {
                Some(*n as i64)
            } else {
                None
            },
            _ => None,
        }
    }

    fn lend<'a>(o: &'a i64) -> (r: i64) {
        *o
    }

    proof fn lemma_round_trip(o: i64) {
    }
}

impl IntoYarnValue for i64 {
    open spec fn spec_return_type() -> YarnFnType {
        YarnFnType { base: YarnBaseType::I64, by_ref: false }
    }

    open spec fn spec_into(self) -> Option<YarnValue> {
        if true {
            Some(YarnValue::Number(self as i64))
        } else {
            None
        }
    }

    fn return_type() -> (r: YarnFnType) {
        YarnFnType { base: YarnBaseType::I64, by_ref: false }
    }

    fn into_yarn_value(self) -> (r: Option<YarnValue>) {
        if true {
            Some(YarnValue::Number(self as i64))
        } else {
            None
        }
    }
}

impl YarnFnParam for i128 {
    type Owned = i128;

    type Item<'a> = i128;

    open spec fn spec_type() -> YarnFnType {
        YarnFnType { base: YarnBaseType::I128, by_ref: false }
    }

    open spec fn spec_convert(v: YarnValue) -> Option<i128> {
        match v {
            YarnValue::Number(n) => if true {
                Some(n as i128)
            } else {
                None
            },
            _ => None,
        }
    }

    open spec fn spec_value_of(o: i128) -> YarnValue {
        YarnValue::Number(o as i64)
    }

    open spec fn spec_lent(o: i128, item: i128) -> bool {
        item == o
    }

    open spec fn spec_representable(o: i128) -> bool {
        i64::MIN as i128 <= o && o <= i64::MAX as i128
    }

    fn param_type() -> (r: YarnFnType) {
        YarnFnType { base: YarnBaseType::I128, by_ref: false }
    }

    fn convert(v: &YarnValue) -> (r: Option<i128>) {
        match v {
            YarnValue::Number(n) => if true {
                Some(*n as i128)
            } else {
                None
            },
            _ => None,
        }
    }

    fn lend<'a>(o: &'a i128) -> (r: i128) {
        *o
    }

    proof fn lemma_round_trip(o: i128) {
    }
}

impl IntoYarnValue for i128 {
    open spec fn spec_return_type() -> YarnFnType {
        YarnFnType { base: YarnBaseType::I128, by_ref: false }
    }

    open spec fn spec_into(self) -> Option<YarnValue> {
        if i64::MIN as i128 <= self && self <= i64::MAX as i128 {
            Some(YarnValue::Number(self as i64))
        } else {
            None
        }
    }

    fn return_type() -> (r: YarnFnType) {
        YarnFnType { base: YarnBaseType::I128, by_ref: false }
    }

    fn into_yarn_value(self) -> (r: Option<YarnValue>) {
        if i64::MIN as i128 <= self && self <= i64::MAX as i128 {
            Some(YarnValue::Number(self as i64))
        } else {
            None
        }
    }
}

impl YarnFnParam for isize {
    type Owned = isize;

    type Item<'a> = isize;

    open spec fn spec_type() -> YarnFnType {
        YarnFnType { base: YarnBaseType::Isize, by_ref: false }
    }

    open spec fn spec_convert(v: YarnValue) -> Option<isize> {
        match v {
            YarnValue::Number(n) => if isize::MIN <= n && n <= isize::MAX {
                Some(n as isize)
            } else {
                None
            },
            _ => None,
        }
    }

    open spec fn spec_value_of(o: isize) -> YarnValue {
        YarnValue::Number(o as i64)
    }

    open spec fn spec_lent(o: isize, item: isize) -> bool {
        item == o
    }

    open spec fn spec_representable(o: isize) -> bool {
        true
    }

    fn param_type() -> (r: YarnFnType) {
        YarnFnType { base: YarnBaseType::Isize, by_ref: false }
    }

    fn convert(v: &YarnValue) -> (r: Option<isize>) {
        match v {
            YarnValue::Number(n) => if isize::MIN as i64 <= *n && *n <= isize::MAX as i64 {
                Some(*n as isize)
            } else {
                None
            },
            _ => None,
        }
    }

    fn lend<'a>(o: &'a isize) -> (r: isize) {
        *o
    }

    proof fn lemma_round_trip(o: isize) {
    }
}

impl IntoYarnValue for isize {
    open spec fn spec_return_type() -> YarnFnType {
        YarnFnType { base: YarnBaseType::Isize, by_ref: false }
    }

    open spec fn spec_into(self) -> Option<YarnValue> {
        if true {
            Some(YarnValue::Number(self as i64))
        } else {
            None
        }
    }

    fn return_type() -> (r: YarnFnType) {
        YarnFnType { base: YarnBaseType::Isize, by_ref: false }
    }

    fn into_yarn_value(self) -> (r: Option<YarnValue>) {
        if true {
            Some(YarnValue::Number(self as i64))
        } else {
            None
        }
    }
}

impl YarnFnParam for u8 {
    type Owned = u8;

    type Item<'a> = u8;

    open spec fn spec_type() -> YarnFnType {
        YarnFnType { base: YarnBaseType::U8, by_ref: false }
    }

    open spec fn spec_convert(v: YarnValue) -> Option<u8> {
        match v {
            YarnValue::Number(n) => if 0 <= n && n <= 255 {
                Some(n as u8)
            } else {
                None
            },
            _ => None,
        }
    }

    open spec fn spec_value_of(o: u8) -> YarnValue {
        YarnValue::Number(o as i64)
    }

    open spec fn spec_lent(o: u8, item: u8) -> bool {
        item == o
    }

    open spec fn spec_representable(o: u8) -> bool {
        true
    }

    fn param_type() -> (r: YarnFnType) {
        YarnFnType { base: YarnBaseType::U8, by_ref: false }
    }

    fn convert(v: &YarnValue) -> (r: Option<u8>) {
        match v {
            YarnValue::Number(n) => if 0 <= *n && *n <= 255 {
                Some(*n as u8)
            } else {
                None
            },
            _ => None,
        }
    }

    fn lend<'a>(o: &'a u8) -> (r: u8) {
        *o
    }

    proof fn lemma_round_trip(o: u8) {
    }
}

impl IntoYarnValue for u8 {
    open spec fn spec_return_type() -> YarnFnType {
        YarnFnType { base: YarnBaseType::U8, by_ref: false }
    }

    open spec fn spec_into(self) -> Option<YarnValue> {
        if true {
            Some(YarnValue::Number(self as i64))
        } else {
            None
        }
    }

    fn return_type() -> (r: YarnFnType) {
        YarnFnType { base: YarnBaseType::U8, by_ref: false }
    }

    fn into_yarn_value(self) -> (r: Option<YarnValue>) {
        if true {
            Some(YarnValue::Number(self as i64))
        } else {
            None
        }
    }
}

impl YarnFnParam for u16 {
    type Owned = u16;

    type Item<'a> = u16;

    open spec fn spec_type() -> YarnFnType {
        YarnFnType { base: YarnBaseType::U16, by_ref: false }
    }

    open spec fn spec_convert(v: YarnValue) -> Option<u16> {
        match v {
            YarnValue::Number(n) => if 0 <= n && n <= 65535 {
                Some(n as u16)
            } else {
                None
            },
            _ => None,
        }
    }

    open spec fn spec_value_of(o: u16) -> YarnValue {
        YarnValue::Number(o as i64)
    }

    open spec fn spec_lent(o: u16, item: u16) -> bool {
        item == o
    }

    open spec fn spec_representable(o: u16) -> bool {
        true
    }

    fn param_type() -> (r: YarnFnType) {
        YarnFnType { base: YarnBaseType::U16, by_ref: false }
    }

    fn convert(v: &YarnValue) -> (r: Option<u16>) {
        match v {
            YarnValue::Number(n) => if 0 <= *n && *n <= 65535 {
                Some(*n as u16)
            } else {
                None
            },
            _ => None,
        }
    }

    fn lend<'a>(o: &'a u16) -> (r: u16) {
        *o
    }

    proof fn lemma_round_trip(o: u16) {
    }
}

impl IntoYarnValue for u16 {
    open spec fn spec_return_type() -> YarnFnType {
        YarnFnType { base: YarnBaseType::U16, by_ref: false }
    }

    open spec fn spec_into(self) -> Option<YarnValue> {
        if true {
            Some(YarnValue::Number(self as i64))
        } else {
            None
        }
    }

    fn return_type() -> (r: YarnFnType) {
        YarnFnType { base: YarnBaseType::U16, by_ref: false }
    }

    fn into_yarn_value(self) -> (r: Option<YarnValue>) {
        if true {
            Some(YarnValue::Number(self as i64))
        } else {
            None
        }
    }
}

impl YarnFnParam for u32 {
    type Owned = u32;

    type Item<'a> = u32;

    open spec fn spec_type() -> YarnFnType {
        YarnFnType { base: YarnBaseType::U32, by_ref: false }
    }

    open spec fn spec_convert(v: YarnValue) -> Option<u32> {
        match v {
            YarnValue::Number(n) => if 0 <= n && n <= 4294967295 {
                Some(n as u32)
            } else {
                None
            },
            _ => None,
        }
    }

    open spec fn spec_value_of(o: u32) -> YarnValue {
        YarnValue::Number(o as i64)
    }

    open spec fn spec_lent(o: u32, item: u32) -> bool {
        item == o
    }

    open spec fn spec_representable(o: u32) -> bool {
        true
    }

    fn param_type() -> (r: YarnFnType) {
        YarnFnType { base: YarnBaseType::U32, by_ref: false }
    }

    fn convert(v: &YarnValue) -> (r: Option<u32>) {
        match v {
            YarnValue::Number(n) => if 0 <= *n && *n <= 4294967295 {
                Some(*n as u32)
            } else {
                None
            },
            _ => None,
        }
    }

    fn lend<'a>(o: &'a u32) -> (r: u32) {
        *o
    }

    proof fn lemma_round_trip(o: u32) {
    }
}

impl IntoYarnValue for u32 {
    open spec fn spec_return_type() -> YarnFnType {
        YarnFnType { base: YarnBaseType::U32, by_ref: false }
    }

    open spec fn spec_into(self) -> Option<YarnValue> {
        if true {
            Some(YarnValue::Number(self as i64))
        } else {
            None
        }
    }

    fn return_type() -> (r: YarnFnType) {
        YarnFnType { base: YarnBaseType::U32, by_ref: false }
    }

    fn into_yarn_value(self) -> (r: Option<YarnValue>) {
        if true {
            Some(YarnValue::Number(self as i64))
        } else {
            None
        }
    }
}

impl YarnFnParam for u64 {
    type Owned = u64;

    type Item<'a> = u64;

    open spec fn spec_type() -> YarnFnType {
        YarnFnType { base: YarnBaseType::U64, by_ref: false }
    }

    open spec fn spec_convert(v: YarnValue) -> Option<u64> {
        match v {
            YarnValue::Number(n) => if 0 <= n {
                Some(n as u64)
            } else {
                None
            },
            _ => None,
        }
    }

    open spec fn spec_value_of(o: u64) -> YarnValue {
        YarnValue::Number(o as i64)
    }

    open spec fn spec_lent(o: u64, item: u64) -> bool {
        item == o
    }

    open spec fn spec_representable(o: u64) -> bool {
        o <= i64::MAX as u64
    }

    fn param_type() -> (r: YarnFnType) {
        YarnFnType { base: YarnBaseType::U64, by_ref: false }
    }

    fn convert(v: &YarnValue) -> (r: Option<u64>) {
        match v {
            YarnValue::Number(n) => if 0 <= *n {
                Some(*n as u64)
            } else {
                None
            },
            _ => None,
        }
    }

    fn lend<'a>(o: &'a u64) -> (r: u64) {
        *o
    }

    proof fn lemma_round_trip(o: u64) {
    }
}

impl IntoYarnValue for u64 {
    open spec fn spec_return_type() -> YarnFnType {
        YarnFnType { base: YarnBaseType::U64, by_ref: false }
    }

    open spec fn spec_into(self) -> Option<YarnValue> {
        if self <= i64::MAX as u64 {
            Some(YarnValue::Number(self as i64))
        } else {
            None
        }
    }

    fn return_type() -> (r: YarnFnType) {
        YarnFnType { base: YarnBaseType::U64, by_ref: false }
    }

    fn into_yarn_value(self) -> (r: Option<YarnValue>) {
        if self <= i64::MAX as u64 {
            Some(YarnValue::Number(self as i64))
        } else {
            None
        }
    }
}

impl YarnFnParam for u128 {
    type Owned = u128;

    type Item<'a> = u128;

    open spec fn spec_type() -> YarnFnType {
        YarnFnType { base: YarnBaseType::U128, by_ref: false }
    }

    open spec fn spec_convert(v: YarnValue) -> Option<u128> {
        match v {
            YarnValue::Number(n) => if 0 <= n {
                Some(n as u128)
            } else {
                None
            },
            _ => None,
        }
    }

    open spec fn spec_value_of(o: u128) -> YarnValue {
        YarnValue::Number(o as i64)
    }

    open spec fn spec_lent(o: u128, item: u128) -> bool {
        item == o
    }

    open spec fn spec_representable(o: u128) -> bool {
        o <= i64::MAX as u128
    }

    fn param_type() -> (r: YarnFnType) {
        YarnFnType { base: YarnBaseType::U128, by_ref: false }
    }

    fn convert(v: &YarnValue) -> (r: Option<u128>) {
        match v {
            YarnValue::Number(n) => if 0 <= *n {
                Some(*n as u128)
            } else {
                None
            },
            _ => None,
        }
    }

    fn lend<'a>(o: &'a u128) -> (r: u128) {
        *o
    }

    proof fn lemma_round_trip(o: u128) {
    }
}

impl IntoYarnValue for u128 {
    open spec fn spec_return_type() -> YarnFnType {
        YarnFnType { base: YarnBaseType::U128, by_ref: false }
    }

    open spec fn spec_into(self) -> Option<YarnValue> {
        if self <= i64::MAX as u128 {
            Some(YarnValue::Number(self as i64))
        } else {
            None
        }
    }

    fn return_type() -> (r: YarnFnType) {
        YarnFnType { base: YarnBaseType::U128, by_ref: false }
    }

    fn into_yarn_value(self) -> (r: Option<YarnValue>) {
        if self <= i64::MAX as u128 {
            Some(YarnValue::Number(self as i64))
        } else {
            None
        }
    }
}

impl YarnFnParam for usize {
    type Owned = usize;

    type Item<'a> = usize;

    open spec fn spec_type() -> YarnFnType {
        YarnFnType { base: YarnBaseType::Usize, by_ref: false }
    }

    open spec fn spec_convert(v: YarnValue) -> Option<usize> {
        match v {
            YarnValue::Number(n) => if 0 <= n && n <= usize::MAX {
                Some(n as usize)
            } else {
                None
            },
            _ => None,
        }
    }

    open spec fn spec_value_of(o: usize) -> YarnValue {
        YarnValue::Number(o as i64)
    }

    open spec fn spec_lent(o: usize, item: usize) -> bool {
        item == o
    }

    open spec fn spec_representable(o: usize) -> bool {
        o <= i64::MAX as usize
    }

    fn param_type() -> (r: YarnFnType) {
        YarnFnType { base: YarnBaseType::Usize, by_ref: false }
    }

    fn convert(v: &YarnValue) -> (r: Option<usize>) {
        match v {
            YarnValue::Number(n) => if 0 <= *n && (*n as u64) <= (usize::MAX as u64) {
                Some(*n as usize)
            } else {
                None
            },
            _ => None,
        }
    }

    fn lend<'a>(o: &'a usize) -> (r: usize) {
        *o
    }

    proof fn lemma_round_trip(o: usize) {
    }
}

impl IntoYarnValue for usize {
    open spec fn spec_return_type() -> YarnFnType {
        YarnFnType { base: YarnBaseType::Usize, by_ref: false }
    }

    open spec fn spec_into(self) -> Option<YarnValue> {
        if self <= i64::MAX as usize {
            Some(YarnValue::Number(self as i64))
        } else {
            None
        }
    }

    fn return_type() -> (r: YarnFnType) {
        YarnFnType { base: YarnBaseType::Usize, by_ref: false }
    }

    fn into_yarn_value(self) -> (r: Option<YarnValue>) {
        if self <= i64::MAX as usize {
            Some(YarnValue::Number(self as i64))
        } else {
            None
        }
    }
}

impl YarnFnParam for bool {
    type Owned = bool;

    type Item<'a> = bool;

    open spec fn spec_type() -> YarnFnType {
        YarnFnType { base: YarnBaseType::Bool, by_ref: false }
    }

    open spec fn spec_convert(v: YarnValue) -> Option<bool> {
        match v {
            YarnValue::Boolean(b) => Some(b),
            _ => None,
        }
    }

    open spec fn spec_value_of(o: bool) -> YarnValue {
        YarnValue::Boolean(o)
    }

    open spec fn spec_lent(o: bool, item: bool) -> bool {
        item == o
    }

    open spec fn spec_representable(o: bool) -> bool {
        true
    }

    fn param_type() -> (r: YarnFnType) {
        YarnFnType { base: YarnBaseType::Bool, by_ref: false }
    }

    fn convert(v: &YarnValue) -> (r: Option<bool>) {
        match v {
            YarnValue::Boolean(b) => Some(*b),
            _ => None,
        }
    }

    fn lend<'a>(o: &'a bool) -> (r: bool) {
        *o
    }

    proof fn lemma_round_trip(o: bool) {
    }
}

impl IntoYarnValue for bool {
    open spec fn spec_return_type() -> YarnFnType {
        YarnFnType { base: YarnBaseType::Bool, by_ref: false }
    }

    open spec fn spec_into(self) -> Option<YarnValue> {
        Some(YarnValue::Boolean(self))
    }

    fn return_type() -> (r: YarnFnType) {
        YarnFnType { base: YarnBaseType::Bool, by_ref: false }
    }

    fn into_yarn_value(self) -> (r: Option<YarnValue>) {
        Some(YarnValue::Boolean(self))
    }
}

impl YarnFnParam for String {
    type Owned = String;

    type Item<'a> = String;

    open spec fn spec_type() -> YarnFnType {
        YarnFnType { base: YarnBaseType::String, by_ref: false }
    }

    open spec fn spec_convert(v: YarnValue) -> Option<String> {
        match v {
            YarnValue::String(s) => Some(s),
            _ => None,
        }
    }

    open spec fn spec_value_of(o: String) -> YarnValue {
        YarnValue::String(o)
    }

    open spec fn spec_lent(o: String, item: String) -> bool {
        item == o
    }

    open spec fn spec_representable(o: String) -> bool {
        true
    }

    fn param_type() -> (r: YarnFnType) {
        YarnFnType { base: YarnBaseType::String, by_ref: false }
    }

    fn convert(v: &YarnValue) -> (r: Option<String>) {
        match v {
            YarnValue::String(s) => Some(s.clone()),
            _ => None,
        }
    }

    fn lend<'a>(o: &'a String) -> (r: String) {
        o.clone()
    }

    proof fn lemma_round_trip(o: String) {
    }
}

impl IntoYarnValue for String {
    open spec fn spec_return_type() -> YarnFnType {
        YarnFnType { base: YarnBaseType::String, by_ref: false }
    }

    open spec fn spec_into(self) -> Option<YarnValue> {
        Some(YarnValue::String(self))
    }

    fn return_type() -> (r: YarnFnType) {
        YarnFnType { base: YarnBaseType::String, by_ref: false }
    }

    fn into_yarn_value(self) -> (r: Option<YarnValue>) {
        Some(YarnValue::String(self))
    }
}

impl YarnFnParam for YarnValue {
    type Owned = YarnValue;

    type Item<'a> = YarnValue;

    open spec fn spec_type() -> YarnFnType {
        YarnFnType { base: YarnBaseType::Value, by_ref: false }
    }

    open spec fn spec_convert(v: YarnValue) -> Option<YarnValue> {
        Some(v)
    }

    open spec fn spec_value_of(o: YarnValue) -> YarnValue {
        o
    }

    open spec fn spec_lent(o: YarnValue, item: YarnValue) -> bool {
        item == o
    }

    open spec fn spec_representable(o: YarnValue) -> bool {
        true
    }

    fn param_type() -> (r: YarnFnType) {
        YarnFnType { base: YarnBaseType::Value, by_ref: false }
    }

    fn convert(v: &YarnValue) -> (r: Option<YarnValue>) {
        Some(v.duplicate())
    }

    fn lend<'a>(o: &'a YarnValue) -> (r: YarnValue) {
        o.duplicate()
    }

    proof fn lemma_round_trip(o: YarnValue) {
    }
}

impl YarnFnParam for &'static str {
    type Owned = String;

    type Item<'a> = &'a str;

    open spec fn spec_type() -> YarnFnType {
        YarnFnType { base: YarnBaseType::Str, by_ref: true }
    }

    open spec fn spec_convert(v: YarnValue) -> Option<String> {
        match v {
            YarnValue::String(s) => Some(s),
            _ => None,
        }
    }

    open spec fn spec_value_of(o: String) -> YarnValue {
        YarnValue::String(o)
    }

    open spec fn spec_lent(o: String, item: &str) -> bool {
        item@ == o@
    }

    open spec fn spec_representable(o: String) -> bool {
        true
    }

    fn param_type() -> (r: YarnFnType) {
        YarnFnType { base: YarnBaseType::Str, by_ref: true }
    }

    fn convert(v: &YarnValue) -> (r: Option<String>) {
        match v {
            YarnValue::String(s) => Some(s.clone()),
            _ => None,
        }
    }

    fn lend<'a>(o: &'a String) -> (r: &'a str) {
        o.as_str()
    }

    proof fn lemma_round_trip(o: String) {
    }
}

/// A parameter taken by reference: converted as the referenced type, then lent.
impl<T: YarnFnParam<Owned = T> + 'static> YarnFnParam for &'static T {
    type Owned = T;

    type Item<'a> = &'a T;

    open spec fn spec_type() -> YarnFnType {
        YarnFnType { base: T::spec_type().base, by_ref: true }
    }

    open spec fn spec_convert(v: YarnValue) -> Option<T> {
        T::spec_convert(v)
    }

    open spec fn spec_value_of(o: T) -> YarnValue {
        T::spec_value_of(o)
    }

    open spec fn spec_lent(o: T, item: &T) -> bool {
        *item == o
    }

    open spec fn spec_representable(o: T) -> bool {
        T::spec_representable(o)
    }

    fn param_type() -> (r: YarnFnType) {
        let t = T::param_type();
        YarnFnType { base: t.base, by_ref: true }
    }

    fn convert(v: &YarnValue) -> (r: Option<T>) {
        T::convert(v)
    }

    fn lend<'a>(o: &'a T) -> (r: &'a T) {
        o
    }

    proof fn lemma_round_trip(o: T) {
        T::lemma_round_trip(o);
    }
}

/// A host function that scripts can call, for each accepted signature. `Marker`
/// names the signature: the result type, then the parameter types.
pub trait YarnFn<Marker> {
    type Out: IntoYarnValue;

    /// The function can be called with any arguments of its parameter types.
    spec fn accepts_every_argument(&self) -> bool;

    spec fn spec_parameter_types() -> Seq<YarnFnType>;

    /// `out` is a possible outcome of calling the function on `input`: `None`
    /// exactly when the number of values is wrong or one does not convert;
    /// otherwise the function's own result on the converted values.
    spec fn spec_call(&self, input: Seq<YarnValue>, out: Option<Self::Out>) -> bool;

    fn call(&self, input: Vec<YarnValue>) -> (r: Option<Self::Out>)
        requires
            self.accepts_every_argument(),
        ensures
            self.spec_call(input@, r),
    ;

    fn parameter_types(&self) -> (r: Vec<YarnFnType>)
        ensures
            r@ == Self::spec_parameter_types(),
    ;

    fn return_type(&self) -> (r: YarnFnType)
        ensures
            r == <Self::Out as IntoYarnValue>::spec_return_type(),
    {
        <Self::Out as IntoYarnValue>::return_type()
    }
}

impl<F, O> YarnFn<(O,)> for F where
    O: IntoYarnValue,
    for <'a> F: Fn() -> O + Fn() -> O,
 {
    type Out = O;

    open spec fn accepts_every_argument(&self) -> bool {
        call_requires(*self, ())
    }

    open spec fn spec_parameter_types() -> Seq<YarnFnType> {
        seq![]
    }

    open spec fn spec_call(&self, input: Seq<YarnValue>, out: Option<O>) -> bool {
        if input.len() == 0 {
            out is Some && call_ensures(*self, (), out->0)
        } else {
            out is None
        }
    }

    fn call(&self, input: Vec<YarnValue>) -> (r: Option<O>) {
        if input.len() != 0 {
            return None;
        }
        let out = self();
        Some(out)
    }

    fn parameter_types(&self) -> (r: Vec<YarnFnType>) {
        let r = vec![];
        assert(r@ =~= Self::spec_parameter_types());
        r
    }
}

impl<F, O, T0: YarnFnParam> YarnFn<(O, T0)> for F where
    O: IntoYarnValue,
    for <'a> F: Fn(T0) -> O + Fn(T0::Item<'a>) -> O,
 {
    type Out = O;

    open spec fn accepts_every_argument(&self) -> bool {
        forall|a0: T0::Item<'static>| call_requires(*self, (a0,))
    }

    open spec fn spec_parameter_types() -> Seq<YarnFnType> {
        seq![T0::spec_type()]
    }

    open spec fn spec_call(&self, input: Seq<YarnValue>, out: Option<O>) -> bool {
        if input.len() == 1 && T0::spec_convert(input[0]) is Some {
            out is Some && exists|a0: T0::Item<'static>|
                #![trigger T0::spec_lent(T0::spec_convert(input[0])->0, a0)]
                T0::spec_lent(T0::spec_convert(input[0])->0, a0) && call_ensures(*self, (a0,), out->0)
        } else {
            out is None
        }
    }

    fn call(&self, input: Vec<YarnValue>) -> (r: Option<O>) {
        if input.len() != 1 {
            return None;
        }
        let c0 = T0::convert(&input[0]);
        match (c0,) {
            (Some(o0),) => {
                let a0 = T0::lend(&o0);
                let out = self(a0);
                assert(call_ensures(*self, (a0,), out));
                Some(out)
            },
            _ => None,
        }
    }

    fn parameter_types(&self) -> (r: Vec<YarnFnType>) {
        let r = vec![T0::param_type()];
        assert(r@ =~= Self::spec_parameter_types());
        r
    }
}

impl<F, O, T0: YarnFnParam, T1: YarnFnParam> YarnFn<(O, T0, T1)> for F where
    O: IntoYarnValue,
    for <'a> F: Fn(T0, T1) -> O + Fn(T0::Item<'a>, T1::Item<'a>) -> O,
 {
    type Out = O;

    open spec fn accepts_every_argument(&self) -> bool {
        forall|a0: T0::Item<'static>, a1: T1::Item<'static>| call_requires(*self, (a0, a1))
    }

    open spec fn spec_parameter_types() -> Seq<YarnFnType> {
        seq![T0::spec_type(), T1::spec_type()]
    }

    open spec fn spec_call(&self, input: Seq<YarnValue>, out: Option<O>) -> bool {
        if input.len() == 2 && T0::spec_convert(input[0]) is Some && T1::spec_convert(input[1]) is Some {
            out is Some && exists|a0: T0::Item<'static>, a1: T1::Item<'static>|
                #![trigger T0::spec_lent(T0::spec_convert(input[0])->0, a0), T1::spec_lent(T1::spec_convert(input[1])->0, a1)]
                T0::spec_lent(T0::spec_convert(input[0])->0, a0) && T1::spec_lent(T1::spec_convert(input[1])->0, a1) && call_ensures(*self, (a0, a1), out->0)
        } else {
            out is None
        }
    }

    fn call(&self, input: Vec<YarnValue>) -> (r: Option<O>) {
        if input.len() != 2 {
            return None;
        }
        let c0 = T0::convert(&input[0]);
        let c1 = T1::convert(&input[1]);
        match (c0, c1) {
            (Some(o0), Some(o1)) => {
                let a0 = T0::lend(&o0);
                let a1 = T1::lend(&o1);
                let out = self(a0, a1);
                assert(call_ensures(*self, (a0, a1), out));
                Some(out)
            },
            _ => None,
        }
    }

    fn parameter_types(&self) -> (r: Vec<YarnFnType>) {
        let r = vec![T0::param_type(), T1::param_type()];
        assert(r@ =~= Self::spec_parameter_types());
        r
    }
}

impl<F, O, T0: YarnFnParam, T1: YarnFnParam, T2: YarnFnParam> YarnFn<(O, T0, T1, T2)> for F where
    O: IntoYarnValue,
    for <'a> F: Fn(T0, T1, T2) -> O + Fn(T0::Item<'a>, T1::Item<'a>, T2::Item<'a>) -> O,
 {
    type Out = O;

    open spec fn accepts_every_argument(&self) -> bool {
        forall|a0: T0::Item<'static>, a1: T1::Item<'static>, a2: T2::Item<'static>| call_requires(*self, (a0, a1, a2))
    }

    open spec fn spec_parameter_types() -> Seq<YarnFnType> {
        seq![T0::spec_type(), T1::spec_type(), T2::spec_type()]
    }

    open spec fn spec_call(&self, input: Seq<YarnValue>, out: Option<O>) -> bool {
        if input.len() == 3 && T0::spec_convert(input[0]) is Some && T1::spec_convert(input[1]) is Some && T2::spec_convert(input[2]) is Some {
            out is Some && exists|a0: T0::Item<'static>, a1: T1::Item<'static>, a2: T2::Item<'static>|
                #![trigger T0::spec_lent(T0::spec_convert(input[0])->0, a0), T1::spec_lent(T1::spec_convert(input[1])->0, a1), T2::spec_lent(T2::spec_convert(input[2])->0, a2)]
                T0::spec_lent(T0::spec_convert(input[0])->0, a0) && T1::spec_lent(T1::spec_convert(input[1])->0, a1) && T2::spec_lent(T2::spec_convert(input[2])->0, a2) && call_ensures(*self, (a0, a1, a2), out->0)
        } else {
            out is None
        }
    }

    fn call(&self, input: Vec<YarnValue>) -> (r: Option<O>) {
        if input.len() != 3 {
            return None;
        }
        let c0 = T0::convert(&input[0]);
        let c1 = T1::convert(&input[1]);
        let c2 = T2::convert(&input[2]);
        match (c0, c1, c2) {
            (Some(o0), Some(o1), Some(o2)) => {
                let a0 = T0::lend(&o0);
                let a1 = T1::lend(&o1);
                let a2 = T2::lend(&o2);
                let out = self(a0, a1, a2);
                assert(call_ensures(*self, (a0, a1, a2), out));
                Some(out)
            },
            _ => None,
        }
    }

    fn parameter_types(&self) -> (r: Vec<YarnFnType>) {
        let r = vec![T0::param_type(), T1::param_type(), T2::param_type()];
        assert(r@ =~= Self::spec_parameter_types());
        r
    }
}

impl<F, O, T0: YarnFnParam, T1: YarnFnParam, T2: YarnFnParam, T3: YarnFnParam> YarnFn<(O, T0, T1, T2, T3)> for F where
    O: IntoYarnValue,
    for <'a> F: Fn(T0, T1, T2, T3) -> O + Fn(T0::Item<'a>, T1::Item<'a>, T2::Item<'a>, T3::Item<'a>) -> O,
 {
    type Out = O;

    open spec fn accepts_every_argument(&self) -> bool {
        forall|a0: T0::Item<'static>, a1: T1::Item<'static>, a2: T2::Item<'static>, a3: T3::Item<'static>| call_requires(*self, (a0, a1, a2, a3))
    }

    open spec fn spec_parameter_types() -> Seq<YarnFnType> {
        seq![T0::spec_type(), T1::spec_type(), T2::spec_type(), T3::spec_type()]
    }

    open spec fn spec_call(&self, input: Seq<YarnValue>, out: Option<O>) -> bool {
        if input.len() == 4 && T0::spec_convert(input[0]) is Some && T1::spec_convert(input[1]) is Some && T2::spec_convert(input[2]) is Some && T3::spec_convert(input[3]) is Some {
            out is Some && exists|a0: T0::Item<'static>, a1: T1::Item<'static>, a2: T2::Item<'static>, a3: T3::Item<'static>|
                #![trigger T0::spec_lent(T0::spec_convert(input[0])->0, a0), T1::spec_lent(T1::spec_convert(input[1])->0, a1), T2::spec_lent(T2::spec_convert(input[2])->0, a2), T3::spec_lent(T3::spec_convert(input[3])->0, a3)]
                T0::spec_lent(T0::spec_convert(input[0])->0, a0) && T1::spec_lent(T1::spec_convert(input[1])->0, a1) && T2::spec_lent(T2::spec_convert(input[2])->0, a2) && T3::spec_lent(T3::spec_convert(input[3])->0, a3) && call_ensures(*self, (a0, a1, a2, a3), out->0)
        } else {
            out is None
        }
    }

    fn call(&self, input: Vec<YarnValue>) -> (r: Option<O>) {
        if input.len() != 4 {
            return None;
        }
        let c0 = T0::convert(&input[0]);
        let c1 = T1::convert(&input[1]);
        let c2 = T2::convert(&input[2]);
        let c3 = T3::convert(&input[3]);
        match (c0, c1, c2, c3) {
            (Some(o0), Some(o1), Some(o2), Some(o3)) => {
                let a0 = T0::lend(&o0);
                let a1 = T1::lend(&o1);
                let a2 = T2::lend(&o2);
                let a3 = T3::lend(&o3);
                let out = self(a0, a1, a2, a3);
                assert(call_ensures(*self, (a0, a1, a2, a3), out));
                Some(out)
            },
            _ => None,
        }
    }

    fn parameter_types(&self) -> (r: Vec<YarnFnType>) {
        let r = vec![T0::param_type(), T1::param_type(), T2::param_type(), T3::param_type()];
        assert(r@ =~= Self::spec_parameter_types());
        r
    }
}

impl<F, O, T0: YarnFnParam, T1: YarnFnParam, T2: YarnFnParam, T3: YarnFnParam, T4: YarnFnParam> YarnFn<(O, T0, T1, T2, T3, T4)> for F where
    O: IntoYarnValue,
    for <'a> F: Fn(T0, T1, T2, T3, T4) -> O + Fn(T0::Item<'a>, T1::Item<'a>, T2::Item<'a>, T3::Item<'a>, T4::Item<'a>) -> O,
 {
    type Out = O;

    open spec fn accepts_every_argument(&self) -> bool {
        forall|a0: T0::Item<'static>, a1: T1::Item<'static>, a2: T2::Item<'static>, a3: T3::Item<'static>, a4: T4::Item<'static>| call_requires(*self, (a0, a1, a2, a3, a4))
    }

    open spec fn spec_parameter_types() -> Seq<YarnFnType> {
        seq![T0::spec_type(), T1::spec_type(), T2::spec_type(), T3::spec_type(), T4::spec_type()]
    }

    open spec fn spec_call(&self, input: Seq<YarnValue>, out: Option<O>) -> bool {
        if input.len() == 5 && T0::spec_convert(input[0]) is Some && T1::spec_convert(input[1]) is Some && T2::spec_convert(input[2]) is Some && T3::spec_convert(input[3]) is Some && T4::spec_convert(input[4]) is Some {
            out is Some && exists|a0: T0::Item<'static>, a1: T1::Item<'static>, a2: T2::Item<'static>, a3: T3::Item<'static>, a4: T4::Item<'static>|
                #![trigger T0::spec_lent(T0::spec_convert(input[0])->0, a0), T1::spec_lent(T1::spec_convert(input[1])->0, a1), T2::spec_lent(T2::spec_convert(input[2])->0, a2), T3::spec_lent(T3::spec_convert(input[3])->0, a3), T4::spec_lent(T4::spec_convert(input[4])->0, a4)]
                T0::spec_lent(T0::spec_convert(input[0])->0, a0) && T1::spec_lent(T1::spec_convert(input[1])->0, a1) && T2::spec_lent(T2::spec_convert(input[2])->0, a2) && T3::spec_lent(T3::spec_convert(input[3])->0, a3) && T4::spec_lent(T4::spec_convert(input[4])->0, a4) && call_ensures(*self, (a0, a1, a2, a3, a4), out->0)
        } else {
            out is None
        }
    }

    fn call(&self, input: Vec<YarnValue>) -> (r: Option<O>) {
        if input.len() != 5 {
            return None;
        }
        let c0 = T0::convert(&input[0]);
        let c1 = T1::convert(&input[1]);
        let c2 = T2::convert(&input[2]);
        let c3 = T3::convert(&input[3]);
        let c4 = T4::convert(&input[4]);
        match (c0, c1, c2, c3, c4) {
            (Some(o0), Some(o1), Some(o2), Some(o3), Some(o4)) => {
                let a0 = T0::lend(&o0);
                let a1 = T1::lend(&o1);
                let a2 = T2::lend(&o2);
                let a3 = T3::lend(&o3);
                let a4 = T4::lend(&o4);
                let out = self(a0, a1, a2, a3, a4);
                assert(call_ensures(*self, (a0, a1, a2, a3, a4), out));
                Some(out)
            },
            _ => None,
        }
    }

    fn parameter_types(&self) -> (r: Vec<YarnFnType>) {
        let r = vec![T0::param_type(), T1::param_type(), T2::param_type(), T3::param_type(), T4::param_type()];
        assert(r@ =~= Self::spec_parameter_types());
        r
    }
}

impl<F, O, T0: YarnFnParam, T1: YarnFnParam, T2: YarnFnParam, T3: YarnFnParam, T4: YarnFnParam, T5: YarnFnParam> YarnFn<(O, T0, T1, T2, T3, T4, T5)> for F where
    O: IntoYarnValue,
    for <'a> F: Fn(T0, T1, T2, T3, T4, T5) -> O + Fn(T0::Item<'a>, T1::Item<'a>, T2::Item<'a>, T3::Item<'a>, T4::Item<'a>, T5::Item<'a>) -> O,
 {
    type Out = O;

    open spec fn accepts_every_argument(&self) -> bool {
        forall|a0: T0::Item<'static>, a1: T1::Item<'static>, a2: T2::Item<'static>, a3: T3::Item<'static>, a4: T4::Item<'static>, a5: T5::Item<'static>| call_requires(*self, (a0, a1, a2, a3, a4, a5))
    }

    open spec fn spec_parameter_types() -> Seq<YarnFnType> {
        seq![T0::spec_type(), T1::spec_type(), T2::spec_type(), T3::spec_type(), T4::spec_type(), T5::spec_type()]
    }

    open spec fn spec_call(&self, input: Seq<YarnValue>, out: Option<O>) -> bool {
        if input.len() == 6 && T0::spec_convert(input[0]) is Some && T1::spec_convert(input[1]) is Some && T2::spec_convert(input[2]) is Some && T3::spec_convert(input[3]) is Some && T4::spec_convert(input[4]) is Some && T5::spec_convert(input[5]) is Some {
            out is Some && exists|a0: T0::Item<'static>, a1: T1::Item<'static>, a2: T2::Item<'static>, a3: T3::Item<'static>, a4: T4::Item<'static>, a5: T5::Item<'static>|
                #![trigger T0::spec_lent(T0::spec_convert(input[0])->0, a0), T1::spec_lent(T1::spec_convert(input[1])->0, a1), T2::spec_lent(T2::spec_convert(input[2])->0, a2), T3::spec_lent(T3::spec_convert(input[3])->0, a3), T4::spec_lent(T4::spec_convert(input[4])->0, a4), T5::spec_lent(T5::spec_convert(input[5])->0, a5)]
                T0::spec_lent(T0::spec_convert(input[0])->0, a0) && T1::spec_lent(T1::spec_convert(input[1])->0, a1) && T2::spec_lent(T2::spec_convert(input[2])->0, a2) && T3::spec_lent(T3::spec_convert(input[3])->0, a3) && T4::spec_lent(T4::spec_convert(input[4])->0, a4) && T5::spec_lent(T5::spec_convert(input[5])->0, a5) && call_ensures(*self, (a0, a1, a2, a3, a4, a5), out->0)
        } else {
            out is None
        }
    }

    fn call(&self, input: Vec<YarnValue>) -> (r: Option<O>) {
        if input.len() != 6 {
            return None;
        }
        let c0 = T0::convert(&input[0]);
        let c1 = T1::convert(&input[1]);
        let c2 = T2::convert(&input[2]);
        let c3 = T3::convert(&input[3]);
        let c4 = T4::convert(&input[4]);
        let c5 = T5::convert(&input[5]);
        match (c0, c1, c2, c3, c4, c5) {
            (Some(o0), Some(o1), Some(o2), Some(o3), Some(o4), Some(o5)) => {
                let a0 = T0::lend(&o0);
                let a1 = T1::lend(&o1);
                let a2 = T2::lend(&o2);
                let a3 = T3::lend(&o3);
                let a4 = T4::lend(&o4);
                let a5 = T5::lend(&o5);
                let out = self(a0, a1, a2, a3, a4, a5);
                assert(call_ensures(*self, (a0, a1, a2, a3, a4, a5), out));
                Some(out)
            },
            _ => None,
        }
    }

    fn parameter_types(&self) -> (r: Vec<YarnFnType>) {
        let r = vec![T0::param_type(), T1::param_type(), T2::param_type(), T3::param_type(), T4::param_type(), T5::param_type()];
        assert(r@ =~= Self::spec_parameter_types());
        r
    }
}

impl<F, O, T0: YarnFnParam, T1: YarnFnParam, T2: YarnFnParam, T3: YarnFnParam, T4: YarnFnParam, T5: YarnFnParam, T6: YarnFnParam> YarnFn<(O, T0, T1, T2, T3, T4, T5, T6)> for F where
    O: IntoYarnValue,
    for <'a> F: Fn(T0, T1, T2, T3, T4, T5, T6) -> O + Fn(T0::Item<'a>, T1::Item<'a>, T2::Item<'a>, T3::Item<'a>, T4::Item<'a>, T5::Item<'a>, T6::Item<'a>) -> O,
 {
    type Out = O;

    open spec fn accepts_every_argument(&self) -> bool {
        forall|a0: T0::Item<'static>, a1: T1::Item<'static>, a2: T2::Item<'static>, a3: T3::Item<'static>, a4: T4::Item<'static>, a5: T5::Item<'static>, a6: T6::Item<'static>| call_requires(*self, (a0, a1, a2, a3, a4, a5, a6))
    }

    open spec fn spec_parameter_types() -> Seq<YarnFnType> {
        seq![T0::spec_type(), T1::spec_type(), T2::spec_type(), T3::spec_type(), T4::spec_type(), T5::spec_type(), T6::spec_type()]
    }

    open spec fn spec_call(&self, input: Seq<YarnValue>, out: Option<O>) -> bool {
        if input.len() == 7 && T0::spec_convert(input[0]) is Some && T1::spec_convert(input[1]) is Some && T2::spec_convert(input[2]) is Some && T3::spec_convert(input[3]) is Some && T4::spec_convert(input[4]) is Some && T5::spec_convert(input[5]) is Some && T6::spec_convert(input[6]) is Some {
            out is Some && exists|a0: T0::Item<'static>, a1: T1::Item<'static>, a2: T2::Item<'static>, a3: T3::Item<'static>, a4: T4::Item<'static>, a5: T5::Item<'static>, a6: T6::Item<'static>|
                #![trigger T0::spec_lent(T0::spec_convert(input[0])->0, a0), T1::spec_lent(T1::spec_convert(input[1])->0, a1), T2::spec_lent(T2::spec_convert(input[2])->0, a2), T3::spec_lent(T3::spec_convert(input[3])->0, a3), T4::spec_lent(T4::spec_convert(input[4])->0, a4), T5::spec_lent(T5::spec_convert(input[5])->0, a5), T6::spec_lent(T6::spec_convert(input[6])->0, a6)]
                T0::spec_lent(T0::spec_convert(input[0])->0, a0) && T1::spec_lent(T1::spec_convert(input[1])->0, a1) && T2::spec_lent(T2::spec_convert(input[2])->0, a2) && T3::spec_lent(T3::spec_convert(input[3])->0, a3) && T4::spec_lent(T4::spec_convert(input[4])->0, a4) && T5::spec_lent(T5::spec_convert(input[5])->0, a5) && T6::spec_lent(T6::spec_convert(input[6])->0, a6) && call_ensures(*self, (a0, a1, a2, a3, a4, a5, a6), out->0)
        } else {
            out is None
        }
    }

    fn call(&self, input: Vec<YarnValue>) -> (r: Option<O>) {
        if input.len() != 7 {
            return None;
        }
        let c0 = T0::convert(&input[0]);
        let c1 = T1::convert(&input[1]);
        let c2 = T2::convert(&input[2]);
        let c3 = T3::convert(&input[3]);
        let c4 = T4::convert(&input[4]);
        let c5 = T5::convert(&input[5]);
        let c6 = T6::convert(&input[6]);
        match (c0, c1, c2, c3, c4, c5, c6) {
            (Some(o0), Some(o1), Some(o2), Some(o3), Some(o4), Some(o5), Some(o6)) => {
                let a0 = T0::lend(&o0);
                let a1 = T1::lend(&o1);
                let a2 = T2::lend(&o2);
                let a3 = T3::lend(&o3);
                let a4 = T4::lend(&o4);
                let a5 = T5::lend(&o5);
                let a6 = T6::lend(&o6);
                let out = self(a0, a1, a2, a3, a4, a5, a6);
                assert(call_ensures(*self, (a0, a1, a2, a3, a4, a5, a6), out));
                Some(out)
            },
            _ => None,
        }
    }

    fn parameter_types(&self) -> (r: Vec<YarnFnType>) {
        let r = vec![T0::param_type(), T1::param_type(), T2::param_type(), T3::param_type(), T4::param_type(), T5::param_type(), T6::param_type()];
        assert(r@ =~= Self::spec_parameter_types());
        r
    }
}

impl<F, O, T0: YarnFnParam, T1: YarnFnParam, T2: YarnFnParam, T3: YarnFnParam, T4: YarnFnParam, T5: YarnFnParam, T6: YarnFnParam, T7: YarnFnParam> YarnFn<(O, T0, T1, T2, T3, T4, T5, T6, T7)> for F where
    O: IntoYarnValue,
    for <'a> F: Fn(T0, T1, T2, T3, T4, T5, T6, T7) -> O + Fn(T0::Item<'a>, T1::Item<'a>, T2::Item<'a>, T3::Item<'a>, T4::Item<'a>, T5::Item<'a>, T6::Item<'a>, T7::Item<'a>) -> O,
 {
    type Out = O;

    open spec fn accepts_every_argument(&self) -> bool {
        forall|a0: T0::Item<'static>, a1: T1::Item<'static>, a2: T2::Item<'static>, a3: T3::Item<'static>, a4: T4::Item<'static>, a5: T5::Item<'static>, a6: T6::Item<'static>, a7: T7::Item<'static>| call_requires(*self, (a0, a1, a2, a3, a4, a5, a6, a7))
    }

    open spec fn spec_parameter_types() -> Seq<YarnFnType> {
        seq![T0::spec_type(), T1::spec_type(), T2::spec_type(), T3::spec_type(), T4::spec_type(), T5::spec_type(), T6::spec_type(), T7::spec_type()]
    }

    open spec fn spec_call(&self, input: Seq<YarnValue>, out: Option<O>) -> bool {
        if input.len() == 8 && T0::spec_convert(input[0]) is Some && T1::spec_convert(input[1]) is Some && T2::spec_convert(input[2]) is Some && T3::spec_convert(input[3]) is Some && T4::spec_convert(input[4]) is Some && T5::spec_convert(input[5]) is Some && T6::spec_convert(input[6]) is Some && T7::spec_convert(input[7]) is Some {
            out is Some && exists|a0: T0::Item<'static>, a1: T1::Item<'static>, a2: T2::Item<'static>, a3: T3::Item<'static>, a4: T4::Item<'static>, a5: T5::Item<'static>, a6: T6::Item<'static>, a7: T7::Item<'static>|
                #![trigger T0::spec_lent(T0::spec_convert(input[0])->0, a0), T1::spec_lent(T1::spec_convert(input[1])->0, a1), T2::spec_lent(T2::spec_convert(input[2])->0, a2), T3::spec_lent(T3::spec_convert(input[3])->0, a3), T4::spec_lent(T4::spec_convert(input[4])->0, a4), T5::spec_lent(T5::spec_convert(input[5])->0, a5), T6::spec_lent(T6::spec_convert(input[6])->0, a6), T7::spec_lent(T7::spec_convert(input[7])->0, a7)]
                T0::spec_lent(T0::spec_convert(input[0])->0, a0) && T1::spec_lent(T1::spec_convert(input[1])->0, a1) && T2::spec_lent(T2::spec_convert(input[2])->0, a2) && T3::spec_lent(T3::spec_convert(input[3])->0, a3) && T4::spec_lent(T4::spec_convert(input[4])->0, a4) && T5::spec_lent(T5::spec_convert(input[5])->0, a5) && T6::spec_lent(T6::spec_convert(input[6])->0, a6) && T7::spec_lent(T7::spec_convert(input[7])->0, a7) && call_ensures(*self, (a0, a1, a2, a3, a4, a5, a6, a7), out->0)
        } else {
            out is None
        }
    }

    fn call(&self, input: Vec<YarnValue>) -> (r: Option<O>) {
        if input.len() != 8 {
            return None;
        }
        let c0 = T0::convert(&input[0]);
        let c1 = T1::convert(&input[1]);
        let c2 = T2::convert(&input[2]);
        let c3 = T3::convert(&input[3]);
        let c4 = T4::convert(&input[4]);
        let c5 = T5::convert(&input[5]);
        let c6 = T6::convert(&input[6]);
        let c7 = T7::convert(&input[7]);
        match (c0, c1, c2, c3, c4, c5, c6, c7) {
            (Some(o0), Some(o1), Some(o2), Some(o3), Some(o4), Some(o5), Some(o6), Some(o7)) => {
                let a0 = T0::lend(&o0);
                let a1 = T1::lend(&o1);
                let a2 = T2::lend(&o2);
                let a3 = T3::lend(&o3);
                let a4 = T4::lend(&o4);
                let a5 = T5::lend(&o5);
                let a6 = T6::lend(&o6);
                let a7 = T7::lend(&o7);
                let out = self(a0, a1, a2, a3, a4, a5, a6, a7);
                assert(call_ensures(*self, (a0, a1, a2, a3, a4, a5, a6, a7), out));
                Some(out)
            },
            _ => None,
        }
    }

    fn parameter_types(&self) -> (r: Vec<YarnFnType>) {
        let r = vec![T0::param_type(), T1::param_type(), T2::param_type(), T3::param_type(), T4::param_type(), T5::param_type(), T6::param_type(), T7::param_type()];
        assert(r@ =~= Self::spec_parameter_types());
        r
    }
}

/// A host function with its signature erased: a list of values in, a value out.
pub trait UntypedYarnFn {
    /// The function can be called with any arguments of its parameter types.
    spec fn ready(&self) -> bool;

    /// `out` is a possible outcome of calling the function on `input`.
    spec fn spec_call(&self, input: Seq<YarnValue>, out: Option<YarnValue>) -> bool;

    fn call(&self, input: Vec<YarnValue>) -> (r: Option<YarnValue>)
        requires
            self.ready(),
        ensures
            self.spec_call(input@, r),
    ;

    fn parameter_types(&self) -> Vec<YarnFnType>;

    fn return_type(&self) -> YarnFnType;
}

/// A typed host function kept with its signature marker, so that its signature
/// can be erased.
pub struct YarnFnWrapper<Marker, F> {
    pub function: F,
    pub marker: PhantomData<Marker>,
}

impl<Marker, F: YarnFn<Marker>> YarnFnWrapper<Marker, F> {
    pub fn new(function: F) -> (r: Self)
        ensures
            r.function == function,
    {
        YarnFnWrapper { function, marker: PhantomData }
    }
}

impl<Marker, F: YarnFn<Marker>> UntypedYarnFn for YarnFnWrapper<Marker, F> {
    open spec fn ready(&self) -> bool {
        self.function.accepts_every_argument()
    }

    /// The typed call's outcome, its result turned into a value; `None` where
    /// the call fails or the result does not fit a value.
    open spec fn spec_call(&self, input: Seq<YarnValue>, out: Option<YarnValue>) -> bool {
        exists|typed: Option<F::Out>|
            #![trigger self.function.spec_call(input, typed)]
            self.function.spec_call(input, typed) && out == match typed {
                Some(o) => o.spec_into(),
                None => None,
            }
    }

    fn call(&self, input: Vec<YarnValue>) -> (r: Option<YarnValue>) {
        let typed = self.function.call(input);
        let ghost t = typed;
        match typed {
            Some(o) => {
                let r = o.into_yarn_value();
                assert(self.function.spec_call(input@, t));
                r
            },
            None => {
                assert(self.function.spec_call(input@, t));
                None
            },
        }
    }

    fn parameter_types(&self) -> Vec<YarnFnType> {
        self.function.parameter_types()
    }

    fn return_type(&self) -> YarnFnType {
        self.function.return_type()
    }
}

/// A native argument, passed to a script as a value, converts back to itself,
/// wherever a value can stand for it.
pub proof fn lemma_argument_round_trip<P: YarnFnParam>(o: P::Owned)
    requires
        P::spec_representable(o),
    ensures
        P::spec_convert(P::spec_value_of(o)) == Some(o),
{
    P::lemma_round_trip(o);
}

/// Calling a two-parameter host function through the bridge, on the values of
/// native arguments, succeeds and hands the function those very arguments: the
/// outcome is one of the function's own outcomes on them.
pub proof fn lemma_call_round_trip<F, O, T0: YarnFnParam, T1: YarnFnParam>(
    f: F,
    o0: T0::Owned,
    o1: T1::Owned,
    out: Option<O>,
) where O: IntoYarnValue, for <'a> F: Fn(T0, T1) -> O + Fn(T0::Item<'a>, T1::Item<'a>) -> O
    requires
        T0::spec_representable(o0),
        T1::spec_representable(o1),
        <F as YarnFn<(O, T0, T1)>>::spec_call(
            &f,
            seq![T0::spec_value_of(o0), T1::spec_value_of(o1)],
            out,
        ),
    ensures
        out is Some,
        exists|a0: T0::Item<'static>, a1: T1::Item<'static>|
            #![trigger T0::spec_lent(o0, a0), T1::spec_lent(o1, a1)]
            T0::spec_lent(o0, a0) && T1::spec_lent(o1, a1) && call_ensures(f, (a0, a1), out->0),
{
    T0::lemma_round_trip(o0);
    T1::lemma_round_trip(o1);
    let input = seq![T0::spec_value_of(o0), T1::spec_value_of(o1)];
    assert(T0::spec_convert(input[0]) == Some(o0));
    assert(T1::spec_convert(input[1]) == Some(o1));
}

} // verus!

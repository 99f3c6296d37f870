//! Tests of the symbolic value lattice and its constant-folding operators.

use jssat::id::ConstantId;
use jssat::ir::FFIValueType;
use jssat::assembler::Type;
use jssat::lattice::{
    ffi_value_type_to_value_type, AdditionError, FFICoerce, IntoValueType, ReturnType, UnifyError,
    ValueAddable, ValueComparable, ValueConditional, ValueType,
};

#[test]
fn unify_never_is_identity() {
    let cases = [
        ReturnType::Void,
        ReturnType::Value(ValueType::ExactInteger(7)),
        ReturnType::Value(ValueType::String),
        ReturnType::Never,
    ];
    for x in cases {
        let mut a = ReturnType::Never;
        assert_eq!(a.unify(x), Ok(()));
        assert_eq!(a, x);
        let mut b = x;
        assert_eq!(b.unify(ReturnType::Never), Ok(()));
        assert_eq!(b, x);
    }
}

#[test]
fn unify_equal_values() {
    let mut a = ReturnType::Value(ValueType::Bool(true));
    assert_eq!(a.unify(ReturnType::Value(ValueType::Bool(true))), Ok(()));
    assert_eq!(a, ReturnType::Value(ValueType::Bool(true)));
    let mut v = ReturnType::Void;
    assert_eq!(v.unify(ReturnType::Void), Ok(()));
    assert_eq!(v, ReturnType::Void);
}

#[test]
fn unify_conflicts_fail_loudly() {
    let mut a = ReturnType::Value(ValueType::ExactInteger(1));
    let r = a.unify(ReturnType::Value(ValueType::ExactInteger(2)));
    assert_eq!(
        r,
        Err(UnifyError::Incompatible(
            ReturnType::Value(ValueType::ExactInteger(1)),
            ReturnType::Value(ValueType::ExactInteger(2)),
        ))
    );
    // the accumulator is untouched on failure
    assert_eq!(a, ReturnType::Value(ValueType::ExactInteger(1)));

    let mut v = ReturnType::Void;
    assert!(v.unify(ReturnType::Value(ValueType::Number)).is_err());
}

#[test]
fn constant_folding_compare() {
    let two = ValueType::ExactInteger(2).is_comparable().unwrap();
    let five = ValueType::ExactInteger(5).is_comparable().unwrap();
    assert_eq!(
        two.perform_less_than(&five).into_value_type(),
        ValueType::Bool(true)
    );
    assert_eq!(
        five.perform_less_than(&two).into_value_type(),
        ValueType::Bool(false)
    );
    let number = ValueType::Number.is_comparable().unwrap();
    assert_eq!(
        number.perform_less_than(&five).into_value_type(),
        ValueType::Boolean
    );
    assert_eq!(
        five.perform_less_than(&number).into_value_type(),
        ValueType::Boolean
    );
}

#[test]
fn constant_folding_add() {
    let two = ValueType::ExactInteger(2).is_addable().unwrap();
    let three = ValueType::ExactInteger(3).is_addable().unwrap();
    assert_eq!(
        two.perform_add(&three).unwrap().into_value_type(),
        ValueType::ExactInteger(5)
    );
    let number = ValueType::Number.is_addable().unwrap();
    assert_eq!(
        number.perform_add(&two).unwrap().into_value_type(),
        ValueType::Number
    );
    let s = ValueType::String.is_addable().unwrap();
    assert_eq!(
        s.perform_add(&ValueAddable::String).unwrap().into_value_type(),
        ValueType::String
    );
    // mixing a string with a number fails
    assert_eq!(
        s.perform_add(&two),
        Err(AdditionError::IncompatibleTypes)
    );
    assert_eq!(
        number.perform_add(&ValueAddable::String),
        Err(AdditionError::IncompatibleTypes)
    );
}

#[test]
fn addable_and_comparable_classification() {
    assert!(ValueType::Runtime.is_comparable().is_none());
    assert!(ValueType::String.is_comparable().is_none());
    assert!(ValueType::Bool(true).is_comparable().is_none());
    assert_eq!(
        ValueType::ExactInteger(9).is_comparable(),
        Some(ValueComparable::Num(9))
    );
    assert!(ValueType::Runtime.is_addable().is_none());
    assert!(ValueType::ExactString(ConstantId { index: 0 }).is_addable().is_none());
    assert_eq!(ValueType::Number.is_addable(), Some(ValueAddable::Number));
}

#[test]
fn conditional_into_value_type() {
    assert_eq!(
        ValueConditional::Boolean.into_value_type(),
        ValueType::Boolean
    );
    assert_eq!(
        ValueConditional::Bool(false).into_value_type(),
        ValueType::Bool(false)
    );
}

#[test]
fn coercion_relation() {
    let c = ConstantId { index: 3 };
    // an exact string coerces to foreign String and foreign Any
    assert!(FFICoerce::can_coerce(
        &ValueType::ExactString(c),
        &FFIValueType::String
    ));
    assert!(FFICoerce::can_coerce(
        &ValueType::ExactString(c),
        &FFIValueType::Any
    ));
    // an exact integer does not coerce to a pointer
    assert!(!FFICoerce::can_coerce(
        &ValueType::ExactInteger(1),
        &FFIValueType::Pointer(16)
    ));
    // pointers never coerce across widths
    assert!(!FFICoerce::can_coerce(
        &ValueType::Pointer(8),
        &FFIValueType::Pointer(16)
    ));
    assert!(FFICoerce::can_coerce(
        &ValueType::Pointer(16),
        &FFIValueType::Pointer(16)
    ));
    assert!(FFICoerce::can_coerce(&ValueType::Runtime, &FFIValueType::Runtime));
    assert!(!FFICoerce::can_coerce(&ValueType::Runtime, &FFIValueType::Any));
    assert!(FFICoerce::can_coerce(&ValueType::Word, &FFIValueType::Word));
    assert!(FFICoerce::can_coerce(&ValueType::Bool(true), &FFIValueType::Any));
}

#[test]
fn ffi_widening() {
    assert_eq!(
        ffi_value_type_to_value_type(&FFIValueType::Any),
        ValueType::Any
    );
    assert_eq!(
        ffi_value_type_to_value_type(&FFIValueType::Runtime),
        ValueType::Runtime
    );
    assert_eq!(
        ffi_value_type_to_value_type(&FFIValueType::Pointer(32)),
        ValueType::Pointer(32)
    );
    assert_eq!(
        ffi_value_type_to_value_type(&FFIValueType::Word),
        ValueType::Word
    );
    assert_eq!(
        ffi_value_type_to_value_type(&FFIValueType::String),
        ValueType::String
    );
}

#[test]
fn simple_and_const_classification() {
    let c = ConstantId { index: 0 };
    // every exact type is simple
    assert!(ValueType::ExactInteger(1).is_simple());
    assert!(ValueType::ExactString(c).is_simple());
    assert!(ValueType::Bool(false).is_simple());
    assert!(ValueType::Runtime.is_simple());
    assert!(!ValueType::Any.is_simple());
    assert!(!ValueType::Number.is_simple());
    assert!(!ValueType::String.is_simple());
    assert!(ValueType::ExactInteger(1).is_const());
    assert!(ValueType::ExactString(c).is_const());
    assert!(ValueType::Bool(true).is_const());
    assert!(!ValueType::Runtime.is_const());
    assert!(!ValueType::Word.is_const());
}

#[test]
fn to_type_wraps_the_value() {
    assert_eq!(ValueType::Number.to_type(), Type::Val(ValueType::Number));
}

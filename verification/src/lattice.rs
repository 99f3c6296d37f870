//! The symbolic value lattice and its constant-folding operators.
//!
//! A [`ValueType`] is the compile-time approximation of a runtime value,
//! ranging from fully abstract (`Any`) to fully concrete (`ExactInteger(5)`).
//! A [`ReturnType`] describes what a call produces; `Never` is the identity
//! element of [`ReturnType::unify`] and marks a path proven to recurse without
//! producing a value.

use vstd::prelude::*;

use crate::id::ConstantId;
use crate::ir::FFIValueType;

verus! {

/// The symbolic type of one register.
#[derive(Debug, Clone, Copy, PartialEq, Eq, Hash, Structural)]
pub enum ValueType {
    /// Polymorphic catch-all; every non-exotic value can widen into it.
    Any,
    /// A handle to the language runtime.
    Runtime,
    /// An arbitrary string.
    String,
    /// The string constant with the given id, known exactly.
    ExactString(ConstantId),
    /// An arbitrary number.
    Number,
    /// An integer known exactly.
    ExactInteger(i64),
    /// An arbitrary boolean.
    Boolean,
    /// A boolean known exactly.
    Bool(bool),
    /// Pointer to data of the specified width: `Pointer(16)` points at 16 bits.
    Pointer(u16),
    /// A machine word.
    Word,
}

/// What a call returns.
#[derive(Debug, Clone, Copy, PartialEq, Eq, Hash, Structural)]
pub enum ReturnType {
    Void,
    Value(ValueType),
    /// The return type of a path that recurses without end: the identity
    /// element of [`ReturnType::unify`].
    Never,
}

/// The comparable view of a [`ValueType`], for operands of a comparison.
#[derive(Debug, Clone, Copy, PartialEq, Eq, Hash, Structural)]
pub enum ValueComparable {
    Number,
    Num(i64),
}

/// The addable view of a [`ValueType`], for operands of an addition.
#[derive(Debug, Clone, Copy, PartialEq, Eq, Hash, Structural)]
pub enum ValueAddable {
    Number,
    Num(i64),
    String,
}

/// Failure of [`ValueAddable::perform_add`]: numeric and string operands mixed.
#[derive(Debug, Clone, Copy, PartialEq, Eq, Hash, Structural)]
pub enum AdditionError {
    IncompatibleTypes,
}

/// The outcome of a comparison: an exact boolean or an abstract one.
#[derive(Debug, Clone, Copy, PartialEq, Eq, Hash, Structural)]
pub enum ValueConditional {
    Boolean,
    Bool(bool),
}

/// Failure of [`ReturnType::unify`]: the two operands cannot be joined.  This
/// marks engine incompleteness (an unsupported feature), not invalid input.
#[derive(Debug, Clone, Copy, PartialEq, Eq, Hash, Structural)]
pub enum UnifyError {
    Incompatible(ReturnType, ReturnType),
}

impl ValueType {
    /// Which value types are comparable, and their comparable view.
    pub open spec fn spec_comparable(self) -> Option<ValueComparable> {
        match self {
            ValueType::Number => Some(ValueComparable::Number),
            ValueType::ExactInteger(n) => Some(ValueComparable::Num(n)),
            _ => None,
        }
    }

    /// `Number` and `ExactInteger` are comparable; everything else is not, and
    /// the caller must fail, naming the side that failed.
    pub fn is_comparable(&self) -> (r: Option<ValueComparable>)
        ensures
            r == self.spec_comparable(),
    {
        match self {
            ValueType::Number => Some(ValueComparable::Number),
            ValueType::ExactInteger(value) => Some(ValueComparable::Num(*value)),
            _ => None,
        }
    }

    /// Which value types are addable, and their addable view.
    pub open spec fn spec_addable(self) -> Option<ValueAddable> {
        match self {
            ValueType::String => Some(ValueAddable::String),
            ValueType::Number => Some(ValueAddable::Number),
            ValueType::ExactInteger(n) => Some(ValueAddable::Num(n)),
            _ => None,
        }
    }

    /// `String`, `Number` and `ExactInteger` are addable; everything else is
    /// not, and the caller must fail, naming the side that failed.
    pub fn is_addable(&self) -> (r: Option<ValueAddable>)
        ensures
            r == self.spec_addable(),
    {
        match self {
            ValueType::String => Some(ValueAddable::String),
            ValueType::Number => Some(ValueAddable::Number),
            ValueType::ExactInteger(n) => Some(ValueAddable::Num(*n)),
            _ => None,
        }
    }
}

/// The result of adding two addable views, with exact integers folded.
pub open spec fn spec_add(a: ValueAddable, b: ValueAddable) -> Result<ValueAddable, AdditionError> {
    match (a, b) {
        (ValueAddable::Number, ValueAddable::Number) => Ok(ValueAddable::Number),
        (ValueAddable::Number, ValueAddable::Num(_)) => Ok(ValueAddable::Number),
        (ValueAddable::Num(_), ValueAddable::Number) => Ok(ValueAddable::Number),
        (ValueAddable::Num(x), ValueAddable::Num(y)) => Ok(ValueAddable::Num((x + y) as i64)),
        (ValueAddable::String, ValueAddable::String) => Ok(ValueAddable::String),
        _ => Err(AdditionError::IncompatibleTypes),
    }
}

impl ValueAddable {
    /// Adds two addable views.  Two exact integers fold to their exact sum;
    /// mixing numeric and string operands fails with an incompatibility error.
    ///
    /// The exact-plus-exact case must fit in an `i64`; the engine checks this
    /// bound before folding.
    pub fn perform_add(&self, other: &ValueAddable) -> (r: Result<ValueAddable, AdditionError>)
        requires
            (*self is Num && *other is Num) ==> i64::MIN <= self->Num_0 + other->Num_0
                <= i64::MAX,
        ensures
            r == spec_add(*self, *other),
    {
        match (self, other) {
            (ValueAddable::Number, ValueAddable::Number) => Ok(ValueAddable::Number),
            (ValueAddable::Number, ValueAddable::Num(_)) => Ok(ValueAddable::Number),
            (ValueAddable::Num(_), ValueAddable::Number) => Ok(ValueAddable::Number),
            (ValueAddable::Num(a), ValueAddable::Num(b)) => Ok(ValueAddable::Num(*a + *b)),
            (ValueAddable::String, ValueAddable::String) => Ok(ValueAddable::String),
            _ => Err(AdditionError::IncompatibleTypes),
        }
    }
}

/// The result of comparing two comparable views: abstract as soon as either
/// side is abstract, exact when both are exact.
pub open spec fn spec_less_than(a: ValueComparable, b: ValueComparable) -> ValueConditional {
    match (a, b) {
        (ValueComparable::Num(x), ValueComparable::Num(y)) => ValueConditional::Bool(x < y),
        _ => ValueConditional::Boolean,
    }
}

impl ValueComparable {
    /// Compares two comparable views: if either side is the abstract `Number`
    /// the result is the abstract `Boolean`; two exact integers fold to an
    /// exact boolean.
    pub fn perform_less_than(&self, other: &ValueComparable) -> (r: ValueConditional)
        ensures
            r == spec_less_than(*self, *other),
    {
        match (self, other) {
            (ValueComparable::Number, _) | (_, ValueComparable::Number) => {
                ValueConditional::Boolean
            },
            (ValueComparable::Num(lhs), ValueComparable::Num(rhs)) => {
                ValueConditional::Bool(*lhs < *rhs)
            },
        }
    }
}

/// Conversion of an operator outcome back into the value lattice.
pub trait IntoValueType {
    /// The lattice type this outcome stands for.
    spec fn spec_value_type(self) -> ValueType;

    fn into_value_type(self) -> (r: ValueType)
        ensures
            r == self.spec_value_type(),
    ;
}

impl IntoValueType for ValueConditional {
    open spec fn spec_value_type(self) -> ValueType {
        match self {
            ValueConditional::Boolean => ValueType::Boolean,
            ValueConditional::Bool(b) => ValueType::Bool(b),
        }
    }

    fn into_value_type(self) -> (r: ValueType) {
        match self {
            ValueConditional::Boolean => ValueType::Boolean,
            ValueConditional::Bool(b) => ValueType::Bool(b),
        }
    }
}

impl IntoValueType for ValueAddable {
    open spec fn spec_value_type(self) -> ValueType {
        match self {
            ValueAddable::Number => ValueType::Number,
            ValueAddable::Num(n) => ValueType::ExactInteger(n),
            ValueAddable::String => ValueType::String,
        }
    }

    fn into_value_type(self) -> (r: ValueType) {
        match self {
            ValueAddable::Number => ValueType::Number,
            ValueAddable::Num(n) => ValueType::ExactInteger(n),
            ValueAddable::String => ValueType::String,
        }
    }
}

/// The result of unifying two return types: `Never` is absorbed, equal values
/// join to themselves, anything else cannot be joined.
pub open spec fn spec_unify(a: ReturnType, b: ReturnType) -> Result<ReturnType, UnifyError> {
    if a is Never {
        Ok(b)
    } else if b is Never {
        Ok(a)
    } else if a == b {
        Ok(a)
    } else {
        Err(UnifyError::Incompatible(a, b))
    }
}

impl ReturnType {
    /// Joins `other` into `self`.  `Never` is the identity and is absorbed;
    /// equal operands join to themselves.  Joining two different `Value`
    /// payloads, or a `Void` with a `Value`, is not supported and fails
    /// loudly rather than silently picking one side.
    pub fn unify(&mut self, other: ReturnType) -> (r: Result<(), UnifyError>)
        ensures
            spec_unify(*old(self), other) matches Ok(v) ==> (r is Ok && *final(self) == v),
            spec_unify(*old(self), other) matches Err(e) ==> (r matches Err(e2) && e == e2
                && *final(self) == *old(self)),
    {
        match (&self, other) {
            (ReturnType::Never, other) => {
                *self = other;
                Ok(())
            },
            (_, ReturnType::Never) => Ok(()),
            (ReturnType::Void, ReturnType::Void) => Ok(()),
            (ReturnType::Value(a), ReturnType::Value(b)) => {
                if *a == b {
                    Ok(())
                } else {
                    Err(UnifyError::Incompatible(*self, ReturnType::Value(b)))
                }
            },
            (a, b) => Err(UnifyError::Incompatible(**a, b)),
        }
    }
}

/// The foreign type `ffi` widened into the symbolic lattice.
pub open spec fn spec_ffi_widened(ffi: FFIValueType) -> ValueType {
    match ffi {
        FFIValueType::Any => ValueType::Any,
        FFIValueType::Runtime => ValueType::Runtime,
        FFIValueType::Pointer(size) => ValueType::Pointer(size),
        FFIValueType::Word => ValueType::Word,
        FFIValueType::String => ValueType::String,
    }
}

/// Widens a foreign-interface type into the symbolic lattice; this is the
/// type a result register receives from an external call.
pub fn ffi_value_type_to_value_type(ffi_value_type: &FFIValueType) -> (r: ValueType)
    ensures
        r == spec_ffi_widened(*ffi_value_type),
{
    match ffi_value_type {
        FFIValueType::Any => ValueType::Any,
        FFIValueType::Runtime => ValueType::Runtime,
        FFIValueType::Pointer(size) => ValueType::Pointer(*size),
        FFIValueType::Word => ValueType::Word,
        FFIValueType::String => ValueType::String,
    }
}

/// The coercion relation at the foreign-interface boundary:
/// `Any` accepts every non-exotic symbolic type, `Runtime` only `Runtime`,
/// `Word` only `Word`, `String` accepts strings exact or not, and pointers
/// coerce only at equal width.
pub open spec fn spec_can_coerce(value_type: ValueType, ffi: FFIValueType) -> bool {
    match (ffi, value_type) {
        (FFIValueType::Any, ValueType::Any) => true,
        (FFIValueType::Any, ValueType::String) => true,
        (FFIValueType::Any, ValueType::ExactString(_)) => true,
        (FFIValueType::Any, ValueType::Number) => true,
        (FFIValueType::Any, ValueType::ExactInteger(_)) => true,
        (FFIValueType::Any, ValueType::Boolean) => true,
        (FFIValueType::Any, ValueType::Bool(_)) => true,
        (FFIValueType::Runtime, ValueType::Runtime) => true,
        (FFIValueType::Word, ValueType::Word) => true,
        (FFIValueType::String, ValueType::String) => true,
        (FFIValueType::String, ValueType::ExactString(_)) => true,
        (FFIValueType::Pointer(p1), ValueType::Pointer(p2)) => p1 == p2,
        _ => false,
    }
}

/// The coercion check applied to every argument of an external call.
pub struct FFICoerce;

impl FFICoerce {
    /// Whether `value_type` may cross the foreign-interface boundary into a
    /// parameter declared as `ffi`.
    pub fn can_coerce(value_type: &ValueType, ffi: &FFIValueType) -> (r: bool)
        ensures
            r == spec_can_coerce(*value_type, *ffi),
    {
        match (ffi, value_type) {
            (FFIValueType::Any, ValueType::Any)
            | (FFIValueType::Any, ValueType::String)
            | (FFIValueType::Any, ValueType::ExactString(_))
            | (FFIValueType::Any, ValueType::Number)
            | (FFIValueType::Any, ValueType::ExactInteger(_))
            | (FFIValueType::Any, ValueType::Boolean)
            | (FFIValueType::Any, ValueType::Bool(_))
            | (FFIValueType::Runtime, ValueType::Runtime)
            | (FFIValueType::Word, ValueType::Word)
            | (FFIValueType::String, ValueType::String)
            | (FFIValueType::String, ValueType::ExactString(_)) => true,
            (FFIValueType::Pointer(p1), ValueType::Pointer(p2)) => *p1 == *p2,
            (_, _) => false,
        }
    }
}

/// Coercion laws: an exact string coerces to foreign `String` and `Any`
/// whatever constant it names; an exact integer never coerces to a pointer;
/// pointers never coerce across different widths.
pub proof fn lemma_coercion(c: ConstantId, n: i64, w1: u16, w2: u16)
    ensures
        spec_can_coerce(ValueType::ExactString(c), FFIValueType::String),
        spec_can_coerce(ValueType::ExactString(c), FFIValueType::Any),
        !spec_can_coerce(ValueType::ExactInteger(n), FFIValueType::Pointer(w1)),
        w1 != w2 ==> !spec_can_coerce(ValueType::Pointer(w1), FFIValueType::Pointer(w2)),
{
}

/// `unify` identity law: `Never` joined with `x`, on either side, is `x`.
pub proof fn lemma_unify_never_identity(x: ReturnType)
    ensures
        spec_unify(ReturnType::Never, x) == Ok::<ReturnType, UnifyError>(x),
        spec_unify(x, ReturnType::Never) == Ok::<ReturnType, UnifyError>(x),
{
}

} // verus!

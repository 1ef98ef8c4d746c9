use vstd::prelude::*;

verus! {

/// Numeric carriers that widen to a value of their maximum width.
pub trait Num {
    /// The widest type of the carrier family.
    type Max;

    /// Widen the carried value to the maximum width.
    fn to_max_value(&self) -> Self::Max;
}

/// Numeric carriers that pick their own width from a maximum-width value.
pub trait VariablySized: Num + Sized {
    /// Choose the narrowest carrier whose range holds `value`.
    fn fit(value: Self::Max) -> Self;
}

/// Width-tagged signed integer carrier. Construction through `fit` picks the
/// narrowest width whose range holds the value; arithmetic elsewhere widens to
/// the maximum width, computes, and re-fits the result.
#[derive(Clone, Copy, Debug, Hash)]
pub enum Int {
    _8(i8),
    _16(i16),
    _32(i32),
    _64(i64),
    _128(i128),
}

impl Int {
    /// The carried value, as a mathematical integer.
    pub open spec fn spec_max_value(self) -> int {
        match self {
            Int::_8(v) => v as int,
            Int::_16(v) => v as int,
            Int::_32(v) => v as int,
            Int::_64(v) => v as int,
            Int::_128(v) => v as int,
        }
    }

    /// The carrier that `fit` picks for a value: the narrowest width whose
    /// range holds it.
    pub open spec fn spec_fit(value: int) -> Int {
        if -0x80 <= value < 0x80 {
            Int::_8(value as i8)
        } else if -0x8000 <= value < 0x8000 {
            Int::_16(value as i16)
        } else if -0x8000_0000 <= value < 0x8000_0000 {
            Int::_32(value as i32)
        } else if -0x8000_0000_0000_0000 <= value < 0x8000_0000_0000_0000 {
            Int::_64(value as i64)
        } else {
            Int::_128(value as i128)
        }
    }

    /// Widen the carried value to the maximum width.
    pub fn to_max_value(&self) -> (r: i128)
        ensures
            r as int == self.spec_max_value(),
    {
        match self {
            Int::_8(v) => *v as i128,
            Int::_16(v) => *v as i128,
            Int::_32(v) => *v as i128,
            Int::_64(v) => *v as i128,
            Int::_128(v) => *v,
        }
    }

    /// Choose the narrowest carrier whose range holds `value`.
    pub fn fit(value: i128) -> (r: Int)
        ensures
            r == Int::spec_fit(value as int),
            r.spec_max_value() == value as int,
    {
        if -0x80 <= value && value < 0x80 {
            Int::_8(value as i8)
        } else if -0x8000 <= value && value < 0x8000 {
            Int::_16(value as i16)
        } else if -0x8000_0000 <= value && value < 0x8000_0000 {
            Int::_32(value as i32)
        } else if -0x8000_0000_0000_0000 <= value && value < 0x8000_0000_0000_0000 {
            Int::_64(value as i64)
        } else {
            Int::_128(value)
        }
    }
}

impl Num for Int {
    type Max = i128;

    fn to_max_value(&self) -> (r: i128)
        ensures
            r as int == self.spec_max_value(),
    {
        Int::to_max_value(self)
    }
}

impl VariablySized for Int {
    fn fit(value: i128) -> (r: Int)
        ensures
            r == Int::spec_fit(value as int),
    {
        Int::fit(value)
    }
}

impl PartialEq for Int {
    /// Two carriers are equal when they carry the same value, whatever their
    /// widths.
    fn eq(&self, other: &Self) -> (r: bool) {
        self.to_max_value() == other.to_max_value()
    }
}

impl vstd::std_specs::cmp::PartialEqSpecImpl for Int {
    open spec fn obeys_eq_spec() -> bool {
        true
    }

    open spec fn eq_spec(&self, other: &Int) -> bool {
        self.spec_max_value() == other.spec_max_value()
    }
}

/// Numeric width selection is idempotent: re-fitting the value carried by a
/// fitted carrier chooses that same carrier.
pub proof fn lemma_fit_idempotent(value: int)
    requires
        i128::MIN as int <= value <= i128::MAX as int,
    ensures
        Int::spec_fit(Int::spec_fit(value).spec_max_value()) == Int::spec_fit(value),
{
}

} // verus!

//! Runtime values and the constant pool that holds them.
use vstd::prelude::*;
use vstd::std_specs::cmp::PartialEqSpecImpl;

verus! {

/// A value of the language. A `Number` is an IEEE 754 binary64 value, held
/// as its 64-bit pattern.
#[derive(Debug)]
pub enum Value {
    Boolean(bool),
    Number(u64),
    Str(String),
    Nil,
}

/// The mathematical content of a [`Value`].
pub enum ValueView {
    Boolean(bool),
    Number(u64),
    Str(Seq<char>),
    Nil,
}

impl View for Value {
    type V = ValueView;

    open spec fn view(&self) -> ValueView {
        match self {
            Value::Boolean(b) => ValueView::Boolean(*b),
            Value::Number(bits) => ValueView::Number(*bits),
            Value::Str(s) => ValueView::Str(s@),
            Value::Nil => ValueView::Nil,
        }
    }
}

/// The views of a sequence of values, item by item.
pub open spec fn value_views(values: Seq<Value>) -> Seq<ValueView> {
    values.map_values(|v: Value| v@)
}

/// The sign bit of a binary64 pattern.
pub const SIGN_BIT: u64 = 0x8000_0000_0000_0000;

/// Everything but the sign bit of a binary64 pattern.
pub const MAGNITUDE_MASK: u64 = 0x7fff_ffff_ffff_ffff;

/// The magnitude of the infinities; every larger magnitude is a NaN.
pub const INFINITY_MAGNITUDE: u64 = 0x7ff0_0000_0000_0000;

/// Whether a pattern is a NaN: exponent all ones, fraction not zero.
pub open spec fn number_is_nan(bits: u64) -> bool {
    (bits & MAGNITUDE_MASK) > INFINITY_MAGNITUDE
}

/// An integer that orders the patterns that are no NaN as their numbers are
/// ordered: the magnitude, negated under a sign bit. Both zeros map to 0.
pub open spec fn number_key(bits: u64) -> int {
    if bits & SIGN_BIT != 0 {
        -((bits & MAGNITUDE_MASK) as int)
    } else {
        (bits & MAGNITUDE_MASK) as int
    }
}

/// Numeric `==`: false if either side is a NaN, else equality of the numbers
/// (so the two zeros are equal).
pub open spec fn numbers_equal(a: u64, b: u64) -> bool {
    !number_is_nan(a) && !number_is_nan(b) && number_key(a) == number_key(b)
}

/// Numeric `<`: false if either side is a NaN.
pub open spec fn number_less(a: u64, b: u64) -> bool {
    !number_is_nan(a) && !number_is_nan(b) && number_key(a) < number_key(b)
}

/// Numeric negation: the sign bit flipped, NaNs included.
pub open spec fn number_negated(bits: u64) -> u64 {
    bits ^ SIGN_BIT
}

/// Equality of the language: within one kind the natural one, across kinds
/// always false.
pub open spec fn values_equal(a: ValueView, b: ValueView) -> bool {
    match (a, b) {
        (ValueView::Boolean(x), ValueView::Boolean(y)) => x == y,
        (ValueView::Number(x), ValueView::Number(y)) => numbers_equal(x, y),
        (ValueView::Str(x), ValueView::Str(y)) => x == y,
        (ValueView::Nil, ValueView::Nil) => true,
        _ => false,
    }
}

/// A value counts as false exactly when it is `Nil` or `Boolean(false)`.
pub open spec fn value_is_falsey(v: ValueView) -> bool {
    v is Nil || v == ValueView::Boolean(false)
}

/// The text that printing writes for a value that is no number. A number has
/// no text here: rendering it is the host's part.
pub open spec fn value_text(v: ValueView) -> Option<Seq<char>> {
    match v {
        ValueView::Boolean(true) => Some("true"@),
        ValueView::Boolean(false) => Some("false"@),
        ValueView::Number(_) => None,
        ValueView::Str(s) => Some(s),
        ValueView::Nil => Some("nil"@),
    }
}

/// Whether `bits` is a NaN.
pub fn is_nan(bits: u64) -> (nan: bool)
    ensures
        nan == number_is_nan(bits),
{
    (bits & MAGNITUDE_MASK) > INFINITY_MAGNITUDE
}

/// Whether the numbers `a` and `b` are equal.
pub fn equal_numbers(a: u64, b: u64) -> (same: bool)
    ensures
        same == numbers_equal(a, b),
{
    if is_nan(a) || is_nan(b) {
        false
    } else {
        let ma: u64 = a & MAGNITUDE_MASK;
        let mb: u64 = b & MAGNITUDE_MASK;
        let a_negative = a & SIGN_BIT != 0;
        let b_negative = b & SIGN_BIT != 0;
        (ma == 0 && mb == 0) || (a_negative == b_negative && ma == mb)
    }
}

/// Whether the number `a` is less than the number `b`.
pub fn less_number(a: u64, b: u64) -> (less: bool)
    ensures
        less == number_less(a, b),
{
    if is_nan(a) || is_nan(b) {
        false
    } else {
        let ma: u64 = a & MAGNITUDE_MASK;
        let mb: u64 = b & MAGNITUDE_MASK;
        let a_negative = a & SIGN_BIT != 0;
        let b_negative = b & SIGN_BIT != 0;
        if a_negative {
            if b_negative {
                mb < ma
            } else {
                ma != 0 || mb != 0
            }
        } else {
            !b_negative && ma < mb
        }
    }
}

/// The number `bits` negated.
pub fn negate_number(bits: u64) -> (negated: u64)
    ensures
        negated == number_negated(bits),
{
    bits ^ SIGN_BIT
}

impl Value {
    /// Whether the value is a number.
    pub fn is_number(&self) -> (yes: bool)
        ensures
            yes == (self@ is Number),
    {
        match self {
            Value::Number(_) => true,
            _ => false,
        }
    }

    /// Whether the value counts as false.
    pub fn is_falsey(&self) -> (yes: bool)
        ensures
            yes == value_is_falsey(self@),
    {
        match self {
            Value::Nil => true,
            Value::Boolean(false) => true,
            _ => false,
        }
    }

    /// Whether the value is a string.
    pub fn is_string(&self) -> (yes: bool)
        ensures
            yes == (self@ is Str),
    {
        match self {
            Value::Str(_) => true,
            _ => false,
        }
    }

    /// The negation of a number.
    pub fn neg(self) -> (negated: Value)
        requires
            self@ is Number,
        ensures
            negated@ == ValueView::Number(number_negated(self@->Number_0)),
    {
        match self {
            Value::Number(bits) => Value::Number(negate_number(bits)),
            other => other,
        }
    }

    /// The text that printing writes for the value, or `None` for a number.
    pub fn to_text(&self) -> (text: Option<String>)
        ensures
            match text {
                Some(t) => value_text(self@) == Some(t@),
                None => value_text(self@) is None,
            },
    {
        match self {
            Value::Boolean(true) => Some("true".to_owned()),
            Value::Boolean(false) => Some("false".to_owned()),
            Value::Number(_) => None,
            Value::Str(s) => Some(s.clone()),
            Value::Nil => Some("nil".to_owned()),
        }
    }
}

impl Clone for Value {
    fn clone(&self) -> (copy: Self)
        ensures
            copy@ == self@,
    {
        match self {
            Value::Boolean(b) => Value::Boolean(*b),
            Value::Number(bits) => Value::Number(*bits),
            Value::Str(s) => Value::Str(s.clone()),
            Value::Nil => Value::Nil,
        }
    }
}

impl PartialEq for Value {
    fn eq(&self, other: &Self) -> (same: bool) {
        match (self, other) {
            (Value::Boolean(a), Value::Boolean(b)) => *a == *b,
            (Value::Number(a), Value::Number(b)) => equal_numbers(*a, *b),
            (Value::Str(a), Value::Str(b)) => *a == *b,
            (Value::Nil, Value::Nil) => true,
            _ => false,
        }
    }
}

impl PartialEqSpecImpl for Value {
    open spec fn obeys_eq_spec() -> bool {
        true
    }

    open spec fn eq_spec(&self, other: &Self) -> bool {
        values_equal(self@, other@)
    }
}

/// Values of different kinds are never equal, whatever they hold.
pub proof fn lemma_cross_kind_unequal(a: ValueView, b: ValueView)
    requires
        !(a is Boolean && b is Boolean),
        !(a is Number && b is Number),
        !(a is Str && b is Str),
        !(a is Nil && b is Nil),
    ensures
        !values_equal(a, b),
{
}

/// `Nil` and `Boolean(false)` both count as false and are still unequal.
pub proof fn lemma_nil_is_not_false()
    ensures
        value_is_falsey(ValueView::Nil),
        value_is_falsey(ValueView::Boolean(false)),
        !values_equal(ValueView::Nil, ValueView::Boolean(false)),
        !values_equal(ValueView::Boolean(false), ValueView::Nil),
{
}

/// A growable array of values.
pub struct ValueArray {
    pub values: Vec<Value>,
}

impl View for ValueArray {
    type V = Seq<ValueView>;

    open spec fn view(&self) -> Seq<ValueView> {
        value_views(self.values@)
    }
}

impl ValueArray {
    /// An empty array.
    pub fn new() -> (array: Self)
        ensures
            array@ == Seq::<ValueView>::empty(),
    {
        let array = ValueArray { values: Vec::new() };
        assert(array@ =~= Seq::<ValueView>::empty());
        array
    }

    /// Appends `value` and returns the index it was given.
    pub fn write(&mut self, value: Value) -> (index: usize)
        ensures
            final(self)@ == old(self)@.push(value@),
            index == old(self)@.len(),
    {
        let index = self.values.len();
        self.values.push(value);
        assert(self@ =~= old(self)@.push(value@));
        index
    }

    /// Empties the array.
    pub fn free(&mut self)
        ensures
            final(self)@ == Seq::<ValueView>::empty(),
    {
        self.values = Vec::new();
        assert(self@ =~= Seq::<ValueView>::empty());
    }

    /// The number of values held.
    pub fn len(&self) -> (len: usize)
        ensures
            len == self@.len(),
    {
        self.values.len()
    }

    /// The text that printing writes for the value at `index`, or `None`
    /// for a number.
    pub fn print_value(&self, index: usize) -> (text: Option<String>)
        requires
            index < self@.len(),
        ensures
            match text {
                Some(t) => value_text(self@[index as int]) == Some(t@),
                None => value_text(self@[index as int]) is None,
            },
    {
        self.values[index].to_text()
    }

    /// A copy of the value at `index`.
    pub fn get(&self, index: usize) -> (value: Value)
        requires
            index < self@.len(),
        ensures
            value@ == self@[index as int],
    {
        self.values[index].clone()
    }
}

} // verus!

use std::cmp::Ordering;
use vstd::prelude::*;
use vstd::std_specs::cmp::PartialOrdSpecImpl;
use vstd::std_specs::convert::FromSpecImpl;
use vstd::std_specs::ops::{AddSpecImpl, SubSpecImpl};

verus! {

/// A value on the operand stack or in a local.
#[derive(Debug, Clone, Copy, PartialEq, Eq, Structural)]
pub enum Value {
    I32(i32),
    I64(i64),
}

/// The sum of two 32-bit integers, wrapped into 32 bits in two's complement.
pub open spec fn wrapping_sum_i32(a: i32, b: i32) -> i32 {
    if a + b > i32::MAX {
        (a + b - 0x1_0000_0000) as i32
    } else if a + b < i32::MIN {
        (a + b + 0x1_0000_0000) as i32
    } else {
        (a + b) as i32
    }
}

/// The difference of two 32-bit integers, wrapped into 32 bits in two's complement.
pub open spec fn wrapping_difference_i32(a: i32, b: i32) -> i32 {
    if a - b > i32::MAX {
        (a - b - 0x1_0000_0000) as i32
    } else if a - b < i32::MIN {
        (a - b + 0x1_0000_0000) as i32
    } else {
        (a - b) as i32
    }
}

/// The sum of two 64-bit integers, wrapped into 64 bits in two's complement.
pub open spec fn wrapping_sum_i64(a: i64, b: i64) -> i64 {
    if a + b > i64::MAX {
        (a + b - 0x1_0000_0000_0000_0000) as i64
    } else if a + b < i64::MIN {
        (a + b + 0x1_0000_0000_0000_0000) as i64
    } else {
        (a + b) as i64
    }
}

/// The difference of two 64-bit integers, wrapped into 64 bits in two's complement.
pub open spec fn wrapping_difference_i64(a: i64, b: i64) -> i64 {
    if a - b > i64::MAX {
        (a - b - 0x1_0000_0000_0000_0000) as i64
    } else if a - b < i64::MIN {
        (a - b + 0x1_0000_0000_0000_0000) as i64
    } else {
        (a - b) as i64
    }
}

impl Value {
    /// Both values are of the same type.
    pub open spec fn same_type(self, other: Value) -> bool {
        (self is I32) == (other is I32)
    }

    /// The 32-bit integer in the value, if it holds one.
    pub fn as_i32(self) -> (number: Option<i32>)
        ensures
            number == (match self {
                Value::I32(value) => Some(value),
                Value::I64(_) => None,
            }),
    {
        match self {
            Value::I32(value) => Some(value),
            Value::I64(_) => None,
        }
    }

    /// The sum of two values of one type, with wrap-around.
    pub open spec fn spec_sum(self, rhs: Value) -> Value {
        match (self, rhs) {
            (Value::I32(left), Value::I32(right)) => Value::I32(wrapping_sum_i32(left, right)),
            (Value::I64(left), Value::I64(right)) => Value::I64(wrapping_sum_i64(left, right)),
            _ => self,
        }
    }

    /// The difference of two values of one type, with wrap-around.
    pub open spec fn spec_difference(self, rhs: Value) -> Value {
        match (self, rhs) {
            (Value::I32(left), Value::I32(right)) => Value::I32(
                wrapping_difference_i32(left, right),
            ),
            (Value::I64(left), Value::I64(right)) => Value::I64(
                wrapping_difference_i64(left, right),
            ),
            _ => self,
        }
    }

    /// Whether `self` is below `rhs`, both read as signed integers of one type.
    pub open spec fn spec_less(self, rhs: Value) -> bool {
        match (self, rhs) {
            (Value::I32(left), Value::I32(right)) => left < right,
            (Value::I64(left), Value::I64(right)) => left < right,
            _ => false,
        }
    }
}

impl From<i32> for Value {
    fn from(value: i32) -> (v: Value) {
        Value::I32(value)
    }
}

impl FromSpecImpl<i32> for Value {
    open spec fn obeys_from_spec() -> bool {
        true
    }

    open spec fn from_spec(value: i32) -> Value {
        Value::I32(value)
    }
}

impl From<i64> for Value {
    fn from(value: i64) -> (v: Value) {
        Value::I64(value)
    }
}

impl FromSpecImpl<i64> for Value {
    open spec fn obeys_from_spec() -> bool {
        true
    }

    open spec fn from_spec(value: i64) -> Value {
        Value::I64(value)
    }
}

impl From<bool> for Value {
    fn from(value: bool) -> (v: Value) {
        Value::I32(if value { 1 } else { 0 })
    }
}

impl FromSpecImpl<bool> for Value {
    open spec fn obeys_from_spec() -> bool {
        true
    }

    open spec fn from_spec(value: bool) -> Value {
        Value::I32(if value { 1i32 } else { 0i32 })
    }
}

impl std::ops::Add for Value {
    type Output = Value;

    /// Adds two values of one type; the sum wraps around.
    fn add(self, rhs: Value) -> (sum: Value) {
        match (self, rhs) {
            (Value::I32(left), Value::I32(right)) => Value::I32(left.wrapping_add(right)),
            (Value::I64(left), Value::I64(right)) => Value::I64(left.wrapping_add(right)),
            _ => self,
        }
    }
}

impl AddSpecImpl for Value {
    open spec fn obeys_add_spec() -> bool {
        true
    }

    open spec fn add_req(self, rhs: Value) -> bool {
        self.same_type(rhs)
    }

    open spec fn add_spec(self, rhs: Value) -> Value {
        self.spec_sum(rhs)
    }
}

impl std::ops::Sub for Value {
    type Output = Value;

    /// Subtracts a value from one of the same type; the difference wraps around.
    fn sub(self, rhs: Value) -> (difference: Value) {
        match (self, rhs) {
            (Value::I32(left), Value::I32(right)) => Value::I32(left.wrapping_sub(right)),
            (Value::I64(left), Value::I64(right)) => Value::I64(left.wrapping_sub(right)),
            _ => self,
        }
    }
}

impl SubSpecImpl for Value {
    open spec fn obeys_sub_spec() -> bool {
        true
    }

    open spec fn sub_req(self, rhs: Value) -> bool {
        self.same_type(rhs)
    }

    open spec fn sub_spec(self, rhs: Value) -> Value {
        self.spec_difference(rhs)
    }
}

impl PartialOrd for Value {
    /// Orders two values of one type as signed integers; values of different
    /// types are not ordered.
    fn partial_cmp(&self, other: &Value) -> (order: Option<Ordering>) {
        match (self, other) {
            (Value::I32(a), Value::I32(b)) => Some(
                if *a < *b {
                    Ordering::Less
                } else if *a == *b {
                    Ordering::Equal
                } else {
                    Ordering::Greater
                },
            ),
            (Value::I64(a), Value::I64(b)) => Some(
                if *a < *b {
                    Ordering::Less
                } else if *a == *b {
                    Ordering::Equal
                } else {
                    Ordering::Greater
                },
            ),
            _ => None,
        }
    }
}

impl PartialOrdSpecImpl for Value {
    open spec fn obeys_partial_cmp_spec() -> bool {
        true
    }

    open spec fn partial_cmp_spec(&self, other: &Value) -> Option<Ordering> {
        match (*self, *other) {
            (Value::I32(a), Value::I32(b)) => Some(
                if a < b {
                    Ordering::Less
                } else if a == b {
                    Ordering::Equal
                } else {
                    Ordering::Greater
                },
            ),
            (Value::I64(a), Value::I64(b)) => Some(
                if a < b {
                    Ordering::Less
                } else if a == b {
                    Ordering::Equal
                } else {
                    Ordering::Greater
                },
            ),
            _ => None,
        }
    }
}

/// The kinds of structured block that leave a label.
#[derive(Debug, Clone, Copy, PartialEq, Eq, Structural)]
pub enum LabelKind {
    If,
}

/// The mark that entering a block leaves in its frame, for `end` to take off.
#[derive(Debug, Clone, Copy)]
pub struct Label {
    pub kind: LabelKind,
    pub pc: usize,
    pub sp: usize,
    pub arity: usize,
}

} // verus!

//! Runtime values: the scalar kinds of the parse-time values plus the
//! shared, mutable array. An array value is a handle — an index into the
//! virtual machine's array store — so assigning it copies the handle, never
//! the backing sequence.
//!
//! Arithmetic is defined over integer pairs, float pairs, and mixed
//! int/float pairs (the integer is promoted); comparison additionally over
//! string and boolean pairs for (in)equality. Anything else is a runtime
//! type error. Integer arithmetic wraps; integer division and modulo
//! truncate, and division by zero is an error, never a panic.

use vstd::prelude::*;
use vstd::string::*;

use crate::fp::{
    fp_difference, fp_eq, fp_from_int, fp_is_eq, fp_is_lt, fp_lt, fp_of_int, fp_product,
    fp_quotient, fp_rem, fp_remainder, fp_sum, fp_add, fp_sub, fp_mul, fp_div,
};
use crate::statements::{Value, ValueV};

verus! {

/// A runtime value. `Array(h)` is a handle into the VM's array store:
/// copying the value aliases the same backing sequence.
#[derive(Debug, Clone, PartialEq)]
pub enum VMValue {
    Bool(bool),
    Int(i64),
    Float(u64),
    Str(String),
    Identifier(String),
    Array(usize),
}

/// The mathematical value of a [`VMValue`].
pub enum VMValueV {
    Bool(bool),
    Int(i64),
    Float(u64),
    Str(Seq<char>),
    Identifier(Seq<char>),
    Array(int),
}

impl View for VMValue {
    type V = VMValueV;

    open spec fn view(&self) -> VMValueV {
        match self {
            VMValue::Bool(b) => VMValueV::Bool(*b),
            VMValue::Int(i) => VMValueV::Int(*i),
            VMValue::Float(f) => VMValueV::Float(*f),
            VMValue::Str(s) => VMValueV::Str(s@),
            VMValue::Identifier(s) => VMValueV::Identifier(s@),
            VMValue::Array(h) => VMValueV::Array(*h as int),
        }
    }
}

impl DeepView for VMValue {
    type V = VMValueV;

    open spec fn deep_view(&self) -> VMValueV {
        self.view()
    }
}

/// The sum of two runtime values: integer addition wraps, float addition is
/// IEEE, a mixed pair promotes the integer; anything else is a type error.
pub open spec fn spec_add_vals(a: VMValueV, b: VMValueV) -> Result<VMValueV, ()> {
    match (a, b) {
        (VMValueV::Int(x), VMValueV::Int(y)) => Ok(
            VMValueV::Int(vstd::wrapping::i64_specs::wrapping_add(x, y)),
        ),
        (VMValueV::Float(x), VMValueV::Float(y)) => Ok(VMValueV::Float(fp_sum(x, y))),
        (VMValueV::Int(x), VMValueV::Float(y)) => Ok(VMValueV::Float(fp_sum(fp_of_int(x), y))),
        (VMValueV::Float(x), VMValueV::Int(y)) => Ok(VMValueV::Float(fp_sum(x, fp_of_int(y)))),
        _ => Err(()),
    }
}

/// The difference of two runtime values (see [`spec_add_vals`]).
pub open spec fn spec_sub_vals(a: VMValueV, b: VMValueV) -> Result<VMValueV, ()> {
    match (a, b) {
        (VMValueV::Int(x), VMValueV::Int(y)) => Ok(
            VMValueV::Int(vstd::wrapping::i64_specs::wrapping_sub(x, y)),
        ),
        (VMValueV::Float(x), VMValueV::Float(y)) => Ok(VMValueV::Float(fp_difference(x, y))),
        (VMValueV::Int(x), VMValueV::Float(y)) => Ok(
            VMValueV::Float(fp_difference(fp_of_int(x), y)),
        ),
        (VMValueV::Float(x), VMValueV::Int(y)) => Ok(
            VMValueV::Float(fp_difference(x, fp_of_int(y))),
        ),
        _ => Err(()),
    }
}

/// The product of two runtime values (see [`spec_add_vals`]).
pub open spec fn spec_mul_vals(a: VMValueV, b: VMValueV) -> Result<VMValueV, ()> {
    match (a, b) {
        (VMValueV::Int(x), VMValueV::Int(y)) => Ok(
            VMValueV::Int(vstd::wrapping::i64_specs::wrapping_mul(x, y)),
        ),
        (VMValueV::Float(x), VMValueV::Float(y)) => Ok(VMValueV::Float(fp_product(x, y))),
        (VMValueV::Int(x), VMValueV::Float(y)) => Ok(
            VMValueV::Float(fp_product(fp_of_int(x), y)),
        ),
        (VMValueV::Float(x), VMValueV::Int(y)) => Ok(
            VMValueV::Float(fp_product(x, fp_of_int(y))),
        ),
        _ => Err(()),
    }
}

/// The quotient of two runtime values: integer division truncates and wraps
/// on the one overflowing pair, integer division by zero is an error; float
/// division is IEEE (a float zero divisor gives an infinity or NaN, not an
/// error).
pub open spec fn spec_div_vals(a: VMValueV, b: VMValueV) -> Result<VMValueV, ()> {
    match (a, b) {
        (VMValueV::Int(x), VMValueV::Int(y)) => {
            if y == 0 {
                Err(())
            } else {
                match x.checked_div(y) {
                    Some(q) => Ok(VMValueV::Int(q)),
                    None => Ok(VMValueV::Int(i64::MIN)),
                }
            }
        },
        (VMValueV::Float(x), VMValueV::Float(y)) => Ok(VMValueV::Float(fp_quotient(x, y))),
        (VMValueV::Int(x), VMValueV::Float(y)) => Ok(
            VMValueV::Float(fp_quotient(fp_of_int(x), y)),
        ),
        (VMValueV::Float(x), VMValueV::Int(y)) => Ok(
            VMValueV::Float(fp_quotient(x, fp_of_int(y))),
        ),
        _ => Err(()),
    }
}

/// The remainder of two runtime values (see [`spec_div_vals`]).
pub open spec fn spec_mod_vals(a: VMValueV, b: VMValueV) -> Result<VMValueV, ()> {
    match (a, b) {
        (VMValueV::Int(x), VMValueV::Int(y)) => {
            if y == 0 {
                Err(())
            } else {
                match x.checked_rem(y) {
                    Some(q) => Ok(VMValueV::Int(q)),
                    None => Ok(VMValueV::Int(0)),
                }
            }
        },
        (VMValueV::Float(x), VMValueV::Float(y)) => Ok(VMValueV::Float(fp_remainder(x, y))),
        (VMValueV::Int(x), VMValueV::Float(y)) => Ok(
            VMValueV::Float(fp_remainder(fp_of_int(x), y)),
        ),
        (VMValueV::Float(x), VMValueV::Int(y)) => Ok(
            VMValueV::Float(fp_remainder(x, fp_of_int(y))),
        ),
        _ => Err(()),
    }
}

/// Equality of two runtime values: defined for like-typed numeric, string
/// and boolean pairs, and for mixed int/float pairs (the integer is
/// promoted); anything else is a type error.
pub open spec fn spec_eq_vals(a: VMValueV, b: VMValueV) -> Result<bool, ()> {
    match (a, b) {
        (VMValueV::Int(x), VMValueV::Int(y)) => Ok(x == y),
        (VMValueV::Float(x), VMValueV::Float(y)) => Ok(fp_eq(x, y)),
        (VMValueV::Int(x), VMValueV::Float(y)) => Ok(fp_eq(fp_of_int(x), y)),
        (VMValueV::Float(x), VMValueV::Int(y)) => Ok(fp_eq(x, fp_of_int(y))),
        (VMValueV::Str(x), VMValueV::Str(y)) => Ok(x == y),
        (VMValueV::Bool(x), VMValueV::Bool(y)) => Ok(x == y),
        _ => Err(()),
    }
}

/// Strict order of two runtime values: defined for numeric pairs only, with
/// mixed int/float promotion; strings and booleans have no order here.
pub open spec fn spec_lt_vals(a: VMValueV, b: VMValueV) -> Result<bool, ()> {
    match (a, b) {
        (VMValueV::Int(x), VMValueV::Int(y)) => Ok(x < y),
        (VMValueV::Float(x), VMValueV::Float(y)) => Ok(fp_lt(x, y)),
        (VMValueV::Int(x), VMValueV::Float(y)) => Ok(fp_lt(fp_of_int(x), y)),
        (VMValueV::Float(x), VMValueV::Int(y)) => Ok(fp_lt(x, fp_of_int(y))),
        _ => Err(()),
    }
}

impl VMValue {
    /// The runtime value of a parse-time value: scalars carry over, an
    /// identifier keeps its name for late resolution.
    pub fn from(value: Value) -> (r: VMValue)
        ensures
            r@ == (match value@ {
                ValueV::Bool(b) => VMValueV::Bool(b),
                ValueV::Int(i) => VMValueV::Int(i),
                ValueV::Float(f) => VMValueV::Float(f),
                ValueV::Str(s) => VMValueV::Str(s),
                ValueV::Identifier(n) => VMValueV::Identifier(n),
            }),
    {
        match value {
            Value::Bool(b) => VMValue::Bool(b),
            Value::Int(i) => VMValue::Int(i),
            Value::Float(f) => VMValue::Float(f),
            Value::Str(s) => VMValue::Str(s),
            Value::Identifier(n) => VMValue::Identifier(n),
        }
    }

    /// A copy of this value, equal in value; an array copy aliases the same
    /// handle.
    pub fn dup(&self) -> (r: VMValue)
        ensures
            r@ == self@,
    {
        match self {
            VMValue::Bool(b) => VMValue::Bool(*b),
            VMValue::Int(i) => VMValue::Int(*i),
            VMValue::Float(f) => VMValue::Float(*f),
            VMValue::Str(s) => VMValue::Str(s.clone()),
            VMValue::Identifier(s) => VMValue::Identifier(s.clone()),
            VMValue::Array(h) => VMValue::Array(*h),
        }
    }

    /// The display name of this value's type.
    pub fn name(&self) -> (r: String)
        ensures
            r@ == spec_type_name(self@),
    {
        match self {
            VMValue::Bool(_) => {
                let r = String::from_str("bool");
                proof {
                    reveal_strlit("bool");
                    assert(r@ =~= seq!['b', 'o', 'o', 'l']);
                }
                r
            },
            VMValue::Int(_) => {
                let r = String::from_str("int");
                proof {
                    reveal_strlit("int");
                    assert(r@ =~= seq!['i', 'n', 't']);
                }
                r
            },
            VMValue::Float(_) => {
                let r = String::from_str("float");
                proof {
                    reveal_strlit("float");
                    assert(r@ =~= seq!['f', 'l', 'o', 'a', 't']);
                }
                r
            },
            VMValue::Str(_) => {
                let r = String::from_str("string");
                proof {
                    reveal_strlit("string");
                    assert(r@ =~= seq!['s', 't', 'r', 'i', 'n', 'g']);
                }
                r
            },
            VMValue::Identifier(_) => {
                let r = String::from_str("identifier");
                proof {
                    reveal_strlit("identifier");
                    assert(r@ =~= seq!['i', 'd', 'e', 'n', 't', 'i', 'f', 'i', 'e', 'r']);
                }
                r
            },
            VMValue::Array(_) => {
                let r = String::from_str("array");
                proof {
                    reveal_strlit("array");
                    assert(r@ =~= seq!['a', 'r', 'r', 'a', 'y']);
                }
                r
            },
        }
    }

    /// A type-error message: `cannot <what> <type> and <type>`.
    fn type_error(&self, what: &str, other: &VMValue) -> (m: String) {
        let mut m = String::from_str("cannot ");
        m.append(what);
        m.append(" ");
        let a = self.name();
        m.append(a.as_str());
        m.append(" and ");
        let b = other.name();
        m.append(b.as_str());
        m
    }

    /// The sum of this value and `other` (see [`spec_add_vals`]).
    pub fn add(&self, other: &VMValue) -> (r: Result<VMValue, String>)
        ensures
            match spec_add_vals(self@, other@) {
                Ok(v) => r is Ok && r->Ok_0@ == v,
                Err(()) => r is Err,
            },
    {
        match (self, other) {
            (VMValue::Int(x), VMValue::Int(y)) => Ok(VMValue::Int(x.wrapping_add(*y))),
            (VMValue::Float(x), VMValue::Float(y)) => Ok(VMValue::Float(fp_add(*x, *y))),
            (VMValue::Int(x), VMValue::Float(y)) => Ok(
                VMValue::Float(fp_add(fp_from_int(*x), *y)),
            ),
            (VMValue::Float(x), VMValue::Int(y)) => Ok(
                VMValue::Float(fp_add(*x, fp_from_int(*y))),
            ),
            _ => Err(self.type_error("add", other)),
        }
    }

    /// The difference of this value and `other` (see [`spec_sub_vals`]).
    pub fn sub(&self, other: &VMValue) -> (r: Result<VMValue, String>)
        ensures
            match spec_sub_vals(self@, other@) {
                Ok(v) => r is Ok && r->Ok_0@ == v,
                Err(()) => r is Err,
            },
    {
        match (self, other) {
            (VMValue::Int(x), VMValue::Int(y)) => Ok(VMValue::Int(x.wrapping_sub(*y))),
            (VMValue::Float(x), VMValue::Float(y)) => Ok(VMValue::Float(fp_sub(*x, *y))),
            (VMValue::Int(x), VMValue::Float(y)) => Ok(
                VMValue::Float(fp_sub(fp_from_int(*x), *y)),
            ),
            (VMValue::Float(x), VMValue::Int(y)) => Ok(
                VMValue::Float(fp_sub(*x, fp_from_int(*y))),
            ),
            _ => Err(self.type_error("subtract", other)),
        }
    }

    /// The product of this value and `other` (see [`spec_mul_vals`]).
    pub fn mul(&self, other: &VMValue) -> (r: Result<VMValue, String>)
        ensures
            match spec_mul_vals(self@, other@) {
                Ok(v) => r is Ok && r->Ok_0@ == v,
                Err(()) => r is Err,
            },
    {
        match (self, other) {
            (VMValue::Int(x), VMValue::Int(y)) => Ok(VMValue::Int(x.wrapping_mul(*y))),
            (VMValue::Float(x), VMValue::Float(y)) => Ok(VMValue::Float(fp_mul(*x, *y))),
            (VMValue::Int(x), VMValue::Float(y)) => Ok(
                VMValue::Float(fp_mul(fp_from_int(*x), *y)),
            ),
            (VMValue::Float(x), VMValue::Int(y)) => Ok(
                VMValue::Float(fp_mul(*x, fp_from_int(*y))),
            ),
            _ => Err(self.type_error("multiply", other)),
        }
    }

    /// The quotient of this value and `other` (see [`spec_div_vals`]):
    /// integer division by zero is an error.
    pub fn div(&self, other: &VMValue) -> (r: Result<VMValue, String>)
        ensures
            match spec_div_vals(self@, other@) {
                Ok(v) => r is Ok && r->Ok_0@ == v,
                Err(()) => r is Err,
            },
    {
        match (self, other) {
            (VMValue::Int(x), VMValue::Int(y)) => {
                match x.checked_div(*y) {
                    Some(q) => Ok(VMValue::Int(q)),
                    None => {
                        if *y == 0 {
                            Err(String::from_str("division by zero"))
                        } else {
                            Ok(VMValue::Int(i64::MIN))
                        }
                    },
                }
            },
            (VMValue::Float(x), VMValue::Float(y)) => Ok(VMValue::Float(fp_div(*x, *y))),
            (VMValue::Int(x), VMValue::Float(y)) => Ok(
                VMValue::Float(fp_div(fp_from_int(*x), *y)),
            ),
            (VMValue::Float(x), VMValue::Int(y)) => Ok(
                VMValue::Float(fp_div(*x, fp_from_int(*y))),
            ),
            _ => Err(self.type_error("divide", other)),
        }
    }

    /// The remainder of this value and `other` (see [`spec_mod_vals`]):
    /// integer modulo by zero is an error.
    pub fn mod_(&self, other: &VMValue) -> (r: Result<VMValue, String>)
        ensures
            match spec_mod_vals(self@, other@) {
                Ok(v) => r is Ok && r->Ok_0@ == v,
                Err(()) => r is Err,
            },
    {
        match (self, other) {
            (VMValue::Int(x), VMValue::Int(y)) => {
                match x.checked_rem(*y) {
                    Some(q) => Ok(VMValue::Int(q)),
                    None => {
                        if *y == 0 {
                            Err(String::from_str("modulo by zero"))
                        } else {
                            Ok(VMValue::Int(0))
                        }
                    },
                }
            },
            (VMValue::Float(x), VMValue::Float(y)) => Ok(VMValue::Float(fp_rem(*x, *y))),
            (VMValue::Int(x), VMValue::Float(y)) => Ok(
                VMValue::Float(fp_rem(fp_from_int(*x), *y)),
            ),
            (VMValue::Float(x), VMValue::Int(y)) => Ok(
                VMValue::Float(fp_rem(*x, fp_from_int(*y))),
            ),
            _ => Err(self.type_error("modulo", other)),
        }
    }

    /// Equality of this value and `other` (see [`spec_eq_vals`]), as a
    /// boolean runtime value.
    pub fn equals(&self, other: &VMValue) -> (r: Result<VMValue, String>)
        ensures
            match spec_eq_vals(self@, other@) {
                Ok(v) => r is Ok && r->Ok_0@ == VMValueV::Bool(v),
                Err(()) => r is Err,
            },
    {
        match (self, other) {
            (VMValue::Int(x), VMValue::Int(y)) => Ok(VMValue::Bool(*x == *y)),
            (VMValue::Float(x), VMValue::Float(y)) => Ok(VMValue::Bool(fp_is_eq(*x, *y))),
            (VMValue::Int(x), VMValue::Float(y)) => Ok(
                VMValue::Bool(fp_is_eq(fp_from_int(*x), *y)),
            ),
            (VMValue::Float(x), VMValue::Int(y)) => Ok(
                VMValue::Bool(fp_is_eq(*x, fp_from_int(*y))),
            ),
            (VMValue::Str(x), VMValue::Str(y)) => Ok(VMValue::Bool(*x == *y)),
            (VMValue::Bool(x), VMValue::Bool(y)) => Ok(VMValue::Bool(*x == *y)),
            _ => Err(self.type_error("compare equality between", other)),
        }
    }

    /// Inequality of this value and `other` (see [`spec_eq_vals`]).
    pub fn not_equals(&self, other: &VMValue) -> (r: Result<VMValue, String>)
        ensures
            match spec_eq_vals(self@, other@) {
                Ok(v) => r is Ok && r->Ok_0@ == VMValueV::Bool(!v),
                Err(()) => r is Err,
            },
    {
        match self.equals(other) {
            Ok(VMValue::Bool(b)) => Ok(VMValue::Bool(!b)),
            Ok(_) => Err(self.type_error("compare inequality between", other)),
            Err(_) => Err(self.type_error("compare inequality between", other)),
        }
    }

    /// Strict order of this value below `other` (see [`spec_lt_vals`]);
    /// the order is asymmetric: where this value is below `other`, `other`
    /// is not below this value.
    pub fn less(&self, other: &VMValue) -> (r: Result<VMValue, String>)
        ensures
            match spec_lt_vals(self@, other@) {
                Ok(v) => r is Ok && r->Ok_0@ == VMValueV::Bool(v),
                Err(()) => r is Err,
            },
            spec_lt_vals(self@, other@) == Ok::<bool, ()>(true) ==> spec_lt_vals(
                other@,
                self@,
            ) != Ok::<bool, ()>(true),
    {
        match (self, other) {
            (VMValue::Int(x), VMValue::Int(y)) => Ok(VMValue::Bool(*x < *y)),
            (VMValue::Float(x), VMValue::Float(y)) => Ok(VMValue::Bool(fp_is_lt(*x, *y))),
            (VMValue::Int(x), VMValue::Float(y)) => Ok(
                VMValue::Bool(fp_is_lt(fp_from_int(*x), *y)),
            ),
            (VMValue::Float(x), VMValue::Int(y)) => Ok(
                VMValue::Bool(fp_is_lt(*x, fp_from_int(*y))),
            ),
            _ => Err(self.type_error("compare less than between", other)),
        }
    }

    /// Strict order of this value above `other` (see [`spec_lt_vals`]).
    pub fn greater(&self, other: &VMValue) -> (r: Result<VMValue, String>)
        ensures
            match spec_lt_vals(other@, self@) {
                Ok(v) => r is Ok && r->Ok_0@ == VMValueV::Bool(v),
                Err(()) => r is Err,
            },
    {
        match (self, other) {
            (VMValue::Int(x), VMValue::Int(y)) => Ok(VMValue::Bool(*x > *y)),
            (VMValue::Float(x), VMValue::Float(y)) => Ok(VMValue::Bool(fp_is_lt(*y, *x))),
            (VMValue::Int(x), VMValue::Float(y)) => Ok(
                VMValue::Bool(fp_is_lt(*y, fp_from_int(*x))),
            ),
            (VMValue::Float(x), VMValue::Int(y)) => Ok(
                VMValue::Bool(fp_is_lt(fp_from_int(*y), *x)),
            ),
            _ => Err(self.type_error("compare greater than between", other)),
        }
    }

    /// Non-strict order of this value below `other`: less than, or equal
    /// (see [`spec_lt_vals`] and [`spec_eq_vals`]).
    pub fn less_equals(&self, other: &VMValue) -> (r: Result<VMValue, String>)
        ensures
            match (spec_lt_vals(self@, other@), spec_eq_vals(self@, other@)) {
                (Ok(l), Ok(e)) => r is Ok && r->Ok_0@ == VMValueV::Bool(l || e),
                _ => r is Err,
            },
    {
        match (self, other) {
            (VMValue::Int(x), VMValue::Int(y)) => Ok(VMValue::Bool(*x <= *y)),
            (VMValue::Float(x), VMValue::Float(y)) => Ok(
                VMValue::Bool(fp_is_lt(*x, *y) || fp_is_eq(*x, *y)),
            ),
            (VMValue::Int(x), VMValue::Float(y)) => {
                let xb = fp_from_int(*x);
                Ok(VMValue::Bool(fp_is_lt(xb, *y) || fp_is_eq(xb, *y)))
            },
            (VMValue::Float(x), VMValue::Int(y)) => {
                let yb = fp_from_int(*y);
                Ok(VMValue::Bool(fp_is_lt(*x, yb) || fp_is_eq(*x, yb)))
            },
            _ => Err(self.type_error("compare less than or equal to between", other)),
        }
    }

    /// Non-strict order of this value above `other`: greater than, or equal
    /// (see [`spec_lt_vals`] and [`spec_eq_vals`]).
    pub fn greater_equals(&self, other: &VMValue) -> (r: Result<VMValue, String>)
        ensures
            match (spec_lt_vals(other@, self@), spec_eq_vals(self@, other@)) {
                (Ok(g), Ok(e)) => r is Ok && r->Ok_0@ == VMValueV::Bool(g || e),
                _ => r is Err,
            },
    {
        match (self, other) {
            (VMValue::Int(x), VMValue::Int(y)) => Ok(VMValue::Bool(*x >= *y)),
            (VMValue::Float(x), VMValue::Float(y)) => Ok(
                VMValue::Bool(fp_is_lt(*y, *x) || fp_is_eq(*x, *y)),
            ),
            (VMValue::Int(x), VMValue::Float(y)) => {
                let xb = fp_from_int(*x);
                Ok(VMValue::Bool(fp_is_lt(*y, xb) || fp_is_eq(xb, *y)))
            },
            (VMValue::Float(x), VMValue::Int(y)) => {
                let yb = fp_from_int(*y);
                Ok(VMValue::Bool(fp_is_lt(yb, *x) || fp_is_eq(*x, yb)))
            },
            _ => Err(self.type_error("compare greater than or equal to between", other)),
        }
    }
}

/// The display name of a runtime value's type.
pub open spec fn spec_type_name(v: VMValueV) -> Seq<char> {
    match v {
        VMValueV::Bool(_) => seq!['b', 'o', 'o', 'l'],
        VMValueV::Int(_) => seq!['i', 'n', 't'],
        VMValueV::Float(_) => seq!['f', 'l', 'o', 'a', 't'],
        VMValueV::Str(_) => seq!['s', 't', 'r', 'i', 'n', 'g'],
        VMValueV::Identifier(_) => seq!['i', 'd', 'e', 'n', 't', 'i', 'f', 'i', 'e', 'r'],
        VMValueV::Array(_) => seq!['a', 'r', 'r', 'a', 'y'],
    }
}

} // verus!

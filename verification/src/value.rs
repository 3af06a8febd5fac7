//! Script values and the typed extraction of primitives from them.

use vstd::prelude::*;

use crate::err::{ErrView, MrubyError};

verus! {

/// A raw script-runtime value.
///
/// `Instance` is a value of a script-side class: `class` indexes the
/// runtime's class table and `data` optionally indexes the heap slot of an
/// attached foreign host object.
#[derive(Debug)]
pub enum MrValue {
    Nil,
    Bool(bool),
    Fixnum(i32),
    Str(String),
    Sym(String),
    Array(Vec<MrValue>),
    Instance { class: usize, data: Option<usize> },
}

/// Structural equivalence of raw values.
///
/// Equivalent values are indistinguishable to every operation of the
/// bridge: equal except that array storage may differ as long as the
/// elements are equivalent in order.
pub open spec fn mr_equiv(a: MrValue, b: MrValue) -> bool
    decreases a,
{
    match (a, b) {
        (MrValue::Array(x), MrValue::Array(y)) => {
            x@.len() == y@.len() && (forall|i: int|
                0 <= i < x@.len() ==> mr_equiv(#[trigger] x@[i], y@[i]))
        },
        _ => a == b,
    }
}

/// A deep copy of a raw value, sharing no storage with the original.
pub fn mr_clone(v: &MrValue) -> (r: MrValue)
    ensures
        mr_equiv(r, *v),
    decreases *v,
{
    match v {
        MrValue::Nil => MrValue::Nil,
        MrValue::Bool(b) => MrValue::Bool(*b),
        MrValue::Fixnum(n) => MrValue::Fixnum(*n),
        MrValue::Str(s) => MrValue::Str(s.clone()),
        MrValue::Sym(s) => MrValue::Sym(s.clone()),
        MrValue::Instance { class, data } => MrValue::Instance { class: *class, data: *data },
        MrValue::Array(items) => {
            let mut out: Vec<MrValue> = Vec::new();
            let n = items.len();
            let mut i: usize = 0;
            while i < n
                invariant
                    i <= n,
                    n == items@.len(),
                    out@.len() == i,
                    *v == MrValue::Array(*items),
                    forall|j: int| 0 <= j < i ==> mr_equiv(#[trigger] out@[j], items@[j]),
                decreases n - i,
            {
                proof {
                    broadcast use vstd::std_specs::vec::group_vec_axioms;

                    assert(decreases_to!(*v => (*v)->Array_0));
                    assert(decreases_to!(*items => items@[i as int]));
                    assert(decreases_to!(*v => items@[i as int]));
                }
                out.push(mr_clone(&items[i]));
                i = i + 1;
            }
            MrValue::Array(out)
        },
    }
}

/// A `struct` that wraps around any script variable.
///
/// `Value`s are handed out by the runtime's constructors (`nil`, `bool`,
/// `fixnum`, `string`, `symbol`, `obj`, `option`, `array`) and by running
/// scripts; they are unwrapped with the typed `to_*` casts.
#[derive(Debug)]
pub struct Value {
    pub value: MrValue,
}

impl Value {
    /// Wraps a raw script value.
    pub fn new(value: MrValue) -> (r: Value)
        ensures
            r.value == value,
    {
        Value { value }
    }

    /// Casts a `Value` and returns a `bool` in an `Ok` or an `Err` if the
    /// types mismatch.  `nil` counts as falsy, as it does in the script
    /// runtime's own boolean protocol.
    pub fn to_bool(&self) -> (r: Result<bool, MrubyError>)
        ensures
            match self.value {
                MrValue::Bool(b) => r matches Ok(x) && x == b,
                MrValue::Nil => r matches Ok(x) && x == false,
                _ => r matches Err(e) && e@ == ErrView::Cast("TrueClass or FalseClass"@),
            },
    {
        match &self.value {
            MrValue::Bool(b) => Ok(*b),
            MrValue::Nil => Ok(false),
            _ => Err(MrubyError::Cast(String::from_str("TrueClass or FalseClass"))),
        }
    }

    /// Casts a `Value` and returns an `i32` in an `Ok` or an `Err` if the
    /// types mismatch.
    pub fn to_i32(&self) -> (r: Result<i32, MrubyError>)
        ensures
            match self.value {
                MrValue::Fixnum(n) => r matches Ok(x) && x == n,
                _ => r matches Err(e) && e@ == ErrView::Cast("Fixnum"@),
            },
    {
        match &self.value {
            MrValue::Fixnum(n) => Ok(*n),
            _ => Err(MrubyError::Cast(String::from_str("Fixnum"))),
        }
    }

    /// Casts a `Value` and returns a `&str` in an `Ok` or an `Err` if the
    /// types mismatch.  Symbols cast to their name.
    pub fn to_str<'a>(&'a self) -> (r: Result<&'a str, MrubyError>)
        ensures
            match self.value {
                MrValue::Str(ref s) => r matches Ok(x) && x@ == s@,
                MrValue::Sym(ref s) => r matches Ok(x) && x@ == s@,
                _ => r matches Err(e) && e@ == ErrView::Cast("String"@),
            },
    {
        match &self.value {
            MrValue::Str(s) => Ok(s.as_str()),
            MrValue::Sym(s) => Ok(s.as_str()),
            _ => Err(MrubyError::Cast(String::from_str("String"))),
        }
    }

    /// Casts a `Value` of array type to a `Vec` of `Value`s in an `Ok` or
    /// an `Err` if the types mismatch.
    pub fn to_vec(&self) -> (r: Result<Vec<Value>, MrubyError>)
        ensures
            match self.value {
                MrValue::Array(ref items) => {
                    &&& r matches Ok(vs)
                    &&& vs@.len() == items@.len()
                    &&& forall|i: int|
                        0 <= i < items@.len() ==> mr_equiv(#[trigger] vs@[i].value, items@[i])
                },
                _ => r matches Err(e) && e@ == ErrView::Cast("Array"@),
            },
    {
        match &self.value {
            MrValue::Array(items) => {
                let mut out: Vec<Value> = Vec::new();
                let n = items.len();
                let mut i: usize = 0;
                while i < n
                    invariant
                        i <= n,
                        n == items@.len(),
                        out@.len() == i,
                        forall|j: int| 0 <= j < i ==> mr_equiv(#[trigger] out@[j].value, items@[j]),
                    decreases n - i,
                {
                    out.push(Value { value: mr_clone(&items[i]) });
                    i = i + 1;
                }
                Ok(out)
            },
            _ => Err(MrubyError::Cast(String::from_str("Array"))),
        }
    }
}

} // verus!

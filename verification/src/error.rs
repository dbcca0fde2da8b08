//! The error taxonomy. An error is a value, never a panic: it carries a
//! machine-checkable kind, a short message, a longer explanation, and the
//! source location of the offending node.

use vstd::prelude::*;
use vstd::string::StringExecFns;
use crate::ast::{LocV, Location, Var, VarV};

verus! {

/// The machine-checkable class of a runtime error.
#[derive(Clone, Copy, PartialEq, Eq, Structural, Debug)]
pub enum ErrorKind {
    /// A variable name has no binding in the active environment.
    UnboundVariable,
    /// The callee of a call evaluated to a non-closure.
    InvalidCall,
    /// The condition of a conditional evaluated to a non-boolean.
    InvalidCondition,
    /// A tuple projection was applied to a non-tuple.
    InvalidProjection,
    /// A binary operator was applied to operand kinds it does not support,
    /// including a zero divisor and comparisons that involve a closure.
    InvalidOperand,
}

/// A semantic error detected during evaluation. Exactly one error propagates
/// per failed evaluation, and evaluation halts at the first failure.
#[derive(Debug)]
pub struct RuntimeError {
    pub kind: ErrorKind,
    pub message: String,
    pub full_text: String,
    pub location: Location,
}

/// Ghost mirror of [`RuntimeError`].
pub struct ErrV {
    pub kind: ErrorKind,
    pub message: Seq<char>,
    pub full_text: Seq<char>,
    pub location: LocV,
}

impl View for RuntimeError {
    type V = ErrV;

    open spec fn view(&self) -> ErrV {
        ErrV {
            kind: self.kind,
            message: self.message@,
            full_text: self.full_text@,
            location: self.location@,
        }
    }
}

/// The error reported for a variable with no binding in scope; it carries the
/// variable's own location.
pub open spec fn unbound_err(v: VarV) -> ErrV {
    ErrV {
        kind: ErrorKind::UnboundVariable,
        message: "unbound variable \""@ + v.text + "\""@,
        full_text: "variable \""@ + v.text + "\" was not defined in the current scope"@,
        location: v.location,
    }
}

pub fn mk_unbound_err(v: &Var) -> (e: RuntimeError)
    ensures
        e@ == unbound_err(v@),
{
    let mut message = "unbound variable \"".to_owned();
    message.append(v.text.as_str());
    message.append("\"");
    let mut full_text = "variable \"".to_owned();
    full_text.append(v.text.as_str());
    full_text.append("\" was not defined in the current scope");
    RuntimeError {
        kind: ErrorKind::UnboundVariable,
        message,
        full_text,
        location: Location { start: v.location.start, end: v.location.end, filename: v.location.filename.clone() },
    }
}

/// The error reported when `First` is applied to a non-tuple.
pub open spec fn first_err(location: LocV) -> ErrV {
    ErrV {
        kind: ErrorKind::InvalidProjection,
        message: "invalid expression"@,
        full_text: "cannot use first operation from anything but a tuple"@,
        location,
    }
}

/// The error reported when `Second` is applied to a non-tuple.
pub open spec fn second_err(location: LocV) -> ErrV {
    ErrV {
        kind: ErrorKind::InvalidProjection,
        message: "invalid expression"@,
        full_text: "cannot use second operation from anything but a tuple"@,
        location,
    }
}

pub fn clone_location(l: &Location) -> (r: Location)
    ensures
        r@ == l@,
{
    Location { start: l.start, end: l.end, filename: l.filename.clone() }
}

pub fn mk_first_err(location: &Location) -> (e: RuntimeError)
    ensures
        e@ == first_err(location@),
{
    RuntimeError {
        kind: ErrorKind::InvalidProjection,
        message: "invalid expression".to_owned(),
        full_text: "cannot use first operation from anything but a tuple".to_owned(),
        location: clone_location(location),
    }
}

pub fn mk_second_err(location: &Location) -> (e: RuntimeError)
    ensures
        e@ == second_err(location@),
{
    RuntimeError {
        kind: ErrorKind::InvalidProjection,
        message: "invalid expression".to_owned(),
        full_text: "cannot use second operation from anything but a tuple".to_owned(),
        location: clone_location(location),
    }
}

} // verus!

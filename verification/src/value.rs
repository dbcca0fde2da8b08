//! The runtime value model: integers, strings, booleans, pairs, and closures.
//!
//! A closure borrows its parameter list and body from the syntax tree and
//! names its captured environment by an index into the arena of environment
//! frames (see [`crate::interpreter::State`]); copying a closure value copies
//! the index, so every copy observes later changes to the shared frame.

use vstd::prelude::*;
use vstd::string::{StrSliceExecFns, StringExecFns};
use crate::ast::{vars_view, term_view, BinaryOp, LocV, Location, Term, TermV, Var, VarV};
use crate::error::{ErrV, ErrorKind, RuntimeError, clone_location};

verus! {

/// A function value: its parameters and body, borrowed from the syntax tree,
/// and the index of its captured environment frame.
pub struct Closure<'a> {
    pub parameters: &'a Vec<Var>,
    pub body: &'a Term,
    pub context: usize,
}

/// A pair value owning its two components.
pub struct Tuple<'a> {
    pub first: Box<Value<'a>>,
    pub second: Box<Value<'a>>,
}

/// A runtime value.
pub enum Value<'a> {
    Closure(Closure<'a>),
    Int(i64),
    Str(String),
    Bool(bool),
    Tuple(Tuple<'a>),
}

/// Ghost mirror of [`Closure`].
pub struct ClosV {
    pub parameters: Seq<VarV>,
    pub body: TermV,
    pub context: nat,
}

/// Ghost mirror of [`Tuple`].
pub struct TupV {
    pub first: Box<ValV>,
    pub second: Box<ValV>,
}

/// Ghost mirror of [`Value`].
pub enum ValV {
    Closure(ClosV),
    Int(i64),
    Str(Seq<char>),
    Bool(bool),
    Tuple(TupV),
}

pub open spec fn val_view(v: Value) -> ValV
    decreases v,
{
    match v {
        Value::Closure(c) => ValV::Closure(
            ClosV {
                parameters: vars_view(c.parameters@),
                body: term_view(*c.body),
                context: c.context as nat,
            },
        ),
        Value::Int(i) => ValV::Int(i),
        Value::Str(s) => ValV::Str(s@),
        Value::Bool(b) => ValV::Bool(b),
        Value::Tuple(t) => ValV::Tuple(
            TupV { first: Box::new(val_view(*t.first)), second: Box::new(val_view(*t.second)) },
        ),
    }
}

impl<'a> View for Value<'a> {
    type V = ValV;

    open spec fn view(&self) -> ValV {
        val_view(*self)
    }
}

/// The views of a row of values.
pub open spec fn vals_view(s: Seq<Value>) -> Seq<ValV>
    decreases s,
{
    if s.len() == 0 {
        Seq::empty()
    } else {
        vals_view(s.drop_last()).push(val_view(s.last()))
    }
}

pub proof fn lemma_vals_view(s: Seq<Value>)
    ensures
        vals_view(s).len() == s.len(),
        forall|i: int| 0 <= i < s.len() ==> vals_view(s)[i] == val_view(s[i]),
    decreases s.len(),
{
    if s.len() > 0 {
        lemma_vals_view(s.drop_last());
        assert forall|i: int| 0 <= i < s.len() implies vals_view(s)[i] == val_view(s[i]) by {
            if i < s.len() - 1 {
                assert(s.drop_last()[i] == s[i]);
            }
        }
    }
}

impl<'a> Value<'a> {
    /// A structural copy: the result is the same value (closure copies share
    /// the same captured frame index).
    pub fn duplicate(&self) -> (r: Value<'a>)
        ensures
            r == *self,
        decreases *self,
    {
        match self {
            Value::Closure(c) => Value::Closure(
                Closure { parameters: c.parameters, body: c.body, context: c.context },
            ),
            Value::Int(i) => Value::Int(*i),
            Value::Str(s) => Value::Str(s.clone()),
            Value::Bool(b) => Value::Bool(*b),
            Value::Tuple(t) => Value::Tuple(
                Tuple {
                    first: Box::new(t.first.duplicate()),
                    second: Box::new(t.second.duplicate()),
                },
            ),
        }
    }
}

// ----- Decimal rendering -----

/// The one-character string for a decimal digit.
pub open spec fn digit_str(d: nat) -> Seq<char> {
    if d == 0 {
        "0"@
    } else if d == 1 {
        "1"@
    } else if d == 2 {
        "2"@
    } else if d == 3 {
        "3"@
    } else if d == 4 {
        "4"@
    } else if d == 5 {
        "5"@
    } else if d == 6 {
        "6"@
    } else if d == 7 {
        "7"@
    } else if d == 8 {
        "8"@
    } else {
        "9"@
    }
}

/// The decimal form of a natural number, most significant digit first.
pub open spec fn dec_of(n: nat) -> Seq<char>
    decreases n,
{
    if n < 10 {
        digit_str(n)
    } else {
        dec_of(n / 10) + digit_str(n % 10)
    }
}

/// The decimal form of a signed integer: a leading minus sign when negative.
pub open spec fn dec_of_i64(i: i64) -> Seq<char> {
    if i < 0 {
        "-"@ + dec_of((-(i as int)) as nat)
    } else {
        dec_of(i as nat)
    }
}

fn digit_to_str(d: u64) -> (r: &'static str)
    requires
        d < 10,
    ensures
        r@ == digit_str(d as nat),
{
    if d == 0 {
        "0"
    } else if d == 1 {
        "1"
    } else if d == 2 {
        "2"
    } else if d == 3 {
        "3"
    } else if d == 4 {
        "4"
    } else if d == 5 {
        "5"
    } else if d == 6 {
        "6"
    } else if d == 7 {
        "7"
    } else if d == 8 {
        "8"
    } else {
        "9"
    }
}

fn u64_dec(n: u64) -> (r: String)
    ensures
        r@ == dec_of(n as nat),
    decreases n,
{
    if n < 10 {
        digit_to_str(n).to_owned()
    } else {
        let mut s = u64_dec(n / 10);
        s.append(digit_to_str(n % 10));
        s
    }
}

/// Renders an integer in decimal, as its display form requires.
pub fn i64_dec(i: i64) -> (r: String)
    ensures
        r@ == dec_of_i64(i),
{
    if i >= 0 {
        u64_dec(i as u64)
    } else {
        let m: u64 = if i == i64::MIN {
            9223372036854775808
        } else {
            (-i) as u64
        };
        proof {
            assert(m as nat == (-(i as int)) as nat);
        }
        let mut s = "-".to_owned();
        s.append(u64_dec(m).as_str());
        s
    }
}

// ----- Display form -----

/// The display form of a value: integers in decimal, booleans as `true` /
/// `false`, strings verbatim, tuples as `(first, second)` recursively, and
/// closures as an opaque placeholder.
pub open spec fn spec_render(v: ValV) -> Seq<char>
    decreases v,
{
    match v {
        ValV::Closure(_) => "[closure]"@,
        ValV::Int(i) => dec_of_i64(i),
        ValV::Str(s) => s,
        ValV::Bool(b) => if b {
            "true"@
        } else {
            "false"@
        },
        ValV::Tuple(t) => "("@ + spec_render(*t.first) + ", "@ + spec_render(*t.second) + ")"@,
    }
}

impl<'a> Value<'a> {
    /// The display form of this value; see [`spec_render`].
    pub fn render(&self) -> (r: String)
        ensures
            r@ == spec_render(self@),
        decreases *self,
    {
        match self {
            Value::Closure(_) => "[closure]".to_owned(),
            Value::Int(i) => i64_dec(*i),
            Value::Str(s) => s.clone(),
            Value::Bool(b) => if *b {
                "true".to_owned()
            } else {
                "false".to_owned()
            },
            Value::Tuple(t) => {
                let mut s = "(".to_owned();
                s.append(t.first.render().as_str());
                s.append(", ");
                s.append(t.second.render().as_str());
                s.append(")");
                s
            },
        }
    }
}

// ----- Structural equality and ordering -----

/// Structural equality for same-kind values: tuples element-wise (both
/// components must themselves be comparable), closures never equal. A pair of
/// different kinds, or a closure beside a non-closure, is incomparable
/// (`None`), which the operators report as an `InvalidOperand` error.
pub open spec fn spec_val_eq(a: ValV, b: ValV) -> Option<bool>
    decreases a,
{
    match (a, b) {
        (ValV::Int(x), ValV::Int(y)) => Some(x == y),
        (ValV::Str(x), ValV::Str(y)) => Some(x == y),
        (ValV::Bool(x), ValV::Bool(y)) => Some(x == y),
        (ValV::Closure(_), ValV::Closure(_)) => Some(false),
        (ValV::Tuple(x), ValV::Tuple(y)) => match (
            spec_val_eq(*x.first, *y.first),
            spec_val_eq(*x.second, *y.second),
        ) {
            (Some(p), Some(q)) => Some(p && q),
            _ => None,
        },
        _ => None,
    }
}

/// Lexicographic comparison of character sequences by code point:
/// negative, zero or positive as `x` sorts before, equal to, or after `y`.
pub open spec fn lex_cmp(x: Seq<char>, y: Seq<char>) -> i8
    decreases x.len(),
{
    if x.len() == 0 && y.len() == 0 {
        0i8
    } else if x.len() == 0 {
        -1i8
    } else if y.len() == 0 {
        1i8
    } else if (x[0] as u32) < (y[0] as u32) {
        -1i8
    } else if (x[0] as u32) > (y[0] as u32) {
        1i8
    } else {
        lex_cmp(x.drop_first(), y.drop_first())
    }
}

/// The total order on same-kind non-closure values: integers numerically,
/// strings lexicographically by code point, `false` before `true`, tuples
/// lexicographically element-wise (both components must be comparable).
/// Mixed kinds and closures are incomparable.
pub open spec fn spec_val_cmp(a: ValV, b: ValV) -> Option<i8>
    decreases a,
{
    match (a, b) {
        (ValV::Int(x), ValV::Int(y)) => Some(
            if x < y {
                -1i8
            } else if x > y {
                1i8
            } else {
                0i8
            },
        ),
        (ValV::Str(x), ValV::Str(y)) => Some(lex_cmp(x, y)),
        (ValV::Bool(x), ValV::Bool(y)) => Some(
            if x == y {
                0i8
            } else if y {
                -1i8
            } else {
                1i8
            },
        ),
        (ValV::Tuple(x), ValV::Tuple(y)) => match (
            spec_val_cmp(*x.first, *y.first),
            spec_val_cmp(*x.second, *y.second),
        ) {
            (Some(c1), Some(c2)) => Some(
                if c1 != 0 {
                    c1
                } else {
                    c2
                },
            ),
            _ => None,
        },
        _ => None,
    }
}

fn str_lex_cmp(a: &str, b: &str) -> (r: i8)
    ensures
        r == lex_cmp(a@, b@),
    decreases a@.len(),
{
    let alen = a.unicode_len();
    let blen = b.unicode_len();
    if alen == 0 && blen == 0 {
        0
    } else if alen == 0 {
        -1
    } else if blen == 0 {
        1
    } else {
        let ca = a.get_char(0);
        let cb = b.get_char(0);
        if (ca as u32) < (cb as u32) {
            -1
        } else if (ca as u32) > (cb as u32) {
            1
        } else {
            proof {
                assert(a@.subrange(1, alen as int) =~= a@.drop_first());
                assert(b@.subrange(1, blen as int) =~= b@.drop_first());
            }
            str_lex_cmp(a.substring_char(1, alen), b.substring_char(1, blen))
        }
    }
}

pub fn val_eq<'a>(a: &Value<'a>, b: &Value<'a>) -> (r: Option<bool>)
    ensures
        r == spec_val_eq(a@, b@),
    decreases *a,
{
    match (a, b) {
        (Value::Int(x), Value::Int(y)) => Some(*x == *y),
        (Value::Str(x), Value::Str(y)) => Some(*x == *y),
        (Value::Bool(x), Value::Bool(y)) => Some(*x == *y),
        (Value::Closure(_), Value::Closure(_)) => Some(false),
        (Value::Tuple(x), Value::Tuple(y)) => {
            let p = val_eq(&x.first, &y.first);
            let q = val_eq(&x.second, &y.second);
            match (p, q) {
                (Some(p), Some(q)) => Some(p && q),
                _ => None,
            }
        },
        _ => None,
    }
}

pub fn val_cmp<'a>(a: &Value<'a>, b: &Value<'a>) -> (r: Option<i8>)
    ensures
        r == spec_val_cmp(a@, b@),
    decreases *a,
{
    match (a, b) {
        (Value::Int(x), Value::Int(y)) => Some(
            if *x < *y {
                -1
            } else if *x > *y {
                1
            } else {
                0
            },
        ),
        (Value::Str(x), Value::Str(y)) => Some(str_lex_cmp(x.as_str(), y.as_str())),
        (Value::Bool(x), Value::Bool(y)) => Some(
            if *x == *y {
                0
            } else if *y {
                -1
            } else {
                1
            },
        ),
        (Value::Tuple(x), Value::Tuple(y)) => {
            let c1 = val_cmp(&x.first, &y.first);
            let c2 = val_cmp(&x.second, &y.second);
            match (c1, c2) {
                (Some(c1), Some(c2)) => Some(
                    if c1 != 0 {
                        c1
                    } else {
                        c2
                    },
                ),
                _ => None,
            }
        },
        _ => None,
    }
}

// ----- Structural hashing -----

/// The structural digest of a value, used as part of a memoization cache key.
/// Deterministic for integers, strings, booleans and tuples; a closure is
/// unhashable, which callers must treat as "skip memoization", never as a
/// propagated error.
pub open spec fn spec_val_digest(v: ValV) -> Option<Seq<char>>
    decreases v,
{
    match v {
        ValV::Closure(_) => None,
        ValV::Int(i) => Some("I"@ + dec_of_i64(i)),
        ValV::Str(s) => Some("S"@ + s),
        ValV::Bool(b) => Some(
            if b {
                "B1"@
            } else {
                "B0"@
            },
        ),
        ValV::Tuple(t) => match (spec_val_digest(*t.first), spec_val_digest(*t.second)) {
            (Some(a), Some(b)) => Some("T("@ + a + ","@ + b + ")"@),
            _ => None,
        },
    }
}

/// Computes the structural digest of a value; `None` exactly when the value
/// contains a closure. See [`spec_val_digest`].
pub fn hash_value<'a>(v: &Value<'a>) -> (r: Option<String>)
    ensures
        match r {
            Some(s) => spec_val_digest(v@) == Some(s@),
            None => spec_val_digest(v@) is None,
        },
    decreases *v,
{
    match v {
        Value::Closure(_) => None,
        Value::Int(i) => {
            let mut s = "I".to_owned();
            s.append(i64_dec(*i).as_str());
            Some(s)
        },
        Value::Str(st) => {
            let mut s = "S".to_owned();
            s.append(st.as_str());
            Some(s)
        },
        Value::Bool(b) => Some(
            if *b {
                "B1".to_owned()
            } else {
                "B0".to_owned()
            },
        ),
        Value::Tuple(t) => {
            let a = hash_value(&t.first);
            let b = hash_value(&t.second);
            match (a, b) {
                (Some(a), Some(b)) => {
                    let mut s = "T(".to_owned();
                    s.append(a.as_str());
                    s.append(",");
                    s.append(b.as_str());
                    s.append(")");
                    Some(s)
                },
                _ => None,
            }
        },
    }
}

// ----- Binary operators -----

/// The error for a binary operator applied to operand kinds it does not
/// support.
pub open spec fn operand_err(location: LocV) -> ErrV {
    ErrV {
        kind: ErrorKind::InvalidOperand,
        message: "invalid binary operation"@,
        full_text: "the operator does not support these operand kinds"@,
        location,
    }
}

/// The error for a zero divisor, a distinct condition within the
/// `InvalidOperand` class.
pub open spec fn div_zero_err(location: LocV) -> ErrV {
    ErrV {
        kind: ErrorKind::InvalidOperand,
        message: "division by zero"@,
        full_text: "cannot divide or take a remainder by zero"@,
        location,
    }
}

pub fn mk_operand_err(location: &Location) -> (e: RuntimeError)
    ensures
        e@ == operand_err(location@),
{
    RuntimeError {
        kind: ErrorKind::InvalidOperand,
        message: "invalid binary operation".to_owned(),
        full_text: "the operator does not support these operand kinds".to_owned(),
        location: clone_location(location),
    }
}

pub fn mk_div_zero_err(location: &Location) -> (e: RuntimeError)
    ensures
        e@ == div_zero_err(location@),
{
    RuntimeError {
        kind: ErrorKind::InvalidOperand,
        message: "division by zero".to_owned(),
        full_text: "cannot divide or take a remainder by zero".to_owned(),
        location: clone_location(location),
    }
}

/// The error for a callee that is not a closure; it carries the call's
/// location.
pub open spec fn call_err(v: ValV, location: LocV) -> ErrV {
    ErrV {
        kind: ErrorKind::InvalidCall,
        message: "invalid function call"@,
        full_text: spec_render(v) + " cannot be called as a function"@,
        location,
    }
}

/// The error for a condition that is not a boolean; it carries the condition
/// operand's location.
pub open spec fn condition_err(v: ValV, location: LocV) -> ErrV {
    ErrV {
        kind: ErrorKind::InvalidCondition,
        message: "invalid if condition"@,
        full_text: spec_render(v) + " can't be used as an if condition. use a boolean instead"@,
        location,
    }
}

pub fn mk_call_err<'a>(v: &Value<'a>, location: &Location) -> (e: RuntimeError)
    ensures
        e@ == call_err(v@, location@),
{
    let mut full_text = v.render();
    full_text.append(" cannot be called as a function");
    RuntimeError {
        kind: ErrorKind::InvalidCall,
        message: "invalid function call".to_owned(),
        full_text,
        location: clone_location(location),
    }
}

pub fn mk_condition_err<'a>(v: &Value<'a>, location: &Location) -> (e: RuntimeError)
    ensures
        e@ == condition_err(v@, location@),
{
    let mut full_text = v.render();
    full_text.append(" can't be used as an if condition. use a boolean instead");
    RuntimeError {
        kind: ErrorKind::InvalidCondition,
        message: "invalid if condition".to_owned(),
        full_text,
        location: clone_location(location),
    }
}

/// Truncating (round toward zero) integer division, as the host's `/` would
/// compute it.
pub open spec fn trunc_div_int(x: int, d: int) -> int {
    if x == 0 {
        0
    } else if x > 0 && d > 0 {
        x / d
    } else if x < 0 && d < 0 {
        (x * -1) / (d * -1)
    } else if x < 0 {
        ((x * -1) / d) * -1
    } else {
        (x / (d * -1)) * -1
    }
}

/// Truncating integer remainder, with the sign of the dividend.
pub open spec fn trunc_rem_int(x: int, d: int) -> int {
    if x == 0 {
        0
    } else if x > 0 && d > 0 {
        x % d
    } else if x < 0 && d < 0 {
        ((x * -1) % (d * -1)) * -1
    } else if x < 0 {
        ((x * -1) % d) * -1
    } else {
        x % (d * -1)
    }
}

/// Division wrapped into `i64` (the one overflowing case, `i64::MIN / -1`,
/// wraps to `i64::MIN`).
pub open spec fn wrap_div_i64(a: i64, b: i64) -> i64
    recommends
        b != 0,
{
    let q = trunc_div_int(a as int, b as int);
    if q > i64::MAX || q < i64::MIN {
        i64::MIN
    } else {
        q as i64
    }
}

/// Remainder wrapped into `i64` (`i64::MIN % -1` is `0`).
pub open spec fn wrap_rem_i64(a: i64, b: i64) -> i64
    recommends
        b != 0,
{
    if a == i64::MIN && b == -1 {
        0
    } else {
        trunc_rem_int(a as int, b as int) as i64
    }
}

/// What a binary operator computes from two already-evaluated operands.
///
/// Arithmetic needs integer operands, except `Add`, which concatenates the
/// display forms when either side is a string. `Div` and `Rem` reject a zero
/// divisor; the other arithmetic wraps on `i64` overflow. `Eq`/`Neq` follow
/// [`spec_val_eq`]; the order operators follow [`spec_val_cmp`]; `And`/`Or`
/// need boolean operands (both sides are already evaluated by the caller, so
/// no short-circuit is involved). Every unsupported pairing is an
/// `InvalidOperand` error at the given location.
pub open spec fn spec_binary(lhs: ValV, op: BinaryOp, rhs: ValV, location: LocV) -> Result<
    ValV,
    ErrV,
> {
    match op {
        BinaryOp::Add => match (lhs, rhs) {
            (ValV::Int(a), ValV::Int(b)) => Ok(ValV::Int(a.wrapping_add(b))),
            (ValV::Str(_), _) => Ok(ValV::Str(spec_render(lhs) + spec_render(rhs))),
            (_, ValV::Str(_)) => Ok(ValV::Str(spec_render(lhs) + spec_render(rhs))),
            _ => Err(operand_err(location)),
        },
        BinaryOp::Sub => match (lhs, rhs) {
            (ValV::Int(a), ValV::Int(b)) => Ok(ValV::Int(a.wrapping_sub(b))),
            _ => Err(operand_err(location)),
        },
        BinaryOp::Mul => match (lhs, rhs) {
            (ValV::Int(a), ValV::Int(b)) => Ok(ValV::Int(a.wrapping_mul(b))),
            _ => Err(operand_err(location)),
        },
        BinaryOp::Div => match (lhs, rhs) {
            (ValV::Int(a), ValV::Int(b)) => if b == 0 {
                Err(div_zero_err(location))
            } else {
                Ok(ValV::Int(wrap_div_i64(a, b)))
            },
            _ => Err(operand_err(location)),
        },
        BinaryOp::Rem => match (lhs, rhs) {
            (ValV::Int(a), ValV::Int(b)) => if b == 0 {
                Err(div_zero_err(location))
            } else {
                Ok(ValV::Int(wrap_rem_i64(a, b)))
            },
            _ => Err(operand_err(location)),
        },
        BinaryOp::Eq => match spec_val_eq(lhs, rhs) {
            Some(b) => Ok(ValV::Bool(b)),
            None => Err(operand_err(location)),
        },
        BinaryOp::Neq => match spec_val_eq(lhs, rhs) {
            Some(b) => Ok(ValV::Bool(!b)),
            None => Err(operand_err(location)),
        },
        BinaryOp::Lt => match spec_val_cmp(lhs, rhs) {
            Some(c) => Ok(ValV::Bool(c < 0)),
            None => Err(operand_err(location)),
        },
        BinaryOp::Gt => match spec_val_cmp(lhs, rhs) {
            Some(c) => Ok(ValV::Bool(c > 0)),
            None => Err(operand_err(location)),
        },
        BinaryOp::Lte => match spec_val_cmp(lhs, rhs) {
            Some(c) => Ok(ValV::Bool(c <= 0)),
            None => Err(operand_err(location)),
        },
        BinaryOp::Gte => match spec_val_cmp(lhs, rhs) {
            Some(c) => Ok(ValV::Bool(c >= 0)),
            None => Err(operand_err(location)),
        },
        BinaryOp::And => match (lhs, rhs) {
            (ValV::Bool(a), ValV::Bool(b)) => Ok(ValV::Bool(a && b)),
            _ => Err(operand_err(location)),
        },
        BinaryOp::Or => match (lhs, rhs) {
            (ValV::Bool(a), ValV::Bool(b)) => Ok(ValV::Bool(a || b)),
            _ => Err(operand_err(location)),
        },
    }
}

impl<'a> Value<'a> {
    /// Applies a binary operator to `self` and `rhs`; see [`spec_binary`].
    pub fn binary_op(&self, op: BinaryOp, rhs: &Value<'a>, location: &Location) -> (r: Result<
        Value<'a>,
        RuntimeError,
    >)
        ensures
            match r {
                Ok(v) => spec_binary(self@, op, rhs@, location@) == Ok::<ValV, ErrV>(v@),
                Err(e) => spec_binary(self@, op, rhs@, location@) == Err::<ValV, ErrV>(e@),
            },
    {
        match op {
            BinaryOp::Add => match (self, rhs) {
                (Value::Int(a), Value::Int(b)) => Ok(Value::Int(a.wrapping_add(*b))),
                _ => {
                    let lhs_is_str = matches!(self, Value::Str(_));
                    let rhs_is_str = matches!(rhs, Value::Str(_));
                    if lhs_is_str || rhs_is_str {
                        let mut s = self.render();
                        s.append(rhs.render().as_str());
                        Ok(Value::Str(s))
                    } else {
                        Err(mk_operand_err(location))
                    }
                },
            },
            BinaryOp::Sub => match (self, rhs) {
                (Value::Int(a), Value::Int(b)) => Ok(Value::Int(a.wrapping_sub(*b))),
                _ => Err(mk_operand_err(location)),
            },
            BinaryOp::Mul => match (self, rhs) {
                (Value::Int(a), Value::Int(b)) => Ok(Value::Int(a.wrapping_mul(*b))),
                _ => Err(mk_operand_err(location)),
            },
            BinaryOp::Div => match (self, rhs) {
                (Value::Int(a), Value::Int(b)) => if *b == 0 {
                    Err(mk_div_zero_err(location))
                } else {
                    let q = match a.checked_div(*b) {
                        Some(q) => q,
                        None => i64::MIN,
                    };
                    proof {
                        assert(q == wrap_div_i64(*a, *b));
                    }
                    Ok(Value::Int(q))
                },
                _ => Err(mk_operand_err(location)),
            },
            BinaryOp::Rem => match (self, rhs) {
                (Value::Int(a), Value::Int(b)) => if *b == 0 {
                    Err(mk_div_zero_err(location))
                } else {
                    let q = match a.checked_rem(*b) {
                        Some(q) => q,
                        None => 0,
                    };
                    proof {
                        assert(q == wrap_rem_i64(*a, *b));
                    }
                    Ok(Value::Int(q))
                },
                _ => Err(mk_operand_err(location)),
            },
            BinaryOp::Eq => match val_eq(self, rhs) {
                Some(b) => Ok(Value::Bool(b)),
                None => Err(mk_operand_err(location)),
            },
            BinaryOp::Neq => match val_eq(self, rhs) {
                Some(b) => Ok(Value::Bool(!b)),
                None => Err(mk_operand_err(location)),
            },
            BinaryOp::Lt => match val_cmp(self, rhs) {
                Some(c) => Ok(Value::Bool(c < 0)),
                None => Err(mk_operand_err(location)),
            },
            BinaryOp::Gt => match val_cmp(self, rhs) {
                Some(c) => Ok(Value::Bool(c > 0)),
                None => Err(mk_operand_err(location)),
            },
            BinaryOp::Lte => match val_cmp(self, rhs) {
                Some(c) => Ok(Value::Bool(c <= 0)),
                None => Err(mk_operand_err(location)),
            },
            BinaryOp::Gte => match val_cmp(self, rhs) {
                Some(c) => Ok(Value::Bool(c >= 0)),
                None => Err(mk_operand_err(location)),
            },
            BinaryOp::And => match (self, rhs) {
                (Value::Bool(a), Value::Bool(b)) => Ok(Value::Bool(*a && *b)),
                _ => Err(mk_operand_err(location)),
            },
            BinaryOp::Or => match (self, rhs) {
                (Value::Bool(a), Value::Bool(b)) => Ok(Value::Bool(*a || *b)),
                _ => Err(mk_operand_err(location)),
            },
        }
    }
}

} // verus!

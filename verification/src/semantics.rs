//! The ghost big-step semantics the evaluator is proved against.
//!
//! [`spec_eval`] is a fuel-indexed evaluation function: every recursive step
//! consumes one unit of fuel, and a run that exhausts its fuel answers
//! `OutOfFuel` instead of a value. The executable evaluator threads the same
//! fuel, so its result and its final state are pinned exactly, including the
//! order of printed lines, the growth of the frame arena, and every cache
//! consultation.

use vstd::prelude::*;
use crate::ast::{term_loc, BinaryOp, CallV, FunctionV, IfV, LetV, PrintV, TermV, VarV};
use crate::error::{unbound_err, first_err, second_err, ErrV};
use crate::value::{
    call_err, condition_err, dec_of_i64, spec_binary, spec_render, spec_val_digest, ClosV, TupV,
    ValV,
};

verus! {

/// A lexical environment: the names visible at a point of evaluation.
pub type EnvV = Map<Seq<char>, ValV>;

/// The mutable evaluation state: the arena of captured environment frames,
/// the memoization cache, and the printed lines so far (in order).
pub struct StV {
    pub frames: Seq<EnvV>,
    pub cache: Map<Seq<char>, ValV>,
    pub output: Seq<Seq<char>>,
}

/// The outcome of one evaluation.
pub enum EvalR {
    OutOfFuel,
    Fail(ErrV),
    Val(ValV),
}

/// The outcome of evaluating a row of argument expressions.
pub enum ArgsR {
    OutOfFuel,
    Fail(ErrV),
    Vals(Seq<ValV>),
}

// ----- Well-formedness: every closure names an existing frame -----

/// A value is well formed against an arena of `n` frames when every closure
/// inside it names a frame index below `n`.
pub open spec fn wf_val(v: ValV, n: nat) -> bool
    decreases v,
{
    match v {
        ValV::Closure(c) => c.context < n,
        ValV::Tuple(t) => wf_val(*t.first, n) && wf_val(*t.second, n),
        _ => true,
    }
}

/// Every value bound in the environment is well formed.
pub open spec fn wf_env(e: EnvV, n: nat) -> bool {
    forall|k: Seq<char>| e.contains_key(k) ==> wf_val(#[trigger] e[k], n)
}

/// Every frame and every cached value is well formed against the arena.
pub open spec fn wf_st(st: StV) -> bool {
    &&& forall|i: int|
        0 <= i < st.frames.len() ==> wf_env(#[trigger] st.frames[i], st.frames.len())
    &&& wf_env(st.cache, st.frames.len())
}

pub proof fn lemma_wf_val_mono(v: ValV, n: nat, m: nat)
    requires
        wf_val(v, n),
        n <= m,
    ensures
        wf_val(v, m),
    decreases v,
{
    match v {
        ValV::Tuple(t) => {
            lemma_wf_val_mono(*t.first, n, m);
            lemma_wf_val_mono(*t.second, n, m);
        },
        _ => {},
    }
}

pub proof fn lemma_wf_env_mono(e: EnvV, n: nat, m: nat)
    requires
        wf_env(e, n),
        n <= m,
    ensures
        wf_env(e, m),
{
    assert forall|k: Seq<char>| e.contains_key(k) implies wf_val(#[trigger] e[k], m) by {
        lemma_wf_val_mono(e[k], n, m);
    }
}

pub proof fn lemma_wf_env_insert(e: EnvV, k: Seq<char>, v: ValV, n: nat)
    requires
        wf_env(e, n),
        wf_val(v, n),
    ensures
        wf_env(e.insert(k, v), n),
{
}

/// Every value in the row is well formed.
pub open spec fn wf_vals(s: Seq<ValV>, n: nat) -> bool {
    forall|j: int| 0 <= j < s.len() ==> wf_val(#[trigger] s[j], n)
}

pub proof fn lemma_wf_vals_mono(s: Seq<ValV>, n: nat, m: nat)
    requires
        wf_vals(s, n),
        n <= m,
    ensures
        wf_vals(s, m),
{
    assert forall|j: int| 0 <= j < s.len() implies wf_val(#[trigger] s[j], m) by {
        lemma_wf_val_mono(s[j], n, m);
    }
}

// ----- Cache keys -----

/// A short tag for each operator, used in the structural digest of a body.
pub open spec fn op_tag(op: BinaryOp) -> Seq<char> {
    match op {
        BinaryOp::Add => "+"@,
        BinaryOp::Sub => "-"@,
        BinaryOp::Mul => "*"@,
        BinaryOp::Div => "/"@,
        BinaryOp::Rem => "%"@,
        BinaryOp::Eq => "=="@,
        BinaryOp::Neq => "!="@,
        BinaryOp::Lt => "<"@,
        BinaryOp::Gt => ">"@,
        BinaryOp::Lte => "<="@,
        BinaryOp::Gte => ">="@,
        BinaryOp::And => "&&"@,
        BinaryOp::Or => "||"@,
    }
}

/// The structural digest of a term: a deterministic rendering of the node
/// kinds, names, literals and operators, independent of source locations and
/// of the calling environment. Two structurally identical bodies share a
/// digest, so calls of distinct but identical functions share cache entries.
pub open spec fn term_key(t: TermV) -> Seq<char>
    decreases t,
{
    match t {
        TermV::Int(n) => "i("@ + dec_of_i64(n.value) + ")"@,
        TermV::Str(s) => "s("@ + s.value + ")"@,
        TermV::Bool(b) => if b.value {
            "b(1)"@
        } else {
            "b(0)"@
        },
        TermV::Var(v) => "v("@ + v.text + ")"@,
        TermV::Let(l) => "l("@ + l.name.text + ","@ + term_key(*l.value) + ","@ + term_key(
            *l.next,
        ) + ")"@,
        TermV::If(i) => "c("@ + term_key(*i.condition) + ","@ + term_key(*i.then_branch) + ","@
            + term_key(*i.otherwise) + ")"@,
        TermV::Binary(b) => "o("@ + op_tag(b.op) + ","@ + term_key(*b.lhs) + ","@ + term_key(
            *b.rhs,
        ) + ")"@,
        TermV::Call(c) => "a("@ + term_key(*c.callee) + ","@ + terms_key(c.arguments) + ")"@,
        TermV::Function(f) => "f("@ + params_key(f.parameters) + ","@ + term_key(*f.value) + ")"@,
        TermV::Print(p) => "p("@ + term_key(*p.value) + ")"@,
        TermV::First(f) => "1("@ + term_key(*f.value) + ")"@,
        TermV::Second(s) => "2("@ + term_key(*s.value) + ")"@,
        TermV::Tuple(t) => "t("@ + term_key(*t.first) + ","@ + term_key(*t.second) + ")"@,
    }
}

pub open spec fn terms_key(ts: Seq<TermV>) -> Seq<char>
    decreases ts,
{
    if ts.len() == 0 {
        Seq::empty()
    } else {
        terms_key(ts.drop_last()) + term_key(ts.last()) + ";"@
    }
}

pub open spec fn params_key(ps: Seq<VarV>) -> Seq<char>
    decreases ps,
{
    if ps.len() == 0 {
        Seq::empty()
    } else {
        params_key(ps.drop_last()) + ps.last().text + ";"@
    }
}

/// The joined digests of a row of argument values, or `None` when any of them
/// is unhashable (contains a closure).
pub open spec fn args_digest(args: Seq<ValV>) -> Option<Seq<char>>
    decreases args,
{
    if args.len() == 0 {
        Some(Seq::empty())
    } else {
        match (args_digest(args.drop_last()), spec_val_digest(args.last())) {
            (Some(a), Some(d)) => Some(a + d + ","@),
            _ => None,
        }
    }
}

/// A row with one unhashable value has no digest, so such a call is never
/// memoized.
pub proof fn lemma_args_digest_none(s: Seq<ValV>, i: int)
    requires
        0 <= i < s.len(),
        spec_val_digest(s[i]) is None,
    ensures
        args_digest(s) is None,
    decreases s.len(),
{
    if i == s.len() - 1 {
    } else {
        assert(s.drop_last()[i] == s[i]);
        lemma_args_digest_none(s.drop_last(), i);
    }
}

/// The memoization cache key for a call: the body's structural digest joined
/// with the digests of the argument values, or `None` (no memoization) when
/// any argument contains a closure.
pub open spec fn spec_cache_key(body: TermV, args: Seq<ValV>) -> Option<Seq<char>> {
    match args_digest(args) {
        Some(a) => Some(term_key(body) + "|"@ + a),
        None => None,
    }
}

// ----- The big-step semantics -----

/// Binds parameters to argument values pairwise, left to right, on top of a
/// base environment; stops at the shorter of the two rows.
pub open spec fn bind_params(base: EnvV, params: Seq<VarV>, vals: Seq<ValV>) -> EnvV
    decreases params,
{
    if params.len() == 0 || vals.len() == 0 {
        base
    } else {
        bind_params(base.insert(params[0].text, vals[0]), params.drop_first(), vals.drop_first())
    }
}

/// A bare name: its binding in the active environment, or an unbound-variable
/// error carrying the name's own location.
pub open spec fn spec_eval_var(v: VarV, env: EnvV) -> Result<ValV, ErrV> {
    if env.contains_key(v.text) {
        Ok(env[v.text])
    } else {
        Err(unbound_err(v))
    }
}

/// Evaluating a function literal captures the current environment: the
/// environment is appended to the frame arena and the closure names its index.
pub open spec fn spec_eval_function(f: FunctionV, env: EnvV, st: StV) -> (EvalR, StV) {
    (
        EvalR::Val(
            ValV::Closure(
                ClosV { parameters: f.parameters, body: *f.value, context: st.frames.len() },
            ),
        ),
        StV { frames: st.frames.push(env), ..st },
    )
}

/// `value` is evaluated first. A closure result is patched for
/// self-reference: the binding is inserted into the closure's own captured
/// frame, so the body can call the function by its bound name. Either way the
/// binding extends the environment of `next` alone.
pub open spec fn spec_eval_let(l: LetV, env: EnvV, st: StV, f: nat) -> (EvalR, StV)
    decreases f, 2int, 0int,
{
    let (r1, st1) = spec_eval(*l.value, env, st, f);
    match r1 {
        EvalR::Val(v) => {
            let st2 = match v {
                ValV::Closure(c) => StV {
                    frames: st1.frames.update(
                        c.context as int,
                        st1.frames[c.context as int].insert(l.name.text, v),
                    ),
                    ..st1
                },
                _ => st1,
            };
            spec_eval(*l.next, env.insert(l.name.text, v), st2, f)
        },
        _ => (r1, st1),
    }
}

/// The condition is evaluated first and must be a boolean; exactly one branch
/// is then evaluated.
pub open spec fn spec_eval_if(i: IfV, env: EnvV, st: StV, f: nat) -> (EvalR, StV)
    decreases f, 2int, 0int,
{
    let (r1, st1) = spec_eval(*i.condition, env, st, f);
    match r1 {
        EvalR::Val(ValV::Bool(b)) => if b {
            spec_eval(*i.then_branch, env, st1, f)
        } else {
            spec_eval(*i.otherwise, env, st1, f)
        },
        EvalR::Val(v) => (EvalR::Fail(condition_err(v, term_loc(*i.condition))), st1),
        _ => (r1, st1),
    }
}

/// `lhs` is evaluated before `rhs`; the operator then combines the two values.
pub open spec fn spec_eval_binary(
    b: crate::ast::BinaryV,
    env: EnvV,
    st: StV,
    f: nat,
) -> (EvalR, StV)
    decreases f, 2int, 0int,
{
    let (r1, st1) = spec_eval(*b.lhs, env, st, f);
    match r1 {
        EvalR::Val(lv) => {
            let (r2, st2) = spec_eval(*b.rhs, env, st1, f);
            match r2 {
                EvalR::Val(rv) => match spec_binary(lv, b.op, rv, b.location) {
                    Ok(v) => (EvalR::Val(v), st2),
                    Err(e) => (EvalR::Fail(e), st2),
                },
                _ => (r2, st2),
            }
        },
        _ => (r1, st1),
    }
}

/// The operand is evaluated, its display form is appended to the output
/// stream, and the operand is returned unchanged.
pub open spec fn spec_eval_print(p: PrintV, env: EnvV, st: StV, f: nat) -> (EvalR, StV)
    decreases f, 2int, 0int,
{
    let (r1, st1) = spec_eval(*p.value, env, st, f);
    match r1 {
        EvalR::Val(v) => (EvalR::Val(v), StV { output: st1.output.push(spec_render(v)), ..st1 }),
        _ => (r1, st1),
    }
}

/// `first` is evaluated before `second`.
pub open spec fn spec_eval_tuple(t: crate::ast::TupleV, env: EnvV, st: StV, f: nat) -> (EvalR, StV)
    decreases f, 2int, 0int,
{
    let (r1, st1) = spec_eval(*t.first, env, st, f);
    match r1 {
        EvalR::Val(v1) => {
            let (r2, st2) = spec_eval(*t.second, env, st1, f);
            match r2 {
                EvalR::Val(v2) => (
                    EvalR::Val(ValV::Tuple(TupV { first: Box::new(v1), second: Box::new(v2) })),
                    st2,
                ),
                _ => (r2, st2),
            }
        },
        _ => (r1, st1),
    }
}

/// The operand must evaluate to a tuple; its first component is returned.
pub open spec fn spec_eval_first(fst: crate::ast::FirstV, env: EnvV, st: StV, f: nat) -> (
    EvalR,
    StV,
)
    decreases f, 2int, 0int,
{
    let (r1, st1) = spec_eval(*fst.value, env, st, f);
    match r1 {
        EvalR::Val(ValV::Tuple(t)) => (EvalR::Val(*t.first), st1),
        EvalR::Val(_) => (EvalR::Fail(first_err(fst.location)), st1),
        _ => (r1, st1),
    }
}

/// The operand must evaluate to a tuple; its second component is returned.
pub open spec fn spec_eval_second(snd: crate::ast::SecondV, env: EnvV, st: StV, f: nat) -> (
    EvalR,
    StV,
)
    decreases f, 2int, 0int,
{
    let (r1, st1) = spec_eval(*snd.value, env, st, f);
    match r1 {
        EvalR::Val(ValV::Tuple(t)) => (EvalR::Val(*t.second), st1),
        EvalR::Val(_) => (EvalR::Fail(second_err(snd.location)), st1),
        _ => (r1, st1),
    }
}

/// A row of argument expressions, evaluated left to right in the caller's
/// environment; the first failure stops the row.
pub open spec fn spec_eval_args(args: Seq<TermV>, env: EnvV, st: StV, f: nat) -> (ArgsR, StV)
    decreases f, 1int, args.len(),
{
    if args.len() == 0 {
        (ArgsR::Vals(Seq::empty()), st)
    } else {
        let (r1, st1) = spec_eval(args[0], env, st, f);
        match r1 {
            EvalR::Val(v) => {
                let (ra, st2) = spec_eval_args(args.drop_first(), env, st1, f);
                match ra {
                    ArgsR::Vals(vs) => (ArgsR::Vals(seq![v] + vs), st2),
                    _ => (ra, st2),
                }
            },
            EvalR::Fail(e) => (ArgsR::Fail(e), st1),
            EvalR::OutOfFuel => (ArgsR::OutOfFuel, st1),
        }
    }
}

/// Memoized evaluation of a pure body: no key (an unhashable argument) means
/// plain evaluation; a cache hit returns the stored value without evaluating
/// the body at all; a miss evaluates the body and stores a successful result.
pub open spec fn spec_eval_memo(
    body: TermV,
    args: Seq<ValV>,
    env: EnvV,
    st: StV,
    f: nat,
) -> (EvalR, StV)
    decreases f, 2int, 0int,
{
    match spec_cache_key(body, args) {
        Some(k) => if st.cache.contains_key(k) {
            (EvalR::Val(st.cache[k]), st)
        } else {
            let (r, st1) = spec_eval(body, env, st, f);
            match r {
                EvalR::Val(v) => (r, StV { cache: st1.cache.insert(k, v), ..st1 }),
                _ => (r, st1),
            }
        },
        None => spec_eval(body, env, st, f),
    }
}

/// The callee is evaluated first and must be a closure. The closure's frame
/// is snapshotted, then as many arguments as there are parameters (extra
/// arguments or parameters are silently ignored) are evaluated left to right
/// in the caller's environment. The body then runs in the snapshot extended
/// with the parameter bindings: through the cache when it is pure under the
/// shallow rule, directly otherwise.
pub open spec fn spec_eval_call(c: CallV, env: EnvV, st: StV, f: nat) -> (EvalR, StV)
    decreases f, 3int, 0int,
{
    let (r1, st1) = spec_eval(*c.callee, env, st, f);
    match r1 {
        EvalR::Val(ValV::Closure(cl)) => {
            let base = st1.frames[cl.context as int];
            let n = if cl.parameters.len() <= c.arguments.len() {
                cl.parameters.len()
            } else {
                c.arguments.len()
            };
            let (ra, st2) = spec_eval_args(c.arguments.take(n as int), env, st1, f);
            match ra {
                ArgsR::Vals(vals) => {
                    let benv = bind_params(base, cl.parameters.take(n as int), vals);
                    if crate::ast::spec_is_pure(cl.body) {
                        spec_eval_memo(cl.body, vals, benv, st2, f)
                    } else {
                        spec_eval(cl.body, benv, st2, f)
                    }
                },
                ArgsR::Fail(e) => (EvalR::Fail(e), st2),
                ArgsR::OutOfFuel => (EvalR::OutOfFuel, st2),
            }
        },
        EvalR::Val(v) => (EvalR::Fail(call_err(v, c.location)), st1),
        _ => (r1, st1),
    }
}

/// One step of evaluation: dispatch on the node kind, spending one unit of
/// fuel. Literals and bare names do not recurse; every composite form hands
/// `fuel - 1` to its subterms.
pub open spec fn spec_eval(t: TermV, env: EnvV, st: StV, fuel: nat) -> (EvalR, StV)
    decreases fuel, 0int, 0int,
{
    if fuel == 0 {
        (EvalR::OutOfFuel, st)
    } else {
        let f = (fuel - 1) as nat;
        match t {
            TermV::Int(n) => (EvalR::Val(ValV::Int(n.value)), st),
            TermV::Str(s) => (EvalR::Val(ValV::Str(s.value)), st),
            TermV::Bool(b) => (EvalR::Val(ValV::Bool(b.value)), st),
            TermV::Var(v) => match spec_eval_var(v, env) {
                Ok(w) => (EvalR::Val(w), st),
                Err(e) => (EvalR::Fail(e), st),
            },
            TermV::Function(fun) => spec_eval_function(fun, env, st),
            TermV::Let(l) => spec_eval_let(l, env, st, f),
            TermV::If(i) => spec_eval_if(i, env, st, f),
            TermV::Binary(b) => spec_eval_binary(b, env, st, f),
            TermV::Print(p) => spec_eval_print(p, env, st, f),
            TermV::Tuple(tp) => spec_eval_tuple(tp, env, st, f),
            TermV::First(fst) => spec_eval_first(fst, env, st, f),
            TermV::Second(snd) => spec_eval_second(snd, env, st, f),
            TermV::Call(c) => spec_eval_call(c, env, st, f),
        }
    }
}

} // verus!

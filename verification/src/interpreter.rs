//! The recursive evaluator. Each function mirrors one arm of the ghost
//! big-step semantics in [`crate::semantics`]: its contract says that the
//! value (or error) it returns and the state it leaves behind are exactly
//! those of [`spec_eval`] at the same fuel.
//!
//! The fuel bounds the recursion depth: a run that would recurse deeper
//! answers [`Stop::OutOfFuel`] instead of overflowing the host stack, and
//! the semantics says `OutOfFuel` for exactly those runs.

use vstd::prelude::*;
use vstd::string::StringExecFns;
use crate::ast::{
    lemma_terms_view, lemma_vars_view, vars_view, Binary, Call, First, Function, If, Let, Print, Second,
    Term, Var,
};
use crate::dict::Dict;
use crate::error::{mk_first_err, mk_second_err, mk_unbound_err, RuntimeError};
use crate::semantics::{
    bind_params, lemma_wf_env_insert, lemma_wf_env_mono, lemma_wf_val_mono, lemma_wf_vals_mono,
    spec_cache_key, spec_eval, spec_eval_args, spec_eval_binary, spec_eval_call,
    spec_eval_first, spec_eval_function, spec_eval_if, spec_eval_let, spec_eval_memo,
    spec_eval_print, spec_eval_second, spec_eval_tuple, spec_eval_var, args_digest, op_tag,
    lemma_args_digest_none, params_key, term_key, terms_key, wf_env, wf_st, wf_val, wf_vals,
    ArgsR, EnvV, EvalR, StV,
};
use crate::value::{
    lemma_vals_view, mk_call_err, mk_condition_err, mk_div_zero_err, mk_operand_err, hash_value,
    i64_dec, vals_view, Closure, Tuple, ValV, Value,
};

verus! {

/// Why an evaluation stopped without a value.
#[derive(Debug)]
pub enum Stop {
    /// A semantic error; evaluation halted at the first failure.
    Error(RuntimeError),
    /// The fuel ran out before evaluation finished.
    OutOfFuel,
}

/// The mutable evaluation state threaded through the whole run: the arena of
/// captured environment frames, the memoization cache, and the lines printed
/// so far, in order.
pub struct State<'a> {
    pub frames: Vec<Dict<'a>>,
    pub cache: Dict<'a>,
    pub output: Vec<String>,
}

impl<'a> View for State<'a> {
    type V = StV;

    open spec fn view(&self) -> StV {
        StV {
            frames: self.frames@.map_values(|d: Dict<'a>| d@),
            cache: self.cache@,
            output: self.output@.map_values(|s: String| s@),
        }
    }
}

impl<'a> State<'a> {
    /// The state of a fresh run: no frames, an empty cache, nothing printed.
    pub fn new() -> (st: State<'a>)
        ensures
            st@ == (StV {
                frames: Seq::<EnvV>::empty(),
                cache: Map::<Seq<char>, ValV>::empty(),
                output: Seq::<Seq<char>>::empty(),
            }),
    {
        let st = State { frames: Vec::new(), cache: Dict::new(), output: Vec::new() };
        proof {
            assert(st@.frames =~= Seq::<EnvV>::empty());
            assert(st@.output =~= Seq::<Seq<char>>::empty());
        }
        st
    }
}

/// The executable outcome `r` and final state `post` agree with the ghost
/// outcome `out`, the final state is well formed, and the frame arena only
/// grew.
pub open spec fn mirrors<'a>(
    r: Result<Value<'a>, Stop>,
    pre: StV,
    post: StV,
    out: (EvalR, StV),
) -> bool {
    &&& post == out.1
    &&& match r {
        Ok(v) => out.0 == EvalR::Val(v@) && wf_val(v@, post.frames.len()),
        Err(Stop::Error(e)) => out.0 == EvalR::Fail(e@),
        Err(Stop::OutOfFuel) => out.0 == EvalR::OutOfFuel,
    }
    &&& wf_st(post)
    &&& pre.frames.len() <= post.frames.len()
}

/// Looks a variable up in the active environment; see [`spec_eval_var`].
pub fn eval_var<'a>(var: &Var, context: &Dict<'a>) -> (r: Result<Value<'a>, RuntimeError>)
    ensures
        match r {
            Ok(v) => spec_eval_var(var@, context@) == Ok::<ValV, crate::error::ErrV>(v@),
            Err(e) => spec_eval_var(var@, context@) == Err::<ValV, crate::error::ErrV>(e@),
        },
{
    match context.get(&var.text) {
        Some(v) => Ok(v.duplicate()),
        None => Err(mk_unbound_err(var)),
    }
}

/// Builds a closure capturing the current environment; see
/// [`spec_eval_function`].
pub fn eval_function<'a>(function: &'a Function, context: &Dict<'a>, st: &mut State<'a>) -> (r:
    Result<Value<'a>, Stop>)
    requires
        wf_env(context@, old(st)@.frames.len()),
        wf_st(old(st)@),
    ensures
        mirrors(r, old(st)@, final(st)@, spec_eval_function(function@, context@, old(st)@)),
{
    let ghost pre = st@;
    let ctx = st.frames.len();
    st.frames.push(context.duplicate());
    proof {
        assert(st@.frames =~= pre.frames.push(context@));
        let m = st@.frames.len();
        assert forall|i: int| 0 <= i < m implies wf_env(#[trigger] st@.frames[i], m) by {
            if i < m - 1 {
                lemma_wf_env_mono(pre.frames[i], pre.frames.len(), m);
            } else {
                lemma_wf_env_mono(context@, pre.frames.len(), m);
            }
        }
        lemma_wf_env_mono(pre.cache, pre.frames.len(), m);
    }
    Ok(Value::Closure(Closure { parameters: &function.parameters, body: &function.value, context: ctx }))
}

/// Evaluates the bound value, patches a closure for self-reference, and
/// evaluates the body of the binding; see [`spec_eval_let`].
pub fn eval_let<'a>(let_: &'a Let, context: &Dict<'a>, st: &mut State<'a>, fuel: u64) -> (r:
    Result<Value<'a>, Stop>)
    requires
        wf_env(context@, old(st)@.frames.len()),
        wf_st(old(st)@),
    ensures
        mirrors(r, old(st)@, final(st)@, spec_eval_let(let_@, context@, old(st)@, fuel as nat)),
    decreases fuel as nat, 1int,
{
    let value = match eval(&let_.value, context, st, fuel) {
        Ok(v) => v,
        Err(e) => {
            return Err(e);
        },
    };
    let ghost st1 = st@;
    match &value {
        Value::Closure(c) => {
            let idx = c.context;
            let selfref = value.duplicate();
            st.frames[idx].insert(let_.name.text.clone(), selfref);
            proof {
                assert(st@.frames =~= st1.frames.update(
                    idx as int,
                    st1.frames[idx as int].insert(let_.name.text@, value@),
                ));
                lemma_wf_env_insert(st1.frames[idx as int], let_.name.text@, value@, st1.frames.len());
            }
        },
        _ => {},
    }
    let ghost st2 = st@;
    let mut env2 = context.duplicate();
    env2.insert(let_.name.text.clone(), value);
    proof {
        lemma_wf_env_mono(context@, old(st)@.frames.len(), st2.frames.len());
    }
    eval(&let_.next, &env2, st, fuel)
}

/// Evaluates the condition, then exactly one branch; see [`spec_eval_if`].
pub fn eval_if<'a>(if_: &'a If, context: &Dict<'a>, st: &mut State<'a>, fuel: u64) -> (r: Result<
    Value<'a>,
    Stop,
>)
    requires
        wf_env(context@, old(st)@.frames.len()),
        wf_st(old(st)@),
    ensures
        mirrors(r, old(st)@, final(st)@, spec_eval_if(if_@, context@, old(st)@, fuel as nat)),
    decreases fuel as nat, 1int,
{
    let cond = match eval(&if_.condition, context, st, fuel) {
        Ok(v) => v,
        Err(e) => {
            return Err(e);
        },
    };
    proof {
        lemma_wf_env_mono(context@, old(st)@.frames.len(), st@.frames.len());
    }
    match cond {
        Value::Bool(b) => if b {
            eval(&if_.then_branch, context, st, fuel)
        } else {
            eval(&if_.otherwise, context, st, fuel)
        },
        v => Err(Stop::Error(mk_condition_err(&v, if_.condition.location()))),
    }
}

/// Evaluates `lhs` before `rhs`, then applies the operator; see
/// [`spec_eval_binary`].
pub fn eval_binary<'a>(binary: &'a Binary, context: &Dict<'a>, st: &mut State<'a>, fuel: u64) -> (r:
    Result<Value<'a>, Stop>)
    requires
        wf_env(context@, old(st)@.frames.len()),
        wf_st(old(st)@),
    ensures
        mirrors(r, old(st)@, final(st)@, spec_eval_binary(binary@, context@, old(st)@, fuel as nat)),
    decreases fuel as nat, 1int,
{
    let lhs = match eval(&binary.lhs, context, st, fuel) {
        Ok(v) => v,
        Err(e) => {
            return Err(e);
        },
    };
    proof {
        lemma_wf_env_mono(context@, old(st)@.frames.len(), st@.frames.len());
    }
    let rhs = match eval(&binary.rhs, context, st, fuel) {
        Ok(v) => v,
        Err(e) => {
            return Err(e);
        },
    };
    match lhs.binary_op(binary.op, &rhs, &binary.location) {
        Ok(v) => {
            proof {
                assert(match crate::value::spec_binary(lhs@, binary.op, rhs@, binary.location@) {
                    Ok(w) => w is Int || w is Str || w is Bool,
                    Err(_) => true,
                });
            }
            Ok(v)
        },
        Err(e) => Err(Stop::Error(e)),
    }
}

/// Evaluates the operand, records its display form on the output stream, and
/// returns the operand unchanged; see [`spec_eval_print`].
pub fn eval_print<'a>(print: &'a Print, context: &Dict<'a>, st: &mut State<'a>, fuel: u64) -> (r:
    Result<Value<'a>, Stop>)
    requires
        wf_env(context@, old(st)@.frames.len()),
        wf_st(old(st)@),
    ensures
        mirrors(r, old(st)@, final(st)@, spec_eval_print(print@, context@, old(st)@, fuel as nat)),
    decreases fuel as nat, 1int,
{
    let v = match eval(&print.value, context, st, fuel) {
        Ok(v) => v,
        Err(e) => {
            return Err(e);
        },
    };
    let ghost st1 = st@;
    let line = v.render();
    st.output.push(line);
    proof {
        assert(st@.output =~= st1.output.push(crate::value::spec_render(v@)));
        assert(st@.frames =~= st1.frames);
    }
    Ok(v)
}

/// Evaluates `first` before `second` and pairs the results; see
/// [`spec_eval_tuple`].
pub fn eval_tuple<'a>(
    tuple: &'a crate::ast::Tuple,
    context: &Dict<'a>,
    st: &mut State<'a>,
    fuel: u64,
) -> (r: Result<Value<'a>, Stop>)
    requires
        wf_env(context@, old(st)@.frames.len()),
        wf_st(old(st)@),
    ensures
        mirrors(r, old(st)@, final(st)@, spec_eval_tuple(tuple@, context@, old(st)@, fuel as nat)),
    decreases fuel as nat, 1int,
{
    let first = match eval(&tuple.first, context, st, fuel) {
        Ok(v) => v,
        Err(e) => {
            return Err(e);
        },
    };
    let ghost len1 = st@.frames.len();
    proof {
        lemma_wf_env_mono(context@, old(st)@.frames.len(), len1);
    }
    let second = match eval(&tuple.second, context, st, fuel) {
        Ok(v) => v,
        Err(e) => {
            return Err(e);
        },
    };
    proof {
        lemma_wf_val_mono(first@, len1, st@.frames.len());
    }
    Ok(Value::Tuple(Tuple { first: Box::new(first), second: Box::new(second) }))
}

/// Evaluates the operand and projects the first component of the tuple; see
/// [`spec_eval_first`].
pub fn eval_first<'a>(first: &'a First, context: &Dict<'a>, st: &mut State<'a>, fuel: u64) -> (r:
    Result<Value<'a>, Stop>)
    requires
        wf_env(context@, old(st)@.frames.len()),
        wf_st(old(st)@),
    ensures
        mirrors(r, old(st)@, final(st)@, spec_eval_first(first@, context@, old(st)@, fuel as nat)),
    decreases fuel as nat, 1int,
{
    let v = match eval(&first.value, context, st, fuel) {
        Ok(v) => v,
        Err(e) => {
            return Err(e);
        },
    };
    match v {
        Value::Tuple(t) => Ok(*t.first),
        _ => Err(Stop::Error(mk_first_err(&first.location))),
    }
}

/// Evaluates the operand and projects the second component of the tuple; see
/// [`spec_eval_second`].
pub fn eval_second<'a>(second: &'a Second, context: &Dict<'a>, st: &mut State<'a>, fuel: u64) -> (r:
    Result<Value<'a>, Stop>)
    requires
        wf_env(context@, old(st)@.frames.len()),
        wf_st(old(st)@),
    ensures
        mirrors(r, old(st)@, final(st)@, spec_eval_second(second@, context@, old(st)@, fuel as nat)),
    decreases fuel as nat, 1int,
{
    let v = match eval(&second.value, context, st, fuel) {
        Ok(v) => v,
        Err(e) => {
            return Err(e);
        },
    };
    match v {
        Value::Tuple(t) => Ok(*t.second),
        _ => Err(Stop::Error(mk_second_err(&second.location))),
    }
}

fn op_tag_str(op: crate::ast::BinaryOp) -> (r: &'static str)
    ensures
        r@ == op_tag(op),
{
    match op {
        crate::ast::BinaryOp::Add => "+",
        crate::ast::BinaryOp::Sub => "-",
        crate::ast::BinaryOp::Mul => "*",
        crate::ast::BinaryOp::Div => "/",
        crate::ast::BinaryOp::Rem => "%",
        crate::ast::BinaryOp::Eq => "==",
        crate::ast::BinaryOp::Neq => "!=",
        crate::ast::BinaryOp::Lt => "<",
        crate::ast::BinaryOp::Gt => ">",
        crate::ast::BinaryOp::Lte => "<=",
        crate::ast::BinaryOp::Gte => ">=",
        crate::ast::BinaryOp::And => "&&",
        crate::ast::BinaryOp::Or => "||",
    }
}

/// The structural digest of a term; see [`term_key`].
#[verifier::loop_isolation(false)]
pub fn term_digest(t: &Term) -> (r: String)
    ensures
        r@ == term_key(t@),
    decreases *t,
{
    match t {
        Term::Int(n) => {
            let mut s = "i(".to_owned();
            s.append(i64_dec(n.value).as_str());
            s.append(")");
            s
        },
        Term::Str(st_) => {
            let mut s = "s(".to_owned();
            s.append(st_.value.as_str());
            s.append(")");
            s
        },
        Term::Bool(b) => if b.value {
            "b(1)".to_owned()
        } else {
            "b(0)".to_owned()
        },
        Term::Var(v) => {
            let mut s = "v(".to_owned();
            s.append(v.text.as_str());
            s.append(")");
            s
        },
        Term::Let(l) => {
            let mut s = "l(".to_owned();
            s.append(l.name.text.as_str());
            s.append(",");
            s.append(term_digest(&l.value).as_str());
            s.append(",");
            s.append(term_digest(&l.next).as_str());
            s.append(")");
            s
        },
        Term::If(i) => {
            let mut s = "c(".to_owned();
            s.append(term_digest(&i.condition).as_str());
            s.append(",");
            s.append(term_digest(&i.then_branch).as_str());
            s.append(",");
            s.append(term_digest(&i.otherwise).as_str());
            s.append(")");
            s
        },
        Term::Binary(b) => {
            let mut s = "o(".to_owned();
            s.append(op_tag_str(b.op));
            s.append(",");
            s.append(term_digest(&b.lhs).as_str());
            s.append(",");
            s.append(term_digest(&b.rhs).as_str());
            s.append(")");
            s
        },
        Term::Call(c) => {
            let mut s = "a(".to_owned();
            s.append(term_digest(&c.callee).as_str());
            s.append(",");
            let mut i: usize = 0;
            let mut acc = String::new();
            while i < c.arguments.len()
                invariant
                    i <= c.arguments.len(),
                    acc@ == terms_key(crate::ast::terms_view(c.arguments@.take(i as int))),
                decreases c.arguments.len() - i,
            {
                proof {
                    assert(decreases_to!(*t => *c));
                    assert(decreases_to!(*c => c.arguments));
                    assert(decreases_to!(c.arguments => c.arguments@));
                    assert(decreases_to!(c.arguments@ => c.arguments@[i as int]));
                    assert(decreases_to!(*t => c.arguments@[i as int]));
                }
                let d = term_digest(&c.arguments[i]);
                proof {
                    let pre = c.arguments@.take(i as int);
                    let cur = c.arguments@.take(i + 1);
                    assert(cur.drop_last() =~= pre);
                    assert(cur.last() == c.arguments@[i as int]);
                    let tv = crate::ast::terms_view(cur);
                    assert(tv.drop_last() =~= crate::ast::terms_view(pre));
                    assert(tv.last() == crate::ast::term_view(c.arguments@[i as int]));
                }
                acc.append(d.as_str());
                acc.append(";");
                i = i + 1;
            }
            proof {
                assert(c.arguments@.take(c.arguments@.len() as int) =~= c.arguments@);
            }
            s.append(acc.as_str());
            s.append(")");
            s
        },
        Term::Function(f) => {
            let mut s = "f(".to_owned();
            let mut i: usize = 0;
            let mut acc = String::new();
            while i < f.parameters.len()
                invariant
                    i <= f.parameters.len(),
                    acc@ == params_key(crate::ast::vars_view(f.parameters@.take(i as int))),
                decreases f.parameters.len() - i,
            {
                proof {
                    let pre = f.parameters@.take(i as int);
                    let cur = f.parameters@.take(i + 1);
                    assert(cur.drop_last() =~= pre);
                    assert(cur.last() == f.parameters@[i as int]);
                    let pv = crate::ast::vars_view(cur);
                    assert(pv.drop_last() =~= crate::ast::vars_view(pre));
                    assert(pv.last() == f.parameters@[i as int]@);
                }
                acc.append(f.parameters[i].text.as_str());
                acc.append(";");
                i = i + 1;
            }
            proof {
                assert(f.parameters@.take(f.parameters@.len() as int) =~= f.parameters@);
            }
            s.append(acc.as_str());
            s.append(",");
            s.append(term_digest(&f.value).as_str());
            s.append(")");
            s
        },
        Term::Print(p) => {
            let mut s = "p(".to_owned();
            s.append(term_digest(&p.value).as_str());
            s.append(")");
            s
        },
        Term::First(f) => {
            let mut s = "1(".to_owned();
            s.append(term_digest(&f.value).as_str());
            s.append(")");
            s
        },
        Term::Second(sec) => {
            let mut s = "2(".to_owned();
            s.append(term_digest(&sec.value).as_str());
            s.append(")");
            s
        },
        Term::Tuple(tp) => {
            let mut s = "t(".to_owned();
            s.append(term_digest(&tp.first).as_str());
            s.append(",");
            s.append(term_digest(&tp.second).as_str());
            s.append(")");
            s
        },
    }
}

/// The memoization cache key for a call of `body` on `arguments`, or `None`
/// (skip memoization) when an argument contains a closure; see
/// [`spec_cache_key`].
#[verifier::loop_isolation(false)]
pub fn cache_key<'a>(body: &Term, arguments: &Vec<Value<'a>>) -> (r: Option<String>)
    ensures
        match r {
            Some(s) => spec_cache_key(body@, vals_view(arguments@)) == Some(s@),
            None => spec_cache_key(body@, vals_view(arguments@)) is None,
        },
{
    let mut acc = String::new();
    let mut i: usize = 0;
    while i < arguments.len()
        invariant
            i <= arguments.len(),
            args_digest(vals_view(arguments@.take(i as int))) == Some(acc@),
        decreases arguments.len() - i,
    {
        proof {
            let pre = arguments@.take(i as int);
            let cur = arguments@.take(i + 1);
            assert(cur.drop_last() =~= pre);
            assert(cur.last() == arguments@[i as int]);
            let vv = vals_view(cur);
            assert(vv.drop_last() =~= vals_view(pre));
            assert(vv.last() == crate::value::val_view(arguments@[i as int]));
        }
        match hash_value(&arguments[i]) {
            Some(d) => {
                acc.append(d.as_str());
                acc.append(",");
            },
            None => {
                proof {
                    lemma_vals_view(arguments@);
                    lemma_args_digest_none(vals_view(arguments@), i as int);
                }
                return None;
            },
        }
        i = i + 1;
    }
    proof {
        assert(arguments@.take(arguments@.len() as int) =~= arguments@);
    }
    let mut key = term_digest(body);
    key.append("|");
    key.append(acc.as_str());
    Some(key)
}

/// Evaluates a pure body through the memoization cache; see
/// [`spec_eval_memo`].
pub fn eval_memo<'a>(
    body: &'a Term,
    arguments: &Vec<Value<'a>>,
    context: &Dict<'a>,
    st: &mut State<'a>,
    fuel: u64,
) -> (r: Result<Value<'a>, Stop>)
    requires
        wf_env(context@, old(st)@.frames.len()),
        wf_st(old(st)@),
    ensures
        mirrors(
            r,
            old(st)@,
            final(st)@,
            spec_eval_memo(body@, vals_view(arguments@), context@, old(st)@, fuel as nat),
        ),
    decreases fuel as nat, 1int,
{
    match cache_key(body, arguments) {
        Some(key) => {
            let cached = match st.cache.get(&key) {
                Some(v) => Some(v.duplicate()),
                None => None,
            };
            match cached {
                Some(v) => {
                    proof {
                        assert(wf_val(v@, st@.frames.len()));
                    }
                    Ok(v)
                },
                None => {
                    let v = match eval(body, context, st, fuel) {
                        Ok(v) => v,
                        Err(e) => {
                            return Err(e);
                        },
                    };
                    let ghost st1 = st@;
                    st.cache.insert(key, v.duplicate());
                    proof {
                        assert(st@.frames =~= st1.frames);
                        lemma_wf_env_insert(st1.cache, key@, v@, st1.frames.len());
                    }
                    Ok(v)
                },
            }
        },
        None => eval(body, context, st, fuel),
    }
}

/// Evaluates the callee, then the arguments (only as many as there are
/// parameters), builds the call frame on the closure's captured environment,
/// and runs the body, through the cache when it is pure; see
/// [`spec_eval_call`].
#[verifier::loop_isolation(false)]
pub fn eval_call<'a>(call: &'a Call, context: &Dict<'a>, st: &mut State<'a>, fuel: u64) -> (r:
    Result<Value<'a>, Stop>)
    requires
        wf_env(context@, old(st)@.frames.len()),
        wf_st(old(st)@),
    ensures
        mirrors(r, old(st)@, final(st)@, spec_eval_call(call@, context@, old(st)@, fuel as nat)),
    decreases fuel as nat, 2int,
{
    let callee = match eval(&call.callee, context, st, fuel) {
        Ok(v) => v,
        Err(e) => {
            return Err(e);
        },
    };
    match callee {
        Value::Closure(clos) => {
            let ghost st1 = st@;
            proof {
                assert(wf_val(callee@, st1.frames.len()));
            }
            let mut new_env = st.frames[clos.context].duplicate();
            let ghost base = st1.frames[clos.context as int];
            let nparams = clos.parameters.len();
            let nargs = call.arguments.len();
            let n = if nparams <= nargs {
                nparams
            } else {
                nargs
            };
            proof {
                lemma_terms_view(call.arguments@);
                lemma_vars_view(clos.parameters@);
            }
            let ghost taken = call@.arguments.take(n as int);
            let mut argvals: Vec<Value<'a>> = Vec::new();
            proof {
                lemma_wf_env_mono(context@, old(st)@.frames.len(), st@.frames.len());
                assert(vals_view(argvals@) =~= Seq::<ValV>::empty());
                assert(taken.skip(0) =~= taken);
                let (ra, sta) = spec_eval_args(taken, context@, st@, fuel as nat);
                match ra {
                    ArgsR::Vals(ws) => {
                        assert(vals_view(argvals@) + ws =~= ws);
                    },
                    _ => {},
                }
            }
            let mut i: usize = 0;
            while i < n
                invariant
                    i <= n,
                    argvals@.len() == i,
                    wf_st(st@),
                    st1.frames.len() <= st@.frames.len(),
                    wf_env(context@, st@.frames.len()),
                    wf_vals(vals_view(argvals@), st@.frames.len()),
                    ({
                        let (ra, sta) = spec_eval_args(
                            taken.skip(i as int),
                            context@,
                            st@,
                            fuel as nat,
                        );
                        spec_eval_args(taken, context@, st1, fuel as nat) == (
                            match ra {
                                ArgsR::Vals(ws) => ArgsR::Vals(vals_view(argvals@) + ws),
                                x => x,
                            },
                            sta,
                        )
                    }),
                decreases n - i,
            {
                proof {
                    assert(taken.skip(i as int)[0] == call@.arguments[i as int]);
                }
                let ghost st_pre = st@;
                let a = match eval(&call.arguments[i], context, st, fuel) {
                    Ok(a) => a,
                    Err(e) => {
                        proof {
                            assert(taken.skip(i as int).len() > 0);
                        }
                        return Err(e);
                    },
                };
                proof {
                    assert(taken.skip(i as int).drop_first() =~= taken.skip(i + 1));
                    lemma_wf_env_mono(context@, st_pre.frames.len(), st@.frames.len());
                    let prev = vals_view(argvals@);
                    let s2 = argvals@.push(a);
                    assert(s2.drop_last() =~= argvals@);
                    assert(s2.last() == a);
                    assert(vals_view(s2) == prev.push(a@));
                    lemma_wf_vals_mono(prev, st_pre.frames.len(), st@.frames.len());
                    assert forall|k: int| 0 <= k < vals_view(s2).len() implies wf_val(
                        #[trigger] vals_view(s2)[k],
                        st@.frames.len(),
                    ) by {
                        if k < prev.len() {
                            assert(wf_val(prev[k], st@.frames.len()));
                        }
                    }
                    let (ra2, sta2) = spec_eval_args(
                        taken.skip(i + 1),
                        context@,
                        st@,
                        fuel as nat,
                    );
                    match ra2 {
                        ArgsR::Vals(ws) => {
                            assert(prev + (seq![a@] + ws) =~= prev.push(a@) + ws);
                        },
                        _ => {},
                    }
                }
                argvals.push(a);
                i = i + 1;
            }
            proof {
                assert(taken.skip(n as int) =~= Seq::<crate::ast::TermV>::empty());
                let (ra, sta) = spec_eval_args(taken.skip(n as int), context@, st@, fuel as nat);
                assert(ra == ArgsR::Vals(Seq::<ValV>::empty()));
                assert(vals_view(argvals@) + Seq::<ValV>::empty() =~= vals_view(argvals@));
            }
            // Bind parameters pairwise onto the snapshot of the captured frame.
            let ghost vals = vals_view(argvals@);
            proof {
                assert(vars_view(clos.parameters@).take(n as int).skip(0) =~= vars_view(
                    clos.parameters@,
                ).take(n as int));
                assert(vals.skip(0) =~= vals);
                assert(wf_env(base, st1.frames.len()));
                lemma_wf_env_mono(base, st1.frames.len(), st@.frames.len());
                lemma_vals_view(argvals@);
                lemma_vars_view(clos.parameters@);
            }
            let mut j: usize = 0;
            while j < n
                invariant
                    j <= n,
                    n <= clos.parameters.len(),
                    n <= argvals@.len(),
                    wf_env(new_env@, st@.frames.len()),
                    bind_params(base, vars_view(clos.parameters@).take(n as int), vals)
                        == bind_params(
                        new_env@,
                        vars_view(clos.parameters@).take(n as int).skip(j as int),
                        vals.skip(j as int),
                    ),
                decreases n - j,
            {
                proof {
                    lemma_vals_view(argvals@);
                    lemma_vars_view(clos.parameters@);
                    let ptk = vars_view(clos.parameters@).take(n as int);
                    assert(ptk.skip(j as int)[0] == clos.parameters@[j as int]@);
                    assert(vals.skip(j as int)[0] == argvals@[j as int]@);
                    assert(ptk.skip(j as int).drop_first() =~= ptk.skip(j + 1));
                    assert(vals.skip(j as int).drop_first() =~= vals.skip(j + 1));
                    lemma_vals_view(argvals@);
                    assert(wf_val(argvals@[j as int]@, st@.frames.len()));
                }
                new_env.insert(clos.parameters[j].text.clone(), argvals[j].duplicate());
                j = j + 1;
            }
            proof {
                let ptk = vars_view(clos.parameters@).take(n as int);
                assert(ptk.skip(n as int).len() == 0);
                assert(vals.skip(n as int).len() == 0 || ptk.skip(n as int).len() == 0);
            }
            if clos.body.is_pure() {
                eval_memo(clos.body, &argvals, &new_env, st, fuel)
            } else {
                eval(clos.body, &new_env, st, fuel)
            }
        },
        v => Err(Stop::Error(mk_call_err(&v, &call.location))),
    }
}

/// Evaluates one term: dispatch on the node kind, spending one unit of fuel;
/// see [`spec_eval`]. This is the evaluator's entry point.
pub fn eval<'a>(term: &'a Term, context: &Dict<'a>, st: &mut State<'a>, fuel: u64) -> (r: Result<
    Value<'a>,
    Stop,
>)
    requires
        wf_env(context@, old(st)@.frames.len()),
        wf_st(old(st)@),
    ensures
        mirrors(r, old(st)@, final(st)@, spec_eval(term@, context@, old(st)@, fuel as nat)),
    decreases fuel as nat, 0int,
{
    if fuel == 0 {
        return Err(Stop::OutOfFuel);
    }
    let f = fuel - 1;
    match term {
        Term::Int(n) => Ok(Value::Int(n.value)),
        Term::Str(s) => Ok(Value::Str(s.value.clone())),
        Term::Bool(b) => Ok(Value::Bool(b.value)),
        Term::Var(v) => match eval_var(v, context) {
            Ok(val) => {
                proof {
                    assert(context@.contains_key(v.text@));
                    assert(wf_val(context@[v.text@], old(st)@.frames.len()));
                }
                Ok(val)
            },
            Err(e) => Err(Stop::Error(e)),
        },
        Term::Function(fun) => eval_function(fun, context, st),
        Term::Let(l) => eval_let(l, context, st, f),
        Term::If(i) => eval_if(i, context, st, f),
        Term::Binary(b) => eval_binary(b, context, st, f),
        Term::Print(p) => eval_print(p, context, st, f),
        Term::Tuple(tp) => eval_tuple(tp, context, st, f),
        Term::First(fst) => eval_first(fst, context, st, f),
        Term::Second(snd) => eval_second(snd, context, st, f),
        Term::Call(c) => eval_call(c, context, st, f),
    }
}

} // verus!

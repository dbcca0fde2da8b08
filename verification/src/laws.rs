//! Laws of the semantics: properties that relate several evaluation steps,
//! stated over the ghost model and proved once and for all.

use vstd::prelude::*;
use vstd::seq_lib::*;
use crate::ast::{FirstV, LocV, SecondV, TermV, TupleV, VarV};
use crate::error::ErrorKind;
use crate::semantics::{
    bind_params, lemma_args_digest_none, spec_cache_key, spec_eval, spec_eval_args,
    spec_eval_memo, spec_eval_tuple, EnvV, EvalR, StV,
};
use crate::value::{div_zero_err, spec_binary, ValV};
use crate::ast::BinaryOp;

verus! {

/// Memoization transparency: once a call of a pure body on hashable arguments
/// has produced a value, a second call with the same body and value-equal
/// arguments returns the same value and leaves the state exactly as it was —
/// in particular, nothing more is printed, so no side effect of the body is
/// repeated.
pub proof fn lemma_memo_transparency(
    body: TermV,
    args: Seq<ValV>,
    env1: EnvV,
    env2: EnvV,
    st: StV,
    f1: nat,
    f2: nat,
)
    requires
        spec_cache_key(body, args) is Some,
        spec_eval_memo(body, args, env1, st, f1).0 is Val,
    ensures
        ({
            let (r1, st1) = spec_eval_memo(body, args, env1, st, f1);
            let (r2, st2) = spec_eval_memo(body, args, env2, st1, f2);
            r2 == r1 && st2 == st1
        }),
{
}

/// Cache bypass: a call with a closure-valued argument has no cache key, so
/// it always evaluates the body — it is never answered from the cache.
pub proof fn lemma_memo_closure_bypass(
    body: TermV,
    args: Seq<ValV>,
    env: EnvV,
    st: StV,
    f: nat,
    i: int,
)
    requires
        0 <= i < args.len(),
        args[i] is Closure,
    ensures
        spec_cache_key(body, args) is None,
        spec_eval_memo(body, args, env, st, f) == spec_eval(body, env, st, f),
{
    lemma_args_digest_none(args, i);
}

/// `Let` self-reference: when the bound value evaluates to a closure, the
/// binding continues with an environment that maps the bound name to that
/// closure, and the closure's own captured frame maps the name to it as well
/// — so the function can call itself by its bound name from within its body.
pub proof fn lemma_let_self_reference(l: crate::ast::LetV, env: EnvV, st: StV, f: nat)
    requires
        spec_eval(*l.value, env, st, f).0 matches EvalR::Val(v) && v is Closure,
        ({
            let (r, st1) = spec_eval(*l.value, env, st, f);
            r matches EvalR::Val(ValV::Closure(c)) && c.context < st1.frames.len()
        }),
    ensures
        ({
            let (r, st1) = spec_eval(*l.value, env, st, f);
            let v = r->Val_0;
            let c = v->Closure_0;
            let patched = StV {
                frames: st1.frames.update(
                    c.context as int,
                    st1.frames[c.context as int].insert(l.name.text, v),
                ),
                ..st1
            };
            &&& crate::semantics::spec_eval_let(l, env, st, f) == spec_eval(
                *l.next,
                env.insert(l.name.text, v),
                patched,
                f,
            )
            &&& env.insert(l.name.text, v)[l.name.text] == v
            &&& patched.frames[c.context as int][l.name.text] == v
        }),
{
}

/// Binding parameters does not disturb a captured binding whose name is not
/// among the parameters: a self-referential closure still sees its own name
/// inside a call frame built on its captured environment.
pub proof fn lemma_bind_params_preserves(
    base: EnvV,
    ps: Seq<VarV>,
    vs: Seq<ValV>,
    k: Seq<char>,
)
    requires
        base.contains_key(k),
        forall|i: int| 0 <= i < ps.len() ==> (#[trigger] ps[i]).text != k,
    ensures
        bind_params(base, ps, vs).contains_key(k),
        bind_params(base, ps, vs)[k] == base[k],
    decreases ps.len(),
{
    if ps.len() == 0 || vs.len() == 0 {
    } else {
        assert forall|i: int| 0 <= i < ps.drop_first().len() implies (#[trigger] ps.drop_first()[
            i
        ]).text != k by {
            assert(ps.drop_first()[i] == ps[i + 1]);
        }
        lemma_bind_params_preserves(
            base.insert(ps[0].text, vs[0]),
            ps.drop_first(),
            vs.drop_first(),
            k,
        );
    }
}

/// Tuple projection round trip: if evaluating `ta` yields `a` and then
/// evaluating `tb` yields `b`, projecting the first component of the pair
/// `(ta, tb)` yields exactly `a`, and projecting the second yields exactly
/// `b` — with both components' side effects still performed, in order.
pub proof fn lemma_tuple_projection_round_trip(
    ta: TermV,
    tb: TermV,
    env: EnvV,
    st: StV,
    f: nat,
    la: LocV,
    lb: LocV,
)
    requires
        spec_eval(ta, env, st, f).0 is Val,
        spec_eval(tb, env, spec_eval(ta, env, st, f).1, f).0 is Val,
    ensures
        ({
            let (ra, st1) = spec_eval(ta, env, st, f);
            let (rb, st2) = spec_eval(tb, env, st1, f);
            let pair = TupleV {
                first: Box::new(ta),
                second: Box::new(tb),
                location: la,
            };
            let first_node = TermV::First(
                FirstV { value: Box::new(TermV::Tuple(pair)), location: lb },
            );
            let second_node = TermV::Second(
                SecondV { value: Box::new(TermV::Tuple(pair)), location: lb },
            );
            &&& spec_eval(first_node, env, st, f + 2) == (ra, st2)
            &&& spec_eval(second_node, env, st, f + 2) == (rb, st2)
        }),
{
    let (ra, st1) = spec_eval(ta, env, st, f);
    let (rb, st2) = spec_eval(tb, env, st1, f);
    let pair = TupleV { first: Box::new(ta), second: Box::new(tb), location: la };
    assert(spec_eval(TermV::Tuple(pair), env, st, f + 1) == spec_eval_tuple(
        pair,
        env,
        st,
        f,
    ));
}

/// Dividing or taking a remainder by the integer zero is an
/// `InvalidOperand`-class error, never a panic and never a value.
pub proof fn lemma_divide_by_zero(x: i64, op: BinaryOp, location: LocV)
    requires
        op == BinaryOp::Div || op == BinaryOp::Rem,
    ensures
        spec_binary(ValV::Int(x), op, ValV::Int(0), location) == Err::<ValV, crate::error::ErrV>(
            div_zero_err(location),
        ),
        div_zero_err(location).kind == ErrorKind::InvalidOperand,
{
}

// ----- Side-effect order -----

proof fn lemma_prefix_trans(a: Seq<Seq<char>>, b: Seq<Seq<char>>, c: Seq<Seq<char>>)
    requires
        a.is_prefix_of(b),
        b.is_prefix_of(c),
    ensures
        a.is_prefix_of(c),
{
    assert(a =~= c.subrange(0, a.len() as int));
}

/// Evaluation only appends to the output stream: whatever a subevaluation
/// does, the lines already printed stay, in their order, as a prefix of the
/// final output. Together with the definition of the semantics — which
/// appends at most one line per `Print`, after its operand and before
/// anything that follows it — this pins the side-effect order to the
/// syntactic left-to-right evaluation order, memoized or not: a cache hit
/// appends nothing, so a memoized body's effects happened exactly once, at
/// the original miss.
pub proof fn lemma_output_extends(t: TermV, env: EnvV, st: StV, fuel: nat)
    ensures
        st.output.is_prefix_of(spec_eval(t, env, st, fuel).1.output),
    decreases fuel, 0int, 0int,
{
    if fuel == 0 {
    } else {
        let f = (fuel - 1) as nat;
        match t {
            TermV::Int(_) | TermV::Str(_) | TermV::Bool(_) | TermV::Var(_) | TermV::Function(
                _,
            ) => {},
            TermV::Let(l) => {
                lemma_output_extends(*l.value, env, st, f);
                let (r1, st1) = spec_eval(*l.value, env, st, f);
                match r1 {
                    EvalR::Val(v) => {
                        let st2 = match v {
                            ValV::Closure(c) => StV {
                                frames: st1.frames.update(
                                    c.context as int,
                                    st1.frames[c.context as int].insert(l.name.text, v),
                                ),
                                ..st1
                            },
                            _ => st1,
                        };
                        lemma_output_extends(*l.next, env.insert(l.name.text, v), st2, f);
                        lemma_prefix_trans(
                            st.output,
                            st2.output,
                            spec_eval(*l.next, env.insert(l.name.text, v), st2, f).1.output,
                        );
                    },
                    _ => {},
                }
            },
            TermV::If(i) => {
                lemma_output_extends(*i.condition, env, st, f);
                let (r1, st1) = spec_eval(*i.condition, env, st, f);
                match r1 {
                    EvalR::Val(ValV::Bool(b)) => {
                        if b {
                            lemma_output_extends(*i.then_branch, env, st1, f);
                            lemma_prefix_trans(
                                st.output,
                                st1.output,
                                spec_eval(*i.then_branch, env, st1, f).1.output,
                            );
                        } else {
                            lemma_output_extends(*i.otherwise, env, st1, f);
                            lemma_prefix_trans(
                                st.output,
                                st1.output,
                                spec_eval(*i.otherwise, env, st1, f).1.output,
                            );
                        }
                    },
                    _ => {},
                }
            },
            TermV::Binary(b) => {
                lemma_output_extends(*b.lhs, env, st, f);
                let (r1, st1) = spec_eval(*b.lhs, env, st, f);
                match r1 {
                    EvalR::Val(_) => {
                        lemma_output_extends(*b.rhs, env, st1, f);
                        lemma_prefix_trans(
                            st.output,
                            st1.output,
                            spec_eval(*b.rhs, env, st1, f).1.output,
                        );
                    },
                    _ => {},
                }
            },
            TermV::Print(p) => {
                lemma_output_extends(*p.value, env, st, f);
                let (r1, st1) = spec_eval(*p.value, env, st, f);
                match r1 {
                    EvalR::Val(v) => {
                        assert(st1.output.is_prefix_of(
                            st1.output.push(crate::value::spec_render(v)),
                        ));
                        lemma_prefix_trans(
                            st.output,
                            st1.output,
                            st1.output.push(crate::value::spec_render(v)),
                        );
                    },
                    _ => {},
                }
            },
            TermV::Tuple(tp) => {
                lemma_output_extends(*tp.first, env, st, f);
                let (r1, st1) = spec_eval(*tp.first, env, st, f);
                match r1 {
                    EvalR::Val(_) => {
                        lemma_output_extends(*tp.second, env, st1, f);
                        lemma_prefix_trans(
                            st.output,
                            st1.output,
                            spec_eval(*tp.second, env, st1, f).1.output,
                        );
                    },
                    _ => {},
                }
            },
            TermV::First(fst) => {
                lemma_output_extends(*fst.value, env, st, f);
            },
            TermV::Second(snd) => {
                lemma_output_extends(*snd.value, env, st, f);
            },
            TermV::Call(c) => {
                lemma_output_extends(*c.callee, env, st, f);
                let (r1, st1) = spec_eval(*c.callee, env, st, f);
                match r1 {
                    EvalR::Val(ValV::Closure(cl)) => {
                        let base = st1.frames[cl.context as int];
                        let n: int = if cl.parameters.len() <= c.arguments.len() {
                            cl.parameters.len() as int
                        } else {
                            c.arguments.len() as int
                        };
                        lemma_output_extends_args(c.arguments.take(n), env, st1, f);
                        let (ra, st2) = spec_eval_args(c.arguments.take(n), env, st1, f);
                        lemma_prefix_trans(st.output, st1.output, st2.output);
                        match ra {
                            crate::semantics::ArgsR::Vals(vals) => {
                                let benv = bind_params(base, cl.parameters.take(n), vals);
                                if crate::ast::spec_is_pure(cl.body) {
                                    lemma_output_extends_memo(cl.body, vals, benv, st2, f);
                                    lemma_prefix_trans(
                                        st.output,
                                        st2.output,
                                        spec_eval_memo(cl.body, vals, benv, st2, f).1.output,
                                    );
                                } else {
                                    lemma_output_extends(cl.body, benv, st2, f);
                                    lemma_prefix_trans(
                                        st.output,
                                        st2.output,
                                        spec_eval(cl.body, benv, st2, f).1.output,
                                    );
                                }
                            },
                            _ => {},
                        }
                    },
                    _ => {},
                }
            },
        }
    }
}

proof fn lemma_output_extends_args(args: Seq<TermV>, env: EnvV, st: StV, f: nat)
    ensures
        st.output.is_prefix_of(spec_eval_args(args, env, st, f).1.output),
    decreases f, 1int, args.len(),
{
    if args.len() == 0 {
    } else {
        lemma_output_extends(args[0], env, st, f);
        let (r1, st1) = spec_eval(args[0], env, st, f);
        match r1 {
            EvalR::Val(_) => {
                lemma_output_extends_args(args.drop_first(), env, st1, f);
                lemma_prefix_trans(
                    st.output,
                    st1.output,
                    spec_eval_args(args.drop_first(), env, st1, f).1.output,
                );
            },
            _ => {},
        }
    }
}

proof fn lemma_output_extends_memo(body: TermV, args: Seq<ValV>, env: EnvV, st: StV, f: nat)
    ensures
        st.output.is_prefix_of(spec_eval_memo(body, args, env, st, f).1.output),
    decreases f, 1int, 0int,
{
    match spec_cache_key(body, args) {
        Some(k) => {
            if st.cache.contains_key(k) {
            } else {
                lemma_output_extends(body, env, st, f);
            }
        },
        None => {
            lemma_output_extends(body, env, st, f);
        },
    }
}

} // verus!


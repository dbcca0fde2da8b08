use rinha::ast::{
    BinaryOp, Binary, Bool, Call, First, Function, If, Int, Let, Location, Print, Second, Str,
    Term, Tuple, Var,
};
use rinha::dict::Dict;
use rinha::error::ErrorKind;
use rinha::interpreter::{cache_key, eval, State, Stop};
use rinha::value::{hash_value, Value};

const FUEL: u64 = 100_000;

fn location() -> Location {
    Location { start: 0, end: 0, filename: "tests".to_string() }
}

fn int_t(i: i64) -> Term {
    Term::Int(Int { value: i, location: location() })
}

fn boolean(b: bool) -> Term {
    Term::Bool(Bool { value: b, location: location() })
}

fn string(s: &str) -> Term {
    Term::Str(Str { value: s.to_string(), location: location() })
}

fn var(s: &str) -> Var {
    Var { text: s.to_string(), location: location() }
}

fn var_(s: &str) -> Term {
    Term::Var(var(s))
}

fn let_(name: &str, value: Term, next: Term) -> Term {
    Term::Let(Let {
        name: var(name),
        value: Box::new(value),
        next: Box::new(next),
        location: location(),
    })
}

fn print_(value: Term) -> Term {
    Term::Print(Print { value: Box::new(value), location: location() })
}

fn tuple(first: Term, second: Term) -> Term {
    Term::Tuple(Tuple {
        first: Box::new(first),
        second: Box::new(second),
        location: location(),
    })
}

fn binary(lhs: Term, op: BinaryOp, rhs: Term) -> Term {
    Term::Binary(Binary {
        lhs: Box::new(lhs),
        rhs: Box::new(rhs),
        op,
        location: location(),
    })
}

fn first(value: Term) -> Term {
    Term::First(First { value: Box::new(value), location: location() })
}

fn second(value: Term) -> Term {
    Term::Second(Second { value: Box::new(value), location: location() })
}

fn function(params: &[&str], body: Term) -> Term {
    Term::Function(Function {
        parameters: params.iter().map(|p| var(p)).collect(),
        value: Box::new(body),
        location: location(),
    })
}

fn call(callee: Term, args: Vec<Term>) -> Term {
    Term::Call(Call { callee: Box::new(callee), arguments: args, location: location() })
}

fn run(term: Term) -> (Result<Value<'static>, Stop>, State<'static>) {
    let term: &'static Term = Box::leak(Box::new(term));
    let context = Dict::new();
    let mut st = State::new();
    let r = eval(term, &context, &mut st, FUEL);
    (r, st)
}

fn printed(st: &State) -> String {
    let mut s = String::new();
    for line in &st.output {
        s.push_str(line);
        s.push('\n');
    }
    s
}

fn error_of(r: Result<Value<'_>, Stop>) -> rinha::error::RuntimeError {
    match r {
        Err(Stop::Error(e)) => e,
        _ => panic!("expected a runtime error"),
    }
}

#[test]
fn tuple_projection_round_trip() {
    let t = first(tuple(int_t(7), string("x")));
    let (r, _) = run(t);
    assert_eq!(r.unwrap().render(), "7");

    let t = second(tuple(int_t(7), string("x")));
    let (r, _) = run(t);
    assert_eq!(r.unwrap().render(), "x");

    let t = first(tuple(tuple(boolean(true), int_t(0)), int_t(1)));
    let (r, _) = run(t);
    assert_eq!(r.unwrap().render(), "(true, 0)");
}

#[test]
fn projection_of_non_tuple_fails() {
    let (r, _) = run(first(int_t(3)));
    let e = error_of(r);
    assert_eq!(e.kind, ErrorKind::InvalidProjection);
    let t2 = second(boolean(true));
    let (r, _) = run(t2);
    assert_eq!(error_of(r).kind, ErrorKind::InvalidProjection);
}

#[test]
fn divide_and_remainder_by_zero_fail() {
    let (r, _) = run(binary(int_t(1), BinaryOp::Div, int_t(0)));
    let e = error_of(r);
    assert_eq!(e.kind, ErrorKind::InvalidOperand);
    assert_eq!(e.message, "division by zero");

    let (r, _) = run(binary(int_t(1), BinaryOp::Rem, int_t(0)));
    assert_eq!(error_of(r).kind, ErrorKind::InvalidOperand);

    let (r, _) = run(binary(int_t(7), BinaryOp::Div, int_t(2)));
    assert_eq!(r.unwrap().render(), "3");
    let (r, _) = run(binary(int_t(-7), BinaryOp::Rem, int_t(2)));
    assert_eq!(r.unwrap().render(), "-1");
}

#[test]
fn unbound_variable_reports_its_location() {
    let t = Term::Var(Var {
        text: "missing".to_string(),
        location: Location { start: 3, end: 10, filename: "m".to_string() },
    });
    let (r, _) = run(t);
    let e = error_of(r);
    assert_eq!(e.kind, ErrorKind::UnboundVariable);
    assert_eq!(e.message, "unbound variable \"missing\"");
    assert_eq!(e.location.start, 3);
    assert_eq!(e.location.end, 10);
    assert_eq!(e.location.filename, "m");
}

#[test]
fn non_boolean_condition_fails() {
    let t = Term::If(If {
        condition: Box::new(int_t(1)),
        then_branch: Box::new(int_t(1)),
        otherwise: Box::new(int_t(2)),
        location: location(),
    });
    let (r, _) = run(t);
    let e = error_of(r);
    assert_eq!(e.kind, ErrorKind::InvalidCondition);
    assert_eq!(e.message, "invalid if condition");
}

#[test]
fn untaken_branch_is_not_evaluated() {
    let t = Term::If(If {
        condition: Box::new(boolean(true)),
        then_branch: Box::new(print_(int_t(1))),
        otherwise: Box::new(print_(int_t(2))),
        location: location(),
    });
    let (r, st) = run(t);
    assert_eq!(r.unwrap().render(), "1");
    assert_eq!(printed(&st), "1\n");
}

#[test]
fn calling_a_non_closure_fails() {
    let t = call(int_t(5), vec![]);
    let (r, _) = run(t);
    let e = error_of(r);
    assert_eq!(e.kind, ErrorKind::InvalidCall);
    assert_eq!(e.full_text, "5 cannot be called as a function");
}

#[test]
fn let_bound_function_calls_itself() {
    // let f = fn (n) => if n == 0 then 0 else f(n - 1) in f(3)
    let body = Term::If(If {
        condition: Box::new(binary(var_("n"), BinaryOp::Eq, int_t(0))),
        then_branch: Box::new(int_t(0)),
        otherwise: Box::new(call(var_("f"), vec![binary(var_("n"), BinaryOp::Sub, int_t(1))])),
        location: location(),
    });
    let t = let_("f", function(&["n"], body), call(var_("f"), vec![int_t(3)]));
    let (r, _) = run(t);
    assert_eq!(r.unwrap().render(), "0");
}

#[test]
fn memoized_pure_call_runs_once() {
    // The body is a Let, which the shallow purity rule classifies as pure
    // even though it prints; the second call with the same argument is a
    // cache hit and prints nothing.
    let body = let_("_", print_(var_("n")), var_("n"));
    let t = let_(
        "f",
        function(&["n"], body),
        tuple(
            call(var_("f"), vec![int_t(5)]),
            call(var_("f"), vec![int_t(5)]),
        ),
    );
    let (r, st) = run(t);
    assert_eq!(r.unwrap().render(), "(5, 5)");
    assert_eq!(printed(&st), "5\n");
}

#[test]
fn closure_argument_bypasses_the_cache() {
    // Same pure-classified body, but the argument is a closure: no cache key
    // is formed, so both calls run and both print.
    let body = let_("_", print_(int_t(1)), int_t(2));
    let t = let_(
        "f",
        function(&["g"], body),
        let_(
            "id",
            function(&["x"], var_("x")),
            tuple(
                call(var_("f"), vec![var_("id")]),
                call(var_("f"), vec![var_("id")]),
            ),
        ),
    );
    let (r, st) = run(t);
    assert_eq!(r.unwrap().render(), "(2, 2)");
    assert_eq!(printed(&st), "1\n1\n");
}

#[test]
fn impure_body_always_runs() {
    // A body that is itself a Print is impure and never memoized.
    let t = let_(
        "f",
        function(&["n"], print_(var_("n"))),
        tuple(
            call(var_("f"), vec![int_t(4)]),
            call(var_("f"), vec![int_t(4)]),
        ),
    );
    let (r, st) = run(t);
    assert_eq!(r.unwrap().render(), "(4, 4)");
    assert_eq!(printed(&st), "4\n4\n");
}

#[test]
fn surplus_arguments_are_ignored_unevaluated() {
    // Only as many arguments as there are parameters are evaluated: the
    // surplus print never runs.
    let t = let_(
        "f",
        function(&[], int_t(7)),
        call(var_("f"), vec![print_(int_t(9))]),
    );
    let (r, st) = run(t);
    assert_eq!(r.unwrap().render(), "7");
    assert_eq!(printed(&st), "");
}

#[test]
fn surplus_parameters_are_unbound() {
    // let f = fn (a, b) => b in f(1): b never gets a binding.
    let t = let_(
        "f",
        function(&["a", "b"], var_("b")),
        call(var_("f"), vec![int_t(1)]),
    );
    let (r, _) = run(t);
    assert_eq!(error_of(r).kind, ErrorKind::UnboundVariable);
}

#[test]
fn string_concatenation_stringifies_the_other_operand() {
    let t1 = binary(string("a"), BinaryOp::Add, int_t(1));
    let (r, _) = run(t1);
    assert_eq!(r.unwrap().render(), "a1");
    let t2 = binary(int_t(2), BinaryOp::Add, string("b"));
    let (r, _) = run(t2);
    assert_eq!(r.unwrap().render(), "2b");
    let t3 = binary(string("x"), BinaryOp::Add, boolean(true));
    let (r, _) = run(t3);
    assert_eq!(r.unwrap().render(), "xtrue");
    let t4 = binary(boolean(true), BinaryOp::Add, int_t(1));
    let (r, _) = run(t4);
    assert_eq!(error_of(r).kind, ErrorKind::InvalidOperand);
}

#[test]
fn arithmetic_wraps_on_overflow() {
    let (r, _) = run(binary(int_t(i64::MAX), BinaryOp::Add, int_t(1)));
    assert_eq!(r.unwrap().render(), "-9223372036854775808");
    let (r, _) = run(binary(int_t(i64::MIN), BinaryOp::Div, int_t(-1)));
    assert_eq!(r.unwrap().render(), "-9223372036854775808");
    let (r, _) = run(binary(int_t(i64::MIN), BinaryOp::Rem, int_t(-1)));
    assert_eq!(r.unwrap().render(), "0");
}

#[test]
fn comparisons_order_values() {
    let cases: Vec<(Term, BinaryOp, Term, bool)> = vec![
        (int_t(1), BinaryOp::Lt, int_t(2), true),
        (int_t(2), BinaryOp::Gte, int_t(2), true),
        (string("ab"), BinaryOp::Lt, string("b"), true),
        (string("b"), BinaryOp::Gt, string("ab"), true),
        (boolean(false), BinaryOp::Lt, boolean(true), true),
        (int_t(1), BinaryOp::Eq, int_t(1), true),
        (int_t(1), BinaryOp::Neq, int_t(1), false),
        (tuple(int_t(1), int_t(2)), BinaryOp::Eq, tuple(int_t(1), int_t(2)), true),
        (tuple(int_t(1), int_t(2)), BinaryOp::Lt, tuple(int_t(1), int_t(3)), true),
    ];
    for (l, op, r, expected) in cases {
        let (res, _) = run(binary(l, op, r));
        assert_eq!(res.unwrap().render(), if expected { "true" } else { "false" });
    }
}

#[test]
fn closures_never_compare_equal() {
    let t = binary(
        function(&["x"], var_("x")),
        BinaryOp::Eq,
        function(&["x"], var_("x")),
    );
    let (r, _) = run(t);
    assert_eq!(r.unwrap().render(), "false");

    // Ordering a closure is an InvalidOperand error, not a panic.
    let t = binary(function(&["x"], var_("x")), BinaryOp::Lt, int_t(1));
    let (r, _) = run(t);
    assert_eq!(error_of(r).kind, ErrorKind::InvalidOperand);
}

#[test]
fn display_forms() {
    let (r, _) = run(print_(tuple(string("hi"), tuple(int_t(-42), boolean(false)))));
    let (_, st) = run(print_(tuple(string("hi"), tuple(int_t(-42), boolean(false)))));
    assert_eq!(r.unwrap().render(), "(hi, (-42, false))");
    assert_eq!(printed(&st), "(hi, (-42, false))\n");

    assert_eq!(Value::Int(i64::MIN).render(), "-9223372036854775808");
    assert_eq!(Value::Int(0).render(), "0");
    assert_eq!(Value::Str("plain".to_string()).render(), "plain");

    let (r, _) = run(function(&["x"], var_("x")));
    assert_eq!(r.unwrap().render(), "[closure]");
}

#[test]
fn closures_are_unhashable() {
    let (r, _) = run(function(&["x"], var_("x")));
    let clos = r.unwrap();
    assert!(hash_value(&clos).is_none());
    assert!(hash_value(&Value::Int(3)).is_some());
    let pair = Value::Tuple(rinha::value::Tuple {
        first: Box::new(Value::Int(1)),
        second: Box::new(clos),
    });
    assert!(hash_value(&pair).is_none());

    let body = int_t(0);
    let vals = vec![Value::Int(1), pair];
    assert!(cache_key(&body, &vals).is_none());
    let vals = vec![Value::Int(1), Value::Bool(true)];
    assert!(cache_key(&body, &vals).is_some());
}

#[test]
fn shallow_purity_classification() {
    assert!(int_t(1).is_pure());
    assert!(!print_(int_t(1)).is_pure());
    assert!(!function(&["x"], print_(var_("x"))).is_pure());
    // A Let is classified pure even when a print is nested inside it.
    assert!(let_("_", print_(int_t(1)), int_t(2)).is_pure());
    assert!(function(&["x"], let_("_", print_(var_("x")), var_("x"))).is_pure());
}

#[test]
fn out_of_fuel_is_reported_not_overflowed() {
    // let f = fn () => f() in f() diverges; the fuel bound turns that into
    // an OutOfFuel answer instead of exhausting the host stack.
    let t = let_(
        "f",
        function(&[], call(var_("f"), vec![])),
        call(var_("f"), vec![]),
    );
    let context = Dict::new();
    let mut st = State::new();
    match eval(&t, &context, &mut st, 1000) {
        Err(Stop::OutOfFuel) => {},
        _ => panic!("expected the fuel to run out"),
    }
}

#[test]
fn location_new_builds_the_location() {
    let l = Location::new(2, 9, "main.rinha");
    assert_eq!(l.start, 2);
    assert_eq!(l.end, 9);
    assert_eq!(l.filename, "main.rinha");
}

#[test]
fn shared_capture_sees_the_self_patch() {
    // let f = fn (n) => ... in let g = f in g(0): binding g patches "g" into
    // the same captured frame that f shares, so both names resolve inside.
    let body = Term::If(If {
        condition: Box::new(binary(var_("n"), BinaryOp::Eq, int_t(0))),
        then_branch: Box::new(int_t(10)),
        otherwise: Box::new(call(var_("g"), vec![binary(var_("n"), BinaryOp::Sub, int_t(1))])),
        location: location(),
    });
    let t = let_(
        "f",
        function(&["n"], body),
        let_("g", var_("f"), call(var_("g"), vec![int_t(2)])),
    );
    let (r, _) = run(t);
    assert_eq!(r.unwrap().render(), "10");
}

use rinha::ast::{BinaryOp, Binary, Int, Let, Location, Print, Term, Tuple, Var};
use rinha::dict::Dict;
use rinha::interpreter::{eval, State};
use rinha::value::Value;

const FUEL: u64 = 100_000;

fn location() -> Location {
    Location { start: 0, end: 0, filename: "tests".to_string() }
}

fn int_t(int: i64) -> Term {
    Term::Int(Int { value: int, location: location() })
}

fn v_int(int: i64) -> Value<'static> {
    Value::Int(int)
}

fn v_tuple<'a>(first: Value<'a>, second: Value<'a>) -> Value<'a> {
    Value::Tuple(rinha::value::Tuple { first: Box::new(first), second: Box::new(second) })
}

fn var(str: &str) -> Var {
    Var { text: str.to_string(), location: location() }
}

fn let_(name: &str, value: Term, next: Term) -> Term {
    Term::Let(Let {
        name: var(name),
        value: Box::new(value),
        next: Box::new(next),
        location: location(),
    })
}

fn print_(value: Term) -> Term {
    Term::Print(Print { value: Box::new(value), location: location() })
}

fn tuple(first: Term, second: Term) -> Term {
    Term::Tuple(Tuple {
        first: Box::new(first),
        second: Box::new(second),
        location: location(),
    })
}

fn add(lhs: Term, rhs: Term) -> Term {
    Term::Binary(Binary {
        lhs: Box::new(lhs),
        rhs: Box::new(rhs),
        op: BinaryOp::Add,
        location: location(),
    })
}

fn var_(text: &str) -> Term {
    Term::Var(Var { text: text.to_string(), location: location() })
}

fn eq(l: Value, r: Value) -> bool {
    match l.binary_op(BinaryOp::Eq, &r, &location()).unwrap() {
        Value::Bool(bool) => bool,
        _ => panic!(),
    }
}

fn printed(st: &State) -> String {
    let mut s = String::new();
    for line in &st.output {
        s.push_str(line);
        s.push('\n');
    }
    s
}

#[test]
fn print_inner_and_outer_scope() {
    let let_ = let_("_", print_(int_t(1)), print_(int_t(2)));
    let context = Dict::new();
    let mut st = State::new();
    let result = eval(&let_, &context, &mut st, FUEL).unwrap();

    assert!(eq(result, v_int(2)));
    assert_eq!(printed(&st), "1\n2\n");
}

#[test]
fn print_inside_var_scope_and_var() {
    let let_ = let_(
        "tuple",
        tuple(print_(int_t(1)), print_(int_t(2))),
        print_(var_("tuple")),
    );
    let context = Dict::new();
    let mut st = State::new();
    let result = eval(&let_, &context, &mut st, FUEL).unwrap();

    assert_eq!(result.render(), v_tuple(v_int(1), v_int(2)).render());
    assert_eq!(printed(&st), "1\n2\n(1, 2)\n");
}

#[test]
fn print_sum_operation_and_operated() {
    let print = print_(add(print_(int_t(1)), print_(int_t(2))));
    let context = Dict::new();
    let mut st = State::new();
    let result = eval(&print, &context, &mut st, FUEL).unwrap();

    assert!(eq(result, v_int(3)));
    assert_eq!(printed(&st), "1\n2\n3\n");
}

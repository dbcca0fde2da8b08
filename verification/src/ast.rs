//! The syntax model: an immutable tree of expression nodes, each tagged with
//! the source location it came from.
//!
//! Every node kind has a ghost mirror (`TermV` and the per-node `*V` structs)
//! that the evaluation semantics is stated over; the `View` impls connect the
//! executable tree to its mirror.

use vstd::prelude::*;

verus! {

/// A region of source text: byte offsets into the named file.
#[derive(Debug)]
pub struct Location {
    pub start: usize,
    pub end: usize,
    pub filename: String,
}

/// Ghost mirror of [`Location`].
pub struct LocV {
    pub start: int,
    pub end: int,
    pub filename: Seq<char>,
}

impl View for Location {
    type V = LocV;

    open spec fn view(&self) -> LocV {
        LocV { start: self.start as int, end: self.end as int, filename: self.filename@ }
    }
}

impl Location {
    /// Creates a new instance of [`Location`].
    pub fn new(start: usize, end: usize, filename: &str) -> (r: Self)
        ensures
            r@ == (LocV { start: start as int, end: end as int, filename: filename@ }),
    {
        Self { start, end, filename: filename.to_owned() }
    }
}

/// A variable occurrence: its name and where it stands in the source.
pub struct Var {
    pub text: String,
    pub location: Location,
}

/// Ghost mirror of [`Var`].
pub struct VarV {
    pub text: Seq<char>,
    pub location: LocV,
}

impl View for Var {
    type V = VarV;

    open spec fn view(&self) -> VarV {
        VarV { text: self.text@, location: self.location@ }
    }
}

/// A conditional: exactly one branch is evaluated.
pub struct If {
    pub condition: Box<Term>,
    pub then_branch: Box<Term>,
    pub otherwise: Box<Term>,
    pub location: Location,
}

/// A binding: `value` is evaluated, bound to `name`, and `next` is evaluated
/// with the binding in scope.
pub struct Let {
    pub name: Var,
    pub value: Box<Term>,
    pub next: Box<Term>,
    pub location: Location,
}

/// A string literal.
pub struct Str {
    pub value: String,
    pub location: Location,
}

/// A boolean literal.
pub struct Bool {
    pub value: bool,
    pub location: Location,
}

/// An integer literal.
pub struct Int {
    pub value: i64,
    pub location: Location,
}

/// The binary operators.
#[derive(Clone, Copy, PartialEq, Eq, Structural)]
pub enum BinaryOp {
    Add,
    Sub,
    Mul,
    Div,
    Rem,
    Eq,
    Neq,
    Lt,
    Gt,
    Lte,
    Gte,
    And,
    Or,
}

/// An application of a binary operator; `lhs` is evaluated before `rhs`.
pub struct Binary {
    pub lhs: Box<Term>,
    pub op: BinaryOp,
    pub rhs: Box<Term>,
    pub location: Location,
}

/// A function call: the callee, then each argument, are evaluated in order.
pub struct Call {
    pub callee: Box<Term>,
    pub arguments: Vec<Term>,
    pub location: Location,
}

/// A function literal: evaluating it captures the current environment.
pub struct Function {
    pub parameters: Vec<Var>,
    pub value: Box<Term>,
    pub location: Location,
}

/// Prints the display form of its operand and returns the operand unchanged.
pub struct Print {
    pub value: Box<Term>,
    pub location: Location,
}

/// Projects the first component of a tuple.
pub struct First {
    pub value: Box<Term>,
    pub location: Location,
}

/// Projects the second component of a tuple.
pub struct Second {
    pub value: Box<Term>,
    pub location: Location,
}

/// A pair: `first` is evaluated before `second`.
pub struct Tuple {
    pub first: Box<Term>,
    pub second: Box<Term>,
    pub location: Location,
}

/// One expression node.
pub enum Term {
    Int(Int),
    Str(Str),
    Call(Call),
    Binary(Binary),
    Function(Function),
    Let(Let),
    If(If),
    Print(Print),
    First(First),
    Second(Second),
    Bool(Bool),
    Tuple(Tuple),
    Var(Var),
}

/// One program unit: a module name, its root expression, and a base location.
pub struct File {
    pub name: String,
    pub expression: Term,
    pub location: Location,
}

// ----- Ghost mirrors of the composite nodes -----

pub struct IfV {
    pub condition: Box<TermV>,
    pub then_branch: Box<TermV>,
    pub otherwise: Box<TermV>,
    pub location: LocV,
}

pub struct LetV {
    pub name: VarV,
    pub value: Box<TermV>,
    pub next: Box<TermV>,
    pub location: LocV,
}

pub struct StrV {
    pub value: Seq<char>,
    pub location: LocV,
}

pub struct BoolV {
    pub value: bool,
    pub location: LocV,
}

pub struct IntV {
    pub value: i64,
    pub location: LocV,
}

pub struct BinaryV {
    pub lhs: Box<TermV>,
    pub op: BinaryOp,
    pub rhs: Box<TermV>,
    pub location: LocV,
}

pub struct CallV {
    pub callee: Box<TermV>,
    pub arguments: Seq<TermV>,
    pub location: LocV,
}

pub struct FunctionV {
    pub parameters: Seq<VarV>,
    pub value: Box<TermV>,
    pub location: LocV,
}

pub struct PrintV {
    pub value: Box<TermV>,
    pub location: LocV,
}

pub struct FirstV {
    pub value: Box<TermV>,
    pub location: LocV,
}

pub struct SecondV {
    pub value: Box<TermV>,
    pub location: LocV,
}

pub struct TupleV {
    pub first: Box<TermV>,
    pub second: Box<TermV>,
    pub location: LocV,
}

/// Ghost mirror of [`Term`].
pub enum TermV {
    Int(IntV),
    Str(StrV),
    Call(CallV),
    Binary(BinaryV),
    Function(FunctionV),
    Let(LetV),
    If(IfV),
    Print(PrintV),
    First(FirstV),
    Second(SecondV),
    Bool(BoolV),
    Tuple(TupleV),
    Var(VarV),
}

// ----- View functions -----

pub open spec fn terms_view(ts: Seq<Term>) -> Seq<TermV>
    decreases ts,
{
    if ts.len() == 0 {
        Seq::empty()
    } else {
        terms_view(ts.drop_last()).push(term_view(ts.last()))
    }
}

pub open spec fn vars_view(vs: Seq<Var>) -> Seq<VarV>
    decreases vs,
{
    if vs.len() == 0 {
        Seq::empty()
    } else {
        vars_view(vs.drop_last()).push(vs.last()@)
    }
}

pub proof fn lemma_terms_view(s: Seq<Term>)
    ensures
        terms_view(s).len() == s.len(),
        forall|i: int| 0 <= i < s.len() ==> terms_view(s)[i] == term_view(s[i]),
    decreases s.len(),
{
    if s.len() > 0 {
        lemma_terms_view(s.drop_last());
        assert forall|i: int| 0 <= i < s.len() implies terms_view(s)[i] == term_view(s[i]) by {
            if i < s.len() - 1 {
                assert(s.drop_last()[i] == s[i]);
            }
        }
    }
}

pub proof fn lemma_vars_view(s: Seq<Var>)
    ensures
        vars_view(s).len() == s.len(),
        forall|i: int| 0 <= i < s.len() ==> vars_view(s)[i] == s[i]@,
    decreases s.len(),
{
    if s.len() > 0 {
        lemma_vars_view(s.drop_last());
        assert forall|i: int| 0 <= i < s.len() implies vars_view(s)[i] == s[i]@ by {
            if i < s.len() - 1 {
                assert(s.drop_last()[i] == s[i]);
            }
        }
    }
}

pub open spec fn term_view(t: Term) -> TermV
    decreases t,
{
    match t {
        Term::Int(n) => TermV::Int(IntV { value: n.value, location: n.location@ }),
        Term::Str(s) => TermV::Str(StrV { value: s.value@, location: s.location@ }),
        Term::Bool(b) => TermV::Bool(BoolV { value: b.value, location: b.location@ }),
        Term::Var(v) => TermV::Var(v@),
        Term::Call(c) => TermV::Call(
            CallV {
                callee: Box::new(term_view(*c.callee)),
                arguments: terms_view(c.arguments@),
                location: c.location@,
            },
        ),
        Term::Binary(b) => TermV::Binary(
            BinaryV {
                lhs: Box::new(term_view(*b.lhs)),
                op: b.op,
                rhs: Box::new(term_view(*b.rhs)),
                location: b.location@,
            },
        ),
        Term::Function(f) => TermV::Function(
            FunctionV {
                parameters: vars_view(f.parameters@),
                value: Box::new(term_view(*f.value)),
                location: f.location@,
            },
        ),
        Term::Let(l) => TermV::Let(
            LetV {
                name: l.name@,
                value: Box::new(term_view(*l.value)),
                next: Box::new(term_view(*l.next)),
                location: l.location@,
            },
        ),
        Term::If(i) => TermV::If(
            IfV {
                condition: Box::new(term_view(*i.condition)),
                then_branch: Box::new(term_view(*i.then_branch)),
                otherwise: Box::new(term_view(*i.otherwise)),
                location: i.location@,
            },
        ),
        Term::Print(p) => TermV::Print(
            PrintV { value: Box::new(term_view(*p.value)), location: p.location@ },
        ),
        Term::First(f) => TermV::First(
            FirstV { value: Box::new(term_view(*f.value)), location: f.location@ },
        ),
        Term::Second(s) => TermV::Second(
            SecondV { value: Box::new(term_view(*s.value)), location: s.location@ },
        ),
        Term::Tuple(t) => TermV::Tuple(
            TupleV {
                first: Box::new(term_view(*t.first)),
                second: Box::new(term_view(*t.second)),
                location: t.location@,
            },
        ),
    }
}

impl View for Term {
    type V = TermV;

    open spec fn view(&self) -> TermV {
        term_view(*self)
    }
}

impl View for Call {
    type V = CallV;

    open spec fn view(&self) -> CallV {
        CallV {
            callee: Box::new(term_view(*self.callee)),
            arguments: terms_view(self.arguments@),
            location: self.location@,
        }
    }
}

impl View for Binary {
    type V = BinaryV;

    open spec fn view(&self) -> BinaryV {
        BinaryV {
            lhs: Box::new(term_view(*self.lhs)),
            op: self.op,
            rhs: Box::new(term_view(*self.rhs)),
            location: self.location@,
        }
    }
}

impl View for Function {
    type V = FunctionV;

    open spec fn view(&self) -> FunctionV {
        FunctionV {
            parameters: vars_view(self.parameters@),
            value: Box::new(term_view(*self.value)),
            location: self.location@,
        }
    }
}

impl View for Let {
    type V = LetV;

    open spec fn view(&self) -> LetV {
        LetV {
            name: self.name@,
            value: Box::new(term_view(*self.value)),
            next: Box::new(term_view(*self.next)),
            location: self.location@,
        }
    }
}

impl View for If {
    type V = IfV;

    open spec fn view(&self) -> IfV {
        IfV {
            condition: Box::new(term_view(*self.condition)),
            then_branch: Box::new(term_view(*self.then_branch)),
            otherwise: Box::new(term_view(*self.otherwise)),
            location: self.location@,
        }
    }
}

impl View for Print {
    type V = PrintV;

    open spec fn view(&self) -> PrintV {
        PrintV { value: Box::new(term_view(*self.value)), location: self.location@ }
    }
}

impl View for First {
    type V = FirstV;

    open spec fn view(&self) -> FirstV {
        FirstV { value: Box::new(term_view(*self.value)), location: self.location@ }
    }
}

impl View for Second {
    type V = SecondV;

    open spec fn view(&self) -> SecondV {
        SecondV { value: Box::new(term_view(*self.value)), location: self.location@ }
    }
}

impl View for Tuple {
    type V = TupleV;

    open spec fn view(&self) -> TupleV {
        TupleV {
            first: Box::new(term_view(*self.first)),
            second: Box::new(term_view(*self.second)),
            location: self.location@,
        }
    }
}

impl View for File {
    type V = TermV;

    open spec fn view(&self) -> TermV {
        term_view(self.expression)
    }
}

/// An element of the syntax model: anything that reports a source location.
pub trait Element {
    fn location(&self) -> &Location;
}

impl Element for Var {
    fn location(&self) -> &Location {
        &self.location
    }
}

impl Element for Str {
    fn location(&self) -> &Location {
        &self.location
    }
}

impl Element for Bool {
    fn location(&self) -> &Location {
        &self.location
    }
}

impl Element for Int {
    fn location(&self) -> &Location {
        &self.location
    }
}

impl Element for Binary {
    fn location(&self) -> &Location {
        &self.location
    }
}

impl Element for Call {
    fn location(&self) -> &Location {
        &self.location
    }
}

impl Element for Function {
    fn location(&self) -> &Location {
        &self.location
    }
}

impl Element for Print {
    fn location(&self) -> &Location {
        &self.location
    }
}

impl Element for First {
    fn location(&self) -> &Location {
        &self.location
    }
}

impl Element for Second {
    fn location(&self) -> &Location {
        &self.location
    }
}

impl Element for Tuple {
    fn location(&self) -> &Location {
        &self.location
    }
}

impl Element for If {
    fn location(&self) -> &Location {
        &self.location
    }
}

impl Element for Let {
    fn location(&self) -> &Location {
        &self.location
    }
}

impl Element for Term {
    fn location(&self) -> &Location {
        self.location()
    }
}

/// The source location a ghost node reports: its own `location` field
/// (a bare variable reference reports the variable's own location).
pub open spec fn term_loc(t: TermV) -> LocV {
    match t {
        TermV::Int(n) => n.location,
        TermV::Str(s) => s.location,
        TermV::Bool(b) => b.location,
        TermV::Var(v) => v.location,
        TermV::Call(c) => c.location,
        TermV::Binary(b) => b.location,
        TermV::Function(f) => f.location,
        TermV::Let(l) => l.location,
        TermV::If(i) => i.location,
        TermV::Print(p) => p.location,
        TermV::First(f) => f.location,
        TermV::Second(s) => s.location,
        TermV::Tuple(t) => t.location,
    }
}

/// The shallow purity rule deciding memoization eligibility: a `Print` node is
/// impure, a `Function` node is as pure as its body under this same rule, and
/// every other node kind counts as pure no matter what it contains.
pub open spec fn spec_is_pure(t: TermV) -> bool
    decreases t,
{
    match t {
        TermV::Function(f) => spec_is_pure(*f.value),
        TermV::Print(_) => false,
        _ => true,
    }
}

impl Term {
    /// Shallow purity classification; see [`spec_is_pure`].
    pub fn is_pure(&self) -> (r: bool)
        ensures
            r == spec_is_pure(self@),
        decreases *self,
    {
        match self {
            Term::Function(function) => function.value.is_pure(),
            Term::Print(_) => false,
            _ => true,
        }
    }

    /// The location of this node in the source.
    pub fn location(&self) -> (r: &Location)
        ensures
            r@ == term_loc(self@),
    {
        match self {
            Term::Int(n) => &n.location,
            Term::Str(s) => &s.location,
            Term::Bool(b) => &b.location,
            Term::Var(v) => &v.location,
            Term::Call(c) => &c.location,
            Term::Binary(b) => &b.location,
            Term::Function(f) => &f.location,
            Term::Let(l) => &l.location,
            Term::If(i) => &i.location,
            Term::Print(p) => &p.location,
            Term::First(f) => &f.location,
            Term::Second(s) => &s.location,
            Term::Tuple(t) => &t.location,
        }
    }
}

} // verus!

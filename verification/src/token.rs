//! The syntax tree of a program, and the mathematical model of each node.
//!
//! A tree owns its children. The model of a node holds sequences of
//! characters where the node holds strings and sequences of models where it
//! holds vectors, so that contracts can speak of trees that no program has
//! built yet.
//!
//! Copying, comparing and dropping a tree go as deep as the tree is deep.
//!
//! A tree is well formed where every dotted path in it has at least one
//! segment and every indexed path at least one key. That the parameters of
//! a function differ from one another is left to whoever builds the tree.

use vstd::prelude::*;

verus! {

/// A literal of the language.
#[derive(Debug, PartialEq, Eq, PartialOrd, Ord)]
pub enum Literal {
    /// The text between the quotes of a string literal, as written.
    String(String),
    /// The source text of a number, kept as written.
    Number(String),
    /// The identifier of a primitive that the host provides.
    ForeignFunction(String),
}

/// An identifier.
#[derive(Debug, PartialEq, Eq, PartialOrd, Ord)]
pub struct Identifier(pub String);

/// A call: the callee and its arguments, in source order.
#[derive(Debug, PartialEq, Eq, PartialOrd, Ord)]
pub struct FnCall(pub Box<Value>, pub Vec<Value>);

/// An anonymous function: its parameters and its body.
#[derive(Debug, PartialEq, Eq, PartialOrd, Ord)]
pub struct Function(pub Vec<Identifier>, pub Suite);

/// A named function.
#[derive(Debug, PartialEq, Eq, PartialOrd, Ord)]
pub struct FunctionDef(pub Name, pub Function);

/// An expression that yields a value.
#[derive(Debug, PartialEq, Eq, PartialOrd, Ord)]
pub enum Value {
    /// What a name is bound to, or what a path leads to.
    Name(Name),
    /// A literal.
    Literal(Literal),
    /// The result of a call.
    FnCall(FnCall),
    /// An anonymous function.
    Function(Function),
}

/// A name: an identifier, or a value followed by keys or attributes.
#[derive(Debug, PartialEq, Eq, PartialOrd, Ord)]
pub enum Name {
    /// A simple identifier.
    Name(Identifier),
    /// An indexed path: a head and the values that compute its keys.
    IndexName(Box<Value>, Vec<Value>),
    /// A dotted path: a head and the names of its attributes.
    DotName(Box<Value>, Vec<Identifier>),
}

/// A statement.
#[derive(Debug, PartialEq, Eq, PartialOrd, Ord)]
pub enum Expr {
    /// The assignment of a value to a name.
    Assignment(Name, Value),
    /// A loop over the elements of a list, with a counter.
    ForLoop { counter: Identifier, element: Identifier, list: Value, body: Suite },
    /// A loop that runs while its condition holds.
    WhileLoop(Value, Suite),
    /// A condition, the block to run where it holds and the block to run
    /// where it does not.
    IfThenElse(Value, Suite, Suite),
    /// The definition of a named function.
    FunctionDef(FunctionDef),
    /// The definition of a class.
    StructDef(StructDef),
    /// A value, computed and left on the stack.
    Value(Value),
}

/// A block: statements in source order.
#[derive(Debug, PartialEq, Eq, PartialOrd, Ord)]
pub struct Suite(pub Vec<Expr>);

/// A class: its name and its methods.
#[derive(Debug, PartialEq, Eq, PartialOrd, Ord)]
pub struct StructDef(pub Name, pub Vec<FunctionDef>);

/// The model of a [`Literal`].
pub enum LiteralView {
    String(Seq<char>),
    Number(Seq<char>),
    ForeignFunction(Seq<char>),
}

/// The model of a [`Function`].
pub struct FunctionView {
    pub params: Seq<Seq<char>>,
    pub body: Seq<ExprView>,
}

/// The model of a [`FunctionDef`].
pub struct FunctionDefView {
    pub name: NameView,
    pub function: FunctionView,
}

/// The model of a [`Value`].
pub enum ValueView {
    Name(NameView),
    Literal(LiteralView),
    FnCall(Box<ValueView>, Seq<ValueView>),
    Function(FunctionView),
}

/// The model of a [`Name`].
pub enum NameView {
    Name(Seq<char>),
    IndexName(Box<ValueView>, Seq<ValueView>),
    DotName(Box<ValueView>, Seq<Seq<char>>),
}

/// The model of an [`Expr`].
pub enum ExprView {
    Assignment(NameView, ValueView),
    ForLoop { counter: Seq<char>, element: Seq<char>, list: ValueView, body: Seq<ExprView> },
    WhileLoop(ValueView, Seq<ExprView>),
    IfThenElse(ValueView, Seq<ExprView>, Seq<ExprView>),
    FunctionDef(FunctionDefView),
    StructDef(StructDefView),
    Value(ValueView),
}

/// The model of a [`StructDef`].
pub struct StructDefView {
    pub name: NameView,
    pub methods: Seq<FunctionDefView>,
}

/// The model of a literal.
pub open spec fn literal_view(l: Literal) -> LiteralView {
    match l {
        Literal::String(s) => LiteralView::String(s@),
        Literal::Number(n) => LiteralView::Number(n@),
        Literal::ForeignFunction(f) => LiteralView::ForeignFunction(f@),
    }
}

/// The names of the identifiers `ids`.
pub open spec fn idents_view(ids: Seq<Identifier>) -> Seq<Seq<char>> {
    Seq::new(ids.len(), |i: int| ids[i].0@)
}

/// The model of a value.
pub open spec fn value_view(v: Value) -> ValueView
    decreases v,
{
    match v {
        Value::Name(n) => ValueView::Name(name_view(n)),
        Value::Literal(l) => ValueView::Literal(literal_view(l)),
        Value::FnCall(FnCall(f, args)) => ValueView::FnCall(
            Box::new(value_view(*f)),
            values_view(args@),
        ),
        Value::Function(f) => ValueView::Function(function_view(f)),
    }
}

/// The models of the values `vs`.
pub open spec fn values_view(vs: Seq<Value>) -> Seq<ValueView>
    decreases vs,
{
    Seq::new(vs.len(), |i: int| if 0 <= i < vs.len() { value_view(vs[i]) } else { arbitrary() })
}

/// The model of a name.
pub open spec fn name_view(n: Name) -> NameView
    decreases n,
{
    match n {
        Name::Name(id) => NameView::Name(id.0@),
        Name::IndexName(head, tail) => NameView::IndexName(
            Box::new(value_view(*head)),
            values_view(tail@),
        ),
        Name::DotName(head, tail) => NameView::DotName(
            Box::new(value_view(*head)),
            idents_view(tail@),
        ),
    }
}

/// The model of a function.
pub open spec fn function_view(f: Function) -> FunctionView
    decreases f,
{
    FunctionView { params: idents_view(f.0@), body: exprs_view(f.1.0@) }
}

/// The model of a named function.
pub open spec fn function_def_view(fd: FunctionDef) -> FunctionDefView
    decreases fd,
{
    FunctionDefView { name: name_view(fd.0), function: function_view(fd.1) }
}

/// The models of the named functions `fds`.
pub open spec fn function_defs_view(fds: Seq<FunctionDef>) -> Seq<FunctionDefView>
    decreases fds,
{
    Seq::new(
        fds.len(),
        |i: int|
            if 0 <= i < fds.len() {
                function_def_view(fds[i])
            } else {
                arbitrary()
            },
    )
}

/// The model of a class.
pub open spec fn struct_def_view(sd: StructDef) -> StructDefView
    decreases sd,
{
    StructDefView { name: name_view(sd.0), methods: function_defs_view(sd.1@) }
}

/// The model of a statement.
pub open spec fn expr_view(e: Expr) -> ExprView
    decreases e,
{
    match e {
        Expr::Assignment(n, v) => ExprView::Assignment(name_view(n), value_view(v)),
        Expr::ForLoop { counter, element, list, body } => ExprView::ForLoop {
            counter: counter.0@,
            element: element.0@,
            list: value_view(list),
            body: exprs_view(body.0@),
        },
        Expr::WhileLoop(c, b) => ExprView::WhileLoop(value_view(c), exprs_view(b.0@)),
        Expr::IfThenElse(c, t, e) => ExprView::IfThenElse(
            value_view(c),
            exprs_view(t.0@),
            exprs_view(e.0@),
        ),
        Expr::FunctionDef(fd) => ExprView::FunctionDef(function_def_view(fd)),
        Expr::StructDef(sd) => ExprView::StructDef(struct_def_view(sd)),
        Expr::Value(v) => ExprView::Value(value_view(v)),
    }
}

/// The models of the statements `es`.
pub open spec fn exprs_view(es: Seq<Expr>) -> Seq<ExprView>
    decreases es,
{
    Seq::new(es.len(), |i: int| if 0 <= i < es.len() { expr_view(es[i]) } else { arbitrary() })
}

/// Whether a value is well formed: every path in it has segments or keys.
pub open spec fn value_well_formed(value: ValueView) -> bool
    decreases value, 0nat,
{
    match value {
        ValueView::Name(name) => name_well_formed(name),
        ValueView::Literal(_) => true,
        ValueView::FnCall(callee, arguments) => value_well_formed(*callee) && values_well_formed(
            arguments,
        ),
        ValueView::Function(function) => function_well_formed(function),
    }
}

/// Whether each value of `values` is well formed.
pub open spec fn values_well_formed(values: Seq<ValueView>) -> bool
    decreases values, 0nat,
{
    forall|i: int| 0 <= i < values.len() ==> value_well_formed(#[trigger] values[i])
}

/// Whether a name is well formed: a dotted path has at least one segment,
/// an indexed path at least one key, and what they hold is well formed.
pub open spec fn name_well_formed(name: NameView) -> bool
    decreases name, 0nat,
{
    match name {
        NameView::Name(_) => true,
        NameView::DotName(head, tail) => tail.len() > 0 && value_well_formed(*head),
        NameView::IndexName(head, tail) => tail.len() > 0 && value_well_formed(*head)
            && values_well_formed(tail),
    }
}

/// Whether a function is well formed.
pub open spec fn function_well_formed(function: FunctionView) -> bool
    decreases function, 0nat,
{
    suite_well_formed(function.body)
}

/// Whether a named function is well formed.
pub open spec fn function_def_well_formed(def: FunctionDefView) -> bool
    decreases def, 1nat,
{
    name_well_formed(def.name) && function_well_formed(def.function)
}

/// Whether each named function of `defs` is well formed.
pub open spec fn function_defs_well_formed(defs: Seq<FunctionDefView>) -> bool
    decreases defs, 0nat,
{
    forall|i: int| 0 <= i < defs.len() ==> function_def_well_formed(#[trigger] defs[i])
}

/// Whether a class is well formed.
pub open spec fn struct_def_well_formed(def: StructDefView) -> bool
    decreases def, 1nat,
{
    name_well_formed(def.name) && function_defs_well_formed(def.methods)
}

/// Whether a statement is well formed.
pub open spec fn expr_well_formed(statement: ExprView) -> bool
    decreases statement, 2nat,
{
    match statement {
        ExprView::Assignment(name, value) => name_well_formed(name) && value_well_formed(value),
        ExprView::ForLoop { counter, element, list, body } => value_well_formed(list)
            && suite_well_formed(body),
        ExprView::WhileLoop(condition, body) => value_well_formed(condition)
            && suite_well_formed(body),
        ExprView::IfThenElse(condition, then_body, else_body) => value_well_formed(condition)
            && suite_well_formed(then_body) && suite_well_formed(else_body),
        ExprView::FunctionDef(def) => function_def_well_formed(def),
        ExprView::StructDef(def) => struct_def_well_formed(def),
        ExprView::Value(value) => value_well_formed(value),
    }
}

/// Whether each statement of a block is well formed.
pub open spec fn suite_well_formed(statements: Seq<ExprView>) -> bool
    decreases statements, 0nat,
{
    forall|i: int| 0 <= i < statements.len() ==> expr_well_formed(#[trigger] statements[i])
}

impl View for Literal {
    type V = LiteralView;

    open spec fn view(&self) -> LiteralView {
        literal_view(*self)
    }
}

impl View for Identifier {
    type V = Seq<char>;

    open spec fn view(&self) -> Seq<char> {
        self.0@
    }
}

impl View for FnCall {
    type V = ValueView;

    open spec fn view(&self) -> ValueView {
        value_view(Value::FnCall(*self))
    }
}

impl View for Function {
    type V = FunctionView;

    open spec fn view(&self) -> FunctionView {
        function_view(*self)
    }
}

impl View for FunctionDef {
    type V = FunctionDefView;

    open spec fn view(&self) -> FunctionDefView {
        function_def_view(*self)
    }
}

impl View for Value {
    type V = ValueView;

    open spec fn view(&self) -> ValueView {
        value_view(*self)
    }
}

impl View for Name {
    type V = NameView;

    open spec fn view(&self) -> NameView {
        name_view(*self)
    }
}

impl View for Expr {
    type V = ExprView;

    open spec fn view(&self) -> ExprView {
        expr_view(*self)
    }
}

impl View for Suite {
    type V = Seq<ExprView>;

    open spec fn view(&self) -> Seq<ExprView> {
        exprs_view(self.0@)
    }
}

impl View for StructDef {
    type V = StructDefView;

    open spec fn view(&self) -> StructDefView {
        struct_def_view(*self)
    }
}

impl Clone for Literal {
    fn clone(&self) -> (copy: Self)
        ensures
            copy@ == self@,
    {
        match self {
            Literal::String(s) => Literal::String(s.clone()),
            Literal::Number(n) => Literal::Number(n.clone()),
            Literal::ForeignFunction(f) => Literal::ForeignFunction(f.clone()),
        }
    }
}

impl Clone for Identifier {
    fn clone(&self) -> (copy: Self)
        ensures
            copy@ == self@,
    {
        Identifier(self.0.clone())
    }
}

/// Copies the identifiers of `identifiers`.
fn clone_identifiers(identifiers: &Vec<Identifier>) -> (copy: Vec<Identifier>)
    ensures
        idents_view(copy@) == idents_view(identifiers@),
{
    let mut copy: Vec<Identifier> = Vec::new();
    let mut i: usize = 0;
    while i < identifiers.len()
        invariant
            i <= identifiers.len(),
            copy.len() == i,
            forall|j: int| 0 <= j < i ==> copy@[j]@ == identifiers@[j]@,
        decreases identifiers.len() - i,
    {
        copy.push(identifiers[i].clone());
        i += 1;
    }
    assert(idents_view(copy@) =~= idents_view(identifiers@));
    copy
}

/// Copies the values of `values`.
fn clone_values(values: &Vec<Value>) -> (copy: Vec<Value>)
    ensures
        values_view(copy@) == values_view(values@),
    decreases values, 0nat,
{
    let mut copy: Vec<Value> = Vec::new();
    let mut i: usize = 0;
    while i < values.len()
        invariant
            i <= values.len(),
            copy.len() == i,
            forall|j: int| 0 <= j < i ==> copy@[j]@ == values@[j]@,
        decreases values.len() - i,
    {
        copy.push(values[i].clone());
        i += 1;
    }
    assert(values_view(copy@) =~= values_view(values@));
    copy
}

impl Clone for Value {
    fn clone(&self) -> (copy: Self)
        ensures
            copy@ == self@,
        decreases self, 0nat,
    {
        match self {
            Value::Name(name) => Value::Name(name.clone()),
            Value::Literal(literal) => Value::Literal(literal.clone()),
            Value::FnCall(call) => Value::FnCall(call.clone()),
            Value::Function(function) => Value::Function(function.clone()),
        }
    }
}

impl Clone for FnCall {
    fn clone(&self) -> (copy: Self)
        ensures
            copy@ == self@,
        decreases self, 1nat,
    {
        FnCall(Box::new((*self.0).clone()), clone_values(&self.1))
    }
}

impl Clone for Name {
    fn clone(&self) -> (copy: Self)
        ensures
            copy@ == self@,
        decreases self, 0nat,
    {
        match self {
            Name::Name(identifier) => Name::Name(identifier.clone()),
            Name::IndexName(head, tail) => Name::IndexName(
                Box::new((**head).clone()),
                clone_values(tail),
            ),
            Name::DotName(head, tail) => Name::DotName(
                Box::new((**head).clone()),
                clone_identifiers(tail),
            ),
        }
    }
}

impl Clone for Suite {
    fn clone(&self) -> (copy: Self)
        ensures
            copy@ == self@,
        decreases self, 0nat,
    {
        let mut copy: Vec<Expr> = Vec::new();
        let mut i: usize = 0;
        while i < self.0.len()
            invariant
                i <= self.0.len(),
                copy.len() == i,
                forall|j: int| 0 <= j < i ==> copy@[j]@ == self.0@[j]@,
            decreases self.0.len() - i,
        {
            copy.push(self.0[i].clone());
            i += 1;
        }
        assert(exprs_view(copy@) =~= exprs_view(self.0@));
        Suite(copy)
    }
}

impl Clone for Function {
    fn clone(&self) -> (copy: Self)
        ensures
            copy@ == self@,
        decreases self, 1nat,
    {
        Function(clone_identifiers(&self.0), self.1.clone())
    }
}

impl Clone for FunctionDef {
    fn clone(&self) -> (copy: Self)
        ensures
            copy@ == self@,
        decreases self, 2nat,
    {
        FunctionDef(self.0.clone(), self.1.clone())
    }
}

impl Clone for StructDef {
    fn clone(&self) -> (copy: Self)
        ensures
            copy@ == self@,
        decreases self, 3nat,
    {
        let mut methods: Vec<FunctionDef> = Vec::new();
        let mut i: usize = 0;
        while i < self.1.len()
            invariant
                i <= self.1.len(),
                methods.len() == i,
                forall|j: int| 0 <= j < i ==> methods@[j]@ == self.1@[j]@,
            decreases self.1.len() - i,
        {
            methods.push(self.1[i].clone());
            i += 1;
        }
        assert(function_defs_view(methods@) =~= function_defs_view(self.1@));
        StructDef(self.0.clone(), methods)
    }
}

impl Clone for Expr {
    fn clone(&self) -> (copy: Self)
        ensures
            copy@ == self@,
        decreases self, 4nat,
    {
        match self {
            Expr::Assignment(name, value) => Expr::Assignment(name.clone(), value.clone()),
            Expr::ForLoop { counter, element, list, body } => Expr::ForLoop {
                counter: counter.clone(),
                element: element.clone(),
                list: list.clone(),
                body: body.clone(),
            },
            Expr::WhileLoop(condition, body) => Expr::WhileLoop(condition.clone(), body.clone()),
            Expr::IfThenElse(condition, then_body, else_body) => Expr::IfThenElse(
                condition.clone(),
                then_body.clone(),
                else_body.clone(),
            ),
            Expr::FunctionDef(def) => Expr::FunctionDef(def.clone()),
            Expr::StructDef(def) => Expr::StructDef(def.clone()),
            Expr::Value(value) => Expr::Value(value.clone()),
        }
    }
}

} // verus!

//! The syntax tree: identifiers, literals, operators, expressions and
//! statements, each with its mathematical value (its view).

use vstd::prelude::*;

verus! {

/// A variable or function name.
#[derive(Debug)]
pub struct Ident(pub String);

impl View for Ident {
    type V = Seq<char>;

    open spec fn view(&self) -> Seq<char> {
        self.0@
    }
}

impl Clone for Ident {
    fn clone(&self) -> (r: Self)
        ensures
            r@ == self@,
    {
        Ident(self.0.clone())
    }
}

impl PartialEq for Ident {
    fn eq(&self, other: &Self) -> (r: bool) {
        self.0 == other.0
    }
}

impl vstd::std_specs::cmp::PartialEqSpecImpl for Ident {
    open spec fn obeys_eq_spec() -> bool {
        true
    }

    open spec fn eq_spec(&self, other: &Self) -> bool {
        self@ == other@
    }
}

/// A prefix operator.
#[derive(PartialEq, Eq, Structural, Clone, Copy, Debug)]
pub enum Prefix {
    Plus,
    Minus,
    Not,
}

/// An infix operator.
#[derive(PartialEq, Eq, Structural, Clone, Copy, Debug)]
pub enum Infix {
    Plus,
    Minus,
    Divide,
    Multiply,
    Equal,
    NotEqual,
    GTEQ,
    GT,
    LTEQ,
    LT,
}

impl Prefix {
    /// The operator as it is written.
    pub open spec fn text(self) -> Seq<char> {
        match self {
            Prefix::Plus => "+"@,
            Prefix::Minus => "-"@,
            Prefix::Not => "!"@,
        }
    }

    /// The operator as it is written.
    pub fn to_text(&self) -> (r: &'static str)
        ensures
            r@ == self.text(),
    {
        match self {
            Prefix::Plus => "+",
            Prefix::Minus => "-",
            Prefix::Not => "!",
        }
    }
}

impl Infix {
    /// The operator as it is written.
    pub open spec fn text(self) -> Seq<char> {
        match self {
            Infix::Plus => "+"@,
            Infix::Minus => "-"@,
            Infix::Divide => "/"@,
            Infix::Multiply => "*"@,
            Infix::Equal => "=="@,
            Infix::NotEqual => "!="@,
            Infix::GTEQ => ">="@,
            Infix::GT => ">"@,
            Infix::LTEQ => "<="@,
            Infix::LT => "<"@,
        }
    }

    /// The operator as it is written.
    pub fn to_text(&self) -> (r: &'static str)
        ensures
            r@ == self.text(),
    {
        match self {
            Infix::Plus => "+",
            Infix::Minus => "-",
            Infix::Divide => "/",
            Infix::Multiply => "*",
            Infix::Equal => "==",
            Infix::NotEqual => "!=",
            Infix::GTEQ => ">=",
            Infix::GT => ">",
            Infix::LTEQ => "<=",
            Infix::LT => "<",
        }
    }
}

/// How tightly an operator binds, from loosest to tightest.
#[derive(PartialEq, Eq, Structural, PartialOrd, Clone, Copy, Debug)]
pub enum Precedence {
    Lowest,
    Equals,
    LessGreater,
    Sum,
    Product,
    Prefix,
    Call,
    Index,
}

impl Precedence {
    /// The place of a precedence in the order, from 0 for `Lowest` to 7 for
    /// `Index`.
    pub open spec fn rank(self) -> nat {
        match self {
            Precedence::Lowest => 0,
            Precedence::Equals => 1,
            Precedence::LessGreater => 2,
            Precedence::Sum => 3,
            Precedence::Product => 4,
            Precedence::Prefix => 5,
            Precedence::Call => 6,
            Precedence::Index => 7,
        }
    }

    /// The place of a precedence in the order.
    pub fn to_rank(&self) -> (r: u8)
        ensures
            r == self.rank(),
    {
        match self {
            Precedence::Lowest => 0,
            Precedence::Equals => 1,
            Precedence::LessGreater => 2,
            Precedence::Sum => 3,
            Precedence::Product => 4,
            Precedence::Prefix => 5,
            Precedence::Call => 6,
            Precedence::Index => 7,
        }
    }
}

/// A literal value as written in the source.
#[derive(Debug, PartialEq)]
pub enum Literal {
    Int(i64),
    String(String),
    Bool(bool),
    Array(Vec<Expr>),
    Hash(Vec<(Expr, Expr)>),
}

/// An expression.
#[derive(Debug, PartialEq)]
pub enum Expr {
    Literal(Literal),
    Ident(Ident),
    Prefix(Prefix, Box<Expr>),
    Infix(Infix, Box<Expr>, Box<Expr>),
    Index(Box<Expr>, Box<Expr>),
    While { cond: Box<Expr>, consequence: BlockStmt },
    If { cond: Box<Expr>, consequence: BlockStmt, alternative: Option<BlockStmt> },
    Function { params: Vec<Ident>, body: BlockStmt },
    Call { func: Box<Expr>, args: Vec<Expr> },
}

/// A statement.
#[derive(Debug, PartialEq)]
pub enum Stmt {
    Let(Ident, Expr),
    Const(Ident, Expr),
    Break,
    Blank,
    Continue,
    Return(Expr),
    Expr(Expr),
    ReAssign(Ident, Expr),
}

/// A sequence of statements in braces.
pub type BlockStmt = Vec<Stmt>;

/// A whole program: the statements of the top level.
pub type Program = BlockStmt;

/// The value of a [`Literal`].
pub enum LiteralV {
    Int(i64),
    String(Seq<char>),
    Bool(bool),
    Array(Seq<ExprV>),
    Hash(Seq<(ExprV, ExprV)>),
}

/// The value of an [`Expr`].
pub enum ExprV {
    Literal(LiteralV),
    Ident(Seq<char>),
    Prefix(Prefix, Box<ExprV>),
    Infix(Infix, Box<ExprV>, Box<ExprV>),
    Index(Box<ExprV>, Box<ExprV>),
    While { cond: Box<ExprV>, consequence: Seq<StmtV> },
    If { cond: Box<ExprV>, consequence: Seq<StmtV>, alternative: Option<Seq<StmtV>> },
    Function { params: Seq<Seq<char>>, body: Seq<StmtV> },
    Call { func: Box<ExprV>, args: Seq<ExprV> },
}

/// The value of a [`Stmt`].
pub enum StmtV {
    Let(Seq<char>, ExprV),
    Const(Seq<char>, ExprV),
    Break,
    Blank,
    Continue,
    Return(ExprV),
    Expr(ExprV),
    ReAssign(Seq<char>, ExprV),
}

/// The names of a parameter list.
pub open spec fn idents_view(v: Vec<Ident>) -> Seq<Seq<char>> {
    Seq::new(v.len() as nat, |i: int| v[i]@)
}

/// The values of a list of expressions, in order.
pub open spec fn exprs_view(v: Vec<Expr>) -> Seq<ExprV>
    decreases v,
{
    Seq::new(
        v.len() as nat,
        |i: int|
            if 0 <= i < v.len() {
                v[i]@
            } else {
                arbitrary()
            },
    )
}

/// The values of a list of key and value expressions, in order.
pub open spec fn pairs_view(v: Vec<(Expr, Expr)>) -> Seq<(ExprV, ExprV)>
    decreases v,
{
    Seq::new(
        v.len() as nat,
        |i: int|
            if 0 <= i < v.len() {
                (v[i].0@, v[i].1@)
            } else {
                arbitrary()
            },
    )
}

/// The values of the statements of a block, in order.
pub open spec fn block_view(v: Vec<Stmt>) -> Seq<StmtV>
    decreases v,
{
    Seq::new(
        v.len() as nat,
        |i: int|
            if 0 <= i < v.len() {
                v[i]@
            } else {
                arbitrary()
            },
    )
}

impl Literal {
    pub open spec fn view(&self) -> LiteralV
        decreases self,
    {
        match self {
            Literal::Int(i) => LiteralV::Int(*i),
            Literal::String(s) => LiteralV::String(s@),
            Literal::Bool(b) => LiteralV::Bool(*b),
            Literal::Array(v) => LiteralV::Array(exprs_view(*v)),
            Literal::Hash(v) => LiteralV::Hash(pairs_view(*v)),
        }
    }
}

impl Expr {
    pub open spec fn view(&self) -> ExprV
        decreases self,
    {
        match self {
            Expr::Literal(l) => ExprV::Literal(l@),
            Expr::Ident(i) => ExprV::Ident(i@),
            Expr::Prefix(p, e) => ExprV::Prefix(*p, Box::new(e@)),
            Expr::Infix(o, l, r) => ExprV::Infix(*o, Box::new(l@), Box::new(r@)),
            Expr::Index(l, i) => ExprV::Index(Box::new(l@), Box::new(i@)),
            Expr::While { cond, consequence } => ExprV::While {
                cond: Box::new(cond@),
                consequence: block_view(*consequence),
            },
            Expr::If { cond, consequence, alternative } => ExprV::If {
                cond: Box::new(cond@),
                consequence: block_view(*consequence),
                alternative: match alternative {
                    Some(b) => Some(block_view(*b)),
                    None => None,
                },
            },
            Expr::Function { params, body } => ExprV::Function {
                params: idents_view(*params),
                body: block_view(*body),
            },
            Expr::Call { func, args } => ExprV::Call {
                func: Box::new(func@),
                args: exprs_view(*args),
            },
        }
    }
}

impl Stmt {
    pub open spec fn view(&self) -> StmtV
        decreases self,
    {
        match self {
            Stmt::Let(i, e) => StmtV::Let(i@, e@),
            Stmt::Const(i, e) => StmtV::Const(i@, e@),
            Stmt::Break => StmtV::Break,
            Stmt::Blank => StmtV::Blank,
            Stmt::Continue => StmtV::Continue,
            Stmt::Return(e) => StmtV::Return(e@),
            Stmt::Expr(e) => StmtV::Expr(e@),
            Stmt::ReAssign(i, e) => StmtV::ReAssign(i@, e@),
        }
    }
}

impl Expr {
    /// The literal of a number.
    pub fn number(value: i64) -> (e: Expr)
        ensures
            e@ == ExprV::Literal(LiteralV::Int(value)),
    {
        let l = Literal::Int(value);
        assert(l@ == LiteralV::Int(value));
        Expr::Literal(l)
    }

    /// The literal of a text.
    pub fn text(value: String) -> (e: Expr)
        ensures
            e@ == ExprV::Literal(LiteralV::String(value@)),
    {
        let l = Literal::String(value);
        assert(l@ == LiteralV::String(value@));
        Expr::Literal(l)
    }

    /// The literal of a truth value.
    pub fn boolean(value: bool) -> (e: Expr)
        ensures
            e@ == ExprV::Literal(LiteralV::Bool(value)),
    {
        let l = Literal::Bool(value);
        assert(l@ == LiteralV::Bool(value));
        Expr::Literal(l)
    }

    /// The literal of an array with the given items.
    pub fn array(items: Vec<Expr>) -> (e: Expr)
        ensures
            e@ == ExprV::Literal(LiteralV::Array(exprs_view(items))),
    {
        let l = Literal::Array(items);
        assert(l@ == LiteralV::Array(exprs_view(items)));
        Expr::Literal(l)
    }

    /// The literal of a hash with the given pairs.
    pub fn hash(pairs: Vec<(Expr, Expr)>) -> (e: Expr)
        ensures
            e@ == ExprV::Literal(LiteralV::Hash(pairs_view(pairs))),
    {
        let l = Literal::Hash(pairs);
        assert(l@ == LiteralV::Hash(pairs_view(pairs)));
        Expr::Literal(l)
    }
}

/// A copy of a parameter list.
pub fn copy_idents(v: &Vec<Ident>) -> (r: Vec<Ident>)
    ensures
        idents_view(r) == idents_view(*v),
{
    let mut out: Vec<Ident> = Vec::new();
    let mut i: usize = 0;
    while i < v.len()
        invariant
            i <= v.len(),
            out.len() == i,
            forall|j: int| 0 <= j < i ==> out[j]@ == v[j]@,
        decreases v.len() - i,
    {
        out.push(v[i].clone());
        i = i + 1;
    }
    assert(idents_view(out) =~= idents_view(*v));
    out
}

/// A copy of a list of expressions.
#[verifier::loop_isolation(false)]
pub fn copy_exprs(v: &Vec<Expr>) -> (r: Vec<Expr>)
    ensures
        exprs_view(r) == exprs_view(*v),
    decreases v,
{
    let mut out: Vec<Expr> = Vec::new();
    let mut i: usize = 0;
    while i < v.len()
        invariant
            i <= v.len(),
            out.len() == i,
            forall|j: int| 0 <= j < i ==> out[j]@ == v[j]@,
        decreases v.len() - i,
    {
        out.push(copy_expr(&v[i]));
        i = i + 1;
    }
    assert(exprs_view(out) =~= exprs_view(*v));
    out
}

/// A copy of a list of key and value expressions.
#[verifier::loop_isolation(false)]
pub fn copy_pairs(v: &Vec<(Expr, Expr)>) -> (r: Vec<(Expr, Expr)>)
    ensures
        pairs_view(r) == pairs_view(*v),
    decreases v,
{
    let mut out: Vec<(Expr, Expr)> = Vec::new();
    let mut i: usize = 0;
    while i < v.len()
        invariant
            i <= v.len(),
            out.len() == i,
            forall|j: int| 0 <= j < i ==> out[j].0@ == v[j].0@ && out[j].1@ == v[j].1@,
        decreases v.len() - i,
    {
        let k = copy_expr(&v[i].0);
        let w = copy_expr(&v[i].1);
        out.push((k, w));
        i = i + 1;
    }
    assert(pairs_view(out) =~= pairs_view(*v));
    out
}

/// A copy of a block.
#[verifier::loop_isolation(false)]
pub fn copy_block(v: &Vec<Stmt>) -> (r: Vec<Stmt>)
    ensures
        block_view(r) == block_view(*v),
    decreases v,
{
    let mut out: Vec<Stmt> = Vec::new();
    let mut i: usize = 0;
    while i < v.len()
        invariant
            i <= v.len(),
            out.len() == i,
            forall|j: int| 0 <= j < i ==> out[j]@ == v[j]@,
        decreases v.len() - i,
    {
        out.push(copy_stmt(&v[i]));
        i = i + 1;
    }
    assert(block_view(out) =~= block_view(*v));
    out
}

/// A copy of a literal.
pub fn copy_literal(l: &Literal) -> (r: Literal)
    ensures
        r@ == l@,
    decreases l,
{
    match l {
        Literal::Int(i) => Literal::Int(*i),
        Literal::String(s) => Literal::String(s.clone()),
        Literal::Bool(b) => Literal::Bool(*b),
        Literal::Array(v) => Literal::Array(copy_exprs(v)),
        Literal::Hash(v) => Literal::Hash(copy_pairs(v)),
    }
}

/// A copy of an expression.
pub fn copy_expr(e: &Expr) -> (r: Expr)
    ensures
        r@ == e@,
    decreases e,
{
    match e {
        Expr::Literal(l) => Expr::Literal(copy_literal(l)),
        Expr::Ident(i) => Expr::Ident(i.clone()),
        Expr::Prefix(p, x) => Expr::Prefix(*p, Box::new(copy_expr(x))),
        Expr::Infix(o, l, r) => Expr::Infix(*o, Box::new(copy_expr(l)), Box::new(copy_expr(r))),
        Expr::Index(l, i) => Expr::Index(Box::new(copy_expr(l)), Box::new(copy_expr(i))),
        Expr::While { cond, consequence } => Expr::While {
            cond: Box::new(copy_expr(cond)),
            consequence: copy_block(consequence),
        },
        Expr::If { cond, consequence, alternative } => {
            let alt = match alternative {
                Some(b) => Some(copy_block(b)),
                None => None,
            };
            Expr::If {
                cond: Box::new(copy_expr(cond)),
                consequence: copy_block(consequence),
                alternative: alt,
            }
        },
        Expr::Function { params, body } => Expr::Function {
            params: copy_idents(params),
            body: copy_block(body),
        },
        Expr::Call { func, args } => Expr::Call {
            func: Box::new(copy_expr(func)),
            args: copy_exprs(args),
        },
    }
}

/// A copy of a statement.
pub fn copy_stmt(s: &Stmt) -> (r: Stmt)
    ensures
        r@ == s@,
    decreases s,
{
    match s {
        Stmt::Let(i, e) => Stmt::Let(i.clone(), copy_expr(e)),
        Stmt::Const(i, e) => Stmt::Const(i.clone(), copy_expr(e)),
        Stmt::Break => Stmt::Break,
        Stmt::Blank => Stmt::Blank,
        Stmt::Continue => Stmt::Continue,
        Stmt::Return(e) => Stmt::Return(copy_expr(e)),
        Stmt::Expr(e) => Stmt::Expr(copy_expr(e)),
        Stmt::ReAssign(i, e) => Stmt::ReAssign(i.clone(), copy_expr(e)),
    }
}

impl Clone for Literal {
    fn clone(&self) -> (r: Self)
        ensures
            r@ == self@,
    {
        copy_literal(self)
    }
}

impl Clone for Expr {
    fn clone(&self) -> (r: Self)
        ensures
            r@ == self@,
    {
        copy_expr(self)
    }
}

impl Clone for Stmt {
    fn clone(&self) -> (r: Self)
        ensures
            r@ == self@,
    {
        copy_stmt(self)
    }
}

} // verus!

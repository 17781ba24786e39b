//! The source syntax tree that the desugarings produce, and its model.
use vstd::prelude::*;
use crate::binary::BinaryOp;
use crate::error::Span;

verus! {

broadcast use vstd::std_specs::vec::group_vec_axioms;

/// A comparison operator of a comparison chain (`a < b <= c`).
#[derive(Clone, Copy, PartialEq, Eq, Structural, Debug)]
pub enum CompareOp {
    Eq,
    Ne,
    Lt,
    Le,
    Gt,
    Ge,
}

/// A prefix operator.
#[derive(Clone, Copy, PartialEq, Eq, Structural, Debug)]
pub enum UnaryOp {
    Neg,
    Not,
    Deref,
    AddrOf,
    AddrOfMut,
}

/// An assignment operator.
#[derive(Clone, Copy, PartialEq, Eq, Structural, Debug)]
pub enum AssignOp {
    Assign,
    AddAssign,
    SubAssign,
    MulAssign,
    DivAssign,
    ModAssign,
}

/// A type as written in the source.
#[derive(Debug)]
pub enum AstType {
    Path(String, Vec<AstType>),
    Ref(Box<AstType>, bool),
    RawPtr(Box<AstType>, bool),
    Dyn(String),
    Tuple(Vec<AstType>),
    /// `[T; N]` (with the length expression) or `[T]`.
    Array(Box<AstType>, Option<AstExpr>),
    Fn(Vec<AstType>, Box<AstType>),
    Union(Vec<AstType>),
    Infer,
}

/// A binding pattern.
#[derive(Debug)]
pub enum AstPattern {
    Ident(String),
    Tuple(Vec<AstPattern>, Span),
    Wildcard,
    /// An enum variant with its field patterns (`Some(x)`, `None`).
    Enum(String, Vec<AstPattern>),
}

/// One arm of a `match`: pattern, optional guard, body.
#[derive(Debug)]
pub struct MatchArm {
    pub pattern: AstPattern,
    pub guard: Option<AstExpr>,
    pub body: AstExpr,
    pub span: Span,
}

/// An expression with its source position.
#[derive(Debug)]
pub struct AstExpr {
    pub kind: Box<ExprKind>,
    pub span: Span,
}

/// The forms of expressions.
#[derive(Debug)]
#[allow(inconsistent_fields)]
pub enum ExprKind {
    IntLiteral(i128),
    BoolLiteral(bool),
    StringLiteral(String),
    CharLiteral(char),
    Unit,
    Ident(String),
    Path(Vec<String>),
    Call { callee: AstExpr, args: Vec<AstExpr>, type_args: Vec<AstType> },
    MethodCall { receiver: AstExpr, method: String, args: Vec<AstExpr>, trait_hint: Option<String> },
    Binary { op: BinaryOp, left: AstExpr, right: AstExpr },
    Unary { op: UnaryOp, operand: AstExpr },
    ComparisonChain { elements: Vec<AstExpr>, operators: Vec<CompareOp> },
    If { cond: AstExpr, then_block: AstBlock, else_block: Option<AstBlock> },
    Block(AstBlock),
    While { cond: AstExpr, body: AstBlock },
    For { pattern: AstPattern, iterator: AstExpr, body: AstBlock },
    Assign { target: AstExpr, op: AssignOp, value: AstExpr },
    Index { expr: AstExpr, index: AstExpr },
    FieldAccess { expr: AstExpr, field: String },
    /// `Name { f: e, ... }` (the path of the type name, its type arguments, the
    /// field initializers).
    StructCtor { name_path: Vec<String>, type_args: Vec<AstType>, fields: Vec<(String, AstExpr)> },
    /// `[e0, e1, ...]`.
    ArrayLit(Vec<AstExpr>),
    /// `match e { arms }`.
    Match { expr: AstExpr, arms: Vec<MatchArm> },
    /// `loop { body }`.
    Loop { body: AstBlock },
    /// `break` with an optional value.
    Break(Option<AstExpr>),
    /// A closure literal `|params| body`.
    Closure { params: Vec<AstPattern>, body: AstExpr },
}

/// A block: statements and an optional final expression.
#[derive(Debug)]
pub struct AstBlock {
    pub stmts: Vec<AstStmt>,
    pub final_expr: Option<AstExpr>,
    pub span: Span,
}

/// A statement.
#[derive(Debug)]
pub enum AstStmt {
    Let { pattern: AstPattern, type_anno: Option<AstType>, init: AstExpr, mutable: bool },
    Semi(AstExpr),
    Expr(AstExpr),
}

impl AstExpr {
    pub fn new(kind: ExprKind, span: Span) -> (r: AstExpr)
        ensures
            *r.kind == kind,
            r.span == span,
    {
        AstExpr { kind: Box::new(kind), span }
    }
}

// ---------------------------------------------------------------------------
// The model
// ---------------------------------------------------------------------------

/// The model of a source type.
pub enum AType {
    Path(Seq<char>, Seq<AType>),
    Ref(Box<AType>, bool),
    RawPtr(Box<AType>, bool),
    Dyn(Seq<char>),
    Tuple(Seq<AType>),
    Array(Box<AType>, Option<Box<Ex>>),
    Fn(Seq<AType>, Box<AType>),
    Union(Seq<AType>),
    Infer,
}

/// The model of a pattern.
pub enum Pat {
    Ident(Seq<char>),
    Tuple(Seq<Pat>, Span),
    Wildcard,
    Enum(Seq<char>, Seq<Pat>),
}

/// The model of a `match` arm.
pub struct Arm {
    pub pattern: Pat,
    pub guard: Option<Box<Ex>>,
    pub body: Box<Ex>,
    pub span: Span,
}

/// The model of an expression.
pub struct Ex {
    pub kind: ExK,
    pub span: Span,
}

/// The model of the forms of expressions.
pub enum ExK {
    Int(int),
    Bool(bool),
    Str(Seq<char>),
    Char(char),
    Unit,
    Ident(Seq<char>),
    Path(Seq<Seq<char>>),
    Call(Box<Ex>, Seq<Ex>, Seq<AType>),
    MethodCall(Box<Ex>, Seq<char>, Seq<Ex>, Option<Seq<char>>),
    Binary(BinaryOp, Box<Ex>, Box<Ex>),
    Unary(UnaryOp, Box<Ex>),
    Chain(Seq<Ex>, Seq<CompareOp>),
    If(Box<Ex>, Blk, Option<Blk>),
    Block(Blk),
    While(Box<Ex>, Blk),
    For(Pat, Box<Ex>, Blk),
    Assign(Box<Ex>, AssignOp, Box<Ex>),
    Index(Box<Ex>, Box<Ex>),
    Field(Box<Ex>, Seq<char>),
    StructCtor(Seq<Seq<char>>, Seq<AType>, Seq<(Seq<char>, Ex)>),
    ArrayLit(Seq<Ex>),
    Match(Box<Ex>, Seq<Arm>),
    Loop(Blk),
    Break(Option<Box<Ex>>),
    Closure(Seq<Pat>, Box<Ex>),
}

/// The model of a block.
pub struct Blk {
    pub stmts: Seq<St>,
    pub final_expr: Option<Box<Ex>>,
    pub span: Span,
}

/// The model of a statement.
pub enum St {
    Let(Pat, Option<AType>, Box<Ex>, bool),
    Semi(Box<Ex>),
    Expr(Box<Ex>),
}

pub open spec fn view_strings(s: Seq<String>) -> Seq<Seq<char>> {
    s.map_values(|x: String| x@)
}

pub open spec fn view_opt_string(o: Option<String>) -> Option<Seq<char>> {
    match o {
        Some(s) => Some(s@),
        None => None,
    }
}

pub open spec fn view_atype(t: AstType) -> AType
    decreases t,
{
    match t {
        AstType::Path(n, args) => AType::Path(n@, view_atypes(args@)),
        AstType::Ref(e, m) => AType::Ref(Box::new(view_atype(*e)), m),
        AstType::RawPtr(e, m) => AType::RawPtr(Box::new(view_atype(*e)), m),
        AstType::Dyn(n) => AType::Dyn(n@),
        AstType::Tuple(ts) => AType::Tuple(view_atypes(ts@)),
        AstType::Array(e, len) => AType::Array(
            Box::new(view_atype(*e)),
            match len {
                Some(x) => Some(Box::new(view_expr(x))),
                None => None,
            },
        ),
        AstType::Fn(ps, r) => AType::Fn(view_atypes(ps@), Box::new(view_atype(*r))),
        AstType::Union(ts) => AType::Union(view_atypes(ts@)),
        AstType::Infer => AType::Infer,
    }
}

pub open spec fn view_atypes(s: Seq<AstType>) -> Seq<AType>
    decreases s,
{
    if s.len() == 0 {
        Seq::empty()
    } else {
        view_atypes(s.subrange(0, s.len() - 1)).push(view_atype(s[s.len() - 1]))
    }
}

pub open spec fn view_pat(p: AstPattern) -> Pat
    decreases p,
{
    match p {
        AstPattern::Ident(n) => Pat::Ident(n@),
        AstPattern::Tuple(ps, sp) => Pat::Tuple(view_pats(ps@), sp),
        AstPattern::Wildcard => Pat::Wildcard,
        AstPattern::Enum(n, ps) => Pat::Enum(n@, view_pats(ps@)),
    }
}

pub open spec fn view_pats(s: Seq<AstPattern>) -> Seq<Pat>
    decreases s,
{
    if s.len() == 0 {
        Seq::empty()
    } else {
        view_pats(s.subrange(0, s.len() - 1)).push(view_pat(s[s.len() - 1]))
    }
}

pub open spec fn view_expr(e: AstExpr) -> Ex
    decreases e,
{
    Ex { kind: view_kind(*e.kind), span: e.span }
}

pub open spec fn view_kind(k: ExprKind) -> ExK
    decreases k,
{
    match k {
        ExprKind::IntLiteral(v) => ExK::Int(v as int),
        ExprKind::BoolLiteral(b) => ExK::Bool(b),
        ExprKind::StringLiteral(s) => ExK::Str(s@),
        ExprKind::CharLiteral(c) => ExK::Char(c),
        ExprKind::Unit => ExK::Unit,
        ExprKind::Ident(n) => ExK::Ident(n@),
        ExprKind::Path(segs) => ExK::Path(view_strings(segs@)),
        ExprKind::Call { callee, args, type_args } => ExK::Call(
            Box::new(view_expr(callee)),
            view_exprs(args@),
            view_atypes(type_args@),
        ),
        ExprKind::MethodCall { receiver, method, args, trait_hint } => ExK::MethodCall(
            Box::new(view_expr(receiver)),
            method@,
            view_exprs(args@),
            view_opt_string(trait_hint),
        ),
        ExprKind::Binary { op, left, right } => ExK::Binary(
            op,
            Box::new(view_expr(left)),
            Box::new(view_expr(right)),
        ),
        ExprKind::Unary { op, operand } => ExK::Unary(op, Box::new(view_expr(operand))),
        ExprKind::ComparisonChain { elements, operators } => ExK::Chain(view_exprs(elements@), operators@),
        ExprKind::If { cond, then_block, else_block } => ExK::If(
            Box::new(view_expr(cond)),
            view_block(then_block),
            match else_block {
                Some(b) => Some(view_block(b)),
                None => None,
            },
        ),
        ExprKind::Block(b) => ExK::Block(view_block(b)),
        ExprKind::While { cond, body } => ExK::While(Box::new(view_expr(cond)), view_block(body)),
        ExprKind::For { pattern, iterator, body } => ExK::For(
            view_pat(pattern),
            Box::new(view_expr(iterator)),
            view_block(body),
        ),
        ExprKind::Assign { target, op, value } => ExK::Assign(
            Box::new(view_expr(target)),
            op,
            Box::new(view_expr(value)),
        ),
        ExprKind::Index { expr, index } => ExK::Index(Box::new(view_expr(expr)), Box::new(view_expr(index))),
        ExprKind::FieldAccess { expr, field } => ExK::Field(Box::new(view_expr(expr)), field@),
        ExprKind::StructCtor { name_path, type_args, fields } => ExK::StructCtor(
            view_strings(name_path@),
            view_atypes(type_args@),
            view_inits(fields@),
        ),
        ExprKind::ArrayLit(elems) => ExK::ArrayLit(view_exprs(elems@)),
        ExprKind::Match { expr, arms } => ExK::Match(Box::new(view_expr(expr)), view_arms(arms@)),
        ExprKind::Loop { body } => ExK::Loop(view_block(body)),
        ExprKind::Break(v) => ExK::Break(
            match v {
                Some(e) => Some(Box::new(view_expr(e))),
                None => None,
            },
        ),
        ExprKind::Closure { params, body } => ExK::Closure(view_pats(params@), Box::new(view_expr(body))),
    }
}

pub open spec fn view_arm(a: MatchArm) -> Arm
    decreases a,
{
    Arm {
        pattern: view_pat(a.pattern),
        guard: match a.guard {
            Some(g) => Some(Box::new(view_expr(g))),
            None => None,
        },
        body: Box::new(view_expr(a.body)),
        span: a.span,
    }
}

pub open spec fn view_arms(s: Seq<MatchArm>) -> Seq<Arm>
    decreases s,
{
    if s.len() == 0 {
        Seq::empty()
    } else {
        view_arms(s.subrange(0, s.len() - 1)).push(view_arm(s[s.len() - 1]))
    }
}

pub open spec fn view_inits(s: Seq<(String, AstExpr)>) -> Seq<(Seq<char>, Ex)>
    decreases s,
{
    if s.len() == 0 {
        Seq::empty()
    } else {
        view_inits(s.subrange(0, s.len() - 1)).push((s[s.len() - 1].0@, view_expr(s[s.len() - 1].1)))
    }
}

pub open spec fn view_exprs(s: Seq<AstExpr>) -> Seq<Ex>
    decreases s,
{
    if s.len() == 0 {
        Seq::empty()
    } else {
        view_exprs(s.subrange(0, s.len() - 1)).push(view_expr(s[s.len() - 1]))
    }
}

pub open spec fn view_block(b: AstBlock) -> Blk
    decreases b,
{
    Blk {
        stmts: view_stmts(b.stmts@),
        final_expr: match b.final_expr {
            Some(e) => Some(Box::new(view_expr(e))),
            None => None,
        },
        span: b.span,
    }
}

pub open spec fn view_stmt(s: AstStmt) -> St
    decreases s,
{
    match s {
        AstStmt::Let { pattern, type_anno, init, mutable } => St::Let(
            view_pat(pattern),
            match type_anno {
                Some(t) => Some(view_atype(t)),
                None => None,
            },
            Box::new(view_expr(init)),
            mutable,
        ),
        AstStmt::Semi(e) => St::Semi(Box::new(view_expr(e))),
        AstStmt::Expr(e) => St::Expr(Box::new(view_expr(e))),
    }
}

pub open spec fn view_stmts(s: Seq<AstStmt>) -> Seq<St>
    decreases s,
{
    if s.len() == 0 {
        Seq::empty()
    } else {
        view_stmts(s.subrange(0, s.len() - 1)).push(view_stmt(s[s.len() - 1]))
    }
}

impl View for AstExpr {
    type V = Ex;

    open spec fn view(&self) -> Ex {
        view_expr(*self)
    }
}

impl View for AstType {
    type V = AType;

    open spec fn view(&self) -> AType {
        view_atype(*self)
    }
}

impl View for AstBlock {
    type V = Blk;

    open spec fn view(&self) -> Blk {
        view_block(*self)
    }
}

impl View for AstStmt {
    type V = St;

    open spec fn view(&self) -> St {
        view_stmt(*self)
    }
}

impl View for AstPattern {
    type V = Pat;

    open spec fn view(&self) -> Pat {
        view_pat(*self)
    }
}

pub proof fn lemma_view_exprs(s: Seq<AstExpr>)
    ensures
        view_exprs(s).len() == s.len(),
        forall|i: int| 0 <= i < s.len() ==> #[trigger] view_exprs(s)[i] == s[i]@,
    decreases s.len(),
{
    if s.len() > 0 {
        lemma_view_exprs(s.subrange(0, s.len() - 1));
    }
}

pub proof fn lemma_view_inits(s: Seq<(String, AstExpr)>)
    ensures
        view_inits(s).len() == s.len(),
        forall|i: int| 0 <= i < s.len() ==> #[trigger] view_inits(s)[i] == (s[i].0@, s[i].1@),
    decreases s.len(),
{
    if s.len() > 0 {
        lemma_view_inits(s.subrange(0, s.len() - 1));
    }
}

pub proof fn lemma_view_arms(s: Seq<MatchArm>)
    ensures
        view_arms(s).len() == s.len(),
        forall|i: int| 0 <= i < s.len() ==> #[trigger] view_arms(s)[i] == view_arm(s[i]),
    decreases s.len(),
{
    if s.len() > 0 {
        lemma_view_arms(s.subrange(0, s.len() - 1));
    }
}

pub proof fn lemma_view_stmts(s: Seq<AstStmt>)
    ensures
        view_stmts(s).len() == s.len(),
        forall|i: int| 0 <= i < s.len() ==> #[trigger] view_stmts(s)[i] == s[i]@,
    decreases s.len(),
{
    if s.len() > 0 {
        lemma_view_stmts(s.subrange(0, s.len() - 1));
    }
}

pub proof fn lemma_view_atypes(s: Seq<AstType>)
    ensures
        view_atypes(s).len() == s.len(),
        forall|i: int| 0 <= i < s.len() ==> #[trigger] view_atypes(s)[i] == s[i]@,
    decreases s.len(),
{
    if s.len() > 0 {
        lemma_view_atypes(s.subrange(0, s.len() - 1));
    }
}

pub proof fn lemma_view_pats(s: Seq<AstPattern>)
    ensures
        view_pats(s).len() == s.len(),
        forall|i: int| 0 <= i < s.len() ==> #[trigger] view_pats(s)[i] == s[i]@,
    decreases s.len(),
{
    if s.len() > 0 {
        lemma_view_pats(s.subrange(0, s.len() - 1));
    }
}

pub broadcast proof fn lemma_view_exprs_len(s: Seq<AstExpr>)
    ensures
        #[trigger] view_exprs(s).len() == s.len(),
{
    lemma_view_exprs(s);
}

pub broadcast proof fn lemma_view_exprs_index(s: Seq<AstExpr>, i: int)
    requires
        0 <= i < s.len(),
    ensures
        #[trigger] view_exprs(s)[i] == s[i]@,
{
    lemma_view_exprs(s);
}

pub broadcast proof fn lemma_view_stmts_len(s: Seq<AstStmt>)
    ensures
        #[trigger] view_stmts(s).len() == s.len(),
{
    lemma_view_stmts(s);
}

pub broadcast proof fn lemma_view_stmts_index(s: Seq<AstStmt>, i: int)
    requires
        0 <= i < s.len(),
    ensures
        #[trigger] view_stmts(s)[i] == s[i]@,
{
    lemma_view_stmts(s);
}

pub broadcast proof fn lemma_view_atypes_len(s: Seq<AstType>)
    ensures
        #[trigger] view_atypes(s).len() == s.len(),
{
    lemma_view_atypes(s);
}

pub broadcast proof fn lemma_view_atypes_index(s: Seq<AstType>, i: int)
    requires
        0 <= i < s.len(),
    ensures
        #[trigger] view_atypes(s)[i] == s[i]@,
{
    lemma_view_atypes(s);
}

pub broadcast group group_ast_views {
    lemma_view_exprs_len,
    lemma_view_exprs_index,
    lemma_view_stmts_len,
    lemma_view_stmts_index,
    lemma_view_atypes_len,
    lemma_view_atypes_index,
}

// ---------------------------------------------------------------------------
// Copying
// ---------------------------------------------------------------------------

pub fn clone_strings(v: &Vec<String>) -> (r: Vec<String>)
    ensures
        view_strings(r@) == view_strings(v@),
{
    let mut out: Vec<String> = Vec::new();
    let mut i: usize = 0;
    while i < v.len()
        invariant
            i <= v.len(),
            out@.len() == i,
            forall|j: int| 0 <= j < i ==> #[trigger] out@[j]@ == v@[j]@,
        decreases v.len() - i,
    {
        out.push(v[i].clone());
        i += 1;
    }
    assert(view_strings(out@) =~= view_strings(v@));
    out
}

fn clone_opt_string(o: &Option<String>) -> (r: Option<String>)
    ensures
        view_opt_string(r) == view_opt_string(*o),
{
    match o {
        Some(s) => Some(s.clone()),
        None => None,
    }
}

/// A copy of a source type with the same model.
pub fn clone_atype(t: &AstType) -> (r: AstType)
    ensures
        r@ == t@,
    decreases t,
{
    broadcast use group_ast_views;
    match t {
        AstType::Path(n, args) => AstType::Path(n.clone(), clone_atypes(args)),
        AstType::Ref(e, m) => AstType::Ref(Box::new(clone_atype(e)), *m),
        AstType::RawPtr(e, m) => AstType::RawPtr(Box::new(clone_atype(e)), *m),
        AstType::Dyn(n) => AstType::Dyn(n.clone()),
        AstType::Tuple(ts) => AstType::Tuple(clone_atypes(ts)),
        AstType::Array(e, len) => AstType::Array(
            Box::new(clone_atype(e)),
            match len {
                Some(x) => Some(clone_expr(x)),
                None => None,
            },
        ),
        AstType::Fn(ps, r) => AstType::Fn(clone_atypes(ps), Box::new(clone_atype(r))),
        AstType::Union(ts) => AstType::Union(clone_atypes(ts)),
        AstType::Infer => AstType::Infer,
    }
}

/// A copy of a vector of source types with the same model.
pub fn clone_atypes(v: &Vec<AstType>) -> (r: Vec<AstType>)
    ensures
        view_atypes(r@) == view_atypes(v@),
    decreases v,
{
    broadcast use group_ast_views;
    let mut out: Vec<AstType> = Vec::new();
    let mut i: usize = 0;
    while i < v.len()
        invariant
            i <= v.len(),
            out@.len() == i,
            forall|j: int| 0 <= j < i ==> #[trigger] out@[j]@ == v@[j]@,
        decreases v.len() - i,
    {
        out.push(clone_atype(&v[i]));
        i += 1;
    }
    proof {
        lemma_view_atypes(out@);
        lemma_view_atypes(v@);
    }
    assert(view_atypes(out@) =~= view_atypes(v@));
    out
}

/// A copy of a pattern with the same model.
pub fn clone_pat(p: &AstPattern) -> (r: AstPattern)
    ensures
        r@ == p@,
    decreases p,
{
    match p {
        AstPattern::Ident(n) => AstPattern::Ident(n.clone()),
        AstPattern::Tuple(ps, sp) => AstPattern::Tuple(clone_pats(ps), *sp),
        AstPattern::Wildcard => AstPattern::Wildcard,
        AstPattern::Enum(n, ps) => AstPattern::Enum(n.clone(), clone_pats(ps)),
    }
}

fn clone_pats(v: &Vec<AstPattern>) -> (r: Vec<AstPattern>)
    ensures
        view_pats(r@) == view_pats(v@),
    decreases v,
{
    let mut out: Vec<AstPattern> = Vec::new();
    let mut i: usize = 0;
    while i < v.len()
        invariant
            i <= v.len(),
            out@.len() == i,
            forall|j: int| 0 <= j < i ==> #[trigger] out@[j]@ == v@[j]@,
        decreases v.len() - i,
    {
        out.push(clone_pat(&v[i]));
        i += 1;
    }
    proof {
        lemma_view_pats(out@);
        lemma_view_pats(v@);
    }
    assert(view_pats(out@) =~= view_pats(v@));
    out
}

/// A copy of an expression with the same model.
pub fn clone_expr(e: &AstExpr) -> (r: AstExpr)
    ensures
        r@ == e@,
    decreases e,
{
    let k = clone_kind(&e.kind);
    AstExpr { kind: Box::new(k), span: e.span }
}

fn clone_kind(k: &ExprKind) -> (r: ExprKind)
    ensures
        view_kind(r) == view_kind(*k),
    decreases k,
{
    broadcast use group_ast_views;
    match k {
        ExprKind::IntLiteral(v) => ExprKind::IntLiteral(*v),
        ExprKind::BoolLiteral(b) => ExprKind::BoolLiteral(*b),
        ExprKind::StringLiteral(s) => ExprKind::StringLiteral(s.clone()),
        ExprKind::CharLiteral(c) => ExprKind::CharLiteral(*c),
        ExprKind::Unit => ExprKind::Unit,
        ExprKind::Ident(n) => ExprKind::Ident(n.clone()),
        ExprKind::Path(segs) => ExprKind::Path(clone_strings(segs)),
        ExprKind::Call { callee, args, type_args } => ExprKind::Call {
            callee: clone_expr(callee),
            args: clone_exprs(args),
            type_args: clone_atypes(type_args),
        },
        ExprKind::MethodCall { receiver, method, args, trait_hint } => ExprKind::MethodCall {
            receiver: clone_expr(receiver),
            method: method.clone(),
            args: clone_exprs(args),
            trait_hint: clone_opt_string(trait_hint),
        },
        ExprKind::Binary { op, left, right } => ExprKind::Binary {
            op: *op,
            left: clone_expr(left),
            right: clone_expr(right),
        },
        ExprKind::Unary { op, operand } => ExprKind::Unary { op: *op, operand: clone_expr(operand) },
        ExprKind::ComparisonChain { elements, operators } => ExprKind::ComparisonChain {
            elements: clone_exprs(elements),
            operators: operators.clone(),
        },
        ExprKind::If { cond, then_block, else_block } => ExprKind::If {
            cond: clone_expr(cond),
            then_block: clone_block(then_block),
            else_block: match else_block {
                Some(b) => Some(clone_block(b)),
                None => None,
            },
        },
        ExprKind::Block(b) => ExprKind::Block(clone_block(b)),
        ExprKind::While { cond, body } => ExprKind::While { cond: clone_expr(cond), body: clone_block(body) },
        ExprKind::For { pattern, iterator, body } => ExprKind::For {
            pattern: clone_pat(pattern),
            iterator: clone_expr(iterator),
            body: clone_block(body),
        },
        ExprKind::Assign { target, op, value } => ExprKind::Assign {
            target: clone_expr(target),
            op: *op,
            value: clone_expr(value),
        },
        ExprKind::Index { expr, index } => ExprKind::Index { expr: clone_expr(expr), index: clone_expr(index) },
        ExprKind::FieldAccess { expr, field } => ExprKind::FieldAccess {
            expr: clone_expr(expr),
            field: field.clone(),
        },
        ExprKind::StructCtor { name_path, type_args, fields } => ExprKind::StructCtor {
            name_path: clone_strings(name_path),
            type_args: clone_atypes(type_args),
            fields: clone_inits(fields),
        },
        ExprKind::ArrayLit(elems) => ExprKind::ArrayLit(clone_exprs(elems)),
        ExprKind::Match { expr, arms } => ExprKind::Match { expr: clone_expr(expr), arms: clone_arms(arms) },
        ExprKind::Loop { body } => ExprKind::Loop { body: clone_block(body) },
        ExprKind::Break(v) => ExprKind::Break(
            match v {
                Some(e) => Some(clone_expr(e)),
                None => None,
            },
        ),
        ExprKind::Closure { params, body } => ExprKind::Closure {
            params: clone_pats(params),
            body: clone_expr(body),
        },
    }
}

/// A copy of a list of `match` arms with the same model.
fn clone_arms(v: &Vec<MatchArm>) -> (r: Vec<MatchArm>)
    ensures
        view_arms(r@) == view_arms(v@),
    decreases v,
{
    let mut out: Vec<MatchArm> = Vec::new();
    let mut i: usize = 0;
    while i < v.len()
        invariant
            i <= v.len(),
            out@.len() == i,
            forall|j: int| 0 <= j < i ==> view_arm(#[trigger] out@[j]) == view_arm(v@[j]),
        decreases v.len() - i,
    {
        let a = &v[i];
        let c = MatchArm {
            pattern: clone_pat(&a.pattern),
            guard: match &a.guard {
                Some(g) => Some(clone_expr(g)),
                None => None,
            },
            body: clone_expr(&a.body),
            span: a.span,
        };
        out.push(c);
        i += 1;
    }
    proof {
        lemma_view_arms(out@);
        lemma_view_arms(v@);
    }
    assert(view_arms(out@) =~= view_arms(v@));
    out
}

/// A copy of a list of field initializers with the same model.
fn clone_inits(v: &Vec<(String, AstExpr)>) -> (r: Vec<(String, AstExpr)>)
    ensures
        view_inits(r@) == view_inits(v@),
    decreases v,
{
    let mut out: Vec<(String, AstExpr)> = Vec::new();
    let mut i: usize = 0;
    while i < v.len()
        invariant
            i <= v.len(),
            out@.len() == i,
            forall|j: int| 0 <= j < i ==> (#[trigger] out@[j]).0@ == v@[j].0@ && out@[j].1@ == v@[j].1@,
        decreases v.len() - i,
    {
        out.push((v[i].0.clone(), clone_expr(&v[i].1)));
        i += 1;
    }
    proof {
        lemma_view_inits(out@);
        lemma_view_inits(v@);
    }
    assert(view_inits(out@) =~= view_inits(v@));
    out
}

/// A copy of a vector of expressions with the same model.
pub fn clone_exprs(v: &Vec<AstExpr>) -> (r: Vec<AstExpr>)
    ensures
        view_exprs(r@) == view_exprs(v@),
    decreases v,
{
    let mut out: Vec<AstExpr> = Vec::new();
    let mut i: usize = 0;
    while i < v.len()
        invariant
            i <= v.len(),
            out@.len() == i,
            forall|j: int| 0 <= j < i ==> #[trigger] out@[j]@ == v@[j]@,
        decreases v.len() - i,
    {
        out.push(clone_expr(&v[i]));
        i += 1;
    }
    proof {
        lemma_view_exprs(out@);
        lemma_view_exprs(v@);
    }
    assert(view_exprs(out@) =~= view_exprs(v@));
    out
}

/// A copy of a block with the same model.
pub fn clone_block(b: &AstBlock) -> (r: AstBlock)
    ensures
        r@ == b@,
    decreases b,
{
    AstBlock {
        stmts: clone_stmts(&b.stmts),
        final_expr: match &b.final_expr {
            Some(e) => Some(clone_expr(e)),
            None => None,
        },
        span: b.span,
    }
}

fn clone_stmt(s: &AstStmt) -> (r: AstStmt)
    ensures
        r@ == s@,
    decreases s,
{
    match s {
        AstStmt::Let { pattern, type_anno, init, mutable } => AstStmt::Let {
            pattern: clone_pat(pattern),
            type_anno: match type_anno {
                Some(t) => Some(clone_atype(t)),
                None => None,
            },
            init: clone_expr(init),
            mutable: *mutable,
        },
        AstStmt::Semi(e) => AstStmt::Semi(clone_expr(e)),
        AstStmt::Expr(e) => AstStmt::Expr(clone_expr(e)),
    }
}

fn clone_stmts(v: &Vec<AstStmt>) -> (r: Vec<AstStmt>)
    ensures
        view_stmts(r@) == view_stmts(v@),
    decreases v,
{
    let mut out: Vec<AstStmt> = Vec::new();
    let mut i: usize = 0;
    while i < v.len()
        invariant
            i <= v.len(),
            out@.len() == i,
            forall|j: int| 0 <= j < i ==> #[trigger] out@[j]@ == v@[j]@,
        decreases v.len() - i,
    {
        out.push(clone_stmt(&v[i]));
        i += 1;
    }
    proof {
        lemma_view_stmts(out@);
        lemma_view_stmts(v@);
    }
    assert(view_stmts(out@) =~= view_stmts(v@));
    out
}

// ---------------------------------------------------------------------------
// Constructors, one node at a time
// ---------------------------------------------------------------------------

pub open spec fn view_opt_block(o: Option<AstBlock>) -> Option<Blk> {
    match o {
        Some(b) => Some(b@),
        None => None,
    }
}

pub open spec fn view_opt_expr(o: Option<AstExpr>) -> Option<Box<Ex>> {
    match o {
        Some(e) => Some(Box::new(e@)),
        None => None,
    }
}

pub open spec fn ex(kind: ExK, span: Span) -> Ex {
    Ex { kind, span }
}

pub fn mk_int(v: i128, span: Span) -> (r: AstExpr)
    ensures
        r@ == ex(ExK::Int(v as int), span),
{
    let r = AstExpr::new(ExprKind::IntLiteral(v), span);
    assert(view_kind(*r.kind) == ExK::Int(v as int));
    r
}

pub fn mk_bool(b: bool, span: Span) -> (r: AstExpr)
    ensures
        r@ == ex(ExK::Bool(b), span),
{
    let r = AstExpr::new(ExprKind::BoolLiteral(b), span);
    assert(view_kind(*r.kind) == ExK::Bool(b));
    r
}

pub fn mk_str(s: String, span: Span) -> (r: AstExpr)
    ensures
        r@ == ex(ExK::Str(s@), span),
{
    let ghost sv = s@;
    let r = AstExpr::new(ExprKind::StringLiteral(s), span);
    assert(view_kind(*r.kind) == ExK::Str(sv));
    r
}

pub fn mk_unit(span: Span) -> (r: AstExpr)
    ensures
        r@ == ex(ExK::Unit, span),
{
    let r = AstExpr::new(ExprKind::Unit, span);
    assert(view_kind(*r.kind) == ExK::Unit);
    r
}

pub fn mk_ident(name: String, span: Span) -> (r: AstExpr)
    ensures
        r@ == ex(ExK::Ident(name@), span),
{
    let ghost nv = name@;
    let r = AstExpr::new(ExprKind::Ident(name), span);
    assert(view_kind(*r.kind) == ExK::Ident(nv));
    r
}

pub fn mk_path(segments: Vec<String>, span: Span) -> (r: AstExpr)
    ensures
        r@ == ex(ExK::Path(view_strings(segments@)), span),
{
    let ghost sv = view_strings(segments@);
    let r = AstExpr::new(ExprKind::Path(segments), span);
    assert(view_kind(*r.kind) == ExK::Path(sv));
    r
}

pub fn mk_call(callee: AstExpr, args: Vec<AstExpr>, type_args: Vec<AstType>, span: Span) -> (r: AstExpr)
    ensures
        r@ == ex(ExK::Call(Box::new(callee@), view_exprs(args@), view_atypes(type_args@)), span),
{
    let ghost k = ExK::Call(Box::new(callee@), view_exprs(args@), view_atypes(type_args@));
    let r = AstExpr::new(ExprKind::Call { callee, args, type_args }, span);
    assert(view_kind(*r.kind) == k);
    r
}

pub fn mk_method_call(receiver: AstExpr, method: String, args: Vec<AstExpr>, span: Span) -> (r: AstExpr)
    ensures
        r@ == ex(ExK::MethodCall(Box::new(receiver@), method@, view_exprs(args@), None), span),
{
    let ghost k = ExK::MethodCall(Box::new(receiver@), method@, view_exprs(args@), None);
    let r = AstExpr::new(ExprKind::MethodCall { receiver, method, args, trait_hint: None }, span);
    assert(view_kind(*r.kind) == k);
    r
}

pub fn mk_binary(op: BinaryOp, left: AstExpr, right: AstExpr, span: Span) -> (r: AstExpr)
    ensures
        r@ == ex(ExK::Binary(op, Box::new(left@), Box::new(right@)), span),
{
    let ghost k = ExK::Binary(op, Box::new(left@), Box::new(right@));
    let r = AstExpr::new(ExprKind::Binary { op, left, right }, span);
    assert(view_kind(*r.kind) == k);
    r
}

pub fn mk_unary(op: UnaryOp, operand: AstExpr, span: Span) -> (r: AstExpr)
    ensures
        r@ == ex(ExK::Unary(op, Box::new(operand@)), span),
{
    let ghost k = ExK::Unary(op, Box::new(operand@));
    let r = AstExpr::new(ExprKind::Unary { op, operand }, span);
    assert(view_kind(*r.kind) == k);
    r
}

pub fn mk_chain(elements: Vec<AstExpr>, operators: Vec<CompareOp>, span: Span) -> (r: AstExpr)
    ensures
        r@ == ex(ExK::Chain(view_exprs(elements@), operators@), span),
{
    let ghost k = ExK::Chain(view_exprs(elements@), operators@);
    let r = AstExpr::new(ExprKind::ComparisonChain { elements, operators }, span);
    assert(view_kind(*r.kind) == k);
    r
}

pub fn mk_if(cond: AstExpr, then_block: AstBlock, else_block: Option<AstBlock>, span: Span) -> (r: AstExpr)
    ensures
        r@ == ex(ExK::If(Box::new(cond@), then_block@, view_opt_block(else_block)), span),
{
    let ghost k = ExK::If(Box::new(cond@), then_block@, view_opt_block(else_block));
    let r = AstExpr::new(ExprKind::If { cond, then_block, else_block }, span);
    assert(view_kind(*r.kind) == k);
    r
}

pub fn mk_block_expr(b: AstBlock, span: Span) -> (r: AstExpr)
    ensures
        r@ == ex(ExK::Block(b@), span),
{
    let ghost k = ExK::Block(b@);
    let r = AstExpr::new(ExprKind::Block(b), span);
    assert(view_kind(*r.kind) == k);
    r
}

pub fn mk_while(cond: AstExpr, body: AstBlock, span: Span) -> (r: AstExpr)
    ensures
        r@ == ex(ExK::While(Box::new(cond@), body@), span),
{
    let ghost k = ExK::While(Box::new(cond@), body@);
    let r = AstExpr::new(ExprKind::While { cond, body }, span);
    assert(view_kind(*r.kind) == k);
    r
}

pub fn mk_for(pattern: AstPattern, iterator: AstExpr, body: AstBlock, span: Span) -> (r: AstExpr)
    ensures
        r@ == ex(ExK::For(pattern@, Box::new(iterator@), body@), span),
{
    let ghost k = ExK::For(pattern@, Box::new(iterator@), body@);
    let r = AstExpr::new(ExprKind::For { pattern, iterator, body }, span);
    assert(view_kind(*r.kind) == k);
    r
}

pub fn mk_assign(target: AstExpr, value: AstExpr, span: Span) -> (r: AstExpr)
    ensures
        r@ == ex(ExK::Assign(Box::new(target@), AssignOp::Assign, Box::new(value@)), span),
{
    let ghost k = ExK::Assign(Box::new(target@), AssignOp::Assign, Box::new(value@));
    let r = AstExpr::new(ExprKind::Assign { target, op: AssignOp::Assign, value }, span);
    assert(view_kind(*r.kind) == k);
    r
}

pub fn mk_index(expr: AstExpr, index: AstExpr, span: Span) -> (r: AstExpr)
    ensures
        r@ == ex(ExK::Index(Box::new(expr@), Box::new(index@)), span),
{
    let ghost k = ExK::Index(Box::new(expr@), Box::new(index@));
    let r = AstExpr::new(ExprKind::Index { expr, index }, span);
    assert(view_kind(*r.kind) == k);
    r
}

pub fn mk_field(expr: AstExpr, field: String, span: Span) -> (r: AstExpr)
    ensures
        r@ == ex(ExK::Field(Box::new(expr@), field@), span),
{
    let ghost k = ExK::Field(Box::new(expr@), field@);
    let r = AstExpr::new(ExprKind::FieldAccess { expr, field }, span);
    assert(view_kind(*r.kind) == k);
    r
}

pub fn mk_struct_ctor(name_path: Vec<String>, type_args: Vec<AstType>, fields: Vec<(String, AstExpr)>, span: Span) -> (r: AstExpr)
    ensures
        r@ == ex(ExK::StructCtor(view_strings(name_path@), view_atypes(type_args@), view_inits(fields@)), span),
{
    let ghost k = ExK::StructCtor(view_strings(name_path@), view_atypes(type_args@), view_inits(fields@));
    let r = AstExpr::new(ExprKind::StructCtor { name_path, type_args, fields }, span);
    assert(view_kind(*r.kind) == k);
    r
}

pub fn mk_array_lit(elems: Vec<AstExpr>, span: Span) -> (r: AstExpr)
    ensures
        r@ == ex(ExK::ArrayLit(view_exprs(elems@)), span),
{
    let ghost k = ExK::ArrayLit(view_exprs(elems@));
    let r = AstExpr::new(ExprKind::ArrayLit(elems), span);
    assert(view_kind(*r.kind) == k);
    r
}

pub fn mk_block(stmts: Vec<AstStmt>, final_expr: Option<AstExpr>, span: Span) -> (r: AstBlock)
    ensures
        r@ == (Blk { stmts: view_stmts(stmts@), final_expr: view_opt_expr(final_expr), span }),
{
    AstBlock { stmts, final_expr, span }
}

pub fn mk_semi(e: AstExpr) -> (r: AstStmt)
    ensures
        r@ == St::Semi(Box::new(e@)),
{
    AstStmt::Semi(e)
}

/// `let [mut] <name> = <init>;`
pub fn mk_let(name: String, init: AstExpr, mutable: bool) -> (r: AstStmt)
    ensures
        r@ == St::Let(Pat::Ident(name@), None, Box::new(init@), mutable),
{
    let p = AstPattern::Ident(name);
    assert(p@ == Pat::Ident(name@));
    AstStmt::Let { pattern: p, type_anno: None, init, mutable }
}

/// `let [mut] <name>: <anno> = <init>;`
pub fn mk_let_typed(name: String, anno: AstType, init: AstExpr, mutable: bool) -> (r: AstStmt)
    ensures
        r@ == St::Let(Pat::Ident(name@), Some(anno@), Box::new(init@), mutable),
{
    let p = AstPattern::Ident(name);
    assert(p@ == Pat::Ident(name@));
    AstStmt::Let { pattern: p, type_anno: Some(anno), init, mutable }
}

/// A vector of one expression.
pub fn vec1(a: AstExpr) -> (r: Vec<AstExpr>)
    ensures
        view_exprs(r@) == seq![a@],
{
    let ghost av = a@;
    let v = vec![a];
    proof {
        lemma_view_exprs(v@);
    }
    assert(view_exprs(v@) =~= seq![av]);
    v
}

/// A vector of two expressions.
pub fn vec2(a: AstExpr, b: AstExpr) -> (r: Vec<AstExpr>)
    ensures
        view_exprs(r@) == seq![a@, b@],
{
    let ghost av = a@;
    let ghost bv = b@;
    let v = vec![a, b];
    proof {
        lemma_view_exprs(v@);
    }
    assert(view_exprs(v@) =~= seq![av, bv]);
    v
}

/// A vector of three expressions.
pub fn vec3(a: AstExpr, b: AstExpr, c: AstExpr) -> (r: Vec<AstExpr>)
    ensures
        view_exprs(r@) == seq![a@, b@, c@],
{
    let ghost av = a@;
    let ghost bv = b@;
    let ghost cv = c@;
    let v = vec![a, b, c];
    proof {
        lemma_view_exprs(v@);
    }
    assert(view_exprs(v@) =~= seq![av, bv, cv]);
    v
}

/// The empty vector of expressions.
pub fn vec0() -> (r: Vec<AstExpr>)
    ensures
        view_exprs(r@) == Seq::<Ex>::empty(),
{
    let v: Vec<AstExpr> = Vec::new();
    v
}

/// The empty vector of source types.
pub fn atypes0() -> (r: Vec<AstType>)
    ensures
        view_atypes(r@) == Seq::<AType>::empty(),
{
    let v: Vec<AstType> = Vec::new();
    v
}

} // verus!

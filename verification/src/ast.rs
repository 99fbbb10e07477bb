use vstd::prelude::*;

verus! {

/// A jim type as written in source.
#[derive(Debug)]
pub enum Type {
    Named(String),
    Generic(String, Box<Type>),
    Pointer(Box<Type>),
    Optional(Box<Type>),
}

/// The mathematical model of a [`Type`]: names as character sequences.
pub enum TypeV {
    Named(Seq<char>),
    Generic(Seq<char>, Box<TypeV>),
    Pointer(Box<TypeV>),
    Optional(Box<TypeV>),
}

impl View for Type {
    type V = TypeV;

    open spec fn view(&self) -> TypeV
        decreases self,
    {
        match self {
            Type::Named(n) => TypeV::Named(n@),
            Type::Generic(n, p) => TypeV::Generic(n@, Box::new((**p).view())),
            Type::Pointer(p) => TypeV::Pointer(Box::new((**p).view())),
            Type::Optional(p) => TypeV::Optional(Box::new((**p).view())),
        }
    }
}

/// How a type is spelled: `Name`, `Name<T>`, `*T`, `T?`.
pub open spec fn display_spec(t: TypeV) -> Seq<char>
    decreases t,
{
    match t {
        TypeV::Named(n) => n,
        TypeV::Generic(n, p) => n + seq!['<'] + display_spec(*p) + seq!['>'],
        TypeV::Pointer(p) => seq!['*'] + display_spec(*p),
        TypeV::Optional(p) => display_spec(*p) + seq!['?'],
    }
}

impl Type {
    pub fn named(n: &str) -> (t: Type)
        ensures
            t@ == TypeV::Named(n@),
    {
        Type::Named(n.to_string())
    }

    pub fn display(&self) -> (s: String)
        ensures
            s@ == display_spec(self@),
        decreases self,
    {
        match self {
            Type::Named(n) => {
                let s = n.clone();
                assert(s@ == n@);
                s
            },
            Type::Generic(n, inner) => {
                let mut s = n.clone();
                proof { reveal_strlit("<"); reveal_strlit(">"); }
                s.append("<");
                let d = inner.display();
                s.append(d.as_str());
                s.append(">");
                s
            },
            Type::Pointer(inner) => {
                let mut s = String::new();
                proof { reveal_strlit("*"); }
                s.append("*");
                let d = inner.display();
                s.append(d.as_str());
                s
            },
            Type::Optional(inner) => {
                let mut s = inner.display();
                proof { reveal_strlit("?"); }
                s.append("?");
                s
            },
        }
    }
}

} // verus!

verus! {

impl Type {
    /// A copy of this type.
    pub fn copy(&self) -> (t: Type)
        ensures
            t@ == self@,
        decreases self,
    {
        match self {
            Type::Named(n) => Type::Named(n.clone()),
            Type::Generic(n, p) => Type::Generic(n.clone(), Box::new(p.copy())),
            Type::Pointer(p) => Type::Pointer(Box::new(p.copy())),
            Type::Optional(p) => Type::Optional(Box::new(p.copy())),
        }
    }

    /// Structural equality of types.
    pub fn same(&self, other: &Type) -> (b: bool)
        ensures
            b == (self@ == other@),
        decreases self,
    {
        match self {
            Type::Named(a) => match other {
                Type::Named(b) => crate::text::str_eq(a.as_str(), b.as_str()),
                _ => false,
            },
            Type::Generic(a, p) => match other {
                Type::Generic(b, q) => {
                    let r = crate::text::str_eq(a.as_str(), b.as_str()) && (**p).same(&**q);
                    proof {
                        if r {
                            assert(self@ == other@);
                        }
                    }
                    r
                },
                _ => false,
            },
            Type::Pointer(p) => match other {
                Type::Pointer(q) => {
                    let r = (**p).same(&**q);
                    proof {
                        if r {
                            assert(self@ == other@);
                        }
                    }
                    r
                },
                _ => false,
            },
            Type::Optional(p) => match other {
                Type::Optional(q) => {
                    let r = (**p).same(&**q);
                    proof {
                        if r {
                            assert(self@ == other@);
                        }
                    }
                    r
                },
                _ => false,
            },
        }
    }

    /// Is this the plain named type `n`?
    pub fn is_named(&self, n: &str) -> (b: bool)
        ensures
            b == (self@ == TypeV::Named(n@)),
    {
        match self {
            Type::Named(a) => crate::text::str_eq(a.as_str(), n),
            _ => false,
        }
    }
}

} // verus!

verus! {

/// Where an `#import` points.
#[derive(Debug)]
pub enum ImportKind {
    /// `#import <name>`: resolved against the std root.
    Std(String),
    /// `#import "path.j"`: resolved relative to the importing file.
    Local(String),
}

pub enum ImportKindV {
    Std(Seq<char>),
    Local(Seq<char>),
}

#[derive(Debug)]
pub struct Import {
    pub kind: ImportKind,
    pub line: u32,
    pub col: u32,
}

pub struct ImportV {
    pub kind: ImportKindV,
    pub line: u32,
    pub col: u32,
}

impl View for Import {
    type V = ImportV;

    open spec fn view(&self) -> ImportV {
        ImportV {
            kind: match self.kind {
                ImportKind::Std(n) => ImportKindV::Std(n@),
                ImportKind::Local(p) => ImportKindV::Local(p@),
            },
            line: self.line,
            col: self.col,
        }
    }
}

#[derive(Debug)]
pub struct Param {
    pub name: String,
    pub ty: Type,
    pub line: u32,
    pub col: u32,
}

pub struct ParamV {
    pub name: Seq<char>,
    pub ty: TypeV,
    pub line: u32,
    pub col: u32,
}

impl View for Param {
    type V = ParamV;

    open spec fn view(&self) -> ParamV {
        ParamV { name: self.name@, ty: self.ty@, line: self.line, col: self.col }
    }
}

pub open spec fn params_v(s: Seq<Param>) -> Seq<ParamV> {
    Seq::new(s.len(), |i: int| s[i]@)
}

pub open spec fn names_v(s: Seq<String>) -> Seq<Seq<char>> {
    Seq::new(s.len(), |i: int| s[i]@)
}

pub open spec fn types_v(s: Seq<Type>) -> Seq<TypeV> {
    Seq::new(s.len(), |i: int| s[i]@)
}

/// Assignment operators: `=`, `+=`, `-=`, `*=`, `/=`.
#[derive(Clone, Copy, Debug, PartialEq, Eq, Structural)]
pub enum AssignOp {
    Plain,
    Add,
    Sub,
    Mul,
    Div,
}

#[derive(Clone, Copy, Debug, PartialEq, Eq, Structural)]
pub enum BinOp {
    Add,
    Sub,
    Mul,
    Div,
    IntDiv,
    Mod,
    Eq,
    NotEq,
    Lt,
    LtEq,
    Gt,
    GtEq,
    And,
    Or,
}

#[derive(Clone, Copy, Debug, PartialEq, Eq, Structural)]
pub enum UnOp {
    Neg,
    Not,
    AddrOf,
    Deref,
}

/// An expression and where it starts.
#[derive(Debug)]
pub struct Expr {
    pub kind: ExprKind,
    pub line: u32,
    pub col: u32,
}

/// The forms of expression. A float literal keeps its decimal spelling.
#[derive(Debug)]
pub enum ExprKind {
    Int(i64),
    Float(String),
    Str(String),
    /// A jim Char is one byte.
    CharLit(u8),
    Bool(bool),
    NoneLit,
    Ident(String),
    This,
    ArrayLit(Vec<Expr>),
    Call { name: String, args: Vec<Expr> },
    /// `max<Vector<Float>, Float>(v)`: a call with explicit type arguments.
    GenericCall { name: String, type_args: Vec<Type>, args: Vec<Expr> },
    MethodCall { recv: Box<Expr>, name: String, args: Vec<Expr> },
    /// A method call whose receiver class is resolved (after type checking).
    CoreMethodCall { class: String, name: String, recv: Box<Expr>, args: Vec<Expr> },
    /// Optional machinery (after type checking); `payload` is the T of a T?.
    OptWrap { payload: Type, expr: Box<Expr> },
    OptUnwrap { payload: Type, expr: Box<Expr> },
    OptNone { payload: Type },
    OptHas { payload: Type, expr: Box<Expr> },
    /// Instantiation of a class by its key (after type checking).
    New { class: String, args: Vec<Expr> },
    /// A container literal built through its construction protocol.
    ContainerLit { class: String, is_array: bool, elems: Vec<Expr> },
    /// `@buf_alloc(n)` with its element type resolved.
    BufAlloc { elem: Type, size: Box<Expr> },
    FieldAccess { recv: Box<Expr>, name: String },
    Index { recv: Box<Expr>, index: Box<Expr> },
    IntrinsicCall { name: String, args: Vec<Expr> },
    Binary { op: BinOp, lhs: Box<Expr>, rhs: Box<Expr> },
    Unary { op: UnOp, operand: Box<Expr> },
}

pub struct ExprV {
    pub kind: ExprKindV,
    pub line: u32,
    pub col: u32,
}

pub enum ExprKindV {
    Int(i64),
    Float(Seq<char>),
    Str(Seq<char>),
    CharLit(u8),
    Bool(bool),
    NoneLit,
    Ident(Seq<char>),
    This,
    ArrayLit(Seq<ExprV>),
    Call { name: Seq<char>, args: Seq<ExprV> },
    GenericCall { name: Seq<char>, type_args: Seq<TypeV>, args: Seq<ExprV> },
    MethodCall { recv: Box<ExprV>, name: Seq<char>, args: Seq<ExprV> },
    CoreMethodCall { class: Seq<char>, name: Seq<char>, recv: Box<ExprV>, args: Seq<ExprV> },
    OptWrap { payload: TypeV, expr: Box<ExprV> },
    OptUnwrap { payload: TypeV, expr: Box<ExprV> },
    OptNone { payload: TypeV },
    OptHas { payload: TypeV, expr: Box<ExprV> },
    New { class: Seq<char>, args: Seq<ExprV> },
    ContainerLit { class: Seq<char>, is_array: bool, elems: Seq<ExprV> },
    BufAlloc { elem: TypeV, size: Box<ExprV> },
    FieldAccess { recv: Box<ExprV>, name: Seq<char> },
    Index { recv: Box<ExprV>, index: Box<ExprV> },
    IntrinsicCall { name: Seq<char>, args: Seq<ExprV> },
    Binary { op: BinOp, lhs: Box<ExprV>, rhs: Box<ExprV> },
    Unary { op: UnOp, operand: Box<ExprV> },
}

pub open spec fn expr_v(e: Expr) -> ExprV
    decreases e,
{
    ExprV {
        kind: match e.kind {
            ExprKind::Int(v) => ExprKindV::Int(v),
            ExprKind::Float(t) => ExprKindV::Float(t@),
            ExprKind::Str(s) => ExprKindV::Str(s@),
            ExprKind::CharLit(c) => ExprKindV::CharLit(c),
            ExprKind::Bool(b) => ExprKindV::Bool(b),
            ExprKind::NoneLit => ExprKindV::NoneLit,
            ExprKind::Ident(n) => ExprKindV::Ident(n@),
            ExprKind::This => ExprKindV::This,
            ExprKind::ArrayLit(v) => ExprKindV::ArrayLit(exprs_v(v@)),
            ExprKind::Call { name, args } => ExprKindV::Call { name: name@, args: exprs_v(args@) },
            ExprKind::GenericCall { name, type_args, args } => ExprKindV::GenericCall {
                name: name@,
                type_args: types_v(type_args@),
                args: exprs_v(args@),
            },
            ExprKind::MethodCall { recv, name, args } => ExprKindV::MethodCall {
                recv: Box::new(expr_v(*recv)),
                name: name@,
                args: exprs_v(args@),
            },
            ExprKind::CoreMethodCall { class, name, recv, args } => ExprKindV::CoreMethodCall {
                class: class@,
                name: name@,
                recv: Box::new(expr_v(*recv)),
                args: exprs_v(args@),
            },
            ExprKind::OptWrap { payload, expr } => ExprKindV::OptWrap {
                payload: payload@,
                expr: Box::new(expr_v(*expr)),
            },
            ExprKind::OptUnwrap { payload, expr } => ExprKindV::OptUnwrap {
                payload: payload@,
                expr: Box::new(expr_v(*expr)),
            },
            ExprKind::OptNone { payload } => ExprKindV::OptNone { payload: payload@ },
            ExprKind::OptHas { payload, expr } => ExprKindV::OptHas {
                payload: payload@,
                expr: Box::new(expr_v(*expr)),
            },
            ExprKind::New { class, args } => ExprKindV::New { class: class@, args: exprs_v(args@) },
            ExprKind::ContainerLit { class, is_array, elems } => ExprKindV::ContainerLit {
                class: class@,
                is_array,
                elems: exprs_v(elems@),
            },
            ExprKind::BufAlloc { elem, size } => ExprKindV::BufAlloc {
                elem: elem@,
                size: Box::new(expr_v(*size)),
            },
            ExprKind::FieldAccess { recv, name } => ExprKindV::FieldAccess {
                recv: Box::new(expr_v(*recv)),
                name: name@,
            },
            ExprKind::Index { recv, index } => ExprKindV::Index {
                recv: Box::new(expr_v(*recv)),
                index: Box::new(expr_v(*index)),
            },
            ExprKind::IntrinsicCall { name, args } => ExprKindV::IntrinsicCall {
                name: name@,
                args: exprs_v(args@),
            },
            ExprKind::Binary { op, lhs, rhs } => ExprKindV::Binary {
                op,
                lhs: Box::new(expr_v(*lhs)),
                rhs: Box::new(expr_v(*rhs)),
            },
            ExprKind::Unary { op, operand } => ExprKindV::Unary {
                op,
                operand: Box::new(expr_v(*operand)),
            },
        },
        line: e.line,
        col: e.col,
    }
}

pub open spec fn exprs_v(s: Seq<Expr>) -> Seq<ExprV>
    decreases s,
{
    Seq::new(s.len(), |i: int| if 0 <= i < s.len() { expr_v(s[i]) } else { ExprV { kind: ExprKindV::NoneLit, line: 0, col: 0 } })
}

impl View for Expr {
    type V = ExprV;

    open spec fn view(&self) -> ExprV {
        expr_v(*self)
    }
}

#[derive(Debug)]
pub struct Block {
    pub stmts: Vec<Stmt>,
}

#[derive(Debug)]
pub struct Stmt {
    pub kind: StmtKind,
    pub line: u32,
    pub col: u32,
}

#[derive(Debug)]
pub enum StmtKind {
    VarDecl { is_const: bool, name: String, ty: Type, init: Expr },
    Assign { target: Expr, op: AssignOp, value: Expr },
    /// `x++;` / `x--;`: statements only, by design.
    IncDec { target: Expr, inc: bool },
    ExprStmt(Expr),
    Return(Option<Expr>),
    /// An `if` / `else if` chain: one (condition, block) per arm, plus an optional `else`.
    If { arms: Vec<(Expr, Block)>, else_block: Option<Block> },
    While { cond: Expr, body: Block },
    ForC { var_name: String, var_ty: Type, init: Expr, cond: Expr, step: Box<Stmt>, body: Block },
    ForIn { var_name: String, var_ty: Type, iterable: Expr, body: Block },
    Break,
    Continue,
    /// A bare `{ ... }` scope (made by type checking, never by the parser).
    Scope(Block),
    /// `try { ... } catch (e: Exception) { ... }`
    TryCatch { body: Block, var_name: String, var_ty: Type, catch_body: Block },
}

pub struct BlockV {
    pub stmts: Seq<StmtV>,
}

pub struct StmtV {
    pub kind: StmtKindV,
    pub line: u32,
    pub col: u32,
}

pub enum StmtKindV {
    VarDecl { is_const: bool, name: Seq<char>, ty: TypeV, init: ExprV },
    Assign { target: ExprV, op: AssignOp, value: ExprV },
    IncDec { target: ExprV, inc: bool },
    ExprStmt(ExprV),
    Return(Option<ExprV>),
    If { arms: Seq<(ExprV, BlockV)>, else_block: Option<BlockV> },
    While { cond: ExprV, body: BlockV },
    ForC { var_name: Seq<char>, var_ty: TypeV, init: ExprV, cond: ExprV, step: Box<StmtV>, body: BlockV },
    ForIn { var_name: Seq<char>, var_ty: TypeV, iterable: ExprV, body: BlockV },
    Break,
    Continue,
    Scope(BlockV),
    TryCatch { body: BlockV, var_name: Seq<char>, var_ty: TypeV, catch_body: BlockV },
}

pub open spec fn stmt_v(s: Stmt) -> StmtV
    decreases s,
{
    StmtV {
        kind: match s.kind {
            StmtKind::VarDecl { is_const, name, ty, init } => StmtKindV::VarDecl {
                is_const,
                name: name@,
                ty: ty@,
                init: init@,
            },
            StmtKind::Assign { target, op, value } => StmtKindV::Assign { target: target@, op, value: value@ },
            StmtKind::IncDec { target, inc } => StmtKindV::IncDec { target: target@, inc },
            StmtKind::ExprStmt(e) => StmtKindV::ExprStmt(e@),
            StmtKind::Return(v) => StmtKindV::Return(match v { Some(e) => Some(e@), None => None }),
            StmtKind::If { arms, else_block } => StmtKindV::If {
                arms: arms_v(arms@),
                else_block: match else_block { Some(b) => Some(block_v(b)), None => None },
            },
            StmtKind::While { cond, body } => StmtKindV::While { cond: cond@, body: block_v(body) },
            StmtKind::ForC { var_name, var_ty, init, cond, step, body } => StmtKindV::ForC {
                var_name: var_name@,
                var_ty: var_ty@,
                init: init@,
                cond: cond@,
                step: Box::new(stmt_v(*step)),
                body: block_v(body),
            },
            StmtKind::ForIn { var_name, var_ty, iterable, body } => StmtKindV::ForIn {
                var_name: var_name@,
                var_ty: var_ty@,
                iterable: iterable@,
                body: block_v(body),
            },
            StmtKind::Break => StmtKindV::Break,
            StmtKind::Continue => StmtKindV::Continue,
            StmtKind::Scope(b) => StmtKindV::Scope(block_v(b)),
            StmtKind::TryCatch { body, var_name, var_ty, catch_body } => StmtKindV::TryCatch {
                body: block_v(body),
                var_name: var_name@,
                var_ty: var_ty@,
                catch_body: block_v(catch_body),
            },
        },
        line: s.line,
        col: s.col,
    }
}

pub open spec fn block_v(b: Block) -> BlockV
    decreases b,
{
    BlockV { stmts: stmts_v(b.stmts@) }
}

pub open spec fn stmts_v(s: Seq<Stmt>) -> Seq<StmtV>
    decreases s,
{
    Seq::new(s.len(), |i: int| if 0 <= i < s.len() { stmt_v(s[i]) } else { StmtV { kind: StmtKindV::Break, line: 0, col: 0 } })
}

pub open spec fn arms_v(s: Seq<(Expr, Block)>) -> Seq<(ExprV, BlockV)>
    decreases s,
{
    Seq::new(s.len(), |i: int| if 0 <= i < s.len() { (s[i].0@, block_v(s[i].1)) } else { (ExprV { kind: ExprKindV::NoneLit, line: 0, col: 0 }, BlockV { stmts: Seq::empty() }) })
}

impl View for Stmt {
    type V = StmtV;

    open spec fn view(&self) -> StmtV {
        stmt_v(*self)
    }
}

impl View for Block {
    type V = BlockV;

    open spec fn view(&self) -> BlockV {
        block_v(*self)
    }
}

#[derive(Debug)]
pub struct FunctionDecl {
    pub name: String,
    /// `function max<C, T>(...)`: generic type parameters (empty for plain functions).
    pub type_params: Vec<String>,
    pub params: Vec<Param>,
    pub ret: Type,
    pub body: Block,
    /// Index into the driver's source-file table (for error rendering).
    pub file_idx: usize,
    /// True when this function came from a file under the std root.
    pub from_std: bool,
    pub line: u32,
    pub col: u32,
}

pub struct FunctionDeclV {
    pub name: Seq<char>,
    pub type_params: Seq<Seq<char>>,
    pub params: Seq<ParamV>,
    pub ret: TypeV,
    pub body: BlockV,
    pub file_idx: usize,
    pub from_std: bool,
    pub line: u32,
    pub col: u32,
}

impl View for FunctionDecl {
    type V = FunctionDeclV;

    open spec fn view(&self) -> FunctionDeclV {
        FunctionDeclV {
            name: self.name@,
            type_params: names_v(self.type_params@),
            params: params_v(self.params@),
            ret: self.ret@,
            body: self.body@,
            file_idx: self.file_idx,
            from_std: self.from_std,
            line: self.line,
            col: self.col,
        }
    }
}

#[derive(Debug)]
pub struct MethodDecl {
    pub is_public: bool,
    pub name: String,
    pub params: Vec<Param>,
    pub ret: Type,
    pub body: Block,
    pub line: u32,
    pub col: u32,
}

pub struct MethodDeclV {
    pub is_public: bool,
    pub name: Seq<char>,
    pub params: Seq<ParamV>,
    pub ret: TypeV,
    pub body: BlockV,
    pub line: u32,
    pub col: u32,
}

impl View for MethodDecl {
    type V = MethodDeclV;

    open spec fn view(&self) -> MethodDeclV {
        MethodDeclV {
            is_public: self.is_public,
            name: self.name@,
            params: params_v(self.params@),
            ret: self.ret@,
            body: self.body@,
            line: self.line,
            col: self.col,
        }
    }
}

#[derive(Debug)]
pub struct FieldDecl {
    pub is_public: bool,
    pub name: String,
    pub ty: Type,
    /// Field defaults are mandatory: every instance starts fully initialized.
    pub default: Expr,
    pub line: u32,
    pub col: u32,
}

pub struct FieldDeclV {
    pub is_public: bool,
    pub name: Seq<char>,
    pub ty: TypeV,
    pub default: ExprV,
    pub line: u32,
    pub col: u32,
}

impl View for FieldDecl {
    type V = FieldDeclV;

    open spec fn view(&self) -> FieldDeclV {
        FieldDeclV {
            is_public: self.is_public,
            name: self.name@,
            ty: self.ty@,
            default: self.default@,
            line: self.line,
            col: self.col,
        }
    }
}

#[derive(Debug)]
pub struct CtorDecl {
    pub params: Vec<Param>,
    pub body: Block,
    pub line: u32,
    pub col: u32,
}

pub struct CtorDeclV {
    pub params: Seq<ParamV>,
    pub body: BlockV,
    pub line: u32,
    pub col: u32,
}

impl View for CtorDecl {
    type V = CtorDeclV;

    open spec fn view(&self) -> CtorDeclV {
        CtorDeclV { params: params_v(self.params@), body: self.body@, line: self.line, col: self.col }
    }
}

#[derive(Debug)]
pub struct ClassDecl {
    pub name: String,
    /// `class Vector<T>`: the single type parameter (std Array/Vector only).
    pub type_param: Option<String>,
    pub fields: Vec<FieldDecl>,
    /// At most one (no overloading); `None` means the default constructor.
    pub ctor: Option<CtorDecl>,
    pub methods: Vec<MethodDecl>,
    pub file_idx: usize,
    pub from_std: bool,
    pub line: u32,
    pub col: u32,
}

pub struct ClassDeclV {
    pub name: Seq<char>,
    pub type_param: Option<Seq<char>>,
    pub fields: Seq<FieldDeclV>,
    pub ctor: Option<CtorDeclV>,
    pub methods: Seq<MethodDeclV>,
    pub file_idx: usize,
    pub from_std: bool,
    pub line: u32,
    pub col: u32,
}

pub open spec fn fields_v(s: Seq<FieldDecl>) -> Seq<FieldDeclV> {
    Seq::new(s.len(), |i: int| s[i]@)
}

pub open spec fn methods_v(s: Seq<MethodDecl>) -> Seq<MethodDeclV> {
    Seq::new(s.len(), |i: int| s[i]@)
}

impl View for ClassDecl {
    type V = ClassDeclV;

    open spec fn view(&self) -> ClassDeclV {
        ClassDeclV {
            name: self.name@,
            type_param: match self.type_param { Some(p) => Some(p@), None => None },
            fields: fields_v(self.fields@),
            ctor: match self.ctor { Some(c) => Some(c@), None => None },
            methods: methods_v(self.methods@),
            file_idx: self.file_idx,
            from_std: self.from_std,
            line: self.line,
            col: self.col,
        }
    }
}

/// One parsed source file, before modules are merged.
#[derive(Debug)]
pub struct Module {
    pub imports: Vec<Import>,
    pub functions: Vec<FunctionDecl>,
    pub classes: Vec<ClassDecl>,
}

pub struct ModuleV {
    pub imports: Seq<ImportV>,
    pub functions: Seq<FunctionDeclV>,
    pub classes: Seq<ClassDeclV>,
}

pub open spec fn imports_v(s: Seq<Import>) -> Seq<ImportV> {
    Seq::new(s.len(), |i: int| s[i]@)
}

pub open spec fn functions_v(s: Seq<FunctionDecl>) -> Seq<FunctionDeclV> {
    Seq::new(s.len(), |i: int| s[i]@)
}

pub open spec fn classes_v(s: Seq<ClassDecl>) -> Seq<ClassDeclV> {
    Seq::new(s.len(), |i: int| s[i]@)
}

impl View for Module {
    type V = ModuleV;

    open spec fn view(&self) -> ModuleV {
        ModuleV {
            imports: imports_v(self.imports@),
            functions: functions_v(self.functions@),
            classes: classes_v(self.classes@),
        }
    }
}

/// The whole program after all imported modules are merged.
#[derive(Debug)]
pub struct Program {
    pub functions: Vec<FunctionDecl>,
    pub classes: Vec<ClassDecl>,
}

pub struct ProgramV {
    pub functions: Seq<FunctionDeclV>,
    pub classes: Seq<ClassDeclV>,
}

impl View for Program {
    type V = ProgramV;

    open spec fn view(&self) -> ProgramV {
        ProgramV { functions: functions_v(self.functions@), classes: classes_v(self.classes@) }
    }
}

} // verus!

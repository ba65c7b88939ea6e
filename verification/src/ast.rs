//! A plain model of the ECMAScript syntax tree that the transforms read and
//! write.
//!
//! Nodes that no transform looks into are carried as `Opaque` handles: the
//! number names a node that the caller keeps aside and puts back unchanged.

use vstd::prelude::*;

verus! {

/// A byte range of the source text.
#[derive(Clone, Copy, Debug, PartialEq, Eq, Structural)]
pub struct Span {
    pub lo: u32,
    pub hi: u32,
}

/// The span of generated nodes.
pub open spec fn dummy_span() -> Span {
    Span { lo: 0, hi: 0 }
}

/// The span of generated nodes.
pub fn dummy_sp() -> (s: Span)
    ensures
        s == dummy_span(),
{
    Span { lo: 0, hi: 0 }
}

/// An identifier: its name, the syntax context that tells bindings of the
/// same name apart, and its span.
#[derive(Debug)]
pub struct Ident {
    pub sym: String,
    pub ctxt: u32,
    pub span: Span,
}

/// Literals. Numbers are carried by their source text.
#[derive(Debug)]
pub enum Lit {
    Str(String),
    Bool(bool),
    Null,
    Num(String),
    BigInt(String),
    Regex(String, String),
}

/// Binary operators.
#[derive(Clone, Copy, Debug, PartialEq, Eq, Structural)]
pub enum BinaryOp {
    EqEq,
    NotEq,
    EqEqEq,
    NotEqEq,
    Lt,
    LtEq,
    Gt,
    GtEq,
    LShift,
    RShift,
    ZeroFillRShift,
    Add,
    Sub,
    Mul,
    Div,
    Mod,
    BitOr,
    BitXor,
    BitAnd,
    LogicalOr,
    LogicalAnd,
    In,
    InstanceOf,
    Exp,
    NullishCoalescing,
}

/// Assignment operators.
#[derive(Clone, Copy, Debug, PartialEq, Eq, Structural)]
pub enum AssignOp {
    Assign,
    AddAssign,
    SubAssign,
    MulAssign,
    DivAssign,
    ModAssign,
    LShiftAssign,
    RShiftAssign,
    ZeroFillRShiftAssign,
    BitOrAssign,
    BitXorAssign,
    BitAndAssign,
    ExpAssign,
    AndAssign,
    OrAssign,
    NullishAssign,
}

/// Unary operators.
#[derive(Clone, Copy, Debug, PartialEq, Eq, Structural)]
pub enum UnaryOp {
    Minus,
    Plus,
    Bang,
    Tilde,
    TypeOf,
    Void,
    Delete,
}

/// The kinds of variable declaration.
#[derive(Clone, Copy, Debug, PartialEq, Eq, Structural)]
pub enum VarDeclKind {
    Var,
    Let,
    Const,
}

/// One piece of raw text of a template literal.
#[derive(Debug)]
pub struct TplElement {
    pub span: Span,
    pub tail: bool,
    pub cooked: Option<Vec<u8>>,
    pub raw: Vec<u8>,
}

/// A template literal: `quasis` around `exprs`, one more quasi than
/// expressions.
#[derive(Debug)]
pub struct Tpl {
    pub span: Span,
    pub exprs: Vec<Expr>,
    pub quasis: Vec<TplElement>,
}

/// The property part of a member expression.
#[derive(Debug)]
pub enum MemberProp {
    Ident(Ident),
    Computed(Box<Expr>),
    PrivateName(String),
}

/// `obj.prop`, `obj[prop]` or `obj.#prop`.
#[derive(Debug)]
pub struct MemberExpr {
    pub obj: Box<Expr>,
    pub prop: MemberProp,
}

/// The target of an assignment.
#[derive(Debug)]
pub enum AssignTarget {
    Ident(Ident),
    Member(MemberExpr),
    SuperProp(u64),
    Invalid,
    Opaque(u64),
}

/// A call argument, possibly spread.
#[derive(Debug)]
pub struct Arg {
    pub spread: bool,
    pub expr: Expr,
}

/// Property names of object literals and class members.
#[derive(Debug)]
pub enum PropName {
    Ident(String),
    Str(String),
    Opaque(u64),
}

/// Members of object literals.
#[derive(Debug)]
pub enum PropOrSpread {
    Spread(Expr),
    KeyValue(PropName, Expr),
    Opaque(u64),
}

/// Binding patterns.
#[derive(Debug)]
pub enum Pat {
    Ident(Ident),
    Assign(Box<Pat>, Box<Expr>),
    Opaque(u64),
}

/// A function: its span, parameters, body (absent for declarations
/// without one), and whether it is `async` and a generator.
#[derive(Debug)]
pub struct Function {
    pub span: Span,
    pub params: Vec<Pat>,
    pub body: Option<Vec<Stmt>>,
    pub is_async: bool,
    pub is_generator: bool,
}

/// The body of an arrow function.
#[derive(Debug)]
pub enum ArrowBody {
    Block(Vec<Stmt>),
    Expr(Box<Expr>),
}

/// An arrow function.
#[derive(Debug)]
pub struct ArrowExpr {
    pub span: Span,
    pub params: Vec<Pat>,
    pub body: ArrowBody,
    pub is_async: bool,
    pub is_generator: bool,
}

/// The base of an optional chain: `obj?.prop` or `callee?.(args)`.
#[derive(Debug)]
pub enum OptChainBase {
    Member(MemberExpr),
    Call(Box<Expr>, Vec<Arg>),
}

/// Expressions.
#[derive(Debug)]
pub enum Expr {
    This,
    Ident(Ident),
    Lit(Lit),
    Tpl(Tpl),
    TaggedTpl(Box<Expr>, Tpl),
    Bin(BinaryOp, Box<Expr>, Box<Expr>),
    Unary(UnaryOp, Box<Expr>),
    Assign(AssignOp, AssignTarget, Box<Expr>),
    Member(MemberExpr),
    SuperProp(u64),
    Call(Box<Expr>, Vec<Arg>),
    New(Box<Expr>, Vec<Arg>),
    Cond(Box<Expr>, Box<Expr>, Box<Expr>),
    Sequence(Vec<Expr>),
    /// An array literal of plain elements.
    Array(Span, Vec<Expr>),
    Paren(Box<Expr>),
    Object(Vec<PropOrSpread>),
    Fn(Option<Ident>, Function),
    Arrow(ArrowExpr),
    Await(Box<Expr>),
    Yield(Option<Box<Expr>>, bool),
    OptChain(OptChainBase),
    Invalid,
    Opaque(u64),
}

/// One declarator of a variable declaration.
#[derive(Debug)]
pub struct VarDeclarator {
    pub name: Pat,
    pub init: Option<Box<Expr>>,
}

/// `var`, `let` or `const` declarations.
#[derive(Debug)]
pub struct VarDecl {
    pub span: Span,
    pub kind: VarDeclKind,
    pub decls: Vec<VarDeclarator>,
}

/// `using` and `await using` declarations.
#[derive(Debug)]
pub struct UsingDecl {
    pub span: Span,
    pub is_await: bool,
    pub decls: Vec<VarDeclarator>,
}

/// The key of a class accessor: a private name or a property name.
#[derive(Debug)]
pub enum Key {
    Private(String),
    Public(PropName),
}

/// A private class property `#key = value`; `rest` names its other parts
/// (type annotation, decorators, modifiers), kept aside, and is `None` for
/// a property that has none of them.
#[derive(Debug)]
pub struct PrivateProp {
    pub span: Span,
    pub key: String,
    pub value: Option<Box<Expr>>,
    pub is_static: bool,
    pub rest: Option<u64>,
}

/// Members of a class body. Of methods, properties and accessors only the
/// key is modelled; the rest is kept aside under the handle.
#[derive(Debug)]
pub enum ClassMember {
    StaticBlock(Span, Vec<Stmt>),
    Method(PropName, u64),
    PrivateMethod(String, u64),
    ClassProp(PropName, u64),
    PrivateProp(PrivateProp),
    AutoAccessor(Key, u64),
    /// A constructor, an index signature or an empty member.
    Other(u64),
}

/// A class: its span, its members, and the rest (super class, decorators,
/// type parameters) kept aside.
#[derive(Debug)]
pub struct Class {
    pub span: Span,
    pub body: Vec<ClassMember>,
    pub rest: u64,
}

/// Declarations.
#[derive(Debug)]
pub enum Decl {
    Var(VarDecl),
    Using(UsingDecl),
    Fn(Ident, Function),
    Class(Ident, Class),
    Opaque(Span, u64),
}

/// A `case` (or `default`, without a test) of a `switch` statement.
#[derive(Debug)]
pub struct SwitchCase {
    pub test: Option<Box<Expr>>,
    pub cons: Vec<Stmt>,
}

/// The left-hand side of a `for .. of` loop.
#[derive(Debug)]
pub enum ForHead {
    VarDecl(VarDecl),
    UsingDecl(UsingDecl),
    Pat(Pat),
}

/// `for (left of right) body`, or `for await` when `is_await`.
#[derive(Debug)]
pub struct ForOfStmt {
    pub span: Span,
    pub is_await: bool,
    pub left: ForHead,
    pub right: Box<Expr>,
    pub body: Box<Stmt>,
}

/// A `catch` clause.
#[derive(Debug)]
pub struct CatchClause {
    pub param: Option<Pat>,
    pub body: Vec<Stmt>,
}

/// Statements.
#[derive(Debug)]
pub enum Stmt {
    Expr(Span, Box<Expr>),
    Block(Span, Vec<Stmt>),
    Empty(Span),
    Return(Span, Option<Box<Expr>>),
    Decl(Decl),
    Try(Span, Vec<Stmt>, Option<CatchClause>, Option<Vec<Stmt>>),
    Switch(Span, Box<Expr>, Vec<SwitchCase>),
    ForOf(ForOfStmt),
    Opaque(Span, u64),
}

/// A specifier of an `import` declaration.
#[derive(Debug)]
pub enum ImportSpecifier {
    Named(Ident, Option<ModuleExportName>),
    Default(Ident),
    Namespace(Ident),
}

/// An `import` declaration.
#[derive(Debug)]
pub struct ImportDecl {
    pub specifiers: Vec<ImportSpecifier>,
    pub src: String,
    pub type_only: bool,
    pub with: Option<u64>,
}

/// A name in an `import` or `export` specifier: an identifier or a string.
#[derive(Debug)]
pub enum ModuleExportName {
    Ident(Ident),
    Str(String),
}

/// A specifier of an `export { .. }` or `export * as ns` declaration.
#[derive(Debug)]
pub enum ExportSpecifier {
    Namespace(ModuleExportName),
    Named(ModuleExportName, Option<ModuleExportName>),
    Default(Ident),
}

/// `export { .. } from "src"`, `export * as ns from "src"` and
/// `export { .. }`; `with` names the import attributes, kept aside.
#[derive(Debug)]
pub struct NamedExport {
    pub specifiers: Vec<ExportSpecifier>,
    pub src: Option<String>,
    pub type_only: bool,
    pub with: Option<u64>,
}

/// What `export default` declares: a class or a function, named or not,
/// or a TypeScript interface, kept aside.
#[derive(Debug)]
pub enum DefaultDecl {
    Class(Option<Ident>, Class),
    Fn(Option<Ident>, Function),
    TsInterface(u64),
}

/// Module-level declarations.
#[derive(Debug)]
pub enum ModuleDecl {
    Import(ImportDecl),
    ExportAll(u64),
    ExportNamed(NamedExport),
    ExportDecl(Decl),
    ExportDefaultDecl(DefaultDecl),
    Opaque(u64),
}

/// Items of a module body.
#[derive(Debug)]
pub enum ModuleItem {
    ModuleDecl(ModuleDecl),
    Stmt(Stmt),
}

/// A whole program.
#[derive(Debug)]
pub enum Program {
    Module(Vec<ModuleItem>),
    Script(Vec<Stmt>),
}

} // verus!

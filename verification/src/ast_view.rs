//! Mathematical views of the syntax-tree model: strings become `Seq<char>`,
//! byte strings `Seq<u8>` and vectors `Seq`s of views, so that two trees are
//! equal exactly when their views are.

use vstd::prelude::*;

use crate::ast::{
    Arg, ArrowBody, ArrowExpr, AssignOp, AssignTarget, BinaryOp, Class, ClassMember, Decl,
    DefaultDecl, ExportSpecifier, Expr, ForHead, ForOfStmt, Function, Ident, ImportDecl,
    ImportSpecifier, Key, Lit, MemberExpr, MemberProp, ModuleDecl, ModuleExportName, ModuleItem,
    NamedExport, OptChainBase, Pat, PrivateProp, PropName, PropOrSpread, Span, Stmt, SwitchCase,
    Tpl, TplElement, UnaryOp, VarDeclKind, VarDeclarator,
};

verus! {

pub struct IdentV {
    pub sym: Seq<char>,
    pub ctxt: u32,
    pub span: Span,
}

pub enum LitV {
    Str(Seq<char>),
    Bool(bool),
    Null,
    Num(Seq<char>),
    BigInt(Seq<char>),
    Regex(Seq<char>, Seq<char>),
}

pub struct TplElementV {
    pub span: Span,
    pub tail: bool,
    pub cooked: Option<Seq<u8>>,
    pub raw: Seq<u8>,
}

pub struct TplV {
    pub span: Span,
    pub exprs: Seq<ExprV>,
    pub quasis: Seq<TplElementV>,
}

pub enum MemberPropV {
    Ident(IdentV),
    Computed(Box<ExprV>),
    PrivateName(Seq<char>),
}

pub struct MemberExprV {
    pub obj: Box<ExprV>,
    pub prop: MemberPropV,
}

pub enum AssignTargetV {
    Ident(IdentV),
    Member(MemberExprV),
    SuperProp(u64),
    Invalid,
    Opaque(u64),
}

pub struct ArgV {
    pub spread: bool,
    pub expr: ExprV,
}

pub enum PropNameV {
    Ident(Seq<char>),
    Str(Seq<char>),
    Opaque(u64),
}

pub enum PropOrSpreadV {
    Spread(ExprV),
    KeyValue(PropNameV, ExprV),
    Opaque(u64),
}

pub enum PatV {
    Ident(IdentV),
    Assign(Box<PatV>, Box<ExprV>),
    Opaque(u64),
}

pub struct FunctionV {
    pub span: Span,
    pub params: Seq<PatV>,
    pub body: Option<Seq<StmtV>>,
    pub is_async: bool,
    pub is_generator: bool,
}

pub enum ArrowBodyV {
    Block(Seq<StmtV>),
    Expr(Box<ExprV>),
}

pub struct ArrowExprV {
    pub span: Span,
    pub params: Seq<PatV>,
    pub body: ArrowBodyV,
    pub is_async: bool,
    pub is_generator: bool,
}

pub enum OptChainBaseV {
    Member(MemberExprV),
    Call(Box<ExprV>, Seq<ArgV>),
}

pub enum ExprV {
    This,
    Ident(IdentV),
    Lit(LitV),
    Tpl(TplV),
    TaggedTpl(Box<ExprV>, TplV),
    Bin(BinaryOp, Box<ExprV>, Box<ExprV>),
    Unary(UnaryOp, Box<ExprV>),
    Assign(AssignOp, AssignTargetV, Box<ExprV>),
    Member(MemberExprV),
    SuperProp(u64),
    Call(Box<ExprV>, Seq<ArgV>),
    New(Box<ExprV>, Seq<ArgV>),
    Cond(Box<ExprV>, Box<ExprV>, Box<ExprV>),
    Sequence(Seq<ExprV>),
    Array(Span, Seq<ExprV>),
    Paren(Box<ExprV>),
    Object(Seq<PropOrSpreadV>),
    Fn(Option<IdentV>, FunctionV),
    Arrow(ArrowExprV),
    Await(Box<ExprV>),
    Yield(Option<Box<ExprV>>, bool),
    OptChain(OptChainBaseV),
    Invalid,
    Opaque(u64),
}

pub struct VarDeclaratorV {
    pub name: PatV,
    pub init: Option<Box<ExprV>>,
}

pub struct VarDeclV {
    pub span: Span,
    pub kind: VarDeclKind,
    pub decls: Seq<VarDeclaratorV>,
}

pub struct UsingDeclV {
    pub span: Span,
    pub is_await: bool,
    pub decls: Seq<VarDeclaratorV>,
}

pub enum KeyV {
    Private(Seq<char>),
    Public(PropNameV),
}

pub struct PrivatePropV {
    pub span: Span,
    pub key: Seq<char>,
    pub value: Option<Box<ExprV>>,
    pub is_static: bool,
    pub rest: Option<u64>,
}

pub enum ClassMemberV {
    StaticBlock(Span, Seq<StmtV>),
    Method(PropNameV, u64),
    PrivateMethod(Seq<char>, u64),
    ClassProp(PropNameV, u64),
    PrivateProp(PrivatePropV),
    AutoAccessor(KeyV, u64),
    Other(u64),
}

pub struct ClassV {
    pub span: Span,
    pub body: Seq<ClassMemberV>,
    pub rest: u64,
}

pub enum DeclV {
    Var(VarDeclV),
    Using(UsingDeclV),
    Fn(IdentV, FunctionV),
    Class(IdentV, ClassV),
    Opaque(Span, u64),
}

pub struct SwitchCaseV {
    pub test: Option<Box<ExprV>>,
    pub cons: Seq<StmtV>,
}

pub enum ForHeadV {
    VarDecl(VarDeclV),
    UsingDecl(UsingDeclV),
    Pat(PatV),
}

pub struct ForOfStmtV {
    pub span: Span,
    pub is_await: bool,
    pub left: ForHeadV,
    pub right: Box<ExprV>,
    pub body: Box<StmtV>,
}

pub struct CatchClauseV {
    pub param: Option<PatV>,
    pub body: Seq<StmtV>,
}

pub enum StmtV {
    Expr(Span, Box<ExprV>),
    Block(Span, Seq<StmtV>),
    Empty(Span),
    Return(Span, Option<Box<ExprV>>),
    Decl(DeclV),
    Try(Span, Seq<StmtV>, Option<CatchClauseV>, Option<Seq<StmtV>>),
    Switch(Span, Box<ExprV>, Seq<SwitchCaseV>),
    ForOf(ForOfStmtV),
    Opaque(Span, u64),
}

pub enum ModuleExportNameV {
    Ident(IdentV),
    Str(Seq<char>),
}

pub enum ImportSpecifierV {
    Named(IdentV, Option<ModuleExportNameV>),
    Default(IdentV),
    Namespace(IdentV),
}

pub struct ImportDeclV {
    pub specifiers: Seq<ImportSpecifierV>,
    pub src: Seq<char>,
    pub type_only: bool,
    pub with: Option<u64>,
}

pub enum ExportSpecifierV {
    Namespace(ModuleExportNameV),
    Named(ModuleExportNameV, Option<ModuleExportNameV>),
    Default(IdentV),
}

pub struct NamedExportV {
    pub specifiers: Seq<ExportSpecifierV>,
    pub src: Option<Seq<char>>,
    pub type_only: bool,
    pub with: Option<u64>,
}

pub enum DefaultDeclV {
    Class(Option<IdentV>, ClassV),
    Fn(Option<IdentV>, FunctionV),
    TsInterface(u64),
}

pub enum ModuleDeclV {
    Import(ImportDeclV),
    ExportAll(u64),
    ExportNamed(NamedExportV),
    ExportDecl(DeclV),
    ExportDefaultDecl(DefaultDeclV),
    Opaque(u64),
}

pub enum ModuleItemV {
    ModuleDecl(ModuleDeclV),
    Stmt(StmtV),
}

// ---------------------------------------------------------------------------
// Views of the leaves.

pub open spec fn ident_v(i: Ident) -> IdentV {
    IdentV { sym: i.sym@, ctxt: i.ctxt, span: i.span }
}

pub open spec fn lit_v(l: Lit) -> LitV {
    match l {
        Lit::Str(s) => LitV::Str(s@),
        Lit::Bool(b) => LitV::Bool(b),
        Lit::Null => LitV::Null,
        Lit::Num(s) => LitV::Num(s@),
        Lit::BigInt(s) => LitV::BigInt(s@),
        Lit::Regex(e, f) => LitV::Regex(e@, f@),
    }
}

pub open spec fn opt_bytes_v(o: Option<Vec<u8>>) -> Option<Seq<u8>> {
    match o {
        Some(v) => Some(v@),
        None => None,
    }
}

pub open spec fn tpl_element_v(q: TplElement) -> TplElementV {
    TplElementV { span: q.span, tail: q.tail, cooked: opt_bytes_v(q.cooked), raw: q.raw@ }
}

pub open spec fn quasis_v(s: Seq<TplElement>) -> Seq<TplElementV> {
    s.map_values(|q: TplElement| tpl_element_v(q))
}

pub open spec fn prop_name_v(p: PropName) -> PropNameV {
    match p {
        PropName::Ident(s) => PropNameV::Ident(s@),
        PropName::Str(s) => PropNameV::Str(s@),
        PropName::Opaque(h) => PropNameV::Opaque(h),
    }
}

pub open spec fn opt_ident_v(o: Option<Ident>) -> Option<IdentV> {
    match o {
        Some(i) => Some(ident_v(i)),
        None => None,
    }
}

// ---------------------------------------------------------------------------
// Views of the recursive part of the tree.

pub open spec fn expr_v(e: Expr) -> ExprV
    decreases e,
{
    match e {
        Expr::This => ExprV::This,
        Expr::Ident(i) => ExprV::Ident(ident_v(i)),
        Expr::Lit(l) => ExprV::Lit(lit_v(l)),
        Expr::Tpl(t) => ExprV::Tpl(tpl_v(t)),
        Expr::TaggedTpl(tag, t) => ExprV::TaggedTpl(Box::new(expr_v(*tag)), tpl_v(t)),
        Expr::Bin(op, l, r) => ExprV::Bin(op, Box::new(expr_v(*l)), Box::new(expr_v(*r))),
        Expr::Unary(op, a) => ExprV::Unary(op, Box::new(expr_v(*a))),
        Expr::Assign(op, t, r) => ExprV::Assign(op, assign_target_v(t), Box::new(expr_v(*r))),
        Expr::Member(m) => ExprV::Member(member_v(m)),
        Expr::SuperProp(h) => ExprV::SuperProp(h),
        Expr::Call(c, a) => ExprV::Call(Box::new(expr_v(*c)), args_v(a@)),
        Expr::New(c, a) => ExprV::New(Box::new(expr_v(*c)), args_v(a@)),
        Expr::Cond(t, c, a) => ExprV::Cond(
            Box::new(expr_v(*t)),
            Box::new(expr_v(*c)),
            Box::new(expr_v(*a)),
        ),
        Expr::Sequence(es) => ExprV::Sequence(exprs_v(es@)),
        Expr::Array(sp, es) => ExprV::Array(sp, exprs_v(es@)),
        Expr::Paren(a) => ExprV::Paren(Box::new(expr_v(*a))),
        Expr::Object(ps) => ExprV::Object(props_v(ps@)),
        Expr::Fn(id, f) => ExprV::Fn(opt_ident_v(id), function_v(f)),
        Expr::Arrow(a) => ExprV::Arrow(arrow_v(a)),
        Expr::Await(a) => ExprV::Await(Box::new(expr_v(*a))),
        Expr::Yield(a, d) => ExprV::Yield(
            match a {
                Some(x) => Some(Box::new(expr_v(*x))),
                None => None,
            },
            d,
        ),
        Expr::OptChain(b) => ExprV::OptChain(opt_chain_v(b)),
        Expr::Invalid => ExprV::Invalid,
        Expr::Opaque(h) => ExprV::Opaque(h),
    }
}

pub open spec fn tpl_v(t: Tpl) -> TplV
    decreases t,
{
    TplV { span: t.span, exprs: exprs_v(t.exprs@), quasis: quasis_v(t.quasis@) }
}

pub open spec fn member_prop_v(p: MemberProp) -> MemberPropV
    decreases p,
{
    match p {
        MemberProp::Ident(i) => MemberPropV::Ident(ident_v(i)),
        MemberProp::Computed(e) => MemberPropV::Computed(Box::new(expr_v(*e))),
        MemberProp::PrivateName(n) => MemberPropV::PrivateName(n@),
    }
}

pub open spec fn member_v(m: MemberExpr) -> MemberExprV
    decreases m,
{
    MemberExprV { obj: Box::new(expr_v(*m.obj)), prop: member_prop_v(m.prop) }
}

pub open spec fn assign_target_v(t: AssignTarget) -> AssignTargetV
    decreases t,
{
    match t {
        AssignTarget::Ident(i) => AssignTargetV::Ident(ident_v(i)),
        AssignTarget::Member(m) => AssignTargetV::Member(member_v(m)),
        AssignTarget::SuperProp(h) => AssignTargetV::SuperProp(h),
        AssignTarget::Invalid => AssignTargetV::Invalid,
        AssignTarget::Opaque(h) => AssignTargetV::Opaque(h),
    }
}

pub open spec fn arg_v(a: Arg) -> ArgV
    decreases a,
{
    ArgV { spread: a.spread, expr: expr_v(a.expr) }
}

pub open spec fn prop_v(p: PropOrSpread) -> PropOrSpreadV
    decreases p,
{
    match p {
        PropOrSpread::Spread(e) => PropOrSpreadV::Spread(expr_v(e)),
        PropOrSpread::KeyValue(k, e) => PropOrSpreadV::KeyValue(prop_name_v(k), expr_v(e)),
        PropOrSpread::Opaque(h) => PropOrSpreadV::Opaque(h),
    }
}

pub open spec fn pat_v(p: Pat) -> PatV
    decreases p,
{
    match p {
        Pat::Ident(i) => PatV::Ident(ident_v(i)),
        Pat::Assign(l, r) => PatV::Assign(Box::new(pat_v(*l)), Box::new(expr_v(*r))),
        Pat::Opaque(h) => PatV::Opaque(h),
    }
}

pub open spec fn function_v(f: Function) -> FunctionV
    decreases f,
{
    FunctionV {
        span: f.span,
        params: pats_v(f.params@),
        body: match f.body {
            Some(b) => Some(stmts_v(b@)),
            None => None,
        },
        is_async: f.is_async,
        is_generator: f.is_generator,
    }
}

pub open spec fn arrow_v(a: ArrowExpr) -> ArrowExprV
    decreases a,
{
    ArrowExprV {
        span: a.span,
        params: pats_v(a.params@),
        body: match a.body {
            ArrowBody::Block(b) => ArrowBodyV::Block(stmts_v(b@)),
            ArrowBody::Expr(e) => ArrowBodyV::Expr(Box::new(expr_v(*e))),
        },
        is_async: a.is_async,
        is_generator: a.is_generator,
    }
}

pub open spec fn opt_chain_v(b: OptChainBase) -> OptChainBaseV
    decreases b,
{
    match b {
        OptChainBase::Member(m) => OptChainBaseV::Member(member_v(m)),
        OptChainBase::Call(c, a) => OptChainBaseV::Call(Box::new(expr_v(*c)), args_v(a@)),
    }
}

pub open spec fn declarator_v(d: VarDeclarator) -> VarDeclaratorV
    decreases d,
{
    VarDeclaratorV {
        name: pat_v(d.name),
        init: match d.init {
            Some(e) => Some(Box::new(expr_v(*e))),
            None => None,
        },
    }
}

pub open spec fn key_v(k: Key) -> KeyV {
    match k {
        Key::Private(n) => KeyV::Private(n@),
        Key::Public(p) => KeyV::Public(prop_name_v(p)),
    }
}

pub open spec fn private_prop_v(p: PrivateProp) -> PrivatePropV
    decreases p,
{
    PrivatePropV {
        span: p.span,
        key: p.key@,
        value: match p.value {
            Some(e) => Some(Box::new(expr_v(*e))),
            None => None,
        },
        is_static: p.is_static,
        rest: p.rest,
    }
}

pub open spec fn class_member_v(m: ClassMember) -> ClassMemberV
    decreases m,
{
    match m {
        ClassMember::StaticBlock(sp, b) => ClassMemberV::StaticBlock(sp, stmts_v(b@)),
        ClassMember::Method(k, h) => ClassMemberV::Method(prop_name_v(k), h),
        ClassMember::PrivateMethod(k, h) => ClassMemberV::PrivateMethod(k@, h),
        ClassMember::ClassProp(k, h) => ClassMemberV::ClassProp(prop_name_v(k), h),
        ClassMember::PrivateProp(p) => ClassMemberV::PrivateProp(private_prop_v(p)),
        ClassMember::AutoAccessor(k, h) => ClassMemberV::AutoAccessor(key_v(k), h),
        ClassMember::Other(h) => ClassMemberV::Other(h),
    }
}

pub open spec fn class_v(c: Class) -> ClassV
    decreases c,
{
    ClassV { span: c.span, body: members_v(c.body@), rest: c.rest }
}

pub open spec fn decl_v(d: Decl) -> DeclV
    decreases d,
{
    match d {
        Decl::Var(v) => DeclV::Var(
            VarDeclV { span: v.span, kind: v.kind, decls: declarators_v(v.decls@) },
        ),
        Decl::Using(u) => DeclV::Using(
            UsingDeclV { span: u.span, is_await: u.is_await, decls: declarators_v(u.decls@) },
        ),
        Decl::Fn(i, f) => DeclV::Fn(ident_v(i), function_v(f)),
        Decl::Class(i, c) => DeclV::Class(ident_v(i), class_v(c)),
        Decl::Opaque(s, h) => DeclV::Opaque(s, h),
    }
}

pub open spec fn switch_case_v(c: SwitchCase) -> SwitchCaseV
    decreases c,
{
    SwitchCaseV {
        test: match c.test {
            Some(e) => Some(Box::new(expr_v(*e))),
            None => None,
        },
        cons: stmts_v(c.cons@),
    }
}

pub open spec fn for_head_v(h: ForHead) -> ForHeadV
    decreases h,
{
    match h {
        ForHead::VarDecl(v) => ForHeadV::VarDecl(
            VarDeclV { span: v.span, kind: v.kind, decls: declarators_v(v.decls@) },
        ),
        ForHead::UsingDecl(u) => ForHeadV::UsingDecl(
            UsingDeclV { span: u.span, is_await: u.is_await, decls: declarators_v(u.decls@) },
        ),
        ForHead::Pat(p) => ForHeadV::Pat(pat_v(p)),
    }
}

pub open spec fn for_of_v(f: ForOfStmt) -> ForOfStmtV
    decreases f,
{
    ForOfStmtV {
        span: f.span,
        is_await: f.is_await,
        left: for_head_v(f.left),
        right: Box::new(expr_v(*f.right)),
        body: Box::new(stmt_v(*f.body)),
    }
}

pub open spec fn stmt_v(s: Stmt) -> StmtV
    decreases s,
{
    match s {
        Stmt::Expr(sp, e) => StmtV::Expr(sp, Box::new(expr_v(*e))),
        Stmt::Block(sp, b) => StmtV::Block(sp, stmts_v(b@)),
        Stmt::Empty(sp) => StmtV::Empty(sp),
        Stmt::Return(sp, a) => StmtV::Return(
            sp,
            match a {
                Some(e) => Some(Box::new(expr_v(*e))),
                None => None,
            },
        ),
        Stmt::Decl(d) => StmtV::Decl(decl_v(d)),
        Stmt::Try(sp, b, h, f) => StmtV::Try(
            sp,
            stmts_v(b@),
            match h {
                Some(c) => Some(
                    CatchClauseV {
                        param: match c.param {
                            Some(p) => Some(pat_v(p)),
                            None => None,
                        },
                        body: stmts_v(c.body@),
                    },
                ),
                None => None,
            },
            match f {
                Some(fb) => Some(stmts_v(fb@)),
                None => None,
            },
        ),
        Stmt::Switch(sp, d, cs) => StmtV::Switch(sp, Box::new(expr_v(*d)), cases_v(cs@)),
        Stmt::ForOf(f) => StmtV::ForOf(for_of_v(f)),
        Stmt::Opaque(sp, h) => StmtV::Opaque(sp, h),
    }
}

pub open spec fn exprs_v(s: Seq<Expr>) -> Seq<ExprV>
    decreases s,
{
    if s.len() == 0 {
        Seq::empty()
    } else {
        exprs_v(s.subrange(0, s.len() - 1)).push(expr_v(s[s.len() - 1]))
    }
}

pub open spec fn args_v(s: Seq<Arg>) -> Seq<ArgV>
    decreases s,
{
    if s.len() == 0 {
        Seq::empty()
    } else {
        args_v(s.subrange(0, s.len() - 1)).push(arg_v(s[s.len() - 1]))
    }
}

pub open spec fn props_v(s: Seq<PropOrSpread>) -> Seq<PropOrSpreadV>
    decreases s,
{
    if s.len() == 0 {
        Seq::empty()
    } else {
        props_v(s.subrange(0, s.len() - 1)).push(prop_v(s[s.len() - 1]))
    }
}

pub open spec fn pats_v(s: Seq<Pat>) -> Seq<PatV>
    decreases s,
{
    if s.len() == 0 {
        Seq::empty()
    } else {
        pats_v(s.subrange(0, s.len() - 1)).push(pat_v(s[s.len() - 1]))
    }
}

pub open spec fn stmts_v(s: Seq<Stmt>) -> Seq<StmtV>
    decreases s,
{
    if s.len() == 0 {
        Seq::empty()
    } else {
        stmts_v(s.subrange(0, s.len() - 1)).push(stmt_v(s[s.len() - 1]))
    }
}

pub open spec fn declarators_v(s: Seq<VarDeclarator>) -> Seq<VarDeclaratorV>
    decreases s,
{
    if s.len() == 0 {
        Seq::empty()
    } else {
        declarators_v(s.subrange(0, s.len() - 1)).push(declarator_v(s[s.len() - 1]))
    }
}

pub open spec fn cases_v(s: Seq<SwitchCase>) -> Seq<SwitchCaseV>
    decreases s,
{
    if s.len() == 0 {
        Seq::empty()
    } else {
        cases_v(s.subrange(0, s.len() - 1)).push(switch_case_v(s[s.len() - 1]))
    }
}

pub open spec fn members_v(s: Seq<ClassMember>) -> Seq<ClassMemberV>
    decreases s,
{
    if s.len() == 0 {
        Seq::empty()
    } else {
        members_v(s.subrange(0, s.len() - 1)).push(class_member_v(s[s.len() - 1]))
    }
}

// ---------------------------------------------------------------------------
// Module level.

pub open spec fn module_export_name_v(n: ModuleExportName) -> ModuleExportNameV {
    match n {
        ModuleExportName::Ident(i) => ModuleExportNameV::Ident(ident_v(i)),
        ModuleExportName::Str(s) => ModuleExportNameV::Str(s@),
    }
}

pub open spec fn opt_name_v(n: Option<ModuleExportName>) -> Option<ModuleExportNameV> {
    match n {
        Some(x) => Some(module_export_name_v(x)),
        None => None,
    }
}

pub open spec fn import_specifier_v(s: ImportSpecifier) -> ImportSpecifierV {
    match s {
        ImportSpecifier::Named(l, i) => ImportSpecifierV::Named(ident_v(l), opt_name_v(i)),
        ImportSpecifier::Default(l) => ImportSpecifierV::Default(ident_v(l)),
        ImportSpecifier::Namespace(l) => ImportSpecifierV::Namespace(ident_v(l)),
    }
}

pub open spec fn import_decl_v(d: ImportDecl) -> ImportDeclV {
    ImportDeclV {
        specifiers: d.specifiers@.map_values(|s: ImportSpecifier| import_specifier_v(s)),
        src: d.src@,
        type_only: d.type_only,
        with: d.with,
    }
}

pub open spec fn export_specifier_v(s: ExportSpecifier) -> ExportSpecifierV {
    match s {
        ExportSpecifier::Namespace(n) => ExportSpecifierV::Namespace(module_export_name_v(n)),
        ExportSpecifier::Named(o, e) => ExportSpecifierV::Named(
            module_export_name_v(o),
            opt_name_v(e),
        ),
        ExportSpecifier::Default(i) => ExportSpecifierV::Default(ident_v(i)),
    }
}

pub open spec fn named_export_v(n: NamedExport) -> NamedExportV {
    NamedExportV {
        specifiers: n.specifiers@.map_values(|s: ExportSpecifier| export_specifier_v(s)),
        src: match n.src {
            Some(s) => Some(s@),
            None => None,
        },
        type_only: n.type_only,
        with: n.with,
    }
}

pub open spec fn default_decl_v(d: DefaultDecl) -> DefaultDeclV {
    match d {
        DefaultDecl::Class(i, c) => DefaultDeclV::Class(opt_ident_v(i), class_v(c)),
        DefaultDecl::Fn(i, f) => DefaultDeclV::Fn(opt_ident_v(i), function_v(f)),
        DefaultDecl::TsInterface(h) => DefaultDeclV::TsInterface(h),
    }
}

pub open spec fn module_decl_v(d: ModuleDecl) -> ModuleDeclV {
    match d {
        ModuleDecl::Import(i) => ModuleDeclV::Import(import_decl_v(i)),
        ModuleDecl::ExportAll(h) => ModuleDeclV::ExportAll(h),
        ModuleDecl::ExportNamed(n) => ModuleDeclV::ExportNamed(named_export_v(n)),
        ModuleDecl::ExportDecl(d) => ModuleDeclV::ExportDecl(decl_v(d)),
        ModuleDecl::ExportDefaultDecl(d) => ModuleDeclV::ExportDefaultDecl(default_decl_v(d)),
        ModuleDecl::Opaque(h) => ModuleDeclV::Opaque(h),
    }
}

pub open spec fn module_item_v(i: ModuleItem) -> ModuleItemV {
    match i {
        ModuleItem::ModuleDecl(d) => ModuleItemV::ModuleDecl(module_decl_v(d)),
        ModuleItem::Stmt(s) => ModuleItemV::Stmt(stmt_v(s)),
    }
}

pub open spec fn module_items_v(s: Seq<ModuleItem>) -> Seq<ModuleItemV> {
    s.map_values(|i: ModuleItem| module_item_v(i))
}

pub proof fn lemma_stmts_v_push(s: Seq<Stmt>, x: Stmt)
    ensures
        stmts_v(s.push(x)) == stmts_v(s).push(stmt_v(x)),
        stmts_v(Seq::<Stmt>::empty()) == Seq::<StmtV>::empty(),
{
    assert(s.push(x).subrange(0, s.len() as int) =~= s);
    assert(stmts_v(Seq::<Stmt>::empty()) =~= Seq::<StmtV>::empty());
}

pub proof fn lemma_pats_v_push(s: Seq<Pat>, x: Pat)
    ensures
        pats_v(s.push(x)) == pats_v(s).push(pat_v(x)),
        pats_v(Seq::<Pat>::empty()) == Seq::<PatV>::empty(),
{
    assert(s.push(x).subrange(0, s.len() as int) =~= s);
    assert(pats_v(Seq::<Pat>::empty()) =~= Seq::<PatV>::empty());
}

pub proof fn lemma_declarators_v_push(s: Seq<VarDeclarator>, x: VarDeclarator)
    ensures
        declarators_v(s.push(x)) == declarators_v(s).push(declarator_v(x)),
        declarators_v(Seq::<VarDeclarator>::empty()) == Seq::<VarDeclaratorV>::empty(),
{
    assert(s.push(x).subrange(0, s.len() as int) =~= s);
    assert(declarators_v(Seq::<VarDeclarator>::empty()) =~= Seq::<VarDeclaratorV>::empty());
}

/// An expression's view is an identifier exactly when the expression is.
pub proof fn lemma_expr_v_ident(e: Expr)
    ensures
        (expr_v(e) is Ident) == (e is Ident),
        (expr_v(e) is This) == (e is This),
        (expr_v(e) is OptChain) == (e is OptChain),
        (expr_v(e) is Lit) == (e is Lit),
{
    match e {
        Expr::Ident(_) => {},
        _ => {},
    }
}

// ---------------------------------------------------------------------------
// The sequence views are taken element by element.

pub proof fn lemma_exprs_v(s: Seq<Expr>)
    ensures
        exprs_v(s).len() == s.len(),
        forall|i: int| 0 <= i < s.len() ==> #[trigger] exprs_v(s)[i] == expr_v(s[i]),
    decreases s.len(),
{
    if s.len() > 0 {
        lemma_exprs_v(s.subrange(0, s.len() - 1));
    }
}

pub proof fn lemma_args_v(s: Seq<Arg>)
    ensures
        args_v(s).len() == s.len(),
        forall|i: int| 0 <= i < s.len() ==> #[trigger] args_v(s)[i] == arg_v(s[i]),
    decreases s.len(),
{
    if s.len() > 0 {
        lemma_args_v(s.subrange(0, s.len() - 1));
    }
}

pub proof fn lemma_props_v(s: Seq<PropOrSpread>)
    ensures
        props_v(s).len() == s.len(),
        forall|i: int| 0 <= i < s.len() ==> #[trigger] props_v(s)[i] == prop_v(s[i]),
    decreases s.len(),
{
    if s.len() > 0 {
        lemma_props_v(s.subrange(0, s.len() - 1));
    }
}

pub proof fn lemma_pats_v(s: Seq<Pat>)
    ensures
        pats_v(s).len() == s.len(),
        forall|i: int| 0 <= i < s.len() ==> #[trigger] pats_v(s)[i] == pat_v(s[i]),
    decreases s.len(),
{
    if s.len() > 0 {
        lemma_pats_v(s.subrange(0, s.len() - 1));
    }
}

pub proof fn lemma_stmts_v(s: Seq<Stmt>)
    ensures
        stmts_v(s).len() == s.len(),
        forall|i: int| 0 <= i < s.len() ==> #[trigger] stmts_v(s)[i] == stmt_v(s[i]),
    decreases s.len(),
{
    if s.len() > 0 {
        lemma_stmts_v(s.subrange(0, s.len() - 1));
    }
}

pub proof fn lemma_declarators_v(s: Seq<VarDeclarator>)
    ensures
        declarators_v(s).len() == s.len(),
        forall|i: int| 0 <= i < s.len() ==> #[trigger] declarators_v(s)[i] == declarator_v(s[i]),
    decreases s.len(),
{
    if s.len() > 0 {
        lemma_declarators_v(s.subrange(0, s.len() - 1));
    }
}

pub proof fn lemma_cases_v(s: Seq<SwitchCase>)
    ensures
        cases_v(s).len() == s.len(),
        forall|i: int| 0 <= i < s.len() ==> #[trigger] cases_v(s)[i] == switch_case_v(s[i]),
    decreases s.len(),
{
    if s.len() > 0 {
        lemma_cases_v(s.subrange(0, s.len() - 1));
    }
}

pub proof fn lemma_members_v(s: Seq<ClassMember>)
    ensures
        members_v(s).len() == s.len(),
        forall|i: int| 0 <= i < s.len() ==> #[trigger] members_v(s)[i] == class_member_v(s[i]),
    decreases s.len(),
{
    if s.len() > 0 {
        lemma_members_v(s.subrange(0, s.len() - 1));
    }
}

} // verus!

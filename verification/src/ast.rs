//! The abstract syntax tree the compiler consumes, as the parser and
//! checker hand it over, together with the token shapes those upstream
//! stages attach to it (source positions, literal operators, type names).

use vstd::prelude::*;

use crate::error::TokenPosition;

verus! {

/// An expression of the source language.
///
/// `Float` literals carry the IEEE 754 binary64 bit pattern of their value.
#[derive(Debug, PartialEq)]
pub enum Expression {
    Block(Vec<Statement>),
    Int(i64),
    Float(u64),
    Bool(bool),
    Str(String),
    Char(char),
    Identifier(String, TokenPosition),
    Operation(Operation),
    Call(Call),
    Index(Index),
    Function(Function),
    Arm(Arm),
    Print(Box<Expression>),
    EOF,
}

/// A binary operation.
#[derive(Debug, PartialEq)]
pub struct Operation {
    pub left: Box<Expression>,
    pub op: Operand,
    pub right: Box<Expression>,
    pub position: TokenPosition,
}

/// A call expression: callee first, then the arguments left to right.
#[derive(Debug, PartialEq)]
pub struct Call {
    pub callee: Box<Expression>,
    pub args: Vec<Expression>,
    pub position: TokenPosition,
}

/// An indexing expression (carried through the AST; the compiler emits no
/// code for it in this core).
#[derive(Debug, PartialEq)]
pub struct Index {
    pub id: Box<Expression>,
    pub index: Box<Expression>,
    pub position: TokenPosition,
}

/// A function literal: a sequence of guarded arms.
#[derive(Debug, PartialEq)]
pub struct Function {
    pub arms: Vec<Expression>,
    pub position: TokenPosition,
}

/// One guarded clause of a function literal, compiled to its own block.
#[derive(Debug, PartialEq)]
pub struct Arm {
    pub params: Vec<Expression>,
    pub body: Box<Expression>,
    pub position: TokenPosition,
}

/// A statement of the source language.
#[derive(Debug, PartialEq)]
pub enum Statement {
    Expression(Box<Expression>),
    Assignment(Assignment),
    Definition(Definition),
}

/// Assignment to an already-declared local.
#[derive(Debug, PartialEq)]
pub struct Assignment {
    pub left: Box<Expression>,
    pub right: Box<Expression>,
    pub position: TokenPosition,
}

/// Declaration of a local, with an optional type annotation and an
/// optional initializer.
#[derive(Debug, PartialEq)]
pub struct Definition {
    pub t: Option<Type>,
    pub name: Box<Expression>,
    pub right: Option<Box<Expression>>,
    pub position: TokenPosition,
}

/// A binary operator literal.
#[derive(Debug, Clone, Copy, PartialEq, Eq, Structural)]
pub enum Operand {
    Pow,
    Mul,
    Div,
    Mod,
    Add,
    Sub,
    Equal,
    NEqual,
    Lt,
    Gt,
    LtEqual,
    GtEqual,
}

/// The operator and precedence a piece of operator text denotes, if any.
pub open spec fn operand_of(s: Seq<char>) -> Option<(Operand, u8)> {
    if s.len() == 1 {
        if s[0] == '^' {
            Some((Operand::Pow, 0u8))
        } else if s[0] == '*' {
            Some((Operand::Mul, 1u8))
        } else if s[0] == '/' {
            Some((Operand::Div, 1u8))
        } else if s[0] == '%' {
            Some((Operand::Mod, 1u8))
        } else if s[0] == '+' {
            Some((Operand::Add, 2u8))
        } else if s[0] == '-' {
            Some((Operand::Sub, 2u8))
        } else if s[0] == '<' {
            Some((Operand::Lt, 4u8))
        } else if s[0] == '>' {
            Some((Operand::Gt, 4u8))
        } else {
            None
        }
    } else if s.len() == 2 && s[1] == '=' {
        if s[0] == '=' {
            Some((Operand::Equal, 3u8))
        } else if s[0] == '!' {
            Some((Operand::NEqual, 3u8))
        } else if s[0] == '<' {
            Some((Operand::LtEqual, 4u8))
        } else if s[0] == '>' {
            Some((Operand::GtEqual, 4u8))
        } else {
            None
        }
    } else {
        None
    }
}

impl Operand {
    /// The operator and parsing precedence written as `v`, if `v` is an
    /// operator: `^`, then `* / %`, then `+ -`, then `== !=`, then the
    /// four comparisons.
    pub fn from_str(v: &str) -> (r: Option<(Operand, u8)>)
        ensures
            r == operand_of(v@),
    {
        let n = v.unicode_len();
        if n == 1 {
            match v.get_char(0) {
                '^' => Some((Operand::Pow, 0)),
                '*' => Some((Operand::Mul, 1)),
                '/' => Some((Operand::Div, 1)),
                '%' => Some((Operand::Mod, 1)),
                '+' => Some((Operand::Add, 2)),
                '-' => Some((Operand::Sub, 2)),
                '<' => Some((Operand::Lt, 4)),
                '>' => Some((Operand::Gt, 4)),
                _ => None,
            }
        } else if n == 2 {
            let c0 = v.get_char(0);
            let c1 = v.get_char(1);
            if c1 == '=' {
                match c0 {
                    '=' => Some((Operand::Equal, 3)),
                    '!' => Some((Operand::NEqual, 3)),
                    '<' => Some((Operand::LtEqual, 4)),
                    '>' => Some((Operand::GtEqual, 4)),
                    _ => None,
                }
            } else {
                None
            }
        } else {
            None
        }
    }
}

/// One arm of a function type: its parameter types and its result type.
#[derive(Debug, PartialEq)]
pub struct FunctionSig {
    pub params: Vec<Type>,
    pub ret: Box<Type>,
}

/// A type annotation as the parser writes it.
#[derive(Debug, PartialEq)]
pub enum Type {
    Mut(Option<Box<Type>>),
    Signature(Vec<Type>),
    Function(Vec<FunctionSig>),
    Identifier(String),
    I08,
    I16,
    I32,
    I64,
    I128,
    F32,
    F64,
    U08,
    U16,
    U32,
    U64,
    U128,
    Char,
    Str,
    Bool,
    Int,
    Float,
    Any,
    Undefined,
}

/// The kind of a lexed token.
#[derive(Debug, Clone, Copy, PartialEq, Eq, Structural)]
pub enum TokenType {
    EOL,
    Indent,
    Whitespace,
    Operator,
    Type,
    Identifier,
    IntLiteral,
    FloatLiteral,
    BoolLiteral,
    StringLiteral,
    CharLiteral,
    Symbol,
    Keyword,
}

/// One lexed token: its kind, its text, and where it stands in the source.
#[derive(Debug, PartialEq)]
pub struct Token {
    pub token_type: TokenType,
    pub content: String,
    pub position: TokenPosition,
}

/// Whether two string slices hold the same characters.
pub fn str_eq_str(a: &str, b: &str) -> (r: bool)
    ensures
        r == (a@ == b@),
{
    let na = a.unicode_len();
    let nb = b.unicode_len();
    if na != nb {
        return false;
    }
    let mut i: usize = 0;
    while i < na
        invariant
            i <= na,
            na == a@.len(),
            na == b@.len(),
            forall|k: int| 0 <= k < i ==> a@[k] == b@[k],
        decreases na - i,
    {
        if a.get_char(i) != b.get_char(i) {
            return false;
        }
        i = i + 1;
    }
    proof {
        assert(a@ =~= b@);
    }
    true
}

/// The primitive type a type-token's text names, if any.
pub open spec fn type_of_name(s: Seq<char>) -> Option<Type> {
    if s == "i08"@ {
        Some(Type::I08)
    } else if s == "i16"@ {
        Some(Type::I16)
    } else if s == "i32"@ {
        Some(Type::I32)
    } else if s == "i64"@ {
        Some(Type::I64)
    } else if s == "i128"@ {
        Some(Type::I128)
    } else if s == "f32"@ {
        Some(Type::F32)
    } else if s == "f64"@ {
        Some(Type::F64)
    } else if s == "u08"@ {
        Some(Type::U08)
    } else if s == "u16"@ {
        Some(Type::U16)
    } else if s == "u32"@ {
        Some(Type::U32)
    } else if s == "u64"@ {
        Some(Type::U64)
    } else if s == "u128"@ {
        Some(Type::U128)
    } else if s == "char"@ {
        Some(Type::Char)
    } else if s == "str"@ {
        Some(Type::Str)
    } else if s == "bool"@ {
        Some(Type::Bool)
    } else {
        None
    }
}

impl Type {
    /// The type a token denotes: a primitive type for a type-token whose
    /// text names one, a named type for an identifier token, nothing
    /// otherwise.
    pub fn from(v: &Token) -> (r: Option<Type>)
        ensures
            match v.token_type {
                TokenType::Type => r == type_of_name(v.content@),
                TokenType::Identifier => match r {
                    Some(Type::Identifier(s)) => s@ == v.content@,
                    _ => false,
                },
                _ => r is None,
            },
    {
        match v.token_type {
            TokenType::Type => {
                let c = v.content.as_str();
                if str_eq_str(c, "i08") {
                    Some(Type::I08)
                } else if str_eq_str(c, "i16") {
                    Some(Type::I16)
                } else if str_eq_str(c, "i32") {
                    Some(Type::I32)
                } else if str_eq_str(c, "i64") {
                    Some(Type::I64)
                } else if str_eq_str(c, "i128") {
                    Some(Type::I128)
                } else if str_eq_str(c, "f32") {
                    Some(Type::F32)
                } else if str_eq_str(c, "f64") {
                    Some(Type::F64)
                } else if str_eq_str(c, "u08") {
                    Some(Type::U08)
                } else if str_eq_str(c, "u16") {
                    Some(Type::U16)
                } else if str_eq_str(c, "u32") {
                    Some(Type::U32)
                } else if str_eq_str(c, "u64") {
                    Some(Type::U64)
                } else if str_eq_str(c, "u128") {
                    Some(Type::U128)
                } else if str_eq_str(c, "char") {
                    Some(Type::Char)
                } else if str_eq_str(c, "str") {
                    Some(Type::Str)
                } else if str_eq_str(c, "bool") {
                    Some(Type::Bool)
                } else {
                    None
                }
            },
            TokenType::Identifier => Some(Type::Identifier(v.content.clone())),
            _ => None,
        }
    }
}

/// A well-formed expression: every declaration or assignment target inside
/// it names an identifier, no call passes more than 255 arguments, and no
/// arm declares more parameters than local slots exist. The checker
/// guarantees this shape before the compiler runs.
pub open spec fn expr_wf(e: Expression) -> bool
    decreases e,
{
    match e {
        Expression::Block(stmts) => forall|i: int|
            0 <= i < stmts@.len() ==> stmt_wf(#[trigger] stmts@[i]),
        Expression::Operation(op) => expr_wf(*op.left) && expr_wf(*op.right),
        Expression::Call(c) => expr_wf(*c.callee) && c.args@.len() <= 255 && forall|i: int|
            0 <= i < c.args@.len() ==> expr_wf(#[trigger] c.args@[i]),
        Expression::Index(ix) => expr_wf(*ix.id) && expr_wf(*ix.index),
        Expression::Function(f) => forall|i: int|
            0 <= i < f.arms@.len() ==> expr_wf(#[trigger] f.arms@[i]),
        Expression::Arm(a) => a.params@.len() <= 65535 && expr_wf(*a.body),
        Expression::Print(inner) => expr_wf(*inner),
        _ => true,
    }
}

/// A well-formed statement (see `expr_wf`).
pub open spec fn stmt_wf(s: Statement) -> bool
    decreases s,
{
    match s {
        Statement::Expression(e) => expr_wf(*e),
        Statement::Assignment(a) => (*a.left) matches Expression::Identifier(_, _) && expr_wf(
            *a.right,
        ),
        Statement::Definition(d) => (*d.name) matches Expression::Identifier(_, _) && match d.right {
            Some(r) => expr_wf(*r),
            None => true,
        },
    }
}


/// Structural equality of two types.
pub open spec fn type_eq(a: Type, b: Type) -> bool
    decreases a, 0int,
{
    match (a, b) {
        (Type::Mut(x), Type::Mut(y)) => match (x, y) {
            (Some(p), Some(q)) => type_eq(*p, *q),
            (None, None) => true,
            _ => false,
        },
        (Type::Signature(xs), Type::Signature(ys)) => xs@.len() == ys@.len() && types_eq_from(
            xs@,
            ys@,
            0,
        ),
        (Type::Function(fs), Type::Function(gs)) => fs@.len() == gs@.len() && sigs_eq_from(
            fs@,
            gs@,
            0,
        ),
        (Type::Identifier(x), Type::Identifier(y)) => x@ == y@,
        (Type::I08, Type::I08) => true,
        (Type::I16, Type::I16) => true,
        (Type::I32, Type::I32) => true,
        (Type::I64, Type::I64) => true,
        (Type::I128, Type::I128) => true,
        (Type::F32, Type::F32) => true,
        (Type::F64, Type::F64) => true,
        (Type::U08, Type::U08) => true,
        (Type::U16, Type::U16) => true,
        (Type::U32, Type::U32) => true,
        (Type::U64, Type::U64) => true,
        (Type::U128, Type::U128) => true,
        (Type::Char, Type::Char) => true,
        (Type::Str, Type::Str) => true,
        (Type::Bool, Type::Bool) => true,
        (Type::Int, Type::Int) => true,
        (Type::Float, Type::Float) => true,
        (Type::Any, Type::Any) => true,
        (Type::Undefined, Type::Undefined) => true,
        _ => false,
    }
}

/// Pairwise structural equality of two equally long type lists, from `i`.
pub open spec fn types_eq_from(xs: Seq<Type>, ys: Seq<Type>, i: int) -> bool
    decreases xs, xs.len() - i,
{
    if i < 0 || i >= xs.len() {
        true
    } else {
        type_eq(xs[i], ys[i]) && types_eq_from(xs, ys, i + 1)
    }
}

/// Structural equality of two function-type arms.
pub open spec fn sig_eq(f: FunctionSig, g: FunctionSig) -> bool
    decreases f, 1int,
{
    f.params@.len() == g.params@.len() && types_eq_from(f.params@, g.params@, 0) && type_eq(
        *f.ret,
        *g.ret,
    )
}

/// Pairwise structural equality of two equally long arm lists, from `i`.
pub open spec fn sigs_eq_from(fs: Seq<FunctionSig>, gs: Seq<FunctionSig>, i: int) -> bool
    decreases fs, fs.len() - i,
{
    if i < 0 || i >= fs.len() {
        true
    } else {
        sig_eq(fs[i], gs[i]) && sigs_eq_from(fs, gs, i + 1)
    }
}

/// The chain from `i` holds exactly when every pair from `i` on is equal.
pub proof fn lemma_types_eq_iff(xs: Seq<Type>, ys: Seq<Type>, i: int)
    requires
        0 <= i,
    ensures
        types_eq_from(xs, ys, i) <==> (forall|k: int|
            i <= k < xs.len() ==> type_eq(#[trigger] xs[k], ys[k])),
    decreases xs.len() - i,
{
    if 0 <= i < xs.len() {
        lemma_types_eq_iff(xs, ys, i + 1);
    }
}

/// The chain from `i` holds exactly when every pair from `i` on is equal.
pub proof fn lemma_sigs_eq_iff(fs: Seq<FunctionSig>, gs: Seq<FunctionSig>, i: int)
    requires
        0 <= i,
    ensures
        sigs_eq_from(fs, gs, i) <==> (forall|k: int|
            i <= k < fs.len() ==> sig_eq(#[trigger] fs[k], gs[k])),
    decreases fs.len() - i,
{
    if 0 <= i < fs.len() {
        lemma_sigs_eq_iff(fs, gs, i + 1);
    }
}

impl FunctionSig {
    /// Decides `sig_eq`.
    #[verifier::loop_isolation(false)]
    pub fn compare(&self, other: &FunctionSig) -> (r: bool)
        ensures
            r == sig_eq(*self, *other),
        decreases *self, 1int,
    {
        if self.params.len() != other.params.len() {
            return false;
        }
        let n = self.params.len();
        let mut i: usize = 0;
        while i < n
            invariant
                i <= n,
                n == self.params@.len(),
                n == other.params@.len(),
                forall|k: int| 0 <= k < i ==> type_eq(#[trigger] self.params@[k], other.params@[k]),
            decreases n - i,
        {
            if !self.params[i].compare(&other.params[i]) {
                proof {
                    lemma_types_eq_iff(self.params@, other.params@, 0);
                }
                return false;
            }
            i = i + 1;
        }
        proof {
            lemma_types_eq_iff(self.params@, other.params@, 0);
        }
        self.ret.compare(&other.ret)
    }
}

impl Type {
    /// Decides `type_eq`: whether the two types are structurally the same.
    #[verifier::loop_isolation(false)]
    pub fn compare(&self, other: &Type) -> (r: bool)
        ensures
            r == type_eq(*self, *other),
        decreases *self, 0int,
    {
        match (self, other) {
            (Type::Mut(x), Type::Mut(y)) => match (x, y) {
                (Some(p), Some(q)) => p.compare(q),
                (None, None) => true,
                _ => false,
            },
            (Type::Signature(xs), Type::Signature(ys)) => {
                if xs.len() != ys.len() {
                    return false;
                }
                let n = xs.len();
                let mut i: usize = 0;
                while i < n
                    invariant
                        i <= n,
                        n == xs@.len(),
                        n == ys@.len(),
                        forall|k: int| 0 <= k < i ==> type_eq(#[trigger] xs@[k], ys@[k]),
                    decreases n - i,
                {
                    if !xs[i].compare(&ys[i]) {
                        proof {
                            lemma_types_eq_iff(xs@, ys@, 0);
                        }
                        return false;
                    }
                    i = i + 1;
                }
                proof {
                    lemma_types_eq_iff(xs@, ys@, 0);
                }
                true
            },
            (Type::Function(fs), Type::Function(gs)) => {
                if fs.len() != gs.len() {
                    return false;
                }
                let n = fs.len();
                let mut i: usize = 0;
                while i < n
                    invariant
                        i <= n,
                        n == fs@.len(),
                        n == gs@.len(),
                        forall|k: int| 0 <= k < i ==> sig_eq(#[trigger] fs@[k], gs@[k]),
                    decreases n - i,
                {
                    if !fs[i].compare(&gs[i]) {
                        proof {
                            lemma_sigs_eq_iff(fs@, gs@, 0);
                        }
                        return false;
                    }
                    i = i + 1;
                }
                proof {
                    lemma_sigs_eq_iff(fs@, gs@, 0);
                }
                true
            },
            (Type::Identifier(x), Type::Identifier(y)) => str_eq_str(x.as_str(), y.as_str()),
            (Type::I08, Type::I08) => true,
            (Type::I16, Type::I16) => true,
            (Type::I32, Type::I32) => true,
            (Type::I64, Type::I64) => true,
            (Type::I128, Type::I128) => true,
            (Type::F32, Type::F32) => true,
            (Type::F64, Type::F64) => true,
            (Type::U08, Type::U08) => true,
            (Type::U16, Type::U16) => true,
            (Type::U32, Type::U32) => true,
            (Type::U64, Type::U64) => true,
            (Type::U128, Type::U128) => true,
            (Type::Char, Type::Char) => true,
            (Type::Str, Type::Str) => true,
            (Type::Bool, Type::Bool) => true,
            (Type::Int, Type::Int) => true,
            (Type::Float, Type::Float) => true,
            (Type::Any, Type::Any) => true,
            (Type::Undefined, Type::Undefined) => true,
            _ => false,
        }
    }
}

} // verus!

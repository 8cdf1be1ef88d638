//! Typed abstract syntax consumed by the translator, together with the
//! read-only context (symbol table, interned string literals, registered
//! user intrinsics) that translation runs against.

use vstd::prelude::*;
use crate::ir::IrType;

verus! {

/// The kind of storage a picture clause declares for a variable.
#[derive(Clone, Copy, PartialEq, Eq, Structural, Debug)]
pub enum PicKind {
    Int,
    Float,
    Str,
}

/// Declared storage layout of a source-language variable: its kind and its
/// total byte footprint. For strings the footprint includes a trailing NUL
/// byte, so the smallest string picture has `comp_size == 2`.
#[derive(Clone, Copy, PartialEq, Eq, Structural, Debug)]
pub struct Pic {
    pub kind: PicKind,
    pub comp_size: usize,
}

impl Pic {
    /// A picture is well formed when its byte footprint matches its kind:
    /// numeric variables occupy one 64-bit word, strings hold at least one
    /// character plus the NUL terminator, and every footprint fits in an
    /// `i64` immediate.
    pub open spec fn wf(self) -> bool {
        &&& match self.kind {
                PicKind::Str => self.comp_size >= 2,
                _ => self.comp_size == 8,
            }
        &&& self.comp_size <= 0x7fff_ffff_ffff_ffff
    }

    pub fn is_str(&self) -> (r: bool)
        ensures r == (self.kind == PicKind::Str),
    {
        match self.kind {
            PicKind::Str => true,
            _ => false,
        }
    }

    pub fn is_float(&self) -> (r: bool)
        ensures r == (self.kind == PicKind::Float),
    {
        match self.kind {
            PicKind::Float => true,
            _ => false,
        }
    }

    /// Whether a full-buffer copy of this picture's storage into `other`'s
    /// storage stays in bounds.
    pub open spec fn spec_fits_within_comp(self, other: Pic) -> bool {
        self.comp_size <= other.comp_size
    }

    pub fn fits_within_comp(&self, other: &Pic) -> (r: bool)
        ensures r == self.spec_fits_within_comp(*other),
    {
        self.comp_size <= other.comp_size
    }
}

/// A source-language literal. Floating-point literals are carried as their
/// IEEE 754 bit pattern; the translator only moves the bits, it never
/// computes with them. String literals are an index into the interned
/// string-literal table.
#[derive(Clone, Copy, PartialEq, Eq, Structural, Debug)]
pub enum Literal {
    Int(i64),
    Float(u64),
    Str(usize),
}

/// A literal family used only by code generation itself: single-byte
/// characters (stored as i8) and small integer indices (stored as i64).
#[derive(Clone, Copy, PartialEq, Eq, Structural, Debug)]
pub enum CgLiteral {
    Char(u8),
    Int(i64),
}

/// A parser-level operand: a variable (symbol id) or a literal.
#[derive(Clone, Copy, PartialEq, Eq, Structural, Debug)]
pub enum Value {
    Variable(u32),
    Literal(Literal),
}

/// A 1-based substring reference on a string variable. `len` absent means
/// "from `start_idx` to the end of the string, excluding the NUL".
#[derive(Clone, Copy, PartialEq, Eq, Structural, Debug)]
pub struct MoveSpan {
    pub start_idx: Value,
    pub len: Option<Value>,
}

/// A reference to a variable as a move operand, optionally through a span.
#[derive(Clone, Copy, PartialEq, Eq, Structural, Debug)]
pub struct MoveRef {
    pub sym: u32,
    pub span: Option<MoveSpan>,
}

/// A call to a registered user intrinsic, by registry index.
#[derive(Clone, PartialEq, Eq, Debug)]
pub struct IntrinsicCall {
    pub intrinsic: u32,
    pub args: Vec<Value>,
}

/// The source operand of a MOVE statement.
#[derive(Clone, PartialEq, Eq, Debug)]
pub enum MoveSource {
    Literal(Literal),
    MoveRef(MoveRef),
    Intrinsic(IntrinsicCall),
}

/// One MOVE statement: a source and a destination reference.
#[derive(Clone, PartialEq, Eq, Debug)]
pub struct MoveData {
    pub source: MoveSource,
    pub dest: MoveRef,
}

/// A condition tree: comparisons over operands, combined with NOT / AND / OR.
#[derive(Debug)]
pub enum Cond {
    Eq(Value, Value),
    Ge(Value, Value),
    Le(Value, Value),
    Gt(Value, Value),
    Lt(Value, Value),
    Not(Box<Cond>),
    And(Box<Cond>, Box<Cond>),
    Or(Box<Cond>, Box<Cond>),
}

/// One IF statement. An IF with neither branch is a no-op; an IF with a
/// then-branch must have a non-empty then-branch.
#[derive(Debug)]
pub struct IfData {
    pub condition: Cond,
    pub if_stats: Option<Vec<Stat>>,
    pub else_stats: Option<Vec<Stat>>,
}

/// A statement of the fragment handled here. `StopRun` is the one
/// self-terminating statement: it emits an unconditional return, so any
/// statement after it in the same block is unreachable.
#[derive(Debug)]
pub enum Stat {
    Move(MoveData),
    If(IfData),
    StopRun,
}

/// A symbol-table entry: the variable's name (diagnostics only), its
/// picture, and the data id of its static buffer.
#[derive(Clone, PartialEq, Eq, Debug)]
pub struct SymInfo {
    pub name: String,
    pub pic: Pic,
    pub data_id: u32,
}

/// An interned string literal: its raw bytes (no NUL) and the data id of the
/// NUL-terminated static buffer that holds it.
#[derive(Clone, PartialEq, Eq, Debug)]
pub struct StrLit {
    pub bytes: Vec<u8>,
    pub data_id: u32,
}

/// A registered runtime helper callable from source programs, with the IR
/// type of its return value.
#[derive(Clone, PartialEq, Eq, Debug)]
pub struct UserIntrinsic {
    pub name: String,
    pub ret: IrType,
}

/// Read-only shared context for one function's translation.
#[derive(Clone, PartialEq, Eq, Debug)]
pub struct Ctx {
    pub syms: Vec<SymInfo>,
    pub str_lits: Vec<StrLit>,
    pub intrinsics: Vec<UserIntrinsic>,
}

impl Ctx {
    /// Well-formedness of the context: every picture is well formed, and
    /// every interned string literal is non-empty and free of NUL bytes.
    pub open spec fn wf(self) -> bool {
        &&& forall|i: int| 0 <= i < self.syms@.len() ==> (#[trigger] self.syms@[i]).pic.wf()
        &&& forall|i: int| 0 <= i < self.str_lits@.len() ==> {
                let bs = (#[trigger] self.str_lits@[i]).bytes@;
                bs.len() >= 1 && forall|j: int| 0 <= j < bs.len() ==> bs[j] != 0
            }
    }

    /// Whether symbol id `s` exists.
    pub open spec fn sym_ok(self, s: u32) -> bool {
        s < self.syms@.len()
    }

    pub open spec fn spec_sym_pic(self, s: u32) -> Pic {
        self.syms@[s as int].pic
    }

    pub open spec fn spec_sym_data_id(self, s: u32) -> u32 {
        self.syms@[s as int].data_id
    }

    /// Whether string-literal id `sid` exists.
    pub open spec fn str_ok(self, sid: usize) -> bool {
        sid < self.str_lits@.len()
    }

    pub open spec fn spec_str_data_id(self, sid: usize) -> u32 {
        self.str_lits@[sid as int].data_id
    }

    pub open spec fn spec_str_len(self, sid: usize) -> nat {
        self.str_lits@[sid as int].bytes@.len()
    }

    /// Whether intrinsic registry id `id` exists.
    pub open spec fn intrinsic_ok(self, id: u32) -> bool {
        id < self.intrinsics@.len()
    }

    /// The picture of symbol `s`, or a missing-symbol diagnostic.
    pub fn sym_pic(&self, s: u32) -> (r: Result<Pic, CgError>)
        ensures
            r is Ok <==> self.sym_ok(s),
            r is Ok ==> r->Ok_0 == self.spec_sym_pic(s),
            r is Err ==> r->Err_0 == (CgError::MissingSymbol { sym: s }),
    {
        if (s as usize) < self.syms.len() {
            Ok(self.syms[s as usize].pic)
        } else {
            Err(CgError::MissingSymbol { sym: s })
        }
    }

    /// The data id of symbol `s`, or a missing-symbol diagnostic.
    pub fn sym_data_id(&self, s: u32) -> (r: Result<u32, CgError>)
        ensures
            r is Ok <==> self.sym_ok(s),
            r is Ok ==> r->Ok_0 == self.spec_sym_data_id(s),
            r is Err ==> r->Err_0 == (CgError::MissingSymbol { sym: s }),
    {
        if (s as usize) < self.syms.len() {
            Ok(self.syms[s as usize].data_id)
        } else {
            Err(CgError::MissingSymbol { sym: s })
        }
    }

    /// The data id of the interned buffer for string literal `sid`, or a
    /// missing-literal diagnostic.
    pub fn str_data_id(&self, sid: usize) -> (r: Result<u32, CgError>)
        ensures
            r is Ok <==> self.str_ok(sid),
            r is Ok ==> r->Ok_0 == self.spec_str_data_id(sid),
            r is Err ==> r->Err_0 == (CgError::MissingStrLit { sid: sid }),
    {
        if sid < self.str_lits.len() {
            Ok(self.str_lits[sid].data_id)
        } else {
            Err(CgError::MissingStrLit { sid })
        }
    }

    /// The byte length of string literal `sid`, or a missing-literal
    /// diagnostic.
    pub fn str_len(&self, sid: usize) -> (r: Result<usize, CgError>)
        ensures
            r is Ok <==> self.str_ok(sid),
            r is Ok ==> r->Ok_0 == self.spec_str_len(sid),
            r is Err ==> r->Err_0 == (CgError::MissingStrLit { sid: sid }),
    {
        if sid < self.str_lits.len() {
            Ok(self.str_lits[sid].bytes.len())
        } else {
            Err(CgError::MissingStrLit { sid })
        }
    }
}

/// The storage kind of an operand: the literal's own kind, or the kind of
/// the referenced variable's picture.
pub open spec fn val_kind(ctx: Ctx, v: Value) -> PicKind {
    match v {
        Value::Variable(s) => ctx.spec_sym_pic(s).kind,
        Value::Literal(Literal::Int(_)) => PicKind::Int,
        Value::Literal(Literal::Float(_)) => PicKind::Float,
        Value::Literal(Literal::Str(_)) => PicKind::Str,
    }
}

/// Whether every lookup an operand needs will succeed.
pub open spec fn val_ok(ctx: Ctx, v: Value) -> bool {
    match v {
        Value::Variable(s) => ctx.sym_ok(s),
        Value::Literal(Literal::Str(sid)) => ctx.str_ok(sid),
        Value::Literal(_) => true,
    }
}

impl Value {
    /// Whether this operand is a string, or the diagnostic of the failed
    /// symbol lookup.
    pub fn is_str(&self, ctx: &Ctx) -> (r: Result<bool, CgError>)
        ensures
            r is Ok <==> match *self {
                Value::Variable(s) => ctx.sym_ok(s),
                Value::Literal(_) => true,
            },
            r is Ok ==> r->Ok_0 == (val_kind(*ctx, *self) == PicKind::Str),
            r is Err ==> (match *self {
                Value::Variable(s) => r->Err_0 == (CgError::MissingSymbol { sym: s }),
                Value::Literal(_) => false,
            }),
    {
        match self {
            Value::Variable(s) => Ok(ctx.sym_pic(*s)?.is_str()),
            Value::Literal(Literal::Str(_)) => Ok(true),
            Value::Literal(_) => Ok(false),
        }
    }

    /// Whether this operand is a float, or the diagnostic of the failed
    /// symbol lookup.
    pub fn is_float(&self, ctx: &Ctx) -> (r: Result<bool, CgError>)
        ensures
            r is Ok <==> match *self {
                Value::Variable(s) => ctx.sym_ok(s),
                Value::Literal(_) => true,
            },
            r is Ok ==> r->Ok_0 == (val_kind(*ctx, *self) == PicKind::Float),
            r is Err ==> (match *self {
                Value::Variable(s) => r->Err_0 == (CgError::MissingSymbol { sym: s }),
                Value::Literal(_) => false,
            }),
    {
        match self {
            Value::Variable(s) => Ok(ctx.sym_pic(*s)?.is_float()),
            Value::Literal(Literal::Float(_)) => Ok(true),
            Value::Literal(_) => Ok(false),
        }
    }
}

/// A diagnostic of the translator. Each variant is one failure kind of the
/// error surface; ids locate the offending symbol, literal, or intrinsic so
/// that a front end can render a human-readable message.
#[derive(Clone, Copy, PartialEq, Eq, Structural, Debug)]
pub enum CgError {
    /// A symbol lookup in the data manager failed.
    MissingSymbol { sym: u32 },
    /// A string-literal lookup failed.
    MissingStrLit { sid: usize },
    /// An intrinsic-registry lookup failed.
    MissingIntrinsic { id: u32 },
    /// Equality comparison between a string and a non-string operand.
    CmpStrWithNonStr,
    /// Ordinal comparison with a string operand.
    CmpStrOrdinal,
    /// A span on a variable whose picture is not a string.
    SpanOnNonString { sym: u32 },
    /// A span start index that is not integer-typed.
    SpanIndexNotInteger,
    /// A span length that is not integer-typed.
    SpanLengthNotInteger,
    /// A literal that does not fit the destination variable.
    LiteralDoesNotFit { sym: u32 },
    /// A non-spanned variable move whose source buffer does not fit the
    /// destination buffer.
    VariableDoesNotFit { src: u32, dest: u32 },
    /// An intrinsic call moved into a destination whose picture does not
    /// match the intrinsic's return type.
    IntrinsicDestMismatch { id: u32 },
    /// A statement after a self-terminating statement in the same block.
    UnreachableCode,
    /// A string-returning intrinsic moved into a string variable, which
    /// this translator does not support.
    StrIntrinsicMoveUnsupported,
}

} // verus!

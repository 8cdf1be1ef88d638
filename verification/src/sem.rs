//! A denotation for the emitted instruction stream: what value each IR
//! node evaluates to, given a placement of the static data, a memory
//! state, and interpretations of the two floating-point operations (which
//! this library never computes itself).
//!
//! The model is used purely in specifications: the translator's contracts
//! say what the emitted nodes evaluate to, and the observational laws are
//! proved against this denotation.

use vstd::prelude::*;
use crate::ast::{Cond, Ctx, Literal, PicKind, Value};
use crate::ir::{FloatCC, Inst, IntCC, IrType};

verus! {

/// The denotation of one IR value: a 64-bit signed integer, a 64-bit float
/// carried as its bit pattern, a pointer (an address), or nothing (the
/// entry defines no value the model tracks).
#[derive(PartialEq, Eq, Structural)]
pub enum EvalVal {
    VInt(i64),
    VFloat(u64),
    VPtr(int),
    VNone,
}

/// The evaluation environment: where each data id's static buffer lives,
/// the bytes of memory, and the meanings of float comparison and of
/// signed-integer-to-float conversion. The float operations are
/// parameters: every law proved over this model holds for any
/// interpretation of them.
pub struct Env {
    pub layout: Map<u32, int>,
    pub mem: Map<int, u8>,
    pub fcmp_sem: spec_fn(FloatCC, u64, u64) -> bool,
    pub fcvt_sem: spec_fn(i64) -> u64,
}

/// The two's-complement unsigned reading of an `i64`.
pub open spec fn to_u64(a: i64) -> u64 {
    if a >= 0 {
        a as u64
    } else {
        (a + 0x1_0000_0000_0000_0000) as u64
    }
}

/// The two's-complement signed reading of a `u64`.
pub open spec fn from_u64(u: u64) -> i64 {
    if u >= 0x8000_0000_0000_0000 {
        (u - 0x1_0000_0000_0000_0000) as i64
    } else {
        u as i64
    }
}

/// Reduction of an unbounded integer into `i64` by wrapping.
pub open spec fn wrap_to_i64(x: int) -> i64 {
    from_u64((((x % 0x1_0000_0000_0000_0000) + 0x1_0000_0000_0000_0000)
        % 0x1_0000_0000_0000_0000) as u64)
}

pub open spec fn bxor_i64(a: i64, b: i64) -> i64 {
    from_u64(to_u64(a) ^ to_u64(b))
}

pub open spec fn band_i64(a: i64, b: i64) -> i64 {
    from_u64(to_u64(a) & to_u64(b))
}

pub open spec fn bor_i64(a: i64, b: i64) -> i64 {
    from_u64(to_u64(a) | to_u64(b))
}

/// Little-endian 64-bit read.
pub open spec fn read_le64(mem: Map<int, u8>, a: int) -> u64 {
    (mem[a] as u64)
    | (mem[a + 1] as u64) << 8
    | (mem[a + 2] as u64) << 16
    | (mem[a + 3] as u64) << 24
    | (mem[a + 4] as u64) << 32
    | (mem[a + 5] as u64) << 40
    | (mem[a + 6] as u64) << 48
    | (mem[a + 7] as u64) << 56
}

/// Little-endian 64-bit write: what a 64-bit store at address `a` leaves
/// in memory.
pub open spec fn write_le64(mem: Map<int, u8>, a: int, w: u64) -> Map<int, u8> {
    mem.insert(a, (w & 0xff) as u8)
        .insert(a + 1, ((w >> 8) & 0xff) as u8)
        .insert(a + 2, ((w >> 16) & 0xff) as u8)
        .insert(a + 3, ((w >> 24) & 0xff) as u8)
        .insert(a + 4, ((w >> 32) & 0xff) as u8)
        .insert(a + 5, ((w >> 40) & 0xff) as u8)
        .insert(a + 6, ((w >> 48) & 0xff) as u8)
        .insert(a + 7, ((w >> 56) & 0xff) as u8)
}

/// Reading back a just-written word yields the word: the byte split and
/// the little-endian reassembly are inverses.
pub proof fn lemma_read_write_le64(mem: Map<int, u8>, a: int, w: u64)
    ensures read_le64(write_le64(mem, a, w), a) == w,
{
    let m2 = write_le64(mem, a, w);
    assert(m2[a] == ((w & 0xff) as u8));
    assert(m2[a + 1] == (((w >> 8) & 0xff) as u8));
    assert(m2[a + 2] == (((w >> 16) & 0xff) as u8));
    assert(m2[a + 3] == (((w >> 24) & 0xff) as u8));
    assert(m2[a + 4] == (((w >> 32) & 0xff) as u8));
    assert(m2[a + 5] == (((w >> 40) & 0xff) as u8));
    assert(m2[a + 6] == (((w >> 48) & 0xff) as u8));
    assert(m2[a + 7] == (((w >> 56) & 0xff) as u8));
    assert((((w & 0xff) as u8) as u64)
        | ((((w >> 8) & 0xff) as u8) as u64) << 8
        | ((((w >> 16) & 0xff) as u8) as u64) << 16
        | ((((w >> 24) & 0xff) as u8) as u64) << 24
        | ((((w >> 32) & 0xff) as u8) as u64) << 32
        | ((((w >> 40) & 0xff) as u8) as u64) << 40
        | ((((w >> 48) & 0xff) as u8) as u64) << 48
        | ((((w >> 56) & 0xff) as u8) as u64) << 56 == w) by (bit_vector);
}

/// The two's-complement readings are inverses.
pub proof fn lemma_to_from_u64(a: i64)
    ensures from_u64(to_u64(a)) == a,
{
}

/// Equality of the NUL-terminated byte strings at `p` and `q`.
pub open spec fn cstr_eq(mem: Map<int, u8>, p: int, q: int) -> bool {
    exists|n: nat| #[trigger] mem[p + n] == 0 && mem[q + n] == 0
        && forall|i: int| 0 <= i < n ==> #[trigger] mem[p + i] == mem[q + i] && mem[p + i] != 0
}

/// Signed integer comparison predicates.
pub open spec fn int_cc_sem(cc: IntCC, a: i64, b: i64) -> bool {
    match cc {
        IntCC::Equal => a == b,
        IntCC::SignedGe => a >= b,
        IntCC::SignedLe => a <= b,
        IntCC::SignedGt => a > b,
        IntCC::SignedLt => a < b,
    }
}

/// The boolean-shaped integer denotation the condition translator produces.
pub open spec fn bool_val(b: bool) -> EvalVal {
    EvalVal::VInt(if b { 1 } else { 0 })
}

/// What the value defined at position `v` of the stream evaluates to.
/// Operand references that do not point at an earlier entry evaluate to
/// `VNone`; the builder's well-formedness rules out such streams.
pub open spec fn eval(s: Seq<Inst>, env: Env, v: int) -> EvalVal
    decreases v,
{
    if 0 <= v < s.len() {
        match s[v] {
            Inst::Iconst { ty, imm } => EvalVal::VInt(imm),
            Inst::F64ConstBits { bits } => EvalVal::VFloat(bits),
            Inst::GlobalAddr { gv } => if 0 <= gv < v {
                match s[gv as int] {
                    Inst::DeclareGv { data_id } => EvalVal::VPtr(env.layout[data_id]),
                    _ => EvalVal::VNone,
                }
            } else {
                EvalVal::VNone
            },
            Inst::Load { ty, ptr } => if 0 <= ptr < v {
                match (ty, eval(s, env, ptr as int)) {
                    (IrType::I64, EvalVal::VPtr(a)) =>
                        EvalVal::VInt(from_u64(read_le64(env.mem, a))),
                    (IrType::F64, EvalVal::VPtr(a)) =>
                        EvalVal::VFloat(read_le64(env.mem, a)),
                    (IrType::I8, EvalVal::VPtr(a)) => EvalVal::VInt(env.mem[a] as i64),
                    _ => EvalVal::VNone,
                }
            } else {
                EvalVal::VNone
            },
            Inst::IaddImm { arg, imm } => if 0 <= arg < v {
                match eval(s, env, arg as int) {
                    EvalVal::VInt(a) => EvalVal::VInt(wrap_to_i64(a + imm)),
                    _ => EvalVal::VNone,
                }
            } else {
                EvalVal::VNone
            },
            Inst::Isub { lhs, rhs } => if 0 <= lhs < v && 0 <= rhs < v {
                match (eval(s, env, lhs as int), eval(s, env, rhs as int)) {
                    (EvalVal::VInt(a), EvalVal::VInt(b)) => EvalVal::VInt(wrap_to_i64(a - b)),
                    _ => EvalVal::VNone,
                }
            } else {
                EvalVal::VNone
            },
            Inst::BxorImm { arg, imm } => if 0 <= arg < v {
                match eval(s, env, arg as int) {
                    EvalVal::VInt(a) => EvalVal::VInt(bxor_i64(a, imm)),
                    _ => EvalVal::VNone,
                }
            } else {
                EvalVal::VNone
            },
            Inst::Band { lhs, rhs } => if 0 <= lhs < v && 0 <= rhs < v {
                match (eval(s, env, lhs as int), eval(s, env, rhs as int)) {
                    (EvalVal::VInt(a), EvalVal::VInt(b)) => EvalVal::VInt(band_i64(a, b)),
                    _ => EvalVal::VNone,
                }
            } else {
                EvalVal::VNone
            },
            Inst::Bor { lhs, rhs } => if 0 <= lhs < v && 0 <= rhs < v {
                match (eval(s, env, lhs as int), eval(s, env, rhs as int)) {
                    (EvalVal::VInt(a), EvalVal::VInt(b)) => EvalVal::VInt(bor_i64(a, b)),
                    _ => EvalVal::VNone,
                }
            } else {
                EvalVal::VNone
            },
            Inst::Icmp { cc, lhs, rhs } => if 0 <= lhs < v && 0 <= rhs < v {
                match (eval(s, env, lhs as int), eval(s, env, rhs as int)) {
                    (EvalVal::VInt(a), EvalVal::VInt(b)) => bool_val(int_cc_sem(cc, a, b)),
                    _ => EvalVal::VNone,
                }
            } else {
                EvalVal::VNone
            },
            Inst::Fcmp { cc, lhs, rhs } => if 0 <= lhs < v && 0 <= rhs < v {
                match (eval(s, env, lhs as int), eval(s, env, rhs as int)) {
                    (EvalVal::VFloat(a), EvalVal::VFloat(b)) =>
                        bool_val((env.fcmp_sem)(cc, a, b)),
                    _ => EvalVal::VNone,
                }
            } else {
                EvalVal::VNone
            },
            Inst::FcvtFromSint { arg } => if 0 <= arg < v {
                match eval(s, env, arg as int) {
                    EvalVal::VInt(a) => EvalVal::VFloat((env.fcvt_sem)(a)),
                    _ => EvalVal::VNone,
                }
            } else {
                EvalVal::VNone
            },
            Inst::CallStrCmp { lhs, rhs } => if 0 <= lhs < v && 0 <= rhs < v {
                match (eval(s, env, lhs as int), eval(s, env, rhs as int)) {
                    (EvalVal::VPtr(p), EvalVal::VPtr(q)) => bool_val(cstr_eq(env.mem, p, q)),
                    _ => EvalVal::VNone,
                }
            } else {
                EvalVal::VNone
            },
            _ => EvalVal::VNone,
        }
    } else {
        EvalVal::VNone
    }
}

/// Evaluation only looks backwards: extending the stream does not change
/// what an already-emitted node evaluates to.
pub proof fn lemma_eval_prefix(s0: Seq<Inst>, s1: Seq<Inst>, env: Env, v: int)
    requires
        s0.is_prefix_of(s1),
        0 <= v < s0.len(),
    ensures eval(s1, env, v) == eval(s0, env, v),
    decreases v,
{
    assert(s1[v] == s0[v]);
    match s0[v] {
        Inst::Load { ty, ptr } => {
            if 0 <= ptr < v {
                lemma_eval_prefix(s0, s1, env, ptr as int);
            }
        },
        Inst::IaddImm { arg, .. } => {
            if 0 <= arg < v {
                lemma_eval_prefix(s0, s1, env, arg as int);
            }
        },
        Inst::Isub { lhs, rhs } => {
            if 0 <= lhs < v && 0 <= rhs < v {
                lemma_eval_prefix(s0, s1, env, lhs as int);
                lemma_eval_prefix(s0, s1, env, rhs as int);
            }
        },
        Inst::BxorImm { arg, .. } => {
            if 0 <= arg < v {
                lemma_eval_prefix(s0, s1, env, arg as int);
            }
        },
        Inst::Band { lhs, rhs } => {
            if 0 <= lhs < v && 0 <= rhs < v {
                lemma_eval_prefix(s0, s1, env, lhs as int);
                lemma_eval_prefix(s0, s1, env, rhs as int);
            }
        },
        Inst::Bor { lhs, rhs } => {
            if 0 <= lhs < v && 0 <= rhs < v {
                lemma_eval_prefix(s0, s1, env, lhs as int);
                lemma_eval_prefix(s0, s1, env, rhs as int);
            }
        },
        Inst::Icmp { lhs, rhs, .. } => {
            if 0 <= lhs < v && 0 <= rhs < v {
                lemma_eval_prefix(s0, s1, env, lhs as int);
                lemma_eval_prefix(s0, s1, env, rhs as int);
            }
        },
        Inst::Fcmp { lhs, rhs, .. } => {
            if 0 <= lhs < v && 0 <= rhs < v {
                lemma_eval_prefix(s0, s1, env, lhs as int);
                lemma_eval_prefix(s0, s1, env, rhs as int);
            }
        },
        Inst::FcvtFromSint { arg } => {
            if 0 <= arg < v {
                lemma_eval_prefix(s0, s1, env, arg as int);
            }
        },
        Inst::CallStrCmp { lhs, rhs } => {
            if 0 <= lhs < v && 0 <= rhs < v {
                lemma_eval_prefix(s0, s1, env, lhs as int);
                lemma_eval_prefix(s0, s1, env, rhs as int);
            }
        },
        Inst::GlobalAddr { gv } => {
            if 0 <= gv < v {
                assert(s1[gv as int] == s0[gv as int]);
            }
        },
        _ => {},
    }
}

/// Wrapping reduction is the identity on values already in range.
pub proof fn lemma_wrap_id(x: int)
    requires
        -0x8000_0000_0000_0000 <= x < 0x8000_0000_0000_0000,
    ensures wrap_to_i64(x) == x,
{
    let m = 0x1_0000_0000_0000_0000int;
    if x >= 0 {
        assert(x % m == x);
        assert((x + m) % m == x) by {
            assert((x + m) - m == x);
        }
    } else {
        assert(x % m == x + m);
        assert((x + m + m) % m == x + m) by {
            assert((x + m + m) - 2 * m == x);
        }
    }
}

/// The bitwise facts the condition combinators need on boolean-shaped
/// integers: xor with 1 negates, and / or act as conjunction and
/// disjunction on {0, 1}.
pub proof fn lemma_bool_bits()
    ensures
        bxor_i64(0, 1) == 1,
        bxor_i64(1, 1) == 0,
        band_i64(0, 0) == 0,
        band_i64(0, 1) == 0,
        band_i64(1, 0) == 0,
        band_i64(1, 1) == 1,
        bor_i64(0, 0) == 0,
        bor_i64(0, 1) == 1,
        bor_i64(1, 0) == 1,
        bor_i64(1, 1) == 1,
{
    assert(0u64 ^ 1u64 == 1u64) by (bit_vector);
    assert(1u64 ^ 1u64 == 0u64) by (bit_vector);
    assert(0u64 & 0u64 == 0u64) by (bit_vector);
    assert(0u64 & 1u64 == 0u64) by (bit_vector);
    assert(1u64 & 0u64 == 0u64) by (bit_vector);
    assert(1u64 & 1u64 == 1u64) by (bit_vector);
    assert(0u64 | 0u64 == 0u64) by (bit_vector);
    assert(0u64 | 1u64 == 1u64) by (bit_vector);
    assert(1u64 | 0u64 == 1u64) by (bit_vector);
    assert(1u64 | 1u64 == 1u64) by (bit_vector);
}

/// What a parser-level operand denotes: literals denote themselves (string
/// literals the address of their interned buffer); a variable denotes its
/// buffer address if its picture is a string, else the 64-bit word stored
/// there.
pub open spec fn val_sem(ctx: Ctx, env: Env, v: Value) -> EvalVal {
    match v {
        Value::Literal(Literal::Int(i)) => EvalVal::VInt(i),
        Value::Literal(Literal::Float(bits)) => EvalVal::VFloat(bits),
        Value::Literal(Literal::Str(sid)) =>
            EvalVal::VPtr(env.layout[ctx.spec_str_data_id(sid)]),
        Value::Variable(s) => {
            let a = env.layout[ctx.spec_sym_data_id(s)];
            match ctx.spec_sym_pic(s).kind {
                PicKind::Str => EvalVal::VPtr(a),
                PicKind::Float => EvalVal::VFloat(read_le64(env.mem, a)),
                PicKind::Int => EvalVal::VInt(from_u64(read_le64(env.mem, a))),
            }
        },
    }
}

/// The float reading of an operand's denotation: floats are themselves,
/// integers go through the conversion's interpretation.
pub open spec fn as_float(env: Env, v: EvalVal) -> u64 {
    match v {
        EvalVal::VFloat(b) => b,
        EvalVal::VInt(i) => (env.fcvt_sem)(i),
        _ => 0,
    }
}

/// The address of an operand's denotation (strings only).
pub open spec fn as_ptr(v: EvalVal) -> int {
    match v {
        EvalVal::VPtr(a) => a,
        _ => 0,
    }
}

/// The integer of an operand's denotation.
pub open spec fn as_int(v: EvalVal) -> i64 {
    match v {
        EvalVal::VInt(i) => i,
        _ => 0,
    }
}

/// The meaning of one comparison: strings compare as NUL-terminated byte
/// strings (equality only), a float on either side promotes the other side
/// through the conversion, and pure integers compare signed.
pub open spec fn comp_sem(ctx: Ctx, env: Env, l: Value, r: Value, icc: IntCC, fcc: FloatCC)
    -> bool
{
    let lv = val_sem(ctx, env, l);
    let rv = val_sem(ctx, env, r);
    if crate::ast::val_kind(ctx, l) == PicKind::Str || crate::ast::val_kind(ctx, r) == PicKind::Str {
        cstr_eq(env.mem, as_ptr(lv), as_ptr(rv))
    } else if crate::ast::val_kind(ctx, l) == PicKind::Float
        || crate::ast::val_kind(ctx, r) == PicKind::Float {
        (env.fcmp_sem)(fcc, as_float(env, lv), as_float(env, rv))
    } else {
        int_cc_sem(icc, as_int(lv), as_int(rv))
    }
}

/// The meaning of a condition tree under this model. Combinators evaluate
/// both sides; there is no short-circuiting in the source language.
pub open spec fn cond_sem(ctx: Ctx, env: Env, c: Cond) -> bool
    decreases c,
{
    match c {
        Cond::Eq(l, r) => comp_sem(ctx, env, l, r, IntCC::Equal, FloatCC::Equal),
        Cond::Ge(l, r) => comp_sem(ctx, env, l, r, IntCC::SignedGe, FloatCC::Ge),
        Cond::Le(l, r) => comp_sem(ctx, env, l, r, IntCC::SignedLe, FloatCC::Le),
        Cond::Gt(l, r) => comp_sem(ctx, env, l, r, IntCC::SignedGt, FloatCC::Gt),
        Cond::Lt(l, r) => comp_sem(ctx, env, l, r, IntCC::SignedLt, FloatCC::Lt),
        Cond::Not(inner) => !cond_sem(ctx, env, *inner),
        Cond::And(l, r) => cond_sem(ctx, env, *l) && cond_sem(ctx, env, *r),
        Cond::Or(l, r) => cond_sem(ctx, env, *l) || cond_sem(ctx, env, *r),
    }
}

} // verus!

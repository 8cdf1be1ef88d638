//! The move translator's operand helpers: validation of move references
//! and lowering of optional 1-based spans into 0-based `(start, length)`
//! IR value pairs. The `-1` index adjustment lives here and in the
//! single-character move path, and nowhere else.

use vstd::prelude::*;
use crate::ast::{CgError, CgLiteral, Ctx, IntrinsicCall, Literal, MoveData, MoveRef, MoveSource, MoveSpan, Pic, PicKind, Value};
use crate::ir::{effect_count, extends_straight, val_def, Inst, IrType};
use crate::ir::{lemma_extends_straight_refl, lemma_extends_straight_trans, lemma_push_extends};
use crate::sem::{as_int, eval, lemma_eval_prefix, val_sem, wrap_to_i64, Env, EvalVal};
use crate::cond::{sym_lookup_err, val_err};
use crate::translator::{lemma_wf_step, FuncTranslator};

verus! {

broadcast use crate::ir::lemma_effect_count_push;

/// Whether an operand is integer-typed (neither float nor string).
pub open spec fn val_is_int(ctx: Ctx, v: Value) -> bool {
    crate::ast::val_kind(ctx, v) != PicKind::Float
        && crate::ast::val_kind(ctx, v) != PicKind::Str
}

/// The diagnostic validating a move reference against its picture raises,
/// if any: a span demands a string picture and integer-typed span values.
pub open spec fn validate_err(ctx: Ctx, mr: MoveRef, pic: Pic) -> Option<CgError> {
    match mr.span {
        Some(span) => if pic.kind != PicKind::Str {
            Some(CgError::SpanOnNonString { sym: mr.sym })
        } else if sym_lookup_err(ctx, span.start_idx) is Some {
            sym_lookup_err(ctx, span.start_idx)
        } else if !val_is_int(ctx, span.start_idx) {
            Some(CgError::SpanIndexNotInteger)
        } else {
            match span.len {
                Some(lv) => if sym_lookup_err(ctx, lv) is Some {
                    sym_lookup_err(ctx, lv)
                } else if !val_is_int(ctx, lv) {
                    Some(CgError::SpanLengthNotInteger)
                } else {
                    None
                },
                None => None,
            }
        },
        None => None,
    }
}

/// Whether this reference can be statically analysed as always having the
/// given length: its span's length must be exactly that integer literal.
pub open spec fn spec_has_static_length_of(mr: MoveRef, len: i64) -> bool {
    match mr.span {
        Some(span) => match span.len {
            Some(Value::Literal(Literal::Int(i))) => i == len,
            _ => false,
        },
        None => false,
    }
}

impl MoveRef {
    /// Validates this move reference against the given picture: a span is
    /// only legal on a string variable, and span values must be integers.
    pub fn validate(&self, pic: &Pic, ctx: &Ctx) -> (r: Result<(), CgError>)
        ensures
            r == (match validate_err(*ctx, *self, *pic) {
                Option::None => Result::<(), CgError>::Ok(()),
                Option::Some(e) => Result::<(), CgError>::Err(e),
            }),
    {
        if let Some(span) = &self.span {
            if !pic.is_str() {
                return Err(CgError::SpanOnNonString { sym: self.sym });
            }
            if span.start_idx.is_float(ctx)? || span.start_idx.is_str(ctx)? {
                return Err(CgError::SpanIndexNotInteger);
            }
            if let Some(len) = &span.len {
                if len.is_float(ctx)? || len.is_str(ctx)? {
                    return Err(CgError::SpanLengthNotInteger);
                }
            }
        }
        Ok(())
    }

    /// Whether this reference always denotes exactly `len` characters.
    pub fn has_static_length_of(&self, len: i64) -> (r: bool)
        ensures r == spec_has_static_length_of(*self, len),
    {
        match &self.span {
            Some(span) => match &span.len {
                Some(Value::Literal(Literal::Int(i))) => *i == len,
                _ => false,
            },
            None => false,
        }
    }
}

/// Whether loading a span's values will succeed.
pub open spec fn span_vals_ok(ctx: Ctx, span: Option<MoveSpan>) -> bool {
    match span {
        Some(sp) => crate::ast::val_ok(ctx, sp.start_idx) && match sp.len {
            Some(lv) => crate::ast::val_ok(ctx, lv),
            None => true,
        },
        None => true,
    }
}

/// The diagnostic loading a span's values raises, if any.
pub open spec fn span_load_err(ctx: Ctx, span: Option<MoveSpan>) -> Option<CgError> {
    match span {
        Some(sp) => if val_err(ctx, sp.start_idx) is Some {
            val_err(ctx, sp.start_idx)
        } else {
            match sp.len {
                Some(lv) => val_err(ctx, lv),
                None => None,
            }
        },
        None => None,
    }
}

/// The denotation of the 0-based start index a span lowers to.
pub open spec fn span_start_sem(ctx: Ctx, env: Env, pic: Pic, span: Option<MoveSpan>) -> i64 {
    match span {
        Some(sp) => wrap_to_i64(as_int(val_sem(ctx, env, sp.start_idx)) - 1),
        None => 0,
    }
}

/// The denotation of the length a span lowers to: an explicit length is
/// itself; an absent length runs to the end of the string, excluding the
/// NUL; an absent span covers the whole string.
pub open spec fn span_len_sem(ctx: Ctx, env: Env, pic: Pic, span: Option<MoveSpan>) -> i64 {
    match span {
        Some(sp) => match sp.len {
            Some(lv) => as_int(val_sem(ctx, env, lv)),
            None => wrap_to_i64(
                (pic.comp_size - 1) - span_start_sem(ctx, env, pic, span)),
        },
        None => (pic.comp_size - 1) as i64,
    }
}

impl FuncTranslator {
    /// Lowers an optional 1-based span on a variable of the given picture
    /// to a 0-based `(start_index, length)` pair of 64-bit integer IR
    /// values. No span means the entire string minus the NUL.
    #[verifier::rlimit(60)]
    pub fn load_span(&mut self, pic: &Pic, span: Option<&MoveSpan>) -> (res:
        Result<(usize, usize), CgError>)
        requires
            old(self).wf(),
            pic.wf(),
            match span {
                Some(sp) => val_is_int(old(self).ctx, sp.start_idx) && match sp.len {
                    Some(lv) => val_is_int(old(self).ctx, lv),
                    None => true,
                },
                None => true,
            },
        ensures
            final(self).wf(),
            final(self).ctx == old(self).ctx,
            extends_straight(old(self).builder, final(self).builder),
            effect_count(final(self).builder.insts@)
                == effect_count(old(self).builder.insts@),
            res is Ok <==> span_vals_ok(old(self).ctx, match span {
                Some(sp) => Some(*sp),
                None => None,
            }),
            res is Err ==> Some(res->Err_0) == span_load_err(old(self).ctx, match span {
                Some(sp) => Some(*sp),
                None => None,
            }),
            res is Ok ==> val_def(final(self).builder.insts@, res->Ok_0.0)
                && val_def(final(self).builder.insts@, res->Ok_0.1),
            res is Ok ==> forall|env: Env|
                #[trigger] eval(final(self).builder.insts@, env, res->Ok_0.0 as int)
                    == (EvalVal::VInt(span_start_sem(old(self).ctx, env, *pic, match span {
                        Some(sp) => Some(*sp),
                        None => None,
                    }))),
            res is Ok ==> forall|env: Env|
                #[trigger] eval(final(self).builder.insts@, env, res->Ok_0.1 as int)
                    == (EvalVal::VInt(span_len_sem(old(self).ctx, env, *pic, match span {
                        Some(sp) => Some(*sp),
                        None => None,
                    }))),
    {
        let ghost ctx = old(self).ctx;
        let ghost spg = match span { Some(sp) => Some(*sp), None => None };
        match span {
            Some(sp) => {
                let idx0 = self.load_value(&sp.start_idx)?;
                let ghost t1 = *self;
                let idx = self.builder.iadd_imm(idx0, -1);
                let ghost t2 = *self;
                proof {
                    lemma_wf_step(t1, *self);
                    lemma_push_extends(t1.builder, t2.builder);
                    lemma_extends_straight_trans(old(self).builder, t1.builder, t2.builder);
                    assert forall|env: Env|
                        #[trigger] eval(t2.builder.insts@, env, idx as int)
                            == (EvalVal::VInt(span_start_sem(ctx, env, *pic, spg))) by {
                        lemma_eval_prefix(t1.builder.insts@, t2.builder.insts@, env,
                            idx0 as int);
                        assert(t2.builder.insts@[idx as int]
                            == (Inst::IaddImm { arg: idx0, imm: -1i64 }));
                        assert(eval(t2.builder.insts@, env, idx0 as int)
                            == val_sem(ctx, env, sp.start_idx));
                        assert(val_sem(ctx, env, sp.start_idx)
                            == (EvalVal::VInt(as_int(val_sem(ctx, env, sp.start_idx)))));
                    }
                }
                match &sp.len {
                    Some(lv) => {
                        let len = match self.load_value(lv) {
                            Ok(v) => v,
                            Err(e) => {
                                proof {
                                    lemma_extends_straight_trans(old(self).builder,
                                        t2.builder, self.builder);
                                }
                                return Err(e);
                            },
                        };
                        proof {
                            lemma_extends_straight_trans(old(self).builder, t2.builder,
                                self.builder);
                            let s = self.builder.insts@;
                            assert(val_def(s, idx)) by {
                                assert(s[idx as int] == t2.builder.insts@[idx as int]);
                            }
                            assert forall|env: Env|
                                #[trigger] eval(s, env, idx as int)
                                    == (EvalVal::VInt(span_start_sem(ctx, env, *pic, spg)))
                                by {
                                lemma_eval_prefix(t2.builder.insts@, s, env, idx as int);
                            }
                            assert forall|env: Env|
                                #[trigger] eval(s, env, len as int)
                                    == (EvalVal::VInt(span_len_sem(ctx, env, *pic, spg)))
                                by {
                                assert(eval(s, env, len as int) == val_sem(ctx, env, *lv));
                                assert(val_sem(ctx, env, *lv)
                                    == (EvalVal::VInt(as_int(val_sem(ctx, env, *lv)))));
                            }
                        }
                        Ok((idx, len))
                    },
                    None => {
                        let total = self.builder.iconst(IrType::I64,
                            (pic.comp_size - 1) as i64);
                        let ghost t3 = *self;
                        proof {
                            lemma_wf_step(t2, t3);
                            lemma_push_extends(t2.builder, t3.builder);
                            assert(val_def(t3.builder.insts@, idx)) by {
                                assert(t3.builder.insts@[idx as int]
                                    == t2.builder.insts@[idx as int]);
                            }
                        }
                        let len = self.builder.isub(total, idx);
                        proof {
                            lemma_wf_step(t3, *self);
                            lemma_push_extends(t3.builder, self.builder);
                            lemma_extends_straight_trans(t2.builder, t3.builder,
                                self.builder);
                            lemma_extends_straight_trans(old(self).builder, t2.builder,
                                self.builder);
                            let s = self.builder.insts@;
                            assert forall|env: Env|
                                #[trigger] eval(s, env, idx as int)
                                    == (EvalVal::VInt(span_start_sem(ctx, env, *pic, spg)))
                                by {
                                lemma_eval_prefix(t2.builder.insts@, t3.builder.insts@, env,
                                    idx as int);
                                lemma_eval_prefix(t3.builder.insts@, s, env, idx as int);
                            }
                            assert forall|env: Env|
                                #[trigger] eval(s, env, len as int)
                                    == (EvalVal::VInt(span_len_sem(ctx, env, *pic, spg)))
                                by {
                                lemma_eval_prefix(t2.builder.insts@, t3.builder.insts@, env,
                                    idx as int);
                                lemma_eval_prefix(t3.builder.insts@, s, env, idx as int);
                                assert(s[len as int] == (Inst::Isub { lhs: total, rhs: idx }));
                                assert(s[total as int]
                                    == (Inst::Iconst { ty: IrType::I64,
                                        imm: (pic.comp_size - 1) as i64 }));
                                assert(eval(s, env, total as int)
                                    == (EvalVal::VInt((pic.comp_size - 1) as i64)));
                            }
                        }
                        Ok((idx, len))
                    },
                }
            },
            None => {
                let idx = self.builder.iconst(IrType::Ptr, 0);
                let ghost t1 = *self;
                let len = self.builder.iconst(IrType::Ptr, (pic.comp_size - 1) as i64);
                proof {
                    lemma_wf_step(*old(self), t1);
                    lemma_wf_step(t1, *self);
                    lemma_push_extends(old(self).builder, t1.builder);
                    lemma_push_extends(t1.builder, self.builder);
                    lemma_extends_straight_trans(old(self).builder, t1.builder, self.builder);
                    let s = self.builder.insts@;
                    assert(s[idx as int] == (Inst::Iconst { ty: IrType::Ptr, imm: 0 }));
                    assert(s[len as int] == (Inst::Iconst { ty: IrType::Ptr,
                        imm: (pic.comp_size - 1) as i64 }));
                }
                Ok((idx, len))
            },
        }
    }
}


/// Whether a literal fits the destination picture: kinds must match, and a
/// string literal must fit the buffer together with its NUL terminator.
pub open spec fn lit_fits(ctx: Ctx, pic: Pic, lit: Literal) -> bool {
    match lit {
        Literal::Int(_) => pic.kind == PicKind::Int,
        Literal::Float(_) => pic.kind == PicKind::Float,
        Literal::Str(sid) => pic.kind == PicKind::Str && ctx.str_ok(sid)
            && ctx.spec_str_len(sid) + 1 <= pic.comp_size,
    }
}

impl Pic {
    /// Whether the literal fits in a variable of this picture.
    pub fn verify_lit(&self, ctx: &Ctx, lit: &Literal) -> (r: bool)
        ensures r == lit_fits(*ctx, *self, *lit),
    {
        match lit {
            Literal::Int(_) => matches!(self.kind, PicKind::Int),
            Literal::Float(_) => matches!(self.kind, PicKind::Float),
            Literal::Str(sid) => {
                if !matches!(self.kind, PicKind::Str) {
                    return false;
                }
                match ctx.str_len(*sid) {
                    Ok(n) => n < self.comp_size,
                    Err(_) => false,
                }
            },
        }
    }
}

/// The last emitted instruction is a store of `stored` to `dest_addr`.
pub open spec fn store_tail(s: Seq<Inst>, env: Env, stored: EvalVal, dest_addr: int) -> bool {
    &&& s.len() >= 1
    &&& match s[s.len() - 1] {
            Inst::Store { val, ptr } => eval(s, env, val as int) == stored
                && eval(s, env, ptr as int) == (EvalVal::VPtr(dest_addr)),
            _ => false,
        }
}

/// The last emitted instruction copies `n` bytes from `src_addr` to
/// `dest_addr`.
pub open spec fn memcpy_tail(s: Seq<Inst>, env: Env, dest_addr: int, src_addr: int, n: i64)
    -> bool
{
    &&& s.len() >= 1
    &&& match s[s.len() - 1] {
            Inst::CallMemcpy { dest, src, size } =>
                eval(s, env, dest as int) == (EvalVal::VPtr(dest_addr))
                && eval(s, env, src as int) == (EvalVal::VPtr(src_addr))
                && eval(s, env, size as int) == (EvalVal::VInt(n)),
            _ => false,
        }
}

/// The last emitted instruction calls the `charcpy` intrinsic with the
/// given pointers and offsets.
pub open spec fn charcpy_tail(s: Seq<Inst>, env: Env, src_addr: int, dest_addr: int,
    soff: i64, doff: i64) -> bool
{
    &&& s.len() >= 1
    &&& match s[s.len() - 1] {
            Inst::CallCharCpy { args } =>
                eval(s, env, args[0] as int) == (EvalVal::VPtr(src_addr))
                && eval(s, env, args[1] as int) == (EvalVal::VPtr(dest_addr))
                && eval(s, env, args[2] as int) == (EvalVal::VInt(soff))
                && eval(s, env, args[3] as int) == (EvalVal::VInt(doff)),
            _ => false,
        }
}

/// The last emitted instruction calls the `strcpy` intrinsic with the
/// canonical eight-argument signature.
pub open spec fn strcpy_tail(s: Seq<Inst>, env: Env, src_addr: int, dest_addr: int,
    src_len: i64, dest_len: i64, ssi: i64, ssl: i64, dsi: i64, dsl: i64) -> bool
{
    &&& s.len() >= 1
    &&& match s[s.len() - 1] {
            Inst::CallStrCpy { args } =>
                eval(s, env, args[0] as int) == (EvalVal::VPtr(src_addr))
                && eval(s, env, args[1] as int) == (EvalVal::VPtr(dest_addr))
                && eval(s, env, args[2] as int) == (EvalVal::VInt(src_len))
                && eval(s, env, args[3] as int) == (EvalVal::VInt(dest_len))
                && eval(s, env, args[4] as int) == (EvalVal::VInt(ssi))
                && eval(s, env, args[5] as int) == (EvalVal::VInt(ssl))
                && eval(s, env, args[6] as int) == (EvalVal::VInt(dsi))
                && eval(s, env, args[7] as int) == (EvalVal::VInt(dsl)),
            _ => false,
        }
}

/// The diagnostic moving a literal into a reference raises, if any:
/// destination lookup, reference validation, then the fit check.
pub open spec fn mov_lit_err(ctx: Ctx, lit: Literal, dest: MoveRef) -> Option<CgError> {
    if !ctx.sym_ok(dest.sym) {
        Some(CgError::MissingSymbol { sym: dest.sym })
    } else if validate_err(ctx, dest, ctx.spec_sym_pic(dest.sym)) is Some {
        validate_err(ctx, dest, ctx.spec_sym_pic(dest.sym))
    } else if !lit_fits(ctx, ctx.spec_sym_pic(dest.sym), lit) {
        Some(CgError::LiteralDoesNotFit { sym: dest.sym })
    } else {
        None
    }
}

/// What a successful literal move leaves at the end of the stream:
/// numeric literals store their constant; a one-character string is a
/// single byte store; a plain string is a byte copy with its NUL; a
/// spanned string is the canonical strcpy call.
pub open spec fn mov_lit_emitted(ctx: Ctx, lit: Literal, dest: MoveRef, s: Seq<Inst>)
    -> bool
{
    let did = ctx.spec_sym_data_id(dest.sym);
    let pic = ctx.spec_sym_pic(dest.sym);
    match lit {
        Literal::Int(i) => forall|env: Env|
            #[trigger] store_tail(s, env, EvalVal::VInt(i), env.layout[did]),
        Literal::Float(b) => forall|env: Env|
            #[trigger] store_tail(s, env, EvalVal::VFloat(b), env.layout[did]),
        Literal::Str(sid) => {
            let sdid = ctx.spec_str_data_id(sid);
            if pic.comp_size == 2 {
                forall|env: Env| #[trigger] store_tail(s, env,
                    EvalVal::VInt(ctx.str_lits@[sid as int].bytes@[0] as i64),
                    env.layout[did])
            } else if dest.span is None {
                forall|env: Env| #[trigger] memcpy_tail(s, env, env.layout[did],
                    env.layout[sdid], (ctx.spec_str_len(sid) + 1) as i64)
            } else {
                forall|env: Env| #[trigger] strcpy_tail(s, env, env.layout[sdid],
                    env.layout[did], ctx.spec_str_len(sid) as i64,
                    (pic.comp_size - 1) as i64, 0,
                    ctx.spec_str_len(sid) as i64,
                    span_start_sem(ctx, env, pic, dest.span),
                    span_len_sem(ctx, env, pic, dest.span))
            }
        },
    }
}


impl FuncTranslator {
    /// Lowers the move of a string literal into a spanned destination:
    /// calls the `strcpy` intrinsic with the canonical eight-argument
    /// signature, the source span covering the whole literal.
    #[verifier::rlimit(80)]
    fn translate_mov_lit_spanned(&mut self, src_val: usize, src_len: usize, dest_pic: &Pic,
        dest_span: &MoveSpan, dest_len: usize, dest_ptr: usize) -> (res: Result<(), CgError>)
        requires
            old(self).wf(),
            dest_pic.wf(),
            dest_pic.kind == PicKind::Str,
            val_def(old(self).builder.insts@, src_val),
            val_def(old(self).builder.insts@, dest_ptr),
            val_is_int(old(self).ctx, dest_span.start_idx),
            crate::ast::val_ok(old(self).ctx, dest_span.start_idx),
            match dest_span.len {
                Some(lv) => val_is_int(old(self).ctx, lv)
                    && crate::ast::val_ok(old(self).ctx, lv),
                None => true,
            },
            dest_len == dest_pic.comp_size - 1,
            src_len + 1 <= dest_pic.comp_size,
        ensures
            final(self).wf(),
            final(self).ctx == old(self).ctx,
            extends_straight(old(self).builder, final(self).builder),
            effect_count(final(self).builder.insts@)
                == effect_count(old(self).builder.insts@) + 1,
            res is Ok,
            forall|env: Env| {
                let s = final(self).builder.insts@;
                match s[s.len() - 1] {
                    Inst::CallStrCpy { args } =>
                        eval(s, env, args[0] as int)
                            == #[trigger] eval(old(self).builder.insts@, env, src_val as int)
                        && eval(s, env, args[1] as int)
                            == eval(old(self).builder.insts@, env, dest_ptr as int)
                        && eval(s, env, args[2] as int) == (EvalVal::VInt(src_len as i64))
                        && eval(s, env, args[3] as int) == (EvalVal::VInt(dest_len as i64))
                        && eval(s, env, args[4] as int) == (EvalVal::VInt(0))
                        && eval(s, env, args[5] as int) == (EvalVal::VInt(src_len as i64))
                        && eval(s, env, args[6] as int) == (EvalVal::VInt(span_start_sem(
                            old(self).ctx, env, *dest_pic, Some(*dest_span))))
                        && eval(s, env, args[7] as int) == (EvalVal::VInt(span_len_sem(
                            old(self).ctx, env, *dest_pic, Some(*dest_span)))),
                    _ => false,
                }
            },
    {
        let ghost t0 = *self;
        let src_span_idx = self.builder.iconst(IrType::I64, 0);
        let ghost t1 = *self;
        let src_span_len = self.builder.iconst(IrType::I64, src_len as i64);
        let ghost t2 = *self;
        proof {
            lemma_wf_step(t0, t1);
            lemma_wf_step(t1, t2);
            lemma_push_extends(t0.builder, t1.builder);
            lemma_push_extends(t1.builder, t2.builder);
            lemma_extends_straight_trans(t0.builder, t1.builder, t2.builder);
        }
        let sp = self.load_span(dest_pic, Some(dest_span));
        let (dest_span_idx, dest_span_len) = match sp {
            Ok(p) => p,
            Err(e) => {
                proof {
                    assert(false);
                }
                return Err(e);
            },
        };
        let ghost t3 = *self;
        let dest_len_val = self.builder.iconst(IrType::I64, dest_len as i64);
        let ghost t4 = *self;
        proof {
            lemma_wf_step(t3, t4);
            lemma_push_extends(t3.builder, t4.builder);
            lemma_extends_straight_trans(t2.builder, t3.builder, t4.builder);
            lemma_extends_straight_trans(t0.builder, t2.builder, t4.builder);
            assert(val_def(t4.builder.insts@, src_val)) by {
                assert(t4.builder.insts@[src_val as int] == t0.builder.insts@[src_val as int]);
            }
            assert(val_def(t4.builder.insts@, dest_ptr)) by {
                assert(t4.builder.insts@[dest_ptr as int]
                    == t0.builder.insts@[dest_ptr as int]);
            }
            assert(val_def(t4.builder.insts@, src_span_idx)) by {
                assert(t4.builder.insts@[src_span_idx as int]
                    == t1.builder.insts@[src_span_idx as int]);
            }
            assert(val_def(t4.builder.insts@, src_span_len)) by {
                assert(t4.builder.insts@[src_span_len as int]
                    == t2.builder.insts@[src_span_len as int]);
            }
            assert(val_def(t4.builder.insts@, dest_span_idx)) by {
                assert(t4.builder.insts@[dest_span_idx as int]
                    == t3.builder.insts@[dest_span_idx as int]);
            }
            assert(val_def(t4.builder.insts@, dest_span_len)) by {
                assert(t4.builder.insts@[dest_span_len as int]
                    == t3.builder.insts@[dest_span_len as int]);
            }
        }
        let args: [usize; 8] = [src_val, dest_ptr, src_span_len, dest_len_val, src_span_idx,
            src_span_len, dest_span_idx, dest_span_len];
        self.builder.call_strcpy(args);
        proof {
            lemma_wf_step(t4, *self);
            lemma_push_extends(t4.builder, self.builder);
            lemma_extends_straight_trans(t0.builder, t4.builder, self.builder);
            let s = self.builder.insts@;
            assert(s[s.len() - 1] == (Inst::CallStrCpy { args }));
            assert forall|env: Env| eval(s, env, src_val as int)
                == #[trigger] eval(t0.builder.insts@, env, src_val as int)
                && eval(s, env, dest_ptr as int)
                    == eval(t0.builder.insts@, env, dest_ptr as int)
                && eval(s, env, src_span_idx as int) == (EvalVal::VInt(0))
                && eval(s, env, src_span_len as int) == (EvalVal::VInt(src_len as i64))
                && eval(s, env, dest_len_val as int) == (EvalVal::VInt(dest_len as i64))
                && eval(s, env, dest_span_idx as int) == (EvalVal::VInt(span_start_sem(
                    t0.ctx, env, *dest_pic, Some(*dest_span))))
                && eval(s, env, dest_span_len as int) == (EvalVal::VInt(span_len_sem(
                    t0.ctx, env, *dest_pic, Some(*dest_span)))) by {
                lemma_eval_prefix(t0.builder.insts@, s, env, src_val as int);
                lemma_eval_prefix(t0.builder.insts@, s, env, dest_ptr as int);
                assert(s[src_span_idx as int]
                    == (Inst::Iconst { ty: IrType::I64, imm: 0 }));
                assert(s[src_span_len as int]
                    == (Inst::Iconst { ty: IrType::I64, imm: src_len as i64 }));
                assert(s[dest_len_val as int]
                    == (Inst::Iconst { ty: IrType::I64, imm: dest_len as i64 }));
                lemma_eval_prefix(t3.builder.insts@, s, env, dest_span_idx as int);
                lemma_eval_prefix(t3.builder.insts@, s, env, dest_span_len as int);
            }
        }
        Ok(())
    }

    /// Moves a literal into the given destination reference. Numeric
    /// literals store directly; a string literal uses the single-byte
    /// store when the destination holds exactly one character, a plain
    /// byte copy when it has no span, and the `strcpy` intrinsic when it
    /// does.
    #[verifier::rlimit(100)]
    pub fn translate_mov_lit(&mut self, lit: &Literal, dest: &MoveRef) -> (res:
        Result<(), CgError>)
        requires old(self).wf(),
        ensures
            final(self).wf(),
            final(self).ctx == old(self).ctx,
            extends_straight(old(self).builder, final(self).builder),
            res is Ok <==> mov_lit_err(old(self).ctx, *lit, *dest) is None,
            res is Err ==> Some(res->Err_0) == mov_lit_err(old(self).ctx, *lit, *dest),
            res is Ok ==> mov_lit_emitted(old(self).ctx, *lit, *dest,
                final(self).builder.insts@),
            res is Ok ==> effect_count(final(self).builder.insts@)
                == effect_count(old(self).builder.insts@) + 1,
            res is Err ==> effect_count(final(self).builder.insts@)
                == effect_count(old(self).builder.insts@),
    {
        let ghost ctx = old(self).ctx;
        let dest_id = self.ctx.sym_data_id(dest.sym)?;
        let dest_pic = match self.ctx.sym_pic(dest.sym) {
            Ok(p) => p,
            Err(e) => {
                proof {
                    assert(false);
                }
                return Err(e);
            },
        };
        dest.validate(&dest_pic, &self.ctx)?;
        if !dest_pic.verify_lit(&self.ctx, lit) {
            return Err(CgError::LiteralDoesNotFit { sym: dest.sym });
        }
        let dest_ptr = self.load_static_ptr(dest_id);
        let ghost t1 = *self;
        proof {
            assert(ctx.spec_sym_pic(dest.sym).wf());
        }

        match lit {
            Literal::Int(_) | Literal::Float(_) => {
                let src_val = match self.load_lit(lit) {
                    Ok(v) => v,
                    Err(e) => {
                        proof {
                            assert(false);
                        }
                        return Err(e);
                    },
                };
                let ghost t2 = *self;
                proof {
                    assert(val_def(t2.builder.insts@, dest_ptr)) by {
                        assert(t2.builder.insts@[dest_ptr as int]
                            == t1.builder.insts@[dest_ptr as int]);
                        assert(crate::translator::is_static_ptr(t1.builder.insts@, dest_ptr,
                            ctx.spec_sym_data_id(dest.sym)));
                        let gv = choose|gv: usize| gv < dest_ptr
                            && t1.builder.insts@[dest_ptr as int]
                                == (Inst::GlobalAddr { gv })
                            && (#[trigger] t1.builder.insts@[gv as int])
                                == (Inst::DeclareGv {
                                    data_id: ctx.spec_sym_data_id(dest.sym) });
                    }
                    assert(val_def(t2.builder.insts@, src_val)) by {
                        match *lit {
                            Literal::Int(i) => {},
                            Literal::Float(b) => {},
                            Literal::Str(sid) => {},
                        }
                    }
                }
                self.builder.store(src_val, dest_ptr);
                proof {
                    lemma_wf_step(t2, *self);
                    lemma_push_extends(t2.builder, self.builder);
                    lemma_extends_straight_trans(old(self).builder, t1.builder, t2.builder);
                    lemma_extends_straight_trans(old(self).builder, t2.builder, self.builder);
                    let s = self.builder.insts@;
                    let did = ctx.spec_sym_data_id(dest.sym);
                    assert(s[s.len() - 1] == (Inst::Store { val: src_val, ptr: dest_ptr }));
                    assert forall|env: Env| eval(s, env, src_val as int)
                        == val_sem(ctx, env, Value::Literal(*lit))
                        && eval(s, env, dest_ptr as int) == (EvalVal::VPtr(env.layout[did]))
                        by {
                        crate::translator::lemma_lit_eval(t2.builder.insts@, ctx, *lit,
                            src_val, env);
                        lemma_eval_prefix(t2.builder.insts@, s, env, src_val as int);
                        crate::translator::lemma_static_ptr_prefix(t1.builder.insts@,
                            s, dest_ptr, did);
                        crate::translator::lemma_static_ptr_eval(s, dest_ptr, did, env);
                    }
                }
                Ok(())
            },
            Literal::Str(sid) => {
                let src_len = match self.ctx.str_len(*sid) {
                    Ok(n) => n,
                    Err(e) => {
                        proof {
                            assert(false);
                        }
                        return Err(e);
                    },
                };
                let dest_len = dest_pic.comp_size - 1;
                if dest_len == 1 {
                    let b = self.ctx.str_lits[*sid].bytes[0];
                    let char_val = self.load_cg_lit(&CgLiteral::Char(b));
                    let ghost t2 = *self;
                    proof {
                        assert(val_def(t2.builder.insts@, dest_ptr)) by {
                            assert(t2.builder.insts@[dest_ptr as int]
                                == t1.builder.insts@[dest_ptr as int]);
                            let gv = choose|gv: usize| gv < dest_ptr
                                && t1.builder.insts@[dest_ptr as int]
                                    == (Inst::GlobalAddr { gv })
                                && (#[trigger] t1.builder.insts@[gv as int])
                                    == (Inst::DeclareGv {
                                        data_id: ctx.spec_sym_data_id(dest.sym) });
                        }
                    }
                    self.builder.store(char_val, dest_ptr);
                    proof {
                        lemma_wf_step(t2, *self);
                        lemma_push_extends(t2.builder, self.builder);
                        lemma_extends_straight_trans(old(self).builder, t1.builder,
                            t2.builder);
                        lemma_extends_straight_trans(old(self).builder, t2.builder,
                            self.builder);
                        let s = self.builder.insts@;
                        let did = ctx.spec_sym_data_id(dest.sym);
                        assert(s[s.len() - 1]
                            == (Inst::Store { val: char_val, ptr: dest_ptr }));
                        assert forall|env: Env| #[trigger] store_tail(s, env,
                            EvalVal::VInt(ctx.str_lits@[*sid as int].bytes@[0] as i64),
                            env.layout[did]) by {
                            assert(s[char_val as int]
                                == (Inst::Iconst { ty: IrType::I8, imm: b as i64 }));
                            crate::translator::lemma_static_ptr_prefix(t1.builder.insts@,
                                s, dest_ptr, did);
                            crate::translator::lemma_static_ptr_eval(s, dest_ptr, did, env);
                        }
                    }
                    Ok(())
                } else {
                    let src_val = match self.load_lit(lit) {
                        Ok(v) => v,
                        Err(e) => {
                            proof {
                                assert(false);
                            }
                            return Err(e);
                        },
                    };
                    let ghost t2 = *self;
                    proof {
                        lemma_extends_straight_trans(old(self).builder, t1.builder,
                            t2.builder);
                        assert(val_def(t2.builder.insts@, dest_ptr)) by {
                            assert(t2.builder.insts@[dest_ptr as int]
                                == t1.builder.insts@[dest_ptr as int]);
                            let gv = choose|gv: usize| gv < dest_ptr
                                && t1.builder.insts@[dest_ptr as int]
                                    == (Inst::GlobalAddr { gv })
                                && (#[trigger] t1.builder.insts@[gv as int])
                                    == (Inst::DeclareGv {
                                        data_id: ctx.spec_sym_data_id(dest.sym) });
                        }
                        assert(val_def(t2.builder.insts@, src_val)) by {
                            let sdid = ctx.spec_str_data_id(*sid);
                            let gv = choose|gv: usize| gv < src_val
                                && t2.builder.insts@[src_val as int]
                                    == (Inst::GlobalAddr { gv })
                                && (#[trigger] t2.builder.insts@[gv as int])
                                    == (Inst::DeclareGv { data_id: sdid });
                        }
                    }
                    if let Some(span) = &dest.span {
                        let res = self.translate_mov_lit_spanned(src_val, src_len,
                            &dest_pic, span, dest_len, dest_ptr);
                        proof {
                            lemma_extends_straight_trans(old(self).builder, t2.builder,
                                self.builder);
                            let s = self.builder.insts@;
                            let did = ctx.spec_sym_data_id(dest.sym);
                            let sdid = ctx.spec_str_data_id(*sid);
                            let pic = ctx.spec_sym_pic(dest.sym);
                            assert forall|env: Env| #[trigger] strcpy_tail(s, env,
                                env.layout[sdid], env.layout[did],
                                ctx.spec_str_len(*sid) as i64,
                                (pic.comp_size - 1) as i64, 0,
                                ctx.spec_str_len(*sid) as i64,
                                span_start_sem(ctx, env, pic, dest.span),
                                span_len_sem(ctx, env, pic, dest.span)) by {
                                crate::translator::lemma_lit_eval(t2.builder.insts@, ctx,
                                    *lit, src_val, env);
                                crate::translator::lemma_static_ptr_prefix(
                                    t1.builder.insts@, t2.builder.insts@, dest_ptr, did);
                                crate::translator::lemma_static_ptr_eval(
                                    t2.builder.insts@, dest_ptr, did, env);
                            }
                        }
                        res
                    } else {
                        let size_val = self.builder.iconst(IrType::Ptr,
                            (src_len + 1) as i64);
                        let ghost t3 = *self;
                        proof {
                            lemma_wf_step(t2, t3);
                            lemma_push_extends(t2.builder, t3.builder);
                            assert(val_def(t3.builder.insts@, dest_ptr)) by {
                                assert(t3.builder.insts@[dest_ptr as int]
                                    == t2.builder.insts@[dest_ptr as int]);
                            }
                            assert(val_def(t3.builder.insts@, src_val)) by {
                                assert(t3.builder.insts@[src_val as int]
                                    == t2.builder.insts@[src_val as int]);
                            }
                        }
                        self.builder.call_memcpy(dest_ptr, src_val, size_val);
                        proof {
                            lemma_wf_step(t3, *self);
                            lemma_push_extends(t3.builder, self.builder);
                            lemma_extends_straight_trans(old(self).builder, t2.builder,
                                t3.builder);
                            lemma_extends_straight_trans(old(self).builder, t3.builder,
                                self.builder);
                            let s = self.builder.insts@;
                            let did = ctx.spec_sym_data_id(dest.sym);
                            let sdid = ctx.spec_str_data_id(*sid);
                            assert(s[s.len() - 1] == (Inst::CallMemcpy { dest: dest_ptr,
                                src: src_val, size: size_val }));
                            assert forall|env: Env| #[trigger] memcpy_tail(s, env,
                                env.layout[did], env.layout[sdid],
                                (ctx.spec_str_len(*sid) + 1) as i64) by {
                                crate::translator::lemma_lit_eval(t2.builder.insts@, ctx,
                                    *lit, src_val, env);
                                lemma_eval_prefix(t2.builder.insts@, s, env,
                                    src_val as int);
                                crate::translator::lemma_static_ptr_prefix(
                                    t1.builder.insts@, s, dest_ptr, did);
                                crate::translator::lemma_static_ptr_eval(s, dest_ptr, did,
                                    env);
                                assert(s[size_val as int] == (Inst::Iconst {
                                    ty: IrType::Ptr, imm: (src_len + 1) as i64 }));
                            }
                        }
                        Ok(())
                    }
                }
            },
        }
    }
}


/// The diagnostic moving one variable into another raises, if any:
/// lookups source first, validation source first, then the static size
/// check, which only applies when neither side is spanned.
pub open spec fn mov_ref_err(ctx: Ctx, src: MoveRef, dest: MoveRef) -> Option<CgError> {
    if !ctx.sym_ok(src.sym) {
        Some(CgError::MissingSymbol { sym: src.sym })
    } else if !ctx.sym_ok(dest.sym) {
        Some(CgError::MissingSymbol { sym: dest.sym })
    } else if validate_err(ctx, src, ctx.spec_sym_pic(src.sym)) is Some {
        validate_err(ctx, src, ctx.spec_sym_pic(src.sym))
    } else if validate_err(ctx, dest, ctx.spec_sym_pic(dest.sym)) is Some {
        validate_err(ctx, dest, ctx.spec_sym_pic(dest.sym))
    } else if src.span is None && dest.span is None
        && !ctx.spec_sym_pic(src.sym).spec_fits_within_comp(ctx.spec_sym_pic(dest.sym)) {
        Some(CgError::VariableDoesNotFit { src: src.sym, dest: dest.sym })
    } else {
        None
    }
}

/// Whether the single-byte optimized copy is taken for a string move.
pub open spec fn char_move_taken(ctx: Ctx, src: MoveRef, dest: MoveRef) -> bool {
    if src.span is Some || dest.span is Some {
        (spec_has_static_length_of(src, 1) || spec_has_static_length_of(dest, 1))
            && ctx.spec_sym_pic(dest.sym).comp_size == 2
    } else {
        ctx.spec_sym_pic(dest.sym).comp_size == 2
    }
}

/// What a successful variable move leaves at the end of the stream:
/// numerics load and re-store their word; strings go through the
/// single-byte copy, the canonical strcpy call (usable capacities in the
/// size slots), or a whole-buffer byte copy.
pub open spec fn mov_ref_emitted(ctx: Ctx, src: MoveRef, dest: MoveRef, s: Seq<Inst>)
    -> bool
{
    let sdid = ctx.spec_sym_data_id(src.sym);
    let ddid = ctx.spec_sym_data_id(dest.sym);
    let spic = ctx.spec_sym_pic(src.sym);
    let dpic = ctx.spec_sym_pic(dest.sym);
    match spic.kind {
        PicKind::Float => forall|env: Env| #[trigger] store_tail(s, env,
            EvalVal::VFloat(crate::sem::read_le64(env.mem, env.layout[sdid])),
            env.layout[ddid]),
        PicKind::Int => forall|env: Env| #[trigger] store_tail(s, env,
            EvalVal::VInt(crate::sem::from_u64(crate::sem::read_le64(env.mem,
                env.layout[sdid]))),
            env.layout[ddid]),
        PicKind::Str => if char_move_taken(ctx, src, dest) {
            forall|env: Env| #[trigger] charcpy_tail(s, env, env.layout[sdid],
                env.layout[ddid],
                span_start_sem(ctx, env, spic, src.span),
                span_start_sem(ctx, env, dpic, dest.span))
        } else if src.span is Some || dest.span is Some {
            forall|env: Env| #[trigger] strcpy_tail(s, env, env.layout[sdid],
                env.layout[ddid], (spic.comp_size - 1) as i64,
                (dpic.comp_size - 1) as i64,
                span_start_sem(ctx, env, spic, src.span),
                span_len_sem(ctx, env, spic, src.span),
                span_start_sem(ctx, env, dpic, dest.span),
                span_len_sem(ctx, env, dpic, dest.span))
        } else {
            forall|env: Env| #[trigger] memcpy_tail(s, env, env.layout[ddid],
                env.layout[sdid], spic.comp_size as i64)
        },
    }
}

/// The requirements a validated span imposes on its values: present values
/// are integer-typed and loadable.
pub open spec fn span_arg_ok(ctx: Ctx, span: Option<MoveSpan>) -> bool {
    match span {
        Some(sp) => val_is_int(ctx, sp.start_idx) && crate::ast::val_ok(ctx, sp.start_idx)
            && match sp.len {
                Some(lv) => val_is_int(ctx, lv) && crate::ast::val_ok(ctx, lv),
                None => true,
            },
        None => true,
    }
}

impl FuncTranslator {
    /// Lowers a single-character string move to a `charcpy` intrinsic
    /// call with 0-based offsets; a missing span means offset 0.
    #[verifier::rlimit(80)]
    fn translate_mov_char(&mut self, src: &MoveRef, dest: &MoveRef, src_ptr: usize,
        dest_ptr: usize) -> (res: Result<(), CgError>)
        requires
            old(self).wf(),
            val_def(old(self).builder.insts@, src_ptr),
            val_def(old(self).builder.insts@, dest_ptr),
            span_arg_ok(old(self).ctx, src.span),
            span_arg_ok(old(self).ctx, dest.span),
        ensures
            final(self).wf(),
            final(self).ctx == old(self).ctx,
            extends_straight(old(self).builder, final(self).builder),
            effect_count(final(self).builder.insts@)
                == effect_count(old(self).builder.insts@) + 1,
            res is Ok,
            forall|env: Env| {
                let s = final(self).builder.insts@;
                let ctx = old(self).ctx;
                match s[s.len() - 1] {
                    Inst::CallCharCpy { args } =>
                        eval(s, env, args[0] as int)
                            == #[trigger] eval(old(self).builder.insts@, env, src_ptr as int)
                        && eval(s, env, args[1] as int)
                            == eval(old(self).builder.insts@, env, dest_ptr as int)
                        && eval(s, env, args[2] as int) == (EvalVal::VInt(span_start_sem(
                            ctx, env, ctx.spec_sym_pic(src.sym), src.span)))
                        && eval(s, env, args[3] as int) == (EvalVal::VInt(span_start_sem(
                            ctx, env, ctx.spec_sym_pic(dest.sym), dest.span))),
                    _ => false,
                }
            },
    {
        let ghost t0 = *self;
        let ghost ctx = old(self).ctx;
        let src_offset = if let Some(span) = &src.span {
            let off = match self.load_value(&span.start_idx) {
                Ok(v) => v,
                Err(e) => {
                    proof {
                        assert(false);
                    }
                    return Err(e);
                },
            };
            let ghost ta = *self;
            let o = self.builder.iadd_imm(off, -1);
            proof {
                lemma_wf_step(ta, *self);
                lemma_push_extends(ta.builder, self.builder);
                lemma_extends_straight_trans(t0.builder, ta.builder, self.builder);
                assert forall|env: Env| #[trigger] eval(self.builder.insts@, env, o as int)
                    == (EvalVal::VInt(span_start_sem(ctx, env, ctx.spec_sym_pic(src.sym),
                        src.span))) by {
                    lemma_eval_prefix(ta.builder.insts@, self.builder.insts@, env,
                        off as int);
                    assert(self.builder.insts@[o as int]
                        == (Inst::IaddImm { arg: off, imm: -1i64 }));
                    assert(val_sem(ctx, env, span.start_idx) == (EvalVal::VInt(as_int(
                        val_sem(ctx, env, span.start_idx)))));
                }
            }
            o
        } else {
            let o = self.load_cg_lit(&CgLiteral::Int(0));
            proof {
                assert forall|env: Env| #[trigger] eval(self.builder.insts@, env, o as int)
                    == (EvalVal::VInt(0)) by {}
            }
            o
        };
        let ghost t1 = *self;
        let dest_offset = if let Some(span) = &dest.span {
            let off = match self.load_value(&span.start_idx) {
                Ok(v) => v,
                Err(e) => {
                    proof {
                        assert(false);
                    }
                    return Err(e);
                },
            };
            let ghost ta = *self;
            let o = self.builder.iadd_imm(off, -1);
            proof {
                lemma_wf_step(ta, *self);
                lemma_push_extends(ta.builder, self.builder);
                lemma_extends_straight_trans(t1.builder, ta.builder, self.builder);
                assert forall|env: Env| #[trigger] eval(self.builder.insts@, env, o as int)
                    == (EvalVal::VInt(span_start_sem(ctx, env, ctx.spec_sym_pic(dest.sym),
                        dest.span))) by {
                    lemma_eval_prefix(ta.builder.insts@, self.builder.insts@, env,
                        off as int);
                    assert(self.builder.insts@[o as int]
                        == (Inst::IaddImm { arg: off, imm: -1i64 }));
                    assert(val_sem(ctx, env, span.start_idx) == (EvalVal::VInt(as_int(
                        val_sem(ctx, env, span.start_idx)))));
                }
            }
            o
        } else {
            let o = self.load_cg_lit(&CgLiteral::Int(0));
            proof {
                assert forall|env: Env| #[trigger] eval(self.builder.insts@, env, o as int)
                    == (EvalVal::VInt(0)) by {}
            }
            o
        };
        let ghost t2 = *self;
        proof {
            lemma_extends_straight_trans(t0.builder, t1.builder, t2.builder);
            assert(val_def(t2.builder.insts@, src_ptr)) by {
                assert(t2.builder.insts@[src_ptr as int] == t0.builder.insts@[src_ptr as int]);
            }
            assert(val_def(t2.builder.insts@, dest_ptr)) by {
                assert(t2.builder.insts@[dest_ptr as int]
                    == t0.builder.insts@[dest_ptr as int]);
            }
            assert(val_def(t2.builder.insts@, src_offset)) by {
                assert(t2.builder.insts@[src_offset as int]
                    == t1.builder.insts@[src_offset as int]);
            }
        }
        let args: [usize; 4] = [src_ptr, dest_ptr, src_offset, dest_offset];
        self.builder.call_charcpy(args);
        proof {
            lemma_wf_step(t2, *self);
            lemma_push_extends(t2.builder, self.builder);
            lemma_extends_straight_trans(t0.builder, t2.builder, self.builder);
            let s = self.builder.insts@;
            assert(s[s.len() - 1] == (Inst::CallCharCpy { args }));
            assert forall|env: Env| eval(s, env, src_ptr as int)
                == #[trigger] eval(t0.builder.insts@, env, src_ptr as int)
                && eval(s, env, dest_ptr as int)
                    == eval(t0.builder.insts@, env, dest_ptr as int)
                && eval(s, env, src_offset as int) == (EvalVal::VInt(span_start_sem(ctx, env,
                    ctx.spec_sym_pic(src.sym), src.span)))
                && eval(s, env, dest_offset as int) == (EvalVal::VInt(span_start_sem(ctx,
                    env, ctx.spec_sym_pic(dest.sym), dest.span))) by {
                lemma_eval_prefix(t0.builder.insts@, s, env, src_ptr as int);
                lemma_eval_prefix(t0.builder.insts@, s, env, dest_ptr as int);
                lemma_eval_prefix(t1.builder.insts@, s, env, src_offset as int);
                lemma_eval_prefix(t2.builder.insts@, s, env, dest_offset as int);
            }
        }
        Ok(())
    }

    /// Lowers a spanned string move between two variables to the `strcpy`
    /// intrinsic, passing both full buffer sizes and both 0-based spans.
    #[verifier::rlimit(80)]
    fn translate_mov_ref_spanned(&mut self, src: &MoveRef, dest: &MoveRef, src_pic: &Pic,
        dest_pic: &Pic, src_ptr: usize, dest_ptr: usize) -> (res: Result<(), CgError>)
        requires
            old(self).wf(),
            src_pic.wf(),
            dest_pic.wf(),
            val_def(old(self).builder.insts@, src_ptr),
            val_def(old(self).builder.insts@, dest_ptr),
            span_arg_ok(old(self).ctx, src.span),
            span_arg_ok(old(self).ctx, dest.span),
        ensures
            final(self).wf(),
            final(self).ctx == old(self).ctx,
            extends_straight(old(self).builder, final(self).builder),
            effect_count(final(self).builder.insts@)
                == effect_count(old(self).builder.insts@) + 1,
            res is Ok,
            forall|env: Env| {
                let s = final(self).builder.insts@;
                let ctx = old(self).ctx;
                match s[s.len() - 1] {
                    Inst::CallStrCpy { args } =>
                        eval(s, env, args[0] as int)
                            == #[trigger] eval(old(self).builder.insts@, env, src_ptr as int)
                        && eval(s, env, args[1] as int)
                            == eval(old(self).builder.insts@, env, dest_ptr as int)
                        && eval(s, env, args[2] as int)
                            == (EvalVal::VInt((src_pic.comp_size - 1) as i64))
                        && eval(s, env, args[3] as int)
                            == (EvalVal::VInt((dest_pic.comp_size - 1) as i64))
                        && eval(s, env, args[4] as int) == (EvalVal::VInt(span_start_sem(
                            ctx, env, *src_pic, src.span)))
                        && eval(s, env, args[5] as int) == (EvalVal::VInt(span_len_sem(
                            ctx, env, *src_pic, src.span)))
                        && eval(s, env, args[6] as int) == (EvalVal::VInt(span_start_sem(
                            ctx, env, *dest_pic, dest.span)))
                        && eval(s, env, args[7] as int) == (EvalVal::VInt(span_len_sem(
                            ctx, env, *dest_pic, dest.span))),
                    _ => false,
                }
            },
    {
        let ghost t0 = *self;
        let ghost ctx = old(self).ctx;
        let sp1 = match self.load_span(src_pic, src.span.as_ref()) {
            Ok(p) => p,
            Err(e) => {
                proof {
                    assert(false);
                }
                return Err(e);
            },
        };
        let (src_span_idx, src_span_len) = sp1;
        let ghost t1 = *self;
        let sp2 = match self.load_span(dest_pic, dest.span.as_ref()) {
            Ok(p) => p,
            Err(e) => {
                proof {
                    assert(false);
                }
                return Err(e);
            },
        };
        let (dest_span_idx, dest_span_len) = sp2;
        let ghost t2 = *self;
        let src_len = self.builder.iconst(IrType::I64, (src_pic.comp_size - 1) as i64);
        let ghost t3 = *self;
        let dest_len = self.builder.iconst(IrType::I64, (dest_pic.comp_size - 1) as i64);
        let ghost t4 = *self;
        proof {
            lemma_wf_step(t2, t3);
            lemma_wf_step(t3, t4);
            lemma_push_extends(t2.builder, t3.builder);
            lemma_push_extends(t3.builder, t4.builder);
            lemma_extends_straight_trans(t0.builder, t1.builder, t2.builder);
            lemma_extends_straight_trans(t2.builder, t3.builder, t4.builder);
            lemma_extends_straight_trans(t0.builder, t2.builder, t4.builder);
            assert(val_def(t4.builder.insts@, src_ptr)) by {
                assert(t4.builder.insts@[src_ptr as int] == t0.builder.insts@[src_ptr as int]);
            }
            assert(val_def(t4.builder.insts@, dest_ptr)) by {
                assert(t4.builder.insts@[dest_ptr as int]
                    == t0.builder.insts@[dest_ptr as int]);
            }
            assert(val_def(t4.builder.insts@, src_span_idx)) by {
                assert(t4.builder.insts@[src_span_idx as int]
                    == t1.builder.insts@[src_span_idx as int]);
            }
            assert(val_def(t4.builder.insts@, src_span_len)) by {
                assert(t4.builder.insts@[src_span_len as int]
                    == t1.builder.insts@[src_span_len as int]);
            }
            assert(val_def(t4.builder.insts@, dest_span_idx)) by {
                assert(t4.builder.insts@[dest_span_idx as int]
                    == t2.builder.insts@[dest_span_idx as int]);
            }
            assert(val_def(t4.builder.insts@, dest_span_len)) by {
                assert(t4.builder.insts@[dest_span_len as int]
                    == t2.builder.insts@[dest_span_len as int]);
            }
        }
        let args: [usize; 8] = [src_ptr, dest_ptr, src_len, dest_len, src_span_idx,
            src_span_len, dest_span_idx, dest_span_len];
        self.builder.call_strcpy(args);
        proof {
            lemma_wf_step(t4, *self);
            lemma_push_extends(t4.builder, self.builder);
            lemma_extends_straight_trans(t0.builder, t4.builder, self.builder);
            let s = self.builder.insts@;
            assert(s[s.len() - 1] == (Inst::CallStrCpy { args }));
            assert forall|env: Env| eval(s, env, src_ptr as int)
                == #[trigger] eval(t0.builder.insts@, env, src_ptr as int)
                && eval(s, env, dest_ptr as int)
                    == eval(t0.builder.insts@, env, dest_ptr as int)
                && eval(s, env, src_len as int)
                    == (EvalVal::VInt((src_pic.comp_size - 1) as i64))
                && eval(s, env, dest_len as int)
                    == (EvalVal::VInt((dest_pic.comp_size - 1) as i64))
                && eval(s, env, src_span_idx as int) == (EvalVal::VInt(span_start_sem(ctx,
                    env, *src_pic, src.span)))
                && eval(s, env, src_span_len as int) == (EvalVal::VInt(span_len_sem(ctx,
                    env, *src_pic, src.span)))
                && eval(s, env, dest_span_idx as int) == (EvalVal::VInt(span_start_sem(ctx,
                    env, *dest_pic, dest.span)))
                && eval(s, env, dest_span_len as int) == (EvalVal::VInt(span_len_sem(ctx,
                    env, *dest_pic, dest.span))) by {
                lemma_eval_prefix(t0.builder.insts@, s, env, src_ptr as int);
                lemma_eval_prefix(t0.builder.insts@, s, env, dest_ptr as int);
                lemma_eval_prefix(t1.builder.insts@, s, env, src_span_idx as int);
                lemma_eval_prefix(t1.builder.insts@, s, env, src_span_len as int);
                lemma_eval_prefix(t2.builder.insts@, s, env, dest_span_idx as int);
                lemma_eval_prefix(t2.builder.insts@, s, env, dest_span_len as int);
                assert(s[src_len as int] == (Inst::Iconst { ty: IrType::I64,
                    imm: (src_pic.comp_size - 1) as i64 }));
                assert(s[dest_len as int] == (Inst::Iconst { ty: IrType::I64,
                    imm: (dest_pic.comp_size - 1) as i64 }));
            }
        }
        Ok(())
    }
}


impl FuncTranslator {
    /// Moves one variable into another. Strings copy byte-wise: through
    /// `charcpy` when the move is provably a single character, through
    /// `strcpy` when a span is involved, and through a plain byte copy
    /// otherwise — the static fit check applies only to the last. Numeric
    /// variables load and re-store their 64-bit word.
    #[verifier::rlimit(100)]
    pub fn translate_mov_ref(&mut self, src: &MoveRef, dest: &MoveRef) -> (res:
        Result<(), CgError>)
        requires old(self).wf(),
        ensures
            final(self).wf(),
            final(self).ctx == old(self).ctx,
            extends_straight(old(self).builder, final(self).builder),
            res is Ok <==> mov_ref_err(old(self).ctx, *src, *dest) is None,
            res is Err ==> Some(res->Err_0) == mov_ref_err(old(self).ctx, *src, *dest),
            res is Ok ==> mov_ref_emitted(old(self).ctx, *src, *dest,
                final(self).builder.insts@),
            res is Ok ==> effect_count(final(self).builder.insts@)
                == effect_count(old(self).builder.insts@) + 1,
            res is Err ==> effect_count(final(self).builder.insts@)
                == effect_count(old(self).builder.insts@),
    {
        let ghost ctx = old(self).ctx;
        let src_id = self.ctx.sym_data_id(src.sym)?;
        let dest_id = self.ctx.sym_data_id(dest.sym)?;
        let src_ptr = self.load_static_ptr(src_id);
        let ghost ta = *self;
        let dest_ptr = self.load_static_ptr(dest_id);
        let ghost t1 = *self;
        proof {
            lemma_extends_straight_trans(old(self).builder, ta.builder, t1.builder);
            assert(crate::translator::is_static_ptr(t1.builder.insts@, src_ptr, src_id)) by {
                crate::translator::lemma_static_ptr_prefix(ta.builder.insts@,
                    t1.builder.insts@, src_ptr, src_id);
            }
            assert(val_def(t1.builder.insts@, src_ptr)) by {
                let gv = choose|gv: usize| gv < src_ptr
                    && t1.builder.insts@[src_ptr as int] == (Inst::GlobalAddr { gv })
                    && (#[trigger] t1.builder.insts@[gv as int])
                        == (Inst::DeclareGv { data_id: src_id });
            }
            assert(val_def(t1.builder.insts@, dest_ptr)) by {
                let gv = choose|gv: usize| gv < dest_ptr
                    && t1.builder.insts@[dest_ptr as int] == (Inst::GlobalAddr { gv })
                    && (#[trigger] t1.builder.insts@[gv as int])
                        == (Inst::DeclareGv { data_id: dest_id });
            }
        }
        let src_pic = match self.ctx.sym_pic(src.sym) {
            Ok(p) => p,
            Err(e) => {
                proof {
                    assert(false);
                }
                return Err(e);
            },
        };
        let dest_pic = match self.ctx.sym_pic(dest.sym) {
            Ok(p) => p,
            Err(e) => {
                proof {
                    assert(false);
                }
                return Err(e);
            },
        };
        src.validate(&src_pic, &self.ctx)?;
        dest.validate(&dest_pic, &self.ctx)?;
        if src.span.is_none() && dest.span.is_none()
            && !src_pic.fits_within_comp(&dest_pic) {
            return Err(CgError::VariableDoesNotFit { src: src.sym, dest: dest.sym });
        }
        proof {
            assert(ctx.spec_sym_pic(src.sym).wf());
            assert(ctx.spec_sym_pic(dest.sym).wf());
        }

        if src_pic.is_str() {
            let spanned = src.span.is_some() || dest.span.is_some();
            let char_opt = if spanned {
                (src.has_static_length_of(1) || dest.has_static_length_of(1))
                    && dest_pic.comp_size == 2
            } else {
                dest_pic.comp_size == 2
            };
            if char_opt {
                let res = self.translate_mov_char(src, dest, src_ptr, dest_ptr);
                proof {
                    lemma_extends_straight_trans(old(self).builder, t1.builder,
                        self.builder);
                    let s = self.builder.insts@;
                    assert forall|env: Env| #[trigger] charcpy_tail(s, env,
                        env.layout[src_id], env.layout[dest_id],
                        span_start_sem(ctx, env, ctx.spec_sym_pic(src.sym), src.span),
                        span_start_sem(ctx, env, ctx.spec_sym_pic(dest.sym), dest.span))
                        by {
                        crate::translator::lemma_static_ptr_eval(t1.builder.insts@,
                            src_ptr, src_id, env);
                        crate::translator::lemma_static_ptr_eval(t1.builder.insts@,
                            dest_ptr, dest_id, env);
                    }
                }
                res
            } else if spanned {
                let res = self.translate_mov_ref_spanned(src, dest, &src_pic, &dest_pic,
                    src_ptr, dest_ptr);
                proof {
                    lemma_extends_straight_trans(old(self).builder, t1.builder,
                        self.builder);
                    let s = self.builder.insts@;
                    assert forall|env: Env| #[trigger] strcpy_tail(s, env,
                        env.layout[src_id], env.layout[dest_id],
                        (src_pic.comp_size - 1) as i64, (dest_pic.comp_size - 1) as i64,
                        span_start_sem(ctx, env, ctx.spec_sym_pic(src.sym), src.span),
                        span_len_sem(ctx, env, ctx.spec_sym_pic(src.sym), src.span),
                        span_start_sem(ctx, env, ctx.spec_sym_pic(dest.sym), dest.span),
                        span_len_sem(ctx, env, ctx.spec_sym_pic(dest.sym), dest.span))
                        by {
                        crate::translator::lemma_static_ptr_eval(t1.builder.insts@,
                            src_ptr, src_id, env);
                        crate::translator::lemma_static_ptr_eval(t1.builder.insts@,
                            dest_ptr, dest_id, env);
                    }
                }
                res
            } else {
                let size_val = self.builder.iconst(IrType::Ptr, src_pic.comp_size as i64);
                let ghost t2 = *self;
                proof {
                    lemma_wf_step(t1, t2);
                    lemma_push_extends(t1.builder, t2.builder);
                    assert(val_def(t2.builder.insts@, src_ptr)) by {
                        assert(t2.builder.insts@[src_ptr as int]
                            == t1.builder.insts@[src_ptr as int]);
                    }
                    assert(val_def(t2.builder.insts@, dest_ptr)) by {
                        assert(t2.builder.insts@[dest_ptr as int]
                            == t1.builder.insts@[dest_ptr as int]);
                    }
                }
                self.builder.call_memcpy(dest_ptr, src_ptr, size_val);
                proof {
                    lemma_wf_step(t2, *self);
                    lemma_push_extends(t2.builder, self.builder);
                    lemma_extends_straight_trans(t1.builder, t2.builder, self.builder);
                    lemma_extends_straight_trans(old(self).builder, t1.builder,
                        self.builder);
                    let s = self.builder.insts@;
                    assert(s[s.len() - 1] == (Inst::CallMemcpy { dest: dest_ptr,
                        src: src_ptr, size: size_val }));
                    assert forall|env: Env| #[trigger] memcpy_tail(s, env,
                        env.layout[dest_id], env.layout[src_id],
                        src_pic.comp_size as i64) by {
                        crate::translator::lemma_static_ptr_prefix(t1.builder.insts@, s,
                            src_ptr, src_id);
                        crate::translator::lemma_static_ptr_prefix(t1.builder.insts@, s,
                            dest_ptr, dest_id);
                        crate::translator::lemma_static_ptr_eval(s, src_ptr, src_id, env);
                        crate::translator::lemma_static_ptr_eval(s, dest_ptr, dest_id, env);
                        assert(s[size_val as int] == (Inst::Iconst { ty: IrType::Ptr,
                            imm: src_pic.comp_size as i64 }));
                    }
                }
                Ok(())
            }
        } else {
            let load_ty = if src_pic.is_float() { IrType::F64 } else { IrType::I64 };
            let temp = self.builder.load(load_ty, src_ptr);
            let ghost t2 = *self;
            proof {
                lemma_wf_step(t1, t2);
                lemma_push_extends(t1.builder, t2.builder);
                assert(val_def(t2.builder.insts@, dest_ptr)) by {
                    assert(t2.builder.insts@[dest_ptr as int]
                        == t1.builder.insts@[dest_ptr as int]);
                }
            }
            self.builder.store(temp, dest_ptr);
            proof {
                lemma_wf_step(t2, *self);
                lemma_push_extends(t2.builder, self.builder);
                lemma_extends_straight_trans(t1.builder, t2.builder, self.builder);
                lemma_extends_straight_trans(old(self).builder, t1.builder, self.builder);
                let s = self.builder.insts@;
                assert(s[s.len() - 1] == (Inst::Store { val: temp, ptr: dest_ptr }));
                assert(s[temp as int] == (Inst::Load { ty: load_ty, ptr: src_ptr }));
                assert forall|env: Env| eval(s, env, temp as int) == (match
                    ctx.spec_sym_pic(src.sym).kind {
                    PicKind::Float => EvalVal::VFloat(crate::sem::read_le64(env.mem,
                        env.layout[src_id])),
                    _ => EvalVal::VInt(crate::sem::from_u64(crate::sem::read_le64(env.mem,
                        env.layout[src_id]))),
                }) && eval(s, env, dest_ptr as int)
                    == (EvalVal::VPtr(env.layout[dest_id])) by {
                    crate::translator::lemma_static_ptr_prefix(t1.builder.insts@, s,
                        src_ptr, src_id);
                    crate::translator::lemma_static_ptr_prefix(t1.builder.insts@, s,
                        dest_ptr, dest_id);
                    crate::translator::lemma_static_ptr_eval(s, src_ptr, src_id, env);
                    crate::translator::lemma_static_ptr_eval(s, dest_ptr, dest_id, env);
                }
            }
            Ok(())
        }
    }
}


/// The first diagnostic loading a list of operands raises, if any.
pub open spec fn args_err(ctx: Ctx, args: Seq<Value>) -> Option<CgError>
    decreases args.len(),
{
    if args.len() == 0 {
        None
    } else if val_err(ctx, args[0]) is Some {
        val_err(ctx, args[0])
    } else {
        args_err(ctx, args.drop_first())
    }
}

/// Loading a prefix of the operands successfully moves the first
/// possible diagnostic past it.
proof fn lemma_args_err_step(ctx: Ctx, args: Seq<Value>)
    requires
        args.len() > 0,
        val_err(ctx, args[0]) is None,
    ensures args_err(ctx, args) == args_err(ctx, args.drop_first()),
{
}

/// The diagnostic translating an intrinsic call raises, if any: the
/// registry lookup, then the operand loads left to right.
pub open spec fn intr_call_err(ctx: Ctx, call: IntrinsicCall) -> Option<CgError> {
    if !ctx.intrinsic_ok(call.intrinsic) {
        Some(CgError::MissingIntrinsic { id: call.intrinsic })
    } else {
        args_err(ctx, call.args@)
    }
}

/// The diagnostic moving an intrinsic result into a reference raises, if
/// any: the call itself, the destination lookup, the return-type check
/// against the destination's picture, validation, and finally the
/// unsupported string-destination case.
pub open spec fn mov_intr_err(ctx: Ctx, call: IntrinsicCall, dest: MoveRef)
    -> Option<CgError>
{
    if intr_call_err(ctx, call) is Some {
        intr_call_err(ctx, call)
    } else if !ctx.sym_ok(dest.sym) {
        Some(CgError::MissingSymbol { sym: dest.sym })
    } else {
        let pic = ctx.spec_sym_pic(dest.sym);
        let ret = ctx.intrinsics@[call.intrinsic as int].ret;
        if (pic.kind == PicKind::Float && ret != IrType::F64)
            || (pic.kind == PicKind::Str && ret != IrType::Ptr)
            || (pic.kind == PicKind::Int && ret != IrType::I64) {
            Some(CgError::IntrinsicDestMismatch { id: call.intrinsic })
        } else if validate_err(ctx, dest, pic) is Some {
            validate_err(ctx, dest, pic)
        } else if pic.kind == PicKind::Str {
            Some(CgError::StrIntrinsicMoveUnsupported)
        } else {
            None
        }
    }
}

/// What a successful intrinsic-result move leaves at the end of the
/// stream: a store of the call's result node to the destination's buffer.
pub open spec fn mov_intr_emitted(ctx: Ctx, call: IntrinsicCall, dest: MoveRef,
    s: Seq<Inst>) -> bool
{
    let ddid = ctx.spec_sym_data_id(dest.sym);
    s.len() >= 1 && match s[s.len() - 1] {
        Inst::Store { val, ptr } => (match s[val as int] {
            Inst::CallUser { intrinsic, .. } => intrinsic == call.intrinsic,
            _ => false,
        }) && forall|env: Env| #[trigger] eval(s, env, ptr as int)
            == (EvalVal::VPtr(env.layout[ddid])),
        _ => false,
    }
}

/// What a successful MOVE statement leaves at the end of the stream,
/// by source.
pub open spec fn move_emitted(ctx: Ctx, mov: MoveData, s: Seq<Inst>) -> bool {
    match mov.source {
        MoveSource::Literal(l) => mov_lit_emitted(ctx, l, mov.dest, s),
        MoveSource::MoveRef(mr) => mov_ref_emitted(ctx, mr, mov.dest, s),
        MoveSource::Intrinsic(c) => mov_intr_emitted(ctx, c, mov.dest, s),
    }
}

/// The diagnostic a whole MOVE statement raises, if any.
pub open spec fn move_err(ctx: Ctx, mov: MoveData) -> Option<CgError> {
    match mov.source {
        MoveSource::Literal(l) => mov_lit_err(ctx, l, mov.dest),
        MoveSource::MoveRef(mr) => mov_ref_err(ctx, mr, mov.dest),
        MoveSource::Intrinsic(c) => mov_intr_err(ctx, c, mov.dest),
    }
}

impl FuncTranslator {
    /// Translates a call to a registered user intrinsic: loads every
    /// operand left to right and emits the call, returning the result
    /// node and the intrinsic's declared return type.
    #[verifier::rlimit(60)]
    pub fn translate_intrinsic_call(&mut self, call: &IntrinsicCall) -> (res:
        Result<(usize, IrType), CgError>)
        requires old(self).wf(),
        ensures
            final(self).wf(),
            final(self).ctx == old(self).ctx,
            extends_straight(old(self).builder, final(self).builder),
            effect_count(final(self).builder.insts@)
                == effect_count(old(self).builder.insts@),
            res is Ok <==> intr_call_err(old(self).ctx, *call) is None,
            res is Err ==> Some(res->Err_0) == intr_call_err(old(self).ctx, *call),
            res is Ok ==> val_def(final(self).builder.insts@, res->Ok_0.0)
                && res->Ok_0.1 == old(self).ctx.intrinsics@[call.intrinsic as int].ret
                && (match final(self).builder.insts@[res->Ok_0.0 as int] {
                    Inst::CallUser { intrinsic, args } => intrinsic == call.intrinsic
                        && args@.len() == call.args@.len()
                        && forall|k: int| 0 <= k < args@.len()
                            ==> forall|env: Env|
                                eval(final(self).builder.insts@, env,
                                    (#[trigger] args@[k]) as int)
                                == val_sem(old(self).ctx, env, call.args@[k]),
                    _ => false,
                }),
    {
        let ghost ctx = old(self).ctx;
        if call.intrinsic as usize >= self.ctx.intrinsics.len() {
            return Err(CgError::MissingIntrinsic { id: call.intrinsic });
        }
        let ret = self.ctx.intrinsics[call.intrinsic as usize].ret;
        let mut arg_vals: Vec<usize> = Vec::new();
        let ghost t0 = *self;
        let mut i: usize = 0;
        proof {
            lemma_extends_straight_refl(t0.builder);
            assert(call.args@.skip(0) =~= call.args@);
        }
        while i < call.args.len()
            invariant
                self.wf(),
                ctx == old(self).ctx,
                t0 == *old(self),
                self.ctx == ctx,
                i <= call.args@.len(),
                ret == ctx.intrinsics@[call.intrinsic as int].ret,
                ctx.intrinsic_ok(call.intrinsic),
                extends_straight(t0.builder, self.builder),
                effect_count(self.builder.insts@) == effect_count(t0.builder.insts@),
                args_err(ctx, call.args@) == args_err(ctx, call.args@.skip(i as int)),
                forall|k: int| 0 <= k < arg_vals@.len()
                    ==> val_def(self.builder.insts@, #[trigger] arg_vals@[k]),
                forall|k: int| 0 <= k < arg_vals@.len()
                    ==> forall|env: Env|
                        eval(self.builder.insts@, env, (#[trigger] arg_vals@[k]) as int)
                            == val_sem(ctx, env, call.args@[k]),
                arg_vals@.len() == i,
            decreases call.args@.len() - i,
        {
            let ghost pre = *self;
            let v = match self.load_value(&call.args[i]) {
                Ok(v) => v,
                Err(e) => {
                    proof {
                        lemma_extends_straight_trans(t0.builder, pre.builder, self.builder);
                        assert(call.args@.skip(i as int)[0] == call.args@[i as int]);
                    }
                    return Err(e);
                },
            };
            arg_vals.push(v);
            i = i + 1;
            proof {
                lemma_extends_straight_trans(t0.builder, pre.builder, self.builder);
                assert(call.args@.skip(i - 1)[0] == call.args@[i - 1]);
                assert(call.args@.skip(i - 1).drop_first() =~= call.args@.skip(i as int));
                lemma_args_err_step(ctx, call.args@.skip(i - 1));
                assert forall|k: int| 0 <= k < arg_vals@.len()
                    implies val_def(self.builder.insts@, #[trigger] arg_vals@[k]) by {
                    if k < arg_vals@.len() - 1 {
                        assert(val_def(pre.builder.insts@, arg_vals@[k]));
                        assert(self.builder.insts@[arg_vals@[k] as int]
                            == pre.builder.insts@[arg_vals@[k] as int]);
                    }
                }
                assert forall|k: int| 0 <= k < arg_vals@.len()
                    implies forall|env: Env|
                        eval(self.builder.insts@, env, (#[trigger] arg_vals@[k]) as int)
                            == val_sem(ctx, env, call.args@[k]) by {
                    if k < arg_vals@.len() - 1 {
                        assert forall|env: Env|
                            eval(self.builder.insts@, env, arg_vals@[k] as int)
                                == val_sem(ctx, env, call.args@[k]) by {
                            crate::sem::lemma_eval_prefix(pre.builder.insts@,
                                self.builder.insts@, env, arg_vals@[k] as int);
                        }
                    }
                }
            }
        }
        proof {
            assert(call.args@.skip(i as int) =~= Seq::<Value>::empty());
        }
        let ghost t1 = *self;
        let rv = self.builder.call_user(call.intrinsic, arg_vals);
        proof {
            lemma_wf_step(t1, *self);
            lemma_push_extends(t1.builder, self.builder);
            lemma_extends_straight_trans(t0.builder, t1.builder, self.builder);
            let s = self.builder.insts@;
            assert forall|k: int| 0 <= k < arg_vals@.len()
                implies forall|env: Env|
                    eval(s, env, (#[trigger] arg_vals@[k]) as int)
                        == val_sem(ctx, env, call.args@[k]) by {
                assert forall|env: Env|
                    eval(s, env, arg_vals@[k] as int)
                        == val_sem(ctx, env, call.args@[k]) by {
                    crate::sem::lemma_eval_prefix(t1.builder.insts@, s, env,
                        arg_vals@[k] as int);
                }
            }
        }
        Ok((rv, ret))
    }

    /// Moves the result of an intrinsic call into the given destination.
    /// The intrinsic's return type must match the destination's picture;
    /// string-returning intrinsics are not supported as move sources.
    #[verifier::rlimit(60)]
    pub fn translate_move_intrinsic(&mut self, call: &IntrinsicCall, dest: &MoveRef)
        -> (res: Result<(), CgError>)
        requires old(self).wf(),
        ensures
            final(self).wf(),
            final(self).ctx == old(self).ctx,
            extends_straight(old(self).builder, final(self).builder),
            res is Ok <==> mov_intr_err(old(self).ctx, *call, *dest) is None,
            res is Err ==> Some(res->Err_0) == mov_intr_err(old(self).ctx, *call, *dest),
            res is Ok ==> mov_intr_emitted(old(self).ctx, *call, *dest,
                final(self).builder.insts@),
            res is Ok ==> effect_count(final(self).builder.insts@)
                == effect_count(old(self).builder.insts@) + 1,
            res is Err ==> effect_count(final(self).builder.insts@)
                == effect_count(old(self).builder.insts@),
    {
        let ghost ctx = old(self).ctx;
        let rp = self.translate_intrinsic_call(call)?;
        let (ret_val, ret_type) = rp;
        let ghost t1 = *self;
        let dest_id = match self.ctx.sym_data_id(dest.sym) {
            Ok(d) => d,
            Err(e) => return Err(e),
        };
        let dest_ptr = self.load_static_ptr(dest_id);
        let ghost t2 = *self;
        proof {
            lemma_extends_straight_trans(old(self).builder, t1.builder, t2.builder);
        }
        let dest_pic = match self.ctx.sym_pic(dest.sym) {
            Ok(p) => p,
            Err(e) => {
                proof {
                    assert(false);
                }
                return Err(e);
            },
        };
        let mismatch = (dest_pic.is_float() && !matches!(ret_type, IrType::F64))
            || (dest_pic.is_str() && !matches!(ret_type, IrType::Ptr))
            || (!dest_pic.is_float() && !dest_pic.is_str()
                && !matches!(ret_type, IrType::I64));
        if mismatch {
            return Err(CgError::IntrinsicDestMismatch { id: call.intrinsic });
        }
        dest.validate(&dest_pic, &self.ctx)?;
        if dest_pic.is_str() {
            return Err(CgError::StrIntrinsicMoveUnsupported);
        }
        proof {
            assert(val_def(t2.builder.insts@, ret_val)) by {
                assert(t2.builder.insts@[ret_val as int]
                    == t1.builder.insts@[ret_val as int]);
            }
            assert(val_def(t2.builder.insts@, dest_ptr)) by {
                let gv = choose|gv: usize| gv < dest_ptr
                    && t2.builder.insts@[dest_ptr as int] == (Inst::GlobalAddr { gv })
                    && (#[trigger] t2.builder.insts@[gv as int])
                        == (Inst::DeclareGv { data_id: dest_id });
            }
        }
        self.builder.store(ret_val, dest_ptr);
        proof {
            lemma_wf_step(t2, *self);
            lemma_push_extends(t2.builder, self.builder);
            lemma_extends_straight_trans(old(self).builder, t2.builder, self.builder);
            let s = self.builder.insts@;
            assert(s[s.len() - 1] == (Inst::Store { val: ret_val, ptr: dest_ptr }));
            assert(s[ret_val as int] == t1.builder.insts@[ret_val as int]);
            assert forall|env: Env| #[trigger] eval(s, env, dest_ptr as int)
                == (EvalVal::VPtr(env.layout[ctx.spec_sym_data_id(dest.sym)])) by {
                crate::translator::lemma_static_ptr_prefix(t2.builder.insts@, s, dest_ptr,
                    dest_id);
                crate::translator::lemma_static_ptr_eval(s, dest_ptr, dest_id, env);
            }
        }
        Ok(())
    }

    /// Translates one MOVE statement, dispatching on its source.
    pub fn translate_move(&mut self, mov_data: &MoveData) -> (res: Result<(), CgError>)
        requires old(self).wf(),
        ensures
            final(self).wf(),
            final(self).ctx == old(self).ctx,
            extends_straight(old(self).builder, final(self).builder),
            res is Ok <==> move_err(old(self).ctx, *mov_data) is None,
            res is Err ==> Some(res->Err_0) == move_err(old(self).ctx, *mov_data),
            res is Ok ==> move_emitted(old(self).ctx, *mov_data,
                final(self).builder.insts@),
            res is Ok ==> effect_count(final(self).builder.insts@)
                == effect_count(old(self).builder.insts@) + 1,
            res is Err ==> effect_count(final(self).builder.insts@)
                == effect_count(old(self).builder.insts@),
    {
        match &mov_data.source {
            MoveSource::Intrinsic(ic_call) => {
                self.translate_move_intrinsic(ic_call, &mov_data.dest)
            },
            MoveSource::Literal(lit) => self.translate_mov_lit(lit, &mov_data.dest),
            MoveSource::MoveRef(mov_ref) => self.translate_mov_ref(mov_ref, &mov_data.dest),
        }
    }
}

} // verus!

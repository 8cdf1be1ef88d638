//! The condition translator: lowers a condition tree to a single
//! boolean-shaped IR value (0 or 1). A verification pass rejects
//! type-incompatible comparisons before any IR is emitted; emission then
//! loads both sides, promotes to float where either side is float, and
//! compares — strings through the `strcmp` intrinsic, floats with the
//! float predicate, integers signed. Combinators evaluate both sides
//! (no short-circuit) and combine bitwise.
//!
//! The central contract: the emitted node evaluates to
//! `bool_val(cond_sem(..))` — the denotation of the condition — in every
//! environment.

use vstd::prelude::*;
use crate::ast::{CgError, Cond, Ctx, Literal, PicKind, Value};
use crate::ast::val_kind;
use crate::ir::{effect_count, extends_straight, val_def, FloatCC, Inst, IntCC};
use crate::ir::{lemma_extends_straight_refl, lemma_extends_straight_trans, lemma_push_extends};
use crate::sem::{bool_val, comp_sem, cond_sem, eval, lemma_bool_bits, lemma_eval_prefix,
    val_sem, Env, EvalVal};
use crate::sem::{as_float, as_int, as_ptr, band_i64, bor_i64, bxor_i64};
use crate::translator::{lemma_wf_step, FuncTranslator};

verus! {

broadcast use crate::ir::lemma_effect_count_push;

/// The diagnostic a symbol lookup on an operand would raise, if any.
pub open spec fn sym_lookup_err(ctx: Ctx, v: Value) -> Option<CgError> {
    match v {
        Value::Variable(s) => if !ctx.sym_ok(s) {
            Some(CgError::MissingSymbol { sym: s })
        } else {
            None
        },
        Value::Literal(_) => None,
    }
}

/// The diagnostic loading an operand would raise, if any.
pub open spec fn val_err(ctx: Ctx, v: Value) -> Option<CgError> {
    match v {
        Value::Variable(s) => if !ctx.sym_ok(s) {
            Some(CgError::MissingSymbol { sym: s })
        } else {
            None
        },
        Value::Literal(Literal::Str(sid)) => if !ctx.str_ok(sid) {
            Some(CgError::MissingStrLit { sid })
        } else {
            None
        },
        Value::Literal(_) => None,
    }
}

/// The verification pass on an equality comparison: lookups left to right,
/// then the string / non-string mix is rejected.
pub open spec fn verify_eq_err(ctx: Ctx, l: Value, r: Value) -> Option<CgError> {
    if sym_lookup_err(ctx, l) is Some {
        sym_lookup_err(ctx, l)
    } else if sym_lookup_err(ctx, r) is Some {
        sym_lookup_err(ctx, r)
    } else if (val_kind(ctx, l) == PicKind::Str) != (val_kind(ctx, r) == PicKind::Str) {
        Some(CgError::CmpStrWithNonStr)
    } else {
        None
    }
}

/// The verification pass on an ordinal comparison: lookups left to right,
/// then any string operand is rejected.
pub open spec fn verify_ord_err(ctx: Ctx, l: Value, r: Value) -> Option<CgError> {
    if sym_lookup_err(ctx, l) is Some {
        sym_lookup_err(ctx, l)
    } else if sym_lookup_err(ctx, r) is Some {
        sym_lookup_err(ctx, r)
    } else if val_kind(ctx, l) == PicKind::Str || val_kind(ctx, r) == PicKind::Str {
        Some(CgError::CmpStrOrdinal)
    } else {
        None
    }
}

/// The first diagnostic of the recursive verification pass, if any.
pub open spec fn verify_cond_err(ctx: Ctx, c: Cond) -> Option<CgError>
    decreases c,
{
    match c {
        Cond::Eq(l, r) => verify_eq_err(ctx, l, r),
        Cond::Ge(l, r) => verify_ord_err(ctx, l, r),
        Cond::Le(l, r) => verify_ord_err(ctx, l, r),
        Cond::Gt(l, r) => verify_ord_err(ctx, l, r),
        Cond::Lt(l, r) => verify_ord_err(ctx, l, r),
        Cond::Not(inner) => verify_cond_err(ctx, *inner),
        Cond::And(l, r) => if verify_cond_err(ctx, *l) is Some {
            verify_cond_err(ctx, *l)
        } else {
            verify_cond_err(ctx, *r)
        },
        Cond::Or(l, r) => if verify_cond_err(ctx, *l) is Some {
            verify_cond_err(ctx, *l)
        } else {
            verify_cond_err(ctx, *r)
        },
    }
}

/// The first diagnostic of one comparison's emission, if any.
pub open spec fn comp_err(ctx: Ctx, l: Value, r: Value) -> Option<CgError> {
    if val_err(ctx, l) is Some {
        val_err(ctx, l)
    } else {
        val_err(ctx, r)
    }
}

/// The first diagnostic emission would raise after verification passed,
/// if any: loads happen left to right, depth first.
pub open spec fn cond_load_err(ctx: Ctx, c: Cond) -> Option<CgError>
    decreases c,
{
    match c {
        Cond::Eq(l, r) => comp_err(ctx, l, r),
        Cond::Ge(l, r) => comp_err(ctx, l, r),
        Cond::Le(l, r) => comp_err(ctx, l, r),
        Cond::Gt(l, r) => comp_err(ctx, l, r),
        Cond::Lt(l, r) => comp_err(ctx, l, r),
        Cond::Not(inner) => cond_load_err(ctx, *inner),
        Cond::And(l, r) => if cond_load_err(ctx, *l) is Some {
            cond_load_err(ctx, *l)
        } else {
            cond_load_err(ctx, *r)
        },
        Cond::Or(l, r) => if cond_load_err(ctx, *l) is Some {
            cond_load_err(ctx, *l)
        } else {
            cond_load_err(ctx, *r)
        },
    }
}

/// The diagnostic translating a condition raises, if any: the verification
/// pass first, then the emission lookups.
pub open spec fn cond_err(ctx: Ctx, c: Cond) -> Option<CgError> {
    if verify_cond_err(ctx, c) is Some {
        verify_cond_err(ctx, c)
    } else {
        cond_load_err(ctx, c)
    }
}

impl FuncTranslator {
    /// Verifies that the two operands can be compared for equality: a
    /// string can only be compared to another string.
    pub fn verify_binary_eq_cmp(&self, left: &Value, right: &Value) -> (r: Result<(), CgError>)
        ensures
            r == (match verify_eq_err(self.ctx, *left, *right) {
                Option::None => Result::<(), CgError>::Ok(()),
                Option::Some(e) => Result::<(), CgError>::Err(e),
            }),
    {
        let ls = left.is_str(&self.ctx)?;
        let rs = right.is_str(&self.ctx)?;
        if (ls && !rs) || (!ls && rs) {
            return Err(CgError::CmpStrWithNonStr);
        }
        Ok(())
    }

    /// Verifies that the two operands can be compared ordinally: strings
    /// cannot be.
    pub fn verify_binary_ord_cmp(&self, left: &Value, right: &Value) -> (r: Result<(), CgError>)
        ensures
            r == (match verify_ord_err(self.ctx, *left, *right) {
                Option::None => Result::<(), CgError>::Ok(()),
                Option::Some(e) => Result::<(), CgError>::Err(e),
            }),
    {
        let ls = left.is_str(&self.ctx)?;
        let rs = right.is_str(&self.ctx)?;
        if ls || rs {
            return Err(CgError::CmpStrOrdinal);
        }
        Ok(())
    }

    /// The recursive verification pass over a condition tree, run before
    /// any IR is emitted for it.
    pub fn verify_cond(&self, cond: &Cond) -> (r: Result<(), CgError>)
        ensures
            r == (match verify_cond_err(self.ctx, *cond) {
                Option::None => Result::<(), CgError>::Ok(()),
                Option::Some(e) => Result::<(), CgError>::Err(e),
            }),
        decreases *cond,
    {
        match cond {
            Cond::Eq(left, right) => self.verify_binary_eq_cmp(left, right),
            Cond::Ge(left, right) => self.verify_binary_ord_cmp(left, right),
            Cond::Le(left, right) => self.verify_binary_ord_cmp(left, right),
            Cond::Gt(left, right) => self.verify_binary_ord_cmp(left, right),
            Cond::Lt(left, right) => self.verify_binary_ord_cmp(left, right),
            Cond::Not(inner) => self.verify_cond(&**inner),
            Cond::And(l, r) => {
                self.verify_cond(&**l)?;
                self.verify_cond(&**r)?;
                Ok(())
            },
            Cond::Or(l, r) => {
                self.verify_cond(&**l)?;
                self.verify_cond(&**r)?;
                Ok(())
            },
        }
    }

    /// Translates one comparison to a boolean-shaped value: the emitted
    /// node evaluates to the comparison's denotation in every environment.
    #[verifier::rlimit(60)]
    pub fn translate_cond_comp(&mut self, l: &Value, r: &Value, int_cc: IntCC,
        float_cc: FloatCC) -> (res: Result<usize, CgError>)
        requires
            old(self).wf(),
            (val_kind(old(self).ctx, *l) == PicKind::Str
                || val_kind(old(self).ctx, *r) == PicKind::Str)
                ==> val_kind(old(self).ctx, *l) == PicKind::Str
                    && val_kind(old(self).ctx, *r) == PicKind::Str
                    && int_cc == IntCC::Equal && float_cc == FloatCC::Equal,
        ensures
            final(self).wf(),
            final(self).ctx == old(self).ctx,
            extends_straight(old(self).builder, final(self).builder),
            effect_count(final(self).builder.insts@)
                == effect_count(old(self).builder.insts@),
            res is Ok <==> comp_err(old(self).ctx, *l, *r) is None,
            res is Err ==> Some(res->Err_0) == comp_err(old(self).ctx, *l, *r),
            res is Ok ==> val_def(final(self).builder.insts@, res->Ok_0),
            res is Ok ==> forall|env: Env|
                #[trigger] eval(final(self).builder.insts@, env, res->Ok_0 as int)
                    == bool_val(comp_sem(old(self).ctx, env, *l, *r, int_cc, float_cc)),
    {
        let l_val0 = self.load_value(l)?;
        let ghost t1 = *self;
        let r_val0 = self.load_value(r)?;
        let ghost t2 = *self;
        proof {
            assert(val_def(t2.builder.insts@, l_val0)) by {
                assert(t2.builder.insts@[l_val0 as int] == t1.builder.insts@[l_val0 as int]);
            }
            lemma_extends_straight_trans(old(self).builder, t1.builder, t2.builder);
            lemma_extends_straight_refl(t2.builder);
        }

        let l_float = l.is_float(&self.ctx)?;
        let r_float = r.is_float(&self.ctx)?;
        let use_float = l_float || r_float;
        let mut l_val = l_val0;
        let mut r_val = r_val0;
        if use_float {
            if !l_float {
                let ghost pre = *self;
                l_val = self.builder.fcvt_from_sint(l_val);
                proof {
                    lemma_wf_step(pre, *self);
                    lemma_push_extends(pre.builder, self.builder);
                    lemma_extends_straight_trans(t2.builder, pre.builder, self.builder);
                }
            }
            if !r_float {
                let ghost pre = *self;
                proof {
                    assert(val_def(pre.builder.insts@, r_val)) by {
                        assert(pre.builder.insts@[r_val as int]
                            == t2.builder.insts@[r_val as int]);
                    }
                }
                r_val = self.builder.fcvt_from_sint(r_val);
                proof {
                    lemma_wf_step(pre, *self);
                    lemma_push_extends(pre.builder, self.builder);
                    lemma_extends_straight_trans(t2.builder, pre.builder, self.builder);
                }
            }
        }
        let ghost t3 = *self;
        proof {
            lemma_extends_straight_trans(old(self).builder, t2.builder, t3.builder);
            // the operands' denotations, in the stream as it stands now
            assert forall|env: Env|
                #[trigger] eval(t3.builder.insts@, env, l_val0 as int)
                    == val_sem(old(self).ctx, env, *l) by {
                lemma_eval_prefix(t1.builder.insts@, t2.builder.insts@, env, l_val0 as int);
                lemma_eval_prefix(t2.builder.insts@, t3.builder.insts@, env, l_val0 as int);
            }
            assert forall|env: Env|
                #[trigger] eval(t3.builder.insts@, env, r_val0 as int)
                    == val_sem(old(self).ctx, env, *r) by {
                lemma_eval_prefix(t2.builder.insts@, t3.builder.insts@, env, r_val0 as int);
            }
            assert(val_def(t3.builder.insts@, l_val)) by {
                if l_val == l_val0 {
                    assert(t3.builder.insts@[l_val as int]
                        == t1.builder.insts@[l_val as int]);
                }
            }
            assert(val_def(t3.builder.insts@, r_val)) by {
                if r_val == r_val0 {
                    assert(t3.builder.insts@[r_val as int]
                        == t2.builder.insts@[r_val as int]);
                }
            }
        }

        let l_str = l.is_str(&self.ctx)?;
        let r_str = r.is_str(&self.ctx)?;
        let ghost ctx = old(self).ctx;
        if l_str || r_str {
            let res = self.builder.call_strcmp(l_val, r_val);
            proof {
                lemma_wf_step(t3, *self);
                lemma_push_extends(t3.builder, self.builder);
                lemma_extends_straight_trans(old(self).builder, t3.builder, self.builder);
                let s = self.builder.insts@;
                assert forall|env: Env| #[trigger] eval(s, env, res as int)
                    == bool_val(comp_sem(ctx, env, *l, *r, int_cc, float_cc)) by {
                    lemma_eval_prefix(t3.builder.insts@, s, env, l_val as int);
                    lemma_eval_prefix(t3.builder.insts@, s, env, r_val as int);
                    assert(s[res as int] == (Inst::CallStrCmp { lhs: l_val, rhs: r_val }));
                    assert(eval(s, env, l_val as int) == val_sem(ctx, env, *l));
                    assert(eval(s, env, r_val as int) == val_sem(ctx, env, *r));
                    assert(val_sem(ctx, env, *l)
                        == (EvalVal::VPtr(as_ptr(val_sem(ctx, env, *l)))));
                    assert(val_sem(ctx, env, *r)
                        == (EvalVal::VPtr(as_ptr(val_sem(ctx, env, *r)))));
                }
            }
            Ok(res)
        } else if use_float {
            let res = self.builder.fcmp(float_cc, l_val, r_val);
            proof {
                lemma_wf_step(t3, *self);
                lemma_push_extends(t3.builder, self.builder);
                lemma_extends_straight_trans(old(self).builder, t3.builder, self.builder);
                let s = self.builder.insts@;
                assert forall|env: Env| #[trigger] eval(s, env, res as int)
                    == bool_val(comp_sem(ctx, env, *l, *r, int_cc, float_cc)) by {
                    lemma_eval_prefix(t3.builder.insts@, s, env, l_val as int);
                    lemma_eval_prefix(t3.builder.insts@, s, env, r_val as int);
                    assert(s[res as int]
                        == (Inst::Fcmp { cc: float_cc, lhs: l_val, rhs: r_val }));
                    // the left operand denotes its float reading
                    if l_float {
                        assert(eval(t3.builder.insts@, env, l_val as int)
                            == val_sem(ctx, env, *l));
                        assert(val_sem(ctx, env, *l)
                            == (EvalVal::VFloat(as_float(env, val_sem(ctx, env, *l)))));
                    } else {
                        assert(t3.builder.insts@[l_val as int]
                            == (Inst::FcvtFromSint { arg: l_val0 }));
                        assert(eval(t3.builder.insts@, env, l_val0 as int)
                            == val_sem(ctx, env, *l));
                        assert(val_sem(ctx, env, *l)
                            == (EvalVal::VInt(as_int(val_sem(ctx, env, *l)))));
                    }
                    if r_float {
                        assert(eval(t3.builder.insts@, env, r_val as int)
                            == val_sem(ctx, env, *r));
                        assert(val_sem(ctx, env, *r)
                            == (EvalVal::VFloat(as_float(env, val_sem(ctx, env, *r)))));
                    } else {
                        assert(t3.builder.insts@[r_val as int]
                            == (Inst::FcvtFromSint { arg: r_val0 }));
                        assert(eval(t3.builder.insts@, env, r_val0 as int)
                            == val_sem(ctx, env, *r));
                        assert(val_sem(ctx, env, *r)
                            == (EvalVal::VInt(as_int(val_sem(ctx, env, *r)))));
                    }
                    assert(eval(s, env, l_val as int)
                        == (EvalVal::VFloat(as_float(env, val_sem(ctx, env, *l)))));
                    assert(eval(s, env, r_val as int)
                        == (EvalVal::VFloat(as_float(env, val_sem(ctx, env, *r)))));
                }
            }
            Ok(res)
        } else {
            let res = self.builder.icmp(int_cc, l_val, r_val);
            proof {
                lemma_wf_step(t3, *self);
                lemma_push_extends(t3.builder, self.builder);
                lemma_extends_straight_trans(old(self).builder, t3.builder, self.builder);
                let s = self.builder.insts@;
                assert forall|env: Env| #[trigger] eval(s, env, res as int)
                    == bool_val(comp_sem(ctx, env, *l, *r, int_cc, float_cc)) by {
                    lemma_eval_prefix(t3.builder.insts@, s, env, l_val as int);
                    lemma_eval_prefix(t3.builder.insts@, s, env, r_val as int);
                    assert(s[res as int]
                        == (Inst::Icmp { cc: int_cc, lhs: l_val, rhs: r_val }));
                    assert(eval(s, env, l_val as int) == val_sem(ctx, env, *l));
                    assert(eval(s, env, r_val as int) == val_sem(ctx, env, *r));
                    assert(val_sem(ctx, env, *l)
                        == (EvalVal::VInt(as_int(val_sem(ctx, env, *l)))));
                    assert(val_sem(ctx, env, *r)
                        == (EvalVal::VInt(as_int(val_sem(ctx, env, *r)))));
                }
            }
            Ok(res)
        }
    }

    /// Translates a condition to a boolean-shaped value: 1 when the
    /// condition holds, 0 when it does not — in every environment, for any
    /// interpretation of the float operations. Both operands of AND / OR
    /// are always emitted and evaluated; NOT is xor with 1.
    #[verifier::rlimit(60)]
    pub fn translate_cond_eval(&mut self, cond: &Cond) -> (res: Result<usize, CgError>)
        requires old(self).wf(),
        ensures
            final(self).wf(),
            final(self).ctx == old(self).ctx,
            extends_straight(old(self).builder, final(self).builder),
            effect_count(final(self).builder.insts@)
                == effect_count(old(self).builder.insts@),
            verify_cond_err(old(self).ctx, *cond) is Some ==> *final(self) == *old(self),
            res is Ok <==> cond_err(old(self).ctx, *cond) is None,
            res is Err ==> Some(res->Err_0) == cond_err(old(self).ctx, *cond),
            res is Ok ==> val_def(final(self).builder.insts@, res->Ok_0),
            res is Ok ==> forall|env: Env|
                #[trigger] eval(final(self).builder.insts@, env, res->Ok_0 as int)
                    == bool_val(cond_sem(old(self).ctx, env, *cond)),
        decreases *cond,
    {
        self.verify_cond(cond)?;

        match cond {
            Cond::Eq(l, r) => self.translate_cond_comp(l, r, IntCC::Equal, FloatCC::Equal),
            Cond::Ge(l, r) => self.translate_cond_comp(l, r, IntCC::SignedGe, FloatCC::Ge),
            Cond::Le(l, r) => self.translate_cond_comp(l, r, IntCC::SignedLe, FloatCC::Le),
            Cond::Gt(l, r) => self.translate_cond_comp(l, r, IntCC::SignedGt, FloatCC::Gt),
            Cond::Lt(l, r) => self.translate_cond_comp(l, r, IntCC::SignedLt, FloatCC::Lt),
            Cond::Not(inner) => {
                let v = self.translate_cond_eval(&**inner)?;
                let ghost pre = *self;
                let res = self.builder.bxor_imm(v, 1);
                proof {
                    lemma_wf_step(pre, *self);
                    lemma_push_extends(pre.builder, self.builder);
                    lemma_extends_straight_trans(old(self).builder, pre.builder, self.builder);
                    lemma_bool_bits();
                    let s = self.builder.insts@;
                    let ctx = old(self).ctx;
                    assert forall|env: Env| #[trigger] eval(s, env, res as int)
                        == bool_val(cond_sem(ctx, env, *cond)) by {
                        lemma_eval_prefix(pre.builder.insts@, s, env, v as int);
                        assert(s[res as int] == (Inst::BxorImm { arg: v, imm: 1 }));
                        assert(eval(s, env, v as int)
                            == bool_val(cond_sem(ctx, env, **inner)));
                        if cond_sem(ctx, env, **inner) {
                            assert(eval(s, env, res as int) == (EvalVal::VInt(bxor_i64(1, 1))));
                        } else {
                            assert(eval(s, env, res as int) == (EvalVal::VInt(bxor_i64(0, 1))));
                        }
                    }
                }
                Ok(res)
            },
            Cond::And(l, r) => {
                let lv = self.translate_cond_eval(&**l)?;
                let ghost tl = *self;
                let rv = match self.translate_cond_eval(&**r) {
                    Ok(v) => v,
                    Err(e) => {
                        proof {
                            lemma_extends_straight_trans(old(self).builder, tl.builder,
                                self.builder);
                        }
                        return Err(e);
                    },
                };
                let ghost tr = *self;
                proof {
                    assert(val_def(tr.builder.insts@, lv)) by {
                        assert(tr.builder.insts@[lv as int] == tl.builder.insts@[lv as int]);
                    }
                }
                let res = self.builder.band(lv, rv);
                proof {
                    lemma_wf_step(tr, *self);
                    lemma_extends_straight_trans(old(self).builder, tl.builder, tr.builder);
                    lemma_push_extends(tr.builder, self.builder);
                    lemma_extends_straight_trans(old(self).builder, tr.builder, self.builder);
                    lemma_bool_bits();
                    let s = self.builder.insts@;
                    let ctx = old(self).ctx;
                    assert forall|env: Env| #[trigger] eval(s, env, res as int)
                        == bool_val(cond_sem(ctx, env, *cond)) by {
                        lemma_eval_prefix(tl.builder.insts@, tr.builder.insts@, env, lv as int);
                        lemma_eval_prefix(tr.builder.insts@, s, env, lv as int);
                        lemma_eval_prefix(tr.builder.insts@, s, env, rv as int);
                        assert(s[res as int] == (Inst::Band { lhs: lv, rhs: rv }));
                        assert(eval(s, env, lv as int)
                            == bool_val(cond_sem(ctx, env, **l)));
                        assert(eval(s, env, rv as int)
                            == bool_val(cond_sem(ctx, env, **r)));
                        let a = cond_sem(ctx, env, **l);
                        let b = cond_sem(ctx, env, **r);
                        if a && b {
                            assert(eval(s, env, res as int) == (EvalVal::VInt(band_i64(1, 1))));
                        } else if a {
                            assert(eval(s, env, res as int) == (EvalVal::VInt(band_i64(1, 0))));
                        } else if b {
                            assert(eval(s, env, res as int) == (EvalVal::VInt(band_i64(0, 1))));
                        } else {
                            assert(eval(s, env, res as int) == (EvalVal::VInt(band_i64(0, 0))));
                        }
                    }
                }
                Ok(res)
            },
            Cond::Or(l, r) => {
                let lv = self.translate_cond_eval(&**l)?;
                let ghost tl = *self;
                let rv = match self.translate_cond_eval(&**r) {
                    Ok(v) => v,
                    Err(e) => {
                        proof {
                            lemma_extends_straight_trans(old(self).builder, tl.builder,
                                self.builder);
                        }
                        return Err(e);
                    },
                };
                let ghost tr = *self;
                proof {
                    assert(val_def(tr.builder.insts@, lv)) by {
                        assert(tr.builder.insts@[lv as int] == tl.builder.insts@[lv as int]);
                    }
                }
                let res = self.builder.bor(lv, rv);
                proof {
                    lemma_wf_step(tr, *self);
                    lemma_extends_straight_trans(old(self).builder, tl.builder, tr.builder);
                    lemma_push_extends(tr.builder, self.builder);
                    lemma_extends_straight_trans(old(self).builder, tr.builder, self.builder);
                    lemma_bool_bits();
                    let s = self.builder.insts@;
                    let ctx = old(self).ctx;
                    assert forall|env: Env| #[trigger] eval(s, env, res as int)
                        == bool_val(cond_sem(ctx, env, *cond)) by {
                        lemma_eval_prefix(tl.builder.insts@, tr.builder.insts@, env, lv as int);
                        lemma_eval_prefix(tr.builder.insts@, s, env, lv as int);
                        lemma_eval_prefix(tr.builder.insts@, s, env, rv as int);
                        assert(s[res as int] == (Inst::Bor { lhs: lv, rhs: rv }));
                        assert(eval(s, env, lv as int)
                            == bool_val(cond_sem(ctx, env, **l)));
                        assert(eval(s, env, rv as int)
                            == bool_val(cond_sem(ctx, env, **r)));
                        let a = cond_sem(ctx, env, **l);
                        let b = cond_sem(ctx, env, **r);
                        if a && b {
                            assert(eval(s, env, res as int) == (EvalVal::VInt(bor_i64(1, 1))));
                        } else if a {
                            assert(eval(s, env, res as int) == (EvalVal::VInt(bor_i64(1, 0))));
                        } else if b {
                            assert(eval(s, env, res as int) == (EvalVal::VInt(bor_i64(0, 1))));
                        } else {
                            assert(eval(s, env, res as int) == (EvalVal::VInt(bor_i64(0, 0))));
                        }
                    }
                }
                Ok(res)
            },
        }
    }
}

} // verus!

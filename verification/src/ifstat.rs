//! The statement and IF translators. An IF lowers to a conditional branch
//! over an `if_block`, an optional `else_block`, and a `trailing_block`
//! that becomes the current block afterwards. Sealing discipline: a block
//! is sealed once all its predecessors are known, and every block this
//! translator allocates is sealed exactly once by the time it returns.

use vstd::prelude::*;
use crate::ast::{CgError, Ctx, IfData, Stat};
use crate::cond::cond_err;
use crate::ir::{effect_count, extends_frame, no_new_seals, seal_count, Inst, IrBuilder};
use crate::ir::{lemma_frame_refl, lemma_frame_trans, lemma_no_seal_counts, lemma_prefix_refl,
    lemma_no_seal_trans, lemma_prefix_trans, lemma_push_frame, lemma_push_no_seals,
    lemma_seal_count_oob, lemma_seal_count_push, lemma_straight_is_frame,
    lemma_straight_no_seals};
use crate::memory::{move_emitted, move_err};
use crate::translator::{lemma_wf_step, FuncTranslator};
use crate::sem::{bool_val, cond_sem, eval, Env};

verus! {

broadcast use crate::ir::lemma_effect_count_push;

/// Whether a statement ends its block with an unconditional control-flow
/// transfer, making anything after it in the same block unreachable.
pub open spec fn stat_terminates(s: Stat) -> bool {
    s is StopRun
}

/// The shape invariant the parser guarantees: an IF either has no branches
/// at all, or a non-empty then-branch; and so recursively.
pub open spec fn if_shape_ok(d: IfData) -> bool
    decreases d via if_shape_ok_decreases
{
    if d.if_stats is None && d.else_stats is None {
        true
    } else {
        &&& d.if_stats is Some
        &&& d.if_stats->0@.len() > 0
        &&& stats_shape_ok(d.if_stats->0@)
        &&& match d.else_stats {
                Some(es) => stats_shape_ok(es@),
                None => true,
            }
    }
}

#[via_fn]
proof fn if_shape_ok_decreases(d: IfData) {
    if !(d.if_stats is None && d.else_stats is None) {
        if d.if_stats is Some {
            assert(decreases_to!(d => d.if_stats));
            assert(decreases_to!(d.if_stats => d.if_stats->0));
            assert(decreases_to!(d.if_stats->0 => d.if_stats->0@));
            assert(decreases_to!(d => d.if_stats->0@));
        }
        if d.else_stats is Some {
            assert(decreases_to!(d => d.else_stats));
            assert(decreases_to!(d.else_stats => d.else_stats->0));
            assert(decreases_to!(d.else_stats->0 => d.else_stats->0@));
            assert(decreases_to!(d => d.else_stats->0@));
        }
    }
}

/// Shape invariant of one statement.
pub open spec fn stat_shape_ok(s: Stat) -> bool
    decreases s,
{
    match s {
        Stat::If(d) => if_shape_ok(d),
        _ => true,
    }
}

/// Shape invariant of a statement list.
pub open spec fn stats_shape_ok(ss: Seq<Stat>) -> bool
    decreases ss,
{
    if ss.len() == 0 {
        true
    } else {
        stat_shape_ok(ss[0]) && stats_shape_ok(ss.drop_first())
    }
}

/// The diagnostic one statement raises, if any.
pub open spec fn stat_err(ctx: Ctx, s: Stat) -> Option<CgError>
    decreases s,
{
    match s {
        Stat::Move(m) => move_err(ctx, m),
        Stat::If(d) => if_err(ctx, d),
        Stat::StopRun => None,
    }
}

/// The diagnostic a statement list raises, if any: each statement in
/// order, and the unreachable-code diagnostic for any statement standing
/// after a self-terminating one in the same block.
pub open spec fn stats_err(ctx: Ctx, ss: Seq<Stat>) -> Option<CgError>
    decreases ss,
{
    if ss.len() == 0 {
        None
    } else if stat_err(ctx, ss[0]) is Some {
        stat_err(ctx, ss[0])
    } else if stat_terminates(ss[0]) {
        if ss.len() > 1 {
            Some(CgError::UnreachableCode)
        } else {
            None
        }
    } else {
        stats_err(ctx, ss.drop_first())
    }
}

/// Whether a successfully translated statement list ends by terminating
/// its block.
pub open spec fn stats_terminate(ss: Seq<Stat>) -> bool {
    ss.len() > 0 && stat_terminates(ss.last())
}

/// The diagnostic an IF statement raises, if any: nothing when both
/// branches are absent; otherwise the condition first, then the
/// then-branch, then the else-branch.
pub open spec fn if_err(ctx: Ctx, d: IfData) -> Option<CgError>
    decreases d via if_err_decreases
{
    if d.if_stats is None && d.else_stats is None {
        None
    } else if cond_err(ctx, d.condition) is Some {
        cond_err(ctx, d.condition)
    } else {
        let then_e = match d.if_stats {
            Some(ss) => stats_err(ctx, ss@),
            None => None,
        };
        if then_e is Some {
            then_e
        } else {
            match d.else_stats {
                Some(es) => stats_err(ctx, es@),
                None => None,
            }
        }
    }
}

#[via_fn]
proof fn if_err_decreases(ctx: Ctx, d: IfData) {
    if !(d.if_stats is None && d.else_stats is None) {
        if d.if_stats is Some {
            assert(decreases_to!(d => d.if_stats));
            assert(decreases_to!(d.if_stats => d.if_stats->0));
            assert(decreases_to!(d.if_stats->0 => d.if_stats->0@));
            assert(decreases_to!(d => d.if_stats->0@));
        }
        if d.else_stats is Some {
            assert(decreases_to!(d => d.else_stats));
            assert(decreases_to!(d.else_stats => d.else_stats->0));
            assert(decreases_to!(d.else_stats->0 => d.else_stats->0@));
            assert(decreases_to!(d => d.else_stats->0@));
        }
    }
}

/// How many basic blocks translating a statement may allocate; machine
/// limits ask that the block counter cannot overflow.
pub open spec fn stat_blocks(s: Stat) -> nat
    decreases s,
{
    match s {
        Stat::If(d) => if_blocks(d),
        _ => 0,
    }
}

/// How many basic blocks translating a statement list may allocate.
pub open spec fn stats_blocks(ss: Seq<Stat>) -> nat
    decreases ss,
{
    if ss.len() == 0 {
        0
    } else {
        stat_blocks(ss[0]) + stats_blocks(ss.drop_first())
    }
}

/// How many basic blocks translating an IF may allocate.
pub open spec fn if_blocks(d: IfData) -> nat
    decreases d via if_blocks_decreases
{
    if d.if_stats is None && d.else_stats is None {
        0
    } else {
        3 + (match d.if_stats {
            Some(ss) => stats_blocks(ss@),
            None => 0,
        }) + (match d.else_stats {
            Some(es) => stats_blocks(es@),
            None => 0,
        })
    }
}

#[via_fn]
proof fn if_blocks_decreases(d: IfData) {
    if !(d.if_stats is None && d.else_stats is None) {
        if d.if_stats is Some {
            assert(decreases_to!(d => d.if_stats));
            assert(decreases_to!(d.if_stats => d.if_stats->0));
            assert(decreases_to!(d.if_stats->0 => d.if_stats->0@));
            assert(decreases_to!(d => d.if_stats->0@));
        }
        if d.else_stats is Some {
            assert(decreases_to!(d => d.else_stats));
            assert(decreases_to!(d.else_stats => d.else_stats->0));
            assert(decreases_to!(d.else_stats->0 => d.else_stats->0@));
            assert(decreases_to!(d => d.else_stats->0@));
        }
    }
}

/// Budget of a statement-list prefix: what remains never exceeds the
/// whole.
proof fn stats_blocks_split(ss: Seq<Stat>, i: int)
    requires 0 <= i < ss.len(),
    ensures stats_blocks(ss.skip(i)) == stat_blocks(ss[i]) + stats_blocks(ss.skip(i + 1)),
{
    assert(ss.skip(i)[0] == ss[i]);
    assert(ss.skip(i).drop_first() =~= ss.skip(i + 1));
}

/// What a successful IF translation emits, relative to the builder it
/// started from. With no branches, nothing. With branches: the then block
/// is allocated first (id `b0.num_blocks`), then the optional else block,
/// then the trailing block, which is the current block on return; the
/// appended range holds a conditional branch on the condition's
/// denotation whose truthy target is the then block and whose falsy
/// target is the else block when present, else the trailing block; and
/// each branch that does not terminate itself falls through by a jump to
/// the trailing block.
pub open spec fn if_emitted(ctx: Ctx, d: IfData, b0: IrBuilder, b1: IrBuilder) -> bool {
    if d.if_stats is None && d.else_stats is None {
        b1 == b0
    } else {
        let ifb = b0.num_blocks as int;
        let has_else = d.else_stats is Some;
        let tb = ifb + (if has_else { 2int } else { 1int });
        let s = b1.insts@;
        &&& b0.insts@.is_prefix_of(s)
        &&& b1.cur_block as int == tb
        &&& b1.num_blocks as int > tb
        &&& exists|j: int| b0.insts@.len() <= j < s.len() && (match #[trigger] s[j] {
                Inst::Brif { cond, then_block, else_block } =>
                    then_block as int == ifb
                    && else_block as int == (if has_else { ifb + 1 } else { tb })
                    && forall|env: Env| #[trigger] eval(s, env, cond as int)
                        == bool_val(cond_sem(ctx, env, d.condition)),
                _ => false,
            })
        &&& (match d.if_stats {
                Some(ss) => !stats_terminate(ss@) ==> exists|j: int|
                    b0.insts@.len() <= j < s.len() && (match #[trigger] s[j] {
                        Inst::Jump { block } => block as int == tb,
                        _ => false,
                    }),
                None => true,
            })
        &&& (match d.else_stats {
                Some(es) => !stats_terminate(es@) ==> exists|j: int|
                    b0.insts@.len() <= j < s.len() && (match #[trigger] s[j] {
                        Inst::Jump { block } => block as int == tb,
                        _ => false,
                    }),
                None => true,
            })
    }
}

/// What a successful statement translation emits, relative to the builder
/// it started from: a MOVE appends exactly one effect, its stated tail; a
/// stop appends exactly one return; an IF emits its block structure.
pub open spec fn stat_emitted(ctx: Ctx, st: Stat, b0: IrBuilder, b1: IrBuilder) -> bool {
    match st {
        Stat::Move(m) => move_emitted(ctx, m, b1.insts@)
            && effect_count(b1.insts@) == effect_count(b0.insts@) + 1
            && b0.insts@.is_prefix_of(b1.insts@),
        Stat::StopRun => b1.insts@ == b0.insts@.push(Inst::Ret),
        Stat::If(d) => if_emitted(ctx, d, b0, b1),
    }
}

/// Each statement's emission appears, in order, in the appended range:
/// the stream decomposes into consecutive segments, one per statement.
pub open spec fn stats_emitted(ctx: Ctx, ss: Seq<Stat>, b0: IrBuilder, b1: IrBuilder)
    -> bool
    decreases ss.len(),
{
    if ss.len() == 0 {
        b1 == b0
    } else {
        exists|bm: IrBuilder| #[trigger] stat_emitted(ctx, ss[0], b0, bm)
            && stats_emitted(ctx, ss.drop_first(), bm, b1)
    }
}

/// Extending an emission chain by one more statement's segment.
proof fn lemma_stats_emitted_snoc(ctx: Ctx, ss: Seq<Stat>, x: Stat, b0: IrBuilder,
    bm: IrBuilder, b1: IrBuilder)
    requires
        stats_emitted(ctx, ss, b0, bm),
        stat_emitted(ctx, x, bm, b1),
    ensures stats_emitted(ctx, ss.push(x), b0, b1),
    decreases ss.len(),
{
    if ss.len() == 0 {
        assert(bm == b0);
        assert(ss.push(x)[0] == x);
        assert(ss.push(x).drop_first() =~= Seq::<Stat>::empty());
        assert(stats_emitted(ctx, ss.push(x).drop_first(), b1, b1));
        assert(stat_emitted(ctx, ss.push(x)[0], b0, b1));
    } else {
        let bmid = choose|bmid: IrBuilder| #[trigger] stat_emitted(ctx, ss[0], b0, bmid)
            && stats_emitted(ctx, ss.drop_first(), bmid, bm);
        lemma_stats_emitted_snoc(ctx, ss.drop_first(), x, bmid, bm, b1);
        assert(ss.drop_first().push(x) =~= ss.push(x).drop_first());
        assert(ss.push(x)[0] == ss[0]);
        assert(stat_emitted(ctx, ss.push(x)[0], b0, bmid));
        assert(stats_emitted(ctx, ss.push(x).drop_first(), bmid, b1));
    }
}

/// Shape of a statement list restricts each element.
proof fn stats_shape_lemma(ss: Seq<Stat>, i: int)
    requires
        stats_shape_ok(ss),
        0 <= i < ss.len(),
    ensures stat_shape_ok(ss[i]),
    decreases ss.len(),
{
    if i > 0 {
        stats_shape_lemma(ss.drop_first(), i - 1);
        assert(ss.drop_first()[i - 1] == ss[i]);
    }
}

impl FuncTranslator {
    /// Translates one statement, returning whether it terminated the
    /// current block itself. Every block it allocates is sealed exactly
    /// once; seal counts of pre-existing blocks are untouched.
    pub fn translate_stat(&mut self, stat: &Stat) -> (res: Result<bool, CgError>)
        requires
            old(self).wf(),
            stat_shape_ok(*stat),
            old(self).builder.num_blocks + stat_blocks(*stat) <= usize::MAX,
        ensures
            final(self).wf(),
            final(self).ctx == old(self).ctx,
            extends_frame(old(self).builder, final(self).builder),
            final(self).builder.num_blocks
                <= old(self).builder.num_blocks + stat_blocks(*stat),
            res is Ok <==> stat_err(old(self).ctx, *stat) is None,
            res is Err ==> Some(res->Err_0) == stat_err(old(self).ctx, *stat),
            res is Ok ==> res->Ok_0 == stat_terminates(*stat),
            res is Ok ==> stat_emitted(old(self).ctx, *stat, old(self).builder,
                final(self).builder),
            res is Ok ==> forall|b: int|
                old(self).builder.num_blocks <= b < final(self).builder.num_blocks
                ==> #[trigger] seal_count(final(self).builder.insts@, b) == 1,
        decreases *stat,
    {
        match stat {
            Stat::Move(m) => {
                let r = self.translate_move(m);
                proof {
                    lemma_straight_is_frame(old(self).builder, self.builder);
                }
                match r {
                    Ok(_) => Ok(false),
                    Err(e) => Err(e),
                }
            },
            Stat::If(d) => {
                let r = self.translate_if(d);
                match r {
                    Ok(_) => Ok(false),
                    Err(e) => Err(e),
                }
            },
            Stat::StopRun => {
                let ghost pre = *self;
                self.builder.ret();
                proof {
                    lemma_wf_step(pre, *self);
                    lemma_push_frame(pre.builder, self.builder);
                }
                Ok(true)
            },
        }
    }

    /// Translates the statements of one branch into the current block,
    /// raising the unreachable-code diagnostic for any statement after a
    /// self-terminating one. Returns whether the block terminated itself.
    #[verifier::rlimit(60)]
    pub fn translate_block_stats(&mut self, stats: &Vec<Stat>) -> (res: Result<bool, CgError>)
        requires
            old(self).wf(),
            stats_shape_ok(stats@),
            old(self).builder.num_blocks + stats_blocks(stats@) <= usize::MAX,
        ensures
            final(self).wf(),
            final(self).ctx == old(self).ctx,
            extends_frame(old(self).builder, final(self).builder),
            final(self).builder.num_blocks
                <= old(self).builder.num_blocks + stats_blocks(stats@),
            res is Ok <==> stats_err(old(self).ctx, stats@) is None,
            res is Err ==> Some(res->Err_0) == stats_err(old(self).ctx, stats@),
            res is Ok ==> res->Ok_0 == stats_terminate(stats@),
            res is Ok ==> stats_emitted(old(self).ctx, stats@, old(self).builder,
                final(self).builder),
            res is Ok ==> forall|b: int|
                old(self).builder.num_blocks <= b < final(self).builder.num_blocks
                ==> #[trigger] seal_count(final(self).builder.insts@, b) == 1,
        decreases stats@,
    {
        let ghost ctx = old(self).ctx;
        let mut terminated = false;
        let mut i: usize = 0;
        proof {
            lemma_frame_refl(self.builder);
            assert(stats@.skip(0) =~= stats@);
            assert(stats@.take(0) =~= Seq::<Stat>::empty());
            assert(stats_emitted(ctx, stats@.take(0), old(self).builder, self.builder));
        }
        while i < stats.len()
            invariant
                self.wf(),
                ctx == old(self).ctx,
                self.ctx == ctx,
                i <= stats@.len(),
                stats_shape_ok(stats@),
                old(self).builder.num_blocks + stats_blocks(stats@) <= usize::MAX,
                extends_frame(old(self).builder, self.builder),
                stats_emitted(ctx, stats@.take(i as int), old(self).builder, self.builder),
                self.builder.num_blocks + stats_blocks(stats@.skip(i as int))
                    <= old(self).builder.num_blocks + stats_blocks(stats@),
                forall|b: int|
                    old(self).builder.num_blocks <= b < self.builder.num_blocks
                    ==> #[trigger] seal_count(self.builder.insts@, b) == 1,
                terminated ==> i >= 1 && stat_terminates(stats@[i - 1]),
                !terminated ==> forall|j: int| 0 <= j < i
                    ==> !stat_terminates(#[trigger] stats@[j]),
                if terminated {
                    stats_err(ctx, stats@) == (if i < stats@.len() {
                        Some(CgError::UnreachableCode)
                    } else {
                        Option::<CgError>::None
                    })
                } else {
                    stats_err(ctx, stats@) == stats_err(ctx, stats@.skip(i as int))
                },
            decreases stats@.len() - i,
        {
            if terminated {
                return Err(CgError::UnreachableCode);
            }
            proof {
                assert(stats@.skip(i as int)[0] == stats@[i as int]);
                stats_shape_lemma(stats@, i as int);
                stats_blocks_split(stats@, i as int);
                assert(decreases_to!(stats@ => stats@[i as int]));
            }
            let ghost pre = *self;
            let t = match self.translate_stat(&stats[i]) {
                Ok(t) => t,
                Err(e) => {
                    proof {
                        lemma_frame_trans(old(self).builder, pre.builder, self.builder);
                    }
                    return Err(e);
                },
            };
            terminated = t;
            i = i + 1;
            proof {
                lemma_frame_trans(old(self).builder, pre.builder, self.builder);
                lemma_stats_emitted_snoc(ctx, stats@.take(i - 1), stats@[i - 1],
                    old(self).builder, pre.builder, self.builder);
                assert(stats@.take(i - 1).push(stats@[i - 1]) =~= stats@.take(i as int));
                assert(stats_emitted(ctx, stats@.take(i as int), old(self).builder,
                    self.builder));
                assert(stats@.skip(i - 1)[0] == stats@[i - 1]);
                assert(stats@.skip(i - 1).drop_first() =~= stats@.skip(i as int));
                assert forall|b: int|
                    old(self).builder.num_blocks <= b < self.builder.num_blocks
                    implies #[trigger] seal_count(self.builder.insts@, b) == 1 by {
                    if b < pre.builder.num_blocks {
                        assert(seal_count(pre.builder.insts@, b) == 1);
                    }
                }
            }
        }
        proof {
            if !terminated {
                assert(stats@.skip(i as int) =~= Seq::<Stat>::empty());
            }
            if stats@.len() > 0 {
                assert(stats@.last() == stats@[stats@.len() - 1]);
            }
            assert(stats@.take(i as int) =~= stats@);
        }
        Ok(terminated)
    }

    /// Translates one IF statement: branch on the condition, translate the
    /// then-branch (and else-branch, when present) into their own blocks,
    /// and continue in a trailing block. Each allocated block is sealed
    /// exactly once — a branch target right after the branch instruction,
    /// the trailing block once its last predecessor is emitted — and the
    /// trailing block is current on return. An IF with no branches at all
    /// emits nothing.
    #[verifier::rlimit(100)]
    pub fn translate_if(&mut self, if_data: &IfData) -> (res: Result<(), CgError>)
        requires
            old(self).wf(),
            if_shape_ok(*if_data),
            old(self).builder.num_blocks + if_blocks(*if_data) <= usize::MAX,
        ensures
            final(self).wf(),
            final(self).ctx == old(self).ctx,
            extends_frame(old(self).builder, final(self).builder),
            final(self).builder.num_blocks
                <= old(self).builder.num_blocks + if_blocks(*if_data),
            res is Ok <==> if_err(old(self).ctx, *if_data) is None,
            res is Err ==> Some(res->Err_0) == if_err(old(self).ctx, *if_data),
            res is Ok ==> if_emitted(old(self).ctx, *if_data, old(self).builder,
                final(self).builder),
            res is Ok ==> forall|b: int|
                old(self).builder.num_blocks <= b < final(self).builder.num_blocks
                ==> #[trigger] seal_count(final(self).builder.insts@, b) == 1,
            if_data.if_stats is None && if_data.else_stats is None
                ==> *final(self) == *old(self),
        decreases *if_data,
    {
        let ghost ctx = old(self).ctx;
        let ghost t0 = *self;
        if if_data.if_stats.is_none() && if_data.else_stats.is_none() {
            proof {
                lemma_frame_refl(self.builder);
            }
            return Ok(());
        }
        let if_stats = match &if_data.if_stats {
            Some(ss) => ss,
            None => {
                proof {
                    assert(false);
                }
                return Ok(());
            },
        };

        // Create blocks for the IF, ELSE and post-statement.
        let if_block = self.builder.create_block();
        let ghost t1 = *self;
        proof {
            lemma_wf_step(t0, t1);
            lemma_push_no_seals(t0.builder.insts@, t1.builder.insts@);
        }
        let else_block = if if_data.else_stats.is_some() {
            let b = self.builder.create_block();
            proof {
                lemma_wf_step(t1, *self);
                lemma_push_no_seals(t1.builder.insts@, self.builder.insts@);
                lemma_no_seal_trans(t0.builder.insts@, t1.builder.insts@,
                    self.builder.insts@);
            }
            Some(b)
        } else {
            None
        };
        let ghost t2 = *self;
        proof {
            assert(no_new_seals(t0.builder.insts@, t2.builder.insts@));
        }
        let trailing_block = self.builder.create_block();
        let ghost t3 = *self;
        proof {
            lemma_wf_step(t2, t3);
            lemma_push_no_seals(t2.builder.insts@, t3.builder.insts@);
            lemma_no_seal_trans(t0.builder.insts@, t2.builder.insts@, t3.builder.insts@);
        }

        // Evaluate the condition, then branch on it.
        let cond_result = match self.translate_cond_eval(&if_data.condition) {
            Ok(v) => v,
            Err(e) => {
                proof {
                    lemma_straight_no_seals(t3.builder, self.builder);
                    lemma_no_seal_trans(t0.builder.insts@, t3.builder.insts@,
                        self.builder.insts@);
                    assert forall|b: int| 0 <= b < t0.builder.num_blocks
                        implies #[trigger] seal_count(self.builder.insts@, b)
                            == seal_count(t0.builder.insts@, b) by {
                        lemma_no_seal_counts(t0.builder.insts@, self.builder.insts@, b);
                    }
                }
                return Err(e);
            },
        };
        let ghost t4 = *self;
        self.builder.brif(cond_result, if_block, match else_block {
            Some(b) => b,
            None => trailing_block,
        });
        let ghost t5 = *self;
        proof {
            lemma_wf_step(t4, t5);
            lemma_straight_no_seals(t3.builder, t4.builder);
            lemma_no_seal_trans(t0.builder.insts@, t3.builder.insts@, t4.builder.insts@);
            lemma_push_no_seals(t4.builder.insts@, t5.builder.insts@);
            lemma_no_seal_trans(t0.builder.insts@, t4.builder.insts@, t5.builder.insts@);
        }

        // Seal the branch targets: the branch was their only predecessor.
        self.builder.seal_block(if_block);
        let ghost t6 = *self;
        proof {
            lemma_wf_step(t5, t6);
        }
        if let Some(eb) = else_block {
            self.builder.seal_block(eb);
            proof {
                lemma_wf_step(t6, *self);
            }
        }
        let ghost t7 = *self;
        proof {
            // count bookkeeping up to here: the new blocks are exactly
            // if_block, the optional else block, and trailing_block; the
            // first two are sealed once, the third not yet, and every
            // pre-existing block is untouched
            assert forall|b: int| #[trigger] seal_count(t7.builder.insts@, b) == (
                if b == if_block as int {
                    seal_count(t0.builder.insts@, b) + 1
                } else if else_block is Some && b == else_block->0 as int {
                    seal_count(t0.builder.insts@, b) + 1
                } else {
                    seal_count(t0.builder.insts@, b)
                }) by {
                lemma_no_seal_counts(t0.builder.insts@, t5.builder.insts@, b);
                lemma_seal_count_push(t5.builder.insts@,
                    Inst::SealBlock { block: if_block }, b);
                if else_block is Some {
                    lemma_seal_count_push(t6.builder.insts@,
                        Inst::SealBlock { block: else_block->0 }, b);
                }
            }
            assert(seal_count(t0.builder.insts@, if_block as int) == 0) by {
                lemma_seal_count_oob(t0.builder, if_block as int);
            }
            assert(seal_count(t0.builder.insts@, trailing_block as int) == 0) by {
                lemma_seal_count_oob(t0.builder, trailing_block as int);
            }
            if else_block is Some {
                lemma_seal_count_oob(t0.builder, else_block->0 as int);
            }
            lemma_prefix_trans(t0.builder.insts@, t5.builder.insts@, t7.builder.insts@);
        }

        // Translate the then-branch; jump to the trailing block unless it
        // terminated itself.
        self.builder.switch_to_block(if_block);
        let ghost t8 = *self;
        proof {
            lemma_wf_step(t7, t8);
            lemma_push_no_seals(t7.builder.insts@, t8.builder.insts@);
        }
        proof {
            assert(decreases_to!(*if_data => if_stats@));
        }
        let block_self_terminates = match self.translate_block_stats(if_stats) {
            Ok(t) => t,
            Err(e) => {
                proof {
                    assert forall|b: int| 0 <= b < t0.builder.num_blocks
                        implies #[trigger] seal_count(self.builder.insts@, b)
                            == seal_count(t0.builder.insts@, b) by {
                        lemma_no_seal_counts(t7.builder.insts@, t8.builder.insts@, b);
                        assert(seal_count(self.builder.insts@, b)
                            == seal_count(t8.builder.insts@, b));
                    }
                    lemma_prefix_trans(t0.builder.insts@, t7.builder.insts@,
                        t8.builder.insts@);
                    lemma_prefix_trans(t0.builder.insts@, t8.builder.insts@,
                        self.builder.insts@);
                }
                return Err(e);
            },
        };
        let ghost t9 = *self;
        if !block_self_terminates {
            self.builder.jump(trailing_block);
            proof {
                lemma_wf_step(t9, *self);
                lemma_push_no_seals(t9.builder.insts@, self.builder.insts@);
            }
        }
        let ghost t10 = *self;
        proof {
            // counts after the then-branch: nested blocks are sealed once,
            // everything else is as it was
            assert forall|b: int| 0 <= b < t8.builder.num_blocks
                implies #[trigger] seal_count(t10.builder.insts@, b)
                    == seal_count(t7.builder.insts@, b) by {
                lemma_no_seal_counts(t7.builder.insts@, t8.builder.insts@, b);
                if !block_self_terminates {
                    lemma_no_seal_counts(t9.builder.insts@, t10.builder.insts@, b);
                }
            }
            assert forall|b: int| t8.builder.num_blocks <= b < t10.builder.num_blocks
                implies #[trigger] seal_count(t10.builder.insts@, b) == 1 by {
                if !block_self_terminates {
                    lemma_no_seal_counts(t9.builder.insts@, t10.builder.insts@, b);
                }
            }
            lemma_prefix_trans(t0.builder.insts@, t7.builder.insts@, t8.builder.insts@);
            lemma_prefix_trans(t8.builder.insts@, t9.builder.insts@, t10.builder.insts@);
        }

        // Without an else-branch, the trailing block's predecessors are
        // complete: seal it now.
        if else_block.is_none() {
            self.builder.seal_block(trailing_block);
            proof {
                lemma_wf_step(t10, *self);
            }
        }
        let ghost t11 = *self;
        proof {
            assert forall|b: int| #[trigger] seal_count(t11.builder.insts@, b) == (
                if else_block is None && b == trailing_block as int {
                    seal_count(t10.builder.insts@, b) + 1
                } else {
                    seal_count(t10.builder.insts@, b)
                }) by {
                if else_block is None {
                    lemma_seal_count_push(t10.builder.insts@,
                        Inst::SealBlock { block: trailing_block }, b);
                }
            }
        }

        // Translate the else-branch, then seal the trailing block.
        if let Some(else_stats) = &if_data.else_stats {
            let eb = match else_block {
                Some(b) => b,
                None => {
                    proof {
                        assert(false);
                    }
                    return Ok(());
                },
            };
            self.builder.switch_to_block(eb);
            let ghost t12 = *self;
            proof {
                lemma_wf_step(t11, t12);
                lemma_push_no_seals(t11.builder.insts@, t12.builder.insts@);
            }
            proof {
                assert(decreases_to!(*if_data => else_stats@));
            }
            let else_terminates = match self.translate_block_stats(else_stats) {
                Ok(t) => t,
                Err(e) => {
                    proof {
                        assert forall|b: int| 0 <= b < t0.builder.num_blocks
                            implies #[trigger] seal_count(self.builder.insts@, b)
                                == seal_count(t0.builder.insts@, b) by {
                            lemma_no_seal_counts(t11.builder.insts@, t12.builder.insts@, b);
                            assert(seal_count(self.builder.insts@, b)
                                == seal_count(t12.builder.insts@, b));
                        }
                        lemma_prefix_trans(t0.builder.insts@, t10.builder.insts@,
                            t11.builder.insts@);
                        lemma_prefix_trans(t0.builder.insts@, t11.builder.insts@,
                            t12.builder.insts@);
                        lemma_prefix_trans(t0.builder.insts@, t12.builder.insts@,
                            self.builder.insts@);
                    }
                    return Err(e);
                },
            };
            let ghost t13 = *self;
            if !else_terminates {
                self.builder.jump(trailing_block);
                proof {
                    lemma_wf_step(t13, *self);
                    lemma_push_no_seals(t13.builder.insts@, self.builder.insts@);
                }
            }
            let ghost t14 = *self;
            self.builder.seal_block(trailing_block);
            proof {
                lemma_wf_step(t14, *self);
                if !else_terminates {
                    // record the else branch's fall-through jump for the
                    // emission clause
                    assert(t14.builder.insts@[t13.builder.insts@.len() as int]
                        == (Inst::Jump { block: trailing_block }));
                    assert(self.builder.insts@[t13.builder.insts@.len() as int]
                        == t14.builder.insts@[t13.builder.insts@.len() as int]);
                    assert(t13.builder.insts@.len() >= t0.builder.insts@.len()) by {
                        lemma_prefix_trans(t0.builder.insts@, t10.builder.insts@,
                            t11.builder.insts@);
                        lemma_prefix_trans(t0.builder.insts@, t11.builder.insts@,
                            t12.builder.insts@);
                        lemma_prefix_trans(t0.builder.insts@, t12.builder.insts@,
                            t13.builder.insts@);
                    }
                    assert(exists|j: int| t0.builder.insts@.len() <= j
                        < self.builder.insts@.len()
                        && (match #[trigger] self.builder.insts@[j] {
                            Inst::Jump { block } => block == trailing_block,
                            _ => false,
                        })) by {
                        assert(match self.builder.insts@[t13.builder.insts@.len() as int] {
                            Inst::Jump { block } => block == trailing_block,
                            _ => false,
                        });
                    }
                }
                assert forall|b: int| 0 <= b < t12.builder.num_blocks
                    implies #[trigger] seal_count(t14.builder.insts@, b)
                        == seal_count(t11.builder.insts@, b) by {
                    lemma_no_seal_counts(t11.builder.insts@, t12.builder.insts@, b);
                    if !else_terminates {
                        lemma_no_seal_counts(t13.builder.insts@, t14.builder.insts@, b);
                    }
                }
                assert forall|b: int| t12.builder.num_blocks <= b < t14.builder.num_blocks
                    implies #[trigger] seal_count(t14.builder.insts@, b) == 1 by {
                    if !else_terminates {
                        lemma_no_seal_counts(t13.builder.insts@, t14.builder.insts@, b);
                    }
                }
                assert forall|b: int| #[trigger] seal_count(self.builder.insts@, b) == (
                    if b == trailing_block as int {
                        seal_count(t14.builder.insts@, b) + 1
                    } else {
                        seal_count(t14.builder.insts@, b)
                    }) by {
                    lemma_seal_count_push(t14.builder.insts@,
                        Inst::SealBlock { block: trailing_block }, b);
                }
                lemma_prefix_trans(t11.builder.insts@, t12.builder.insts@,
                    t13.builder.insts@);
                lemma_prefix_trans(t11.builder.insts@, t13.builder.insts@,
                    t14.builder.insts@);
                lemma_prefix_trans(t11.builder.insts@, t14.builder.insts@,
                    self.builder.insts@);
            }
        }
        let ghost t15 = *self;

        // Continue emission in the trailing block.
        self.builder.switch_to_block(trailing_block);
        proof {
            lemma_wf_step(t15, *self);
            lemma_push_no_seals(t15.builder.insts@, self.builder.insts@);
            let sf = self.builder.insts@;
            assert forall|b: int| #[trigger] seal_count(sf, b)
                == seal_count(t15.builder.insts@, b) by {
                lemma_no_seal_counts(t15.builder.insts@, sf, b);
            }
            lemma_prefix_trans(t0.builder.insts@, t10.builder.insts@, t11.builder.insts@);
            lemma_prefix_trans(t0.builder.insts@, t11.builder.insts@, t15.builder.insts@);
            lemma_prefix_trans(t0.builder.insts@, t15.builder.insts@, sf);
            assert forall|b: int| 0 <= b < t0.builder.num_blocks
                implies #[trigger] seal_count(sf, b) == seal_count(t0.builder.insts@, b)
                by {}
            assert forall|b: int|
                t0.builder.num_blocks <= b < self.builder.num_blocks
                implies #[trigger] seal_count(sf, b) == 1 by {
                lemma_seal_count_oob(t0.builder, b);
            }

            // the emission clause: the branch on the condition, the
            // fall-through jumps, and the trailing block being current
            lemma_prefix_trans(t0.builder.insts@, t3.builder.insts@, t4.builder.insts@);
            assert(t5.builder.insts@.is_prefix_of(t7.builder.insts@)) by {
                if else_block is None {
                    lemma_prefix_refl(t6.builder.insts@);
                }
                lemma_prefix_trans(t5.builder.insts@, t6.builder.insts@,
                    t7.builder.insts@);
            }
            assert(t9.builder.insts@.is_prefix_of(t10.builder.insts@)) by {
                if block_self_terminates {
                    lemma_prefix_refl(t9.builder.insts@);
                }
            }
            assert(t10.builder.insts@.is_prefix_of(t11.builder.insts@)) by {
                if else_block is Some {
                    lemma_prefix_refl(t10.builder.insts@);
                }
            }
            assert(t11.builder.insts@.is_prefix_of(t15.builder.insts@)) by {
                if if_data.else_stats is None {
                    lemma_prefix_refl(t11.builder.insts@);
                }
            }
            lemma_prefix_trans(t4.builder.insts@, t5.builder.insts@, t7.builder.insts@);
            lemma_prefix_trans(t4.builder.insts@, t7.builder.insts@, t8.builder.insts@);
            lemma_prefix_trans(t4.builder.insts@, t8.builder.insts@, t9.builder.insts@);
            lemma_prefix_trans(t4.builder.insts@, t9.builder.insts@, t10.builder.insts@);
            lemma_prefix_trans(t4.builder.insts@, t10.builder.insts@, t11.builder.insts@);
            lemma_prefix_trans(t4.builder.insts@, t11.builder.insts@, t15.builder.insts@);
            lemma_prefix_trans(t4.builder.insts@, t15.builder.insts@, sf);
            let jb: int = t4.builder.insts@.len() as int;
            assert(sf[jb] == t5.builder.insts@[jb]) by {
                lemma_prefix_trans(t5.builder.insts@, t7.builder.insts@,
                    t8.builder.insts@);
                lemma_prefix_trans(t5.builder.insts@, t8.builder.insts@,
                    t9.builder.insts@);
                lemma_prefix_trans(t5.builder.insts@, t9.builder.insts@,
                    t10.builder.insts@);
                lemma_prefix_trans(t5.builder.insts@, t10.builder.insts@,
                    t11.builder.insts@);
                lemma_prefix_trans(t5.builder.insts@, t11.builder.insts@,
                    t15.builder.insts@);
                lemma_prefix_trans(t5.builder.insts@, t15.builder.insts@, sf);
                assert(t5.builder.insts@[jb]
                    == sf.subrange(0, t5.builder.insts@.len() as int)[jb]);
            }
            assert(match sf[jb] {
                Inst::Brif { cond, then_block, else_block: eb2 } =>
                    then_block == if_block && (match else_block {
                        Some(e) => eb2 == e,
                        None => eb2 == trailing_block,
                    }),
                _ => false,
            });
            assert forall|env: Env| #[trigger] eval(sf, env, cond_result as int)
                == bool_val(cond_sem(ctx, env, if_data.condition)) by {
                crate::sem::lemma_eval_prefix(t4.builder.insts@, sf, env,
                    cond_result as int);
            }
            if !block_self_terminates {
                let jj: int = t9.builder.insts@.len() as int;
                assert(t10.builder.insts@[jj] == (Inst::Jump { block: trailing_block }));
                assert(sf[jj] == t10.builder.insts@[jj]) by {
                    lemma_prefix_trans(t10.builder.insts@, t11.builder.insts@,
                        t15.builder.insts@);
                    lemma_prefix_trans(t10.builder.insts@, t15.builder.insts@, sf);
                    assert(t10.builder.insts@[jj]
                        == sf.subrange(0, t10.builder.insts@.len() as int)[jj]);
                }
                assert(jj >= t0.builder.insts@.len()) by {
                    lemma_prefix_trans(t0.builder.insts@, t4.builder.insts@,
                        t9.builder.insts@);
                }
            }
            match &if_data.else_stats {
                Some(es) => {
                    if !stats_terminate(es@) {
                        let je = choose|j: int| t0.builder.insts@.len() <= j
                            < t15.builder.insts@.len()
                            && (match #[trigger] t15.builder.insts@[j] {
                                Inst::Jump { block } => block == trailing_block,
                                _ => false,
                            });
                        assert(sf[je] == t15.builder.insts@[je]) by {
                            assert(t15.builder.insts@[je]
                                == sf.subrange(0, t15.builder.insts@.len() as int)[je]);
                        }
                    }
                },
                None => {},
            }
            assert(if_emitted(ctx, *if_data, t0.builder, self.builder));
        }
        Ok(())
    }
}

} // verus!

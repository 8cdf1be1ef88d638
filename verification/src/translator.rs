//! The function translator: per-function emission state. This module holds
//! the memoizing value loaders; conditions, moves, and IF statements build
//! on them in their own modules.
//!
//! All loaders memoize within one function body: the same literal,
//! codegen literal, or data id loaded twice yields the same IR node, and
//! each data id is declared as a global value at most once.

use vstd::prelude::*;
use crate::ast::{CgError, CgLiteral, Ctx, Literal, Value};
use crate::ir::{effect_count, gv_count, Inst, IrBuilder, IrType};
use crate::ir::{extends_straight, val_def};
use crate::sem::{eval, val_sem, Env, EvalVal};

verus! {

broadcast use {crate::ir::lemma_gv_count_push, crate::ir::lemma_effect_count_push};

/// Whether value id `vid` is the address of data id `d`: a `GlobalAddr`
/// over an earlier `DeclareGv` of `d`.
pub open spec fn is_static_ptr(s: Seq<Inst>, vid: usize, d: u32) -> bool {
    vid < s.len() && exists|gv: usize| gv < vid
        && s[vid as int] == (Inst::GlobalAddr { gv })
        && (#[trigger] s[gv as int]) == (Inst::DeclareGv { data_id: d })
}

/// A static-pointer fact survives any extension of the stream.
pub proof fn lemma_static_ptr_prefix(s0: Seq<Inst>, s1: Seq<Inst>, vid: usize, d: u32)
    requires
        s0.is_prefix_of(s1),
        is_static_ptr(s0, vid, d),
    ensures is_static_ptr(s1, vid, d),
{
    let gv = choose|gv: usize| gv < vid
        && s0[vid as int] == (Inst::GlobalAddr { gv })
        && (#[trigger] s0[gv as int]) == (Inst::DeclareGv { data_id: d });
    assert(s1[vid as int] == s0[vid as int]);
    assert(s1[gv as int] == s0[gv as int]);
    assert(gv < vid
        && s1[vid as int] == (Inst::GlobalAddr { gv })
        && s1[gv as int] == (Inst::DeclareGv { data_id: d }));
}

/// A static-pointer node evaluates to the placed address of its data id.
pub proof fn lemma_static_ptr_eval(s: Seq<Inst>, vid: usize, d: u32, env: Env)
    requires is_static_ptr(s, vid, d),
    ensures eval(s, env, vid as int) == (EvalVal::VPtr(env.layout[d])),
{
    let gv = choose|gv: usize| gv < vid
        && s[vid as int] == (Inst::GlobalAddr { gv })
        && (#[trigger] s[gv as int]) == (Inst::DeclareGv { data_id: d });
    assert(eval(s, env, vid as int) == (EvalVal::VPtr(env.layout[d])));
}

/// What the literal cache promises of an entry: the cached node is the
/// constant (or interned-buffer address) of its key.
pub open spec fn lit_entry_ok(s: Seq<Inst>, ctx: Ctx, k: Literal, vid: usize) -> bool {
    match k {
        Literal::Int(i) => vid < s.len()
            && s[vid as int] == (Inst::Iconst { ty: IrType::I64, imm: i }),
        Literal::Float(bits) => vid < s.len()
            && s[vid as int] == (Inst::F64ConstBits { bits }),
        Literal::Str(sid) => ctx.str_ok(sid)
            && is_static_ptr(s, vid, ctx.spec_str_data_id(sid)),
    }
}

/// A cached literal node evaluates to the literal's denotation.
pub proof fn lemma_lit_eval(s: Seq<Inst>, ctx: Ctx, k: Literal, vid: usize, env: Env)
    requires lit_entry_ok(s, ctx, k, vid),
    ensures eval(s, env, vid as int) == val_sem(ctx, env, Value::Literal(k)),
{
    match k {
        Literal::Str(sid) => {
            lemma_static_ptr_eval(s, vid, ctx.spec_str_data_id(sid), env);
        },
        _ => {},
    }
}

/// What the codegen-literal cache promises of an entry.
pub open spec fn cg_entry_ok(s: Seq<Inst>, k: CgLiteral, vid: usize) -> bool {
    match k {
        CgLiteral::Char(c) => vid < s.len()
            && s[vid as int] == (Inst::Iconst { ty: IrType::I8, imm: c as i64 }),
        CgLiteral::Int(i) => vid < s.len()
            && s[vid as int] == (Inst::Iconst { ty: IrType::I64, imm: i }),
    }
}

/// Whether the global-value cache holds data id `d`.
pub open spec fn gv_cached(s: Seq<(u32, usize)>, d: u32) -> bool {
    exists|i: int| 0 <= i < s.len() && (#[trigger] s[i]).0 == d
}

/// First match in the literal cache.
fn assoc_get_lit(entries: &Vec<(Literal, usize)>, k: &Literal) -> (r: Option<usize>)
    ensures
        match r {
            Some(v) => exists|i: int| 0 <= i < entries@.len()
                && (#[trigger] entries@[i]) == (*k, v),
            None => forall|i: int| 0 <= i < entries@.len()
                ==> (#[trigger] entries@[i]).0 != *k,
        },
{
    let mut i: usize = 0;
    while i < entries.len()
        invariant
            i <= entries@.len(),
            forall|j: int| 0 <= j < i ==> (#[trigger] entries@[j]).0 != *k,
        decreases entries@.len() - i,
    {
        if entries[i].0 == *k {
            return Some(entries[i].1);
        }
        i = i + 1;
    }
    None
}

/// First match in the codegen-literal cache.
fn assoc_get_cg(entries: &Vec<(CgLiteral, usize)>, k: &CgLiteral) -> (r: Option<usize>)
    ensures
        match r {
            Some(v) => exists|i: int| 0 <= i < entries@.len()
                && (#[trigger] entries@[i]) == (*k, v),
            None => forall|i: int| 0 <= i < entries@.len()
                ==> (#[trigger] entries@[i]).0 != *k,
        },
{
    let mut i: usize = 0;
    while i < entries.len()
        invariant
            i <= entries@.len(),
            forall|j: int| 0 <= j < i ==> (#[trigger] entries@[j]).0 != *k,
        decreases entries@.len() - i,
    {
        if entries[i].0 == *k {
            return Some(entries[i].1);
        }
        i = i + 1;
    }
    None
}

/// First match in a data-id keyed cache.
fn assoc_get_u32(entries: &Vec<(u32, usize)>, k: u32) -> (r: Option<usize>)
    ensures
        match r {
            Some(v) => exists|i: int| 0 <= i < entries@.len()
                && (#[trigger] entries@[i]) == (k, v),
            None => forall|i: int| 0 <= i < entries@.len()
                ==> (#[trigger] entries@[i]).0 != k,
        },
{
    let mut i: usize = 0;
    while i < entries.len()
        invariant
            i <= entries@.len(),
            forall|j: int| 0 <= j < i ==> (#[trigger] entries@[j]).0 != k,
        decreases entries@.len() - i,
    {
        if entries[i].0 == k {
            return Some(entries[i].1);
        }
        i = i + 1;
    }
    None
}

/// The per-function value caches. Lifetime equals one function's
/// translation; keys are unique in each table.
pub struct ValueCache {
    pub lits: Vec<(Literal, usize)>,
    pub cg_lits: Vec<(CgLiteral, usize)>,
    pub gvs: Vec<(u32, usize)>,
    pub ptrs: Vec<(u32, usize)>,
}

/// Uniqueness of the keys of a data-id keyed table.
pub open spec fn u32_keys_unique(s: Seq<(u32, usize)>) -> bool {
    forall|i: int, j: int| 0 <= i < j < s.len()
        ==> (#[trigger] s[i]).0 != (#[trigger] s[j]).0
}

/// Uniqueness of the keys of the literal table.
pub open spec fn lit_keys_unique(s: Seq<(Literal, usize)>) -> bool {
    forall|i: int, j: int| 0 <= i < j < s.len()
        ==> (#[trigger] s[i]).0 != (#[trigger] s[j]).0
}

/// Uniqueness of the keys of the codegen-literal table.
pub open spec fn cg_keys_unique(s: Seq<(CgLiteral, usize)>) -> bool {
    forall|i: int, j: int| 0 <= i < j < s.len()
        ==> (#[trigger] s[i]).0 != (#[trigger] s[j]).0
}

/// Every cache entry correctly describes a node of stream `s`.
pub open spec fn caches_ok(c: ValueCache, ctx: Ctx, s: Seq<Inst>) -> bool {
    &&& forall|i: int| 0 <= i < c.lits@.len()
            ==> lit_entry_ok(s, ctx, (#[trigger] c.lits@[i]).0, c.lits@[i].1)
    &&& forall|i: int| 0 <= i < c.cg_lits@.len()
            ==> cg_entry_ok(s, (#[trigger] c.cg_lits@[i]).0, c.cg_lits@[i].1)
    &&& forall|i: int| 0 <= i < c.gvs@.len() ==> {
            let e = #[trigger] c.gvs@[i];
            e.1 < s.len() && s[e.1 as int] == (Inst::DeclareGv { data_id: e.0 })
        }
    &&& forall|i: int| 0 <= i < c.ptrs@.len() ==> {
            let e = #[trigger] c.ptrs@[i];
            is_static_ptr(s, e.1, e.0)
        }
    &&& lit_keys_unique(c.lits@)
    &&& cg_keys_unique(c.cg_lits@)
    &&& u32_keys_unique(c.gvs@)
    &&& u32_keys_unique(c.ptrs@)
}

/// Cache facts survive any extension of the stream.
pub proof fn lemma_caches_extend(c: ValueCache, ctx: Ctx, s0: Seq<Inst>, s1: Seq<Inst>)
    requires
        s0.is_prefix_of(s1),
        caches_ok(c, ctx, s0),
    ensures caches_ok(c, ctx, s1),
{
    assert forall|i: int| 0 <= i < c.lits@.len()
        implies lit_entry_ok(s1, ctx, (#[trigger] c.lits@[i]).0, c.lits@[i].1) by {
        let e = c.lits@[i];
        match e.0 {
            Literal::Str(sid) => {
                lemma_static_ptr_prefix(s0, s1, e.1, ctx.spec_str_data_id(sid));
            },
            _ => {
                assert(s1[e.1 as int] == s0[e.1 as int]);
            },
        }
    }
    assert forall|i: int| 0 <= i < c.cg_lits@.len()
        implies cg_entry_ok(s1, (#[trigger] c.cg_lits@[i]).0, c.cg_lits@[i].1) by {
        let e = c.cg_lits@[i];
        assert(s1[e.1 as int] == s0[e.1 as int]);
    }
    assert forall|i: int| 0 <= i < c.gvs@.len() implies {
        let e = #[trigger] c.gvs@[i];
        e.1 < s1.len() && s1[e.1 as int] == (Inst::DeclareGv { data_id: e.0 })
    } by {
        let e = c.gvs@[i];
        assert(s1[e.1 as int] == s0[e.1 as int]);
    }
    assert forall|i: int| 0 <= i < c.ptrs@.len() implies {
        let e = #[trigger] c.ptrs@[i];
        is_static_ptr(s1, e.1, e.0)
    } by {
        let e = c.ptrs@[i];
        lemma_static_ptr_prefix(s0, s1, e.1, e.0);
    }
}

/// Re-establishes the translator invariant after emission steps that touch
/// only the builder and declare no global value.
pub proof fn lemma_wf_step(pre: FuncTranslator, post: FuncTranslator)
    requires
        pre.wf(),
        post.ctx == pre.ctx,
        post.values == pre.values,
        post.builder.wf(),
        pre.builder.insts@.is_prefix_of(post.builder.insts@),
        forall|i: int| pre.builder.insts@.len() <= i < post.builder.insts@.len()
            ==> !((#[trigger] post.builder.insts@[i]) is DeclareGv),
    ensures post.wf(),
{
    let s0 = pre.builder.insts@;
    let s1 = post.builder.insts@;
    lemma_caches_extend(pre.values, pre.ctx, s0, s1);
    assert forall|d: u32| #[trigger] gv_count(s1, d) <= 1 by {
        crate::ir::lemma_gv_count_extend(s0, s1, d);
    }
    assert forall|d: u32| !gv_cached(post.values.gvs@, d)
        implies #[trigger] gv_count(s1, d) == 0 by {
        crate::ir::lemma_gv_count_extend(s0, s1, d);
    }
}

/// Per-function translation state: the read-only context, the builder, and
/// the value caches.
pub struct FuncTranslator {
    pub ctx: Ctx,
    pub builder: IrBuilder,
    pub values: ValueCache,
}

impl FuncTranslator {
    /// The translator invariant: context and builder are well formed, every
    /// cache entry describes the node it points at, cache keys are unique,
    /// and each data id is declared as a global value at most once — and
    /// not at all unless the cache records it.
    pub open spec fn wf(self) -> bool {
        let s = self.builder.insts@;
        &&& self.ctx.wf()
        &&& self.builder.wf()
        &&& caches_ok(self.values, self.ctx, s)
        &&& forall|d: u32| #[trigger] gv_count(s, d) <= 1
        &&& forall|d: u32| !gv_cached(self.values.gvs@, d) ==> #[trigger] gv_count(s, d) == 0
    }

    /// A fresh translator over the given context, with an empty builder
    /// (one entry block) and empty caches.
    pub fn new(ctx: Ctx) -> (r: FuncTranslator)
        requires ctx.wf(),
        ensures
            r.wf(),
            r.ctx == ctx,
            r.builder.insts@.len() == 0,
            r.builder.num_blocks == 1,
            r.builder.cur_block == 0,
    {
        let r = FuncTranslator {
            ctx,
            builder: IrBuilder::new(),
            values: ValueCache {
                lits: Vec::new(),
                cg_lits: Vec::new(),
                gvs: Vec::new(),
                ptrs: Vec::new(),
            },
        };
        proof {
            assert forall|d: u32| #[trigger] gv_count(r.builder.insts@, d) == 0 by {
                assert(r.builder.insts@.len() == 0);
            }
        }
        r
    }

    /// Declares `data_id` as a global value of the current function, or
    /// returns the cached declaration: at most one declaration per data id
    /// is ever emitted.
    pub fn load_gv(&mut self, data_id: u32) -> (r: usize)
        requires old(self).wf(),
        ensures
            final(self).wf(),
            final(self).ctx == old(self).ctx,
            extends_straight(old(self).builder, final(self).builder),
            effect_count(final(self).builder.insts@)
                == effect_count(old(self).builder.insts@),
            r < final(self).builder.insts@.len(),
            final(self).builder.insts@[r as int] == (Inst::DeclareGv { data_id }),
            final(self).values.lits == old(self).values.lits,
            final(self).values.cg_lits == old(self).values.cg_lits,
            final(self).values.ptrs == old(self).values.ptrs,
            gv_cached(old(self).values.gvs@, data_id)
                ==> final(self).builder == old(self).builder,
    {
        match assoc_get_u32(&self.values.gvs, data_id) {
            Some(gv) => {
                proof {
                    let i = choose|i: int| 0 <= i < self.values.gvs@.len()
                        && (#[trigger] self.values.gvs@[i]) == (data_id, gv);
                    assert(self.values.gvs@[i].0 == data_id);
                    assert(gv_cached(self.values.gvs@, data_id));
                }
                gv
            },
            None => {
                proof {
                    if gv_cached(self.values.gvs@, data_id) {
                        let i = choose|i: int| 0 <= i < self.values.gvs@.len()
                            && (#[trigger] self.values.gvs@[i]).0 == data_id;
                    }
                    assert(!gv_cached(self.values.gvs@, data_id));
                    assert(gv_count(self.builder.insts@, data_id) == 0);
                }
                let ghost s0 = self.builder.insts@;
                let ghost gvs0 = self.values.gvs@;
                let gv = self.builder.declare_gv(data_id);
                self.values.gvs.push((data_id, gv));
                proof {
                    let s1 = self.builder.insts@;
                    let gvs1 = self.values.gvs@;
                    lemma_caches_extend(old(self).values, self.ctx, s0, s1);
                    // the new entry and key uniqueness
                    assert(gvs1[gvs1.len() - 1] == (data_id, gv));
                    assert(s1[gv as int] == (Inst::DeclareGv { data_id }));
                    assert forall|i: int, j: int| 0 <= i < j < gvs1.len()
                        implies (#[trigger] gvs1[i]).0 != (#[trigger] gvs1[j]).0 by {
                        if j == gvs1.len() - 1 {
                            assert(gvs1[i] == gvs0[i]);
                        } else {
                            assert(gvs1[i] == gvs0[i]);
                            assert(gvs1[j] == gvs0[j]);
                        }
                    }
                    // declaration counts
                    assert(s1 == s0.push(Inst::DeclareGv { data_id }));
                    assert forall|d: u32| #[trigger] gv_count(s1, d) <= 1 by {
                        crate::ir::lemma_gv_count_push(s0, Inst::DeclareGv { data_id }, d);
                        if d != data_id {
                            assert(gv_count(s1, d) == gv_count(s0, d));
                        } else {
                            assert(gv_count(s0, d) == 0);
                        }
                    }
                    assert forall|d: u32| !gv_cached(gvs1, d)
                        implies #[trigger] gv_count(s1, d) == 0 by {
                        crate::ir::lemma_gv_count_push(s0, Inst::DeclareGv { data_id }, d);
                        if gv_cached(gvs0, d) {
                            let i = choose|i: int| 0 <= i < gvs0.len()
                                && (#[trigger] gvs0[i]).0 == d;
                            assert(gvs1[i].0 == d);
                            assert(gv_cached(gvs1, d));
                        }
                        assert(!gv_cached(gvs0, d));
                        assert(gv_count(s0, d) == 0);
                        assert(gvs1[gvs1.len() - 1].0 == data_id);
                        assert(d != data_id);
                    }
                }
                gv
            },
        }
    }

    /// Loads an immutable pointer to the data of `data_id`, reusing the
    /// cached pointer when one exists.
    pub fn load_static_ptr(&mut self, data_id: u32) -> (r: usize)
        requires old(self).wf(),
        ensures
            final(self).wf(),
            final(self).ctx == old(self).ctx,
            extends_straight(old(self).builder, final(self).builder),
            effect_count(final(self).builder.insts@)
                == effect_count(old(self).builder.insts@),
            is_static_ptr(final(self).builder.insts@, r, data_id),
            final(self).values.lits == old(self).values.lits,
            final(self).values.cg_lits == old(self).values.cg_lits,
            final(self).values.ptrs@.contains((data_id, r)),
            forall|v: usize| old(self).values.ptrs@.contains((data_id, v))
                ==> r == v && final(self).builder == old(self).builder,
    {
        match assoc_get_u32(&self.values.ptrs, data_id) {
            Some(p) => {
                proof {
                    let i = choose|i: int| 0 <= i < self.values.ptrs@.len()
                        && (#[trigger] self.values.ptrs@[i]) == (data_id, p);
                    assert(self.values.ptrs@.contains((data_id, p)));
                    assert(is_static_ptr(self.builder.insts@, p, data_id));
                    assert forall|v2: usize| old(self).values.ptrs@.contains((data_id, v2))
                        implies v2 == p by {
                        let j = choose|j: int| 0 <= j < self.values.ptrs@.len()
                            && (#[trigger] self.values.ptrs@[j]) == (data_id, v2);
                        assert(j == i);
                    }
                }
                p
            },
            None => {
                proof {
                    if gv_cached(self.values.ptrs@, data_id) {
                        let i = choose|i: int| 0 <= i < self.values.ptrs@.len()
                            && (#[trigger] self.values.ptrs@[i]).0 == data_id;
                    }
                    assert forall|v: usize| old(self).values.ptrs@.contains((data_id, v))
                        implies false by {
                        let i = choose|i: int| 0 <= i < old(self).values.ptrs@.len()
                            && old(self).values.ptrs@[i] == ((data_id, v));
                        assert(old(self).values.ptrs@[i].0 == data_id);
                    }
                }
                let ghost ptrs0 = self.values.ptrs@;
                let gv = self.load_gv(data_id);
                let ghost smid = self.builder.insts@;
                let p = self.builder.global_addr(gv);
                self.values.ptrs.push((data_id, p));
                proof {
                    let s1 = self.builder.insts@;
                    let ptrs1 = self.values.ptrs@;
                    lemma_caches_extend(
                        ValueCache {
                            lits: old(self).values.lits,
                            cg_lits: old(self).values.cg_lits,
                            gvs: self.values.gvs,
                            ptrs: old(self).values.ptrs,
                        },
                        self.ctx, smid, s1);
                    assert(is_static_ptr(s1, p, data_id)) by {
                        assert(s1[p as int] == (Inst::GlobalAddr { gv }));
                        assert(s1[gv as int] == smid[gv as int]);
                        assert(s1[gv as int] == (Inst::DeclareGv { data_id }));
                    }
                    assert(ptrs1[ptrs1.len() - 1] == (data_id, p));
                    assert(ptrs1.contains((data_id, p)));
                    assert forall|i: int, j: int| 0 <= i < j < ptrs1.len()
                        implies (#[trigger] ptrs1[i]).0 != (#[trigger] ptrs1[j]).0 by {
                        if j == ptrs1.len() - 1 {
                            assert(ptrs1[i] == ptrs0[i]);
                            assert(!gv_cached(ptrs0, ptrs1[j].0));
                        } else {
                            assert(ptrs1[i] == ptrs0[i]);
                            assert(ptrs1[j] == ptrs0[j]);
                        }
                    }
                }
                p
            },
        }
    }

    /// Loads a literal, reusing the cached node when one exists: the same
    /// literal loaded twice in one function yields the same IR value node,
    /// with nothing re-emitted on the second load.
    pub fn load_lit(&mut self, lit: &Literal) -> (r: Result<usize, CgError>)
        requires old(self).wf(),
        ensures
            final(self).wf(),
            final(self).ctx == old(self).ctx,
            extends_straight(old(self).builder, final(self).builder),
            effect_count(final(self).builder.insts@)
                == effect_count(old(self).builder.insts@),
            r is Ok <==> crate::ast::val_ok(old(self).ctx, Value::Literal(*lit)),
            r is Err ==> *final(self) == *old(self)
                && r->Err_0 == (CgError::MissingStrLit { sid: lit->Str_0 }),
            r is Ok ==> lit_entry_ok(final(self).builder.insts@, final(self).ctx, *lit,
                r->Ok_0),
            r is Ok ==> final(self).values.lits@.contains((*lit, r->Ok_0)),
            final(self).values.cg_lits == old(self).values.cg_lits,
            forall|v: usize| old(self).values.lits@.contains((*lit, v))
                ==> r == Ok::<usize, CgError>(v)
                    && final(self).builder == old(self).builder,
    {
        match assoc_get_lit(&self.values.lits, lit) {
            Some(v) => {
                proof {
                    let i = choose|i: int| 0 <= i < self.values.lits@.len()
                        && (#[trigger] self.values.lits@[i]) == (*lit, v);
                    assert(self.values.lits@.contains((*lit, v)));
                    assert(lit_entry_ok(self.builder.insts@, self.ctx, *lit, v));
                    assert forall|v2: usize| old(self).values.lits@.contains((*lit, v2))
                        implies v2 == v by {
                        let j = choose|j: int| 0 <= j < self.values.lits@.len()
                            && (#[trigger] self.values.lits@[j]) == (*lit, v2);
                        assert(j == i);
                    }
                }
                Ok(v)
            },
            None => {
                proof {
                    assert forall|v: usize| old(self).values.lits@.contains((*lit, v))
                        implies false by {
                        let i = choose|i: int| 0 <= i < old(self).values.lits@.len()
                            && old(self).values.lits@[i] == ((*lit, v));
                        assert(old(self).values.lits@[i].0 == *lit);
                    }
                }
                let ghost lits0 = self.values.lits@;
                let litv: usize = match lit {
                    Literal::Str(sid) => {
                        let d = self.ctx.str_data_id(*sid)?;
                        self.load_static_ptr(d)
                    },
                    Literal::Int(i) => self.builder.iconst(IrType::I64, *i),
                    Literal::Float(bits) => self.builder.f64const_bits(*bits),
                };
                let ghost smid = self.builder.insts@;
                let ghost cmid = self.values;
                self.values.lits.push((*lit, litv));
                proof {
                    let s1 = self.builder.insts@;
                    let lits1 = self.values.lits@;
                    let s0 = old(self).builder.insts@;
                    lemma_caches_extend(old(self).values, self.ctx, s0, s1);
                    assert(lit_entry_ok(s1, self.ctx, *lit, litv)) by {
                        match *lit {
                            Literal::Str(sid) => {},
                            Literal::Int(i) => {
                                assert(s1[litv as int]
                                    == (Inst::Iconst { ty: IrType::I64, imm: i }));
                            },
                            Literal::Float(bits) => {
                                assert(s1[litv as int] == (Inst::F64ConstBits { bits }));
                            },
                        }
                    }
                    assert(lits1[lits1.len() - 1] == (*lit, litv));
                    assert(lits1.contains((*lit, litv)));
                    assert forall|i: int, j: int| 0 <= i < j < lits1.len()
                        implies (#[trigger] lits1[i]).0 != (#[trigger] lits1[j]).0 by {
                        if j == lits1.len() - 1 {
                            assert(lits1[i] == lits0[i]);
                        } else {
                            assert(lits1[i] == lits0[i]);
                            assert(lits1[j] == lits0[j]);
                        }
                    }
                }
                Ok(litv)
            },
        }
    }

    /// Loads a codegen-only literal, reusing the cached node when one
    /// exists.
    pub fn load_cg_lit(&mut self, cglit: &CgLiteral) -> (r: usize)
        requires old(self).wf(),
        ensures
            final(self).wf(),
            final(self).ctx == old(self).ctx,
            extends_straight(old(self).builder, final(self).builder),
            effect_count(final(self).builder.insts@)
                == effect_count(old(self).builder.insts@),
            cg_entry_ok(final(self).builder.insts@, *cglit, r),
            final(self).values.lits == old(self).values.lits,
            final(self).values.cg_lits@.contains((*cglit, r)),
            forall|v: usize| old(self).values.cg_lits@.contains((*cglit, v))
                ==> r == v && final(self).builder == old(self).builder,
    {
        match assoc_get_cg(&self.values.cg_lits, cglit) {
            Some(v) => {
                proof {
                    let i = choose|i: int| 0 <= i < self.values.cg_lits@.len()
                        && (#[trigger] self.values.cg_lits@[i]) == (*cglit, v);
                    assert(self.values.cg_lits@.contains((*cglit, v)));
                    assert(cg_entry_ok(self.builder.insts@, *cglit, v));
                    assert forall|v2: usize| old(self).values.cg_lits@.contains((*cglit, v2))
                        implies v2 == v by {
                        let j = choose|j: int| 0 <= j < self.values.cg_lits@.len()
                            && (#[trigger] self.values.cg_lits@[j]) == (*cglit, v2);
                        assert(j == i);
                    }
                }
                v
            },
            None => {
                proof {
                    assert forall|v: usize| old(self).values.cg_lits@.contains((*cglit, v))
                        implies false by {
                        let i = choose|i: int| 0 <= i < old(self).values.cg_lits@.len()
                            && old(self).values.cg_lits@[i] == ((*cglit, v));
                        assert(old(self).values.cg_lits@[i].0 == *cglit);
                    }
                }
                let ghost cgs0 = self.values.cg_lits@;
                let v = match cglit {
                    CgLiteral::Char(c) => self.builder.iconst(IrType::I8, *c as i64),
                    CgLiteral::Int(i) => self.builder.iconst(IrType::I64, *i),
                };
                self.values.cg_lits.push((*cglit, v));
                proof {
                    let s1 = self.builder.insts@;
                    let cgs1 = self.values.cg_lits@;
                    let s0 = old(self).builder.insts@;
                    lemma_caches_extend(old(self).values, self.ctx, s0, s1);
                    assert(cg_entry_ok(s1, *cglit, v));
                    assert(cgs1[cgs1.len() - 1] == (*cglit, v));
                    assert(cgs1.contains((*cglit, v)));
                    assert forall|i: int, j: int| 0 <= i < j < cgs1.len()
                        implies (#[trigger] cgs1[i]).0 != (#[trigger] cgs1[j]).0 by {
                        if j == cgs1.len() - 1 {
                            assert(cgs1[i] == cgs0[i]);
                        } else {
                            assert(cgs1[i] == cgs0[i]);
                            assert(cgs1[j] == cgs0[j]);
                        }
                    }
                }
                v
            },
        }
    }

    /// Loads a variable: the buffer address for strings, else the 64-bit
    /// word stored in the buffer. The node's denotation is the operand's.
    pub fn load_var(&mut self, sym: u32) -> (r: Result<usize, CgError>)
        requires old(self).wf(),
        ensures
            final(self).wf(),
            final(self).ctx == old(self).ctx,
            extends_straight(old(self).builder, final(self).builder),
            effect_count(final(self).builder.insts@)
                == effect_count(old(self).builder.insts@),
            r is Ok <==> old(self).ctx.sym_ok(sym),
            r is Err ==> *final(self) == *old(self)
                && r->Err_0 == (CgError::MissingSymbol { sym }),
            r is Ok ==> val_def(final(self).builder.insts@, r->Ok_0),
            r is Ok ==> forall|env: Env|
                #[trigger] eval(final(self).builder.insts@, env, r->Ok_0 as int)
                    == val_sem(final(self).ctx, env, Value::Variable(sym)),
    {
        let data_id = self.ctx.sym_data_id(sym)?;
        let ptr = self.load_static_ptr(data_id);
        let pic = match self.ctx.sym_pic(sym) {
            Ok(p) => p,
            Err(e) => {
                proof {
                    assert(false);
                }
                return Err(e);
            },
        };
        if pic.is_str() {
            proof {
                assert forall|env: Env|
                    #[trigger] eval(self.builder.insts@, env, ptr as int)
                        == val_sem(self.ctx, env, Value::Variable(sym)) by {
                    lemma_static_ptr_eval(self.builder.insts@, ptr, data_id, env);
                }
                assert(val_def(self.builder.insts@, ptr)) by {
                    let s = self.builder.insts@;
                    let gv = choose|gv: usize| gv < ptr
                        && s[ptr as int] == (Inst::GlobalAddr { gv })
                        && (#[trigger] s[gv as int]) == (Inst::DeclareGv { data_id });
                }
            }
            Ok(ptr)
        } else if pic.is_float() {
            let ghost smid = self.builder.insts@;
            let v = self.builder.load(IrType::F64, ptr);
            proof {
                lemma_caches_extend(self.values, self.ctx, smid, self.builder.insts@);
                assert forall|env: Env|
                    #[trigger] eval(self.builder.insts@, env, v as int)
                        == val_sem(self.ctx, env, Value::Variable(sym)) by {
                    let s1 = self.builder.insts@;
                    lemma_static_ptr_prefix(smid, s1, ptr, data_id);
                    lemma_static_ptr_eval(s1, ptr, data_id, env);
                    assert(s1[v as int] == (Inst::Load { ty: IrType::F64, ptr }));
                }
            }
            Ok(v)
        } else {
            let ghost smid = self.builder.insts@;
            let v = self.builder.load(IrType::I64, ptr);
            proof {
                lemma_caches_extend(self.values, self.ctx, smid, self.builder.insts@);
                assert forall|env: Env|
                    #[trigger] eval(self.builder.insts@, env, v as int)
                        == val_sem(self.ctx, env, Value::Variable(sym)) by {
                    let s1 = self.builder.insts@;
                    lemma_static_ptr_prefix(smid, s1, ptr, data_id);
                    lemma_static_ptr_eval(s1, ptr, data_id, env);
                    assert(s1[v as int] == (Inst::Load { ty: IrType::I64, ptr }));
                }
            }
            Ok(v)
        }
    }

    /// Loads a parser-level operand: a literal through the literal cache,
    /// a variable through its static buffer.
    pub fn load_value(&mut self, val: &Value) -> (r: Result<usize, CgError>)
        requires old(self).wf(),
        ensures
            final(self).wf(),
            final(self).ctx == old(self).ctx,
            extends_straight(old(self).builder, final(self).builder),
            effect_count(final(self).builder.insts@)
                == effect_count(old(self).builder.insts@),
            r is Ok <==> crate::ast::val_ok(old(self).ctx, *val),
            r is Err ==> *final(self) == *old(self) && r->Err_0 == (match *val {
                Value::Variable(s) => CgError::MissingSymbol { sym: s },
                Value::Literal(l) => CgError::MissingStrLit { sid: l->Str_0 },
            }),
            r is Ok ==> val_def(final(self).builder.insts@, r->Ok_0),
            r is Ok ==> forall|env: Env|
                #[trigger] eval(final(self).builder.insts@, env, r->Ok_0 as int)
                    == val_sem(final(self).ctx, env, *val),
    {
        match val {
            Value::Variable(sym) => self.load_var(*sym),
            Value::Literal(lit) => {
                let v = self.load_lit(lit)?;
                proof {
                    assert forall|env: Env|
                        #[trigger] eval(self.builder.insts@, env, v as int)
                            == val_sem(self.ctx, env, *val) by {
                        lemma_lit_eval(self.builder.insts@, self.ctx, *lit, v, env);
                    }
                    assert(val_def(self.builder.insts@, v)) by {
                        let s = self.builder.insts@;
                        match *lit {
                            Literal::Str(sid) => {
                                let d = self.ctx.spec_str_data_id(sid);
                                let gv = choose|gv: usize| gv < v
                                    && s[v as int] == (Inst::GlobalAddr { gv })
                                    && (#[trigger] s[gv as int])
                                        == (Inst::DeclareGv { data_id: d });
                            },
                            _ => {},
                        }
                    }
                }
                Ok(v)
            },
        }
    }
}

} // verus!

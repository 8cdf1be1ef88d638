//! The observational laws of the translator, stated over the denotational
//! model that the translation contracts speak of. Each is proved for every
//! environment: any placement of the static data, any memory, and any
//! interpretation of the float operations.

use vstd::prelude::*;
use crate::ast::{Cond, Ctx, Literal, MoveSpan, Pic, Value};
use crate::ir::gv_count;
use crate::ir::Inst;
use crate::memory::{span_len_sem, span_start_sem};
use crate::sem::{cond_sem, from_u64, int_cc_sem, lemma_read_write_le64, lemma_to_from_u64,
    lemma_wrap_id, read_le64, to_u64, write_le64, Env};
use crate::ir::IntCC;
use crate::translator::FuncTranslator;

verus! {

/// Double negation is observationally void: a condition wrapped in two
/// NOTs denotes exactly what the bare condition denotes. Together with the
/// condition translator's contract — the emitted node evaluates to
/// `bool_val(cond_sem(..))` — the IR emitted for `NOT NOT c` and the IR
/// emitted for `c` evaluate to equal boolean values in every environment.
pub proof fn lemma_cond_not_not(ctx: Ctx, env: Env, outer: Cond)
    requires
        match outer {
            Cond::Not(m) => (*m) is Not,
            _ => false,
        },
    ensures
        match outer {
            Cond::Not(m) => match *m {
                Cond::Not(inner) => cond_sem(ctx, env, outer) == cond_sem(ctx, env, *inner),
                _ => true,
            },
            _ => true,
        },
{
    match outer {
        Cond::Not(m) => {
            assert(cond_sem(ctx, env, outer) == !cond_sem(ctx, env, *m));
            match *m {
                Cond::Not(inner) => {
                    assert(cond_sem(ctx, env, *m) == !cond_sem(ctx, env, *inner));
                },
                _ => {},
            }
        },
        _ => {},
    }
}

/// Each data id is declared as a global value at most once in any
/// well-formed translation state; together with `load_gv`'s contract —
/// which returns an emitted declaration of the id — a data id that is
/// referenced gets exactly one declaration, however often it is loaded.
pub proof fn lemma_global_decl_at_most_once(t: FuncTranslator, d: u32)
    requires t.wf(),
    ensures gv_count(t.builder.insts@, d) <= 1,
{
}

/// A data id with an emitted declaration has exactly one.
pub proof fn lemma_global_decl_exactly_once(t: FuncTranslator, d: u32, j: int)
    requires
        t.wf(),
        0 <= j < t.builder.insts@.len(),
        t.builder.insts@[j] == (Inst::DeclareGv { data_id: d }),
    ensures gv_count(t.builder.insts@, d) == 1,
{
    lemma_gv_count_pos(t.builder.insts@, d, j);
}

/// A stream containing a declaration of `d` counts it.
proof fn lemma_gv_count_pos(s: Seq<Inst>, d: u32, j: int)
    requires
        0 <= j < s.len(),
        s[j] == (Inst::DeclareGv { data_id: d }),
    ensures gv_count(s, d) >= 1,
    decreases s.len(),
{
    if j < s.len() - 1 {
        let prev = s.drop_last();
        assert(prev[j] == s[j]);
        lemma_gv_count_pos(prev, d, j);
    } else {
        assert(s[s.len() - 1] == s.last());
    }
}

/// A span with constant start and length inside the string's capacity
/// lowers to exactly `(start - 1, len)`: the 1-based index is shifted down
/// once, the length passes through. Together with `load_span`'s contract,
/// the emitted pair of nodes evaluates to those constants.
pub proof fn lemma_const_span_lowering(ctx: Ctx, env: Env, pic: Pic, start: i64, len: i64)
    requires
        pic.wf(),
        1 <= start,
        start + len <= pic.comp_size - 1,
    ensures
        span_start_sem(ctx, env, pic, Some(MoveSpan {
            start_idx: Value::Literal(Literal::Int(start)),
            len: Some(Value::Literal(Literal::Int(len))),
        })) == start - 1,
        span_len_sem(ctx, env, pic, Some(MoveSpan {
            start_idx: Value::Literal(Literal::Int(start)),
            len: Some(Value::Literal(Literal::Int(len))),
        })) == len,
{
    lemma_wrap_id(start - 1);
}

/// Moving a 64-bit word out of a buffer and back restores the word. The
/// variable-move contract says a numeric move stores exactly the source
/// buffer's word (`from_u64(read_le64(..))` of the source address), so a
/// move of `A` into `B` followed by a move of `B` into `A` leaves `A`'s
/// word bitwise what it was, whatever it was.
pub proof fn lemma_word_move_round_trip(mem: Map<int, u8>, addr: int, w: i64)
    ensures from_u64(read_le64(write_le64(mem, addr, to_u64(w)), addr)) == w,
{
    lemma_read_write_le64(mem, addr, to_u64(w));
    lemma_to_from_u64(w);
}

/// Storing an integer literal into a variable and reading the variable
/// back yields a word that compares equal to the same literal. With the
/// move and condition contracts, a literal move followed by an equality
/// comparison against that literal denotes true.
pub proof fn lemma_store_literal_compare_equal(mem: Map<int, u8>, addr: int, v: i64)
    ensures
        int_cc_sem(IntCC::Equal,
            from_u64(read_le64(write_le64(mem, addr, to_u64(v)), addr)), v),
{
    lemma_read_write_le64(mem, addr, to_u64(v));
    lemma_to_from_u64(v);
}

} // verus!

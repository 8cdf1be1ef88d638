//! Tests for MOVE and IF translation: the copy-mechanism selection, the
//! intrinsic call shapes, block sealing, and the diagnostics.

use cobalt_codegen::ast::{CgError, Cond, Ctx, IfData, IntrinsicCall, Literal, MoveData,
    MoveRef, MoveSource, MoveSpan, Pic, PicKind, Stat, StrLit, SymInfo, UserIntrinsic, Value};
use cobalt_codegen::ir::{Inst, IrType};
use cobalt_codegen::translator::FuncTranslator;

fn msym(name: &str, kind: PicKind, comp_size: usize, data_id: u32) -> SymInfo {
    SymInfo { name: name.to_string(), pic: Pic { kind, comp_size }, data_id }
}

fn mlit(bytes: &[u8], data_id: u32) -> StrLit {
    StrLit { bytes: bytes.to_vec(), data_id }
}

/// Symbols: 0 A str(11), 1 B str(5), 2 C str(2), 3 D str(2), 4 I int,
/// 5 J int, 6 F float, 7 R int. String literals: 0 "HI", 1 "X", 2 "A",
/// 3 "HELLOWORLD". Intrinsics: 0 -> i64, 1 -> f64, 2 -> pointer.
fn move_ctx() -> Ctx {
    Ctx {
        syms: vec![
            msym("A", PicKind::Str, 11, 0),
            msym("B", PicKind::Str, 5, 1),
            msym("C", PicKind::Str, 2, 2),
            msym("D", PicKind::Str, 2, 3),
            msym("I", PicKind::Int, 8, 4),
            msym("J", PicKind::Int, 8, 5),
            msym("F", PicKind::Float, 8, 6),
            msym("R", PicKind::Int, 8, 7),
        ],
        str_lits: vec![
            mlit(b"HI", 100),
            mlit(b"X", 101),
            mlit(b"A", 102),
            mlit(b"HELLOWORLD", 103),
        ],
        intrinsics: vec![
            UserIntrinsic { name: "randint".to_string(), ret: IrType::I64 },
            UserIntrinsic { name: "ftime".to_string(), ret: IrType::F64 },
            UserIntrinsic { name: "sbuf".to_string(), ret: IrType::Ptr },
        ],
    }
}

fn bare(sym: u32) -> MoveRef {
    MoveRef { sym, span: None }
}

#[test]
fn int_literal_move_stores_constant() {
    let mut t = FuncTranslator::new(move_ctx());
    t.translate_mov_lit(&Literal::Int(5), &bare(4)).unwrap();
    match *t.builder.insts.last().unwrap() {
        Inst::Store { val, ptr } => {
            assert!(matches!(t.builder.insts[val], Inst::Iconst { ty: IrType::I64, imm: 5 }));
            assert!(matches!(t.builder.insts[ptr], Inst::GlobalAddr { .. }));
        },
        _ => panic!("expected a store"),
    }
}

#[test]
fn single_char_literal_move_is_one_byte_store() {
    // MOVE "X" TO C with a one-character destination: a single i8 store of
    // 0x58, and no byte-copy call
    let mut t = FuncTranslator::new(move_ctx());
    t.translate_mov_lit(&Literal::Str(1), &bare(2)).unwrap();
    match *t.builder.insts.last().unwrap() {
        Inst::Store { val, .. } => {
            assert!(matches!(t.builder.insts[val],
                Inst::Iconst { ty: IrType::I8, imm: 0x58 }));
        },
        _ => panic!("expected a store"),
    }
    assert!(!t.builder.insts.iter().any(|i| matches!(i, Inst::CallMemcpy { .. })));
}

#[test]
fn string_literal_move_is_memcpy_with_nul() {
    // MOVE "HI" TO A: a 3-byte copy (two characters plus the terminator)
    let mut t = FuncTranslator::new(move_ctx());
    t.translate_mov_lit(&Literal::Str(0), &bare(0)).unwrap();
    match *t.builder.insts.last().unwrap() {
        Inst::CallMemcpy { size, .. } => {
            assert!(matches!(t.builder.insts[size], Inst::Iconst { imm: 3, .. }));
        },
        _ => panic!("expected a byte copy"),
    }
}

#[test]
fn literal_too_large_is_rejected() {
    let mut t = FuncTranslator::new(move_ctx());
    let r = t.translate_mov_lit(&Literal::Str(3), &bare(1));
    assert!(matches!(r, Err(CgError::LiteralDoesNotFit { sym: 1 })));
}

#[test]
fn literal_kind_mismatch_is_rejected() {
    let mut t = FuncTranslator::new(move_ctx());
    let r = t.translate_mov_lit(&Literal::Int(1), &bare(0));
    assert!(matches!(r, Err(CgError::LiteralDoesNotFit { sym: 0 })));
}

#[test]
fn span_on_integer_variable_is_rejected() {
    let mut t = FuncTranslator::new(move_ctx());
    let dest = MoveRef { sym: 4, span: Some(MoveSpan {
        start_idx: Value::Literal(Literal::Int(1)),
        len: None,
    }) };
    let r = t.translate_mov_lit(&Literal::Int(1), &dest);
    assert!(matches!(r, Err(CgError::SpanOnNonString { sym: 4 })));
}

#[test]
fn float_span_index_is_rejected() {
    let mut t = FuncTranslator::new(move_ctx());
    let dest = MoveRef { sym: 0, span: Some(MoveSpan {
        start_idx: Value::Variable(6),
        len: None,
    }) };
    let r = t.translate_mov_lit(&Literal::Str(0), &dest);
    assert!(matches!(r, Err(CgError::SpanIndexNotInteger)));
}

#[test]
fn string_span_length_is_rejected() {
    let mut t = FuncTranslator::new(move_ctx());
    let dest = MoveRef { sym: 0, span: Some(MoveSpan {
        start_idx: Value::Literal(Literal::Int(1)),
        len: Some(Value::Variable(1)),
    }) };
    let r = t.translate_mov_lit(&Literal::Str(0), &dest);
    assert!(matches!(r, Err(CgError::SpanLengthNotInteger)));
}

#[test]
fn spanned_literal_move_calls_strcpy() {
    // MOVE "HI" TO A(2:2): the eight-argument strcpy with the usable
    // destination capacity in the fourth slot
    let mut t = FuncTranslator::new(move_ctx());
    let dest = MoveRef { sym: 0, span: Some(MoveSpan {
        start_idx: Value::Literal(Literal::Int(2)),
        len: Some(Value::Literal(Literal::Int(2))),
    }) };
    t.translate_mov_lit(&Literal::Str(0), &dest).unwrap();
    match *t.builder.insts.last().unwrap() {
        Inst::CallStrCpy { args } => {
            // src_len and src_span_len are the literal's length, 2
            assert!(matches!(t.builder.insts[args[2]], Inst::Iconst { imm: 2, .. }));
            assert!(matches!(t.builder.insts[args[5]], Inst::Iconst { imm: 2, .. }));
            // dest_len is the capacity without the terminator, 10
            assert!(matches!(t.builder.insts[args[3]], Inst::Iconst { imm: 10, .. }));
            // src span starts at 0
            assert!(matches!(t.builder.insts[args[4]], Inst::Iconst { imm: 0, .. }));
        },
        _ => panic!("expected a strcpy call"),
    }
}

#[test]
fn spanned_variable_move_with_implicit_length() {
    // MOVE A(3:) TO B: source span lowers to (2, 8), destination span to
    // (0, 4)
    let mut t = FuncTranslator::new(move_ctx());
    let src = MoveRef { sym: 0, span: Some(MoveSpan {
        start_idx: Value::Literal(Literal::Int(3)),
        len: None,
    }) };
    t.translate_mov_ref(&src, &bare(1)).unwrap();
    match *t.builder.insts.last().unwrap() {
        Inst::CallStrCpy { args } => {
            // the intrinsic gets both usable capacities, NUL excluded
            assert!(matches!(t.builder.insts[args[2]], Inst::Iconst { imm: 10, .. }));
            assert!(matches!(t.builder.insts[args[3]], Inst::Iconst { imm: 4, .. }));
            match t.builder.insts[args[4]] {
                Inst::IaddImm { arg, imm: -1 } => {
                    assert!(matches!(t.builder.insts[arg], Inst::Iconst { imm: 3, .. }));
                },
                _ => panic!("expected 1-based adjustment of the source start"),
            }
            match t.builder.insts[args[5]] {
                Inst::Isub { lhs, .. } => {
                    assert!(matches!(t.builder.insts[lhs], Inst::Iconst { imm: 10, .. }));
                },
                _ => panic!("expected implicit source length"),
            }
            assert!(matches!(t.builder.insts[args[6]], Inst::Iconst { imm: 0, .. }));
            assert!(matches!(t.builder.insts[args[7]], Inst::Iconst { imm: 4, .. }));
        },
        _ => panic!("expected a strcpy call"),
    }
}

#[test]
fn oversized_variable_move_is_rejected() {
    let mut t = FuncTranslator::new(move_ctx());
    let r = t.translate_mov_ref(&bare(0), &bare(2));
    assert!(matches!(r, Err(CgError::VariableDoesNotFit { src: 0, dest: 2 })));
}

#[test]
fn char_destination_move_uses_charcpy() {
    // MOVE D TO C, both one character: charcpy with zero offsets
    let mut t = FuncTranslator::new(move_ctx());
    t.translate_mov_ref(&bare(3), &bare(2)).unwrap();
    match *t.builder.insts.last().unwrap() {
        Inst::CallCharCpy { args } => {
            assert!(matches!(t.builder.insts[args[2]], Inst::Iconst { imm: 0, .. }));
            assert!(matches!(t.builder.insts[args[3]], Inst::Iconst { imm: 0, .. }));
        },
        _ => panic!("expected a charcpy call"),
    }
}

#[test]
fn static_length_one_span_into_char_uses_charcpy() {
    // MOVE A(4:1) TO C: provably one character, destination two bytes
    let mut t = FuncTranslator::new(move_ctx());
    let src = MoveRef { sym: 0, span: Some(MoveSpan {
        start_idx: Value::Literal(Literal::Int(4)),
        len: Some(Value::Literal(Literal::Int(1))),
    }) };
    t.translate_mov_ref(&src, &bare(2)).unwrap();
    match *t.builder.insts.last().unwrap() {
        Inst::CallCharCpy { args } => {
            match t.builder.insts[args[2]] {
                Inst::IaddImm { arg, imm: -1 } => {
                    assert!(matches!(t.builder.insts[arg], Inst::Iconst { imm: 4, .. }));
                },
                _ => panic!("expected adjusted source offset"),
            }
        },
        _ => panic!("expected a charcpy call"),
    }
}

#[test]
fn whole_string_variable_move_is_memcpy() {
    // MOVE B TO A, no spans, source fits: plain byte copy of the source's
    // full footprint
    let mut t = FuncTranslator::new(move_ctx());
    t.translate_mov_ref(&bare(1), &bare(0)).unwrap();
    match *t.builder.insts.last().unwrap() {
        Inst::CallMemcpy { size, .. } => {
            assert!(matches!(t.builder.insts[size], Inst::Iconst { imm: 5, .. }));
        },
        _ => panic!("expected a byte copy"),
    }
}

#[test]
fn int_variable_move_loads_and_stores() {
    let mut t = FuncTranslator::new(move_ctx());
    t.translate_mov_ref(&bare(4), &bare(5)).unwrap();
    match *t.builder.insts.last().unwrap() {
        Inst::Store { val, .. } => {
            assert!(matches!(t.builder.insts[val], Inst::Load { ty: IrType::I64, .. }));
        },
        _ => panic!("expected a store"),
    }
}

#[test]
fn float_variable_move_loads_and_stores() {
    let mut t = FuncTranslator::new(move_ctx());
    t.translate_mov_ref(&bare(6), &bare(6)).unwrap();
    match *t.builder.insts.last().unwrap() {
        Inst::Store { val, .. } => {
            assert!(matches!(t.builder.insts[val], Inst::Load { ty: IrType::F64, .. }));
        },
        _ => panic!("expected a store"),
    }
}

#[test]
fn intrinsic_result_moves_into_matching_destination() {
    let mut t = FuncTranslator::new(move_ctx());
    let call = IntrinsicCall { intrinsic: 0, args: vec![] };
    t.translate_move_intrinsic(&call, &bare(4)).unwrap();
    match *t.builder.insts.last().unwrap() {
        Inst::Store { val, .. } => {
            assert!(matches!(t.builder.insts[val], Inst::CallUser { intrinsic: 0, .. }));
        },
        _ => panic!("expected a store"),
    }
}

#[test]
fn intrinsic_return_type_mismatch_is_rejected() {
    let mut t = FuncTranslator::new(move_ctx());
    let call = IntrinsicCall { intrinsic: 1, args: vec![] };
    let r = t.translate_move_intrinsic(&call, &bare(4));
    assert!(matches!(r, Err(CgError::IntrinsicDestMismatch { id: 1 })));
}

#[test]
fn string_intrinsic_move_is_unsupported() {
    let mut t = FuncTranslator::new(move_ctx());
    let call = IntrinsicCall { intrinsic: 2, args: vec![] };
    let r = t.translate_move_intrinsic(&call, &bare(0));
    assert!(matches!(r, Err(CgError::StrIntrinsicMoveUnsupported)));
}

#[test]
fn unknown_intrinsic_is_reported() {
    let mut t = FuncTranslator::new(move_ctx());
    let call = IntrinsicCall { intrinsic: 9, args: vec![] };
    let r = t.translate_move_intrinsic(&call, &bare(4));
    assert!(matches!(r, Err(CgError::MissingIntrinsic { id: 9 })));
}

fn mov(source: MoveSource, dest: MoveRef) -> Stat {
    Stat::Move(MoveData { source, dest })
}

#[test]
fn if_with_no_branches_emits_nothing() {
    let mut t = FuncTranslator::new(move_ctx());
    let d = IfData {
        condition: Cond::Eq(Value::Variable(4), Value::Literal(Literal::Int(1))),
        if_stats: None,
        else_stats: None,
    };
    t.translate_if(&d).unwrap();
    assert_eq!(t.builder.insts.len(), 0);
    assert_eq!(t.builder.num_blocks, 1);
}

fn seal_counts(t: &FuncTranslator) -> Vec<usize> {
    let mut counts = vec![0usize; t.builder.num_blocks];
    for i in t.builder.insts.iter() {
        if let Inst::SealBlock { block } = i {
            counts[*block] += 1;
        }
    }
    counts
}

#[test]
fn if_without_else_seals_each_new_block_once() {
    let mut t = FuncTranslator::new(move_ctx());
    let d = IfData {
        condition: Cond::Eq(Value::Variable(4), Value::Literal(Literal::Int(1))),
        if_stats: Some(vec![mov(MoveSource::Literal(Literal::Int(1)), bare(7))]),
        else_stats: None,
    };
    t.translate_if(&d).unwrap();
    assert_eq!(t.builder.num_blocks, 3);
    assert_eq!(seal_counts(&t)[1..], [1, 1]);
    // the trailing block is current afterwards
    assert_eq!(t.builder.cur_block, 2);
    assert!(t.builder.insts.iter().any(|i| matches!(i, Inst::Brif { .. })));
    assert!(t.builder.insts.iter().any(|i| matches!(i, Inst::Jump { .. })));
}

#[test]
fn if_with_else_seals_each_new_block_once() {
    let mut t = FuncTranslator::new(move_ctx());
    let d = IfData {
        condition: Cond::Eq(Value::Variable(0), Value::Literal(Literal::Str(0))),
        if_stats: Some(vec![mov(MoveSource::Literal(Literal::Int(1)), bare(7))]),
        else_stats: Some(vec![mov(MoveSource::Literal(Literal::Int(0)), bare(7))]),
    };
    t.translate_if(&d).unwrap();
    assert_eq!(t.builder.num_blocks, 4);
    assert_eq!(seal_counts(&t)[1..], [1, 1, 1]);
    assert!(t.builder.insts.iter().any(|i| matches!(i, Inst::CallStrCmp { .. })));
}

#[test]
fn statement_after_stop_is_unreachable() {
    // a then-branch that continues after an unconditional transfer
    let mut t = FuncTranslator::new(move_ctx());
    let d = IfData {
        condition: Cond::Eq(Value::Variable(4), Value::Literal(Literal::Int(1))),
        if_stats: Some(vec![
            Stat::StopRun,
            mov(MoveSource::Literal(Literal::Int(1)), bare(7)),
        ]),
        else_stats: None,
    };
    let r = t.translate_if(&d);
    assert!(matches!(r, Err(CgError::UnreachableCode)));
}

#[test]
fn terminating_then_branch_skips_the_jump() {
    let mut t = FuncTranslator::new(move_ctx());
    let d = IfData {
        condition: Cond::Eq(Value::Variable(4), Value::Literal(Literal::Int(1))),
        if_stats: Some(vec![Stat::StopRun]),
        else_stats: None,
    };
    t.translate_if(&d).unwrap();
    assert!(t.builder.insts.iter().any(|i| matches!(i, Inst::Ret)));
    assert!(!t.builder.insts.iter().any(|i| matches!(i, Inst::Jump { .. })));
    assert_eq!(seal_counts(&t)[1..], [1, 1]);
}

#[test]
fn move_then_compare_program_translates() {
    // MOVE "HI" TO A, then IF A = "HI" THEN MOVE 1 TO R ELSE MOVE 0 TO R
    let mut t = FuncTranslator::new(move_ctx());
    let program = vec![
        mov(MoveSource::Literal(Literal::Str(0)), bare(0)),
        Stat::If(IfData {
            condition: Cond::Eq(Value::Variable(0), Value::Literal(Literal::Str(0))),
            if_stats: Some(vec![mov(MoveSource::Literal(Literal::Int(1)), bare(7))]),
            else_stats: Some(vec![mov(MoveSource::Literal(Literal::Int(0)), bare(7))]),
        }),
    ];
    let terminated = t.translate_block_stats(&program).unwrap();
    assert!(!terminated);
    // the interned literal's buffer is declared exactly once although it
    // is used by both the move and the comparison
    let decls = t.builder.insts.iter().filter(|i| {
        matches!(i, Inst::DeclareGv { data_id: 100 })
    }).count();
    assert_eq!(decls, 1);
    assert!(t.builder.insts.iter().any(|i| matches!(i, Inst::CallStrCmp { .. })));
}

#[test]
fn move_dispatches_on_source() {
    let mut t = FuncTranslator::new(move_ctx());
    t.translate_move(&MoveData {
        source: MoveSource::MoveRef(bare(4)),
        dest: bare(5),
    }).unwrap();
    assert!(t.builder.insts.iter().any(|i| matches!(i, Inst::Store { .. })));
}

#[test]
fn roundtrip_moves_translate_cleanly() {
    // A into B and B into A with equal pictures: two symmetric byte copies
    let ctx = Ctx {
        syms: vec![
            msym("P", PicKind::Str, 6, 10),
            msym("Q", PicKind::Str, 6, 11),
        ],
        str_lits: vec![],
        intrinsics: vec![],
    };
    let mut t = FuncTranslator::new(ctx);
    t.translate_mov_ref(&bare(0), &bare(1)).unwrap();
    t.translate_mov_ref(&bare(1), &bare(0)).unwrap();
    let copies: Vec<_> = t.builder.insts.iter().filter(|i| {
        matches!(i, Inst::CallMemcpy { .. })
    }).collect();
    assert_eq!(copies.len(), 2);
}

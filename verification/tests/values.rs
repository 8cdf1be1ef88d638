//! Tests for the value loaders, span lowering, condition translation, and
//! ISA decisions.

use cobalt_codegen::ast::{CgError, CgLiteral, Cond, Ctx, Literal, MoveSpan, Pic, PicKind,
    StrLit, SymInfo, Value};
use cobalt_codegen::ir::{FloatCC, Inst, IntCC, IrType};
use cobalt_codegen::isa::{isa_from_arch, isa_plan, Isa};
use cobalt_codegen::translator::FuncTranslator;

fn sym(name: &str, kind: PicKind, comp_size: usize, data_id: u32) -> SymInfo {
    SymInfo { name: name.to_string(), pic: Pic { kind, comp_size }, data_id }
}

fn lit(bytes: &[u8], data_id: u32) -> StrLit {
    StrLit { bytes: bytes.to_vec(), data_id }
}

/// Symbols: 0 A str(11), 1 B str(5), 2 C str(2), 3 D str(2), 4 I int,
/// 5 J int, 6 F float, 7 R int. String literals: 0 "HI", 1 "X", 2 "A",
/// 3 "HELLOWORLD".
fn basic_ctx() -> Ctx {
    Ctx {
        syms: vec![
            sym("A", PicKind::Str, 11, 0),
            sym("B", PicKind::Str, 5, 1),
            sym("C", PicKind::Str, 2, 2),
            sym("D", PicKind::Str, 2, 3),
            sym("I", PicKind::Int, 8, 4),
            sym("J", PicKind::Int, 8, 5),
            sym("F", PicKind::Float, 8, 6),
            sym("R", PicKind::Int, 8, 7),
        ],
        str_lits: vec![
            lit(b"HI", 100),
            lit(b"X", 101),
            lit(b"A", 102),
            lit(b"HELLOWORLD", 103),
        ],
        intrinsics: vec![],
    }
}

#[test]
fn int_literal_loads_as_iconst() {
    let mut t = FuncTranslator::new(basic_ctx());
    let v = t.load_lit(&Literal::Int(42)).unwrap();
    assert!(matches!(t.builder.insts[v], Inst::Iconst { ty: IrType::I64, imm: 42 }));
}

#[test]
fn float_literal_loads_as_bit_pattern() {
    let mut t = FuncTranslator::new(basic_ctx());
    let bits = (1.5f64).to_bits();
    let v = t.load_lit(&Literal::Float(bits)).unwrap();
    assert!(matches!(t.builder.insts[v], Inst::F64ConstBits { bits: b } if b == bits));
}

#[test]
fn literal_loaded_twice_is_same_node() {
    let mut t = FuncTranslator::new(basic_ctx());
    let v1 = t.load_lit(&Literal::Int(7)).unwrap();
    let len_after_first = t.builder.insts.len();
    let v2 = t.load_lit(&Literal::Int(7)).unwrap();
    assert_eq!(v1, v2);
    assert_eq!(t.builder.insts.len(), len_after_first);
}

#[test]
fn cg_literal_loaded_twice_is_same_node() {
    let mut t = FuncTranslator::new(basic_ctx());
    let v1 = t.load_cg_lit(&CgLiteral::Char(b'Q'));
    let v2 = t.load_cg_lit(&CgLiteral::Char(b'Q'));
    assert_eq!(v1, v2);
    assert!(matches!(t.builder.insts[v1], Inst::Iconst { ty: IrType::I8, imm } if imm == b'Q' as i64));
}

#[test]
fn data_id_declared_once_across_loads() {
    let mut t = FuncTranslator::new(basic_ctx());
    let p1 = t.load_static_ptr(4);
    let len_after_first = t.builder.insts.len();
    let p2 = t.load_static_ptr(4);
    // the second load returns the identical node and emits nothing: one
    // declaration and one address materialization in the whole function
    assert_eq!(p1, p2);
    assert_eq!(t.builder.insts.len(), len_after_first);
    let decls = t.builder.insts.iter().filter(|i| {
        matches!(i, Inst::DeclareGv { data_id: 4 })
    }).count();
    assert_eq!(decls, 1);
    let addrs = t.builder.insts.iter().filter(|i| {
        matches!(i, Inst::GlobalAddr { .. })
    }).count();
    assert_eq!(addrs, 1);
}

#[test]
fn string_var_loads_as_pointer() {
    let mut t = FuncTranslator::new(basic_ctx());
    let v = t.load_var(0).unwrap();
    assert!(matches!(t.builder.insts[v], Inst::GlobalAddr { .. }));
}

#[test]
fn int_var_loads_word() {
    let mut t = FuncTranslator::new(basic_ctx());
    let v = t.load_var(4).unwrap();
    assert!(matches!(t.builder.insts[v], Inst::Load { ty: IrType::I64, .. }));
}

#[test]
fn missing_symbol_is_reported() {
    let mut t = FuncTranslator::new(basic_ctx());
    assert!(matches!(t.load_var(99), Err(CgError::MissingSymbol { sym: 99 })));
}

#[test]
fn span_with_constant_start_and_len() {
    let mut t = FuncTranslator::new(basic_ctx());
    let pic = Pic { kind: PicKind::Str, comp_size: 11 };
    let span = MoveSpan {
        start_idx: Value::Literal(Literal::Int(3)),
        len: Some(Value::Literal(Literal::Int(4))),
    };
    let (idx, len) = t.load_span(&pic, Some(&span)).unwrap();
    // 1-based start 3 lowers to an add of -1 over the constant 3
    match t.builder.insts[idx] {
        Inst::IaddImm { arg, imm } => {
            assert_eq!(imm, -1);
            assert!(matches!(t.builder.insts[arg], Inst::Iconst { ty: IrType::I64, imm: 3 }));
        },
        _ => panic!("expected index adjustment"),
    }
    assert!(matches!(t.builder.insts[len], Inst::Iconst { ty: IrType::I64, imm: 4 }));
}

#[test]
fn span_without_len_runs_to_end() {
    let mut t = FuncTranslator::new(basic_ctx());
    let pic = Pic { kind: PicKind::Str, comp_size: 11 };
    let span = MoveSpan { start_idx: Value::Literal(Literal::Int(3)), len: None };
    let (idx, len) = t.load_span(&pic, Some(&span)).unwrap();
    match t.builder.insts[len] {
        Inst::Isub { lhs, rhs } => {
            assert!(matches!(t.builder.insts[lhs], Inst::Iconst { ty: IrType::I64, imm: 10 }));
            assert_eq!(rhs, idx);
        },
        _ => panic!("expected subtraction for implicit length"),
    }
}

#[test]
fn no_span_covers_whole_string() {
    let mut t = FuncTranslator::new(basic_ctx());
    let pic = Pic { kind: PicKind::Str, comp_size: 11 };
    let (idx, len) = t.load_span(&pic, None).unwrap();
    assert!(matches!(t.builder.insts[idx], Inst::Iconst { ty: IrType::Ptr, imm: 0 }));
    assert!(matches!(t.builder.insts[len], Inst::Iconst { ty: IrType::Ptr, imm: 10 }));
}

#[test]
fn int_float_comparison_promotes() {
    // IF I < F: the integer side converts to float, the comparison is a
    // float compare with the less-than predicate
    let mut t = FuncTranslator::new(basic_ctx());
    let c = Cond::Lt(Value::Variable(4), Value::Variable(6));
    let v = t.translate_cond_eval(&c).unwrap();
    match t.builder.insts[v] {
        Inst::Fcmp { cc: FloatCC::Lt, lhs, rhs } => {
            assert!(matches!(t.builder.insts[lhs], Inst::FcvtFromSint { .. }));
            assert!(matches!(t.builder.insts[rhs], Inst::Load { ty: IrType::F64, .. }));
        },
        _ => panic!("expected float comparison"),
    }
}

#[test]
fn pure_int_comparison_is_signed() {
    let mut t = FuncTranslator::new(basic_ctx());
    let c = Cond::Ge(Value::Variable(4), Value::Literal(Literal::Int(0)));
    let v = t.translate_cond_eval(&c).unwrap();
    assert!(matches!(t.builder.insts[v], Inst::Icmp { cc: IntCC::SignedGe, .. }));
}

#[test]
fn string_equality_uses_strcmp() {
    let mut t = FuncTranslator::new(basic_ctx());
    let c = Cond::Eq(Value::Variable(0), Value::Literal(Literal::Str(0)));
    let v = t.translate_cond_eval(&c).unwrap();
    assert!(matches!(t.builder.insts[v], Inst::CallStrCmp { .. }));
}

#[test]
fn ordinal_string_comparison_rejected_without_emission() {
    // IF S > "A" must fail in the verification pass, with no IR emitted
    let mut t = FuncTranslator::new(basic_ctx());
    let c = Cond::Gt(Value::Variable(0), Value::Literal(Literal::Str(2)));
    assert!(matches!(t.translate_cond_eval(&c), Err(CgError::CmpStrOrdinal)));
    assert_eq!(t.builder.insts.len(), 0);
}

#[test]
fn string_to_non_string_equality_rejected() {
    let mut t = FuncTranslator::new(basic_ctx());
    let c = Cond::Eq(Value::Variable(0), Value::Variable(4));
    assert!(matches!(t.translate_cond_eval(&c), Err(CgError::CmpStrWithNonStr)));
}

#[test]
fn missing_string_literal_in_comparison() {
    let mut t = FuncTranslator::new(basic_ctx());
    let c = Cond::Eq(Value::Literal(Literal::Str(9)), Value::Literal(Literal::Str(0)));
    assert!(matches!(t.translate_cond_eval(&c), Err(CgError::MissingStrLit { sid: 9 })));
}

#[test]
fn double_negation_is_two_xors_over_the_comparison() {
    let mut t = FuncTranslator::new(basic_ctx());
    let inner = Cond::Eq(Value::Variable(4), Value::Literal(Literal::Int(1)));
    let c = Cond::Not(Box::new(Cond::Not(Box::new(inner))));
    let v = t.translate_cond_eval(&c).unwrap();
    match t.builder.insts[v] {
        Inst::BxorImm { arg, imm: 1 } => match t.builder.insts[arg] {
            Inst::BxorImm { arg: arg2, imm: 1 } => {
                assert!(matches!(t.builder.insts[arg2], Inst::Icmp { cc: IntCC::Equal, .. }));
            },
            _ => panic!("expected inner xor"),
        },
        _ => panic!("expected outer xor"),
    }
}

#[test]
fn and_evaluates_both_operands() {
    // no short-circuit: both comparisons are emitted
    let mut t = FuncTranslator::new(basic_ctx());
    let c = Cond::And(
        Box::new(Cond::Eq(Value::Variable(4), Value::Literal(Literal::Int(1)))),
        Box::new(Cond::Eq(Value::Variable(5), Value::Literal(Literal::Int(2)))),
    );
    let v = t.translate_cond_eval(&c).unwrap();
    assert!(matches!(t.builder.insts[v], Inst::Band { .. }));
    let cmps = t.builder.insts.iter().filter(|i| matches!(i, Inst::Icmp { .. })).count();
    assert_eq!(cmps, 2);
}

#[test]
fn or_combines_bitwise() {
    let mut t = FuncTranslator::new(basic_ctx());
    let c = Cond::Or(
        Box::new(Cond::Eq(Value::Variable(4), Value::Literal(Literal::Int(1)))),
        Box::new(Cond::Eq(Value::Variable(5), Value::Literal(Literal::Int(2)))),
    );
    let v = t.translate_cond_eval(&c).unwrap();
    assert!(matches!(t.builder.insts[v], Inst::Bor { .. }));
}

#[test]
fn arch_names_map_to_isas() {
    assert_eq!(isa_from_arch(&"x86_64".to_string()), Some(Isa::X86_64));
    assert_eq!(isa_from_arch(&"aarch64".to_string()), Some(Isa::Aarch64));
    assert_eq!(isa_from_arch(&"riscv64".to_string()), None);
}

#[test]
fn security_flags_only_on_aarch64() {
    let p = isa_plan(&Isa::Aarch64, true);
    assert!(p.sign_return_address && p.sign_return_address_all && p.use_bti);
    assert!(!p.warn_security_disabled);
    assert!(!p.use_colocated_libcalls && !p.is_pic);
    let q = isa_plan(&Isa::Aarch64, false);
    assert!(!q.use_bti && q.warn_security_disabled);
    let r = isa_plan(&Isa::X86_64, true);
    assert!(!r.use_bti && !r.warn_security_disabled);
}

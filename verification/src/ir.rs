//! The intermediate representation the translator emits: a single ordered
//! instruction stream plus a block counter. A value id is the index of the
//! instruction that defines it; a global-value id is the index of its
//! `DeclareGv` entry. A backend replays the stream in order into its own
//! function builder.

use vstd::prelude::*;

verus! {

/// IR value types. `Ptr` is the target's pointer-sized integer type.
#[derive(Clone, Copy, PartialEq, Eq, Structural, Debug)]
pub enum IrType {
    I8,
    I64,
    F64,
    Ptr,
}

/// Signed integer comparison predicates.
#[derive(Clone, Copy, PartialEq, Eq, Structural, Debug)]
pub enum IntCC {
    Equal,
    SignedGe,
    SignedLe,
    SignedGt,
    SignedLt,
}

/// Floating-point comparison predicates.
#[derive(Clone, Copy, PartialEq, Eq, Structural, Debug)]
pub enum FloatCC {
    Equal,
    Ge,
    Le,
    Gt,
    Lt,
}

/// The runtime helper intrinsics with fixed signatures.
#[derive(Clone, Copy, PartialEq, Eq, Structural, Debug)]
pub enum RtIntrinsic {
    /// `(src_ptr, other_ptr) -> i8`: 1 iff the NUL-terminated strings are
    /// equal, else 0.
    StrCmp,
    /// `(src_ptr, dest_ptr, src_len, dest_len, src_span_idx, src_span_len,
    /// dest_span_idx, dest_span_len)`: bounded, 0-based, length-form
    /// spanned string copy with terminator adjustment. The two length
    /// slots carry the usable capacities (NUL excluded); the copy
    /// preserves the NUL at `dest[dest_len]`.
    StrCpy,
    /// `(src_ptr, dest_ptr, src_offset, dest_offset)`: one-byte copy.
    CharCpy,
}

/// One entry of the instruction stream. Operand fields hold value ids
/// (indices of earlier value-defining entries); block fields hold block ids.
#[derive(Clone, PartialEq, Eq, Debug)]
pub enum Inst {
    /// Integer constant of the given type; defines a value.
    Iconst { ty: IrType, imm: i64 },
    /// 64-bit float constant, carried as its bit pattern; defines a value.
    F64ConstBits { bits: u64 },
    /// Declares the static data `data_id` as a global value of the current
    /// function; defines a global-value id, not a value.
    DeclareGv { data_id: u32 },
    /// The address of a declared global value, as a pointer; defines a value.
    GlobalAddr { gv: usize },
    /// Load of the given type from a pointer at offset 0; defines a value.
    Load { ty: IrType, ptr: usize },
    /// Store of a value to a pointer at offset 0.
    Store { val: usize, ptr: usize },
    /// Wrapping add of an immediate; defines a value.
    IaddImm { arg: usize, imm: i64 },
    /// Wrapping subtraction; defines a value.
    Isub { lhs: usize, rhs: usize },
    /// Bitwise xor with an immediate; defines a value.
    BxorImm { arg: usize, imm: i64 },
    /// Bitwise and; defines a value.
    Band { lhs: usize, rhs: usize },
    /// Bitwise or; defines a value.
    Bor { lhs: usize, rhs: usize },
    /// Signed integer comparison; defines a boolean-shaped value.
    Icmp { cc: IntCC, lhs: usize, rhs: usize },
    /// Floating-point comparison; defines a boolean-shaped value.
    Fcmp { cc: FloatCC, lhs: usize, rhs: usize },
    /// Signed integer to 64-bit float conversion; defines a value.
    FcvtFromSint { arg: usize },
    /// Call of the `strcmp` runtime intrinsic; defines its result value.
    CallStrCmp { lhs: usize, rhs: usize },
    /// Call of the `strcpy` runtime intrinsic; no result.
    CallStrCpy { args: [usize; 8] },
    /// Call of the `charcpy` runtime intrinsic; no result.
    CallCharCpy { args: [usize; 4] },
    /// Call of a registered user intrinsic; defines its result value.
    CallUser { intrinsic: u32, args: Vec<usize> },
    /// Byte copy of `size` bytes from `src` to `dest` via the backend's
    /// memcpy helper.
    CallMemcpy { dest: usize, src: usize, size: usize },
    /// Creation of a new basic block with the given id.
    CreateBlock { block: usize },
    /// Sealing of a block: no further predecessors will be added.
    SealBlock { block: usize },
    /// Switches the insertion point to the given block.
    SwitchTo { block: usize },
    /// Conditional branch: nonzero goes to `then_block`, zero to
    /// `else_block`. Terminates the current block.
    Brif { cond: usize, then_block: usize, else_block: usize },
    /// Unconditional jump. Terminates the current block.
    Jump { block: usize },
    /// Return from the generated function. Terminates the current block.
    Ret,
}

/// Whether an instruction defines an IR value usable as an operand.
pub open spec fn defines_value(inst: Inst) -> bool {
    match inst {
        Inst::Iconst { .. } => true,
        Inst::F64ConstBits { .. } => true,
        Inst::GlobalAddr { .. } => true,
        Inst::Load { .. } => true,
        Inst::IaddImm { .. } => true,
        Inst::Isub { .. } => true,
        Inst::BxorImm { .. } => true,
        Inst::Band { .. } => true,
        Inst::Bor { .. } => true,
        Inst::Icmp { .. } => true,
        Inst::Fcmp { .. } => true,
        Inst::FcvtFromSint { .. } => true,
        Inst::CallStrCmp { .. } => true,
        Inst::CallUser { .. } => true,
        _ => false,
    }
}

/// How many times block `b` is sealed in the stream.
pub open spec fn seal_count(s: Seq<Inst>, b: int) -> nat
    decreases s.len(),
{
    if s.len() == 0 {
        0
    } else {
        seal_count(s.drop_last(), b) + match s.last() {
            Inst::SealBlock { block } => if block == b { 1nat } else { 0nat },
            _ => 0nat,
        }
    }
}

/// How many times `data_id` is declared as a global value in the stream.
pub open spec fn gv_count(s: Seq<Inst>, data_id: u32) -> nat
    decreases s.len(),
{
    if s.len() == 0 {
        0
    } else {
        gv_count(s.drop_last(), data_id) + match s.last() {
            Inst::DeclareGv { data_id: d } => if d == data_id { 1nat } else { 0nat },
            _ => 0nat,
        }
    }
}

pub broadcast proof fn lemma_seal_count_push(s: Seq<Inst>, x: Inst, b: int)
    ensures
        #[trigger] seal_count(s.push(x), b) == seal_count(s, b) + match x {
            Inst::SealBlock { block } => if block == b { 1nat } else { 0nat },
            _ => 0nat,
        },
{
    assert(s.push(x).drop_last() =~= s);
}

pub broadcast proof fn lemma_gv_count_push(s: Seq<Inst>, x: Inst, d: u32)
    ensures
        #[trigger] gv_count(s.push(x), d) == gv_count(s, d) + match x {
            Inst::DeclareGv { data_id } => if data_id == d { 1nat } else { 0nat },
            _ => 0nat,
        },
{
    assert(s.push(x).drop_last() =~= s);
}

/// Whether an instruction writes memory or transfers control: a store,
/// one of the copying intrinsic calls, a branch, a jump, or a return.
/// Pure value definitions, declarations, block bookkeeping, and the
/// read-only `strcmp` call are not effects.
pub open spec fn effectful(i: Inst) -> bool {
    match i {
        Inst::Store { .. } => true,
        Inst::CallMemcpy { .. } => true,
        Inst::CallStrCpy { .. } => true,
        Inst::CallCharCpy { .. } => true,
        Inst::Brif { .. } => true,
        Inst::Jump { .. } => true,
        Inst::Ret => true,
        _ => false,
    }
}

/// How many effectful instructions the stream holds. Emission contracts
/// pin this count, so a translation step cannot emit stray stores, copies,
/// or control transfers beyond the ones its contract states.
pub open spec fn effect_count(s: Seq<Inst>) -> nat
    decreases s.len(),
{
    if s.len() == 0 {
        0
    } else {
        effect_count(s.drop_last()) + (if effectful(s.last()) { 1nat } else { 0nat })
    }
}

pub broadcast proof fn lemma_effect_count_push(s: Seq<Inst>, x: Inst)
    ensures
        #[trigger] effect_count(s.push(x)) == effect_count(s)
            + (if effectful(x) { 1nat } else { 0nat }),
{
    assert(s.push(x).drop_last() =~= s);
}

/// The builder state: the stream emitted so far, how many blocks exist, and
/// the block new effectful instructions belong to. Block 0 is the entry
/// block and is current when the builder is created.
#[derive(Clone, PartialEq, Eq, Debug)]
pub struct IrBuilder {
    pub insts: Vec<Inst>,
    pub num_blocks: usize,
    pub cur_block: usize,
}

/// Whether `vid` is a valid value operand of stream `s`.
pub open spec fn val_def(s: Seq<Inst>, vid: usize) -> bool {
    vid < s.len() && defines_value(s[vid as int])
}

/// Operand well-formedness of one instruction at position `i`: value
/// operands refer to earlier value-defining entries, global-value operands
/// to earlier declarations, block operands to existing blocks.
pub open spec fn inst_wf(s: Seq<Inst>, i: int, num_blocks: int) -> bool {
    match s[i] {
        Inst::Iconst { .. } => true,
        Inst::F64ConstBits { .. } => true,
        Inst::DeclareGv { .. } => true,
        Inst::GlobalAddr { gv } => gv < i && s[gv as int] is DeclareGv,
        Inst::Load { ptr, .. } => ptr < i && defines_value(s[ptr as int]),
        Inst::Store { val, ptr } => val < i && defines_value(s[val as int])
            && ptr < i && defines_value(s[ptr as int]),
        Inst::IaddImm { arg, .. } => arg < i && defines_value(s[arg as int]),
        Inst::Isub { lhs, rhs } => lhs < i && defines_value(s[lhs as int])
            && rhs < i && defines_value(s[rhs as int]),
        Inst::BxorImm { arg, .. } => arg < i && defines_value(s[arg as int]),
        Inst::Band { lhs, rhs } => lhs < i && defines_value(s[lhs as int])
            && rhs < i && defines_value(s[rhs as int]),
        Inst::Bor { lhs, rhs } => lhs < i && defines_value(s[lhs as int])
            && rhs < i && defines_value(s[rhs as int]),
        Inst::Icmp { lhs, rhs, .. } => lhs < i && defines_value(s[lhs as int])
            && rhs < i && defines_value(s[rhs as int]),
        Inst::Fcmp { lhs, rhs, .. } => lhs < i && defines_value(s[lhs as int])
            && rhs < i && defines_value(s[rhs as int]),
        Inst::FcvtFromSint { arg } => arg < i && defines_value(s[arg as int]),
        Inst::CallStrCmp { lhs, rhs } => lhs < i && defines_value(s[lhs as int])
            && rhs < i && defines_value(s[rhs as int]),
        Inst::CallStrCpy { args } => forall|k: int| 0 <= k < 8 ==>
            args[k] < i && defines_value(s[#[trigger] args[k] as int]),
        Inst::CallCharCpy { args } => forall|k: int| 0 <= k < 4 ==>
            args[k] < i && defines_value(s[#[trigger] args[k] as int]),
        Inst::CallUser { args, .. } => forall|k: int| 0 <= k < args@.len() ==>
            args@[k] < i && defines_value(s[#[trigger] args@[k] as int]),
        Inst::CallMemcpy { dest, src, size } => dest < i && defines_value(s[dest as int])
            && src < i && defines_value(s[src as int])
            && size < i && defines_value(s[size as int]),
        Inst::CreateBlock { block } => block < num_blocks,
        Inst::SealBlock { block } => block < num_blocks,
        Inst::SwitchTo { block } => block < num_blocks,
        Inst::Brif { cond, then_block, else_block } => cond < i
            && defines_value(s[cond as int])
            && then_block < num_blocks && else_block < num_blocks,
        Inst::Jump { block } => block < num_blocks,
        Inst::Ret => true,
    }
}

impl IrBuilder {
    /// The builder invariant: every emitted instruction is operand-well-
    /// formed and the current block exists.
    pub open spec fn wf(self) -> bool {
        &&& forall|i: int| 0 <= i < self.insts@.len() ==>
                #[trigger] inst_wf(self.insts@, i, self.num_blocks as int)
        &&& self.cur_block < self.num_blocks
        &&& self.num_blocks >= 1
    }

    pub fn new() -> (r: IrBuilder)
        ensures
            r.wf(),
            r.insts@.len() == 0,
            r.num_blocks == 1,
            r.cur_block == 0,
    {
        IrBuilder { insts: Vec::new(), num_blocks: 1, cur_block: 0 }
    }

    /// Appending one instruction keeps every earlier entry well formed.
    proof fn lemma_push_wf(self, x: Inst)
        requires
            self.wf(),
            inst_wf(self.insts@.push(x), self.insts@.len() as int, self.num_blocks as int),
        ensures
            forall|i: int| 0 <= i < self.insts@.len() + 1 ==>
                #[trigger] inst_wf(self.insts@.push(x), i, self.num_blocks as int),
    {
        let s2 = self.insts@.push(x);
        assert forall|i: int| 0 <= i < s2.len() implies
            #[trigger] inst_wf(s2, i, self.num_blocks as int) by {
            if i < self.insts@.len() {
                assert(inst_wf(self.insts@, i, self.num_blocks as int));
                assert(forall|j: int| 0 <= j < self.insts@.len() ==> s2[j] == self.insts@[j]);
            }
        }
    }

    fn push_def(&mut self, x: Inst) -> (r: usize)
        requires
            old(self).wf(),
            inst_wf(old(self).insts@.push(x), old(self).insts@.len() as int,
                old(self).num_blocks as int),
        ensures
            final(self).wf(),
            final(self).insts@ == old(self).insts@.push(x),
            final(self).num_blocks == old(self).num_blocks,
            final(self).cur_block == old(self).cur_block,
            r == old(self).insts@.len(),
    {
        proof {
            self.lemma_push_wf(x);
        }
        let r = self.insts.len();
        self.insts.push(x);
        r
    }

    pub fn iconst(&mut self, ty: IrType, imm: i64) -> (r: usize)
        requires old(self).wf(),
        ensures
            final(self).wf(),
            final(self).insts@ == old(self).insts@.push(Inst::Iconst { ty, imm }),
            final(self).num_blocks == old(self).num_blocks,
            final(self).cur_block == old(self).cur_block,
            r == old(self).insts@.len(),
    {
        self.push_def(Inst::Iconst { ty, imm })
    }

    pub fn f64const_bits(&mut self, bits: u64) -> (r: usize)
        requires old(self).wf(),
        ensures
            final(self).wf(),
            final(self).insts@ == old(self).insts@.push(Inst::F64ConstBits { bits }),
            final(self).num_blocks == old(self).num_blocks,
            final(self).cur_block == old(self).cur_block,
            r == old(self).insts@.len(),
    {
        self.push_def(Inst::F64ConstBits { bits })
    }

    pub fn declare_gv(&mut self, data_id: u32) -> (r: usize)
        requires old(self).wf(),
        ensures
            final(self).wf(),
            final(self).insts@ == old(self).insts@.push(Inst::DeclareGv { data_id }),
            final(self).num_blocks == old(self).num_blocks,
            final(self).cur_block == old(self).cur_block,
            r == old(self).insts@.len(),
    {
        self.push_def(Inst::DeclareGv { data_id })
    }

    pub fn global_addr(&mut self, gv: usize) -> (r: usize)
        requires
            old(self).wf(),
            gv < old(self).insts@.len(),
            old(self).insts@[gv as int] is DeclareGv,
        ensures
            final(self).wf(),
            final(self).insts@ == old(self).insts@.push(Inst::GlobalAddr { gv }),
            final(self).num_blocks == old(self).num_blocks,
            final(self).cur_block == old(self).cur_block,
            r == old(self).insts@.len(),
    {
        self.push_def(Inst::GlobalAddr { gv })
    }

    pub fn load(&mut self, ty: IrType, ptr: usize) -> (r: usize)
        requires
            old(self).wf(),
            val_def(old(self).insts@, ptr),
        ensures
            final(self).wf(),
            final(self).insts@ == old(self).insts@.push(Inst::Load { ty, ptr }),
            final(self).num_blocks == old(self).num_blocks,
            final(self).cur_block == old(self).cur_block,
            r == old(self).insts@.len(),
    {
        self.push_def(Inst::Load { ty, ptr })
    }

    pub fn store(&mut self, val: usize, ptr: usize)
        requires
            old(self).wf(),
            val_def(old(self).insts@, val),
            val_def(old(self).insts@, ptr),
        ensures
            final(self).wf(),
            final(self).insts@ == old(self).insts@.push(Inst::Store { val, ptr }),
            final(self).num_blocks == old(self).num_blocks,
            final(self).cur_block == old(self).cur_block,
    {
        self.push_def(Inst::Store { val, ptr });
    }

    pub fn iadd_imm(&mut self, arg: usize, imm: i64) -> (r: usize)
        requires
            old(self).wf(),
            val_def(old(self).insts@, arg),
        ensures
            final(self).wf(),
            final(self).insts@ == old(self).insts@.push(Inst::IaddImm { arg, imm }),
            final(self).num_blocks == old(self).num_blocks,
            final(self).cur_block == old(self).cur_block,
            r == old(self).insts@.len(),
    {
        self.push_def(Inst::IaddImm { arg, imm })
    }

    pub fn isub(&mut self, lhs: usize, rhs: usize) -> (r: usize)
        requires
            old(self).wf(),
            val_def(old(self).insts@, lhs),
            val_def(old(self).insts@, rhs),
        ensures
            final(self).wf(),
            final(self).insts@ == old(self).insts@.push(Inst::Isub { lhs, rhs }),
            final(self).num_blocks == old(self).num_blocks,
            final(self).cur_block == old(self).cur_block,
            r == old(self).insts@.len(),
    {
        self.push_def(Inst::Isub { lhs, rhs })
    }

    pub fn bxor_imm(&mut self, arg: usize, imm: i64) -> (r: usize)
        requires
            old(self).wf(),
            val_def(old(self).insts@, arg),
        ensures
            final(self).wf(),
            final(self).insts@ == old(self).insts@.push(Inst::BxorImm { arg, imm }),
            final(self).num_blocks == old(self).num_blocks,
            final(self).cur_block == old(self).cur_block,
            r == old(self).insts@.len(),
    {
        self.push_def(Inst::BxorImm { arg, imm })
    }

    pub fn band(&mut self, lhs: usize, rhs: usize) -> (r: usize)
        requires
            old(self).wf(),
            val_def(old(self).insts@, lhs),
            val_def(old(self).insts@, rhs),
        ensures
            final(self).wf(),
            final(self).insts@ == old(self).insts@.push(Inst::Band { lhs, rhs }),
            final(self).num_blocks == old(self).num_blocks,
            final(self).cur_block == old(self).cur_block,
            r == old(self).insts@.len(),
    {
        self.push_def(Inst::Band { lhs, rhs })
    }

    pub fn bor(&mut self, lhs: usize, rhs: usize) -> (r: usize)
        requires
            old(self).wf(),
            val_def(old(self).insts@, lhs),
            val_def(old(self).insts@, rhs),
        ensures
            final(self).wf(),
            final(self).insts@ == old(self).insts@.push(Inst::Bor { lhs, rhs }),
            final(self).num_blocks == old(self).num_blocks,
            final(self).cur_block == old(self).cur_block,
            r == old(self).insts@.len(),
    {
        self.push_def(Inst::Bor { lhs, rhs })
    }

    pub fn icmp(&mut self, cc: IntCC, lhs: usize, rhs: usize) -> (r: usize)
        requires
            old(self).wf(),
            val_def(old(self).insts@, lhs),
            val_def(old(self).insts@, rhs),
        ensures
            final(self).wf(),
            final(self).insts@ == old(self).insts@.push(Inst::Icmp { cc, lhs, rhs }),
            final(self).num_blocks == old(self).num_blocks,
            final(self).cur_block == old(self).cur_block,
            r == old(self).insts@.len(),
    {
        self.push_def(Inst::Icmp { cc, lhs, rhs })
    }

    pub fn fcmp(&mut self, cc: FloatCC, lhs: usize, rhs: usize) -> (r: usize)
        requires
            old(self).wf(),
            val_def(old(self).insts@, lhs),
            val_def(old(self).insts@, rhs),
        ensures
            final(self).wf(),
            final(self).insts@ == old(self).insts@.push(Inst::Fcmp { cc, lhs, rhs }),
            final(self).num_blocks == old(self).num_blocks,
            final(self).cur_block == old(self).cur_block,
            r == old(self).insts@.len(),
    {
        self.push_def(Inst::Fcmp { cc, lhs, rhs })
    }

    pub fn fcvt_from_sint(&mut self, arg: usize) -> (r: usize)
        requires
            old(self).wf(),
            val_def(old(self).insts@, arg),
        ensures
            final(self).wf(),
            final(self).insts@ == old(self).insts@.push(Inst::FcvtFromSint { arg }),
            final(self).num_blocks == old(self).num_blocks,
            final(self).cur_block == old(self).cur_block,
            r == old(self).insts@.len(),
    {
        self.push_def(Inst::FcvtFromSint { arg })
    }

    pub fn call_strcmp(&mut self, lhs: usize, rhs: usize) -> (r: usize)
        requires
            old(self).wf(),
            val_def(old(self).insts@, lhs),
            val_def(old(self).insts@, rhs),
        ensures
            final(self).wf(),
            final(self).insts@ == old(self).insts@.push(Inst::CallStrCmp { lhs, rhs }),
            final(self).num_blocks == old(self).num_blocks,
            final(self).cur_block == old(self).cur_block,
            r == old(self).insts@.len(),
    {
        self.push_def(Inst::CallStrCmp { lhs, rhs })
    }

    pub fn call_strcpy(&mut self, args: [usize; 8])
        requires
            old(self).wf(),
            forall|k: int| 0 <= k < 8 ==> val_def(old(self).insts@, #[trigger] args[k]),
        ensures
            final(self).wf(),
            final(self).insts@ == old(self).insts@.push(Inst::CallStrCpy { args }),
            final(self).num_blocks == old(self).num_blocks,
            final(self).cur_block == old(self).cur_block,
    {
        self.push_def(Inst::CallStrCpy { args });
    }

    pub fn call_charcpy(&mut self, args: [usize; 4])
        requires
            old(self).wf(),
            forall|k: int| 0 <= k < 4 ==> val_def(old(self).insts@, #[trigger] args[k]),
        ensures
            final(self).wf(),
            final(self).insts@ == old(self).insts@.push(Inst::CallCharCpy { args }),
            final(self).num_blocks == old(self).num_blocks,
            final(self).cur_block == old(self).cur_block,
    {
        self.push_def(Inst::CallCharCpy { args });
    }

    pub fn call_user(&mut self, intrinsic: u32, args: Vec<usize>) -> (r: usize)
        requires
            old(self).wf(),
            forall|k: int| 0 <= k < args@.len() ==> val_def(old(self).insts@, #[trigger] args@[k]),
        ensures
            final(self).wf(),
            final(self).insts@ == old(self).insts@.push(Inst::CallUser { intrinsic, args: args }),
            final(self).num_blocks == old(self).num_blocks,
            final(self).cur_block == old(self).cur_block,
            r == old(self).insts@.len(),
    {
        self.push_def(Inst::CallUser { intrinsic, args })
    }

    pub fn call_memcpy(&mut self, dest: usize, src: usize, size: usize)
        requires
            old(self).wf(),
            val_def(old(self).insts@, dest),
            val_def(old(self).insts@, src),
            val_def(old(self).insts@, size),
        ensures
            final(self).wf(),
            final(self).insts@ == old(self).insts@.push(Inst::CallMemcpy { dest, src, size }),
            final(self).num_blocks == old(self).num_blocks,
            final(self).cur_block == old(self).cur_block,
    {
        self.push_def(Inst::CallMemcpy { dest, src, size });
    }

    pub fn create_block(&mut self) -> (r: usize)
        requires
            old(self).wf(),
            old(self).num_blocks < usize::MAX,
        ensures
            final(self).wf(),
            final(self).insts@ == old(self).insts@.push(Inst::CreateBlock { block: r }),
            final(self).num_blocks == old(self).num_blocks + 1,
            final(self).cur_block == old(self).cur_block,
            r == old(self).num_blocks,
    {
        let r = self.num_blocks;
        self.num_blocks = self.num_blocks + 1;
        proof {
            assert forall|i: int| 0 <= i < self.insts@.len() implies
                #[trigger] inst_wf(self.insts@, i, self.num_blocks as int) by {
                assert(inst_wf(self.insts@, i, old(self).num_blocks as int));
            }
        }
        self.push_def(Inst::CreateBlock { block: r });
        r
    }

    pub fn seal_block(&mut self, block: usize)
        requires
            old(self).wf(),
            block < old(self).num_blocks,
        ensures
            final(self).wf(),
            final(self).insts@ == old(self).insts@.push(Inst::SealBlock { block }),
            final(self).num_blocks == old(self).num_blocks,
            final(self).cur_block == old(self).cur_block,
    {
        self.push_def(Inst::SealBlock { block });
    }

    pub fn switch_to_block(&mut self, block: usize)
        requires
            old(self).wf(),
            block < old(self).num_blocks,
        ensures
            final(self).wf(),
            final(self).insts@ == old(self).insts@.push(Inst::SwitchTo { block }),
            final(self).num_blocks == old(self).num_blocks,
            final(self).cur_block == block,
    {
        self.push_def(Inst::SwitchTo { block });
        self.cur_block = block;
    }

    pub fn brif(&mut self, cond: usize, then_block: usize, else_block: usize)
        requires
            old(self).wf(),
            val_def(old(self).insts@, cond),
            then_block < old(self).num_blocks,
            else_block < old(self).num_blocks,
        ensures
            final(self).wf(),
            final(self).insts@ == old(self).insts@.push(
                Inst::Brif { cond, then_block, else_block }),
            final(self).num_blocks == old(self).num_blocks,
            final(self).cur_block == old(self).cur_block,
    {
        self.push_def(Inst::Brif { cond, then_block, else_block });
    }

    pub fn jump(&mut self, block: usize)
        requires
            old(self).wf(),
            block < old(self).num_blocks,
        ensures
            final(self).wf(),
            final(self).insts@ == old(self).insts@.push(Inst::Jump { block }),
            final(self).num_blocks == old(self).num_blocks,
            final(self).cur_block == old(self).cur_block,
    {
        self.push_def(Inst::Jump { block });
    }

    pub fn ret(&mut self)
        requires old(self).wf(),
        ensures
            final(self).wf(),
            final(self).insts@ == old(self).insts@.push(Inst::Ret),
            final(self).num_blocks == old(self).num_blocks,
            final(self).cur_block == old(self).cur_block,
    {
        self.push_def(Inst::Ret);
    }
}

/// A straight-line extension: `b1` continues `b0` without creating,
/// sealing, or switching blocks and without branch instructions, so block
/// structure and seal counts carry over unchanged.
pub open spec fn extends_straight(b0: IrBuilder, b1: IrBuilder) -> bool {
    &&& b0.insts@.is_prefix_of(b1.insts@)
    &&& b1.num_blocks == b0.num_blocks
    &&& b1.cur_block == b0.cur_block
    &&& forall|i: int| b0.insts@.len() <= i < b1.insts@.len() ==>
            !((#[trigger] b1.insts@[i]) is SealBlock)
}

/// Any extension of the stream: earlier entries are unchanged and blocks
/// are only added.
pub open spec fn extends(b0: IrBuilder, b1: IrBuilder) -> bool {
    &&& b0.insts@.is_prefix_of(b1.insts@)
    &&& b1.num_blocks >= b0.num_blocks
}

/// A builder extends itself.
pub proof fn lemma_extends_straight_refl(b: IrBuilder)
    ensures extends_straight(b, b),
{
    assert(b.insts@ =~= b.insts@.subrange(0, b.insts@.len() as int));
}

/// Straight-line extension is transitive.
pub proof fn lemma_extends_straight_trans(a: IrBuilder, b: IrBuilder, c: IrBuilder)
    requires
        extends_straight(a, b),
        extends_straight(b, c),
    ensures extends_straight(a, c),
{
    assert forall|i: int| 0 <= i < a.insts@.len() implies c.insts@[i] == a.insts@[i] by {
        assert(a.insts@[i] == b.insts@.subrange(0, a.insts@.len() as int)[i]);
        assert(b.insts@[i] == c.insts@.subrange(0, b.insts@.len() as int)[i]);
    }
    assert(a.insts@ =~= c.insts@.subrange(0, a.insts@.len() as int));
    assert forall|i: int| a.insts@.len() <= i < c.insts@.len()
        implies !((#[trigger] c.insts@[i]) is SealBlock) by {
        if i < b.insts@.len() {
            assert(b.insts@[i] == c.insts@.subrange(0, b.insts@.len() as int)[i]);
            assert(c.insts@[i] == b.insts@[i]);
        }
    }
}

/// One appended non-sealing instruction is a straight-line extension.
pub proof fn lemma_push_extends(b0: IrBuilder, b1: IrBuilder)
    requires
        b1.insts@.len() == b0.insts@.len() + 1,
        forall|i: int| 0 <= i < b0.insts@.len() ==> b1.insts@[i] == b0.insts@[i],
        !(b1.insts@.last() is SealBlock),
        b1.num_blocks == b0.num_blocks,
        b1.cur_block == b0.cur_block,
    ensures extends_straight(b0, b1),
{
    assert(b0.insts@ =~= b1.insts@.subrange(0, b0.insts@.len() as int));
    assert forall|i: int| b0.insts@.len() <= i < b1.insts@.len()
        implies !((#[trigger] b1.insts@[i]) is SealBlock) by {
        assert(b1.insts@[i] == b1.insts@.last());
    }
}

/// A block-structure-preserving extension: earlier entries unchanged,
/// blocks only added, and the seal count of every pre-existing block
/// unchanged. Blocks added later may be sealed freely.
pub open spec fn extends_frame(b0: IrBuilder, b1: IrBuilder) -> bool {
    &&& b0.insts@.is_prefix_of(b1.insts@)
    &&& b1.num_blocks >= b0.num_blocks
    &&& forall|b: int| 0 <= b < b0.num_blocks
            ==> #[trigger] seal_count(b1.insts@, b) == seal_count(b0.insts@, b)
}

/// A straight-line extension preserves block structure.
pub proof fn lemma_straight_is_frame(b0: IrBuilder, b1: IrBuilder)
    requires extends_straight(b0, b1),
    ensures extends_frame(b0, b1),
{
    assert forall|b: int| 0 <= b < b0.num_blocks
        implies #[trigger] seal_count(b1.insts@, b) == seal_count(b0.insts@, b) by {
        lemma_extends_straight_seals(b0, b1, b);
    }
}

/// A builder is a frame extension of itself.
pub proof fn lemma_frame_refl(b: IrBuilder)
    ensures extends_frame(b, b),
{
    assert(b.insts@ =~= b.insts@.subrange(0, b.insts@.len() as int));
}

/// Frame extension is transitive.
pub proof fn lemma_frame_trans(a: IrBuilder, b: IrBuilder, c: IrBuilder)
    requires
        extends_frame(a, b),
        extends_frame(b, c),
    ensures extends_frame(a, c),
{
    assert forall|i: int| 0 <= i < a.insts@.len() implies c.insts@[i] == a.insts@[i] by {
        assert(a.insts@[i] == b.insts@.subrange(0, a.insts@.len() as int)[i]);
        assert(b.insts@[i] == c.insts@.subrange(0, b.insts@.len() as int)[i]);
    }
    assert(a.insts@ =~= c.insts@.subrange(0, a.insts@.len() as int));
}

/// One appended instruction that seals nothing preserves block structure,
/// whether or not it creates a block.
pub proof fn lemma_push_frame(b0: IrBuilder, b1: IrBuilder)
    requires
        b1.insts@.len() == b0.insts@.len() + 1,
        forall|i: int| 0 <= i < b0.insts@.len() ==> b1.insts@[i] == b0.insts@[i],
        !(b1.insts@.last() is SealBlock),
        b1.num_blocks >= b0.num_blocks,
    ensures extends_frame(b0, b1),
{
    assert(b0.insts@ =~= b1.insts@.subrange(0, b0.insts@.len() as int));
    assert(b1.insts@ == b0.insts@.push(b1.insts@.last())) by {
        assert(b1.insts@ =~= b0.insts@.push(b1.insts@.last()));
    }
    assert forall|b: int| 0 <= b < b0.num_blocks
        implies #[trigger] seal_count(b1.insts@, b) == seal_count(b0.insts@, b) by {
        lemma_seal_count_push(b0.insts@, b1.insts@.last(), b);
    }
}

/// One appended seal of block `sb` raises that block's count by one and
/// leaves every other count unchanged.
pub proof fn lemma_push_seal(b0: IrBuilder, b1: IrBuilder, sb: usize)
    requires
        b1.insts@.len() == b0.insts@.len() + 1,
        forall|i: int| 0 <= i < b0.insts@.len() ==> b1.insts@[i] == b0.insts@[i],
        b1.insts@.last() == (Inst::SealBlock { block: sb }),
        b1.num_blocks == b0.num_blocks,
    ensures
        b0.insts@.is_prefix_of(b1.insts@),
        seal_count(b1.insts@, sb as int) == seal_count(b0.insts@, sb as int) + 1,
        forall|b: int| b != sb as int
            ==> #[trigger] seal_count(b1.insts@, b) == seal_count(b0.insts@, b),
{
    assert(b0.insts@ =~= b1.insts@.subrange(0, b0.insts@.len() as int));
    assert(b1.insts@ =~= b0.insts@.push(b1.insts@.last()));
    assert(b1.insts@ == b0.insts@.push(b1.insts@.last()));
    lemma_seal_count_push(b0.insts@, b1.insts@.last(), sb as int);
    assert forall|b: int| b != sb as int
        implies #[trigger] seal_count(b1.insts@, b) == seal_count(b0.insts@, b) by {
        lemma_seal_count_push(b0.insts@, b1.insts@.last(), b);
    }
}

/// Prefix relation is transitive.
pub proof fn lemma_prefix_trans(s0: Seq<Inst>, s1: Seq<Inst>, s2: Seq<Inst>)
    requires
        s0.is_prefix_of(s1),
        s1.is_prefix_of(s2),
    ensures s0.is_prefix_of(s2),
{
    assert forall|i: int| 0 <= i < s0.len() implies s2[i] == s0[i] by {
        assert(s0[i] == s1.subrange(0, s0.len() as int)[i]);
        assert(s1[i] == s2.subrange(0, s1.len() as int)[i]);
    }
    assert(s0 =~= s2.subrange(0, s0.len() as int));
}

/// Every stream is a prefix of itself.
pub proof fn lemma_prefix_refl(s: Seq<Inst>)
    ensures s.is_prefix_of(s),
{
    assert(s =~= s.subrange(0, s.len() as int));
}

/// An extension of the stream that seals nothing.
pub open spec fn no_new_seals(s0: Seq<Inst>, s1: Seq<Inst>) -> bool {
    &&& s0.is_prefix_of(s1)
    &&& forall|i: int| s0.len() <= i < s1.len() ==> !((#[trigger] s1[i]) is SealBlock)
}

/// A seal-free extension leaves every seal count unchanged.
pub proof fn lemma_no_seal_counts(s0: Seq<Inst>, s1: Seq<Inst>, b: int)
    requires no_new_seals(s0, s1),
    ensures seal_count(s1, b) == seal_count(s0, b),
    decreases s1.len(),
{
    if s1.len() > s0.len() {
        let prev = s1.drop_last();
        assert(s0.is_prefix_of(prev)) by {
            assert(forall|i: int| 0 <= i < s0.len() ==> prev[i] == s0[i]);
            assert(s0 =~= prev.subrange(0, s0.len() as int));
        }
        assert(!(s1.last() is SealBlock)) by {
            assert(s1[s1.len() - 1] == s1.last());
        }
        lemma_no_seal_counts(s0, prev, b);
    } else {
        assert(s1 =~= s0);
    }
}

/// Seal-free extension composes.
pub proof fn lemma_no_seal_trans(s0: Seq<Inst>, s1: Seq<Inst>, s2: Seq<Inst>)
    requires
        no_new_seals(s0, s1),
        no_new_seals(s1, s2),
    ensures no_new_seals(s0, s2),
{
    lemma_prefix_trans(s0, s1, s2);
    assert forall|i: int| s0.len() <= i < s2.len()
        implies !((#[trigger] s2[i]) is SealBlock) by {
        if i < s1.len() {
            assert(s1[i] == s2.subrange(0, s1.len() as int)[i]);
        }
    }
}

/// A straight-line extension seals nothing.
pub proof fn lemma_straight_no_seals(b0: IrBuilder, b1: IrBuilder)
    requires extends_straight(b0, b1),
    ensures no_new_seals(b0.insts@, b1.insts@),
{
}

/// One appended non-seal instruction seals nothing.
pub proof fn lemma_push_no_seals(s0: Seq<Inst>, s1: Seq<Inst>)
    requires
        s1.len() == s0.len() + 1,
        forall|i: int| 0 <= i < s0.len() ==> s1[i] == s0[i],
        !(s1.last() is SealBlock),
    ensures no_new_seals(s0, s1),
{
    assert(s0 =~= s1.subrange(0, s0.len() as int));
    assert forall|i: int| s0.len() <= i < s1.len()
        implies !((#[trigger] s1[i]) is SealBlock) by {
        assert(s1[i] == s1.last());
    }
}

/// No stream of a well-formed builder seals a block that does not exist.
pub proof fn lemma_seal_count_oob(b0: IrBuilder, b: int)
    requires
        b0.wf(),
        b >= b0.num_blocks,
    ensures seal_count(b0.insts@, b) == 0,
{
    assert forall|i: int| 0 <= i < b0.insts@.len() implies (match #[trigger] b0.insts@[i] {
        Inst::SealBlock { block } => (block as int) < b0.num_blocks,
        _ => true,
    }) by {
        assert(inst_wf(b0.insts@, i, b0.num_blocks as int));
    }
    lemma_seal_count_lt(b0.insts@, b0.num_blocks as int, b);
}

/// Helper: if every seal in the stream names a block below `nb`, then any
/// block at or above `nb` has seal count zero.
proof fn lemma_seal_count_lt(s: Seq<Inst>, nb: int, b: int)
    requires
        forall|i: int| 0 <= i < s.len() ==> (match #[trigger] s[i] {
            Inst::SealBlock { block } => (block as int) < nb,
            _ => true,
        }),
        b >= nb,
    ensures seal_count(s, b) == 0,
    decreases s.len(),
{
    if s.len() > 0 {
        let prev = s.drop_last();
        assert(forall|i: int| 0 <= i < prev.len() ==> prev[i] == s[i]);
        assert(s[s.len() - 1] == s.last());
        lemma_seal_count_lt(prev, nb, b);
    }
}

/// An extension that declares no global value leaves every declaration
/// count unchanged.
pub proof fn lemma_gv_count_extend(s0: Seq<Inst>, s1: Seq<Inst>, d: u32)
    requires
        s0.is_prefix_of(s1),
        forall|i: int| s0.len() <= i < s1.len() ==> !((#[trigger] s1[i]) is DeclareGv),
    ensures gv_count(s1, d) == gv_count(s0, d),
    decreases s1.len(),
{
    if s1.len() > s0.len() {
        let prev = s1.drop_last();
        assert(s0.is_prefix_of(prev)) by {
            assert(forall|i: int| 0 <= i < s0.len() ==> prev[i] == s0[i]);
        }
        assert(!(s1.last() is DeclareGv)) by {
            assert(s1[s1.len() - 1] == s1.last());
        }
        lemma_gv_count_extend(s0, prev, d);
    } else {
        assert(s1 =~= s0);
    }
}

/// A straight-line extension leaves every block's seal count unchanged.
pub proof fn lemma_extends_straight_seals(b0: IrBuilder, b1: IrBuilder, b: int)
    requires extends_straight(b0, b1),
    ensures seal_count(b1.insts@, b) == seal_count(b0.insts@, b),
{
    lemma_extends_straight_seals_seq(b0.insts@, b1.insts@, b);
}

/// Helper: seal counts over a prefix-preserving, seal-free extension of a
/// sequence are unchanged.
proof fn lemma_extends_straight_seals_seq(s0: Seq<Inst>, s1: Seq<Inst>, b: int)
    requires
        s0.is_prefix_of(s1),
        forall|i: int| s0.len() <= i < s1.len() ==> !((#[trigger] s1[i]) is SealBlock),
    ensures seal_count(s1, b) == seal_count(s0, b),
    decreases s1.len(),
{
    if s1.len() > s0.len() {
        let prev = s1.drop_last();
        assert(s0.is_prefix_of(prev)) by {
            assert(forall|i: int| 0 <= i < s0.len() ==> prev[i] == s0[i]);
        }
        assert(!(s1.last() is SealBlock)) by {
            assert(s1[s1.len() - 1] == s1.last());
        }
        lemma_extends_straight_seals_seq(s0, prev, b);
    } else {
        assert(s1 =~= s0);
    }
}

} // verus!

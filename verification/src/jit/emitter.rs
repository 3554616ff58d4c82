//! An x86-64 machine-code emitter.
//!
//! Every `emit_*` method appends the exact byte sequence stated in its
//! contract to the code buffer and leaves the bytes already there untouched.

use crate::bytes::{le16, le32, le64, push_u16_le, push_u32_le, push_u64_le};
use vstd::prelude::*;

verus! {

/// The ModR/M byte for a mode, an r/m field and a reg field.
pub open spec fn modrm_byte(mode: u8, rm: u8, reg: u8) -> u8 {
    (mode << 6u8) | (reg << 3u8) | rm
}

/// A REX prefix byte with the given W, X, B and R bits.
pub open spec fn rex_byte(w: bool, x: bool, b: bool, r: bool) -> u8 {
    0x40u8 | (if w { 0x08u8 } else { 0u8 }) | (if x { 0x04u8 } else { 0u8 }) | (if b {
        0x01u8
    } else {
        0u8
    }) | (if r { 0x02u8 } else { 0u8 })
}

#[derive(Clone, Copy, Debug, PartialEq, Eq, Structural)]
/// Displacement forms supported by x86-64 memory operands.
pub enum MemOffset {
    /// An 8-bit signed displacement.
    Disp8(i8),
    /// A 32-bit signed displacement.
    Disp32(i32),
    /// A RIP-relative displacement.
    RipRel(i32),
}

/// The base/index bits shared by the displacement forms.
pub open spec fn opt_index_bits(index: Option<Reg>) -> u8 {
    match index {
        Some(i) => i.spec_encode() << 3u8,
        None => 0u8,
    }
}

/// The register bits of an optional base register.
pub open spec fn opt_base_bits(base: Option<Reg>) -> u8 {
    match base {
        Some(r) => r.spec_encode(),
        None => 0u8,
    }
}

/// The bytes that a displacement form encodes to.
pub open spec fn mem_offset_bytes(off: MemOffset, base: Option<Reg>, index: Option<Reg>) -> Seq<u8> {
    match off {
        MemOffset::Disp8(d) => seq![0x40u8 | opt_index_bits(index) | opt_base_bits(base), d as u8],
        MemOffset::Disp32(d) => seq![0x80u8 | opt_index_bits(index) | opt_base_bits(base)] + le32(
            d as u32,
        ),
        MemOffset::RipRel(d) => seq![0x05u8] + le32(d as u32),
    }
}

impl MemOffset {
    /// Encodes this displacement into the ModR/M byte stream.
    pub fn encode(&self, code: &mut Vec<u8>, base: Option<Reg>, index: Option<Reg>, _scale: u8)
        ensures
            final(code)@ == old(code)@ + mem_offset_bytes(*self, base, index),
    {
        let index_bits: u8 = match index {
            Some(i) => i.encode() << 3,
            None => 0,
        };
        let base_bits: u8 = match base {
            Some(r) => r.encode(),
            None => 0,
        };
        match self {
            MemOffset::Disp8(disp) => {
                code.push(0x40 | index_bits | base_bits);
                code.push(*disp as u8);
            },
            MemOffset::Disp32(disp) => {
                code.push(0x80 | index_bits | base_bits);
                push_u32_le(code, *disp as u32);
            },
            MemOffset::RipRel(disp) => {
                code.push(0x05);
                push_u32_le(code, *disp as u32);
            },
        }
    }
}

#[derive(Clone, Debug)]
/// Memory address for x86-64 instructions: base register, index register,
/// scale, and displacement.
pub struct Address {
    /// Optional base register.
    pub base: Option<Reg>,
    /// Optional index register.
    pub index: Option<Reg>,
    /// Scale factor applied to the index register.
    pub scale: u8,
    /// Optional displacement in bytes.
    pub displacement: Option<i32>,
}

/// The scale bits of the SIB-style field.
pub open spec fn scale_bits(scale: u8) -> u8 {
    if scale == 1 {
        0x00u8
    } else if scale == 2 {
        0x40u8
    } else if scale == 4 {
        0x80u8
    } else if scale == 8 {
        0xC0u8
    } else {
        0x00u8
    }
}

/// The bytes that `Address::emit_modrm` writes for an address.
pub open spec fn address_modrm_bytes(a: Address) -> Seq<u8> {
    let base_enc = match a.base {
        Some(r) => r.spec_encode(),
        None => 0x05u8,
    };
    let index_enc = match a.index {
        Some(r) => r.spec_encode(),
        None => 0x04u8,
    };
    let sib: Seq<u8> = if a.index is Some {
        seq![0x24u8 | (index_enc << 3u8) | base_enc]
    } else {
        seq![]
    };
    match a.displacement {
        None => if a.base == Some(Reg::Rsp) {
            seq![]
        } else {
            seq![scale_bits(a.scale) | base_enc] + sib
        },
        Some(disp) => {
            let first = if -128 <= disp <= 127 {
                0x40u8 | scale_bits(a.scale) | base_enc
            } else {
                0x80u8 | scale_bits(a.scale) | base_enc
            };
            seq![first] + sib + le32(disp as u32)
        },
    }
}

/// The displacement bytes that the instructions taking an address repeat
/// after the ModR/M bytes.
pub open spec fn trailing_disp_bytes(a: Address) -> Seq<u8> {
    match a.displacement {
        Some(disp) => le32(disp as u32),
        None => seq![],
    }
}

impl Address {
    /// Creates an address with the given base register and nothing else.
    pub fn new(base: Reg) -> (a: Self)
        ensures
            a.base == Some(base),
            a.index is None,
            a.scale == 1,
            a.displacement is None,
    {
        Self { base: Some(base), index: None, scale: 1, displacement: None }
    }

    /// Returns this address with the given displacement.
    pub fn with_displacement(self, disp: i32) -> (a: Self)
        ensures
            a == (Address { displacement: Some(disp), ..self }),
    {
        let mut s = self;
        s.displacement = Some(disp);
        s
    }

    /// Returns this address with the given index register and scale.
    pub fn with_index(self, index: Reg, scale: u8) -> (a: Self)
        ensures
            a == (Address { index: Some(index), scale: scale, ..self }),
    {
        let mut s = self;
        s.index = Some(index);
        s.scale = scale;
        s
    }

    /// Emits the ModR/M (and SIB and displacement) bytes of this address.
    pub fn emit_modrm(&self, code: &mut Vec<u8>, _reg_enc: u8)
        ensures
            final(code)@ == old(code)@ + address_modrm_bytes(*self),
    {
        let base_enc: u8 = match self.base {
            Some(r) => r.encode(),
            None => 0x05,
        };
        let index_enc: u8 = match self.index {
            Some(r) => r.encode(),
            None => 0x04,
        };
        let scaled_index: u8 = match self.scale {
            1 => 0x00,
            2 => 0x40,
            4 => 0x80,
            8 => 0xC0,
            _ => 0x00,
        };
        let base_is_rsp = match self.base {
            Some(Reg::Rsp) => true,
            _ => false,
        };
        let has_index = self.index.is_some();
        match self.displacement {
            None => {
                if !base_is_rsp {
                    code.push(scaled_index | base_enc);
                    if has_index {
                        code.push(0x24 | (index_enc << 3) | base_enc);
                    }
                }
            },
            Some(disp) => {
                if -128 <= disp && disp <= 127 {
                    code.push(0x40 | scaled_index | base_enc);
                } else {
                    code.push(0x80 | scaled_index | base_enc);
                }
                if has_index {
                    code.push(0x24 | (index_enc << 3) | base_enc);
                }
                push_u32_le(code, disp as u32);
            },
        }
        proof {
            assert(final(code)@ =~= old(code)@ + address_modrm_bytes(*self));
        }
    }
}

#[derive(Clone, Copy, Debug, PartialEq, Eq, Hash, Structural)]
/// x86-64 general-purpose register.
pub enum Reg {
    /// The `rax` register.
    Rax,
    /// The `rcx` register.
    Rcx,
    /// The `rdx` register.
    Rdx,
    /// The `rbx` register.
    Rbx,
    /// The `rsp` register.
    Rsp,
    /// The `rbp` register.
    Rbp,
    /// The `rsi` register.
    Rsi,
    /// The `rdi` register.
    Rdi,
    /// The `r8` register.
    R8,
    /// The `r9` register.
    R9,
    /// The `r10` register.
    R10,
    /// The `r11` register.
    R11,
    /// The `r12` register.
    R12,
    /// The `r13` register.
    R13,
    /// The `r14` register.
    R14,
    /// The `r15` register.
    R15,
    /// The `al` register.
    Al,
    /// The `cl` register.
    Cl,
    /// The `dl` register.
    Dl,
    /// The `bl` register.
    Bl,
}

impl Reg {
    /// The architectural encoding of a register.
    pub open spec fn spec_encode(self) -> u8 {
        match self {
            Reg::Rax | Reg::Al => 0,
            Reg::Rcx | Reg::Cl => 1,
            Reg::Rdx | Reg::Dl => 2,
            Reg::Rbx | Reg::Bl => 3,
            Reg::Rsp => 4,
            Reg::Rbp => 5,
            Reg::Rsi => 6,
            Reg::Rdi => 7,
            Reg::R8 => 8,
            Reg::R9 => 9,
            Reg::R10 => 10,
            Reg::R11 => 11,
            Reg::R12 => 12,
            Reg::R13 => 13,
            Reg::R14 => 14,
            Reg::R15 => 15,
        }
    }

    /// Whether this is one of the 8-bit registers.
    pub open spec fn spec_is_8bit(self) -> bool {
        self is Al || self is Cl || self is Dl || self is Bl
    }

    /// Returns the architectural encoding for this register.
    #[verifier::when_used_as_spec(spec_encode)]
    pub fn encode(self) -> (r: u8)
        ensures
            r == self.spec_encode(),
            r < 16,
    {
        match self {
            Reg::Rax | Reg::Al => 0,
            Reg::Rcx | Reg::Cl => 1,
            Reg::Rdx | Reg::Dl => 2,
            Reg::Rbx | Reg::Bl => 3,
            Reg::Rsp => 4,
            Reg::Rbp => 5,
            Reg::Rsi => 6,
            Reg::Rdi => 7,
            Reg::R8 => 8,
            Reg::R9 => 9,
            Reg::R10 => 10,
            Reg::R11 => 11,
            Reg::R12 => 12,
            Reg::R13 => 13,
            Reg::R14 => 14,
            Reg::R15 => 15,
        }
    }

    /// Returns whether this is a 64-bit register (every register that is not 8-bit).
    pub fn is_64bit(self) -> (r: bool)
        ensures
            r == !self.spec_is_8bit(),
    {
        !self.is_8bit()
    }

    /// Returns whether this is an 8-bit register.
    #[verifier::when_used_as_spec(spec_is_8bit)]
    pub fn is_8bit(self) -> (r: bool)
        ensures
            r == self.spec_is_8bit(),
    {
        match self {
            Reg::Al | Reg::Cl | Reg::Dl | Reg::Bl => true,
            _ => false,
        }
    }

    /// Returns the natural word size of this register in bytes.
    pub fn word_size(self) -> (r: u8)
        ensures
            r == (if self.spec_is_8bit() { 4u8 } else { 8u8 }),
    {
        if self.is_64bit() {
            8
        } else {
            4
        }
    }
}

#[derive(Clone, Copy, Debug, PartialEq, Eq, Structural)]
/// x86-64 SSE register.
pub enum XmmReg {
    /// The `xmm0` register.
    Xmm0,
    /// The `xmm1` register.
    Xmm1,
    /// The `xmm2` register.
    Xmm2,
    /// The `xmm3` register.
    Xmm3,
    /// The `xmm4` register.
    Xmm4,
    /// The `xmm5` register.
    Xmm5,
    /// The `xmm6` register.
    Xmm6,
    /// The `xmm7` register.
    Xmm7,
    /// The `xmm8` register.
    Xmm8,
    /// The `xmm9` register.
    Xmm9,
    /// The `xmm10` register.
    Xmm10,
    /// The `xmm11` register.
    Xmm11,
    /// The `xmm12` register.
    Xmm12,
    /// The `xmm13` register.
    Xmm13,
    /// The `xmm14` register.
    Xmm14,
    /// The `xmm15` register.
    Xmm15,
}

impl XmmReg {
    /// The architectural encoding of an SSE register.
    pub open spec fn spec_encode(self) -> u8 {
        match self {
            XmmReg::Xmm0 => 0,
            XmmReg::Xmm1 => 1,
            XmmReg::Xmm2 => 2,
            XmmReg::Xmm3 => 3,
            XmmReg::Xmm4 => 4,
            XmmReg::Xmm5 => 5,
            XmmReg::Xmm6 => 6,
            XmmReg::Xmm7 => 7,
            XmmReg::Xmm8 => 8,
            XmmReg::Xmm9 => 9,
            XmmReg::Xmm10 => 10,
            XmmReg::Xmm11 => 11,
            XmmReg::Xmm12 => 12,
            XmmReg::Xmm13 => 13,
            XmmReg::Xmm14 => 14,
            XmmReg::Xmm15 => 15,
        }
    }

    /// Returns the architectural encoding for this SIMD register.
    #[verifier::when_used_as_spec(spec_encode)]
    pub fn encode(self) -> (r: u8)
        ensures
            r == self.spec_encode(),
    {
        match self {
            XmmReg::Xmm0 => 0,
            XmmReg::Xmm1 => 1,
            XmmReg::Xmm2 => 2,
            XmmReg::Xmm3 => 3,
            XmmReg::Xmm4 => 4,
            XmmReg::Xmm5 => 5,
            XmmReg::Xmm6 => 6,
            XmmReg::Xmm7 => 7,
            XmmReg::Xmm8 => 8,
            XmmReg::Xmm9 => 9,
            XmmReg::Xmm10 => 10,
            XmmReg::Xmm11 => 11,
            XmmReg::Xmm12 => 12,
            XmmReg::Xmm13 => 13,
            XmmReg::Xmm14 => 14,
            XmmReg::Xmm15 => 15,
        }
    }
}

#[derive(Clone, Copy, Debug, PartialEq, Eq, Structural)]
/// x86-64 condition codes for conditional instructions.
pub enum Condition {
    /// Overflow flag is set.
    Overflow,
    /// Overflow flag is clear.
    NotOverflow,
    /// Unsigned comparison is below.
    Below,
    /// Unsigned comparison is above or equal.
    AboveOrEqual,
    /// Comparison is equal.
    Equal,
    /// Comparison is not equal.
    NotEqual,
    /// Unsigned comparison is below or equal.
    BelowOrEqual,
    /// Unsigned comparison is above.
    Above,
    /// Sign flag is set.
    Sign,
    /// Sign flag is clear.
    NotSign,
    /// Parity flag is set.
    Parity,
    /// Parity flag is clear.
    NotParity,
    /// Signed comparison is less than.
    LessSigned,
    /// Signed comparison is greater than or equal.
    GreaterOrEqualSigned,
    /// Signed comparison is less than or equal.
    LessOrEqualSigned,
    /// Signed comparison is greater than.
    GreaterSigned,
}

impl Condition {
    /// The four-bit condition-code field of a condition.
    pub open spec fn spec_encode(self) -> u8 {
        match self {
            Condition::Overflow => 0x0,
            Condition::NotOverflow => 0x1,
            Condition::Below => 0x2,
            Condition::AboveOrEqual => 0x3,
            Condition::Equal => 0x4,
            Condition::NotEqual => 0x5,
            Condition::BelowOrEqual => 0x6,
            Condition::Above => 0x7,
            Condition::Sign => 0x8,
            Condition::NotSign => 0x9,
            Condition::Parity => 0xA,
            Condition::NotParity => 0xB,
            Condition::LessSigned => 0xC,
            Condition::GreaterOrEqualSigned => 0xD,
            Condition::LessOrEqualSigned => 0xE,
            Condition::GreaterSigned => 0xF,
        }
    }

    /// Returns the machine-code encoding for this condition code.
    #[verifier::when_used_as_spec(spec_encode)]
    pub fn encode(self) -> (r: u8)
        ensures
            r == self.spec_encode(),
            r < 16,
    {
        match self {
            Condition::Overflow => 0x0,
            Condition::NotOverflow => 0x1,
            Condition::Below => 0x2,
            Condition::AboveOrEqual => 0x3,
            Condition::Equal => 0x4,
            Condition::NotEqual => 0x5,
            Condition::BelowOrEqual => 0x6,
            Condition::Above => 0x7,
            Condition::Sign => 0x8,
            Condition::NotSign => 0x9,
            Condition::Parity => 0xA,
            Condition::NotParity => 0xB,
            Condition::LessSigned => 0xC,
            Condition::GreaterOrEqualSigned => 0xD,
            Condition::LessOrEqualSigned => 0xE,
            Condition::GreaterSigned => 0xF,
        }
    }
}


/// Whether either operand is an 8-bit register.
pub open spec fn any_8bit(a: Reg, b: Reg) -> bool {
    a.spec_is_8bit() || b.spec_is_8bit()
}

/// Whether a register is used as a 64-bit register.
pub open spec fn wide(r: Reg) -> bool {
    !r.spec_is_8bit()
}

/// Whether either operand needs the extended-register bits.
pub open spec fn needs_ext(a: Reg, b: Reg) -> bool {
    a.spec_encode() >= 8 || b.spec_encode() >= 8
}

/// The register-register ModR/M byte for `dst, src`.
pub open spec fn rr_modrm(dst: Reg, src: Reg) -> u8 {
    modrm_byte(0x03, dst.spec_encode(), src.spec_encode())
}

/// Bytes of the `add`/`sub`/`cmp` register-register forms.
pub open spec fn arith_rr_bytes(op8: u8, op64: u8, dst: Reg, src: Reg) -> Seq<u8> {
    if any_8bit(dst, src) {
        seq![rex_byte(false, false, false, false), op8, rr_modrm(dst, src)]
    } else {
        seq![
            rex_byte(wide(dst), false, needs_ext(dst, src), needs_ext(dst, src)),
            op64,
            rr_modrm(dst, src),
        ]
    }
}

/// Bytes of the `imul`/`xor`/`or`/`and`/`test` register-register forms.
pub open spec fn logic_rr_bytes(op8: u8, op64: u8, dst: Reg, src: Reg) -> Seq<u8> {
    if any_8bit(dst, src) {
        seq![rex_byte(false, false, wide(dst), wide(src)), op8, rr_modrm(dst, src)]
    } else {
        seq![rex_byte(wide(dst), false, wide(dst), wide(src)), op64, rr_modrm(dst, src)]
    }
}

/// Bytes of `mov dst, src`.
pub open spec fn mov_rr_bytes(dst: Reg, src: Reg) -> Seq<u8> {
    if any_8bit(dst, src) {
        seq![0x88u8, rr_modrm(dst, src)]
    } else {
        seq![
            rex_byte(wide(dst), false, needs_ext(dst, src), needs_ext(dst, src)),
            0x89u8,
            rr_modrm(dst, src),
        ]
    }
}

/// Bytes of a shift or rotate by an immediate, with opcode extension `ext`.
pub open spec fn shift_ri_bytes(ext: u8, dst: Reg, imm: u8) -> Seq<u8> {
    seq![
        rex_byte(wide(dst), false, false, false),
        if dst.spec_is_8bit() { 0xC0u8 } else { 0xC1u8 },
        modrm_byte(0x03, ext, dst.spec_encode()),
        imm & 0x1Fu8,
    ]
}

/// Bytes of a unary group-3 instruction (`not`, `neg`) with extension `ext`.
pub open spec fn unary_bytes(ext: u8, dst: Reg) -> Seq<u8> {
    seq![
        rex_byte(wide(dst), false, false, false),
        if dst.spec_is_8bit() { 0xF6u8 } else { 0xF7u8 },
        modrm_byte(0x03, ext, dst.spec_encode()),
    ]
}

/// The operand width of a group-3 instruction (`not`, `neg`, ...) after
/// the REX prefix `rex`, as the Intel manual gives it: opcode `F6` acts on
/// a byte register, `F7` on a 64-bit register when REX.W is set and on a
/// 32-bit one otherwise.
pub open spec fn group3_width(rex: u8, opcode: u8) -> nat {
    if opcode == 0xF6 {
        8
    } else if opcode == 0xF7 {
        if rex & 0x08u8 != 0 {
            64
        } else {
            32
        }
    } else {
        0
    }
}

/// The width of a register: 8 bits for the byte registers, else 64.
pub open spec fn reg_width(r: Reg) -> nat {
    if r.spec_is_8bit() {
        8
    } else {
        64
    }
}

/// `not` and `neg` act on the whole of their register: the instruction
/// is a REX prefix and a group-3 opcode whose operand width is the
/// register's width.
pub proof fn lemma_unary_width(ext: u8, dst: Reg)
    ensures
        unary_bytes(ext, dst).len() == 3,
        unary_bytes(ext, dst)[0] & 0xF0u8 == 0x40u8,
        group3_width(unary_bytes(ext, dst)[0], unary_bytes(ext, dst)[1]) == reg_width(dst),
{
    assert(0x40u8 | 0x08u8 | 0u8 | 0u8 | 0u8 == 0x48u8) by (bit_vector);
    assert(0x40u8 | 0u8 | 0u8 | 0u8 | 0u8 == 0x40u8) by (bit_vector);
    assert(0x48u8 & 0x08u8 != 0u8) by (bit_vector);
    assert(0x48u8 & 0xF0u8 == 0x40u8) by (bit_vector);
    assert(0x40u8 & 0xF0u8 == 0x40u8) by (bit_vector);
}

/// Bytes of an ALU instruction with a 32-bit immediate and extension `ext`.
pub open spec fn alu_ri_bytes(ext: u8, dst: Reg, imm: i32) -> Seq<u8> {
    seq![
        if dst.spec_is_8bit() {
            rex_byte(false, false, false, false)
        } else {
            rex_byte(wide(dst), false, false, false)
        },
        if dst.spec_is_8bit() { 0x80u8 } else { 0x81u8 },
        modrm_byte(0x03, ext, dst.spec_encode()),
    ] + le32(imm as u32)
}

/// Bytes of the stack-pointer adjustments, `sub rsp` (`op` = 0xEC) and
/// `add rsp` (`op` = 0xC4).
pub open spec fn rsp_adjust_bytes(op: u8, imm: u8) -> Seq<u8> {
    if imm == 0 {
        seq![]
    } else if imm <= 127 {
        seq![0x40u8, 0x48u8, 0x83u8, op, imm]
    } else {
        seq![0x40u8, 0x48u8, 0x81u8, op] + le32(imm as u32)
    }
}

/// Bytes of `push`/`pop` of a register, with base opcode `base`.
pub open spec fn push_pop_bytes(base: u8, r: Reg) -> Seq<u8> {
    if wide(r) && r != Reg::Rsp && r != Reg::Rbp {
        seq![rex_byte(true, false, false, false), base | r.spec_encode()]
    } else {
        seq![base | r.spec_encode()]
    }
}

/// Bytes of `movzx`/`movsx` with second opcode byte `op`.
pub open spec fn move_extend_bytes(op: u8, dst: Reg, src: Reg) -> Seq<u8> {
    seq![rex_byte(wide(dst), false, wide(dst), wide(src)), 0x0Fu8, op, rr_modrm(dst, src)]
}

/// Bytes of `mov dst, imm` in its 8-bit, 32-bit and 64-bit forms.
pub open spec fn mov_ra_bytes(dst: Reg, imm: u64) -> Seq<u8> {
    let opcode: u8 = if dst.spec_is_8bit() { 0xB0u8 } else { 0xB8u8 };
    let prefix = if wide(dst) {
        rex_byte(true, false, false, false)
    } else {
        rex_byte(false, false, false, false)
    };
    seq![prefix, opcode | dst.spec_encode()] + if wide(dst) {
        le64(imm)
    } else {
        le32(imm as u32)
    }
}

/// Bytes of an instruction that takes a memory operand: prefix and opcode,
/// the address bytes, and the displacement repeated after them.
pub open spec fn mem_op_bytes(prefix: Seq<u8>, a: Address) -> Seq<u8> {
    prefix + address_modrm_bytes(a) + trailing_disp_bytes(a)
}

/// Bytes of `mov dst, [addr]`.
pub open spec fn mov_rm_bytes(dst: Reg, a: Address) -> Seq<u8> {
    mem_op_bytes(
        if dst.spec_is_8bit() {
            seq![0x8Au8]
        } else {
            seq![rex_byte(wide(dst), false, wide(dst), false), 0x8Bu8]
        },
        a,
    )
}

/// Bytes of `mov [addr], src`.
pub open spec fn mov_mr_bytes(a: Address, src: Reg) -> Seq<u8> {
    mem_op_bytes(
        if src.spec_is_8bit() {
            seq![0x88u8]
        } else {
            seq![rex_byte(wide(src), false, false, wide(src)), 0x89u8]
        },
        a,
    )
}

/// Bytes of a shift by `cl` with extension `ext` (preceded by `mov rcx, rcx`).
pub open spec fn shift_cl_bytes(ext: u8, dst: Reg) -> Seq<u8> {
    mov_rr_bytes(Reg::Rcx, Reg::Rcx) + seq![0xD3u8, modrm_byte(0x03, ext, dst.spec_encode())]
}

/// Bytes of `mov r32, imm32`.
pub open spec fn mov_ri32_bytes(dst: Reg, imm: u32) -> Seq<u8> {
    seq![0xB8u8 | dst.spec_encode()] + le32(imm)
}

/// Bytes of `jcc rel8`.
pub open spec fn jcc_rel8_bytes(cond: Condition, offset: i8) -> Seq<u8> {
    seq![0x70u8 | cond.spec_encode(), offset as u8]
}

/// Bytes of `jcc rel32`.
pub open spec fn jcc_rel32_bytes(cond: Condition, offset: i32) -> Seq<u8> {
    seq![0x0Fu8, 0x80u8 | cond.spec_encode()] + le32(offset as u32)
}

/// Bytes of `jmp rel32`.
pub open spec fn jmp_rel32_bytes(offset: i32) -> Seq<u8> {
    seq![0xE9u8] + le32(offset as u32)
}

/// Bytes of the signed 64-bit `idiv`.
pub open spec fn div_i64_bytes(r: Reg) -> Seq<u8> {
    seq![rex_byte(true, false, false, wide(r)), 0xF7u8, modrm_byte(0x03, 0x07, r.spec_encode())]
}

/// Bytes of the unsigned 64-bit `div`.
pub open spec fn div_u64_bytes(r: Reg) -> Seq<u8> {
    seq![rex_byte(false, false, false, wide(r)), 0xF7u8, modrm_byte(0x03, 0x06, r.spec_encode())]
}

/// Bytes of the signed 32-bit `idiv`.
pub open spec fn div_i32_bytes(r: Reg) -> Seq<u8> {
    seq![0xF7u8, modrm_byte(0x03, r.spec_encode(), 0x07)]
}

/// Bytes of the unsigned 32-bit `div`.
pub open spec fn div_u32_bytes(r: Reg) -> Seq<u8> {
    seq![0xF7u8, modrm_byte(0x03, r.spec_encode(), 0x06)]
}

/// Bytes of `cqo`.
pub open spec fn cqo_bytes() -> Seq<u8> {
    seq![rex_byte(true, false, false, false), 0x99u8]
}

/// Machine code emitter.
pub struct Emitter {
    /// The generated code buffer.
    code: Vec<u8>,
}

impl View for Emitter {
    type V = Seq<u8>;

    /// The bytes emitted so far.
    closed spec fn view(&self) -> Seq<u8> {
        self.code@
    }
}

impl Emitter {
    /// Creates an emitter with an empty code buffer.
    pub fn new() -> (e: Self)
        ensures
            e@ == Seq::<u8>::empty(),
    {
        Self { code: Vec::new() }
    }

    /// Creates an empty emitter whose buffer is preallocated.
    pub fn with_capacity(capacity: usize) -> (e: Self)
        ensures
            e@ == Seq::<u8>::empty(),
    {
        Self { code: Vec::with_capacity(capacity) }
    }

    /// Returns the generated machine code buffer.
    pub fn code(&self) -> (c: &[u8])
        ensures
            c@ == self@,
    {
        self.code.as_slice()
    }

    /// Returns the generated machine code buffer mutably.
    pub fn code_mut(&mut self) -> (c: &mut Vec<u8>)
        ensures
            c@ == old(self)@,
            final(self)@ == final(c)@,
    {
        &mut self.code
    }

    /// Returns the generated code, consuming the emitter.
    pub fn take_code(self) -> (c: Vec<u8>)
        ensures
            c@ == self@,
    {
        self.code
    }

    /// Returns the number of bytes emitted so far.
    pub fn len(&self) -> (n: usize)
        ensures
            n == self@.len(),
    {
        self.code.len()
    }

    /// Emits one raw byte.
    pub fn emit_byte(&mut self, byte: u8)
        ensures
            final(self)@ == old(self)@.push(byte),
    {
        self.code.push(byte);
    }

    /// Emits a REX prefix.
    pub fn emit_rex(&mut self, w: bool, x: bool, b: bool, r: bool)
        ensures
            final(self)@ == old(self)@.push(rex_byte(w, x, b, r)),
    {
        let byte: u8 = 0x40 | (if w { 0x08 } else { 0 }) | (if x { 0x04 } else { 0 }) | (if b {
            0x01
        } else {
            0
        }) | (if r { 0x02 } else { 0 });
        self.code.push(byte);
    }

    /// Emits a ModR/M byte.
    pub fn emit_modrm(&mut self, mod_: u8, rm: u8, reg: u8)
        ensures
            final(self)@ == old(self)@.push(modrm_byte(mod_, rm, reg)),
    {
        self.code.push((mod_ << 6) | (reg << 3) | rm);
    }

    /// Emits `mov dst, src`.
    pub fn emit_mov_rr(&mut self, dst: Reg, src: Reg)
        ensures
            final(self)@ == old(self)@ + mov_rr_bytes(dst, src),
    {
        if dst.is_8bit() || src.is_8bit() {
            self.code.push(0x88);
        } else {
            let need_rex = dst.encode() >= 8 || src.encode() >= 8;
            self.emit_rex(dst.is_64bit(), false, need_rex, need_rex);
            self.code.push(0x89);
        }
        self.emit_modrm(0x03, dst.encode(), src.encode());
        proof {
            assert(final(self)@ =~= old(self)@ + mov_rr_bytes(dst, src));
        }
    }

    /// Emits `mov dst, imm`.
    pub fn emit_mov_ra(&mut self, dst: Reg, imm: u64)
        ensures
            final(self)@ == old(self)@ + mov_ra_bytes(dst, imm),
    {
        let opcode: u8 = if dst.is_8bit() {
            0xB0
        } else {
            0xB8
        };
        let enc = dst.encode();
        if dst.is_64bit() {
            self.emit_rex(true, false, false, false);
        } else {
            self.emit_rex(false, false, false, false);
        }
        self.code.push(opcode | enc);
        if dst.is_64bit() {
            push_u64_le(&mut self.code, imm);
        } else {
            push_u32_le(&mut self.code, imm as u32);
        }
        proof {
            assert(final(self)@ =~= old(self)@ + mov_ra_bytes(dst, imm));
        }
    }

    /// Emits `mov dst, [addr]`.
    pub fn emit_mov_rm(&mut self, dst: Reg, addr: &Address)
        ensures
            final(self)@ == old(self)@ + mov_rm_bytes(dst, *addr),
    {
        if dst.is_8bit() {
            self.code.push(0x8A);
        } else {
            self.emit_rex(dst.is_64bit(), false, dst.is_64bit(), false);
            self.code.push(0x8B);
        }
        addr.emit_modrm(&mut self.code, dst.encode());
        if let Some(disp) = addr.displacement {
            push_u32_le(&mut self.code, disp as u32);
        }
        proof {
            assert(final(self)@ =~= old(self)@ + mov_rm_bytes(dst, *addr));
        }
    }

    /// Emits `mov [addr], src`.
    pub fn emit_mov_mr(&mut self, addr: &Address, src: Reg)
        ensures
            final(self)@ == old(self)@ + mov_mr_bytes(*addr, src),
    {
        if src.is_8bit() {
            self.code.push(0x88);
        } else {
            self.emit_rex(src.is_64bit(), false, false, src.is_64bit());
            self.code.push(0x89);
        }
        addr.emit_modrm(&mut self.code, src.encode());
        if let Some(disp) = addr.displacement {
            push_u32_le(&mut self.code, disp as u32);
        }
        proof {
            assert(final(self)@ =~= old(self)@ + mov_mr_bytes(*addr, src));
        }
    }

    /// Emits an `add`/`sub`/`cmp`-style register-register instruction.
    fn emit_arith_rr(&mut self, op8: u8, op64: u8, dst: Reg, src: Reg)
        ensures
            final(self)@ == old(self)@ + arith_rr_bytes(op8, op64, dst, src),
    {
        let opcode: u8 = if dst.is_8bit() || src.is_8bit() {
            op8
        } else {
            op64
        };
        if dst.is_8bit() || src.is_8bit() {
            self.emit_rex(false, false, false, false);
        } else {
            let need_rex = dst.encode() >= 8 || src.encode() >= 8;
            self.emit_rex(dst.is_64bit(), false, need_rex, need_rex);
        }
        self.code.push(opcode);
        self.emit_modrm(0x03, dst.encode(), src.encode());
        proof {
            assert(final(self)@ =~= old(self)@ + arith_rr_bytes(op8, op64, dst, src));
        }
    }

    /// Emits a `mul`/`xor`/`or`/`and`/`test`-style register-register instruction.
    fn emit_logic_rr(&mut self, op8: u8, op64: u8, dst: Reg, src: Reg)
        ensures
            final(self)@ == old(self)@ + logic_rr_bytes(op8, op64, dst, src),
    {
        let opcode: u8 = if dst.is_8bit() || src.is_8bit() {
            op8
        } else {
            op64
        };
        if dst.is_8bit() || src.is_8bit() {
            self.emit_rex(false, false, dst.is_64bit(), src.is_64bit());
        } else {
            self.emit_rex(dst.is_64bit(), false, dst.is_64bit(), src.is_64bit());
        }
        self.code.push(opcode);
        self.emit_modrm(0x03, dst.encode(), src.encode());
        proof {
            assert(final(self)@ =~= old(self)@ + logic_rr_bytes(op8, op64, dst, src));
        }
    }

    /// Emits `add dst, src`.
    pub fn emit_add_rr(&mut self, dst: Reg, src: Reg)
        ensures
            final(self)@ == old(self)@ + arith_rr_bytes(0x00, 0x01, dst, src),
    {
        self.emit_arith_rr(0x00, 0x01, dst, src);
    }

    /// Emits `sub dst, src`.
    pub fn emit_sub_rr(&mut self, dst: Reg, src: Reg)
        ensures
            final(self)@ == old(self)@ + arith_rr_bytes(0x28, 0x29, dst, src),
    {
        self.emit_arith_rr(0x28, 0x29, dst, src);
    }

    /// Emits `imul dst, src`.
    pub fn emit_mul_rr(&mut self, dst: Reg, src: Reg)
        ensures
            final(self)@ == old(self)@ + logic_rr_bytes(0x0A, 0x0B, dst, src),
    {
        self.emit_logic_rr(0x0A, 0x0B, dst, src);
    }

    /// Emits `xor dst, src`.
    pub fn emit_xor_rr(&mut self, dst: Reg, src: Reg)
        ensures
            final(self)@ == old(self)@ + logic_rr_bytes(0x30, 0x31, dst, src),
    {
        self.emit_logic_rr(0x30, 0x31, dst, src);
    }

    /// Emits `or dst, src`.
    pub fn emit_or_rr(&mut self, dst: Reg, src: Reg)
        ensures
            final(self)@ == old(self)@ + logic_rr_bytes(0x08, 0x09, dst, src),
    {
        self.emit_logic_rr(0x08, 0x09, dst, src);
    }

    /// Emits `and dst, src`.
    pub fn emit_and_rr(&mut self, dst: Reg, src: Reg)
        ensures
            final(self)@ == old(self)@ + logic_rr_bytes(0x20, 0x21, dst, src),
    {
        self.emit_logic_rr(0x20, 0x21, dst, src);
    }

    /// Emits `cmp dst, src`.
    pub fn emit_cmp_rr(&mut self, dst: Reg, src: Reg)
        ensures
            final(self)@ == old(self)@ + arith_rr_bytes(0x38, 0x39, dst, src),
    {
        self.emit_arith_rr(0x38, 0x39, dst, src);
    }

    /// Emits `test dst, src`.
    pub fn emit_test_rr(&mut self, dst: Reg, src: Reg)
        ensures
            final(self)@ == old(self)@ + logic_rr_bytes(0x84, 0x85, dst, src),
    {
        self.emit_logic_rr(0x84, 0x85, dst, src);
    }

    /// Emits a shift or rotate by an immediate with opcode extension `ext`.
    fn emit_shift_ri(&mut self, ext: u8, dst: Reg, imm: u8)
        ensures
            final(self)@ == old(self)@ + shift_ri_bytes(ext, dst, imm),
    {
        let opcode: u8 = if dst.is_8bit() {
            0xC0
        } else {
            0xC1
        };
        self.emit_rex(dst.is_64bit(), false, false, false);
        self.code.push(opcode);
        self.emit_modrm(0x03, ext, dst.encode());
        self.code.push(imm & 0x1F);
        proof {
            assert(final(self)@ =~= old(self)@ + shift_ri_bytes(ext, dst, imm));
        }
    }

    /// Emits `shl dst, imm`.
    pub fn emit_shl_ri(&mut self, dst: Reg, imm: u8)
        ensures
            final(self)@ == old(self)@ + shift_ri_bytes(0x04, dst, imm),
    {
        self.emit_shift_ri(0x04, dst, imm);
    }

    /// Emits `shr dst, imm`.
    pub fn emit_shr_ri(&mut self, dst: Reg, imm: u8)
        ensures
            final(self)@ == old(self)@ + shift_ri_bytes(0x05, dst, imm),
    {
        self.emit_shift_ri(0x05, dst, imm);
    }

    /// Emits `sar dst, imm`.
    pub fn emit_sar_ri(&mut self, dst: Reg, imm: u8)
        ensures
            final(self)@ == old(self)@ + shift_ri_bytes(0x07, dst, imm),
    {
        self.emit_shift_ri(0x07, dst, imm);
    }

    /// Emits `rol dst, imm`.
    pub fn emit_rol_ri(&mut self, dst: Reg, imm: u8)
        ensures
            final(self)@ == old(self)@ + shift_ri_bytes(0x00, dst, imm),
    {
        self.emit_shift_ri(0x00, dst, imm);
    }

    /// Emits `ror dst, imm`.
    pub fn emit_ror_ri(&mut self, dst: Reg, imm: u8)
        ensures
            final(self)@ == old(self)@ + shift_ri_bytes(0x01, dst, imm),
    {
        self.emit_shift_ri(0x01, dst, imm);
    }

    /// Emits a group-3 unary instruction with opcode extension `ext`.
    fn emit_unary(&mut self, ext: u8, dst: Reg)
        ensures
            final(self)@ == old(self)@ + unary_bytes(ext, dst),
    {
        let opcode: u8 = if dst.is_8bit() {
            0xF6
        } else {
            0xF7
        };
        self.emit_rex(dst.is_64bit(), false, false, false);
        self.code.push(opcode);
        self.emit_modrm(0x03, ext, dst.encode());
        proof {
            assert(final(self)@ =~= old(self)@ + unary_bytes(ext, dst));
        }
    }

    /// Emits `not dst`.
    pub fn emit_not(&mut self, dst: Reg)
        ensures
            final(self)@ == old(self)@ + unary_bytes(0x02, dst),
    {
        self.emit_unary(0x02, dst);
    }

    /// Emits `neg dst`.
    pub fn emit_neg(&mut self, dst: Reg)
        ensures
            final(self)@ == old(self)@ + unary_bytes(0x03, dst),
    {
        self.emit_unary(0x03, dst);
    }

    /// Emits `jmp rel32`.
    pub fn emit_jmp_rel32(&mut self, offset: i32)
        ensures
            final(self)@ == old(self)@ + jmp_rel32_bytes(offset),
    {
        self.code.push(0xE9);
        push_u32_le(&mut self.code, offset as u32);
        proof {
            assert(final(self)@ =~= old(self)@ + jmp_rel32_bytes(offset));
        }
    }

    /// Emits `jmp rel8`.
    pub fn emit_jmp_rel8(&mut self, offset: i8)
        ensures
            final(self)@ == old(self)@ + seq![0xEBu8, offset as u8],
    {
        self.code.push(0xEB);
        self.code.push(offset as u8);
        proof {
            assert(final(self)@ =~= old(self)@ + seq![0xEBu8, offset as u8]);
        }
    }

    /// Emits `jcc rel32`.
    pub fn emit_jcc_rel32(&mut self, cond: Condition, offset: i32)
        ensures
            final(self)@ == old(self)@ + jcc_rel32_bytes(cond, offset),
    {
        self.code.push(0x0F);
        self.code.push(0x80 | cond.encode());
        push_u32_le(&mut self.code, offset as u32);
        proof {
            assert(final(self)@ =~= old(self)@ + jcc_rel32_bytes(cond, offset));
        }
    }

    /// Emits `jcc rel8`.
    pub fn emit_jcc_rel8(&mut self, cond: Condition, offset: i8)
        ensures
            final(self)@ == old(self)@ + jcc_rel8_bytes(cond, offset),
    {
        self.code.push(0x70 | cond.encode());
        self.code.push(offset as u8);
        proof {
            assert(final(self)@ =~= old(self)@ + jcc_rel8_bytes(cond, offset));
        }
    }

    /// Emits `call rel32`.
    pub fn emit_call_rel32(&mut self, offset: i32)
        ensures
            final(self)@ == old(self)@ + seq![0xE8u8] + le32(offset as u32),
    {
        self.code.push(0xE8);
        push_u32_le(&mut self.code, offset as u32);
        proof {
            assert(final(self)@ =~= old(self)@ + seq![0xE8u8] + le32(offset as u32));
        }
    }

    /// Emits `ret`.
    pub fn emit_ret(&mut self)
        ensures
            final(self)@ == old(self)@.push(0xC3u8),
    {
        self.code.push(0xC3);
    }

    /// Emits `ret imm16`.
    pub fn emit_ret_imm(&mut self, imm: u16)
        ensures
            final(self)@ == old(self)@ + seq![0xC2u8] + le16(imm),
    {
        self.code.push(0xC2);
        push_u16_le(&mut self.code, imm);
        proof {
            assert(final(self)@ =~= old(self)@ + seq![0xC2u8] + le16(imm));
        }
    }

    /// Emits `pop dst`.
    pub fn emit_pop(&mut self, dst: Reg)
        ensures
            final(self)@ == old(self)@ + push_pop_bytes(0x58, dst),
    {
        let is_stack_reg = match dst {
            Reg::Rsp | Reg::Rbp => true,
            _ => false,
        };
        if dst.is_64bit() && !is_stack_reg {
            self.emit_rex(true, false, false, false);
        }
        self.code.push(0x58 | dst.encode());
        proof {
            assert(final(self)@ =~= old(self)@ + push_pop_bytes(0x58, dst));
        }
    }

    /// Emits `push src`.
    pub fn emit_push(&mut self, src: Reg)
        ensures
            final(self)@ == old(self)@ + push_pop_bytes(0x50, src),
    {
        let is_stack_reg = match src {
            Reg::Rsp | Reg::Rbp => true,
            _ => false,
        };
        if src.is_64bit() && !is_stack_reg {
            self.emit_rex(true, false, false, false);
        }
        self.code.push(0x50 | src.encode());
        proof {
            assert(final(self)@ =~= old(self)@ + push_pop_bytes(0x50, src));
        }
    }

    /// Emits `push imm32`.
    pub fn emit_push_imm32(&mut self, imm: i32)
        ensures
            final(self)@ == old(self)@ + seq![0x68u8] + le32(imm as u32),
    {
        self.code.push(0x68);
        push_u32_le(&mut self.code, imm as u32);
        proof {
            assert(final(self)@ =~= old(self)@ + seq![0x68u8] + le32(imm as u32));
        }
    }

    /// Emits `push imm32` with the low four bytes of a 64-bit immediate.
    pub fn emit_push_imm64(&mut self, imm: i64)
        ensures
            final(self)@ == old(self)@ + seq![0x68u8] + le32(imm as u32),
    {
        self.code.push(0x68);
        push_u32_le(&mut self.code, imm as u32);
        proof {
            assert(final(self)@ =~= old(self)@ + seq![0x68u8] + le32(imm as u32));
        }
    }

    /// Emits `cdq`.
    pub fn emit_cdq(&mut self)
        ensures
            final(self)@ == old(self)@.push(0x99u8),
    {
        self.code.push(0x99);
    }

    /// Emits `cqo`.
    pub fn emit_cqo(&mut self)
        ensures
            final(self)@ == old(self)@ + cqo_bytes(),
    {
        self.emit_rex(true, false, false, false);
        self.code.push(0x99);
        proof {
            assert(final(self)@ =~= old(self)@ + cqo_bytes());
        }
    }

    /// Emits `movzx dst, src`.
    pub fn emit_movzx_rr(&mut self, dst: Reg, src: Reg)
        ensures
            final(self)@ == old(self)@ + move_extend_bytes(
                if src.spec_is_8bit() { 0xB6u8 } else { 0xB7u8 },
                dst,
                src,
            ),
    {
        let src_size: u8 = if src.is_8bit() {
            0xB6
        } else {
            0xB7
        };
        self.emit_rex(dst.is_64bit(), false, dst.is_64bit(), src.is_64bit());
        self.code.push(0x0F);
        self.code.push(src_size);
        self.emit_modrm(0x03, dst.encode(), src.encode());
        proof {
            assert(final(self)@ =~= old(self)@ + move_extend_bytes(src_size, dst, src));
        }
    }

    /// Emits `movsx dst, src`.
    pub fn emit_movsx_rr(&mut self, dst: Reg, src: Reg)
        ensures
            final(self)@ == old(self)@ + move_extend_bytes(
                if src.spec_is_8bit() { 0xBEu8 } else { 0xBFu8 },
                dst,
                src,
            ),
    {
        let src_size: u8 = if src.is_8bit() {
            0xBE
        } else {
            0xBF
        };
        self.emit_rex(dst.is_64bit(), false, dst.is_64bit(), src.is_64bit());
        self.code.push(0x0F);
        self.code.push(src_size);
        self.emit_modrm(0x03, dst.encode(), src.encode());
        proof {
            assert(final(self)@ =~= old(self)@ + move_extend_bytes(src_size, dst, src));
        }
    }

    /// Emits an ALU instruction with a 32-bit immediate and extension `ext`.
    fn emit_alu_ri(&mut self, ext: u8, dst: Reg, imm: i32)
        ensures
            final(self)@ == old(self)@ + alu_ri_bytes(ext, dst, imm),
    {
        let opcode: u8 = if dst.is_8bit() {
            0x80
        } else {
            0x81
        };
        if dst.is_8bit() {
            self.emit_rex(false, false, false, false);
        } else {
            self.emit_rex(dst.is_64bit(), false, false, false);
        }
        self.code.push(opcode);
        self.emit_modrm(0x03, ext, dst.encode());
        // The 64-bit form takes the low four bytes of the sign-extended
        // immediate, which are the bytes of the immediate itself.
        push_u32_le(&mut self.code, imm as u32);
        proof {
            assert(final(self)@ =~= old(self)@ + alu_ri_bytes(ext, dst, imm));
        }
    }

    /// Emits `add dst, imm32`.
    pub fn emit_add_ri(&mut self, dst: Reg, imm: i32)
        ensures
            final(self)@ == old(self)@ + alu_ri_bytes(0x00, dst, imm),
    {
        self.emit_alu_ri(0x00, dst, imm);
    }

    /// Emits `sub dst, imm32`.
    pub fn emit_sub_ri(&mut self, dst: Reg, imm: i32)
        ensures
            final(self)@ == old(self)@ + alu_ri_bytes(0x05, dst, imm),
    {
        self.emit_alu_ri(0x05, dst, imm);
    }

    /// Emits `and dst, imm32`.
    pub fn emit_and_ri(&mut self, dst: Reg, imm: i32)
        ensures
            final(self)@ == old(self)@ + alu_ri_bytes(0x04, dst, imm),
    {
        self.emit_alu_ri(0x04, dst, imm);
    }

    /// Emits `or dst, imm32`.
    pub fn emit_or_ri(&mut self, dst: Reg, imm: i32)
        ensures
            final(self)@ == old(self)@ + alu_ri_bytes(0x01, dst, imm),
    {
        self.emit_alu_ri(0x01, dst, imm);
    }

    /// Emits `xor dst, imm32`.
    pub fn emit_xor_ri(&mut self, dst: Reg, imm: i32)
        ensures
            final(self)@ == old(self)@ + alu_ri_bytes(0x06, dst, imm),
    {
        self.emit_alu_ri(0x06, dst, imm);
    }

    /// Emits `cmp dst, imm32`.
    pub fn emit_cmp_ri(&mut self, dst: Reg, imm: i32)
        ensures
            final(self)@ == old(self)@ + alu_ri_bytes(0x07, dst, imm),
    {
        self.emit_alu_ri(0x07, dst, imm);
    }

    /// Emits `lea dst, [addr]`.
    pub fn emit_lea(&mut self, dst: Reg, addr: &Address)
        ensures
            final(self)@ == old(self)@ + mem_op_bytes(
                seq![rex_byte(wide(dst), false, wide(dst), false), 0x8Du8],
                *addr,
            ),
    {
        self.emit_rex(dst.is_64bit(), false, dst.is_64bit(), false);
        self.code.push(0x8D);
        addr.emit_modrm(&mut self.code, dst.encode());
        if let Some(disp) = addr.displacement {
            push_u32_le(&mut self.code, disp as u32);
        }
        proof {
            assert(final(self)@ =~= old(self)@ + mem_op_bytes(
                seq![rex_byte(wide(dst), false, wide(dst), false), 0x8Du8],
                *addr,
            ));
        }
    }

    /// Emits a stack-pointer adjustment with ModR/M byte `op`.
    fn emit_rsp_adjust(&mut self, op: u8, imm: u8)
        ensures
            final(self)@ == old(self)@ + rsp_adjust_bytes(op, imm),
    {
        if imm == 0 {
            proof {
                assert(final(self)@ =~= old(self)@ + rsp_adjust_bytes(op, imm));
            }
            return;
        }
        self.emit_rex(false, false, false, false);
        if imm <= 127 {
            self.code.push(0x48);
            self.code.push(0x83);
            self.code.push(op);
            self.code.push(imm);
        } else {
            self.code.push(0x48);
            self.code.push(0x81);
            self.code.push(op);
            push_u32_le(&mut self.code, imm as u32);
        }
        proof {
            assert(rex_byte(false, false, false, false) == 0x40u8) by (bit_vector);
            assert(final(self)@ =~= old(self)@ + rsp_adjust_bytes(op, imm));
        }
    }

    /// Emits `sub rsp, imm` (nothing when `imm` is zero).
    pub fn emit_sub_rsp(&mut self, imm: u8)
        ensures
            final(self)@ == old(self)@ + rsp_adjust_bytes(0xEC, imm),
    {
        self.emit_rsp_adjust(0xEC, imm);
    }

    /// Emits `add rsp, imm` (nothing when `imm` is zero).
    pub fn emit_add_rsp(&mut self, imm: u8)
        ensures
            final(self)@ == old(self)@ + rsp_adjust_bytes(0xC4, imm),
    {
        self.emit_rsp_adjust(0xC4, imm);
    }

    /// Emits `nop`.
    pub fn emit_nop(&mut self)
        ensures
            final(self)@ == old(self)@.push(0x90u8),
    {
        self.code.push(0x90);
    }

    /// Emits `int3`.
    pub fn emit_int3(&mut self)
        ensures
            final(self)@ == old(self)@.push(0xCCu8),
    {
        self.code.push(0xCC);
    }

    /// Emits `syscall` (with a REX.W prefix).
    pub fn emit_syscall(&mut self)
        ensures
            final(self)@ == old(self)@ + seq![rex_byte(true, false, false, false), 0x0Fu8, 0x05u8],
    {
        self.emit_rex(true, false, false, false);
        self.code.push(0x0F);
        self.code.push(0x05);
        proof {
            assert(final(self)@ =~= old(self)@ + seq![
                rex_byte(true, false, false, false),
                0x0Fu8,
                0x05u8,
            ]);
        }
    }

    /// Emits the signed 64-bit `idiv divisor`.
    pub fn emit_div_i64(&mut self, divisor: Reg)
        ensures
            final(self)@ == old(self)@ + div_i64_bytes(divisor),
    {
        self.emit_rex(true, false, false, divisor.is_64bit());
        self.code.push(0xF7);
        self.emit_modrm(0x03, 0x07, divisor.encode());
        proof {
            assert(final(self)@ =~= old(self)@ + div_i64_bytes(divisor));
        }
    }

    /// Emits the unsigned 64-bit `div divisor`.
    pub fn emit_div_u64(&mut self, divisor: Reg)
        ensures
            final(self)@ == old(self)@ + div_u64_bytes(divisor),
    {
        self.emit_rex(false, false, false, divisor.is_64bit());
        self.code.push(0xF7);
        self.emit_modrm(0x03, 0x06, divisor.encode());
        proof {
            assert(final(self)@ =~= old(self)@ + div_u64_bytes(divisor));
        }
    }

    /// Emits the signed 32-bit `idiv divisor`.
    pub fn emit_div_i32(&mut self, divisor: Reg)
        ensures
            final(self)@ == old(self)@ + div_i32_bytes(divisor),
    {
        self.code.push(0xF7);
        self.emit_modrm(0x03, divisor.encode(), 0x07);
        proof {
            assert(final(self)@ =~= old(self)@ + div_i32_bytes(divisor));
        }
    }

    /// Emits the unsigned 32-bit `div divisor`.
    pub fn emit_div_u32(&mut self, divisor: Reg)
        ensures
            final(self)@ == old(self)@ + div_u32_bytes(divisor),
    {
        self.code.push(0xF7);
        self.emit_modrm(0x03, divisor.encode(), 0x06);
        proof {
            assert(final(self)@ =~= old(self)@ + div_u32_bytes(divisor));
        }
    }

    /// Emits a shift by `cl` with opcode extension `ext`.
    fn emit_shift_cl(&mut self, ext: u8, dst: Reg)
        ensures
            final(self)@ == old(self)@ + shift_cl_bytes(ext, dst),
    {
        self.emit_mov_rr(Reg::Rcx, Reg::Rcx);
        self.code.push(0xD3);
        self.emit_modrm(0x03, ext, dst.encode());
        proof {
            assert(final(self)@ =~= old(self)@ + shift_cl_bytes(ext, dst));
        }
    }

    /// Emits `shl dst, cl`.
    pub fn emit_shl_cl(&mut self, dst: Reg)
        ensures
            final(self)@ == old(self)@ + shift_cl_bytes(0x04, dst),
    {
        self.emit_shift_cl(0x04, dst);
    }

    /// Emits `shr dst, cl`.
    pub fn emit_shr_cl(&mut self, dst: Reg)
        ensures
            final(self)@ == old(self)@ + shift_cl_bytes(0x05, dst),
    {
        self.emit_shift_cl(0x05, dst);
    }

    /// Emits `sar dst, cl`.
    pub fn emit_sar_cl(&mut self, dst: Reg)
        ensures
            final(self)@ == old(self)@ + shift_cl_bytes(0x07, dst),
    {
        self.emit_shift_cl(0x07, dst);
    }

    /// Emits `mov r32, imm32`.
    pub fn emit_mov_ri32(&mut self, dst: Reg, imm: u32)
        ensures
            final(self)@ == old(self)@ + mov_ri32_bytes(dst, imm),
    {
        self.code.push(0xB8 | dst.encode());
        push_u32_le(&mut self.code, imm);
        proof {
            assert(final(self)@ =~= old(self)@ + mov_ri32_bytes(dst, imm));
        }
    }
}

impl Default for Emitter {
    fn default() -> (e: Self)
        ensures
            e@ == Seq::<u8>::empty(),
    {
        Self::new()
    }
}

} // verus!

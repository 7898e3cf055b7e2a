use vstd::prelude::*;
use crate::memory::CPUMemory;
use crate::ppu::Screen;
use crate::apu::Speaker;
use crate::controller::InputPoller;
use crate::utils::{
    put_u8, put_bool, put_u16, put_u32, get_u8, get_bool, get_u16, get_u32, enc_bool, enc_u16, enc_u32,
    dec_bool, dec_u16, dec_u32, lemma_dec_u8, lemma_dec_bool, lemma_dec_u16, lemma_dec_u32,
};

verus! {

pub const NMI_VECTOR: u16 = 0xfffa;
pub const RESET_VECTOR: u16 = 0xfffc;
pub const IRQ_VECTOR: u16 = 0xfffe;
pub const BRK_VECTOR: u16 = 0xfffe;
pub const CARRY_FLAG: u8 = 0x01;
pub const ZERO_FLAG: u8 = 0x02;
pub const INT_FLAG: u8 = 0x04;
pub const DEC_FLAG: u8 = 0x08;
pub const BRK_FLAG: u8 = 0x10;
pub const OVER_FLAG: u8 = 0x40;
pub const NEG_FLAG: u8 = 0x80;
/// Cycles an instruction's cost may pile up on the counter before the bus consumes them.
pub const CYCLE_LIMIT: u32 = 0x1000_0000;

/// The pending-interrupt slot.
#[derive(Copy, Clone, Debug, PartialEq, Eq, Structural)]
pub enum IntType {
    NMI,
    IRQ,
    /// an NMI to take after one more instruction
    DelayedNMI,
}

/// The 6502 core: registers, decode latches and the cycle credit the bus consumes.
pub struct CPU {
    pub a: u8,
    pub x: u8,
    pub y: u8,
    pub status: u8,
    pub pc: u16,
    pub sp: u8,
    /// accumulator addressing
    pub acc: bool,
    /// address of the current instruction's operand bytes
    pub opr: u16,
    /// effective address
    pub ea: u16,
    pub cycle: u32,
    pub int: Option<IntType>,
    /// the cycles the last `step` credited (base cost, page-cross and branch penalties)
    pub cost: u32,
}

/// Z and N from an 8-bit result, other flags kept.
pub open spec fn with_nz(status: u8, r: u8) -> u8 {
    (status & !(ZERO_FLAG | NEG_FLAG)) | (if r == 0 { ZERO_FLAG } else { 0 }) | (r & NEG_FLAG)
}

/// The stack slot `disp` bytes below the stack pointer.
pub open spec fn stack_addr(sp: u8, disp: u8) -> u16 {
    (sp.wrapping_sub(disp) as u16) | 0x0100
}

impl CPU {
    /// The registers and latches, leaving out the cycle credit and the interrupt slot that the
    /// bus may change during a memory access.
    pub open spec fn same_regs(&self, o: CPU) -> bool {
        &&& self.a == o.a
        &&& self.x == o.x
        &&& self.y == o.y
        &&& self.status == o.status
        &&& self.pc == o.pc
        &&& self.sp == o.sp
        &&& self.acc == o.acc
        &&& self.opr == o.opr
        &&& self.ea == o.ea
        &&& self.cost == o.cost
    }

    pub fn new() -> (r: Self)
        ensures
            r.a == 0 && r.x == 0 && r.y == 0 && r.pc == 0,
            r.sp == 0xfd && r.status == 0x34 && r.cycle == 0 && r.int.is_none(),
    {
        CPU {
            a: 0,
            x: 0,
            y: 0,
            status: 0x34,
            pc: 0,
            sp: 0xfd,
            acc: false,
            opr: 0,
            ea: 0,
            cycle: 0,
            int: None,
            cost: 0,
        }
    }

    pub fn get_carry(&self) -> (r: u8)
        ensures
            r == self.status & 1,
    {
        self.status & 1
    }

    pub fn get_zero(&self) -> (r: u8)
        ensures
            r == (self.status >> 1) & 1,
    {
        (self.status >> 1) & 1
    }

    pub fn get_int(&self) -> (r: u8)
        ensures
            r == (self.status >> 2) & 1,
    {
        (self.status >> 2) & 1
    }

    pub fn get_over(&self) -> (r: u8)
        ensures
            r == (self.status >> 6) & 1,
    {
        (self.status >> 6) & 1
    }

    pub fn get_neg(&self) -> (r: u8)
        ensures
            r == (self.status >> 7) & 1,
    {
        (self.status >> 7) & 1
    }

    pub fn get_pc(&self) -> (r: u16)
        ensures
            r == self.pc,
    {
        self.pc
    }

    pub fn get_a(&self) -> (r: u8)
        ensures
            r == self.a,
    {
        self.a
    }

    pub fn get_x(&self) -> (r: u8)
        ensures
            r == self.x,
    {
        self.x
    }

    pub fn get_y(&self) -> (r: u8)
        ensures
            r == self.y,
    {
        self.y
    }

    pub fn get_sp(&self) -> (r: u8)
        ensures
            r == self.sp,
    {
        self.sp
    }

    pub fn get_status(&self) -> (r: u8)
        ensures
            r == self.status,
    {
        self.status
    }

    /// One CPU cycle consumed by the bus.
    pub fn tick(&mut self)
        ensures
            *final(self) == (CPU {
                cycle: if old(self).cycle > 0 {
                    (old(self).cycle - 1) as u32
                } else {
                    0
                },
                ..*old(self)
            }),
    {
        if self.cycle > 0 {
            self.cycle = self.cycle - 1;
        }
    }

    pub fn trigger_nmi(&mut self)
        ensures
            *final(self) == (CPU { int: Some(IntType::NMI), ..*old(self) }),
    {
        self.int = Some(IntType::NMI);
    }

    pub fn trigger_delayed_nmi(&mut self)
        ensures
            *final(self) == (CPU { int: Some(IntType::DelayedNMI), ..*old(self) }),
    {
        self.int = Some(IntType::DelayedNMI);
    }

    /// Drops a pending NMI (an IRQ stays pending).
    pub fn suppress_nmi(&mut self)
        ensures
            *final(self) == (CPU {
                int: if old(self).int == Some(IntType::IRQ) {
                    old(self).int
                } else {
                    None
                },
                ..*old(self)
            }),
    {
        match self.int {
            Some(IntType::IRQ) => {},
            _ => {
                self.int = None;
            },
        }
    }

    /// Requests an IRQ, refused while the I flag is set; a pending NMI takes precedence, any
    /// other pending request gives way to it.
    pub fn trigger_irq(&mut self)
        ensures
            *final(self) == (CPU {
                int: if (old(self).status >> 2) & 1 != 0 {
                    old(self).int
                } else if old(self).int == Some(IntType::NMI) {
                    old(self).int
                } else {
                    Some(IntType::IRQ)
                },
                ..*old(self)
            }),
    {
        if self.get_int() == 0 {
            self.int = match self.int {
                Some(IntType::NMI) => Some(IntType::NMI),
                _ => Some(IntType::IRQ),
            };
        }
    }
}

/// Instruction length in bytes, by opcode.
pub const INST_LENGTH: [u8; 256] = [
    1, 2, 0, 0, 2, 2, 2, 0, 1, 2, 1, 0, 3, 3, 3, 0,
    2, 2, 0, 0, 2, 2, 2, 0, 1, 3, 1, 0, 3, 3, 3, 0,
    3, 2, 0, 0, 2, 2, 2, 0, 1, 2, 1, 0, 3, 3, 3, 0,
    2, 2, 0, 0, 2, 2, 2, 0, 1, 3, 1, 0, 3, 3, 3, 0,
    1, 2, 0, 0, 2, 2, 2, 0, 1, 2, 1, 0, 3, 3, 3, 0,
    2, 2, 0, 0, 2, 2, 2, 0, 1, 3, 1, 0, 3, 3, 3, 0,
    1, 2, 0, 0, 2, 2, 2, 0, 1, 2, 1, 0, 3, 3, 3, 0,
    2, 2, 0, 0, 2, 2, 2, 0, 1, 3, 1, 0, 3, 3, 3, 0,
    2, 2, 0, 0, 2, 2, 2, 0, 1, 0, 1, 0, 3, 3, 3, 0,
    2, 2, 0, 0, 2, 2, 2, 0, 1, 3, 1, 0, 0, 3, 0, 0,
    2, 2, 2, 0, 2, 2, 2, 0, 1, 2, 1, 0, 3, 3, 3, 0,
    2, 2, 0, 0, 2, 2, 2, 0, 1, 3, 1, 0, 3, 3, 3, 0,
    2, 2, 0, 0, 2, 2, 2, 0, 1, 2, 1, 0, 3, 3, 3, 0,
    2, 2, 0, 0, 2, 2, 2, 0, 1, 3, 1, 0, 3, 3, 3, 0,
    2, 2, 0, 0, 2, 2, 2, 0, 1, 2, 1, 0, 3, 3, 3, 0,
    2, 2, 0, 0, 2, 2, 2, 0, 1, 3, 1, 0, 3, 3, 3, 0,
];

/// Base cycle cost, by opcode.
pub const INST_CYCLE: [u8; 256] = [
    7, 6, 2, 8, 3, 3, 5, 5, 3, 2, 2, 2, 4, 4, 6, 6,
    2, 5, 2, 8, 4, 4, 6, 6, 2, 4, 2, 7, 4, 4, 7, 7,
    6, 6, 2, 8, 3, 3, 5, 5, 4, 2, 2, 2, 4, 4, 6, 6,
    2, 5, 2, 8, 4, 4, 6, 6, 2, 4, 2, 7, 4, 4, 7, 7,
    6, 6, 2, 8, 3, 3, 5, 5, 3, 2, 2, 2, 3, 4, 6, 6,
    2, 5, 2, 8, 4, 4, 6, 6, 2, 4, 2, 7, 4, 4, 7, 7,
    6, 6, 2, 8, 3, 3, 5, 5, 4, 2, 2, 2, 5, 4, 6, 6,
    2, 5, 2, 8, 4, 4, 6, 6, 2, 4, 2, 7, 4, 4, 7, 7,
    2, 6, 2, 6, 3, 3, 3, 3, 2, 2, 2, 2, 4, 4, 4, 4,
    2, 6, 2, 6, 4, 4, 4, 4, 2, 5, 2, 5, 5, 5, 5, 5,
    2, 6, 2, 6, 3, 3, 3, 3, 2, 2, 2, 2, 4, 4, 4, 4,
    2, 5, 2, 5, 4, 4, 4, 4, 2, 4, 2, 4, 4, 4, 4, 4,
    2, 6, 2, 8, 3, 3, 5, 5, 2, 2, 2, 2, 4, 4, 6, 6,
    2, 5, 2, 8, 4, 4, 6, 6, 2, 4, 2, 7, 4, 4, 7, 7,
    2, 6, 2, 8, 3, 3, 5, 5, 2, 2, 2, 2, 4, 4, 6, 6,
    2, 5, 2, 8, 4, 4, 6, 6, 2, 4, 2, 7, 4, 4, 7, 7,
];

/// The documented operations.
#[derive(Copy, Clone, Debug, PartialEq, Eq, Structural)]
pub enum Op {
    Adc,
    And,
    Asl,
    Bcc,
    Bcs,
    Beq,
    Bit,
    Bmi,
    Bne,
    Bpl,
    Brk,
    Bvc,
    Bvs,
    Clc,
    Cld,
    Cli,
    Clv,
    Cmp,
    Cpx,
    Cpy,
    Dec,
    Dex,
    Dey,
    Eor,
    Inc,
    Inx,
    Iny,
    Jmp,
    Jsr,
    Lda,
    Ldx,
    Ldy,
    Lsr,
    Nop,
    Ora,
    Pha,
    Php,
    Pla,
    Plp,
    Rol,
    Ror,
    Rti,
    Rts,
    Sbc,
    Sec,
    Sed,
    Sei,
    Sta,
    Stx,
    Sty,
    Tax,
    Tay,
    Tsx,
    Txa,
    Txs,
    Tya,
    /// an undocumented opcode
    Nil,
}

/// Addressing modes; `Imp` is implied (no operand).
#[derive(Copy, Clone, Debug, PartialEq, Eq, Structural)]
pub enum AddrMode {
    Imp,
    Acc,
    Imm,
    Zpg,
    Zpx,
    Zpy,
    Rel,
    Abs,
    Abx,
    Aby,
    Ind,
    Xin,
    Iny,
}

/// The operation and addressing mode of an opcode.
pub open spec fn decode_spec(opcode: u8) -> (Op, AddrMode) {
    match opcode {
        0x00 => (Op::Brk, AddrMode::Imp),
        0x01 => (Op::Ora, AddrMode::Xin),
        0x05 => (Op::Ora, AddrMode::Zpg),
        0x06 => (Op::Asl, AddrMode::Zpg),
        0x08 => (Op::Php, AddrMode::Imp),
        0x09 => (Op::Ora, AddrMode::Imm),
        0x0a => (Op::Asl, AddrMode::Acc),
        0x0d => (Op::Ora, AddrMode::Abs),
        0x0e => (Op::Asl, AddrMode::Abs),
        0x10 => (Op::Bpl, AddrMode::Rel),
        0x11 => (Op::Ora, AddrMode::Iny),
        0x15 => (Op::Ora, AddrMode::Zpx),
        0x16 => (Op::Asl, AddrMode::Zpx),
        0x18 => (Op::Clc, AddrMode::Imp),
        0x19 => (Op::Ora, AddrMode::Aby),
        0x1d => (Op::Ora, AddrMode::Abx),
        0x1e => (Op::Asl, AddrMode::Abx),
        0x20 => (Op::Jsr, AddrMode::Abs),
        0x21 => (Op::And, AddrMode::Xin),
        0x24 => (Op::Bit, AddrMode::Zpg),
        0x25 => (Op::And, AddrMode::Zpg),
        0x26 => (Op::Rol, AddrMode::Zpg),
        0x28 => (Op::Plp, AddrMode::Imp),
        0x29 => (Op::And, AddrMode::Imm),
        0x2a => (Op::Rol, AddrMode::Acc),
        0x2c => (Op::Bit, AddrMode::Abs),
        0x2d => (Op::And, AddrMode::Abs),
        0x2e => (Op::Rol, AddrMode::Abs),
        0x30 => (Op::Bmi, AddrMode::Rel),
        0x31 => (Op::And, AddrMode::Iny),
        0x35 => (Op::And, AddrMode::Zpx),
        0x36 => (Op::Rol, AddrMode::Zpx),
        0x38 => (Op::Sec, AddrMode::Imp),
        0x39 => (Op::And, AddrMode::Aby),
        0x3d => (Op::And, AddrMode::Abx),
        0x3e => (Op::Rol, AddrMode::Abx),
        0x40 => (Op::Rti, AddrMode::Imp),
        0x41 => (Op::Eor, AddrMode::Xin),
        0x45 => (Op::Eor, AddrMode::Zpg),
        0x46 => (Op::Lsr, AddrMode::Zpg),
        0x48 => (Op::Pha, AddrMode::Imp),
        0x49 => (Op::Eor, AddrMode::Imm),
        0x4a => (Op::Lsr, AddrMode::Acc),
        0x4c => (Op::Jmp, AddrMode::Abs),
        0x4d => (Op::Eor, AddrMode::Abs),
        0x4e => (Op::Lsr, AddrMode::Abs),
        0x50 => (Op::Bvc, AddrMode::Rel),
        0x51 => (Op::Eor, AddrMode::Iny),
        0x55 => (Op::Eor, AddrMode::Zpx),
        0x56 => (Op::Lsr, AddrMode::Zpx),
        0x58 => (Op::Cli, AddrMode::Imp),
        0x59 => (Op::Eor, AddrMode::Aby),
        0x5d => (Op::Eor, AddrMode::Abx),
        0x5e => (Op::Lsr, AddrMode::Abx),
        0x60 => (Op::Rts, AddrMode::Imp),
        0x61 => (Op::Adc, AddrMode::Xin),
        0x65 => (Op::Adc, AddrMode::Zpg),
        0x66 => (Op::Ror, AddrMode::Zpg),
        0x68 => (Op::Pla, AddrMode::Imp),
        0x69 => (Op::Adc, AddrMode::Imm),
        0x6a => (Op::Ror, AddrMode::Acc),
        0x6c => (Op::Jmp, AddrMode::Ind),
        0x6d => (Op::Adc, AddrMode::Abs),
        0x6e => (Op::Ror, AddrMode::Abs),
        0x70 => (Op::Bvs, AddrMode::Rel),
        0x71 => (Op::Adc, AddrMode::Iny),
        0x75 => (Op::Adc, AddrMode::Zpx),
        0x76 => (Op::Ror, AddrMode::Zpx),
        0x78 => (Op::Sei, AddrMode::Imp),
        0x79 => (Op::Adc, AddrMode::Aby),
        0x7d => (Op::Adc, AddrMode::Abx),
        0x7e => (Op::Ror, AddrMode::Abx),
        0x81 => (Op::Sta, AddrMode::Xin),
        0x84 => (Op::Sty, AddrMode::Zpg),
        0x85 => (Op::Sta, AddrMode::Zpg),
        0x86 => (Op::Stx, AddrMode::Zpg),
        0x88 => (Op::Dey, AddrMode::Imp),
        0x8a => (Op::Txa, AddrMode::Imp),
        0x8c => (Op::Sty, AddrMode::Abs),
        0x8d => (Op::Sta, AddrMode::Abs),
        0x8e => (Op::Stx, AddrMode::Abs),
        0x90 => (Op::Bcc, AddrMode::Rel),
        0x91 => (Op::Sta, AddrMode::Iny),
        0x94 => (Op::Sty, AddrMode::Zpx),
        0x95 => (Op::Sta, AddrMode::Zpx),
        0x96 => (Op::Stx, AddrMode::Zpy),
        0x98 => (Op::Tya, AddrMode::Imp),
        0x99 => (Op::Sta, AddrMode::Aby),
        0x9a => (Op::Txs, AddrMode::Imp),
        0x9d => (Op::Sta, AddrMode::Abx),
        0xa0 => (Op::Ldy, AddrMode::Imm),
        0xa1 => (Op::Lda, AddrMode::Xin),
        0xa2 => (Op::Ldx, AddrMode::Imm),
        0xa4 => (Op::Ldy, AddrMode::Zpg),
        0xa5 => (Op::Lda, AddrMode::Zpg),
        0xa6 => (Op::Ldx, AddrMode::Zpg),
        0xa8 => (Op::Tay, AddrMode::Imp),
        0xa9 => (Op::Lda, AddrMode::Imm),
        0xaa => (Op::Tax, AddrMode::Imp),
        0xac => (Op::Ldy, AddrMode::Abs),
        0xad => (Op::Lda, AddrMode::Abs),
        0xae => (Op::Ldx, AddrMode::Abs),
        0xb0 => (Op::Bcs, AddrMode::Rel),
        0xb1 => (Op::Lda, AddrMode::Iny),
        0xb4 => (Op::Ldy, AddrMode::Zpx),
        0xb5 => (Op::Lda, AddrMode::Zpx),
        0xb6 => (Op::Ldx, AddrMode::Zpy),
        0xb8 => (Op::Clv, AddrMode::Imp),
        0xb9 => (Op::Lda, AddrMode::Aby),
        0xba => (Op::Tsx, AddrMode::Imp),
        0xbc => (Op::Ldy, AddrMode::Abx),
        0xbd => (Op::Lda, AddrMode::Abx),
        0xbe => (Op::Ldx, AddrMode::Aby),
        0xc0 => (Op::Cpy, AddrMode::Imm),
        0xc1 => (Op::Cmp, AddrMode::Xin),
        0xc4 => (Op::Cpy, AddrMode::Zpg),
        0xc5 => (Op::Cmp, AddrMode::Zpg),
        0xc6 => (Op::Dec, AddrMode::Zpg),
        0xc8 => (Op::Iny, AddrMode::Imp),
        0xc9 => (Op::Cmp, AddrMode::Imm),
        0xca => (Op::Dex, AddrMode::Imp),
        0xcc => (Op::Cpy, AddrMode::Abs),
        0xcd => (Op::Cmp, AddrMode::Abs),
        0xce => (Op::Dec, AddrMode::Abs),
        0xd0 => (Op::Bne, AddrMode::Rel),
        0xd1 => (Op::Cmp, AddrMode::Iny),
        0xd5 => (Op::Cmp, AddrMode::Zpx),
        0xd6 => (Op::Dec, AddrMode::Zpx),
        0xd8 => (Op::Cld, AddrMode::Imp),
        0xd9 => (Op::Cmp, AddrMode::Aby),
        0xdd => (Op::Cmp, AddrMode::Abx),
        0xde => (Op::Dec, AddrMode::Abx),
        0xe0 => (Op::Cpx, AddrMode::Imm),
        0xe1 => (Op::Sbc, AddrMode::Xin),
        0xe4 => (Op::Cpx, AddrMode::Zpg),
        0xe5 => (Op::Sbc, AddrMode::Zpg),
        0xe6 => (Op::Inc, AddrMode::Zpg),
        0xe8 => (Op::Inx, AddrMode::Imp),
        0xe9 => (Op::Sbc, AddrMode::Imm),
        0xea => (Op::Nop, AddrMode::Imp),
        0xec => (Op::Cpx, AddrMode::Abs),
        0xed => (Op::Sbc, AddrMode::Abs),
        0xee => (Op::Inc, AddrMode::Abs),
        0xf0 => (Op::Beq, AddrMode::Rel),
        0xf1 => (Op::Sbc, AddrMode::Iny),
        0xf5 => (Op::Sbc, AddrMode::Zpx),
        0xf6 => (Op::Inc, AddrMode::Zpx),
        0xf8 => (Op::Sed, AddrMode::Imp),
        0xf9 => (Op::Sbc, AddrMode::Aby),
        0xfd => (Op::Sbc, AddrMode::Abx),
        0xfe => (Op::Inc, AddrMode::Abx),
        _ => (Op::Nil, AddrMode::Imp),
    }
}

pub fn decode(opcode: u8) -> (r: (Op, AddrMode))
    ensures
        r == decode_spec(opcode),
{
    match opcode {
        0x00 => (Op::Brk, AddrMode::Imp),
        0x01 => (Op::Ora, AddrMode::Xin),
        0x05 => (Op::Ora, AddrMode::Zpg),
        0x06 => (Op::Asl, AddrMode::Zpg),
        0x08 => (Op::Php, AddrMode::Imp),
        0x09 => (Op::Ora, AddrMode::Imm),
        0x0a => (Op::Asl, AddrMode::Acc),
        0x0d => (Op::Ora, AddrMode::Abs),
        0x0e => (Op::Asl, AddrMode::Abs),
        0x10 => (Op::Bpl, AddrMode::Rel),
        0x11 => (Op::Ora, AddrMode::Iny),
        0x15 => (Op::Ora, AddrMode::Zpx),
        0x16 => (Op::Asl, AddrMode::Zpx),
        0x18 => (Op::Clc, AddrMode::Imp),
        0x19 => (Op::Ora, AddrMode::Aby),
        0x1d => (Op::Ora, AddrMode::Abx),
        0x1e => (Op::Asl, AddrMode::Abx),
        0x20 => (Op::Jsr, AddrMode::Abs),
        0x21 => (Op::And, AddrMode::Xin),
        0x24 => (Op::Bit, AddrMode::Zpg),
        0x25 => (Op::And, AddrMode::Zpg),
        0x26 => (Op::Rol, AddrMode::Zpg),
        0x28 => (Op::Plp, AddrMode::Imp),
        0x29 => (Op::And, AddrMode::Imm),
        0x2a => (Op::Rol, AddrMode::Acc),
        0x2c => (Op::Bit, AddrMode::Abs),
        0x2d => (Op::And, AddrMode::Abs),
        0x2e => (Op::Rol, AddrMode::Abs),
        0x30 => (Op::Bmi, AddrMode::Rel),
        0x31 => (Op::And, AddrMode::Iny),
        0x35 => (Op::And, AddrMode::Zpx),
        0x36 => (Op::Rol, AddrMode::Zpx),
        0x38 => (Op::Sec, AddrMode::Imp),
        0x39 => (Op::And, AddrMode::Aby),
        0x3d => (Op::And, AddrMode::Abx),
        0x3e => (Op::Rol, AddrMode::Abx),
        0x40 => (Op::Rti, AddrMode::Imp),
        0x41 => (Op::Eor, AddrMode::Xin),
        0x45 => (Op::Eor, AddrMode::Zpg),
        0x46 => (Op::Lsr, AddrMode::Zpg),
        0x48 => (Op::Pha, AddrMode::Imp),
        0x49 => (Op::Eor, AddrMode::Imm),
        0x4a => (Op::Lsr, AddrMode::Acc),
        0x4c => (Op::Jmp, AddrMode::Abs),
        0x4d => (Op::Eor, AddrMode::Abs),
        0x4e => (Op::Lsr, AddrMode::Abs),
        0x50 => (Op::Bvc, AddrMode::Rel),
        0x51 => (Op::Eor, AddrMode::Iny),
        0x55 => (Op::Eor, AddrMode::Zpx),
        0x56 => (Op::Lsr, AddrMode::Zpx),
        0x58 => (Op::Cli, AddrMode::Imp),
        0x59 => (Op::Eor, AddrMode::Aby),
        0x5d => (Op::Eor, AddrMode::Abx),
        0x5e => (Op::Lsr, AddrMode::Abx),
        0x60 => (Op::Rts, AddrMode::Imp),
        0x61 => (Op::Adc, AddrMode::Xin),
        0x65 => (Op::Adc, AddrMode::Zpg),
        0x66 => (Op::Ror, AddrMode::Zpg),
        0x68 => (Op::Pla, AddrMode::Imp),
        0x69 => (Op::Adc, AddrMode::Imm),
        0x6a => (Op::Ror, AddrMode::Acc),
        0x6c => (Op::Jmp, AddrMode::Ind),
        0x6d => (Op::Adc, AddrMode::Abs),
        0x6e => (Op::Ror, AddrMode::Abs),
        0x70 => (Op::Bvs, AddrMode::Rel),
        0x71 => (Op::Adc, AddrMode::Iny),
        0x75 => (Op::Adc, AddrMode::Zpx),
        0x76 => (Op::Ror, AddrMode::Zpx),
        0x78 => (Op::Sei, AddrMode::Imp),
        0x79 => (Op::Adc, AddrMode::Aby),
        0x7d => (Op::Adc, AddrMode::Abx),
        0x7e => (Op::Ror, AddrMode::Abx),
        0x81 => (Op::Sta, AddrMode::Xin),
        0x84 => (Op::Sty, AddrMode::Zpg),
        0x85 => (Op::Sta, AddrMode::Zpg),
        0x86 => (Op::Stx, AddrMode::Zpg),
        0x88 => (Op::Dey, AddrMode::Imp),
        0x8a => (Op::Txa, AddrMode::Imp),
        0x8c => (Op::Sty, AddrMode::Abs),
        0x8d => (Op::Sta, AddrMode::Abs),
        0x8e => (Op::Stx, AddrMode::Abs),
        0x90 => (Op::Bcc, AddrMode::Rel),
        0x91 => (Op::Sta, AddrMode::Iny),
        0x94 => (Op::Sty, AddrMode::Zpx),
        0x95 => (Op::Sta, AddrMode::Zpx),
        0x96 => (Op::Stx, AddrMode::Zpy),
        0x98 => (Op::Tya, AddrMode::Imp),
        0x99 => (Op::Sta, AddrMode::Aby),
        0x9a => (Op::Txs, AddrMode::Imp),
        0x9d => (Op::Sta, AddrMode::Abx),
        0xa0 => (Op::Ldy, AddrMode::Imm),
        0xa1 => (Op::Lda, AddrMode::Xin),
        0xa2 => (Op::Ldx, AddrMode::Imm),
        0xa4 => (Op::Ldy, AddrMode::Zpg),
        0xa5 => (Op::Lda, AddrMode::Zpg),
        0xa6 => (Op::Ldx, AddrMode::Zpg),
        0xa8 => (Op::Tay, AddrMode::Imp),
        0xa9 => (Op::Lda, AddrMode::Imm),
        0xaa => (Op::Tax, AddrMode::Imp),
        0xac => (Op::Ldy, AddrMode::Abs),
        0xad => (Op::Lda, AddrMode::Abs),
        0xae => (Op::Ldx, AddrMode::Abs),
        0xb0 => (Op::Bcs, AddrMode::Rel),
        0xb1 => (Op::Lda, AddrMode::Iny),
        0xb4 => (Op::Ldy, AddrMode::Zpx),
        0xb5 => (Op::Lda, AddrMode::Zpx),
        0xb6 => (Op::Ldx, AddrMode::Zpy),
        0xb8 => (Op::Clv, AddrMode::Imp),
        0xb9 => (Op::Lda, AddrMode::Aby),
        0xba => (Op::Tsx, AddrMode::Imp),
        0xbc => (Op::Ldy, AddrMode::Abx),
        0xbd => (Op::Lda, AddrMode::Abx),
        0xbe => (Op::Ldx, AddrMode::Aby),
        0xc0 => (Op::Cpy, AddrMode::Imm),
        0xc1 => (Op::Cmp, AddrMode::Xin),
        0xc4 => (Op::Cpy, AddrMode::Zpg),
        0xc5 => (Op::Cmp, AddrMode::Zpg),
        0xc6 => (Op::Dec, AddrMode::Zpg),
        0xc8 => (Op::Iny, AddrMode::Imp),
        0xc9 => (Op::Cmp, AddrMode::Imm),
        0xca => (Op::Dex, AddrMode::Imp),
        0xcc => (Op::Cpy, AddrMode::Abs),
        0xcd => (Op::Cmp, AddrMode::Abs),
        0xce => (Op::Dec, AddrMode::Abs),
        0xd0 => (Op::Bne, AddrMode::Rel),
        0xd1 => (Op::Cmp, AddrMode::Iny),
        0xd5 => (Op::Cmp, AddrMode::Zpx),
        0xd6 => (Op::Dec, AddrMode::Zpx),
        0xd8 => (Op::Cld, AddrMode::Imp),
        0xd9 => (Op::Cmp, AddrMode::Aby),
        0xdd => (Op::Cmp, AddrMode::Abx),
        0xde => (Op::Dec, AddrMode::Abx),
        0xe0 => (Op::Cpx, AddrMode::Imm),
        0xe1 => (Op::Sbc, AddrMode::Xin),
        0xe4 => (Op::Cpx, AddrMode::Zpg),
        0xe5 => (Op::Sbc, AddrMode::Zpg),
        0xe6 => (Op::Inc, AddrMode::Zpg),
        0xe8 => (Op::Inx, AddrMode::Imp),
        0xe9 => (Op::Sbc, AddrMode::Imm),
        0xea => (Op::Nop, AddrMode::Imp),
        0xec => (Op::Cpx, AddrMode::Abs),
        0xed => (Op::Sbc, AddrMode::Abs),
        0xee => (Op::Inc, AddrMode::Abs),
        0xf0 => (Op::Beq, AddrMode::Rel),
        0xf1 => (Op::Sbc, AddrMode::Iny),
        0xf5 => (Op::Sbc, AddrMode::Zpx),
        0xf6 => (Op::Inc, AddrMode::Zpx),
        0xf8 => (Op::Sed, AddrMode::Imp),
        0xf9 => (Op::Sbc, AddrMode::Aby),
        0xfd => (Op::Sbc, AddrMode::Abx),
        0xfe => (Op::Inc, AddrMode::Abx),
        _ => (Op::Nil, AddrMode::Imp),
    }
}

/// ADC: A + M + C; carry out of bit 7, overflow when the operands share a sign the result
/// lacks. Returns the new A and status.
pub open spec fn adc_result(a: u8, m: u8, status: u8) -> (u8, u8) {
    let res = a as u16 + m as u16 + (status & 1) as u16;
    let r = res as u8;
    let v = (((a ^ m) & 0x80) ^ 0x80) & ((a ^ r) & 0x80);
    (r, (status & !(CARRY_FLAG | ZERO_FLAG | OVER_FLAG | NEG_FLAG)) | (if res > 0xff {
        CARRY_FLAG
    } else {
        0
    }) | (if r == 0 { ZERO_FLAG } else { 0 }) | (v >> 1u8) | (r & NEG_FLAG))
}

/// SBC: A + (0xff - M) + C, with the symmetric overflow rule.
pub open spec fn sbc_result(a: u8, m: u8, status: u8) -> (u8, u8) {
    let res = a as u16 + (0xff - m) as u16 + (status & 1) as u16;
    let r = res as u8;
    let v = ((a ^ m) & 0x80) & ((a ^ r) & 0x80);
    (r, (status & !(CARRY_FLAG | ZERO_FLAG | OVER_FLAG | NEG_FLAG)) | (if res > 0xff {
        CARRY_FLAG
    } else {
        0
    }) | (if r == 0 { ZERO_FLAG } else { 0 }) | (v >> 1u8) | (r & NEG_FLAG))
}

/// CMP/CPX/CPY: carry when `r >= m`, Z and N from `r - m`.
pub open spec fn cmp_status(r: u8, m: u8, status: u8) -> u8 {
    let d = r.wrapping_sub(m);
    (status & !(CARRY_FLAG | ZERO_FLAG | NEG_FLAG)) | (if r >= m { CARRY_FLAG } else { 0 }) | (if d
        == 0 {
        ZERO_FLAG
    } else {
        0
    }) | (d & NEG_FLAG)
}

/// BIT: Z from A & M, V and N copied from bits 6 and 7 of M.
pub open spec fn bit_status(a: u8, m: u8, status: u8) -> u8 {
    (status & !(ZERO_FLAG | OVER_FLAG | NEG_FLAG)) | (if a & m == 0 { ZERO_FLAG } else { 0 }) | (m
        & 0xc0)
}

/// The shifts and rotates: the new value and status, bit shifted out going to C.
pub open spec fn shift_result(op: Op, v: u8, status: u8) -> (u8, u8) {
    let c = status & 1;
    let (r, out) = match op {
        Op::Asl => (v << 1u8, v >> 7u8),
        Op::Lsr => (v >> 1u8, v & 1),
        Op::Rol => ((v << 1u8) | c, v >> 7u8),
        _ => ((v >> 1u8) | (c << 7u8), v & 1),
    };
    (r, with_nz(status & !CARRY_FLAG, r) | out)
}

pub fn alu_adc(a: u8, m: u8, status: u8) -> (r: (u8, u8))
    ensures
        r == adc_result(a, m, status),
{
    let res = a as u16 + m as u16 + (status & 1) as u16;
    let r = res as u8;
    let v = (((a ^ m) & 0x80) ^ 0x80) & ((a ^ r) & 0x80);
    (r, (status & !(CARRY_FLAG | ZERO_FLAG | OVER_FLAG | NEG_FLAG)) | (if res > 0xff {
        CARRY_FLAG
    } else {
        0
    }) | (if r == 0 { ZERO_FLAG } else { 0 }) | (v >> 1u8) | (r & NEG_FLAG))
}

pub fn alu_sbc(a: u8, m: u8, status: u8) -> (r: (u8, u8))
    ensures
        r == sbc_result(a, m, status),
{
    let res = a as u16 + (0xff - m) as u16 + (status & 1) as u16;
    let r = res as u8;
    let v = ((a ^ m) & 0x80) & ((a ^ r) & 0x80);
    (r, (status & !(CARRY_FLAG | ZERO_FLAG | OVER_FLAG | NEG_FLAG)) | (if res > 0xff {
        CARRY_FLAG
    } else {
        0
    }) | (if r == 0 { ZERO_FLAG } else { 0 }) | (v >> 1u8) | (r & NEG_FLAG))
}

pub fn alu_cmp(r: u8, m: u8, status: u8) -> (s: u8)
    ensures
        s == cmp_status(r, m, status),
{
    let d = r.wrapping_sub(m);
    (status & !(CARRY_FLAG | ZERO_FLAG | NEG_FLAG)) | (if r >= m { CARRY_FLAG } else { 0 }) | (if d
        == 0 {
        ZERO_FLAG
    } else {
        0
    }) | (d & NEG_FLAG)
}

pub fn nz(status: u8, r: u8) -> (s: u8)
    ensures
        s == with_nz(status, r),
{
    (status & !(ZERO_FLAG | NEG_FLAG)) | (if r == 0 { ZERO_FLAG } else { 0 }) | (r & NEG_FLAG)
}

pub fn alu_shift(op: Op, v: u8, status: u8) -> (r: (u8, u8))
    ensures
        r == shift_result(op, v, status),
{
    let c = status & 1;
    let (r, out) = match op {
        Op::Asl => (v << 1u8, v >> 7u8),
        Op::Lsr => (v >> 1u8, v & 1),
        Op::Rol => ((v << 1u8) | c, v >> 7u8),
        _ => ((v >> 1u8) | (c << 7u8), v & 1),
    };
    (r, nz(status & !CARRY_FLAG, r) | out)
}

impl CPU {
    pub fn op_adc(&mut self, m: u8)
        ensures
            *final(self) == (CPU {
                a: adc_result(old(self).a, m, old(self).status).0,
                status: adc_result(old(self).a, m, old(self).status).1,
                ..*old(self)
            }),
    {
        let (a, st) = alu_adc(self.a, m, self.status);
        self.a = a;
        self.status = st;
    }

    pub fn op_sbc(&mut self, m: u8)
        ensures
            *final(self) == (CPU {
                a: sbc_result(old(self).a, m, old(self).status).0,
                status: sbc_result(old(self).a, m, old(self).status).1,
                ..*old(self)
            }),
    {
        let (a, st) = alu_sbc(self.a, m, self.status);
        self.a = a;
        self.status = st;
    }

    pub fn op_cmp(&mut self, m: u8)
        ensures
            *final(self) == (CPU { status: cmp_status(old(self).a, m, old(self).status), ..*old(self) }),
    {
        self.status = alu_cmp(self.a, m, self.status);
    }

    pub fn op_cpx(&mut self, m: u8)
        ensures
            *final(self) == (CPU { status: cmp_status(old(self).x, m, old(self).status), ..*old(self) }),
    {
        self.status = alu_cmp(self.x, m, self.status);
    }

    pub fn op_cpy(&mut self, m: u8)
        ensures
            *final(self) == (CPU { status: cmp_status(old(self).y, m, old(self).status), ..*old(self) }),
    {
        self.status = alu_cmp(self.y, m, self.status);
    }

    pub fn op_and(&mut self, m: u8)
        ensures
            *final(self) == (CPU {
                a: old(self).a & m,
                status: with_nz(old(self).status, old(self).a & m),
                ..*old(self)
            }),
    {
        self.a = self.a & m;
        self.status = nz(self.status, self.a);
    }

    pub fn op_eor(&mut self, m: u8)
        ensures
            *final(self) == (CPU {
                a: old(self).a ^ m,
                status: with_nz(old(self).status, old(self).a ^ m),
                ..*old(self)
            }),
    {
        self.a = self.a ^ m;
        self.status = nz(self.status, self.a);
    }

    pub fn op_ora(&mut self, m: u8)
        ensures
            *final(self) == (CPU {
                a: old(self).a | m,
                status: with_nz(old(self).status, old(self).a | m),
                ..*old(self)
            }),
    {
        self.a = self.a | m;
        self.status = nz(self.status, self.a);
    }

    pub fn op_bit(&mut self, m: u8)
        ensures
            *final(self) == (CPU { status: bit_status(old(self).a, m, old(self).status), ..*old(self) }),
    {
        self.status = (self.status & !(ZERO_FLAG | OVER_FLAG | NEG_FLAG)) | (if self.a & m == 0 {
            ZERO_FLAG
        } else {
            0
        }) | (m & 0xc0);
    }

    pub fn op_lda(&mut self, m: u8)
        ensures
            *final(self) == (CPU { a: m, status: with_nz(old(self).status, m), ..*old(self) }),
    {
        self.a = m;
        self.status = nz(self.status, m);
    }

    pub fn op_ldx(&mut self, m: u8)
        ensures
            *final(self) == (CPU { x: m, status: with_nz(old(self).status, m), ..*old(self) }),
    {
        self.x = m;
        self.status = nz(self.status, m);
    }

    pub fn op_ldy(&mut self, m: u8)
        ensures
            *final(self) == (CPU { y: m, status: with_nz(old(self).status, m), ..*old(self) }),
    {
        self.y = m;
        self.status = nz(self.status, m);
    }

    pub fn op_inx(&mut self)
        ensures
            *final(self) == (CPU {
                x: old(self).x.wrapping_add(1),
                status: with_nz(old(self).status, old(self).x.wrapping_add(1)),
                ..*old(self)
            }),
    {
        self.x = self.x.wrapping_add(1);
        self.status = nz(self.status, self.x);
    }

    pub fn op_iny(&mut self)
        ensures
            *final(self) == (CPU {
                y: old(self).y.wrapping_add(1),
                status: with_nz(old(self).status, old(self).y.wrapping_add(1)),
                ..*old(self)
            }),
    {
        self.y = self.y.wrapping_add(1);
        self.status = nz(self.status, self.y);
    }

    pub fn op_dex(&mut self)
        ensures
            *final(self) == (CPU {
                x: old(self).x.wrapping_sub(1),
                status: with_nz(old(self).status, old(self).x.wrapping_sub(1)),
                ..*old(self)
            }),
    {
        self.x = self.x.wrapping_sub(1);
        self.status = nz(self.status, self.x);
    }

    pub fn op_dey(&mut self)
        ensures
            *final(self) == (CPU {
                y: old(self).y.wrapping_sub(1),
                status: with_nz(old(self).status, old(self).y.wrapping_sub(1)),
                ..*old(self)
            }),
    {
        self.y = self.y.wrapping_sub(1);
        self.status = nz(self.status, self.y);
    }

    pub fn op_tax(&mut self)
        ensures
            *final(self) == (CPU { x: old(self).a, status: with_nz(old(self).status, old(self).a), ..*old(self) }),
    {
        self.x = self.a;
        self.status = nz(self.status, self.a);
    }

    pub fn op_tay(&mut self)
        ensures
            *final(self) == (CPU { y: old(self).a, status: with_nz(old(self).status, old(self).a), ..*old(self) }),
    {
        self.y = self.a;
        self.status = nz(self.status, self.a);
    }

    pub fn op_txa(&mut self)
        ensures
            *final(self) == (CPU { a: old(self).x, status: with_nz(old(self).status, old(self).x), ..*old(self) }),
    {
        self.a = self.x;
        self.status = nz(self.status, self.x);
    }

    pub fn op_tya(&mut self)
        ensures
            *final(self) == (CPU { a: old(self).y, status: with_nz(old(self).status, old(self).y), ..*old(self) }),
    {
        self.a = self.y;
        self.status = nz(self.status, self.y);
    }

    pub fn op_tsx(&mut self)
        ensures
            *final(self) == (CPU { x: old(self).sp, status: with_nz(old(self).status, old(self).sp), ..*old(self) }),
    {
        self.x = self.sp;
        self.status = nz(self.status, self.sp);
    }

    pub fn op_txs(&mut self)
        ensures
            *final(self) == (CPU { sp: old(self).x, ..*old(self) }),
    {
        self.sp = self.x;
    }

    /// CLC, CLD, CLI, CLV: clears one flag.
    pub fn op_clear(&mut self, flag: u8)
        ensures
            *final(self) == (CPU { status: old(self).status & !flag, ..*old(self) }),
    {
        self.status = self.status & !flag;
    }

    /// SEC, SED, SEI: sets one flag.
    pub fn op_set(&mut self, flag: u8)
        ensures
            *final(self) == (CPU { status: old(self).status | flag, ..*old(self) }),
    {
        self.status = self.status | flag;
    }

    /// A branch: when taken, one cycle more, and one more again when the target lies on
    /// another page than the next instruction.
    pub fn op_branch(&mut self, taken: bool)
        requires
            old(self).cycle <= CYCLE_LIMIT + 400,
            old(self).cost <= 400,
        ensures
            !taken ==> *final(self) == *old(self),
            taken ==> *final(self) == (CPU {
                pc: old(self).ea,
                cycle: (old(self).cycle + 1 + if old(self).pc & 0xff00 != old(self).ea & 0xff00 {
                    1int
                } else {
                    0
                }) as u32,
                cost: (old(self).cost + 1 + if old(self).pc & 0xff00 != old(self).ea & 0xff00 {
                    1int
                } else {
                    0
                }) as u32,
                ..*old(self)
            }),
    {
        if taken {
            self.cycle = self.cycle + 1;
            self.cost = self.cost + 1;
            if self.pc & 0xff00 != self.ea & 0xff00 {
                self.cycle = self.cycle + 1;
                self.cost = self.cost + 1;
            }
            self.pc = self.ea;
        }
    }

    pub fn op_jmp(&mut self)
        ensures
            *final(self) == (CPU { pc: old(self).ea, ..*old(self) }),
    {
        self.pc = self.ea;
    }
}

/// The address the high byte of an indirect pointer at `addr` comes from: the 6502 does not
/// carry into the page, so 0x30ff pairs with 0x3000.
pub open spec fn indirect_hi(addr: u16) -> u16 {
    (addr & 0xff00) | ((addr as u8).wrapping_add(1) as u16)
}

pub fn indirect_hi_addr(addr: u16) -> (r: u16)
    ensures
        r == indirect_hi(addr),
{
    (addr & 0xff00) | ((addr as u8).wrapping_add(1) as u16)
}

/// Stack arithmetic: slots lie in page one of work RAM, and pointer steps compose.
proof fn lemma_stack(sp: u8)
    ensures
        ((sp as u16) | 0x0100) < 0x800,
        ((sp as u16) | 0x0100) % 0x800 == ((sp as u16) | 0x0100),
        sp.wrapping_sub(0) == sp,
        sp.wrapping_sub(1).wrapping_sub(1) == sp.wrapping_sub(2),
        sp.wrapping_sub(2).wrapping_sub(1) == sp.wrapping_sub(3),
        sp.wrapping_add(1).wrapping_add(1) == sp.wrapping_add(2),
        sp.wrapping_add(2).wrapping_add(1) == sp.wrapping_add(3),
{
    assert(((sp as u16) | 0x0100) < 0x800 && ((sp as u16) | 0x0100) % 0x800 == ((sp as u16)
        | 0x0100) && sp.wrapping_sub(0) == sp && sp.wrapping_sub(1).wrapping_sub(1)
        == sp.wrapping_sub(2) && sp.wrapping_sub(2).wrapping_sub(1) == sp.wrapping_sub(3)
        && sp.wrapping_add(1).wrapping_add(1) == sp.wrapping_add(2) && sp.wrapping_add(2).wrapping_add(
        1) == sp.wrapping_add(3)) by (bit_vector);
}

/// Addresses whose reads have no side effects: work RAM and the cartridge.
pub open spec fn pure_addr(a: u16) -> bool {
    a < 0x2000 || a >= 0x6000
}

/// The byte at a side-effect-free address.
pub open spec fn byte_at(mem: CPUMemory, a: u16) -> u8 {
    if a < 0x2000 {
        mem.sram@[(a % 0x800) as int]
    } else {
        mem.mapper.spec_read(a)
    }
}

/// A little-endian word from the bytes at `lo` and `hi`.
pub open spec fn word_at(mem: CPUMemory, lo: u16, hi: u16) -> u16 {
    (byte_at(mem, hi) as u16 * 256 + byte_at(mem, lo) as u16) as u16
}

/// A relative branch offset as a 16-bit addend.
pub open spec fn rel_delta(b: u8) -> u16 {
    if b < 0x80 {
        b as u16
    } else {
        0xff00u16 | b as u16
    }
}

/// The effective address an addressing mode computes from operand bytes at `opr` (PC already
/// past the instruction), and whether an indexed access crossed a page.
pub open spec fn ea_spec(mem: CPUMemory, mode: AddrMode, opr: u16, pc: u16, x: u8, y: u8) -> (u16, bool) {
    match mode {
        AddrMode::Imm => (opr, false),
        AddrMode::Zpg => (byte_at(mem, opr) as u16, false),
        AddrMode::Zpx => (byte_at(mem, opr).wrapping_add(x) as u16, false),
        AddrMode::Zpy => (byte_at(mem, opr).wrapping_add(y) as u16, false),
        AddrMode::Rel => (pc.wrapping_add(rel_delta(byte_at(mem, opr))), false),
        AddrMode::Abs => (word_at(mem, opr, opr.wrapping_add(1)), false),
        AddrMode::Abx => {
            let b = word_at(mem, opr, opr.wrapping_add(1));
            let e = b.wrapping_add(x as u16);
            (e, (b & 0xff00) != (e & 0xff00))
        },
        AddrMode::Aby => {
            let b = word_at(mem, opr, opr.wrapping_add(1));
            let e = b.wrapping_add(y as u16);
            (e, (b & 0xff00) != (e & 0xff00))
        },
        AddrMode::Ind => {
            let p = word_at(mem, opr, opr.wrapping_add(1));
            (word_at(mem, p, indirect_hi(p)), false)
        },
        AddrMode::Xin => {
            let z = byte_at(mem, opr).wrapping_add(x) as u16;
            (word_at(mem, z, indirect_hi(z)), false)
        },
        AddrMode::Iny => {
            let z = byte_at(mem, opr) as u16;
            let b = word_at(mem, z, indirect_hi(z));
            let e = b.wrapping_add(y as u16);
            (e, (b & 0xff00) != (e & 0xff00))
        },
        _ => (0, false),
    }
}

/// Whether every byte the addressing mode reads lies where reads have no side effects.
pub open spec fn ea_pure(mem: CPUMemory, mode: AddrMode, opr: u16) -> bool {
    &&& pure_addr(opr)
    &&& pure_addr(opr.wrapping_add(1))
    &&& mode == AddrMode::Ind ==> {
        let p = word_at(mem, opr, opr.wrapping_add(1));
        pure_addr(p) && pure_addr(indirect_hi(p))
    }
}

/// Whether a conditional branch is taken under `status`.
pub open spec fn branch_taken(op: Op, status: u8) -> bool {
    match op {
        Op::Bcc => status & 1 == 0,
        Op::Bcs => status & 1 != 0,
        Op::Bne => (status >> 1u8) & 1 == 0,
        Op::Beq => (status >> 1u8) & 1 != 0,
        Op::Bpl => (status >> 7u8) & 1 == 0,
        Op::Bmi => (status >> 7u8) & 1 != 0,
        Op::Bvc => (status >> 6u8) & 1 == 0,
        _ => (status >> 6u8) & 1 != 0,
    }
}

pub open spec fn is_branch(op: Op) -> bool {
    op == Op::Bcc || op == Op::Bcs || op == Op::Bne || op == Op::Beq || op == Op::Bpl || op == Op::Bmi
        || op == Op::Bvc || op == Op::Bvs
}

/// The operations that read an operand value.
pub open spec fn reads_operand(op: Op) -> bool {
    op == Op::Adc || op == Op::Sbc || op == Op::Cmp || op == Op::Cpx || op == Op::Cpy || op == Op::And
        || op == Op::Eor || op == Op::Ora || op == Op::Bit || op == Op::Lda || op == Op::Ldx || op
        == Op::Ldy
}

/// The operations whose whole effect is on the registers (shifts only on the accumulator).
pub open spec fn reg_op(op: Op, acc: bool) -> bool {
    reads_operand(op) || is_branch(op) || op == Op::Inx || op == Op::Iny || op == Op::Dex || op
        == Op::Dey || op == Op::Tax || op == Op::Tay || op == Op::Txa || op == Op::Tya || op == Op::Tsx
        || op == Op::Txs || op == Op::Clc || op == Op::Cld || op == Op::Cli || op == Op::Clv || op
        == Op::Sec || op == Op::Sed || op == Op::Sei || op == Op::Jmp || op == Op::Nop || (acc && (op
        == Op::Asl || op == Op::Lsr || op == Op::Rol || op == Op::Ror))
}

/// The registers after a register operation `op` with operand `m`, the effective address (or
/// branch target) already in `c.ea`.
pub open spec fn exec_regs(op: Op, c: CPU, m: u8) -> CPU {
    match op {
        Op::Adc => CPU { a: adc_result(c.a, m, c.status).0, status: adc_result(c.a, m, c.status).1, ..c },
        Op::Sbc => CPU { a: sbc_result(c.a, m, c.status).0, status: sbc_result(c.a, m, c.status).1, ..c },
        Op::Cmp => CPU { status: cmp_status(c.a, m, c.status), ..c },
        Op::Cpx => CPU { status: cmp_status(c.x, m, c.status), ..c },
        Op::Cpy => CPU { status: cmp_status(c.y, m, c.status), ..c },
        Op::And => CPU { a: c.a & m, status: with_nz(c.status, c.a & m), ..c },
        Op::Eor => CPU { a: c.a ^ m, status: with_nz(c.status, c.a ^ m), ..c },
        Op::Ora => CPU { a: c.a | m, status: with_nz(c.status, c.a | m), ..c },
        Op::Bit => CPU { status: bit_status(c.a, m, c.status), ..c },
        Op::Lda => CPU { a: m, status: with_nz(c.status, m), ..c },
        Op::Ldx => CPU { x: m, status: with_nz(c.status, m), ..c },
        Op::Ldy => CPU { y: m, status: with_nz(c.status, m), ..c },
        Op::Inx => CPU { x: c.x.wrapping_add(1), status: with_nz(c.status, c.x.wrapping_add(1)), ..c },
        Op::Iny => CPU { y: c.y.wrapping_add(1), status: with_nz(c.status, c.y.wrapping_add(1)), ..c },
        Op::Dex => CPU { x: c.x.wrapping_sub(1), status: with_nz(c.status, c.x.wrapping_sub(1)), ..c },
        Op::Dey => CPU { y: c.y.wrapping_sub(1), status: with_nz(c.status, c.y.wrapping_sub(1)), ..c },
        Op::Tax => CPU { x: c.a, status: with_nz(c.status, c.a), ..c },
        Op::Tay => CPU { y: c.a, status: with_nz(c.status, c.a), ..c },
        Op::Txa => CPU { a: c.x, status: with_nz(c.status, c.x), ..c },
        Op::Tya => CPU { a: c.y, status: with_nz(c.status, c.y), ..c },
        Op::Tsx => CPU { x: c.sp, status: with_nz(c.status, c.sp), ..c },
        Op::Txs => CPU { sp: c.x, ..c },
        Op::Clc => CPU { status: c.status & !CARRY_FLAG, ..c },
        Op::Cld => CPU { status: c.status & !DEC_FLAG, ..c },
        Op::Cli => CPU { status: c.status & !INT_FLAG, ..c },
        Op::Clv => CPU { status: c.status & !OVER_FLAG, ..c },
        Op::Sec => CPU { status: c.status | CARRY_FLAG, ..c },
        Op::Sed => CPU { status: c.status | DEC_FLAG, ..c },
        Op::Sei => CPU { status: c.status | INT_FLAG, ..c },
        Op::Jmp => CPU { pc: c.ea, ..c },
        Op::Asl | Op::Lsr | Op::Rol | Op::Ror => CPU {
            a: shift_result(op, c.a, c.status).0,
            status: shift_result(op, c.a, c.status).1,
            ..c
        },
        _ => if is_branch(op) && branch_taken(op, c.status) {
            CPU {
                pc: c.ea,
                cost: (c.cost + 1 + if c.pc & 0xff00 != c.ea & 0xff00 { 1int } else { 0 }) as u32,
                ..c
            }
        } else {
            c
        },
    }
}

/// The operand value: A in accumulator mode, else the byte at the effective address.
pub open spec fn operand_value(mem: CPUMemory, c: CPU) -> u8 {
    if c.acc { c.a } else { byte_at(mem, c.ea) }
}

/// What a decoded instruction does once PC and the operand pointer are set in `pre`: when the
/// bytes its addressing mode reads are side-effect free, register operations leave the
/// registers `exec_regs` gives (with the effective address and the page-cross penalty
/// credited), and stores write work RAM.
#[verifier::opaque]
pub open spec fn instr_post(op: Op, mode: AddrMode, pre: CPU, m0: CPUMemory, post: CPU, m1: CPUMemory) -> bool {
    ea_pure(m0, mode, pre.opr) ==> {
        let (ea, cross) = ea_spec(m0, mode, pre.opr, pre.pc, pre.x, pre.y);
        let pen = cross && pays_page_cross(op) && (mode == AddrMode::Abx || mode == AddrMode::Aby
            || mode == AddrMode::Iny);
        let c = CPU {
            acc: mode == AddrMode::Acc,
            ea: if mode == AddrMode::Imp || mode == AddrMode::Acc { pre.ea } else { ea },
            cost: (pre.cost + if pen { 1int } else { 0 }) as u32,
            cycle: 0,
            int: None,
            ..pre
        };
        &&& reg_op(op, c.acc) && (c.acc || pure_addr(c.ea) || !reads_operand(op))
            ==> post.same_regs(exec_regs(op, c, operand_value(m0, c)))
        &&& (op == Op::Sta || op == Op::Stx || op == Op::Sty) ==> post.same_regs(c)
        &&& (op == Op::Sta || op == Op::Stx || op == Op::Sty) && c.ea < 0x2000 ==> m1.sram@
            == m0.sram@.update((c.ea % 0x800) as int, if op == Op::Sta {
            c.a
        } else if op == Op::Stx {
            c.x
        } else {
            c.y
        })
    }
}

/// `instr_post` depends on the starting registers and the bytes memory holds, not on the cycle
/// credit, the interrupt slot or other chip state.
proof fn lemma_instr_post_congruent(op: Op, mode: AddrMode, pre: CPU, pre2: CPU, m0: CPUMemory, m0b: CPUMemory, post: CPU, m1: CPUMemory)
    requires
        pre.same_regs(pre2),
        m0.sram@ == m0b.sram@,
        forall|a: u16| #[trigger] byte_at(m0, a) == byte_at(m0b, a),
        instr_post(op, mode, pre, m0, post, m1),
    ensures
        instr_post(op, mode, pre2, m0b, post, m1),
{
    reveal(instr_post);
    let c1 = CPU { cycle: 0, int: None, ..pre };
    let c2 = CPU { cycle: 0, int: None, ..pre2 };
    assert(c1 == c2);
}

/// Reads keep the bytes at side-effect-free addresses.
proof fn lemma_keeps_bytes(m0: CPUMemory, m1: CPUMemory)
    requires
        m1.keeps_memory(m0),
    ensures
        forall|a: u16| #[trigger] byte_at(m1, a) == byte_at(m0, a),
{
    assert forall|a: u16| #[trigger] byte_at(m1, a) == byte_at(m0, a) by {
        assert(m1.mapper.spec_read(a) == m0.mapper.spec_read(a));
    }
}

/// What a bus access keeps: the registers, the work RAM and cartridge it does not write, a
/// cycle credit that only goes down.
pub open spec fn accessed(pre: CPU, post: CPU, mpre: CPUMemory, mpost: CPUMemory) -> bool {
    &&& post.same_regs(pre)
    &&& post.cycle <= pre.cycle
    &&& mpost.wf()
}

impl CPU {
    fn rd<H: Screen + Speaker + InputPoller>(&mut self, mem: &mut CPUMemory, host: &mut H, addr: u16) -> (r: u8)
        requires
            old(mem).wf(),
        ensures
            accessed(*old(self), *final(self), *old(mem), *final(mem)),
            final(mem).keeps_memory(*old(mem)),
            addr < 0x2000 ==> r == old(mem).sram@[(addr % 0x800) as int],
            addr >= 0x6000 ==> r == old(mem).mapper.spec_read(addr),
            pure_addr(addr) ==> r == byte_at(*old(mem), addr),
    {
        mem.read(self, host, addr)
    }

    fn wr<H: Screen + Speaker + InputPoller>(&mut self, mem: &mut CPUMemory, host: &mut H, addr: u16, data: u8)
        requires
            old(mem).wf(),
        ensures
            accessed(*old(self), *final(self), *old(mem), *final(mem)),
            addr < 0x2000 ==> final(mem).sram@ == old(mem).sram@.update((addr % 0x800) as int, data),
            addr < 0x2000 ==> forall|a: u16| #[trigger] final(mem).mapper.spec_read(a) == old(mem).mapper.spec_read(a),
    {
        mem.write(self, host, addr, data)
    }

    /// A 16-bit little-endian read with the pointer's high byte from `hi_addr`.
    fn read16_at<H: Screen + Speaker + InputPoller>(&mut self, mem: &mut CPUMemory, host: &mut H, lo_addr: u16, hi_addr: u16) -> (r: u16)
        requires
            old(mem).wf(),
        ensures
            accessed(*old(self), *final(self), *old(mem), *final(mem)),
            final(mem).keeps_memory(*old(mem)),
            lo_addr < 0x2000 && hi_addr < 0x2000 ==> r == old(mem).sram@[(hi_addr % 0x800) as int] as u16 * 256
                + old(mem).sram@[(lo_addr % 0x800) as int] as u16,
            lo_addr >= 0x6000 && hi_addr >= 0x6000 ==> r == old(mem).mapper.spec_read(hi_addr) as u16 * 256
                + old(mem).mapper.spec_read(lo_addr) as u16,
            pure_addr(lo_addr) && pure_addr(hi_addr) ==> r == word_at(*old(mem), lo_addr, hi_addr),
    {
        let ghost m0 = *mem;
        let high = self.rd(mem, host, hi_addr) as u16;
        proof {
            lemma_keeps_bytes(m0, *mem);
        }
        let low = self.rd(mem, host, lo_addr) as u16;
        high * 256 + low
    }

    /// A flat 16-bit read (the high byte from the next address).
    fn read16<H: Screen + Speaker + InputPoller>(&mut self, mem: &mut CPUMemory, host: &mut H, addr: u16) -> (r: u16)
        requires
            old(mem).wf(),
        ensures
            accessed(*old(self), *final(self), *old(mem), *final(mem)),
            final(mem).keeps_memory(*old(mem)),
            addr >= 0x6000 && addr < 0xffff ==> r == old(mem).mapper.spec_read((addr + 1) as u16) as u16 * 256
                + old(mem).mapper.spec_read(addr) as u16,
            pure_addr(addr) && pure_addr(addr.wrapping_add(1)) ==> r == word_at(*old(mem), addr, addr.wrapping_add(1)),
    {
        self.read16_at(mem, host, addr, addr.wrapping_add(1))
    }

    /// A 16-bit read through a pointer whose high byte stays on the pointer's page.
    fn read16_wrap<H: Screen + Speaker + InputPoller>(&mut self, mem: &mut CPUMemory, host: &mut H, addr: u16) -> (r: u16)
        requires
            old(mem).wf(),
        ensures
            accessed(*old(self), *final(self), *old(mem), *final(mem)),
            final(mem).keeps_memory(*old(mem)),
            addr < 0x2000 ==> r == old(mem).sram@[(indirect_hi(addr) % 0x800) as int] as u16 * 256
                + old(mem).sram@[(addr % 0x800) as int] as u16,
            pure_addr(addr) && pure_addr(indirect_hi(addr)) ==> r == word_at(*old(mem), addr, indirect_hi(addr)),
    {
        let hi = indirect_hi_addr(addr);
        assert(addr < 0x2000 ==> hi < 0x2000) by (bit_vector)
            requires hi == (addr & 0xff00) | ((addr as u8).wrapping_add(1) as u16);
        self.read16_at(mem, host, addr, hi)
    }

    fn push<H: Screen + Speaker + InputPoller>(&mut self, mem: &mut CPUMemory, host: &mut H, v: u8)
        requires
            old(mem).wf(),
        ensures
            final(mem).wf(),
            *final(self) == (CPU { sp: old(self).sp.wrapping_sub(1), cycle: final(self).cycle, int: final(self).int, ..*old(self) }),
            final(self).cycle <= old(self).cycle,
            final(mem).sram@ == old(mem).sram@.update(stack_addr(old(self).sp, 0) as int, v),
            forall|a: u16| #[trigger] final(mem).mapper.spec_read(a) == old(mem).mapper.spec_read(a),
    {
        let addr = (self.sp as u16) | 0x0100;
        proof {
            lemma_stack(self.sp);
        }
        self.wr(mem, host, addr, v);
        self.sp = self.sp.wrapping_sub(1);
    }

    fn pull<H: Screen + Speaker + InputPoller>(&mut self, mem: &mut CPUMemory, host: &mut H) -> (r: u8)
        requires
            old(mem).wf(),
        ensures
            final(mem).wf(),
            final(mem).keeps_memory(*old(mem)),
            *final(self) == (CPU { sp: old(self).sp.wrapping_add(1), cycle: final(self).cycle, int: final(self).int, ..*old(self) }),
            final(self).cycle <= old(self).cycle,
            r == old(mem).sram@[stack_addr(old(self).sp.wrapping_add(1), 0) as int],
    {
        self.sp = self.sp.wrapping_add(1);
        let addr = (self.sp as u16) | 0x0100;
        proof {
            lemma_stack(self.sp);
        }
        self.rd(mem, host, addr)
    }
}

/// The operations that set PC themselves: jumps, calls, returns, BRK and branches.
pub open spec fn is_flow(op: Op) -> bool {
    op == Op::Jmp || op == Op::Jsr || op == Op::Rts || op == Op::Rti || op == Op::Brk || op == Op::Bcc
        || op == Op::Bcs || op == Op::Beq || op == Op::Bne || op == Op::Bmi || op == Op::Bpl || op
        == Op::Bvc || op == Op::Bvs
}

/// Whether an indexed mode adds a cycle on a page crossing for this operation (reads do;
/// stores and read-modify-write instructions always pay it in their base cost).
pub open spec fn pays_page_cross(op: Op) -> bool {
    !(op == Op::Sta || op == Op::Stx || op == Op::Sty || op == Op::Asl || op == Op::Lsr || op
        == Op::Rol || op == Op::Ror || op == Op::Inc || op == Op::Dec)
}

pub fn page_cross_applies(op: Op) -> (r: bool)
    ensures
        r == pays_page_cross(op),
{
    match op {
        Op::Sta | Op::Stx | Op::Sty | Op::Asl | Op::Lsr | Op::Rol | Op::Ror | Op::Inc | Op::Dec => false,
        _ => true,
    }
}

impl CPU {
    /// Computes the effective address (or the accumulator flag) of the current instruction.
    fn fetch_ea<H: Screen + Speaker + InputPoller>(&mut self, mem: &mut CPUMemory, host: &mut H, mode: AddrMode, penalty: bool)
        requires
            old(mem).wf(),
            old(self).cycle <= CYCLE_LIMIT + 300,
            old(self).cost <= 300,
        ensures
            final(self).cost <= old(self).cost + 1,
            mode == AddrMode::Imp || mode == AddrMode::Acc ==> final(self).ea == old(self).ea
                && final(self).cost == old(self).cost,
            mode != AddrMode::Imp && mode != AddrMode::Acc && ea_pure(*old(mem), mode, old(self).opr) ==> ({
                let (ea, cross) = ea_spec(*old(mem), mode, old(self).opr, old(self).pc, old(self).x, old(self).y);
                &&& final(self).ea == ea
                &&& final(self).cost == old(self).cost + if penalty && cross && (mode == AddrMode::Abx
                    || mode == AddrMode::Aby || mode == AddrMode::Iny) { 1int } else { 0 }
            }),
            final(mem).wf(),
            final(mem).keeps_memory(*old(mem)),
            final(self).a == old(self).a && final(self).x == old(self).x && final(self).y == old(self).y,
            final(self).status == old(self).status && final(self).pc == old(self).pc && final(self).sp == old(self).sp,
            final(self).opr == old(self).opr,
            final(self).acc == (mode == AddrMode::Acc),
            final(self).cycle <= old(self).cycle + 1,
            mode == AddrMode::Imm ==> final(self).ea == old(self).opr,
    {
        self.acc = false;
        let ghost m0 = *mem;
        match mode {
            AddrMode::Imp => {},
            AddrMode::Acc => {
                self.acc = true;
            },
            AddrMode::Imm => {
                self.ea = self.opr;
            },
            AddrMode::Zpg => {
                self.ea = self.rd(mem, host, self.opr) as u16;
            },
            AddrMode::Zpx => {
                self.ea = self.rd(mem, host, self.opr).wrapping_add(self.x) as u16;
            },
            AddrMode::Zpy => {
                self.ea = self.rd(mem, host, self.opr).wrapping_add(self.y) as u16;
            },
            AddrMode::Rel => {
                let offset = self.rd(mem, host, self.opr);
                let delta: u16 = if offset < 0x80 { offset as u16 } else { 0xff00u16 | offset as u16 };
                assert(delta == rel_delta(offset));
                self.ea = self.pc.wrapping_add(delta);
            },
            AddrMode::Abs => {
                self.ea = self.read16(mem, host, self.opr);
            },
            AddrMode::Abx => {
                let base = self.read16(mem, host, self.opr);
                self.ea = base.wrapping_add(self.x as u16);
                if penalty && (base & 0xff00) != (self.ea & 0xff00) {
                    self.cycle = self.cycle + 1;
                    self.cost = self.cost + 1;
                }
            },
            AddrMode::Aby => {
                let base = self.read16(mem, host, self.opr);
                self.ea = base.wrapping_add(self.y as u16);
                if penalty && (base & 0xff00) != (self.ea & 0xff00) {
                    self.cycle = self.cycle + 1;
                    self.cost = self.cost + 1;
                }
            },
            AddrMode::Ind => {
                let ptr = self.read16(mem, host, self.opr);
                proof {
                    lemma_keeps_bytes(m0, *mem);
                }
                self.ea = self.read16_wrap(mem, host, ptr);
            },
            AddrMode::Xin => {
                let ptr = self.rd(mem, host, self.opr).wrapping_add(self.x) as u16;
                proof {
                    lemma_keeps_bytes(m0, *mem);
                    assert(ptr < 0x100 && indirect_hi(ptr) < 0x100) by (bit_vector) requires ptr < 0x100;
                }
                self.ea = self.read16_wrap(mem, host, ptr);
            },
            AddrMode::Iny => {
                let ptr = self.rd(mem, host, self.opr) as u16;
                proof {
                    lemma_keeps_bytes(m0, *mem);
                    assert(ptr < 0x100 && indirect_hi(ptr) < 0x100) by (bit_vector) requires ptr < 0x100;
                }
                let base = self.read16_wrap(mem, host, ptr);
                self.ea = base.wrapping_add(self.y as u16);
                if penalty && (base & 0xff00) != (self.ea & 0xff00) {
                    self.cycle = self.cycle + 1;
                    self.cost = self.cost + 1;
                }
            },
        }
    }

    /// The operand of a read instruction: A in accumulator mode, else the byte at the
    /// effective address.
    fn operand<H: Screen + Speaker + InputPoller>(&mut self, mem: &mut CPUMemory, host: &mut H) -> (r: u8)
        requires
            old(mem).wf(),
        ensures
            accessed(*old(self), *final(self), *old(mem), *final(mem)),
            final(mem).keeps_memory(*old(mem)),
            old(self).acc ==> r == old(self).a && *final(self) == *old(self) && *final(mem) == *old(mem),
            !old(self).acc && old(self).ea < 0x2000 ==> r == old(mem).sram@[(old(self).ea % 0x800) as int],
            !old(self).acc && old(self).ea >= 0x6000 ==> r == old(mem).mapper.spec_read(old(self).ea),
    {
        if self.acc {
            self.a
        } else {
            self.rd(mem, host, self.ea)
        }
    }

    /// ASL, LSR, ROL, ROR on A or on memory.
    fn op_shift<H: Screen + Speaker + InputPoller>(&mut self, mem: &mut CPUMemory, host: &mut H, op: Op)
        requires
            old(mem).wf(),
        ensures
            final(mem).wf(),
            final(self).cycle <= old(self).cycle,
            old(self).acc ==> *final(self) == (CPU {
                a: shift_result(op, old(self).a, old(self).status).0,
                status: shift_result(op, old(self).a, old(self).status).1,
                ..*old(self)
            }),
            !old(self).acc ==> *final(self) == (CPU {
                status: final(self).status,
                cycle: final(self).cycle,
                int: final(self).int,
                ..*old(self)
            }),
            !old(self).acc && old(self).ea < 0x2000 ==> {
                let v = old(mem).sram@[(old(self).ea % 0x800) as int];
                &&& final(self).status == shift_result(op, v, old(self).status).1
                &&& final(mem).sram@ == old(mem).sram@.update(
                    (old(self).ea % 0x800) as int, shift_result(op, v, old(self).status).0)
            },
    {
        if self.acc {
            let (r, st) = alu_shift(op, self.a, self.status);
            self.a = r;
            self.status = st;
        } else {
            let ea = self.ea;
            let v = self.rd(mem, host, ea);
            let (r, st) = alu_shift(op, v, self.status);
            self.wr(mem, host, ea, r);
            self.status = st;
        }
    }

    /// INC and DEC on memory.
    fn op_step_mem<H: Screen + Speaker + InputPoller>(&mut self, mem: &mut CPUMemory, host: &mut H, up: bool)
        requires
            old(mem).wf(),
        ensures
            final(mem).wf(),
            final(self).cycle <= old(self).cycle,
            *final(self) == (CPU {
                status: final(self).status,
                cycle: final(self).cycle,
                int: final(self).int,
                ..*old(self)
            }),
            old(self).ea < 0x2000 ==> {
                let v = old(mem).sram@[(old(self).ea % 0x800) as int];
                let r = if up { v.wrapping_add(1) } else { v.wrapping_sub(1) };
                &&& final(self).status == with_nz(old(self).status, r)
                &&& final(mem).sram@ == old(mem).sram@.update((old(self).ea % 0x800) as int, r)
            },
    {
        let ea = self.ea;
        let v = self.rd(mem, host, ea);
        let r = if up { v.wrapping_add(1) } else { v.wrapping_sub(1) };
        self.wr(mem, host, ea, r);
        self.status = nz(self.status, r);
    }

    /// STA, STX, STY.
    fn op_store<H: Screen + Speaker + InputPoller>(&mut self, mem: &mut CPUMemory, host: &mut H, v: u8)
        requires
            old(mem).wf(),
        ensures
            accessed(*old(self), *final(self), *old(mem), *final(mem)),
            old(self).ea < 0x2000 ==> final(mem).sram@ == old(mem).sram@.update(
                (old(self).ea % 0x800) as int, v),
    {
        let ea = self.ea;
        self.wr(mem, host, ea, v);
    }

    /// JSR: pushes the address of its own last byte, then jumps.
    fn op_jsr<H: Screen + Speaker + InputPoller>(&mut self, mem: &mut CPUMemory, host: &mut H)
        requires
            old(mem).wf(),
        ensures
            final(mem).wf(),
            final(self).cycle <= old(self).cycle,
            *final(self) == (CPU {
                pc: old(self).ea,
                sp: old(self).sp.wrapping_sub(2),
                cycle: final(self).cycle,
                int: final(self).int,
                ..*old(self)
            }),
            final(mem).sram@ == old(mem).sram@.update(
                stack_addr(old(self).sp, 0) as int, (old(self).pc.wrapping_sub(1) >> 8u16) as u8).update(
                stack_addr(old(self).sp.wrapping_sub(1), 0) as int, old(self).pc.wrapping_sub(1) as u8),
    {
        let ret = self.pc.wrapping_sub(1);
        self.push(mem, host, (ret >> 8u16) as u8);
        self.push(mem, host, ret as u8);
        self.pc = self.ea;
        proof {
            lemma_stack(old(self).sp);
        }
    }

    /// RTS: pops the return address and adds one.
    fn op_rts<H: Screen + Speaker + InputPoller>(&mut self, mem: &mut CPUMemory, host: &mut H)
        requires
            old(mem).wf(),
        ensures
            final(mem).wf(),
            final(mem).keeps_memory(*old(mem)),
            final(self).cycle <= old(self).cycle,
            *final(self) == (CPU {
                pc: final(self).pc,
                sp: old(self).sp.wrapping_add(2),
                cycle: final(self).cycle,
                int: final(self).int,
                ..*old(self)
            }),
            final(self).pc == ((old(mem).sram@[stack_addr(old(self).sp.wrapping_add(2), 0) as int] as u16
                * 256 + old(mem).sram@[stack_addr(old(self).sp.wrapping_add(1), 0) as int] as u16)
                as u16).wrapping_add(1),
    {
        let low = self.pull(mem, host) as u16;
        let high = self.pull(mem, host) as u16;
        self.pc = (high * 256 + low).wrapping_add(1);
        proof {
            lemma_stack(old(self).sp);
        }
    }

    /// RTI: pops the status, then the return address as it stands.
    fn op_rti<H: Screen + Speaker + InputPoller>(&mut self, mem: &mut CPUMemory, host: &mut H)
        requires
            old(mem).wf(),
        ensures
            final(mem).wf(),
            final(mem).keeps_memory(*old(mem)),
            final(self).cycle <= old(self).cycle,
            *final(self) == (CPU {
                status: old(mem).sram@[stack_addr(old(self).sp.wrapping_add(1), 0) as int],
                pc: (old(mem).sram@[stack_addr(old(self).sp.wrapping_add(3), 0) as int] as u16 * 256
                    + old(mem).sram@[stack_addr(old(self).sp.wrapping_add(2), 0) as int] as u16) as u16,
                sp: old(self).sp.wrapping_add(3),
                cycle: final(self).cycle,
                int: final(self).int,
                ..*old(self)
            }),
    {
        self.status = self.pull(mem, host);
        let low = self.pull(mem, host) as u16;
        let high = self.pull(mem, host) as u16;
        self.pc = high * 256 + low;
        proof {
            lemma_stack(old(self).sp);
        }
    }

    /// Pushes PC and status and jumps through `vector` with I set: BRK, NMI and IRQ.
    fn push_and_jump<H: Screen + Speaker + InputPoller>(&mut self, mem: &mut CPUMemory, host: &mut H, pc: u16, status: u8, vector: u16)
        requires
            old(mem).wf(),
            vector >= 0x6000 && vector < 0xffff,
        ensures
            final(mem).wf(),
            final(self).cycle <= old(self).cycle,
            *final(self) == (CPU {
                pc: final(self).pc,
                sp: old(self).sp.wrapping_sub(3),
                status: status | INT_FLAG,
                cycle: final(self).cycle,
                int: final(self).int,
                ..*old(self)
            }),
            final(self).pc == old(mem).mapper.spec_read((vector + 1) as u16) as u16 * 256
                + old(mem).mapper.spec_read(vector) as u16,
            final(mem).sram@ == old(mem).sram@.update(stack_addr(old(self).sp, 0) as int, (pc >> 8u16) as u8).update(
                stack_addr(old(self).sp.wrapping_sub(1), 0) as int, pc as u8).update(
                stack_addr(old(self).sp.wrapping_sub(2), 0) as int, status),
    {
        self.push(mem, host, (pc >> 8u16) as u8);
        self.push(mem, host, pc as u8);
        self.push(mem, host, status);
        self.pc = self.read16(mem, host, vector);
        self.status = status | INT_FLAG;
        proof {
            lemma_stack(old(self).sp);
        }
    }
}

impl CPU {
    /// Carries out a decoded operation once its effective address is known.
    #[verifier::spinoff_prover]
    fn execute<H: Screen + Speaker + InputPoller>(&mut self, mem: &mut CPUMemory, host: &mut H, op: Op)
        requires
            old(mem).wf(),
            old(self).cycle <= CYCLE_LIMIT + 301,
            old(self).cost <= 300,
        ensures
            final(mem).wf(),
            final(self).cycle <= old(self).cycle + 2,
            !is_flow(op) ==> final(self).pc == old(self).pc,
            reg_op(op, old(self).acc) && (old(self).acc || pure_addr(old(self).ea) || !reads_operand(op))
                ==> final(self).same_regs(exec_regs(op, *old(self), operand_value(*old(mem), *old(self)))),
            (op == Op::Sta || op == Op::Stx || op == Op::Sty) ==> final(self).same_regs(*old(self)),
            (op == Op::Sta || op == Op::Stx || op == Op::Sty) && old(self).ea < 0x2000 ==> final(mem).sram@
                == old(mem).sram@.update((old(self).ea % 0x800) as int, if op == Op::Sta {
                old(self).a
            } else if op == Op::Stx {
                old(self).x
            } else {
                old(self).y
            }),
    {
        match op {
            Op::Adc => {
                let m = self.operand(mem, host);
                self.op_adc(m);
            },
            Op::Sbc => {
                let m = self.operand(mem, host);
                self.op_sbc(m);
            },
            Op::Cmp => {
                let m = self.operand(mem, host);
                self.op_cmp(m);
            },
            Op::Cpx => {
                let m = self.operand(mem, host);
                self.op_cpx(m);
            },
            Op::Cpy => {
                let m = self.operand(mem, host);
                self.op_cpy(m);
            },
            Op::And => {
                let m = self.operand(mem, host);
                self.op_and(m);
            },
            Op::Eor => {
                let m = self.operand(mem, host);
                self.op_eor(m);
            },
            Op::Ora => {
                let m = self.operand(mem, host);
                self.op_ora(m);
            },
            Op::Bit => {
                let m = self.operand(mem, host);
                self.op_bit(m);
            },
            Op::Lda => {
                let m = self.operand(mem, host);
                self.op_lda(m);
            },
            Op::Ldx => {
                let m = self.operand(mem, host);
                self.op_ldx(m);
            },
            Op::Ldy => {
                let m = self.operand(mem, host);
                self.op_ldy(m);
            },
            Op::Asl | Op::Lsr | Op::Rol | Op::Ror => self.op_shift(mem, host, op),
            Op::Inc => self.op_step_mem(mem, host, true),
            Op::Dec => self.op_step_mem(mem, host, false),
            Op::Inx => self.op_inx(),
            Op::Iny => self.op_iny(),
            Op::Dex => self.op_dex(),
            Op::Dey => self.op_dey(),
            Op::Tax => self.op_tax(),
            Op::Tay => self.op_tay(),
            Op::Txa => self.op_txa(),
            Op::Tya => self.op_tya(),
            Op::Tsx => self.op_tsx(),
            Op::Txs => self.op_txs(),
            Op::Clc => self.op_clear(CARRY_FLAG),
            Op::Cld => self.op_clear(DEC_FLAG),
            Op::Cli => self.op_clear(INT_FLAG),
            Op::Clv => self.op_clear(OVER_FLAG),
            Op::Sec => self.op_set(CARRY_FLAG),
            Op::Sed => self.op_set(DEC_FLAG),
            Op::Sei => self.op_set(INT_FLAG),
            Op::Bcc => {
                let c = self.get_carry() == 0;
                self.op_branch(c);
            },
            Op::Bcs => {
                let c = self.get_carry() != 0;
                self.op_branch(c);
            },
            Op::Bne => {
                let c = self.get_zero() == 0;
                self.op_branch(c);
            },
            Op::Beq => {
                let c = self.get_zero() != 0;
                self.op_branch(c);
            },
            Op::Bpl => {
                let c = self.get_neg() == 0;
                self.op_branch(c);
            },
            Op::Bmi => {
                let c = self.get_neg() != 0;
                self.op_branch(c);
            },
            Op::Bvc => {
                let c = self.get_over() == 0;
                self.op_branch(c);
            },
            Op::Bvs => {
                let c = self.get_over() != 0;
                self.op_branch(c);
            },
            Op::Jmp => self.op_jmp(),
            Op::Jsr => self.op_jsr(mem, host),
            Op::Rts => self.op_rts(mem, host),
            Op::Rti => self.op_rti(mem, host),
            Op::Brk => {
                let pc = self.pc.wrapping_add(1);
                let st = self.status | BRK_FLAG;
                self.push_and_jump(mem, host, pc, st, BRK_VECTOR);
            },
            Op::Sta => {
                let v = self.a;
                self.op_store(mem, host, v);
            },
            Op::Stx => {
                let v = self.x;
                self.op_store(mem, host, v);
            },
            Op::Sty => {
                let v = self.y;
                self.op_store(mem, host, v);
            },
            Op::Pha => {
                let v = self.a;
                self.push(mem, host, v);
            },
            Op::Php => {
                let v = self.status;
                self.push(mem, host, v);
            },
            Op::Pla => {
                let v = self.pull(mem, host);
                self.op_lda(v);
            },
            Op::Plp => {
                self.status = self.pull(mem, host);
            },
            Op::Nop | Op::Nil => {},
        }
    }

    /// Takes an NMI or IRQ: 7 cycles, PC and status pushed, I set, PC from the vector.
    fn interrupt<H: Screen + Speaker + InputPoller>(&mut self, mem: &mut CPUMemory, host: &mut H, vector: u16)
        requires
            old(mem).wf(),
            old(self).cycle <= CYCLE_LIMIT,
            vector == NMI_VECTOR || vector == IRQ_VECTOR,
        ensures
            final(mem).wf(),
            final(self).cycle <= old(self).cycle + 7,
            *final(self) == (CPU {
                pc: final(self).pc,
                sp: old(self).sp.wrapping_sub(3),
                cost: 7,
                status: old(self).status | INT_FLAG,
                cycle: final(self).cycle,
                int: final(self).int,
                ..*old(self)
            }),
            final(self).pc == old(mem).mapper.spec_read((vector + 1) as u16) as u16 * 256
                + old(mem).mapper.spec_read(vector) as u16,
            final(mem).sram@ == old(mem).sram@.update(stack_addr(old(self).sp, 0) as int, (old(self).pc >> 8u16) as u8).update(
                stack_addr(old(self).sp.wrapping_sub(1), 0) as int, old(self).pc as u8).update(
                stack_addr(old(self).sp.wrapping_sub(2), 0) as int, old(self).status),
    {
        self.cycle = self.cycle + 7;
        self.cost = 7;
        let pc = self.pc;
        let st = self.status;
        self.push_and_jump(mem, host, pc, st, vector);
    }

    /// Runs a decoded instruction: its effective address, then its operation.
    #[verifier::spinoff_prover]
    #[verifier::rlimit(100)]
    fn run_decoded<H: Screen + Speaker + InputPoller>(&mut self, mem: &mut CPUMemory, host: &mut H, op: Op, mode: AddrMode)
        requires
            old(mem).wf(),
            old(self).cycle <= CYCLE_LIMIT + 260,
            old(self).cost <= 255,
        ensures
            final(mem).wf(),
            final(self).cycle <= old(self).cycle + 3,
            !is_flow(op) ==> final(self).pc == old(self).pc,
            instr_post(op, mode, *old(self), *old(mem), *final(self), *final(mem)),
    {
        self.fetch_ea(mem, host, mode, page_cross_applies(op));
        let ghost m2 = *mem;
        proof {
            lemma_keeps_bytes(*old(mem), m2);
        }
        self.execute(mem, host, op);
        proof {
            reveal(instr_post);
        }
    }

    /// Executes the pending interrupt, or else one instruction. The instruction's cost is
    /// credited to the cycle counter up front (less the cycles its own bus accesses already
    /// consumed); an undocumented opcode is refused with `Err(opcode)`.
    #[verifier::spinoff_prover]
    #[verifier::rlimit(60)]
    pub fn step<H: Screen + Speaker + InputPoller>(&mut self, mem: &mut CPUMemory, host: &mut H) -> (r: Result<(), u8>)
        requires
            old(mem).wf(),
            old(self).cycle <= CYCLE_LIMIT,
        ensures
            final(mem).wf(),
            final(self).cycle <= old(self).cycle + 260,
            r matches Err(op) ==> decode_spec(op).0 == Op::Nil,
            (old(self).int == Some(IntType::NMI) || old(self).int == Some(IntType::IRQ)) ==> {
                let vector = if old(self).int == Some(IntType::NMI) { NMI_VECTOR } else { IRQ_VECTOR };
                &&& r is Ok
                &&& final(self).int.is_none()
                &&& final(self).sp == old(self).sp.wrapping_sub(3)
                &&& final(self).status == old(self).status | INT_FLAG
                &&& final(self).pc == old(mem).mapper.spec_read((vector + 1) as u16) as u16 * 256
                    + old(mem).mapper.spec_read(vector) as u16
                &&& final(mem).sram@ == old(mem).sram@.update(stack_addr(old(self).sp, 0) as int, (old(self).pc >> 8u16) as u8).update(
                    stack_addr(old(self).sp.wrapping_sub(1), 0) as int, old(self).pc as u8).update(
                    stack_addr(old(self).sp.wrapping_sub(2), 0) as int, old(self).status)
            },
            (old(self).int == Some(IntType::NMI) || old(self).int == Some(IntType::IRQ)) ==> final(self).cost == 7,
            old(self).int.is_none() && old(self).pc >= 0x6000 ==> (r is Err <==> decode_spec(
                old(mem).mapper.spec_read(old(self).pc)).0 == Op::Nil),
            old(self).int.is_none() && pure_addr(old(self).pc) && r is Ok ==> ({
                let opc = byte_at(*old(mem), old(self).pc);
                let (op, mode) = decode_spec(opc);
                let opr = old(self).pc.wrapping_add(1);
                let npc = old(self).pc.wrapping_add(INST_LENGTH[opc as int] as u16);
                instr_post(op, mode, CPU { pc: npc, opr, cost: INST_CYCLE[opc as int] as u32, ..*old(self) },
                    *old(mem), *final(self), *final(mem))
            }),
            old(self).int.is_none() && old(self).pc >= 0x6000 && r is Ok && !is_flow(
                decode_spec(old(mem).mapper.spec_read(old(self).pc)).0,
            ) ==> final(self).pc == old(self).pc.wrapping_add(
                INST_LENGTH[old(mem).mapper.spec_read(old(self).pc) as int] as u16,
            ),
            old(self).int.is_none() && old(self).pc < 0x2000 ==> (r is Err <==> decode_spec(
                old(mem).sram@[(old(self).pc % 0x800) as int]).0 == Op::Nil),
    {
        match self.int {
            Some(IntType::NMI) => {
                self.interrupt(mem, host, NMI_VECTOR);
                self.int = None;
                return Ok(());
            },
            Some(IntType::IRQ) => {
                self.interrupt(mem, host, IRQ_VECTOR);
                self.int = None;
                return Ok(());
            },
            Some(IntType::DelayedNMI) => {
                self.trigger_nmi();
            },
            None => {},
        }
        let pc = self.pc;
        self.cycle = self.cycle + 1;
        let opcode = self.rd(mem, host, pc);
        let (op, mode) = decode(opcode);
        if op == Op::Nil {
            return Err(opcode);
        }
        let c = INST_CYCLE[opcode as usize] as u32;
        if c > 0 {
            self.cycle = self.cycle + (c - 1);
        }
        self.cost = c;
        self.opr = pc.wrapping_add(1);
        self.pc = pc.wrapping_add(INST_LENGTH[opcode as usize] as u16);
        let ghost m1 = *mem;
        let ghost pre = *self;
        proof {
            lemma_keeps_bytes(*old(mem), m1);
        }
        self.run_decoded(mem, host, op, mode);
        proof {
            let spec_pre = CPU {
                pc: pre.pc,
                opr: pre.opr,
                cost: INST_CYCLE[opcode as int] as u32,
                ..*old(self)
            };
            lemma_instr_post_congruent(op, mode, pre, spec_pre, m1, *old(mem), *self, *mem);
        }
        Ok(())
    }

    /// Power-up: PC from the reset vector, SP 0xfd, status 0x34, two cycles pending.
    pub fn powerup<H: Screen + Speaker + InputPoller>(&mut self, mem: &mut CPUMemory, host: &mut H)
        requires
            old(mem).wf(),
        ensures
            final(mem).wf(),
            final(self).pc == old(mem).mapper.spec_read(0xfffd) as u16 * 256 + old(mem).mapper.spec_read(0xfffc) as u16,
            final(self).sp == 0xfd,
            final(self).status == 0x34,
            final(self).cycle == 2,
            final(self).int.is_none(),
    {
        self.pc = self.read16(mem, host, RESET_VECTOR);
        self.sp = 0xfd;
        self.status = 0x34;
        self.cycle = 2;
        self.int = None;
    }

    /// Reset: PC from the reset vector, SP lowered by three, I set, nothing pending.
    pub fn reset<H: Screen + Speaker + InputPoller>(&mut self, mem: &mut CPUMemory, host: &mut H)
        requires
            old(mem).wf(),
        ensures
            final(mem).wf(),
            final(self).pc == old(mem).mapper.spec_read(0xfffd) as u16 * 256 + old(mem).mapper.spec_read(0xfffc) as u16,
            final(self).sp == old(self).sp.wrapping_sub(3),
            final(self).status == old(self).status | INT_FLAG,
            final(self).cycle == 0,
            final(self).int.is_none(),
            final(self).a == old(self).a && final(self).x == old(self).x && final(self).y == old(
                self).y,
    {
        self.pc = self.read16(mem, host, RESET_VECTOR);
        self.sp = self.sp.wrapping_sub(3);
        self.status = self.status | INT_FLAG;
        self.cycle = 0;
        self.int = None;
    }
}


/// The saved code of the pending-interrupt slot.
pub open spec fn int_code(i: Option<IntType>) -> u8 {
    match i {
        None => 0,
        Some(IntType::NMI) => 1,
        Some(IntType::IRQ) => 2,
        Some(IntType::DelayedNMI) => 3,
    }
}

pub open spec fn int_of_code(c: u8) -> Option<IntType> {
    if c == 1 {
        Some(IntType::NMI)
    } else if c == 2 {
        Some(IntType::IRQ)
    } else if c == 3 {
        Some(IntType::DelayedNMI)
    } else {
        None
    }
}

pub fn int_code_exec(i: Option<IntType>) -> (r: u8)
    ensures
        r == int_code(i),
{
    match i {
        None => 0,
        Some(IntType::NMI) => 1,
        Some(IntType::IRQ) => 2,
        Some(IntType::DelayedNMI) => 3,
    }
}

pub fn int_of_code_exec(c: u8) -> (r: Option<IntType>)
    ensures
        r == int_of_code(c),
{
    if c == 1 {
        Some(IntType::NMI)
    } else if c == 2 {
        Some(IntType::IRQ)
    } else if c == 3 {
        Some(IntType::DelayedNMI)
    } else {
        None
    }
}

pub proof fn lemma_dec_int(b: Seq<u8>, i: int, x: Option<IntType>)
    requires
        0 <= i && i + 1 <= b.len(),
        b.subrange(i, i + 1) == seq![int_code(x)],
    ensures
        int_of_code(b[i]) == x,
{
    assert(b.subrange(i, i + 1)[0] == b[i]);
}

impl CPU {
    /// A cycle credit the bus can consume without overflow.
    pub open spec fn wf(&self) -> bool {
        self.cycle <= CYCLE_LIMIT
    }

    pub fn check_wf(&self) -> (r: bool)
        ensures
            r == self.wf(),
    {
        self.cycle <= CYCLE_LIMIT
    }
}

pub const CPU_STATE_LEN: usize = 17;

impl CPU {
    pub open spec fn encode_0(&self) -> Seq<u8> {
        seq![self.a]
            + seq![self.x]
            + seq![self.y]
            + seq![self.status]
    }

    pub open spec fn decodes_0(&self, b: Seq<u8>) -> bool {
        &&& b.len() == 4
        &&& self.a == b[0]
        &&& self.x == b[1]
        &&& self.y == b[2]
        &&& self.status == b[3]
    }

    pub open spec fn encode_1(&self) -> Seq<u8> {
        enc_u16(self.pc)
            + seq![self.sp]
            + enc_bool(self.acc)
            + enc_u16(self.opr)
    }

    pub open spec fn decodes_1(&self, b: Seq<u8>) -> bool {
        &&& b.len() == 6
        &&& self.pc == dec_u16(b, 0)
        &&& self.sp == b[2]
        &&& self.acc == dec_bool(b, 3)
        &&& self.opr == dec_u16(b, 4)
    }

    pub open spec fn encode_2(&self) -> Seq<u8> {
        enc_u16(self.ea)
            + enc_u32(self.cycle)
            + seq![int_code(self.int)]
    }

    pub open spec fn decodes_2(&self, b: Seq<u8>) -> bool {
        &&& b.len() == 7
        &&& self.ea == dec_u16(b, 0)
        &&& self.cycle == dec_u32(b, 2)
        &&& self.int == int_of_code(b[6])
    }

    /// The saved form of this state, field by field.
    #[verifier::opaque]
    pub open spec fn encode(&self) -> Seq<u8> {
        self.encode_0() + self.encode_1() + self.encode_2()
    }

    /// Whether this state is the one the saved bytes `b` describe.
    #[verifier::opaque]
    pub open spec fn decodes(&self, b: Seq<u8>) -> bool {
        &&& b.len() == 17
        &&& self.decodes_0(b.subrange(0, 4))
        &&& self.decodes_1(b.subrange(4, 10))
        &&& self.decodes_2(b.subrange(10, 17))
    }

    /// Equal in every saved field.
    #[verifier::opaque]
    pub open spec fn same_as(&self, o: Self) -> bool {
        &&& self.a == o.a
        &&& self.x == o.x
        &&& self.y == o.y
        &&& self.status == o.status
        &&& self.pc == o.pc
        &&& self.sp == o.sp
        &&& self.acc == o.acc
        &&& self.opr == o.opr
        &&& self.ea == o.ea
        &&& self.cycle == o.cycle
        &&& self.int == o.int
    }

    fn save_0(&self, out: &mut Vec<u8>)
        requires
            self.wf(),
        ensures
            final(out)@ == old(out)@ + self.encode_0(),
    {
        put_u8(out, self.a);
        put_u8(out, self.x);
        put_u8(out, self.y);
        put_u8(out, self.status);
        assert(final(out)@ =~= old(out)@ + self.encode_0());
    }

    fn save_1(&self, out: &mut Vec<u8>)
        requires
            self.wf(),
        ensures
            final(out)@ == old(out)@ + self.encode_1(),
    {
        put_u16(out, self.pc);
        put_u8(out, self.sp);
        put_bool(out, self.acc);
        put_u16(out, self.opr);
        assert(final(out)@ =~= old(out)@ + self.encode_1());
    }

    fn save_2(&self, out: &mut Vec<u8>)
        requires
            self.wf(),
        ensures
            final(out)@ == old(out)@ + self.encode_2(),
    {
        put_u16(out, self.ea);
        put_u32(out, self.cycle);
        put_u8(out, int_code_exec(self.int));
        assert(final(out)@ =~= old(out)@ + self.encode_2());
    }

    pub fn save(&self, out: &mut Vec<u8>)
        requires
            self.wf(),
        ensures
            final(out)@ == old(out)@ + self.encode(),
            self.encode().len() == CPU_STATE_LEN,
    {
        proof {
            reveal(CPU::encode);
        }
        let ghost start = out@;
        self.save_0(out);
        proof {
            lemma_cpu_own_0(*self);
        }
        self.save_1(out);
        proof {
            lemma_cpu_own_1(*self);
        }
        self.save_2(out);
        proof {
            lemma_cpu_own_2(*self);
        }
        assert(out@ =~= start + self.encode());
    }

    /// The state saved at `pos`, or `None` when the bytes run short or describe no
    /// consistent state.
    pub fn decode(buf: &Vec<u8>, pos: usize) -> (r: Option<Self>)
        ensures
            r matches Some(t) ==> t.wf() && pos + CPU_STATE_LEN <= buf@.len() && t.decodes(
                buf@.subrange(pos as int, pos + CPU_STATE_LEN)),
            (pos + CPU_STATE_LEN <= buf@.len() && exists|t: Self| t.wf() && #[trigger] t.decodes(
                buf@.subrange(pos as int, pos + CPU_STATE_LEN))) ==> r is Some,
    {
        if buf.len() < CPU_STATE_LEN || pos > buf.len() - CPU_STATE_LEN {
            return None;
        }
        let ghost b = buf@.subrange(pos as int, pos + CPU_STATE_LEN);
        proof {
            reveal(CPU::decodes);
        }
        let ghost b0 = b.subrange(0, 4);
        assert(b0 =~= buf@.subrange(pos + 0, pos + 4));
        let a = get_u8(buf, pos + 0);
        let x = get_u8(buf, pos + 1);
        let y = get_u8(buf, pos + 2);
        let status = get_u8(buf, pos + 3);
        let ghost b1 = b.subrange(4, 10);
        assert(b1 =~= buf@.subrange(pos + 4, pos + 10));
        let pc = get_u16(buf, pos + 4);
        let sp = get_u8(buf, pos + 6);
        let acc = get_bool(buf, pos + 7);
        let opr = get_u16(buf, pos + 8);
        let ghost b2 = b.subrange(10, 17);
        assert(b2 =~= buf@.subrange(pos + 10, pos + 17));
        let ea = get_u16(buf, pos + 10);
        let cycle = get_u32(buf, pos + 12);
        let slot = int_of_code_exec(get_u8(buf, pos + 16));
        let t = CPU { a, x, y, status, pc, sp, acc, opr, ea, cycle, int: slot, cost: 0 };
        assert(t.decodes_0(b0));
        assert(t.decodes_1(b1));
        assert(t.decodes_2(b2));
        assert(t.decodes(b));
        if !t.check_wf() {
            proof {
                assert forall|u: Self| #[trigger] u.decodes(b) implies !u.wf() by {
                    lemma_cpu_unique(t, u, b);
                }
            }
            return None;
        }
        Some(t)
    }

    /// Restores the state saved at `pos`; on failure nothing changes.
    pub fn load(&mut self, buf: &Vec<u8>, pos: usize) -> (ok: bool)
        requires
            old(self).wf(),
        ensures
            final(self).wf(),
            ok ==> pos + CPU_STATE_LEN <= buf@.len() && final(self).decodes(
                buf@.subrange(pos as int, pos + CPU_STATE_LEN)),
            !ok ==> *final(self) == *old(self),
            (pos + CPU_STATE_LEN <= buf@.len() && exists|t: Self| t.wf() && #[trigger] t.decodes(
                buf@.subrange(pos as int, pos + CPU_STATE_LEN))) ==> ok,
    {
        match Self::decode(buf, pos) {
            Some(t) => {
                *self = t;
                true
            },
            None => false,
        }
    }
}

/// Round trip: what `save` writes decodes to the state saved, and any state decoding those
/// bytes equals it in every saved field.
pub proof fn lemma_cpu_round_trip(s: CPU, t: CPU)
    requires
        s.wf(),
        t.decodes(s.encode()),
    ensures
        s.decodes(s.encode()),
        t.same_as(s),
{
    lemma_cpu_decodes_own(s);
    lemma_cpu_unique(s, t, s.encode());
}

/// Two states decoding the same bytes agree in every saved field, and one is consistent
/// exactly when the other is.
pub proof fn lemma_cpu_unique(s: CPU, t: CPU, b: Seq<u8>)
    requires
        s.decodes(b),
        t.decodes(b),
    ensures
        t.same_as(s),
        t.wf() == s.wf(),
{
    reveal(CPU::decodes);
    reveal(CPU::same_as);
    lemma_cpu_unique_0(s, t, b.subrange(0, 4));
    lemma_cpu_unique_1(s, t, b.subrange(4, 10));
    lemma_cpu_unique_2(s, t, b.subrange(10, 17));
}

proof fn lemma_cpu_unique_0(s: CPU, t: CPU, b: Seq<u8>)
    requires
        s.decodes_0(b),
        t.decodes_0(b),
    ensures
        t.a == s.a,
        t.x == s.x,
        t.y == s.y,
        t.status == s.status,
{
}

proof fn lemma_cpu_unique_1(s: CPU, t: CPU, b: Seq<u8>)
    requires
        s.decodes_1(b),
        t.decodes_1(b),
    ensures
        t.pc == s.pc,
        t.sp == s.sp,
        t.acc == s.acc,
        t.opr == s.opr,
{
}

proof fn lemma_cpu_unique_2(s: CPU, t: CPU, b: Seq<u8>)
    requires
        s.decodes_2(b),
        t.decodes_2(b),
    ensures
        t.ea == s.ea,
        t.cycle == s.cycle,
        t.int == s.int,
{
}

pub proof fn lemma_cpu_decodes_own(s: CPU)
    requires
        s.wf(),
    ensures
        s.decodes(s.encode()),
        s.encode().len() == 17,
{
    reveal(CPU::decodes);
    reveal(CPU::encode);
    lemma_cpu_own_0(s);
    lemma_cpu_own_1(s);
    lemma_cpu_own_2(s);
    let e = s.encode();
    assert(e.subrange(0, 4) =~= s.encode_0());
    assert(e.subrange(4, 10) =~= s.encode_1());
    assert(e.subrange(10, 17) =~= s.encode_2());
}

proof fn lemma_cpu_own_0(s: CPU)
    requires
        s.wf(),
    ensures
        s.encode_0().len() == 4,
        s.decodes_0(s.encode_0()),
{
    let e = s.encode_0();
    assert(e.subrange(0, 1) =~= seq![s.a]);
    lemma_dec_u8(e, 0, s.a);
    assert(e.subrange(1, 2) =~= seq![s.x]);
    lemma_dec_u8(e, 1, s.x);
    assert(e.subrange(2, 3) =~= seq![s.y]);
    lemma_dec_u8(e, 2, s.y);
    assert(e.subrange(3, 4) =~= seq![s.status]);
    lemma_dec_u8(e, 3, s.status);
}

proof fn lemma_cpu_own_1(s: CPU)
    requires
        s.wf(),
    ensures
        s.encode_1().len() == 6,
        s.decodes_1(s.encode_1()),
{
    let e = s.encode_1();
    assert(e.subrange(0, 2) =~= enc_u16(s.pc));
    lemma_dec_u16(e, 0, s.pc);
    assert(e.subrange(2, 3) =~= seq![s.sp]);
    lemma_dec_u8(e, 2, s.sp);
    assert(e.subrange(3, 4) =~= enc_bool(s.acc));
    lemma_dec_bool(e, 3, s.acc);
    assert(e.subrange(4, 6) =~= enc_u16(s.opr));
    lemma_dec_u16(e, 4, s.opr);
}

proof fn lemma_cpu_own_2(s: CPU)
    requires
        s.wf(),
    ensures
        s.encode_2().len() == 7,
        s.decodes_2(s.encode_2()),
{
    let e = s.encode_2();
    assert(e.subrange(0, 2) =~= enc_u16(s.ea));
    lemma_dec_u16(e, 0, s.ea);
    assert(e.subrange(2, 6) =~= enc_u32(s.cycle));
    lemma_dec_u32(e, 2, s.cycle);
    assert(e.subrange(6, 7) =~= seq![int_code(s.int)]);
    lemma_dec_int(e, 6, s.int);
}

} // verus!

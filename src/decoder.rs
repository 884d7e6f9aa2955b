use vstd::prelude::*;

verus! {

/// The byte or word a register encoding names, as `[byte name, word name]`.
pub open spec fn register_name_spec(reg: u8, wide: bool) -> Seq<char> {
    if wide {
        match reg {
            0 => "ax"@,
            1 => "cx"@,
            2 => "dx"@,
            3 => "bx"@,
            4 => "sp"@,
            5 => "bp"@,
            6 => "si"@,
            _ => "di"@,
        }
    } else {
        match reg {
            0 => "al"@,
            1 => "cl"@,
            2 => "dl"@,
            3 => "bl"@,
            4 => "ah"@,
            5 => "ch"@,
            6 => "dh"@,
            _ => "bh"@,
        }
    }
}

/// Name of the register with encoding `reg`; `None` for an encoding above 7.
pub fn get_register_name(reg: u8, wide: bool) -> (r: Option<&'static str>)
    ensures
        reg > 7 ==> r.is_none(),
        reg <= 7 ==> r.is_some() && r.unwrap()@ == register_name_spec(reg, wide),
{
    if reg > 7 {
        return None;
    }
    let name = if wide {
        match reg {
            0 => "ax",
            1 => "cx",
            2 => "dx",
            3 => "bx",
            4 => "sp",
            5 => "bp",
            6 => "si",
            _ => "di",
        }
    } else {
        match reg {
            0 => "al",
            1 => "cl",
            2 => "dl",
            3 => "bl",
            4 => "ah",
            5 => "ch",
            6 => "dh",
            _ => "bh",
        }
    };
    Some(name)
}


/// Which part of a 16-bit register cell an operand reads and writes.
#[derive(PartialEq, Eq, Structural, Clone, Copy, Debug)]
pub enum RegisterAccess {
    Low,
    High,
    Full,
}

pub open spec fn register_access_spec(encoded_register: u8, wide: bool) -> RegisterAccess {
    if wide {
        RegisterAccess::Full
    } else if (encoded_register / 4) % 2 == 1 {
        RegisterAccess::High
    } else {
        RegisterAccess::Low
    }
}

impl RegisterAccess {
    /// Word registers are accessed whole; byte encodings 4..7 name the high
    /// byte of cells 0..3, encodings 0..3 the low byte.
    pub fn new(encoded_register: u8, wide: bool) -> (r: Self)
        ensures
            r == register_access_spec(encoded_register, wide),
    {
        if wide {
            RegisterAccess::Full
        } else if (encoded_register / 4) % 2 == 1 {
            RegisterAccess::High
        } else {
            RegisterAccess::Low
        }
    }
}

/// Register combinations that a calculated effective address starts from.
#[allow(non_camel_case_types)]
#[derive(PartialEq, Eq, Structural, Clone, Copy, Debug)]
pub enum EffectiveAddressBase {
    BX_SI,
    BX_DI,
    BP_SI,
    BP_DI,
    SI,
    DI,
    BP,
    BX,
}

/// The encodings of the registers (bx = 3, bp = 5, si = 6, di = 7) a base adds up.
pub open spec fn base_encodings_spec(base: EffectiveAddressBase) -> [Option<u8>; 2] {
    match base {
        EffectiveAddressBase::BX_SI => [Some(3u8), Some(6u8)],
        EffectiveAddressBase::BX_DI => [Some(3u8), Some(7u8)],
        EffectiveAddressBase::BP_SI => [Some(5u8), Some(6u8)],
        EffectiveAddressBase::BP_DI => [Some(5u8), Some(7u8)],
        EffectiveAddressBase::SI => [Some(6u8), None],
        EffectiveAddressBase::DI => [Some(7u8), None],
        EffectiveAddressBase::BP => [Some(5u8), None],
        EffectiveAddressBase::BX => [Some(3u8), None],
    }
}

impl EffectiveAddressBase {
    /// The register encodings this base adds up, the second absent for a
    /// single-register base.
    pub fn get_register_encodings(&self) -> (r: [Option<u8>; 2])
        ensures
            r == base_encodings_spec(*self),
    {
        match self {
            Self::BX_SI => [Some(3), Some(6)],
            Self::BX_DI => [Some(3), Some(7)],
            Self::BP_SI => [Some(5), Some(6)],
            Self::BP_DI => [Some(5), Some(7)],
            Self::SI => [Some(6), None],
            Self::DI => [Some(7), None],
            Self::BP => [Some(5), None],
            Self::BX => [Some(3), None],
        }
    }
}

/// The base that the r/m field selects outside the direct-address case.
pub open spec fn base_of_rm(rm: u8) -> EffectiveAddressBase {
    match rm {
        0 => EffectiveAddressBase::BX_SI,
        1 => EffectiveAddressBase::BX_DI,
        2 => EffectiveAddressBase::BP_SI,
        3 => EffectiveAddressBase::BP_DI,
        4 => EffectiveAddressBase::SI,
        5 => EffectiveAddressBase::DI,
        6 => EffectiveAddressBase::BP,
        _ => EffectiveAddressBase::BX,
    }
}

/// A memory operand: a fixed address, or a base plus a displacement.
#[derive(PartialEq, Eq, Structural, Clone, Copy, Debug)]
pub enum EffectiveAddress {
    Direct(u16),
    Calculated { base: EffectiveAddressBase, displacement: u16 },
}

pub open spec fn effective_address_spec(mode: u8, encoding: u8, displacement: u16) -> EffectiveAddress {
    if mode == 0 && encoding == 6 {
        EffectiveAddress::Direct(displacement)
    } else {
        EffectiveAddress::Calculated { base: base_of_rm(encoding), displacement }
    }
}

/// Clocks the 8086 spends computing an effective address.
pub open spec fn ea_clocks_spec(ea: EffectiveAddress) -> u16 {
    match ea {
        EffectiveAddress::Direct(_) => 6,
        EffectiveAddress::Calculated { base, displacement } => match base {
            EffectiveAddressBase::BX | EffectiveAddressBase::BP | EffectiveAddressBase::SI
            | EffectiveAddressBase::DI => if displacement == 0 { 5 } else { 9 },
            EffectiveAddressBase::BP_DI | EffectiveAddressBase::BX_SI => if displacement == 0 { 7 } else { 11 },
            EffectiveAddressBase::BP_SI | EffectiveAddressBase::BX_DI => if displacement == 0 { 8 } else { 12 },
        },
    }
}

impl EffectiveAddress {
    /// Resolves a memory operand: mode 00 with r/m 110 is a direct address,
    /// every other pair adds the displacement to the base r/m selects.
    pub fn new(mode: u8, encoding: u8, displacement: u16) -> (r: Self)
        requires
            encoding < 8,
        ensures
            r == effective_address_spec(mode, encoding, displacement),
    {
        if mode == 0 && encoding == 6 {
            Self::Direct(displacement)
        } else {
            let base = match encoding {
                0 => EffectiveAddressBase::BX_SI,
                1 => EffectiveAddressBase::BX_DI,
                2 => EffectiveAddressBase::BP_SI,
                3 => EffectiveAddressBase::BP_DI,
                4 => EffectiveAddressBase::SI,
                5 => EffectiveAddressBase::DI,
                6 => EffectiveAddressBase::BP,
                _ => EffectiveAddressBase::BX,
            };
            Self::Calculated { base, displacement }
        }
    }

    pub fn get_clocks_estimate(&self) -> (r: u16)
        ensures
            r == ea_clocks_spec(*self),
    {
        match self {
            Self::Direct(_) => 6,
            Self::Calculated { base, displacement } => match base {
                EffectiveAddressBase::BX | EffectiveAddressBase::BP | EffectiveAddressBase::SI
                | EffectiveAddressBase::DI => if *displacement == 0 { 5 } else { 9 },
                EffectiveAddressBase::BP_DI | EffectiveAddressBase::BX_SI => if *displacement == 0 { 7 } else { 11 },
                EffectiveAddressBase::BP_SI | EffectiveAddressBase::BX_DI => if *displacement == 0 { 8 } else { 12 },
            },
        }
    }
}

/// One operand slot of an instruction.
#[derive(PartialEq, Eq, Structural, Clone, Copy, Debug)]
pub enum Operand {
    Register(u8, RegisterAccess),
    Memory(EffectiveAddress),
    ImmediateData(u16),
    /// Signed increment of the instruction pointer.
    LabelOffset(i8),
}

pub open spec fn register_or_memory_spec(mode: u8, reg_or_mem: u8, displacement: u16, wide: bool) -> Operand {
    if mode == 3 {
        Operand::Register(reg_or_mem, register_access_spec(reg_or_mem, wide))
    } else {
        Operand::Memory(effective_address_spec(mode, reg_or_mem, displacement))
    }
}

pub open spec fn register_acc_spec(wide: bool) -> Operand {
    Operand::Register(0, register_access_spec(0, wide))
}

impl Operand {
    /// The operand the mode and r/m fields select: a register for mode 11,
    /// memory otherwise.
    pub fn register_or_memory(mode: u8, reg_or_mem: u8, displacement: u16, wide: bool) -> (r: Self)
        requires
            reg_or_mem < 8,
        ensures
            r == register_or_memory_spec(mode, reg_or_mem, displacement, wide),
    {
        if mode == 3 {
            Self::Register(reg_or_mem, RegisterAccess::new(reg_or_mem, wide))
        } else {
            Self::Memory(EffectiveAddress::new(mode, reg_or_mem, displacement))
        }
    }

    /// The accumulator, al or ax.
    pub fn register_acc(wide: bool) -> (r: Self)
        ensures
            r == register_acc_spec(wide),
    {
        Self::Register(0, RegisterAccess::new(0, wide))
    }
}


/// Decode-time bits of an instruction.
#[derive(PartialEq, Eq, Structural, Clone, Copy, Debug, Default)]
pub struct InstructionFlags {
    pub sign_extend: bool,
    pub wide: bool,
    pub destination: bool,
    /// Shift/rotate count from cl rather than 1.
    pub v: bool,
    pub repeat_on_zero: bool,
}

pub open spec fn flags_spec(sign_extend: bool, wide: bool, destination: bool) -> InstructionFlags {
    InstructionFlags { sign_extend, wide, destination, v: false, repeat_on_zero: false }
}

/// The decode-time bits, one variant each.
#[derive(PartialEq, Eq, Structural, Clone, Copy, Debug)]
pub enum OperationFlag {
    SignExtension,
    Wide,
    Destination,
    Overflow,
    Zero,
}

pub open spec fn has_flag_spec(flags: InstructionFlags, flag: OperationFlag) -> bool {
    match flag {
        OperationFlag::SignExtension => flags.sign_extend,
        OperationFlag::Wide => flags.wide,
        OperationFlag::Destination => flags.destination,
        OperationFlag::Overflow => flags.v,
        OperationFlag::Zero => flags.repeat_on_zero,
    }
}

/// Supported mnemonics, one variant per addressing form.
#[allow(non_camel_case_types)]
#[derive(PartialEq, Eq, Structural, Clone, Copy, Debug)]
pub enum Operation {
    Mov_RegMem_ToFrom_Reg,
    Mov_Imm_To_RegMem,
    Mov_Imm_To_Reg,
    Mov_Mem_To_Acc,
    Mov_Acc_To_Mem,
    Add_RegMem_With_Reg_To_Either,
    Add_Imm_To_RegMem,
    Add_Imm_To_Acc,
    Sub_RegMem_And_Reg_From_Either,
    Sub_Imm_From_RegMem,
    Sub_Imm_From_Acc,
    Cmp_RegMem_And_Reg,
    Cmp_Imm_With_RegMem,
    Cmp_Imm_With_Acc,
    Jmp_On_Equal,
    Jmp_On_Less,
    Jmp_On_Less_Or_Equal,
    Jmp_On_Below,
    Jmp_On_Below_Or_Equal,
    Jmp_On_Greater,
    Jmp_On_Above,
    Jmp_On_Parity,
    Jmp_On_Overflow,
    Jmp_On_Sign,
    Jmp_On_Not_Equal,
    Jmp_On_Not_Less,
    Jmp_On_Not_Below,
    Jmp_On_Not_Parity,
    Jmp_On_Not_Overflow,
    Jmp_On_Not_Sign,
    Jmp_On_CX_Zero,
    Loop,
    Loop_While_Zero,
    Loop_While_Not_Zero,
    Halt,
}

/// A decoded instruction; `size` is the number of bytes it was decoded from.
#[derive(PartialEq, Eq, Clone, Copy, Debug)]
pub struct Instruction {
    pub operation: Operation,
    pub operands: [Option<Operand>; 2],
    pub flags: InstructionFlags,
    pub size: u8,
}

/// Register operands name a register that exists.
pub open spec fn operand_wf(op: Operand) -> bool {
    match op {
        Operand::Register(enc, _) => enc < 8,
        _ => true,
    }
}

/// Every operand present is well formed.
pub open spec fn instruction_wf(ins: Instruction) -> bool {
    (ins.operands[0] is Some ==> operand_wf(ins.operands[0]->0))
    && (ins.operands[1] is Some ==> operand_wf(ins.operands[1]->0))
}

impl Instruction {
    pub fn has_flag(&self, flag: OperationFlag) -> (r: bool)
        ensures
            r == has_flag_spec(self.flags, flag),
    {
        match flag {
            OperationFlag::SignExtension => self.flags.sign_extend,
            OperationFlag::Wide => self.flags.wide,
            OperationFlag::Destination => self.flags.destination,
            OperationFlag::Overflow => self.flags.v,
            OperationFlag::Zero => self.flags.repeat_on_zero,
        }
    }
}

// ---------------------------------------------------------------------------
// The encoding, as a table.

/// The byte at `i`, or 0 past either end of the stream.
pub open spec fn byte_at(bytes: Seq<u8>, i: int) -> u8 {
    if 0 <= i < bytes.len() { bytes[i] } else { 0 }
}

/// Little-endian word at `i`.
pub open spec fn word_at(bytes: Seq<u8>, i: int) -> u16 {
    (byte_at(bytes, i + 1) as int * 256 + byte_at(bytes, i) as int) as u16
}

/// A byte's two's-complement value widened to 16 bits.
pub open spec fn sign_extend_spec(b: u8) -> u16 {
    if b < 128 { b as u16 } else { (b as int + 0xff00) as u16 }
}

/// A byte read as a signed branch displacement.
pub open spec fn label_offset_spec(b: u8) -> i8 {
    if b < 128 { b as i8 } else { (b as int - 256) as i8 }
}

pub open spec fn mode_field(b: u8) -> u8 { b / 64 }
pub open spec fn reg_field(b: u8) -> u8 { (b / 8) % 8 }
pub open spec fn rm_field(b: u8) -> u8 { b % 8 }

/// Operation selected by the first byte (and, for the immediate ALU group,
/// the reg field of the second). The 4-bit class is tried first, then the
/// 6-bit, 7-bit and exact 8-bit classes.
pub open spec fn operation_of(b0: u8, b1: u8) -> Option<Operation> {
    if b0 / 16 == 0b1011 {
        Some(Operation::Mov_Imm_To_Reg)
    } else if b0 / 4 == 0b100010 {
        Some(Operation::Mov_RegMem_ToFrom_Reg)
    } else if b0 / 4 == 0b000000 {
        Some(Operation::Add_RegMem_With_Reg_To_Either)
    } else if b0 / 4 == 0b001010 {
        Some(Operation::Sub_RegMem_And_Reg_From_Either)
    } else if b0 / 4 == 0b001110 {
        Some(Operation::Cmp_RegMem_And_Reg)
    } else if b0 / 4 == 0b100000 {
        if reg_field(b1) == 0 {
            Some(Operation::Add_Imm_To_RegMem)
        } else if reg_field(b1) == 5 {
            Some(Operation::Sub_Imm_From_RegMem)
        } else if reg_field(b1) == 7 {
            Some(Operation::Cmp_Imm_With_RegMem)
        } else {
            None
        }
    } else if b0 / 2 == 0b1100011 {
        Some(Operation::Mov_Imm_To_RegMem)
    } else if b0 / 2 == 0b1010000 {
        Some(Operation::Mov_Mem_To_Acc)
    } else if b0 / 2 == 0b1010001 {
        Some(Operation::Mov_Acc_To_Mem)
    } else if b0 / 2 == 0b0000010 {
        Some(Operation::Add_Imm_To_Acc)
    } else if b0 / 2 == 0b0010110 {
        Some(Operation::Sub_Imm_From_Acc)
    } else if b0 / 2 == 0b0011110 {
        Some(Operation::Cmp_Imm_With_Acc)
    } else {
        jump_operation_of(b0)
    }
}

/// The exact-byte class: branches, loops and halt.
pub open spec fn jump_operation_of(b0: u8) -> Option<Operation> {
    match b0 {
        0x74 => Some(Operation::Jmp_On_Equal),
        0x7c => Some(Operation::Jmp_On_Less),
        0x7e => Some(Operation::Jmp_On_Less_Or_Equal),
        0x72 => Some(Operation::Jmp_On_Below),
        0x76 => Some(Operation::Jmp_On_Below_Or_Equal),
        0x7f => Some(Operation::Jmp_On_Greater),
        0x77 => Some(Operation::Jmp_On_Above),
        0x7a => Some(Operation::Jmp_On_Parity),
        0x70 => Some(Operation::Jmp_On_Overflow),
        0x78 => Some(Operation::Jmp_On_Sign),
        0x75 => Some(Operation::Jmp_On_Not_Equal),
        0x7d => Some(Operation::Jmp_On_Not_Less),
        0x73 => Some(Operation::Jmp_On_Not_Below),
        0x7b => Some(Operation::Jmp_On_Not_Parity),
        0x71 => Some(Operation::Jmp_On_Not_Overflow),
        0x79 => Some(Operation::Jmp_On_Not_Sign),
        0xe3 => Some(Operation::Jmp_On_CX_Zero),
        0xe2 => Some(Operation::Loop),
        0xe1 => Some(Operation::Loop_While_Zero),
        0xe0 => Some(Operation::Loop_While_Not_Zero),
        0xf4 => Some(Operation::Halt),
        _ => None,
    }
}

/// Displacement bytes after the mode/reg/r-m byte: two for mode 10 and for
/// the direct address (mode 00, r/m 110), one for mode 01, else none.
pub open spec fn displacement_length(mode: u8, rm: u8) -> u8 {
    if mode == 2 || (mode == 0 && rm == 6) {
        2
    } else if mode == 1 {
        1
    } else {
        0
    }
}

pub open spec fn displacement_spec(bytes: Seq<u8>, i: int, mode: u8, rm: u8) -> u16 {
    if mode == 2 || (mode == 0 && rm == 6) {
        word_at(bytes, i)
    } else if mode == 1 {
        sign_extend_spec(byte_at(bytes, i))
    } else {
        0
    }
}

/// Immediate data at `i`: a word when `word`, else a byte.
pub open spec fn data_spec(bytes: Seq<u8>, i: int, word: bool) -> u16 {
    if word { word_at(bytes, i) } else { byte_at(bytes, i) as u16 }
}

pub open spec fn data_length(word: bool) -> u8 {
    if word { 2 } else { 1 }
}

/// The instruction that `op` makes of the bytes from `at` on, whether or not
/// the stream holds all of them.
pub open spec fn instruction_spec(bytes: Seq<u8>, at: int, op: Operation) -> Instruction {
    let b0 = byte_at(bytes, at);
    let b1 = byte_at(bytes, at + 1);
    let wide = b0 % 2 == 1;
    let mode = mode_field(b1);
    let rm = rm_field(b1);
    let reg = reg_field(b1);
    let disp = displacement_spec(bytes, at + 2, mode, rm);
    let disp_len = displacement_length(mode, rm);
    match op {
        Operation::Mov_Imm_To_Reg => {
            let w = (b0 / 8) % 2 == 1;
            let r = b0 % 8;
            Instruction {
                operation: op,
                operands: [
                    Some(Operand::Register(r, register_access_spec(r, w))),
                    Some(Operand::ImmediateData(data_spec(bytes, at + 1, w))),
                ],
                flags: flags_spec(false, w, false),
                size: (1 + data_length(w)) as u8,
            }
        },
        Operation::Mov_RegMem_ToFrom_Reg | Operation::Add_RegMem_With_Reg_To_Either
        | Operation::Sub_RegMem_And_Reg_From_Either | Operation::Cmp_RegMem_And_Reg => {
            let dest = (b0 / 2) % 2 == 1;
            let reg_op = Operand::Register(reg, register_access_spec(reg, wide));
            let other = register_or_memory_spec(mode, rm, disp, wide);
            Instruction {
                operation: op,
                operands: if dest { [Some(reg_op), Some(other)] } else { [Some(other), Some(reg_op)] },
                flags: flags_spec(false, wide, dest),
                size: (2 + disp_len) as u8,
            }
        },
        Operation::Add_Imm_To_RegMem | Operation::Sub_Imm_From_RegMem
        | Operation::Cmp_Imm_With_RegMem | Operation::Mov_Imm_To_RegMem => {
            let sign_extend = op != Operation::Mov_Imm_To_RegMem && (b0 / 2) % 2 == 1;
            let word = wide && !sign_extend;
            Instruction {
                operation: op,
                operands: [
                    Some(register_or_memory_spec(mode, rm, disp, wide)),
                    Some(Operand::ImmediateData(data_spec(bytes, at + 2 + disp_len, word))),
                ],
                flags: flags_spec(sign_extend, wide, false),
                size: (2 + disp_len + data_length(word)) as u8,
            }
        },
        Operation::Mov_Mem_To_Acc | Operation::Mov_Acc_To_Mem => {
            let mem = Operand::Memory(EffectiveAddress::Direct(word_at(bytes, at + 1)));
            let acc = register_acc_spec(wide);
            Instruction {
                operation: op,
                operands: if op == Operation::Mov_Mem_To_Acc { [Some(acc), Some(mem)] } else { [Some(mem), Some(acc)] },
                flags: flags_spec(false, wide, false),
                size: 3,
            }
        },
        Operation::Add_Imm_To_Acc | Operation::Sub_Imm_From_Acc | Operation::Cmp_Imm_With_Acc => {
            Instruction {
                operation: op,
                operands: [Some(register_acc_spec(wide)), Some(Operand::ImmediateData(data_spec(bytes, at + 1, wide)))],
                flags: flags_spec(false, wide, false),
                size: (1 + data_length(wide)) as u8,
            }
        },
        Operation::Halt => {
            Instruction { operation: op, operands: [None, None], flags: flags_spec(false, false, false), size: 1 }
        },
        _ => {
            Instruction {
                operation: op,
                operands: [Some(Operand::LabelOffset(label_offset_spec(b1))), None],
                flags: flags_spec(false, false, false),
                size: 2,
            }
        },
    }
}

/// What decoding the stream at `at` yields: `None` when no class matches
/// or when the instruction runs past the end of the stream.
pub open spec fn decode_spec(bytes: Seq<u8>, at: int) -> Option<Instruction> {
    if !(0 <= at < bytes.len()) {
        None
    } else {
        match operation_of(byte_at(bytes, at), byte_at(bytes, at + 1)) {
            None => None,
            Some(op) => {
                let ins = instruction_spec(bytes, at, op);
                if at + ins.size <= bytes.len() { Some(ins) } else { None }
            },
        }
    }
}


/// Effective-address resolution follows the 8086 table for every mode and
/// r/m: mode 11 names the register r/m encodes; mode 00 with r/m 110 is a
/// direct address taken from two displacement bytes; every other pair adds
/// the displacement to bx+si, bx+di, bp+si, bp+di, si, di, bp or bx as r/m
/// runs from 0 to 7, with no displacement for mode 00, one sign-extended
/// byte for mode 01 and two bytes for mode 10.
pub proof fn lemma_effective_address_table(bytes: Seq<u8>, i: int, mode: u8, rm: u8, wide: bool)
    requires
        mode < 4,
        rm < 8,
    ensures
        ({
            let d = displacement_spec(bytes, i, mode, rm);
            let op = register_or_memory_spec(mode, rm, d, wide);
            &&& mode == 3 ==> op == Operand::Register(rm, register_access_spec(rm, wide))
            &&& mode == 0 && rm == 6 ==> op == Operand::Memory(EffectiveAddress::Direct(word_at(bytes, i)))
                && displacement_length(mode, rm) == 2
            &&& mode == 0 && rm != 6 ==> d == 0 && displacement_length(mode, rm) == 0
            &&& mode == 1 ==> d == sign_extend_spec(byte_at(bytes, i)) && displacement_length(mode, rm) == 1
            &&& mode == 2 ==> d == word_at(bytes, i) && displacement_length(mode, rm) == 2
            &&& mode == 3 ==> displacement_length(mode, rm) == 0
            &&& (mode < 3 && !(mode == 0 && rm == 6)) ==> (op matches Operand::Memory(
                EffectiveAddress::Calculated { base, displacement }) && displacement == d && base_encodings_spec(base) == (
                    if rm == 0 { [Some(3u8), Some(6u8)] }
                    else if rm == 1 { [Some(3u8), Some(7u8)] }
                    else if rm == 2 { [Some(5u8), Some(6u8)] }
                    else if rm == 3 { [Some(5u8), Some(7u8)] }
                    else if rm == 4 { [Some(6u8), None] }
                    else if rm == 5 { [Some(7u8), None] }
                    else if rm == 6 { [Some(5u8), None] }
                    else { [Some(3u8), None] }))
        }),
{
}

// ---------------------------------------------------------------------------
// Reading the stream.

/// The byte `k` places after `at`, or 0 past the end.
fn byte_rel(bytes: &[u8], at: usize, k: usize) -> (r: u8)
    requires
        at < bytes@.len(),
    ensures
        r == byte_at(bytes@, at + k),
{
    if k < bytes.len() - at { bytes[at + k] } else { 0 }
}

/// The little-endian word at `at`.
pub fn read_word(bytes: &[u8], at: usize) -> (r: u16)
    requires
        at + 1 < bytes@.len(),
    ensures
        r == bytes@[at + 1] as int * 256 + bytes@[at as int] as int,
        r == word_at(bytes@, at as int),
{
    let lo = bytes[at];
    let hi = bytes[at + 1];
    let r = (hi as u16) << 8u16 | lo as u16;
    assert(r == hi as u16 * 256 + lo as u16) by (bit_vector)
        requires r == (hi as u16) << 8u16 | lo as u16;
    r
}

/// The word `k` places after `at`, with bytes past the end read as 0.
fn word_rel(bytes: &[u8], at: usize, k: usize) -> (r: u16)
    requires
        at < bytes@.len(),
        k < 8,
    ensures
        r == word_at(bytes@, at + k),
{
    if k + 1 < bytes.len() - at {
        read_word(bytes, at + k)
    } else {
        let lo = byte_rel(bytes, at, k);
        let hi = byte_rel(bytes, at, k + 1);
        hi as u16 * 256 + lo as u16
    }
}

/// The displacement `k` places after `at` and its length in bytes.
fn read_displacement(bytes: &[u8], at: usize, k: usize, mode: u8, reg_or_mem: u8) -> (r: (u16, u8))
    requires
        at < bytes@.len(),
        k < 8,
    ensures
        r.0 == displacement_spec(bytes@, at + k, mode, reg_or_mem),
        r.1 == displacement_length(mode, reg_or_mem),
{
    if mode == 2 || (mode == 0 && reg_or_mem == 6) {
        (word_rel(bytes, at, k), 2)
    } else if mode == 1 {
        let b = byte_rel(bytes, at, k);
        let d: u16 = if b < 128 { b as u16 } else { b as u16 + 0xff00 };
        (d, 1)
    } else {
        (0, 0)
    }
}

/// Immediate data `k` places after `at` and its length in bytes.
fn read_data(bytes: &[u8], at: usize, k: usize, is_word: bool) -> (r: (u16, u8))
    requires
        at < bytes@.len(),
        k < 8,
    ensures
        r.0 == data_spec(bytes@, at + k, is_word),
        r.1 == data_length(is_word),
{
    if is_word {
        (word_rel(bytes, at, k), 2)
    } else {
        (byte_rel(bytes, at, k) as u16, 1)
    }
}

fn jump_operation(b0: u8) -> (r: Option<Operation>)
    ensures
        r == jump_operation_of(b0),
{
    match b0 {
        0x74 => Some(Operation::Jmp_On_Equal),
        0x7c => Some(Operation::Jmp_On_Less),
        0x7e => Some(Operation::Jmp_On_Less_Or_Equal),
        0x72 => Some(Operation::Jmp_On_Below),
        0x76 => Some(Operation::Jmp_On_Below_Or_Equal),
        0x7f => Some(Operation::Jmp_On_Greater),
        0x77 => Some(Operation::Jmp_On_Above),
        0x7a => Some(Operation::Jmp_On_Parity),
        0x70 => Some(Operation::Jmp_On_Overflow),
        0x78 => Some(Operation::Jmp_On_Sign),
        0x75 => Some(Operation::Jmp_On_Not_Equal),
        0x7d => Some(Operation::Jmp_On_Not_Less),
        0x73 => Some(Operation::Jmp_On_Not_Below),
        0x7b => Some(Operation::Jmp_On_Not_Parity),
        0x71 => Some(Operation::Jmp_On_Not_Overflow),
        0x79 => Some(Operation::Jmp_On_Not_Sign),
        0xe3 => Some(Operation::Jmp_On_CX_Zero),
        0xe2 => Some(Operation::Loop),
        0xe1 => Some(Operation::Loop_While_Zero),
        0xe0 => Some(Operation::Loop_While_Not_Zero),
        0xf4 => Some(Operation::Halt),
        _ => None,
    }
}

/// Classifies the opcode: 4-bit class first, then 6-bit, 7-bit, 8-bit.
fn classify(b0: u8, b1: u8) -> (r: Option<Operation>)
    ensures
        r == operation_of(b0, b1),
{
    if b0 / 16 == 0b1011 {
        return Some(Operation::Mov_Imm_To_Reg);
    }
    match b0 / 4 {
        0b100010 => return Some(Operation::Mov_RegMem_ToFrom_Reg),
        0b000000 => return Some(Operation::Add_RegMem_With_Reg_To_Either),
        0b001010 => return Some(Operation::Sub_RegMem_And_Reg_From_Either),
        0b001110 => return Some(Operation::Cmp_RegMem_And_Reg),
        0b100000 => {
            return match (b1 / 8) % 8 {
                0 => Some(Operation::Add_Imm_To_RegMem),
                5 => Some(Operation::Sub_Imm_From_RegMem),
                7 => Some(Operation::Cmp_Imm_With_RegMem),
                _ => None,
            };
        },
        _ => {},
    }
    match b0 / 2 {
        0b1100011 => Some(Operation::Mov_Imm_To_RegMem),
        0b1010000 => Some(Operation::Mov_Mem_To_Acc),
        0b1010001 => Some(Operation::Mov_Acc_To_Mem),
        0b0000010 => Some(Operation::Add_Imm_To_Acc),
        0b0010110 => Some(Operation::Sub_Imm_From_Acc),
        0b0011110 => Some(Operation::Cmp_Imm_With_Acc),
        _ => jump_operation(b0),
    }
}

/// Builds the instruction `op` makes of the bytes from `at` on.
fn build_instruction(bytes: &[u8], at: usize, op: Operation) -> (r: Instruction)
    requires
        at < bytes@.len(),
    ensures
        r == instruction_spec(bytes@, at as int, op),
{
    let b0 = bytes[at];
    let b1 = byte_rel(bytes, at, 1);
    let wide = b0 % 2 == 1;
    let mode = b1 / 64;
    let rm = b1 % 8;
    let reg = (b1 / 8) % 8;
    match op {
        Operation::Mov_Imm_To_Reg => {
            let w = (b0 / 8) % 2 == 1;
            let r = b0 % 8;
            let (data, data_len) = read_data(bytes, at, 1, w);
            Instruction {
                operation: op,
                operands: [Some(Operand::Register(r, RegisterAccess::new(r, w))), Some(Operand::ImmediateData(data))],
                flags: InstructionFlags { sign_extend: false, wide: w, destination: false, v: false, repeat_on_zero: false },
                size: 1 + data_len,
            }
        },
        Operation::Mov_RegMem_ToFrom_Reg | Operation::Add_RegMem_With_Reg_To_Either
        | Operation::Sub_RegMem_And_Reg_From_Either | Operation::Cmp_RegMem_And_Reg => {
            let dest = (b0 / 2) % 2 == 1;
            let (disp, disp_len) = read_displacement(bytes, at, 2, mode, rm);
            let reg_op = Operand::Register(reg, RegisterAccess::new(reg, wide));
            let other = Operand::register_or_memory(mode, rm, disp, wide);
            Instruction {
                operation: op,
                operands: if dest { [Some(reg_op), Some(other)] } else { [Some(other), Some(reg_op)] },
                flags: InstructionFlags { sign_extend: false, wide, destination: dest, v: false, repeat_on_zero: false },
                size: 2 + disp_len,
            }
        },
        Operation::Add_Imm_To_RegMem | Operation::Sub_Imm_From_RegMem
        | Operation::Cmp_Imm_With_RegMem | Operation::Mov_Imm_To_RegMem => {
            let is_mov = match op {
                Operation::Mov_Imm_To_RegMem => true,
                _ => false,
            };
            let sign_extend = !is_mov && (b0 / 2) % 2 == 1;
            let word = wide && !sign_extend;
            let (disp, disp_len) = read_displacement(bytes, at, 2, mode, rm);
            let (data, data_len) = read_data(bytes, at, 2 + disp_len as usize, word);
            Instruction {
                operation: op,
                operands: [Some(Operand::register_or_memory(mode, rm, disp, wide)), Some(Operand::ImmediateData(data))],
                flags: InstructionFlags { sign_extend, wide, destination: false, v: false, repeat_on_zero: false },
                size: 2 + disp_len + data_len,
            }
        },
        Operation::Mov_Mem_To_Acc | Operation::Mov_Acc_To_Mem => {
            let mem = Operand::Memory(EffectiveAddress::Direct(word_rel(bytes, at, 1)));
            let acc = Operand::register_acc(wide);
            let to_acc = match op {
                Operation::Mov_Mem_To_Acc => true,
                _ => false,
            };
            Instruction {
                operation: op,
                operands: if to_acc { [Some(acc), Some(mem)] } else { [Some(mem), Some(acc)] },
                flags: InstructionFlags { sign_extend: false, wide, destination: false, v: false, repeat_on_zero: false },
                size: 3,
            }
        },
        Operation::Add_Imm_To_Acc | Operation::Sub_Imm_From_Acc | Operation::Cmp_Imm_With_Acc => {
            let (data, data_len) = read_data(bytes, at, 1, wide);
            Instruction {
                operation: op,
                operands: [Some(Operand::register_acc(wide)), Some(Operand::ImmediateData(data))],
                flags: InstructionFlags { sign_extend: false, wide, destination: false, v: false, repeat_on_zero: false },
                size: 1 + data_len,
            }
        },
        Operation::Halt => {
            Instruction {
                operation: op,
                operands: [None, None],
                flags: InstructionFlags { sign_extend: false, wide: false, destination: false, v: false, repeat_on_zero: false },
                size: 1,
            }
        },
        _ => {
            Instruction {
                operation: op,
                operands: [Some(Operand::LabelOffset(if b1 < 128 { b1 as i8 } else { (b1 as i16 - 256) as i8 })), None],
                flags: InstructionFlags { sign_extend: false, wide: false, destination: false, v: false, repeat_on_zero: false },
                size: 2,
            }
        },
    }
}

/// Decodes the instruction that starts at `instruction_pointer`. `None` when
/// the opcode matches no supported class, or the instruction would run past
/// the end of the stream.
pub fn decode_instruction(instruction_stream: &[u8], instruction_pointer: usize) -> (r: Option<Instruction>)
    ensures
        r == decode_spec(instruction_stream@, instruction_pointer as int),
        r is Some ==> 1 <= r->0.size <= 6,
        r is Some ==> instruction_wf(r->0),
        r is Some ==> instruction_pointer + r->0.size <= instruction_stream@.len(),
{
    if instruction_pointer >= instruction_stream.len() {
        return None;
    }
    let b0 = instruction_stream[instruction_pointer];
    let b1 = byte_rel(instruction_stream, instruction_pointer, 1);
    match classify(b0, b1) {
        None => None,
        Some(op) => {
            let ins = build_instruction(instruction_stream, instruction_pointer, op);
            if (ins.size as usize) <= instruction_stream.len() - instruction_pointer {
                Some(ins)
            } else {
                None
            }
        },
    }
}

} // verus!

//! The execution engine: fetch, decode, execute, until a halt.
use vstd::prelude::*;
use crate::decoder::{
    EffectiveAddress, Instruction, Operand, Operation, RegisterAccess, base_encodings_spec,
    byte_at, decode_instruction, decode_spec, instruction_wf, operand_wf, operation_of, sign_extend_spec,
};
use crate::machine::{
    Flags, HALT_OPCODE, MEMORY_SIZE, Registers, flags_of, read_register_spec, write_register_spec,
};

verus! {

/// Why an instruction could not be executed.
#[derive(PartialEq, Eq, Structural, Clone, Copy, Debug)]
pub enum SimError {
    /// A word access at the last address would run past the end of memory.
    MemoryOutOfBounds,
    /// The operation decodes but is not wired to a flag predicate.
    UnimplementedOperation,
    /// An operand of a kind the operation cannot read or write there.
    InvalidOperand,
    /// The program does not fit below the last address with its halt.
    ProgramTooLarge,
}

/// Registers, flags, instruction pointer and memory, as values.
pub struct MachineView {
    pub regs: Seq<u16>,
    pub flags: Flags,
    pub ip: u16,
    pub mem: Seq<u8>,
}

/// The simulated machine. Memory spans the whole 16-bit address space.
pub struct Machine {
    pub registers: Registers,
    pub flags: Flags,
    pub ip: u16,
    pub memory: Vec<u8>,
}

impl View for Machine {
    type V = MachineView;

    open spec fn view(&self) -> MachineView {
        MachineView { regs: self.registers.cells@, flags: self.flags, ip: self.ip, mem: self.memory@ }
    }
}

/// Memory right after loading: the program at 0, a halt after it, zeros
/// elsewhere.
pub open spec fn loaded_memory(program: Seq<u8>) -> Seq<u8> {
    Seq::new(MEMORY_SIZE as nat, |i: int|
        if i < program.len() { program[i] } else if i == program.len() { HALT_OPCODE } else { 0u8 })
}

// ---------------------------------------------------------------------------
// Semantics.

/// Value of register `enc` of a base, 0 where the base has no second register.
pub open spec fn base_part(regs: Seq<u16>, enc: Option<u8>) -> int {
    match enc {
        Some(e) => regs[e as int] as int,
        None => 0,
    }
}

/// Address an effective address names, wrapping at 16 bits.
pub open spec fn address_of(regs: Seq<u16>, ea: EffectiveAddress) -> u16 {
    match ea {
        EffectiveAddress::Direct(a) => a,
        EffectiveAddress::Calculated { base, displacement } => {
            let encs = base_encodings_spec(base);
            ((base_part(regs, encs[0]) + base_part(regs, encs[1]) + displacement) % 65536) as u16
        },
    }
}

pub open spec fn read_memory_spec(mem: Seq<u8>, addr: u16, wide: bool) -> Result<u16, SimError> {
    if !wide {
        Ok(mem[addr as int] as u16)
    } else if addr == 0xffff {
        Err(SimError::MemoryOutOfBounds)
    } else {
        Ok((mem[addr + 1] as int * 256 + mem[addr as int] as int) as u16)
    }
}

pub open spec fn write_memory_spec(mem: Seq<u8>, addr: u16, wide: bool, value: u16) -> Result<Seq<u8>, SimError> {
    if !wide {
        Ok(mem.update(addr as int, (value % 256) as u8))
    } else if addr == 0xffff {
        Err(SimError::MemoryOutOfBounds)
    } else {
        Ok(mem.update(addr as int, (value % 256) as u8).update(addr + 1, (value / 256) as u8))
    }
}

/// Whether an operand is 16 bits wide: by its access for a register, by the
/// instruction's wide flag otherwise.
pub open spec fn operand_wide(op: Operand, wide: bool) -> bool {
    match op {
        Operand::Register(_, access) => access == RegisterAccess::Full,
        _ => wide,
    }
}

pub open spec fn read_operand_spec(s: MachineView, op: Operand, wide: bool) -> Result<u16, SimError> {
    match op {
        Operand::Register(enc, access) => Ok(read_register_spec(s.regs, enc, access)),
        Operand::Memory(ea) => read_memory_spec(s.mem, address_of(s.regs, ea), wide),
        Operand::ImmediateData(d) => Ok(d),
        Operand::LabelOffset(_) => Err(SimError::InvalidOperand),
    }
}

pub open spec fn write_operand_spec(s: MachineView, op: Operand, wide: bool, value: u16) -> Result<MachineView, SimError> {
    match op {
        Operand::Register(enc, access) => Ok(MachineView { regs: write_register_spec(s.regs, enc, access, value), ..s }),
        Operand::Memory(ea) => match write_memory_spec(s.mem, address_of(s.regs, ea), wide, value) {
            Ok(mem) => Ok(MachineView { mem, ..s }),
            Err(e) => Err(e),
        },
        _ => Err(SimError::InvalidOperand),
    }
}

/// The value as a destination of the given width holds it.
pub open spec fn truncate(value: int, wide: bool) -> u16 {
    if wide { (value % 65536) as u16 } else { (value % 256) as u16 }
}

#[derive(PartialEq, Eq, Structural, Clone, Copy)]
pub enum AluKind {
    Add,
    Sub,
    Cmp,
}

pub open spec fn alu_kind(op: Operation) -> Option<AluKind> {
    match op {
        Operation::Add_RegMem_With_Reg_To_Either | Operation::Add_Imm_To_RegMem
        | Operation::Add_Imm_To_Acc => Some(AluKind::Add),
        Operation::Sub_RegMem_And_Reg_From_Either | Operation::Sub_Imm_From_RegMem
        | Operation::Sub_Imm_From_Acc => Some(AluKind::Sub),
        Operation::Cmp_RegMem_And_Reg | Operation::Cmp_Imm_With_RegMem
        | Operation::Cmp_Imm_With_Acc => Some(AluKind::Cmp),
        _ => None,
    }
}

pub open spec fn is_mov(op: Operation) -> bool {
    match op {
        Operation::Mov_RegMem_ToFrom_Reg | Operation::Mov_Imm_To_RegMem | Operation::Mov_Imm_To_Reg
        | Operation::Mov_Mem_To_Acc | Operation::Mov_Acc_To_Mem => true,
        _ => false,
    }
}

/// The source as the operation uses it: an 8-bit immediate is sign-extended
/// when the instruction asks for it and works on words.
pub open spec fn effective_source(ins: Instruction, src: u16) -> u16 {
    if ins.flags.sign_extend && ins.flags.wide { sign_extend_spec((src % 256) as u8) } else { src }
}

/// Branch decision for a jump or loop, given cx after any decrement.
/// `None` for the conditional jumps that are not wired to a predicate.
pub open spec fn branch_taken(op: Operation, flags: Flags, cx: u16) -> Option<bool> {
    match op {
        Operation::Jmp_On_Equal => Some(flags.zero),
        Operation::Jmp_On_Not_Equal => Some(!flags.zero),
        Operation::Jmp_On_Sign => Some(flags.sign),
        Operation::Jmp_On_Not_Sign => Some(!flags.sign),
        Operation::Jmp_On_CX_Zero => Some(cx == 0),
        Operation::Loop => Some(cx != 0),
        Operation::Loop_While_Zero => Some(cx != 0 && flags.zero),
        Operation::Loop_While_Not_Zero => Some(cx != 0 && !flags.zero),
        _ => None,
    }
}

pub open spec fn is_loop(op: Operation) -> bool {
    op == Operation::Loop || op == Operation::Loop_While_Zero || op == Operation::Loop_While_Not_Zero
}

/// `ip` moved by a signed offset, wrapping at 16 bits.
pub open spec fn jump_target(ip: u16, offset: i8) -> u16 {
    ((ip as int + offset as int + 65536) % 65536) as u16
}

/// Executes `ins` with the instruction pointer already at `next_ip`. Halt
/// is not executed here.
pub open spec fn execute_spec(s: MachineView, ins: Instruction, next_ip: u16) -> Result<MachineView, SimError> {
    let wide = ins.flags.wide;
    if is_mov(ins.operation) {
        match (ins.operands[0], ins.operands[1]) {
            (Some(dst), Some(src)) => match read_operand_spec(s, src, wide) {
                Ok(v) => match write_operand_spec(s, dst, wide, v) {
                    Ok(s2) => Ok(MachineView { ip: next_ip, ..s2 }),
                    Err(e) => Err(e),
                },
                Err(e) => Err(e),
            },
            _ => Err(SimError::InvalidOperand),
        }
    } else if alu_kind(ins.operation) is Some {
        match (ins.operands[0], ins.operands[1]) {
            (Some(dst), Some(src)) => match (read_operand_spec(s, dst, wide), read_operand_spec(s, src, wide)) {
                (Ok(a), Ok(b0)) => {
                    let b = effective_source(ins, b0);
                    let w = operand_wide(dst, wide);
                    let result = match alu_kind(ins.operation)->0 {
                        AluKind::Add => truncate(a + b, w),
                        _ => truncate(a - b + 65536, w),
                    };
                    let flags = flags_of(result, w);
                    match alu_kind(ins.operation)->0 {
                        AluKind::Cmp => Ok(MachineView { flags, ip: next_ip, ..s }),
                        _ => match write_operand_spec(s, dst, wide, result) {
                            Ok(s2) => Ok(MachineView { flags, ip: next_ip, ..s2 }),
                            Err(e) => Err(e),
                        },
                    }
                },
                (Err(e), _) => Err(e),
                (_, Err(e)) => Err(e),
            },
            _ => Err(SimError::InvalidOperand),
        }
    } else {
        match ins.operands[0] {
            Some(Operand::LabelOffset(offset)) => {
                let cx = if is_loop(ins.operation) { ((s.regs[1] as int + 65535) % 65536) as u16 } else { s.regs[1] };
                match branch_taken(ins.operation, s.flags, cx) {
                    Some(taken) => Ok(MachineView {
                        regs: s.regs.update(1, cx),
                        ip: if taken { jump_target(next_ip, offset) } else { next_ip },
                        ..s
                    }),
                    None => Err(SimError::UnimplementedOperation),
                }
            },
            _ => Err(SimError::InvalidOperand),
        }
    }
}


// ---------------------------------------------------------------------------
// Execution.

impl Machine {
    pub open spec fn wf(&self) -> bool {
        self.memory@.len() == MEMORY_SIZE
    }

    /// A machine with `program` at address 0 followed by a halt, registers,
    /// flags and instruction pointer zero. Fails when the program leaves no
    /// room for the halt.
    pub fn load(program: &[u8]) -> (r: Result<Machine, SimError>)
        ensures
            program@.len() >= MEMORY_SIZE <==> r is Err,
            r is Err ==> r->Err_0 == SimError::ProgramTooLarge,
            r is Ok ==> {
                let m = r->Ok_0;
                &&& m.wf()
                &&& m@.mem == loaded_memory(program@)
                &&& m@.regs == seq![0u16; 8]
                &&& m@.ip == 0
                &&& !m@.flags.zero && !m@.flags.sign
            },
    {
        if program.len() >= MEMORY_SIZE {
            return Err(SimError::ProgramTooLarge);
        }
        let mut memory: Vec<u8> = Vec::with_capacity(MEMORY_SIZE);
        let mut i: usize = 0;
        while i < MEMORY_SIZE
            invariant
                program@.len() < MEMORY_SIZE,
                i <= MEMORY_SIZE,
                memory@.len() == i,
                forall|j: int| 0 <= j < i ==> memory@[j] == loaded_memory(program@)[j],
            decreases MEMORY_SIZE - i,
        {
            let b: u8 = if i < program.len() { program[i] } else if i == program.len() { HALT_OPCODE } else { 0 };
            memory.push(b);
            i = i + 1;
        }
        assert(memory@ =~= loaded_memory(program@));
        Ok(Machine { registers: Registers::new(), flags: Flags::new(), ip: 0, memory })
    }

    pub fn read_memory(&self, addr: u16, wide: bool) -> (r: Result<u16, SimError>)
        requires
            self.wf(),
        ensures
            r == read_memory_spec(self@.mem, addr, wide),
    {
        if !wide {
            Ok(self.memory[addr as usize] as u16)
        } else if addr == 0xffff {
            Err(SimError::MemoryOutOfBounds)
        } else {
            let lo = self.memory[addr as usize] as u16;
            let hi = self.memory[addr as usize + 1] as u16;
            Ok(hi * 256 + lo)
        }
    }

    pub fn write_memory(&mut self, addr: u16, wide: bool, value: u16) -> (r: Result<(), SimError>)
        requires
            old(self).wf(),
        ensures
            final(self).wf(),
            final(self).registers == old(self).registers,
            final(self).flags == old(self).flags,
            final(self).ip == old(self).ip,
            match write_memory_spec(old(self)@.mem, addr, wide, value) {
                Ok(mem) => r is Ok && final(self)@.mem == mem,
                Err(e) => r == Err::<(), SimError>(e) && final(self)@.mem == old(self)@.mem,
            },
    {
        if !wide {
            self.memory.set(addr as usize, (value % 256) as u8);
            Ok(())
        } else if addr == 0xffff {
            Err(SimError::MemoryOutOfBounds)
        } else {
            self.memory.set(addr as usize, (value % 256) as u8);
            self.memory.set(addr as usize + 1, (value / 256) as u8);
            Ok(())
        }
    }

    fn base_register(&self, enc: Option<u8>) -> (r: u16)
        requires
            enc is Some ==> enc->0 < 8,
        ensures
            r as int == base_part(self@.regs, enc),
    {
        match enc {
            Some(e) => self.registers.cells[e as usize],
            None => 0,
        }
    }

    /// The address an effective address names in this state.
    pub fn effective_address(&self, ea: &EffectiveAddress) -> (r: u16)
        ensures
            r == address_of(self@.regs, *ea),
    {
        match ea {
            EffectiveAddress::Direct(a) => *a,
            EffectiveAddress::Calculated { base, displacement } => {
                let encs = base.get_register_encodings();
                let sum: u32 = self.base_register(encs[0]) as u32 + self.base_register(encs[1]) as u32
                    + *displacement as u32;
                (sum % 65536) as u16
            },
        }
    }

    /// Reads an operand: a register through its access, memory by the
    /// instruction's width, an immediate as it is.
    pub fn read_operand(&self, op: &Operand, wide: bool) -> (r: Result<u16, SimError>)
        requires
            self.wf(),
            operand_wf(*op),
        ensures
            r == read_operand_spec(self@, *op, wide),
    {
        match op {
            Operand::Register(enc, access) => Ok(self.registers.read(*enc, *access)),
            Operand::Memory(ea) => {
                let addr = self.effective_address(ea);
                self.read_memory(addr, wide)
            },
            Operand::ImmediateData(d) => Ok(*d),
            Operand::LabelOffset(_) => Err(SimError::InvalidOperand),
        }
    }

    /// Stores through a register or memory operand. Nothing changes on error.
    pub fn write_operand(&mut self, op: &Operand, wide: bool, value: u16) -> (r: Result<(), SimError>)
        requires
            old(self).wf(),
            operand_wf(*op),
        ensures
            final(self).wf(),
            match write_operand_spec(old(self)@, *op, wide, value) {
                Ok(s) => r is Ok && final(self)@ == s,
                Err(e) => r == Err::<(), SimError>(e) && final(self)@ == old(self)@,
            },
    {
        match op {
            Operand::Register(enc, access) => {
                self.registers.write(*enc, *access, value);
                Ok(())
            },
            Operand::Memory(ea) => {
                let addr = self.effective_address(ea);
                self.write_memory(addr, wide, value)
            },
            _ => Err(SimError::InvalidOperand),
        }
    }

    /// Executes a decoded instruction with the instruction pointer moving to
    /// `next_ip`, or to its branch target. Nothing changes on error.
    pub fn execute(&mut self, ins: &Instruction, next_ip: u16) -> (r: Result<(), SimError>)
        requires
            old(self).wf(),
            instruction_wf(*ins),
        ensures
            final(self).wf(),
            match execute_spec(old(self)@, *ins, next_ip) {
                Ok(s) => r is Ok && final(self)@ == s,
                Err(e) => r == Err::<(), SimError>(e) && final(self)@ == old(self)@,
            },
    {
        let wide = ins.flags.wide;
        let kind = alu_kind_exec(ins.operation);
        if is_mov_exec(ins.operation) {
            match (&ins.operands[0], &ins.operands[1]) {
                (Some(dst), Some(src)) => {
                    let v = match self.read_operand(src, wide) {
                        Ok(v) => v,
                        Err(e) => return Err(e),
                    };
                    match self.write_operand(dst, wide, v) {
                        Ok(()) => {},
                        Err(e) => return Err(e),
                    }
                    self.ip = next_ip;
                    Ok(())
                },
                _ => Err(SimError::InvalidOperand),
            }
        } else if let Some(kind) = kind {
            match (&ins.operands[0], &ins.operands[1]) {
                (Some(dst), Some(src)) => {
                    let a = match self.read_operand(dst, wide) {
                        Ok(v) => v,
                        Err(e) => return Err(e),
                    };
                    let b0 = match self.read_operand(src, wide) {
                        Ok(v) => v,
                        Err(e) => return Err(e),
                    };
                    let b: u16 = if ins.flags.sign_extend && ins.flags.wide {
                        let lo = (b0 % 256) as u8;
                        if lo < 128 { lo as u16 } else { lo as u16 + 0xff00 }
                    } else {
                        b0
                    };
                    let w = match dst {
                        Operand::Register(_, RegisterAccess::Full) => true,
                        Operand::Register(..) => false,
                        _ => wide,
                    };
                    let full: u32 = match kind {
                        AluKind::Add => a as u32 + b as u32,
                        _ => a as u32 + 65536 - b as u32,
                    };
                    let result: u16 = if w { (full % 65536) as u16 } else { (full % 256) as u16 };
                    let flags = Flags::of_result(result, w);
                    match kind {
                        AluKind::Cmp => {},
                        _ => match self.write_operand(dst, wide, result) {
                            Ok(()) => {},
                            Err(e) => return Err(e),
                        },
                    }
                    self.flags = flags;
                    self.ip = next_ip;
                    Ok(())
                },
                _ => Err(SimError::InvalidOperand),
            }
        } else {
            match ins.operands[0] {
                Some(Operand::LabelOffset(offset)) => {
                    let cx_before = self.registers.cells[1];
                    let looping = is_loop_exec(ins.operation);
                    let cx: u16 = if looping {
                        if cx_before == 0 { 0xffff } else { cx_before - 1 }
                    } else {
                        cx_before
                    };
                    let taken = match ins.operation {
                        Operation::Jmp_On_Equal => self.flags.zero,
                        Operation::Jmp_On_Not_Equal => !self.flags.zero,
                        Operation::Jmp_On_Sign => self.flags.sign,
                        Operation::Jmp_On_Not_Sign => !self.flags.sign,
                        Operation::Jmp_On_CX_Zero => cx == 0,
                        Operation::Loop => cx != 0,
                        Operation::Loop_While_Zero => cx != 0 && self.flags.zero,
                        Operation::Loop_While_Not_Zero => cx != 0 && !self.flags.zero,
                        _ => return Err(SimError::UnimplementedOperation),
                    };
                    self.registers.cells[1] = cx;
                    self.ip = if taken {
                        ((next_ip as i32 + offset as i32 + 65536) % 65536) as u16
                    } else {
                        next_ip
                    };
                    assert(self.registers.cells@ =~= old(self).registers.cells@.update(1, cx));
                    Ok(())
                },
                _ => Err(SimError::InvalidOperand),
            }
        }
    }
}

fn alu_kind_exec(op: Operation) -> (r: Option<AluKind>)
    ensures
        r == alu_kind(op),
{
    match op {
        Operation::Add_RegMem_With_Reg_To_Either | Operation::Add_Imm_To_RegMem
        | Operation::Add_Imm_To_Acc => Some(AluKind::Add),
        Operation::Sub_RegMem_And_Reg_From_Either | Operation::Sub_Imm_From_RegMem
        | Operation::Sub_Imm_From_Acc => Some(AluKind::Sub),
        Operation::Cmp_RegMem_And_Reg | Operation::Cmp_Imm_With_RegMem
        | Operation::Cmp_Imm_With_Acc => Some(AluKind::Cmp),
        _ => None,
    }
}

fn is_mov_exec(op: Operation) -> (r: bool)
    ensures
        r == is_mov(op),
{
    match op {
        Operation::Mov_RegMem_ToFrom_Reg | Operation::Mov_Imm_To_RegMem | Operation::Mov_Imm_To_Reg
        | Operation::Mov_Mem_To_Acc | Operation::Mov_Acc_To_Mem => true,
        _ => false,
    }
}

fn is_loop_exec(op: Operation) -> (r: bool)
    ensures
        r == is_loop(op),
{
    match op {
        Operation::Loop | Operation::Loop_While_Zero | Operation::Loop_While_Not_Zero => true,
        _ => false,
    }
}


// ---------------------------------------------------------------------------
// The fetch-decode-execute loop.

/// What one step did.
#[derive(PartialEq, Eq, Clone, Copy, Debug)]
pub enum StepOutcome {
    /// The instruction was executed.
    Executed(Instruction),
    /// A halt was fetched; the instruction pointer stays on it.
    Halted,
    /// No instruction decodes at the instruction pointer.
    DecodeFailed,
    /// The instruction could not be executed; the state is unchanged.
    Fault(SimError),
}

/// Fetch at `ip`, decode, then halt or execute with `ip` past the instruction.
#[verifier::opaque]
pub open spec fn step_spec(s: MachineView) -> (MachineView, StepOutcome) {
    match decode_spec(s.mem, s.ip as int) {
        None => (s, StepOutcome::DecodeFailed),
        Some(ins) => if ins.operation == Operation::Halt {
            (s, StepOutcome::Halted)
        } else {
            let next_ip = ((s.ip + ins.size) % 65536) as u16;
            match execute_spec(s, ins, next_ip) {
                Ok(s2) => (s2, StepOutcome::Executed(ins)),
                Err(e) => (s, StepOutcome::Fault(e)),
            }
        },
    }
}

/// Why a run stopped.
#[derive(PartialEq, Eq, Structural, Clone, Copy, Debug)]
pub enum StopReason {
    Halted,
    DecodeFailed,
    Fault(SimError),
    /// The step budget ran out first.
    StepLimit,
}

/// Stepping until a stop or until `fuel` instructions have executed: the
/// final state, why it stopped, and how many instructions executed.
pub open spec fn run_spec(s: MachineView, fuel: nat) -> (MachineView, StopReason, nat)
    decreases fuel,
{
    if fuel == 0 {
        (s, StopReason::StepLimit, 0)
    } else {
        let (s2, outcome) = step_spec(s);
        match outcome {
            StepOutcome::Executed(_) => {
                let (s3, stop, n) = run_spec(s2, (fuel - 1) as nat);
                (s3, stop, n + 1)
            },
            StepOutcome::Halted => (s2, StopReason::Halted, 0),
            StepOutcome::DecodeFailed => (s2, StopReason::DecodeFailed, 0),
            StepOutcome::Fault(e) => (s2, StopReason::Fault(e), 0),
        }
    }
}

/// How a run ended.
#[derive(PartialEq, Eq, Structural, Clone, Copy, Debug)]
pub struct RunResult {
    /// Instructions executed.
    pub steps: u64,
    pub stop: StopReason,
}

impl Machine {
    /// One fetch-decode-execute cycle.
    pub fn step(&mut self) -> (r: StepOutcome)
        requires
            old(self).wf(),
        ensures
            final(self).wf(),
            (final(self)@, r) == step_spec(old(self)@),
    {
        proof {
            reveal(step_spec);
        }
        let decoded = decode_instruction(self.memory.as_slice(), self.ip as usize);
        match decoded {
            None => StepOutcome::DecodeFailed,
            Some(ins) => {
                if let Operation::Halt = ins.operation {
                    return StepOutcome::Halted;
                }
                let next_ip = ((self.ip as u32 + ins.size as u32) % 65536) as u16;
                match self.execute(&ins, next_ip) {
                    Ok(()) => StepOutcome::Executed(ins),
                    Err(e) => StepOutcome::Fault(e),
                }
            },
        }
    }

    /// Steps until a halt, a decode failure or a fault, executing at most
    /// `max_steps` instructions.
    pub fn run(&mut self, max_steps: u64) -> (r: RunResult)
        requires
            old(self).wf(),
        ensures
            final(self).wf(),
            run_spec(old(self)@, max_steps as nat) == (final(self)@, r.stop, r.steps as nat),
    {
        let ghost start = self@;
        let mut steps: u64 = 0;
        while steps < max_steps
            invariant
                self.wf(),
                start == old(self)@,
                steps <= max_steps,
                run_spec(start, max_steps as nat).0 == run_spec(self@, (max_steps - steps) as nat).0,
                run_spec(start, max_steps as nat).1 == run_spec(self@, (max_steps - steps) as nat).1,
                run_spec(start, max_steps as nat).2 == run_spec(self@, (max_steps - steps) as nat).2 + steps,
            decreases max_steps - steps,
        {
            let ghost pre = self@;
            let ghost fuel = (max_steps - steps) as nat;
            let outcome = self.step();
            assert(run_spec(pre, fuel) == {
                let (s2, o) = step_spec(pre);
                match o {
                    StepOutcome::Executed(_) => {
                        let (s3, stop, n) = run_spec(s2, (fuel - 1) as nat);
                        (s3, stop, n + 1)
                    },
                    StepOutcome::Halted => (s2, StopReason::Halted, 0nat),
                    StepOutcome::DecodeFailed => (s2, StopReason::DecodeFailed, 0nat),
                    StepOutcome::Fault(e) => (s2, StopReason::Fault(e), 0nat),
                }
            });
            match outcome {
                StepOutcome::Executed(_) => {
                    steps = steps + 1;
                },
                StepOutcome::Halted => {
                    assert(run_spec(pre, fuel) == (self@, StopReason::Halted, 0nat));
                    return RunResult { steps, stop: StopReason::Halted };
                },
                StepOutcome::DecodeFailed => {
                    assert(run_spec(pre, fuel) == (self@, StopReason::DecodeFailed, 0nat));
                    return RunResult { steps, stop: StopReason::DecodeFailed };
                },
                StepOutcome::Fault(e) => {
                    assert(run_spec(pre, fuel) == (self@, StopReason::Fault(e), 0nat));
                    return RunResult { steps, stop: StopReason::Fault(e) };
                },
            }
        }
        RunResult { steps, stop: StopReason::StepLimit }
    }
}


// ---------------------------------------------------------------------------
// Laws.

/// The loader places a halt right after the program, and fetching there
/// halts: a program without a halt of its own still stops once execution
/// runs off its end.
pub proof fn lemma_loaded_program_ends_in_halt(program: Seq<u8>, s: MachineView)
    requires
        program.len() < MEMORY_SIZE,
        s.mem == loaded_memory(program),
        s.ip == program.len(),
    ensures
        s.mem[program.len() as int] == HALT_OPCODE,
        decode_spec(s.mem, program.len() as int) is Some,
        decode_spec(s.mem, program.len() as int)->0.operation == Operation::Halt,
        step_spec(s) == (s, StepOutcome::Halted),
{
    reveal(step_spec);
    let b1 = byte_at(s.mem, program.len() as int + 1);
    assert(operation_of(HALT_OPCODE, b1) == Some(Operation::Halt));
}

/// `loop` decrements cx, then branches if and only if cx is not zero; with
/// an offset of -2 the branch lands on the two-byte `loop` itself. No flag
/// or other register changes.
pub proof fn lemma_loop_semantics(s: MachineView, ins: Instruction, ip: u16, offset: i8)
    requires
        s.regs.len() == 8,
        ins.operation == Operation::Loop,
        ins.operands[0] == Some(Operand::LabelOffset(offset)),
        ip <= 0xfffd,
    ensures
        ({
            let cx = ((s.regs[1] as int + 65535) % 65536) as u16;
            let after = execute_spec(s, ins, (ip + 2) as u16)->Ok_0;
            &&& execute_spec(s, ins, (ip + 2) as u16) is Ok
            &&& after.regs == s.regs.update(1, cx)
            &&& after.flags == s.flags
            &&& after.mem == s.mem
            &&& after.ip == if cx != 0 { jump_target((ip + 2) as u16, offset) } else { (ip + 2) as u16 }
            &&& (offset == -2 && cx != 0 ==> after.ip == ip)
        }),
{
}

/// A full-width `sub` sets zero and clears sign when the stored result is
/// 0x0000, and sets sign and clears zero when it is 0x8000.
pub proof fn lemma_sub_flag_boundaries(s: MachineView, ins: Instruction, next_ip: u16)
    requires
        alu_kind(ins.operation) == Some(AluKind::Sub),
        ins.operands[0] is Some,
        ins.operands[1] is Some,
        operand_wide(ins.operands[0]->0, ins.flags.wide),
        execute_spec(s, ins, next_ip) is Ok,
    ensures
        ({
            let a = read_operand_spec(s, ins.operands[0]->0, ins.flags.wide)->Ok_0;
            let b = effective_source(ins, read_operand_spec(s, ins.operands[1]->0, ins.flags.wide)->Ok_0);
            let after = execute_spec(s, ins, next_ip)->Ok_0;
            &&& (a == b ==> after.flags.zero && !after.flags.sign)
            &&& ((a - b + 65536) % 65536 == 0x8000 ==> after.flags.sign && !after.flags.zero)
        }),
{
}

} // verus!

//! 8086 clock estimates for decoded instructions.
use vstd::prelude::*;
use vstd::string::*;
use crate::decoder::{EffectiveAddress, Instruction, Operand, Operation, decode_spec, ea_clocks_spec};
use crate::format::{decimal_text, push_decimal};

verus! {

/// A memory form: its base clocks plus the effective-address clocks.
pub open spec fn with_ea(base: u16, ea: EffectiveAddress) -> Option<(u16, Option<(u16, u16)>)> {
    Some(((base + ea_clocks_spec(ea)) as u16, Some((base, ea_clocks_spec(ea)))))
}

pub open spec fn fixed(clocks: u16) -> Option<(u16, Option<(u16, u16)>)> {
    Some((clocks, None))
}

/// Clocks of a destination-only immediate form: `reg` clocks for a register,
/// `mem` plus the address clocks for memory. `None` for other operands.
pub open spec fn imm_form(dst: Option<Operand>, reg: u16, mem: u16) -> Option<(u16, Option<(u16, u16)>)> {
    match dst {
        Some(Operand::Register(..)) => fixed(reg),
        Some(Operand::Memory(ea)) => with_ea(mem, ea),
        _ => None,
    }
}

/// Clocks of a register/memory with register form.
pub open spec fn two_form(ops: [Option<Operand>; 2], reg_reg: u16, reg_mem: u16, mem_reg: u16) -> Option<(u16, Option<(u16, u16)>)> {
    match (ops[0], ops[1]) {
        (Some(Operand::Register(..)), Some(Operand::Register(..))) => fixed(reg_reg),
        (Some(Operand::Register(..)), Some(Operand::Memory(ea))) => with_ea(reg_mem, ea),
        (Some(Operand::Memory(ea)), Some(Operand::Register(..))) => with_ea(mem_reg, ea),
        _ => None,
    }
}

/// The estimate: total clocks and, for memory forms, the base and address
/// clocks it adds up. `None` where an operation has no such operand form.
pub open spec fn clocks_spec(ins: Instruction) -> Option<(u16, Option<(u16, u16)>)> {
    match ins.operation {
        Operation::Mov_Acc_To_Mem | Operation::Mov_Mem_To_Acc => fixed(10),
        Operation::Mov_Imm_To_Reg => fixed(4),
        Operation::Mov_Imm_To_RegMem => imm_form(ins.operands[0], 4, 10),
        Operation::Mov_RegMem_ToFrom_Reg => two_form(ins.operands, 2, 8, 9),
        Operation::Add_Imm_To_Acc => fixed(4),
        Operation::Add_Imm_To_RegMem => imm_form(ins.operands[0], 4, 17),
        Operation::Add_RegMem_With_Reg_To_Either => two_form(ins.operands, 3, 9, 16),
        Operation::Sub_Imm_From_Acc => fixed(4),
        Operation::Sub_Imm_From_RegMem => imm_form(ins.operands[0], 4, 17),
        Operation::Sub_RegMem_And_Reg_From_Either => two_form(ins.operands, 3, 9, 16),
        Operation::Cmp_Imm_With_Acc => fixed(4),
        Operation::Cmp_Imm_With_RegMem => imm_form(ins.operands[0], 4, 10),
        Operation::Cmp_RegMem_And_Reg => two_form(ins.operands, 3, 9, 9),
        Operation::Loop => fixed(5),
        Operation::Loop_While_Zero => fixed(6),
        Operation::Loop_While_Not_Zero => fixed(5),
        Operation::Halt => fixed(2),
        _ => fixed(4),
    }
}

/// Every instruction the decoder yields has a clock estimate.
pub proof fn lemma_decoded_instructions_have_estimates(bytes: Seq<u8>, at: int)
    requires
        decode_spec(bytes, at) is Some,
    ensures
        clocks_spec(decode_spec(bytes, at)->0) is Some,
{
}

/// `<base> + <ea>ea`.
pub open spec fn explanation_text(base: u16, ea: u16) -> Seq<char> {
    decimal_text(base as nat) + " + "@ + decimal_text(ea as nat) + "ea"@
}

/// `r` reports the estimate `e`: its clocks, and its explanation exactly
/// when `e` has one.
pub open spec fn reports(r: (u16, Option<String>), e: Option<(u16, Option<(u16, u16)>)>) -> bool {
    &&& e is Some
    &&& r.0 == e.unwrap().0
    &&& (r.1 is None <==> e.unwrap().1 is None)
    &&& (r.1 is Some ==> r.1->0@ == explanation_text(e.unwrap().1.unwrap().0, e.unwrap().1.unwrap().1))
}

fn get_ea_clocks_and_explanation(base_clocks: u16, ea: &EffectiveAddress) -> (r: (u16, Option<String>))
    requires
        base_clocks <= 17,
    ensures
        reports(r, with_ea(base_clocks, *ea)),
{
    let ea_clocks = ea.get_clocks_estimate();
    let clocks = base_clocks + ea_clocks;
    let mut text = String::new();
    push_decimal(&mut text, base_clocks as u64);
    text.append(" + ");
    push_decimal(&mut text, ea_clocks as u64);
    text.append("ea");
    assert(text@ =~= explanation_text(base_clocks, ea_clocks));
    (clocks, Some(text))
}

fn imm_clocks(dst: &Option<Operand>, reg: u16, mem: u16) -> (r: (u16, Option<String>))
    requires
        mem <= 17,
        imm_form(*dst, reg, mem) is Some,
    ensures
        reports(r, imm_form(*dst, reg, mem)),
{
    match dst {
        Some(Operand::Memory(ea)) => get_ea_clocks_and_explanation(mem, ea),
        _ => (reg, None),
    }
}

fn two_clocks(ops: &[Option<Operand>; 2], reg_reg: u16, reg_mem: u16, mem_reg: u16) -> (r: (u16, Option<String>))
    requires
        reg_mem <= 17,
        mem_reg <= 17,
        two_form(*ops, reg_reg, reg_mem, mem_reg) is Some,
    ensures
        reports(r, two_form(*ops, reg_reg, reg_mem, mem_reg)),
{
    match (&ops[0], &ops[1]) {
        (Some(Operand::Register(..)), Some(Operand::Memory(ea))) => get_ea_clocks_and_explanation(reg_mem, ea),
        (Some(Operand::Memory(ea)), Some(Operand::Register(..))) => get_ea_clocks_and_explanation(mem_reg, ea),
        _ => (reg_reg, None),
    }
}

impl Instruction {
    /// Estimated clocks, with `<base> + <ea>ea` spelled out for memory forms.
    pub fn get_clocks_estimate(&self) -> (r: (u16, Option<String>))
        requires
            clocks_spec(*self) is Some,
        ensures
            reports(r, clocks_spec(*self)),
    {
        let ops = &self.operands;
        match self.operation {
            Operation::Mov_Acc_To_Mem | Operation::Mov_Mem_To_Acc => (10, None),
            Operation::Mov_Imm_To_Reg => (4, None),
            Operation::Mov_Imm_To_RegMem => imm_clocks(&ops[0], 4, 10),
            Operation::Mov_RegMem_ToFrom_Reg => two_clocks(ops, 2, 8, 9),
            Operation::Add_Imm_To_Acc => (4, None),
            Operation::Add_Imm_To_RegMem => imm_clocks(&ops[0], 4, 17),
            Operation::Add_RegMem_With_Reg_To_Either => two_clocks(ops, 3, 9, 16),
            Operation::Sub_Imm_From_Acc => (4, None),
            Operation::Sub_Imm_From_RegMem => imm_clocks(&ops[0], 4, 17),
            Operation::Sub_RegMem_And_Reg_From_Either => two_clocks(ops, 3, 9, 16),
            Operation::Cmp_Imm_With_Acc => (4, None),
            Operation::Cmp_Imm_With_RegMem => imm_clocks(&ops[0], 4, 10),
            Operation::Cmp_RegMem_And_Reg => two_clocks(ops, 3, 9, 9),
            Operation::Loop => (5, None),
            Operation::Loop_While_Zero => (6, None),
            Operation::Loop_While_Not_Zero => (5, None),
            Operation::Halt => (2, None),
            _ => (4, None),
        }
    }
}

} // verus!

//! Assembly text for decoded instructions.
use vstd::prelude::*;
use vstd::string::*;
use crate::decoder::{
    EffectiveAddress, EffectiveAddressBase, Instruction, Operand, Operation, RegisterAccess,
    register_name_spec, get_register_name, operand_wf, instruction_wf, decode_spec,
    decode_instruction, sign_extend_spec,
};

verus! {

pub open spec fn digit_text(d: nat) -> Seq<char> {
    if d == 0 { "0"@ }
    else if d == 1 { "1"@ }
    else if d == 2 { "2"@ }
    else if d == 3 { "3"@ }
    else if d == 4 { "4"@ }
    else if d == 5 { "5"@ }
    else if d == 6 { "6"@ }
    else if d == 7 { "7"@ }
    else if d == 8 { "8"@ }
    else { "9"@ }
}

/// Decimal digits of `n`, most significant first, no leading zeros.
pub open spec fn decimal_text(n: nat) -> Seq<char>
    decreases n,
{
    if n < 10 { digit_text(n) } else { decimal_text(n / 10) + digit_text(n % 10) }
}

/// Decimal text of a signed value, with a leading `-` when negative.
pub open spec fn signed_text(v: int) -> Seq<char> {
    if v < 0 { "-"@ + decimal_text((-v) as nat) } else { decimal_text(v as nat) }
}

fn digit_str(d: u64) -> (r: &'static str)
    requires
        d < 10,
    ensures
        r@ == digit_text(d as nat),
{
    if d == 0 { "0" }
    else if d == 1 { "1" }
    else if d == 2 { "2" }
    else if d == 3 { "3" }
    else if d == 4 { "4" }
    else if d == 5 { "5" }
    else if d == 6 { "6" }
    else if d == 7 { "7" }
    else if d == 8 { "8" }
    else { "9" }
}

/// Appends the decimal text of `n`.
pub fn push_decimal(s: &mut String, n: u64)
    ensures
        final(s)@ == old(s)@ + decimal_text(n as nat),
    decreases n,
{
    if n >= 10 {
        push_decimal(s, n / 10);
    }
    s.append(digit_str(n % 10));
    assert(final(s)@ =~= old(s)@ + decimal_text(n as nat));
}

/// Appends a signed byte in decimal.
pub fn push_signed(s: &mut String, v: i8)
    ensures
        final(s)@ == old(s)@ + signed_text(v as int),
{
    if v < 0 {
        s.append("-");
        push_decimal(s, (-(v as i16)) as u64);
        assert(final(s)@ =~= old(s)@ + signed_text(v as int)) by {
            assert(signed_text(v as int) == "-"@ + decimal_text((-(v as int)) as nat));
        }
    } else {
        push_decimal(s, v as u64);
    }
}


pub open spec fn base_text(base: EffectiveAddressBase) -> Seq<char> {
    match base {
        EffectiveAddressBase::BX_SI => "bx + si"@,
        EffectiveAddressBase::BX_DI => "bx + di"@,
        EffectiveAddressBase::BP_SI => "bp + si"@,
        EffectiveAddressBase::BP_DI => "bp + di"@,
        EffectiveAddressBase::SI => "si"@,
        EffectiveAddressBase::DI => "di"@,
        EffectiveAddressBase::BP => "bp"@,
        EffectiveAddressBase::BX => "bx"@,
    }
}

/// Whether a displacement reads as negative: the top bit of its high byte
/// when that byte is non-zero, else the top bit of its low byte.
pub open spec fn displacement_is_negative(d: u16) -> bool {
    if d / 256 != 0 { d / 256 >= 128 } else { d % 256 >= 128 }
}

/// The magnitude printed after the sign.
pub open spec fn displacement_magnitude(d: u16) -> nat {
    if !displacement_is_negative(d) {
        d as nat
    } else if d / 256 != 0 {
        (65536 - d) as nat
    } else {
        (256 - d % 256) as nat
    }
}

/// A one-byte displacement prints as its two's-complement value: a byte of
/// 128 or more as `- (256 - b)`, a smaller one as `+ b`, and zero not at all.
pub proof fn lemma_byte_displacement_text(base: EffectiveAddressBase, b: u8)
    ensures
        ({
            let text = effective_address_text(EffectiveAddress::Calculated { base, displacement: sign_extend_spec(b) });
            &&& b == 0 ==> text == "["@ + base_text(base) + "]"@
            &&& 0 < b < 128 ==> text == "["@ + base_text(base) + " + "@ + decimal_text(b as nat) + "]"@
            &&& b >= 128 ==> text == "["@ + base_text(base) + " - "@ + decimal_text((256 - b) as nat) + "]"@
        }),
{
}

/// `[base]`, `[base + n]` or `[base - n]`; a direct address as `[n]`.
pub open spec fn effective_address_text(ea: EffectiveAddress) -> Seq<char> {
    match ea {
        EffectiveAddress::Direct(a) => "["@ + decimal_text(a as nat) + "]"@,
        EffectiveAddress::Calculated { base, displacement } => if displacement == 0 {
            "["@ + base_text(base) + "]"@
        } else {
            "["@ + base_text(base) + (if displacement_is_negative(displacement) { " - "@ } else { " + "@ })
                + decimal_text(displacement_magnitude(displacement)) + "]"@
        },
    }
}

pub open spec fn operand_text(op: Operand) -> Seq<char> {
    match op {
        Operand::Register(enc, access) => register_name_spec(enc, access == RegisterAccess::Full),
        Operand::Memory(ea) => effective_address_text(ea),
        Operand::ImmediateData(d) => decimal_text(d as nat),
        Operand::LabelOffset(o) => signed_text(o as int),
    }
}

pub open spec fn mnemonic(op: Operation) -> Seq<char> {
    match op {
        Operation::Mov_RegMem_ToFrom_Reg | Operation::Mov_Imm_To_RegMem | Operation::Mov_Imm_To_Reg
        | Operation::Mov_Mem_To_Acc | Operation::Mov_Acc_To_Mem => "mov"@,
        Operation::Add_RegMem_With_Reg_To_Either | Operation::Add_Imm_To_RegMem
        | Operation::Add_Imm_To_Acc => "add"@,
        Operation::Sub_RegMem_And_Reg_From_Either | Operation::Sub_Imm_From_RegMem
        | Operation::Sub_Imm_From_Acc => "sub"@,
        Operation::Cmp_RegMem_And_Reg | Operation::Cmp_Imm_With_RegMem
        | Operation::Cmp_Imm_With_Acc => "cmp"@,
        Operation::Jmp_On_Equal => "je"@,
        Operation::Jmp_On_Less => "jl"@,
        Operation::Jmp_On_Less_Or_Equal => "jle"@,
        Operation::Jmp_On_Below => "jb"@,
        Operation::Jmp_On_Below_Or_Equal => "jbe"@,
        Operation::Jmp_On_Greater => "jg"@,
        Operation::Jmp_On_Above => "ja"@,
        Operation::Jmp_On_Parity => "jp"@,
        Operation::Jmp_On_Overflow => "jo"@,
        Operation::Jmp_On_Sign => "js"@,
        Operation::Jmp_On_Not_Equal => "jne"@,
        Operation::Jmp_On_Not_Less => "jnl"@,
        Operation::Jmp_On_Not_Below => "jnb"@,
        Operation::Jmp_On_Not_Parity => "jnp"@,
        Operation::Jmp_On_Not_Overflow => "jno"@,
        Operation::Jmp_On_Not_Sign => "jns"@,
        Operation::Jmp_On_CX_Zero => "jcxz"@,
        Operation::Loop => "loop"@,
        Operation::Loop_While_Zero => "loopz"@,
        Operation::Loop_While_Not_Zero => "loopnz"@,
        Operation::Halt => "hlt"@,
    }
}

/// Mnemonic, then the operands joined by `, `; an immediate stored to memory
/// carries a `byte` or `word` size specifier.
pub open spec fn instruction_text(ins: Instruction) -> Seq<char> {
    let m = mnemonic(ins.operation);
    match (ins.operands[0], ins.operands[1]) {
        (Some(dst), Some(src)) => {
            let spec_word: Seq<char> = match (dst, src) {
                (Operand::Memory(_), Operand::ImmediateData(_)) => if ins.flags.wide { "word "@ } else { "byte "@ },
                _ => Seq::empty(),
            };
            m + " "@ + operand_text(dst) + ", "@ + spec_word + operand_text(src)
        },
        (Some(dst), None) => m + " "@ + operand_text(dst),
        _ => m,
    }
}

fn base_str(base: EffectiveAddressBase) -> (r: &'static str)
    ensures
        r@ == base_text(base),
{
    match base {
        EffectiveAddressBase::BX_SI => "bx + si",
        EffectiveAddressBase::BX_DI => "bx + di",
        EffectiveAddressBase::BP_SI => "bp + si",
        EffectiveAddressBase::BP_DI => "bp + di",
        EffectiveAddressBase::SI => "si",
        EffectiveAddressBase::DI => "di",
        EffectiveAddressBase::BP => "bp",
        EffectiveAddressBase::BX => "bx",
    }
}

/// Appends the text of an effective address.
pub fn push_effective_address(s: &mut String, ea: &EffectiveAddress)
    ensures
        final(s)@ == old(s)@ + effective_address_text(*ea),
{
    match ea {
        EffectiveAddress::Direct(a) => {
            s.append("[");
            push_decimal(s, *a as u64);
            s.append("]");
        },
        EffectiveAddress::Calculated { base, displacement } => {
            let d = *displacement;
            s.append("[");
            s.append(base_str(*base));
            if d != 0 {
                let hi = d / 256;
                let lo = d % 256;
                let negative = if hi != 0 { hi >= 128 } else { lo >= 128 };
                let magnitude: u16 = if !negative { d } else if hi != 0 { (65536 - d as u32) as u16 } else { 256 - lo };
                s.append(if negative { " - " } else { " + " });
                push_decimal(s, magnitude as u64);
            }
            s.append("]");
        },
    }
    assert(final(s)@ =~= old(s)@ + effective_address_text(*ea));
}

/// Appends the text of one operand.
pub fn push_operand(s: &mut String, op: &Operand)
    requires
        operand_wf(*op),
    ensures
        final(s)@ == old(s)@ + operand_text(*op),
{
    match op {
        Operand::Register(enc, access) => {
            let wide = match access {
                RegisterAccess::Full => true,
                _ => false,
            };
            let name = get_register_name(*enc, wide);
            s.append(name.unwrap());
        },
        Operand::Memory(ea) => push_effective_address(s, ea),
        Operand::ImmediateData(d) => push_decimal(s, *d as u64),
        Operand::LabelOffset(o) => push_signed(s, *o),
    }
}

fn mnemonic_str(op: Operation) -> (r: &'static str)
    ensures
        r@ == mnemonic(op),
{
    match op {
        Operation::Mov_RegMem_ToFrom_Reg | Operation::Mov_Imm_To_RegMem | Operation::Mov_Imm_To_Reg
        | Operation::Mov_Mem_To_Acc | Operation::Mov_Acc_To_Mem => "mov",
        Operation::Add_RegMem_With_Reg_To_Either | Operation::Add_Imm_To_RegMem
        | Operation::Add_Imm_To_Acc => "add",
        Operation::Sub_RegMem_And_Reg_From_Either | Operation::Sub_Imm_From_RegMem
        | Operation::Sub_Imm_From_Acc => "sub",
        Operation::Cmp_RegMem_And_Reg | Operation::Cmp_Imm_With_RegMem
        | Operation::Cmp_Imm_With_Acc => "cmp",
        Operation::Jmp_On_Equal => "je",
        Operation::Jmp_On_Less => "jl",
        Operation::Jmp_On_Less_Or_Equal => "jle",
        Operation::Jmp_On_Below => "jb",
        Operation::Jmp_On_Below_Or_Equal => "jbe",
        Operation::Jmp_On_Greater => "jg",
        Operation::Jmp_On_Above => "ja",
        Operation::Jmp_On_Parity => "jp",
        Operation::Jmp_On_Overflow => "jo",
        Operation::Jmp_On_Sign => "js",
        Operation::Jmp_On_Not_Equal => "jne",
        Operation::Jmp_On_Not_Less => "jnl",
        Operation::Jmp_On_Not_Below => "jnb",
        Operation::Jmp_On_Not_Parity => "jnp",
        Operation::Jmp_On_Not_Overflow => "jno",
        Operation::Jmp_On_Not_Sign => "jns",
        Operation::Jmp_On_CX_Zero => "jcxz",
        Operation::Loop => "loop",
        Operation::Loop_While_Zero => "loopz",
        Operation::Loop_While_Not_Zero => "loopnz",
        Operation::Halt => "hlt",
    }
}

/// The assembly text of an instruction, e.g. `mov cx, 12`.
pub fn format_instruction(ins: &Instruction) -> (r: String)
    requires
        instruction_wf(*ins),
    ensures
        r@ == instruction_text(*ins),
{
    let mut s = String::new();
    s.append(mnemonic_str(ins.operation));
    match (&ins.operands[0], &ins.operands[1]) {
        (Some(dst), Some(src)) => {
            s.append(" ");
            push_operand(&mut s, dst);
            s.append(", ");
            let sized = match (dst, src) {
                (Operand::Memory(_), Operand::ImmediateData(_)) => true,
                _ => false,
            };
            if sized {
                s.append(if ins.flags.wide { "word " } else { "byte " });
            }
            push_operand(&mut s, src);
        },
        (Some(dst), None) => {
            s.append(" ");
            push_operand(&mut s, dst);
        },
        _ => {},
    }
    assert(s@ =~= instruction_text(*ins));
    s
}


/// Listing of the stream from `at` on: one line per decoded instruction, or
/// `unrecognized instruction` for a byte that does not decode, after which
/// decoding resumes at the next byte.
pub open spec fn listing_from(bytes: Seq<u8>, at: int) -> Seq<char>
    decreases bytes.len() - at,
{
    if at < 0 || at >= bytes.len() {
        Seq::empty()
    } else {
        match decode_spec(bytes, at) {
            Some(ins) => if ins.size >= 1 {
                instruction_text(ins) + "\n"@ + listing_from(bytes, at + ins.size)
            } else {
                Seq::empty()
            },
            None => "unrecognized instruction\n"@ + listing_from(bytes, at + 1),
        }
    }
}

/// `bits 16`, then the listing of the whole stream.
pub open spec fn disassembly_text(bytes: Seq<u8>) -> Seq<char> {
    "bits 16\n"@ + listing_from(bytes, 0)
}

/// The assembly listing of a byte stream.
pub fn disassemble(bytes: &[u8]) -> (r: String)
    ensures
        r@ == disassembly_text(bytes@),
{
    let mut s = String::from_str("bits 16\n");
    let mut at: usize = 0;
    while at < bytes.len()
        invariant
            at <= bytes@.len(),
            disassembly_text(bytes@) == s@ + listing_from(bytes@, at as int),
        decreases bytes@.len() - at,
    {
        let ghost before = s@;
        match decode_instruction(bytes, at) {
            Some(ins) => {
                let line = format_instruction(&ins);
                s.append(line.as_str());
                s.append("\n");
                assert(s@ =~= before + instruction_text(ins) + "\n"@);
                assert(before + listing_from(bytes@, at as int) =~= s@ + listing_from(bytes@, at + ins.size));
                at = at + ins.size as usize;
            },
            None => {
                s.append("unrecognized instruction\n");
                assert(before + listing_from(bytes@, at as int) =~= s@ + listing_from(bytes@, at + 1));
                at = at + 1;
            },
        }
    }
    assert(listing_from(bytes@, at as int) == Seq::<char>::empty());
    assert(s@ + Seq::<char>::empty() =~= s@);
    s
}

} // verus!

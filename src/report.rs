//! Trace lines and the final-state report of a simulation.
use vstd::prelude::*;
use vstd::string::*;
use crate::decoder::register_name_spec;
use crate::format::{decimal_text, push_decimal};
use crate::machine::Flags;
use crate::simulator::Machine;

verus! {

pub open spec fn hex_digit_text(d: nat) -> Seq<char> {
    if d < 10 {
        decimal_text(d)
    } else if d == 10 { "a"@ }
    else if d == 11 { "b"@ }
    else if d == 12 { "c"@ }
    else if d == 13 { "d"@ }
    else if d == 14 { "e"@ }
    else { "f"@ }
}

/// Lower-case hexadecimal digits of `n`, no leading zeros.
pub open spec fn hex_digits(n: nat) -> Seq<char>
    decreases n,
{
    if n < 16 { hex_digit_text(n) } else { hex_digits(n / 16) + hex_digit_text(n % 16) }
}

/// `0x` and the hexadecimal digits.
pub open spec fn hex_text(n: nat) -> Seq<char> {
    "0x"@ + hex_digits(n)
}

/// `Z` when zero is set, then `S` when sign is set.
pub open spec fn flags_text(f: Flags) -> Seq<char> {
    (if f.zero { "Z"@ } else { Seq::empty() }) + (if f.sign { "S"@ } else { Seq::empty() })
}

fn hex_digit_str(d: u16) -> (r: &'static str)
    requires
        d < 16,
    ensures
        r@ == hex_digit_text(d as nat),
{
    if d == 0 { "0" }
    else if d == 1 { "1" }
    else if d == 2 { "2" }
    else if d == 3 { "3" }
    else if d == 4 { "4" }
    else if d == 5 { "5" }
    else if d == 6 { "6" }
    else if d == 7 { "7" }
    else if d == 8 { "8" }
    else if d == 9 { "9" }
    else if d == 10 { "a" }
    else if d == 11 { "b" }
    else if d == 12 { "c" }
    else if d == 13 { "d" }
    else if d == 14 { "e" }
    else { "f" }
}

fn push_hex_digits(s: &mut String, n: u16)
    ensures
        final(s)@ == old(s)@ + hex_digits(n as nat),
    decreases n,
{
    if n >= 16 {
        push_hex_digits(s, n / 16);
    }
    s.append(hex_digit_str(n % 16));
    assert(final(s)@ =~= old(s)@ + hex_digits(n as nat));
}

/// Appends `0x` and the hexadecimal digits of `n`.
pub fn push_hex(s: &mut String, n: u16)
    ensures
        final(s)@ == old(s)@ + hex_text(n as nat),
{
    s.append("0x");
    push_hex_digits(s, n);
    assert(final(s)@ =~= old(s)@ + hex_text(n as nat));
}

pub fn push_flags(s: &mut String, f: Flags)
    ensures
        final(s)@ == old(s)@ + flags_text(f),
{
    if f.zero {
        s.append("Z");
    }
    if f.sign {
        s.append("S");
    }
    assert(final(s)@ =~= old(s)@ + flags_text(f));
}

/// `name:0xold->0xnew ` for each register cell that changed, in cell order.
pub open spec fn register_changes_text(before: Seq<u16>, after: Seq<u16>, n: nat) -> Seq<char>
    decreases n,
{
    if n == 0 {
        Seq::empty()
    } else {
        let i = (n - 1) as int;
        register_changes_text(before, after, (n - 1) as nat) + if before[i] != after[i] {
            register_name_spec(i as u8, true) + ":"@ + hex_text(before[i] as nat) + "->"@
                + hex_text(after[i] as nat) + " "@
        } else {
            Seq::empty()
        }
    }
}

/// `<disassembly> ; <changes>ip:<before>-><after>[ flags:<before>-><after>]`,
/// the flags part only when the flags changed.
pub open spec fn trace_text(disassembly: Seq<char>, before: Machine, after: Machine) -> Seq<char> {
    disassembly + " ; "@ + register_changes_text(before.registers.cells@, after.registers.cells@, 8)
        + "ip:"@ + hex_text(before.ip as nat) + "->"@ + hex_text(after.ip as nat)
        + if before.flags != after.flags {
            " flags:"@ + flags_text(before.flags) + "->"@ + flags_text(after.flags)
        } else {
            Seq::empty()
        }
}

fn word_register_name(i: usize) -> (r: &'static str)
    requires
        i < 8,
    ensures
        r@ == register_name_spec(i as u8, true),
{
    if i == 0 { "ax" }
    else if i == 1 { "cx" }
    else if i == 2 { "dx" }
    else if i == 3 { "bx" }
    else if i == 4 { "sp" }
    else if i == 5 { "bp" }
    else if i == 6 { "si" }
    else { "di" }
}

/// The trace line of one executed instruction, from the machine before and
/// after it.
pub fn trace_line(disassembly: &str, before: &Machine, after: &Machine) -> (r: String)
    ensures
        r@ == trace_text(disassembly@, *before, *after),
{
    let mut s = String::from_str(disassembly);
    s.append(" ; ");
    let mut i: usize = 0;
    while i < 8
        invariant
            i <= 8,
            s@ == disassembly@ + " ; "@ + register_changes_text(before.registers.cells@, after.registers.cells@, i as nat),
        decreases 8 - i,
    {
        let b = before.registers.cells[i];
        let a = after.registers.cells[i];
        if b != a {
            s.append(word_register_name(i));
            s.append(":");
            push_hex(&mut s, b);
            s.append("->");
            push_hex(&mut s, a);
            s.append(" ");
        }
        i = i + 1;
        assert(s@ =~= disassembly@ + " ; "@ + register_changes_text(before.registers.cells@, after.registers.cells@, i as nat));
    }
    s.append("ip:");
    push_hex(&mut s, before.ip);
    s.append("->");
    push_hex(&mut s, after.ip);
    if before.flags.zero != after.flags.zero || before.flags.sign != after.flags.sign {
        s.append(" flags:");
        push_flags(&mut s, before.flags);
        s.append("->");
        push_flags(&mut s, after.flags);
    }
    assert(s@ =~= trace_text(disassembly@, *before, *after));
    s
}

/// One line per register, `name: 0x<hex> (<decimal>)`, then the
/// instruction pointer the same way, then `flags: <set flags>`; each line
/// ends in a newline.
pub open spec fn report_text(m: Machine) -> Seq<char> {
    register_lines(m.registers.cells@, 8) + "ip: "@ + value_text(m.ip) + "\n"@ + "flags: "@
        + flags_text(m.flags) + "\n"@
}

pub open spec fn value_text(v: u16) -> Seq<char> {
    hex_text(v as nat) + " ("@ + decimal_text(v as nat) + ")"@
}

pub open spec fn register_lines(cells: Seq<u16>, n: nat) -> Seq<char>
    decreases n,
{
    if n == 0 {
        Seq::empty()
    } else {
        let i = (n - 1) as int;
        register_lines(cells, (n - 1) as nat) + register_name_spec(i as u8, true) + ": "@
            + value_text(cells[i]) + "\n"@
    }
}

fn push_value(s: &mut String, v: u16)
    ensures
        final(s)@ == old(s)@ + value_text(v),
{
    push_hex(s, v);
    s.append(" (");
    push_decimal(s, v as u64);
    s.append(")");
    assert(final(s)@ =~= old(s)@ + value_text(v));
}

/// The final-state report.
pub fn final_state_report(m: &Machine) -> (r: String)
    ensures
        r@ == report_text(*m),
{
    let mut s = String::new();
    let mut i: usize = 0;
    while i < 8
        invariant
            i <= 8,
            s@ == register_lines(m.registers.cells@, i as nat),
        decreases 8 - i,
    {
        s.append(word_register_name(i));
        s.append(": ");
        push_value(&mut s, m.registers.cells[i]);
        s.append("\n");
        i = i + 1;
        assert(s@ =~= register_lines(m.registers.cells@, i as nat));
    }
    s.append("ip: ");
    push_value(&mut s, m.ip);
    s.append("\n");
    s.append("flags: ");
    push_flags(&mut s, m.flags);
    s.append("\n");
    assert(s@ =~= report_text(*m));
    s
}

} // verus!

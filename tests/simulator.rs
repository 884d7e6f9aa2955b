use sim8086::decoder::{
    EffectiveAddress, Instruction, InstructionFlags, Operand, Operation, RegisterAccess,
};
use sim8086::machine::{Flag, Flags, Registers};
use sim8086::report::{final_state_report, trace_line};
use sim8086::simulator::{Machine, SimError, StepOutcome, StopReason};

const AX: usize = 0;
const CX: usize = 1;

fn loaded(program: &[u8]) -> Machine {
    Machine::load(program).expect("program fits")
}

#[test]
fn register_sub_byte_independence() {
    let mut regs = Registers::new();
    regs.write(0, RegisterAccess::Low, 0xaa);
    regs.write(4, RegisterAccess::High, 0xbb);
    assert_eq!(regs.read(0, RegisterAccess::Full), 0xbbaa);
    assert_eq!(regs.read(0, RegisterAccess::Low), 0xaa);
    assert_eq!(regs.read(4, RegisterAccess::High), 0xbb);
    assert_eq!(regs.cells, [0xbbaa, 0, 0, 0, 0, 0, 0, 0]);
    regs.write(4, RegisterAccess::High, 0x1234);
    assert_eq!(regs.read(0, RegisterAccess::Full), 0x34aa);
}

#[test]
fn mov_cx_12_executes() {
    let mut m = loaded(&[0xb9, 0x0c, 0x00]);
    assert!(matches!(m.step(), StepOutcome::Executed(_)));
    assert_eq!(m.registers.cells[CX], 12);
    assert_eq!(m.ip, 3);
    assert_eq!(m.step(), StepOutcome::Halted);
    assert_eq!(m.ip, 3);
}

#[test]
fn loop_to_itself_three_times() {
    // mov cx, 3 ; here: loop here
    let mut m = loaded(&[0xb9, 0x03, 0x00, 0xe2, 0xfe]);
    m.step();
    assert_eq!(m.registers.cells[CX], 3);
    m.step();
    assert_eq!((m.registers.cells[CX], m.ip), (2, 3));
    m.step();
    assert_eq!((m.registers.cells[CX], m.ip), (1, 3));
    m.step();
    assert_eq!((m.registers.cells[CX], m.ip), (0, 5));
    assert_eq!(m.step(), StepOutcome::Halted);
}

#[test]
fn program_without_halt_terminates() {
    // mov cx, 12 ; add ax, cx
    let mut m = loaded(&[0xb9, 0x0c, 0x00, 0x01, 0xc8]);
    assert_eq!(m.memory[5], 0xf4);
    let r = m.run(1000);
    assert_eq!(r.stop, StopReason::Halted);
    assert_eq!(r.steps, 2);
    assert_eq!(m.registers.cells[AX], 12);
    assert_eq!(m.ip, 5);
}

#[test]
fn sub_flag_boundaries() {
    // mov ax, 5 ; sub ax, 5
    let mut m = loaded(&[0xb8, 0x05, 0x00, 0x2d, 0x05, 0x00]);
    m.run(10);
    assert_eq!(m.registers.cells[AX], 0);
    assert!(m.flags.has(Flag::Zero));
    assert!(!m.flags.has(Flag::Sign));

    // mov ax, 0 ; sub ax, 0x8000
    let mut m = loaded(&[0xb8, 0x00, 0x00, 0x2d, 0x00, 0x80]);
    m.run(10);
    assert_eq!(m.registers.cells[AX], 0x8000);
    assert!(m.flags.sign);
    assert!(!m.flags.zero);

    // mov ax, 0x8000 leaves the flags alone
    let mut m = loaded(&[0xb8, 0x00, 0x80]);
    m.run(10);
    assert_eq!(m.registers.cells[AX], 0x8000);
    assert_eq!(m.flags, Flags { zero: false, sign: false });
}

#[test]
fn byte_arithmetic_flags_use_stored_width() {
    // mov ax, 0x00ff ; add al, 1  -> al = 0, ah untouched, zero set
    let mut m = loaded(&[0xb8, 0xff, 0x00, 0x04, 0x01]);
    m.run(10);
    assert_eq!(m.registers.cells[AX], 0x0000);
    assert!(m.flags.zero);
    // mov ax, 0x017f ; add al, 1 -> al = 0x80, sign of the byte
    let mut m = loaded(&[0xb8, 0x7f, 0x01, 0x04, 0x01]);
    m.run(10);
    assert_eq!(m.registers.cells[AX], 0x0180);
    assert!(m.flags.sign);
    assert!(!m.flags.zero);
}

#[test]
fn sign_extended_immediate() {
    // mov bx, 10 ; add bx, -2 (83 c3 fe)
    let mut m = loaded(&[0xbb, 0x0a, 0x00, 0x83, 0xc3, 0xfe]);
    m.run(10);
    assert_eq!(m.registers.cells[3], 8);
}

#[test]
fn memory_moves_and_effective_addresses() {
    // mov bx, 1000 ; mov word [bx + 4], 0x1234 ; mov cx, [bx + 4] ; mov dl, [bx + 5]
    let program = [
        0xbb, 0xe8, 0x03, 0xc7, 0x47, 0x04, 0x34, 0x12, 0x8b, 0x4f, 0x04, 0x8a, 0x57, 0x05,
    ];
    let mut m = loaded(&program);
    let r = m.run(10);
    assert_eq!(r.stop, StopReason::Halted);
    assert_eq!(m.memory[1004], 0x34);
    assert_eq!(m.memory[1005], 0x12);
    assert_eq!(m.registers.cells[CX], 0x1234);
    assert_eq!(m.registers.cells[2], 0x0012);
}

#[test]
fn conditional_jumps() {
    // mov cx, 2 ; top: sub cx, 1 (83 e9 01) ; jne top (75 fb)
    let mut m = loaded(&[0xb9, 0x02, 0x00, 0x83, 0xe9, 0x01, 0x75, 0xfb]);
    let r = m.run(100);
    assert_eq!(r.stop, StopReason::Halted);
    assert_eq!(r.steps, 5);
    assert_eq!(m.registers.cells[CX], 0);
    assert_eq!(m.ip, 8);
}

#[test]
fn errors_and_stops() {
    assert_eq!(Machine::load(&vec![0u8; 65536]).err(), Some(SimError::ProgramTooLarge));

    // mov [65535], ax
    let mut m = loaded(&[0x89, 0x06, 0xff, 0xff]);
    assert_eq!(m.step(), StepOutcome::Fault(SimError::MemoryOutOfBounds));
    assert_eq!(m.ip, 0);

    // jl 0
    let mut m = loaded(&[0x7c, 0x00]);
    assert_eq!(m.run(5).stop, StopReason::Fault(SimError::UnimplementedOperation));

    let mut m = loaded(&[0x0f]);
    let r = m.run(5);
    assert_eq!(r.stop, StopReason::DecodeFailed);
    assert_eq!(r.steps, 0);

    // here: jne here, with zero clear: never stops by itself
    let mut m = loaded(&[0x75, 0xfe]);
    let r = m.run(50);
    assert_eq!(r.stop, StopReason::StepLimit);
    assert_eq!(r.steps, 50);

    let mut m = loaded(&[]);
    let bad = Instruction {
        operation: Operation::Mov_Imm_To_Reg,
        operands: [Some(Operand::ImmediateData(1)), Some(Operand::ImmediateData(2))],
        flags: InstructionFlags::default(),
        size: 3,
    };
    assert_eq!(m.execute(&bad, 3), Err(SimError::InvalidOperand));
    let to_memory = Instruction {
        operation: Operation::Mov_Imm_To_RegMem,
        operands: [Some(Operand::Memory(EffectiveAddress::Direct(9))), Some(Operand::ImmediateData(0x4321))],
        flags: InstructionFlags { wide: false, ..Default::default() },
        size: 5,
    };
    assert_eq!(m.execute(&to_memory, 5), Ok(()));
    assert_eq!((m.memory[9], m.memory[10], m.ip), (0x21, 0, 5));
}

#[test]
fn trace_and_report_text() {
    let mut m = loaded(&[0xb9, 0x0c, 0x00, 0x81, 0xe9, 0x0c, 0x00]);
    let before = Machine { registers: m.registers, flags: m.flags, ip: m.ip, memory: Vec::new() };
    m.step();
    let after = Machine { registers: m.registers, flags: m.flags, ip: m.ip, memory: Vec::new() };
    assert_eq!(trace_line("mov cx, 12", &before, &after), "mov cx, 12 ; cx:0x0->0xc ip:0x0->0x3");
    m.step();
    let last = Machine { registers: m.registers, flags: m.flags, ip: m.ip, memory: Vec::new() };
    assert_eq!(trace_line("sub cx, 12", &after, &last), "sub cx, 12 ; cx:0xc->0x0 ip:0x3->0x7 flags:->Z");
    assert_eq!(
        final_state_report(&last),
        "ax: 0x0 (0)\ncx: 0x0 (0)\ndx: 0x0 (0)\nbx: 0x0 (0)\nsp: 0x0 (0)\nbp: 0x0 (0)\nsi: 0x0 (0)\ndi: 0x0 (0)\nip: 0x7 (7)\nflags: Z\n"
    );
}

use sim8086::decoder::{
    decode_instruction, get_register_name, read_word, EffectiveAddress, EffectiveAddressBase,
    Instruction, InstructionFlags, Operand, Operation, OperationFlag, RegisterAccess,
};
use sim8086::format::{disassemble, format_instruction};
use sim8086::pointer::DecomposedPointer;

fn text(bytes: &[u8]) -> String {
    format_instruction(&decode_instruction(bytes, 0).expect("decodes"))
}

#[test]
fn register_names() {
    assert_eq!(get_register_name(0, true), Some("ax"));
    assert_eq!(get_register_name(4, false), Some("ah"));
    assert_eq!(get_register_name(7, true), Some("di"));
    assert_eq!(get_register_name(8, false), None);
}

#[test]
fn effective_address_table_for_every_mode_and_rm() {
    let bases = [
        EffectiveAddressBase::BX_SI,
        EffectiveAddressBase::BX_DI,
        EffectiveAddressBase::BP_SI,
        EffectiveAddressBase::BP_DI,
        EffectiveAddressBase::SI,
        EffectiveAddressBase::DI,
        EffectiveAddressBase::BP,
        EffectiveAddressBase::BX,
    ];
    for mode in 0u8..4 {
        for rm in 0u8..8 {
            // mov ax, <r/m> with displacement bytes 0x34 0x12
            let bytes = [0x8b, (mode << 6) | rm, 0x34, 0x12];
            let ins = decode_instruction(&bytes, 0).unwrap();
            let src = ins.operands[1].unwrap();
            match (mode, rm) {
                (3, _) => {
                    assert_eq!(src, Operand::Register(rm, RegisterAccess::Full));
                    assert_eq!(ins.size, 2);
                },
                (0, 6) => {
                    assert_eq!(src, Operand::Memory(EffectiveAddress::Direct(0x1234)));
                    assert_eq!(ins.size, 4);
                },
                (0, _) => {
                    assert_eq!(src, Operand::Memory(EffectiveAddress::Calculated { base: bases[rm as usize], displacement: 0 }));
                    assert_eq!(ins.size, 2);
                },
                (1, _) => {
                    assert_eq!(src, Operand::Memory(EffectiveAddress::Calculated { base: bases[rm as usize], displacement: 0x34 }));
                    assert_eq!(ins.size, 3);
                },
                _ => {
                    assert_eq!(src, Operand::Memory(EffectiveAddress::Calculated { base: bases[rm as usize], displacement: 0x1234 }));
                    assert_eq!(ins.size, 4);
                },
            }
        }
    }
    assert_eq!(EffectiveAddressBase::BP_DI.get_register_encodings(), [Some(5), Some(7)]);
    assert_eq!(EffectiveAddressBase::BX.get_register_encodings(), [Some(3), None]);
}

#[test]
fn displacement_signs() {
    assert_eq!(text(&[0x8b, 0x40, 0xff]), "mov ax, [bx + si - 1]");
    assert_eq!(text(&[0x8b, 0x40, 0x02]), "mov ax, [bx + si + 2]");
    assert_eq!(text(&[0x8b, 0x00]), "mov ax, [bx + si]");
    assert_eq!(text(&[0x8b, 0x40, 0x00]), "mov ax, [bx + si]");
    assert_eq!(text(&[0x8b, 0x80, 0x2c, 0xfe]), "mov ax, [bx + si - 468]");
    assert_eq!(text(&[0x8b, 0x46, 0x00]), "mov ax, [bp]");
    assert_eq!(text(&[0x8b, 0x1e, 0x82, 0x0d]), "mov bx, [3458]");
}

#[test]
fn mov_cx_12_round_trip() {
    let ins = decode_instruction(&[0xb9, 0x0c, 0x00], 0).unwrap();
    assert_eq!(ins.operation, Operation::Mov_Imm_To_Reg);
    assert_eq!(ins.size, 3);
    assert_eq!(format_instruction(&ins), "mov cx, 12");
}

#[test]
fn decodes_each_class() {
    assert_eq!(text(&[0x89, 0xd9]), "mov cx, bx");
    assert_eq!(text(&[0x88, 0xe5]), "mov ch, ah");
    assert_eq!(text(&[0xb1, 0x0c]), "mov cl, 12");
    assert_eq!(text(&[0xc6, 0x03, 0x07]), "mov [bp + di], byte 7");
    assert_eq!(text(&[0xc7, 0x85, 0x85, 0x03, 0x5b, 0x01]), "mov [di + 901], word 347");
    assert_eq!(text(&[0xa1, 0xfb, 0x09]), "mov ax, [2555]");
    assert_eq!(text(&[0xa3, 0x0f, 0x00]), "mov [15], ax");
    assert_eq!(text(&[0x03, 0x18]), "add bx, [bx + si]");
    assert_eq!(text(&[0x83, 0xc6, 0x02]), "add si, 2");
    assert_eq!(text(&[0x05, 0xe8, 0x03]), "add ax, 1000");
    assert_eq!(text(&[0x2b, 0x5e, 0x00]), "sub bx, [bp]");
    assert_eq!(text(&[0x80, 0x2f, 0x22]), "sub [bx], byte 34");
    assert_eq!(text(&[0x2c, 0x09]), "sub al, 9");
    assert_eq!(text(&[0x39, 0xd8]), "cmp ax, bx");
    assert_eq!(text(&[0x83, 0x3e, 0xe2, 0x12, 0x1d]), "cmp [4834], word 29");
    assert_eq!(text(&[0x3c, 0x09]), "cmp al, 9");
    assert_eq!(text(&[0x75, 0x02]), "jne 2");
    assert_eq!(text(&[0x74, 0xfe]), "je -2");
    assert_eq!(text(&[0xe2, 0xfc]), "loop -4");
    assert_eq!(text(&[0xe0, 0x00]), "loopnz 0");
    assert_eq!(text(&[0xe3, 0x05]), "jcxz 5");
    assert_eq!(text(&[0xf4]), "hlt");
}

#[test]
fn immediate_group_flags() {
    let ins = decode_instruction(&[0x83, 0xc6, 0xfe], 0).unwrap();
    assert_eq!(ins.operation, Operation::Add_Imm_To_RegMem);
    assert!(ins.has_flag(OperationFlag::SignExtension));
    assert!(ins.has_flag(OperationFlag::Wide));
    assert!(!ins.has_flag(OperationFlag::Destination));
    assert_eq!(ins.operands[1], Some(Operand::ImmediateData(0xfe)));
    assert_eq!(ins.size, 3);

    let ins = decode_instruction(&[0x81, 0xc6, 0x34, 0x12], 0).unwrap();
    assert!(!ins.has_flag(OperationFlag::SignExtension));
    assert_eq!(ins.operands[1], Some(Operand::ImmediateData(0x1234)));
    assert_eq!(ins.size, 4);
}

#[test]
fn decode_failures() {
    assert!(decode_instruction(&[0x0f], 0).is_none());
    assert!(decode_instruction(&[0x80, 0x08, 0x01], 0).is_none());
    assert!(decode_instruction(&[0xb9, 0x0c], 0).is_none());
    assert!(decode_instruction(&[0x89], 0).is_none());
    assert!(decode_instruction(&[0xf4], 1).is_none());
    assert!(decode_instruction(&[0x90, 0xf4], 1).is_some());
}

#[test]
fn read_word_is_little_endian() {
    assert_eq!(read_word(&[0x00, 0x34, 0x12], 1), 0x1234);
}

#[test]
fn disassembly_listing() {
    let listing = disassemble(&[0xb9, 0x0c, 0x00, 0x0f, 0x89, 0xd9]);
    assert_eq!(listing, "bits 16\nmov cx, 12\nunrecognized instruction\nmov cx, bx\n");
    assert_eq!(disassemble(&[]), "bits 16\n");
}

#[test]
fn clock_estimates() {
    let ins = decode_instruction(&[0x8b, 0x40, 0x02], 0).unwrap();
    assert_eq!(ins.get_clocks_estimate(), (19, Some(String::from("8 + 11ea"))));
    let ins = decode_instruction(&[0x89, 0xd9], 0).unwrap();
    assert_eq!(ins.get_clocks_estimate(), (2, None));
    let ins = decode_instruction(&[0x01, 0x1e, 0x10, 0x00], 0).unwrap();
    assert_eq!(ins.get_clocks_estimate(), (22, Some(String::from("16 + 6ea"))));
    let ins = decode_instruction(&[0x83, 0x00, 0x01], 0).unwrap();
    assert_eq!(ins.get_clocks_estimate(), (24, Some(String::from("17 + 7ea"))));
    let ins = decode_instruction(&[0xe2, 0xfe], 0).unwrap();
    assert_eq!(ins.get_clocks_estimate(), (5, None));
}

#[test]
fn hand_built_instruction_text() {
    let ins = Instruction {
        operation: Operation::Mov_Imm_To_RegMem,
        operands: [Some(Operand::Memory(EffectiveAddress::Direct(7))), Some(Operand::ImmediateData(300))],
        flags: InstructionFlags { wide: true, ..Default::default() },
        size: 6,
    };
    assert_eq!(format_instruction(&ins), "mov [7], word 300");
}

#[test]
fn pointer_decomposition() {
    let p = DecomposedPointer::new(0x0000_7fff_ffff_f123);
    assert_eq!(p.pml4_index, 0xff);
    assert_eq!(p.directory_ptr_index, 0x1ff);
    assert_eq!(p.directory_index, 0x1ff);
    assert_eq!(p.table_index, 0x1ff);
    assert_eq!(p.page_offset, 0x123);
    let p = DecomposedPointer::new((3u64 << 39) | (5 << 30) | (7 << 21) | (9 << 12) | 0xabc);
    assert_eq!((p.pml4_index, p.directory_ptr_index, p.directory_index, p.table_index, p.page_offset), (3, 5, 7, 9, 0xabc));
}

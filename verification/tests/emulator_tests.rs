use austin_isa::alu::{alu, ALU_ADD, ALU_MUL, ALU_PASS, ALU_SUB};
use austin_isa::decode::{decode, Instr};
use austin_isa::emulator::{run, step, EmuError};
use austin_isa::flags::{apply_flag_code, apply_setflg, jump_taken, Flags};
use austin_isa::memory::{read_ram, write_ram, MemError};
use austin_isa::registers::{
    init_registers, read_register, read_wide_register, write_register, write_wide_register,
};

#[test]
fn thin_codes_write_and_read_back() {
    let mut regs = init_registers();
    for code in 0u16..16u16 {
        let v = 0x1000 + code;
        write_register(code, v, &mut regs);
        assert_eq!(read_register(code, &regs), v);
    }
    // every code still reads what was written: the 16 units are disjoint
    for code in 0u16..16u16 {
        assert_eq!(read_register(code, &regs), 0x1000 + code);
    }
}

#[test]
fn wide_codes_write_and_read_back() {
    let mut regs = init_registers();
    for code in 0u16..4u16 {
        let v = 0xDEAD_0000 + code as u32;
        write_wide_register(code, v, &mut regs);
        assert_eq!(read_wide_register(code, &regs), v);
    }
    for code in 0u16..4u16 {
        assert_eq!(read_wide_register(code, &regs), 0xDEAD_0000 + code as u32);
    }
}

#[test]
fn half_writes_preserve_the_other_half() {
    let mut regs = init_registers();
    // thin codes 8/9 are the low/high halves of J (wide code 0)
    write_register(8, 0x1234, &mut regs);
    write_register(9, 0xABCD, &mut regs);
    assert_eq!(read_wide_register(0, &regs), 0xABCD_1234);
    write_register(8, 0x5678, &mut regs);
    assert_eq!(read_register(9, &regs), 0xABCD);
    assert_eq!(read_wide_register(0, &regs), 0xABCD_5678);
    // P is wide code 3, halves 14/15
    write_register(15, 0x0001, &mut regs);
    write_register(14, 0x0002, &mut regs);
    assert_eq!(read_wide_register(3, &regs), 0x0001_0002);
}

#[test]
fn alu_add_wraps_and_sets_overflow() {
    assert_eq!(alu(ALU_ADD, 0xFFFF, 0x0001, false), Some((0x0000, true)));
    assert_eq!(alu(ALU_ADD, 0x0002, 0x0003, true), Some((0x0005, false)));
}

#[test]
fn alu_sub_wraps_and_sets_overflow() {
    assert_eq!(alu(ALU_SUB, 0x0005, 0x0006, false), Some((0xFFFF, true)));
    assert_eq!(alu(ALU_SUB, 0x0006, 0x0005, true), Some((0x0001, false)));
}

#[test]
fn alu_mul_wraps_and_sets_overflow() {
    assert_eq!(alu(ALU_MUL, 0x0002, 0x0003, true), Some((0x0006, false)));
    assert_eq!(alu(ALU_MUL, 0x0100, 0x0100, false), Some((0x0000, true)));
}

#[test]
fn alu_pass_hands_b_through_and_keeps_ov() {
    assert_eq!(alu(ALU_PASS, 0x1234, 0x0042, true), Some((0x0042, true)));
    assert_eq!(alu(ALU_PASS, 0x1234, 0x0042, false), Some((0x0042, false)));
}

#[test]
fn alu_rejects_unknown_op() {
    assert_eq!(alu(0b10000, 1, 2, false), None);
    assert_eq!(alu(0b11111, 1, 2, false), None);
}

#[test]
fn setflg_codes_on_a_set_flag() {
    assert_eq!(apply_flag_code(0, true), false);
    assert_eq!(apply_flag_code(1, true), true);
    assert_eq!(apply_flag_code(2, true), false);
    assert_eq!(apply_flag_code(3, true), true);
}

#[test]
fn setflg_codes_on_a_clear_flag() {
    assert_eq!(apply_flag_code(0, false), false);
    assert_eq!(apply_flag_code(1, false), false);
    assert_eq!(apply_flag_code(2, false), true);
    assert_eq!(apply_flag_code(3, false), true);
}

#[test]
fn setflg_word_updates_each_flag_field() {
    let mut f = Flags { gt_flag: true, eq_flag: false, ls_flag: true, ov_flag: false };
    // gt: clear (00), eq: keep (01), ls: invert (10), ov: set (11)
    apply_setflg(0x0200 | (0b00 << 6) | (0b01 << 4) | (0b10 << 2) | 0b11, &mut f);
    assert_eq!(f, Flags { gt_flag: false, eq_flag: false, ls_flag: false, ov_flag: true });
}

#[test]
fn jump_condition_evaluation() {
    let f = Flags { gt_flag: false, eq_flag: true, ls_flag: false, ov_flag: false };
    // flag word is 2
    assert!(jump_taken(7, &f));
    assert!(jump_taken(2, &f));
    assert!(!jump_taken(3, &f));
    assert!(!jump_taken(0, &f));
    let odd = Flags { gt_flag: false, eq_flag: false, ls_flag: true, ov_flag: false };
    assert!(jump_taken(0, &odd));
}

#[test]
fn unpopulated_reads_return_zero() {
    let ram: Vec<u16> = vec![7, 8, 9];
    assert_eq!(read_ram(1, &ram), Ok(8));
    assert_eq!(read_ram(3, &ram), Ok(0));
    assert_eq!(read_ram(0xEFFF_FFFF, &ram), Ok(0));
}

#[test]
fn reserved_io_access_is_an_error() {
    let mut ram: Vec<u16> = vec![7];
    assert_eq!(read_ram(0xF000_0000, &ram), Err(MemError::ReservedIo { addr: 0xF000_0000 }));
    assert_eq!(read_ram(0xFFFF_FFFF, &ram), Err(MemError::ReservedIo { addr: 0xFFFF_FFFF }));
    assert_eq!(
        write_ram(0xF000_0000, 1, &mut ram),
        Err(MemError::ReservedIo { addr: 0xF000_0000 })
    );
}

#[test]
fn writes_past_the_populated_length_are_an_error() {
    let mut ram: Vec<u16> = vec![7, 8];
    assert_eq!(write_ram(2, 1, &mut ram), Err(MemError::OutOfBounds { addr: 2 }));
    assert_eq!(ram, vec![7, 8]);
    assert_eq!(write_ram(1, 42, &mut ram), Ok(()));
    assert_eq!(ram, vec![7, 42]);
}

#[test]
fn all_zero_program_halts_without_mutation() {
    let st = run(vec![0x0000], 100).unwrap();
    assert!(st.halted);
    for code in 0u16..16u16 {
        assert_eq!(read_register(code, &st.registers), 0);
    }
    for code in 0u16..4u16 {
        assert_eq!(read_wide_register(code, &st.registers), 0);
    }
    assert_eq!(
        st.flags,
        Flags { gt_flag: false, eq_flag: false, ls_flag: false, ov_flag: false }
    );
    assert_eq!(st.ram, vec![0x0000]);
}

#[test]
fn empty_memory_halts_on_first_fetch() {
    // an unpopulated address reads as zero, and the all-zero word halts
    let st = run(Vec::new(), 10).unwrap();
    assert!(st.halted);
    assert_eq!(st.ram, Vec::<u16>::new());
}

#[test]
fn immediate_add_writes_back_and_advances_pc() {
    // ADD #5 into B from A (a = 0, out = 1, imm = 5), then halt
    let prog = vec![(5u16 << 12) | (5 << 6) | (1 << 3), 0x0000];
    let st = run(prog, 100).unwrap();
    assert!(st.halted);
    assert_eq!(read_register(1, &st.registers), 5);
    assert_eq!(read_wide_register(3, &st.registers), 1);
}

#[test]
fn unknown_opcode_aborts_with_instruction_and_pc() {
    let r = run(vec![0x0100], 100);
    assert_eq!(r.err(), Some(EmuError::UnknownOpcode { instr: 0x0100, pc: 0 }));
}

#[test]
fn unimplemented_alu_op_aborts() {
    // a register-register word whose ALU field is 0 names no operation
    let r = run(vec![0x2000], 100);
    assert_eq!(r.err(), Some(EmuError::UnimplementedAluOp { op: 0b10000, instr: 0x2000, pc: 0 }));
}

#[test]
fn load_from_reserved_io_aborts() {
    let mut regs = init_registers();
    let mut flags = Flags { gt_flag: false, eq_flag: false, ls_flag: false, ov_flag: false };
    write_wide_register(0, 0xF000_0000, &mut regs);
    // LOAD A from the address in J
    let mut ram = vec![0x0340];
    let r = step(&mut regs, &mut flags, &mut ram);
    assert_eq!(r, Err(EmuError::ReservedIo { addr: 0xF000_0000, pc: 0 }));
}

#[test]
fn store_past_populated_length_aborts() {
    let mut regs = init_registers();
    let mut flags = Flags { gt_flag: false, eq_flag: false, ls_flag: false, ov_flag: false };
    write_wide_register(0, 5, &mut regs);
    // STORE A to the address in J, which lies past the one-word memory
    let mut ram = vec![0x0320];
    let r = step(&mut regs, &mut flags, &mut ram);
    assert_eq!(r, Err(EmuError::OutOfBoundsWrite { addr: 5, pc: 0 }));
    assert_eq!(ram, vec![0x0320]);
}

#[test]
fn store_and_load_move_a_word_through_memory() {
    let mut regs = init_registers();
    let mut flags = Flags { gt_flag: false, eq_flag: false, ls_flag: false, ov_flag: false };
    // A holds 0x1234; J points at address 2
    write_register(0, 0x1234, &mut regs);
    write_wide_register(0, 2, &mut regs);
    let mut ram = vec![0x0320, 0x0344, 0x0000];
    // STORE A, J
    assert_eq!(step(&mut regs, &mut flags, &mut ram), Ok(false));
    assert_eq!(ram[2], 0x1234);
    // LOAD B, J (the word just stored overwrote the halt word, so B gets it)
    assert_eq!(step(&mut regs, &mut flags, &mut ram), Ok(false));
    assert_eq!(read_register(1, &regs), 0x1234);
}

#[test]
fn taken_jump_redirects_pc() {
    let mut regs = init_registers();
    let mut flags = Flags { gt_flag: false, eq_flag: false, ls_flag: false, ov_flag: false };
    write_wide_register(1, 7, &mut regs);
    // JA with condition 7 (always) to the address in K
    let mut ram = vec![0x0300 | (7 << 2) | 1];
    assert_eq!(step(&mut regs, &mut flags, &mut ram), Ok(false));
    assert_eq!(read_wide_register(3, &regs), 7);
}

#[test]
fn untaken_jump_increments_pc() {
    let mut regs = init_registers();
    let mut flags = Flags { gt_flag: false, eq_flag: false, ls_flag: false, ov_flag: false };
    write_wide_register(1, 7, &mut regs);
    // JA with condition 1, but the flag word is 0
    let mut ram = vec![0x0300 | (1 << 2) | 1];
    assert_eq!(step(&mut regs, &mut flags, &mut ram), Ok(false));
    assert_eq!(read_wide_register(3, &regs), 1);
}

#[test]
fn decode_precedence_and_fields() {
    assert_eq!(decode(0x0000), Some(Instr::Nop));
    assert_eq!(decode(0x0100), None);
    assert_eq!(
        decode(0x02C6),
        Some(Instr::SetFlg { gt_code: 3, eq_code: 0, ls_code: 1, ov_code: 2 })
    );
    assert_eq!(decode(0x031C), Some(Instr::Ja { cond: 7, wide: 0 }));
    assert_eq!(decode(0x0321), Some(Instr::Store { src: 0, wide: 1 }));
    assert_eq!(decode(0x0344), Some(Instr::Load { dst: 1, wide: 0 }));
    assert_eq!(decode(0x0360), None);
    assert_eq!(decode(0x1FFF), None);
    assert_eq!(
        decode(0x2000 | (5 << 9) | (2 << 6) | (1 << 3) | 0),
        Some(Instr::Tra { op: 0b10101, out: 2, b: 1, a: 0 })
    );
    assert_eq!(
        decode((5 << 12) | (9 << 6) | (1 << 3) | 0),
        Some(Instr::Im { op: 0b10101, imm: 9, out: 1, a: 0 })
    );
}

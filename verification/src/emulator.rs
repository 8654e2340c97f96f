//! The fetch/decode/execute cycle.
//!
//! Each cycle fetches the word at the program counter (the wide register
//! P), decodes it, reads its operands, runs the ALU where the class asks
//! for one, writes the result back, and writes the next program counter
//! into P.  The all-zero word halts the run; an unknown opcode or an
//! unimplemented ALU operation aborts it with the offending instruction
//! and program counter.

use vstd::prelude::*;

use crate::alu::{alu, spec_alu};
use crate::decode::{decode, spec_decode, Instr};
use crate::flags::{apply_setflg, jump_taken, spec_init_flags, spec_jump, spec_setflg, Flags};
use crate::memory::{read_ram, spec_read_mem, write_ram, MemError, IO_BOUNDARY};
use crate::registers::{
    init_registers, read_register, read_wide_register, spec_init_registers, spec_read_thin,
    spec_read_wide, spec_write_thin, spec_write_wide, wf_registers, write_register,
    write_wide_register, Register,
};

verus! {

/// A fatal condition that aborts a run, with the offending instruction
/// word and the program counter it was fetched from.
#[derive(Clone, Copy, Debug, PartialEq, Eq, Structural)]
pub enum EmuError {
    /// No bit pattern of the encoding matches the fetched word.
    UnknownOpcode { instr: u16, pc: u32 },
    /// A TRA or IM word carries an operation code the ALU does not have.
    UnimplementedAluOp { op: u16, instr: u16, pc: u32 },
    /// An access at or above the reserved I/O boundary.
    ReservedIo { addr: u32, pc: u32 },
    /// A write past the populated length of memory.
    OutOfBoundsWrite { addr: u32, pc: u32 },
}

/// The wide code of the program counter register P.
pub const PC_WIDE: u16 = 3;

/// One cycle, as a mathematical function of the machine state: `Ok(None)`
/// is a clean halt, `Ok(Some((registers, flags, memory)))` the next state,
/// and `Err` a fatal abort.  The emulator's `step` is proved to follow
/// this function exactly.
pub open spec fn spec_step(regs: Seq<Register>, flags: Flags, ram: Seq<u16>) -> Result<
    Option<(Seq<Register>, Flags, Seq<u16>)>,
    EmuError,
> {
    let pc = spec_read_wide(regs, PC_WIDE);
    if pc >= IO_BOUNDARY {
        Err(EmuError::ReservedIo { addr: pc, pc })
    } else {
        let instr = spec_read_mem(ram, pc as int);
        match spec_decode(instr) {
            None => Err(EmuError::UnknownOpcode { instr, pc }),
            Some(Instr::Nop) => Ok(None),
            Some(Instr::SetFlg { .. }) => Ok(
                Some(
                    (
                        spec_write_wide(regs, PC_WIDE, (pc + 1) as u32),
                        spec_setflg(instr, flags),
                        ram,
                    ),
                ),
            ),
            Some(Instr::Ja { cond, wide }) => {
                let target: u32 = if spec_jump(cond, flags) {
                    spec_read_wide(regs, wide)
                } else {
                    (pc + 1) as u32
                };
                Ok(Some((spec_write_wide(regs, PC_WIDE, target), flags, ram)))
            },
            Some(Instr::Store { src, wide }) => {
                let addr = spec_read_wide(regs, wide);
                if addr >= IO_BOUNDARY {
                    Err(EmuError::ReservedIo { addr, pc })
                } else if addr >= ram.len() {
                    Err(EmuError::OutOfBoundsWrite { addr, pc })
                } else {
                    Ok(
                        Some(
                            (
                                spec_write_wide(regs, PC_WIDE, (pc + 1) as u32),
                                flags,
                                ram.update(addr as int, spec_read_thin(regs, src)),
                            ),
                        ),
                    )
                }
            },
            Some(Instr::Load { dst, wide }) => {
                let addr = spec_read_wide(regs, wide);
                if addr >= IO_BOUNDARY {
                    Err(EmuError::ReservedIo { addr, pc })
                } else {
                    let regs1 = spec_write_thin(regs, dst, spec_read_mem(ram, addr as int));
                    Ok(Some((spec_write_wide(regs1, PC_WIDE, (pc + 1) as u32), flags, ram)))
                }
            },
            Some(Instr::Tra { op, out, b, a }) => {
                match spec_alu(op, spec_read_thin(regs, a), spec_read_thin(regs, b), flags.ov_flag) {
                    None => Err(EmuError::UnimplementedAluOp { op, instr, pc }),
                    Some(res) => {
                        let regs1 = spec_write_thin(regs, out, res.0);
                        Ok(
                            Some(
                                (
                                    spec_write_wide(regs1, PC_WIDE, (pc + 1) as u32),
                                    Flags { ov_flag: res.1, ..flags },
                                    ram,
                                ),
                            ),
                        )
                    },
                }
            },
            Some(Instr::Im { op, imm, out, a }) => {
                match spec_alu(op, spec_read_thin(regs, a), imm, flags.ov_flag) {
                    None => Err(EmuError::UnimplementedAluOp { op, instr, pc }),
                    Some(res) => {
                        let regs1 = spec_write_thin(regs, out, res.0);
                        Ok(
                            Some(
                                (
                                    spec_write_wide(regs1, PC_WIDE, (pc + 1) as u32),
                                    Flags { ov_flag: res.1, ..flags },
                                    ram,
                                ),
                            ),
                        )
                    },
                }
            },
        }
    }
}

/// Runs one cycle.  `Ok(true)` is a clean halt; `Ok(false)` means the
/// machine stepped to the next state.  On a halt or any error, registers,
/// flags and memory are exactly as they were: in particular a program
/// whose first fetched word is all-zero halts with no mutation at all.
pub fn step(registers: &mut Vec<Register>, flags: &mut Flags, ram: &mut Vec<u16>) -> (r: Result<
    bool,
    EmuError,
>)
    requires
        wf_registers(old(registers)@),
    ensures
        wf_registers(final(registers)@),
        match spec_step(old(registers)@, *old(flags), old(ram)@) {
            Ok(None) => r == Ok::<bool, EmuError>(true) && final(registers)@ == old(registers)@
                && *final(flags) == *old(flags) && final(ram)@ == old(ram)@,
            Ok(Some(st)) => r == Ok::<bool, EmuError>(false) && final(registers)@ == st.0
                && *final(flags) == st.1 && final(ram)@ == st.2,
            Err(e) => r == Err::<bool, EmuError>(e) && final(registers)@ == old(registers)@
                && *final(flags) == *old(flags) && final(ram)@ == old(ram)@,
        },
{
    let pc = read_wide_register(PC_WIDE, registers);
    let instr = match read_ram(pc, ram) {
        Ok(w) => w,
        Err(MemError::ReservedIo { addr }) => {
            return Err(EmuError::ReservedIo { addr, pc });
        },
        Err(MemError::OutOfBounds { addr }) => {
            proof {
                assert(false);
            }
            return Err(EmuError::OutOfBoundsWrite { addr, pc });
        },
    };
    let decoded = match decode(instr) {
        Some(i) => i,
        None => {
            return Err(EmuError::UnknownOpcode { instr, pc });
        },
    };
    match decoded {
        Instr::Nop => Ok(true),
        Instr::SetFlg { .. } => {
            apply_setflg(instr, flags);
            write_wide_register(PC_WIDE, pc + 1, registers);
            Ok(false)
        },
        Instr::Ja { cond, wide } => {
            let target: u32 = if jump_taken(cond, flags) {
                read_wide_register(wide, registers)
            } else {
                pc + 1
            };
            write_wide_register(PC_WIDE, target, registers);
            Ok(false)
        },
        Instr::Store { src, wide } => {
            let addr = read_wide_register(wide, registers);
            let val = read_register(src, registers);
            match write_ram(addr, val, ram) {
                Ok(_) => {
                    write_wide_register(PC_WIDE, pc + 1, registers);
                    Ok(false)
                },
                Err(MemError::ReservedIo { addr }) => Err(EmuError::ReservedIo { addr, pc }),
                Err(MemError::OutOfBounds { addr }) => Err(
                    EmuError::OutOfBoundsWrite { addr, pc },
                ),
            }
        },
        Instr::Load { dst, wide } => {
            let addr = read_wide_register(wide, registers);
            match read_ram(addr, ram) {
                Ok(val) => {
                    write_register(dst, val, registers);
                    write_wide_register(PC_WIDE, pc + 1, registers);
                    Ok(false)
                },
                Err(MemError::ReservedIo { addr }) => Err(EmuError::ReservedIo { addr, pc }),
                Err(MemError::OutOfBounds { addr }) => {
                    proof {
                        assert(false);
                    }
                    Err(EmuError::OutOfBoundsWrite { addr, pc })
                },
            }
        },
        Instr::Tra { op, out, b, a } => {
            let a_bus = read_register(a, registers);
            let b_bus = read_register(b, registers);
            match alu(op, a_bus, b_bus, flags.ov_flag) {
                None => Err(EmuError::UnimplementedAluOp { op, instr, pc }),
                Some((res, ov)) => {
                    write_register(out, res, registers);
                    flags.ov_flag = ov;
                    write_wide_register(PC_WIDE, pc + 1, registers);
                    Ok(false)
                },
            }
        },
        Instr::Im { op, imm, out, a } => {
            let a_bus = read_register(a, registers);
            match alu(op, a_bus, imm, flags.ov_flag) {
                None => Err(EmuError::UnimplementedAluOp { op, instr, pc }),
                Some((res, ov)) => {
                    write_register(out, res, registers);
                    flags.ov_flag = ov;
                    write_wide_register(PC_WIDE, pc + 1, registers);
                    Ok(false)
                },
            }
        },
    }
}

/// The machine after a run: the register file, the flags, memory, and
/// whether the run reached a clean halt (as opposed to exhausting its
/// step budget).
pub struct RunState {
    pub registers: Vec<Register>,
    pub flags: Flags,
    pub ram: Vec<u16>,
    pub halted: bool,
}

/// Running a machine for at most `fuel` cycles, as a mathematical
/// function: the final registers, flags and memory, and whether the run
/// reached a clean halt before the fuel ran out.
pub open spec fn spec_run(regs: Seq<Register>, flags: Flags, ram: Seq<u16>, fuel: nat) -> Result<
    (Seq<Register>, Flags, Seq<u16>, bool),
    EmuError,
>
    decreases fuel,
{
    if fuel == 0 {
        Ok((regs, flags, ram, false))
    } else {
        match spec_step(regs, flags, ram) {
            Err(e) => Err(e),
            Ok(None) => Ok((regs, flags, ram, true)),
            Ok(Some(st)) => spec_run(st.0, st.1, st.2, (fuel - 1) as nat),
        }
    }
}

/// Runs a loaded memory image from a zeroed machine until it halts, a
/// fatal condition aborts it, or `max_steps` cycles have run, following
/// `spec_run` from the zeroed machine exactly.
#[verifier::loop_isolation(false)]
pub fn run(ram: Vec<u16>, max_steps: usize) -> (r: Result<RunState, EmuError>)
    ensures
        match spec_run(spec_init_registers(), spec_init_flags(), ram@, max_steps as nat) {
            Ok(st) => r matches Ok(rs) && wf_registers(rs.registers@) && rs.registers@ == st.0
                && rs.flags == st.1 && rs.ram@ == st.2 && rs.halted == st.3,
            Err(e) => r == Err::<RunState, EmuError>(e),
        },
        r matches Ok(st) ==> (st.halted ==> spec_step(st.registers@, st.flags, st.ram@) matches Ok(
            None,
        )),
{
    let ghost ram0 = ram@;
    let mut registers = init_registers();
    let mut flags = Flags::new();
    let mut ram = ram;
    let mut halted = false;
    let mut i: usize = 0;
    while i < max_steps && !halted
        invariant
            wf_registers(registers@),
            i <= max_steps,
            !halted ==> spec_run(spec_init_registers(), spec_init_flags(), ram0, max_steps as nat)
                == spec_run(registers@, flags, ram@, (max_steps - i) as nat),
            halted ==> spec_run(spec_init_registers(), spec_init_flags(), ram0, max_steps as nat)
                == Ok::<(Seq<Register>, Flags, Seq<u16>, bool), EmuError>(
                (registers@, flags, ram@, true),
            ),
            halted ==> spec_step(registers@, flags, ram@) matches Ok(None),
        decreases max_steps - i,
    {
        let ghost pre_regs = registers@;
        let ghost pre_flags = flags;
        let ghost pre_ram = ram@;
        let ghost fuel = (max_steps - i) as nat;
        proof {
            assert(fuel > 0);
        }
        match step(&mut registers, &mut flags, &mut ram) {
            Ok(h) => {
                halted = h;
                proof {
                    if h {
                        assert(spec_run(pre_regs, pre_flags, pre_ram, fuel) == Ok::<
                            (Seq<Register>, Flags, Seq<u16>, bool),
                            EmuError,
                        >((pre_regs, pre_flags, pre_ram, true)));
                    } else {
                        assert(spec_run(pre_regs, pre_flags, pre_ram, fuel) == spec_run(
                            registers@,
                            flags,
                            ram@,
                            (fuel - 1) as nat,
                        ));
                    }
                }
            },
            Err(e) => {
                proof {
                    assert(spec_run(pre_regs, pre_flags, pre_ram, fuel) == Err::<
                        (Seq<Register>, Flags, Seq<u16>, bool),
                        EmuError,
                    >(e));
                }
                return Err(e);
            },
        }
        i += 1;
    }
    proof {
        if !halted {
            assert(max_steps - i == 0);
            assert(spec_run(registers@, flags, ram@, 0) == Ok::<
                (Seq<Register>, Flags, Seq<u16>, bool),
                EmuError,
            >((registers@, flags, ram@, false)));
        }
    }
    Ok(RunState { registers, flags, ram, halted })
}

} // verus!

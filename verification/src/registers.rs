//! The register file: eight 16-bit arithmetic registers (A-H) and four
//! 32-bit address registers (J, K, L, P, where P is the program counter).
//!
//! Every 16-bit storage location is addressable by a 4-bit "thin" code:
//! codes 0-7 name the arithmetic registers directly, and codes 8-15 name
//! one half of an address register (8/9 = J low/high, 10/11 = K, 12/13 = L,
//! 14/15 = P).  The address registers are also addressable whole, by a
//! 2-bit "wide" code (0 = J, 1 = K, 2 = L, 3 = P).

use vstd::prelude::*;

verus! {

/// A 16-bit arithmetic register.
pub struct ArrRegister {
    pub num: usize,
    pub name: char,
    pub value: u16,
}

/// A 32-bit address register, addressable whole or as two 16-bit halves.
pub struct AddrRegister {
    pub num: usize,
    pub name: char,
    pub value: u32,
}

/// One register of either kind.
pub enum Register {
    Arr(ArrRegister),
    Addr(AddrRegister),
}

impl Register {
    /// The 16-bit unit selected by `top`: the whole value of an arithmetic
    /// register, or the chosen half of an address register.
    pub open spec fn spec_read(self, top: bool) -> u16 {
        match self {
            Register::Arr(a) => a.value,
            Register::Addr(a) => if top {
                (a.value >> 16) as u16
            } else {
                (a.value & 0xFFFF) as u16
            },
        }
    }

    /// The register after writing `value` to the 16-bit unit selected by
    /// `top`; the other half of an address register is preserved.
    pub open spec fn spec_write(self, value: u16, top: bool) -> Register {
        match self {
            Register::Arr(a) => Register::Arr(ArrRegister { num: a.num, name: a.name, value }),
            Register::Addr(a) => Register::Addr(
                AddrRegister {
                    num: a.num,
                    name: a.name,
                    value: if top {
                        ((value as u32) << 16) | (a.value & 0xFFFF)
                    } else {
                        (value as u32) | (a.value & 0xFFFF0000)
                    },
                },
            ),
        }
    }

    /// The full 32-bit value of an address register.
    pub open spec fn spec_wide_value(self) -> u32
        recommends
            self is Addr,
    {
        self->Addr_0.value
    }

    pub fn read(&self, top: bool) -> (r: u16)
        ensures
            r == self.spec_read(top),
    {
        match self {
            Register::Arr(a) => a.value,
            Register::Addr(a) => if top {
                (a.value >> 16) as u16
            } else {
                (a.value & 0xFFFF) as u16
            },
        }
    }

    pub fn write(&mut self, value: u16, top: bool)
        ensures
            *final(self) == old(self).spec_write(value, top),
    {
        match self {
            Register::Arr(a) => a.value = value,
            Register::Addr(a) => {
                if top {
                    a.value = ((value as u32) << 16) | (a.value & 0xFFFF);
                } else {
                    a.value = (value as u32) | (a.value & 0xFFFF0000);
                }
            },
        }
    }

    pub fn wide_write(&mut self, value: u32)
        requires
            *old(self) is Addr,
        ensures
            *final(self) == (Register::Addr(
                AddrRegister {
                    num: old(self)->Addr_0.num,
                    name: old(self)->Addr_0.name,
                    value,
                },
            )),
    {
        match self {
            Register::Addr(a) => a.value = value,
            Register::Arr(_) => {
                proof {
                    assert(false);
                }
            },
        }
    }

    pub fn wide_read(&self) -> (r: u32)
        requires
            *self is Addr,
        ensures
            r == self.spec_wide_value(),
    {
        match self {
            Register::Addr(a) => a.value,
            Register::Arr(_) => {
                proof {
                    assert(false);
                }
                0
            },
        }
    }
}

/// A fresh arithmetic register, holding zero.
#[allow(non_snake_case)]
pub fn init_ArrRegister(num: usize, name: char) -> (r: Register)
    ensures
        r == (Register::Arr(ArrRegister { num, name, value: 0u16 })),
{
    Register::Arr(ArrRegister { num, name, value: 0 })
}

/// A fresh address register, holding zero.
#[allow(non_snake_case)]
pub fn init_AddrRegister(num: usize, name: char) -> (r: Register)
    ensures
        r == (Register::Addr(AddrRegister { num, name, value: 0u32 })),
{
    Register::Addr(AddrRegister { num, name, value: 0 })
}

/// The register file layout: twelve registers, the first eight arithmetic
/// (A-H, thin codes 0-7) and the last four address registers in the order
/// J, K, L, P (wide codes 0-3).
pub open spec fn wf_registers(regs: Seq<Register>) -> bool {
    &&& regs.len() == 12
    &&& forall|i: int| 0 <= i < 8 ==> (#[trigger] regs[i]) is Arr
    &&& forall|i: int| 8 <= i < 12 ==> (#[trigger] regs[i]) is Addr
}

/// The index into the register file that a thin code selects.
pub open spec fn thin_index(code: u16) -> int {
    if code < 8 {
        code as int
    } else {
        8 + (code - 8) / 2
    }
}

/// Whether a thin code selects the high half of an address register.
pub open spec fn thin_top(code: u16) -> bool {
    code >= 8 && code % 2 == 1
}

/// The 16-bit unit named by a thin code.
pub open spec fn spec_read_thin(regs: Seq<Register>, code: u16) -> u16
    recommends
        wf_registers(regs),
        code < 16,
{
    regs[thin_index(code)].spec_read(thin_top(code))
}

/// The register file after writing `value` to the unit named by a thin code.
pub open spec fn spec_write_thin(regs: Seq<Register>, code: u16, value: u16) -> Seq<Register>
    recommends
        wf_registers(regs),
        code < 16,
{
    regs.update(thin_index(code), regs[thin_index(code)].spec_write(value, thin_top(code)))
}

/// The 32-bit value of the address register named by a wide code.
pub open spec fn spec_read_wide(regs: Seq<Register>, code: u16) -> u32
    recommends
        wf_registers(regs),
        code < 4,
{
    regs[8 + code].spec_wide_value()
}

/// The register file after writing `value` whole to the address register
/// named by a wide code.
pub open spec fn spec_write_wide(regs: Seq<Register>, code: u16, value: u32) -> Seq<Register>
    recommends
        wf_registers(regs),
        code < 4,
{
    regs.update(
        8 + code,
        Register::Addr(
            AddrRegister {
                num: regs[8 + code]->Addr_0.num,
                name: regs[8 + code]->Addr_0.name,
                value,
            },
        ),
    )
}

/// Reads the 16-bit unit named by thin code `num`.
pub fn read_register(num: u16, registers: &Vec<Register>) -> (r: u16)
    requires
        wf_registers(registers@),
        num < 16,
    ensures
        r == spec_read_thin(registers@, num),
{
    if num < 8 {
        registers[num as usize].read(false)
    } else {
        let pos: usize = (8 + (num - 8) / 2) as usize;
        registers[pos].read(num % 2 != 0)
    }
}

/// Writes the 16-bit unit named by thin code `num`; every other thin unit
/// is left as it was.
pub fn write_register(num: u16, value: u16, registers: &mut Vec<Register>)
    requires
        wf_registers(old(registers)@),
        num < 16,
    ensures
        final(registers)@ == spec_write_thin(old(registers)@, num, value),
        wf_registers(final(registers)@),
{
    if num < 8 {
        let r = &mut registers[num as usize];
        r.write(value, false);
    } else {
        let pos: usize = (8 + (num - 8) / 2) as usize;
        let r = &mut registers[pos];
        r.write(value, num % 2 != 0);
    }
}

/// Reads the whole address register named by wide code `num`.
pub fn read_wide_register(num: u16, registers: &Vec<Register>) -> (r: u32)
    requires
        wf_registers(registers@),
        num < 4,
    ensures
        r == spec_read_wide(registers@, num),
{
    let pos: usize = (8 + num) as usize;
    registers[pos].wide_read()
}

/// Writes the whole address register named by wide code `num`.
pub fn write_wide_register(num: u16, value: u32, registers: &mut Vec<Register>)
    requires
        wf_registers(old(registers)@),
        num < 4,
    ensures
        final(registers)@ == spec_write_wide(old(registers)@, num, value),
        wf_registers(final(registers)@),
{
    let pos: usize = (8 + num) as usize;
    let r = &mut registers[pos];
    r.wide_write(value);
}

/// The register file at emulator start: A-H, then J, K, L, P, all zero.
pub open spec fn spec_init_registers() -> Seq<Register> {
    seq![
        Register::Arr(ArrRegister { num: 0, name: 'A', value: 0u16 }),
        Register::Arr(ArrRegister { num: 1, name: 'B', value: 0u16 }),
        Register::Arr(ArrRegister { num: 2, name: 'C', value: 0u16 }),
        Register::Arr(ArrRegister { num: 3, name: 'D', value: 0u16 }),
        Register::Arr(ArrRegister { num: 4, name: 'E', value: 0u16 }),
        Register::Arr(ArrRegister { num: 5, name: 'F', value: 0u16 }),
        Register::Arr(ArrRegister { num: 6, name: 'G', value: 0u16 }),
        Register::Arr(ArrRegister { num: 7, name: 'H', value: 0u16 }),
        Register::Addr(AddrRegister { num: 0, name: 'J', value: 0u32 }),
        Register::Addr(AddrRegister { num: 1, name: 'K', value: 0u32 }),
        Register::Addr(AddrRegister { num: 2, name: 'L', value: 0u32 }),
        Register::Addr(AddrRegister { num: 3, name: 'P', value: 0u32 }),
    ]
}

/// Builds the register file at emulator start.
pub fn init_registers() -> (r: Vec<Register>)
    ensures
        r@ == spec_init_registers(),
        wf_registers(r@),
{
    let mut regs: Vec<Register> = Vec::new();
    regs.push(init_ArrRegister(0, 'A'));
    regs.push(init_ArrRegister(1, 'B'));
    regs.push(init_ArrRegister(2, 'C'));
    regs.push(init_ArrRegister(3, 'D'));
    regs.push(init_ArrRegister(4, 'E'));
    regs.push(init_ArrRegister(5, 'F'));
    regs.push(init_ArrRegister(6, 'G'));
    regs.push(init_ArrRegister(7, 'H'));
    regs.push(init_AddrRegister(0, 'J'));
    regs.push(init_AddrRegister(1, 'K'));
    regs.push(init_AddrRegister(2, 'L'));
    regs.push(init_AddrRegister(3, 'P'));
    proof {
        assert(regs@ =~= spec_init_registers());
    }
    regs
}

/// Bit-level facts about writing one half of a 32-bit value and reading
/// halves back.
proof fn lemma_half_bits(x: u32, v: u16)
    by (bit_vector)
    ensures
        (((((v as u32) << 16) | (x & 0xFFFF)) >> 16) as u16) == v,
        (((((v as u32) << 16) | (x & 0xFFFF)) & 0xFFFF) as u16) == ((x & 0xFFFF) as u16),
        ((((v as u32) | (x & 0xFFFF0000)) & 0xFFFF) as u16) == v,
        ((((v as u32) | (x & 0xFFFF0000)) >> 16) as u16) == ((x >> 16) as u16),
        ((((x & 0xFFFF) as u16) as u32) | (((((x >> 16) as u16) as u32)) << 16)) == x,
{
}

/// Thin addressing is a bijection onto the 16-bit storage units: a thin
/// write is read back exactly under the same code, every other thin code
/// reads what it read before, and the layout is preserved.
pub proof fn lemma_thin_write_read(regs: Seq<Register>, code: u16, v: u16)
    requires
        wf_registers(regs),
        code < 16,
    ensures
        wf_registers(spec_write_thin(regs, code, v)),
        spec_read_thin(spec_write_thin(regs, code, v), code) == v,
        forall|c2: u16|
            c2 < 16 && c2 != code ==> spec_read_thin(spec_write_thin(regs, code, v), c2)
                == spec_read_thin(regs, c2),
{
    let regs2 = spec_write_thin(regs, code, v);
    if code >= 8 {
        let x = regs[thin_index(code)]->Addr_0.value;
        lemma_half_bits(x, v);
    }
    assert forall|c2: u16| c2 < 16 && c2 != code implies spec_read_thin(regs2, c2)
        == spec_read_thin(regs, c2) by {
        if thin_index(c2) == thin_index(code) {
            // Two distinct thin codes on one address register name the two
            // different halves, and writing one half preserves the other.
            let x = regs[thin_index(code)]->Addr_0.value;
            lemma_half_bits(x, v);
        }
    }
}

/// Wide addressing is a bijection onto the address registers: a wide write
/// is read back exactly, the other address registers and all arithmetic
/// registers are untouched, and the layout is preserved.
pub proof fn lemma_wide_write_read(regs: Seq<Register>, code: u16, v: u32)
    requires
        wf_registers(regs),
        code < 4,
    ensures
        wf_registers(spec_write_wide(regs, code, v)),
        spec_read_wide(spec_write_wide(regs, code, v), code) == v,
        forall|c2: u16|
            c2 < 4 && c2 != code ==> spec_read_wide(spec_write_wide(regs, code, v), c2)
                == spec_read_wide(regs, c2),
        forall|c2: u16|
            c2 < 8 ==> spec_read_thin(spec_write_wide(regs, code, v), c2) == spec_read_thin(
                regs,
                c2,
            ),
{
}

/// A wide register is exactly the composition of its two thin halves:
/// the low half at thin code `8 + 2 * w`, the high half one code above.
pub proof fn lemma_wide_composes(regs: Seq<Register>, w: u16)
    requires
        wf_registers(regs),
        w < 4,
    ensures
        spec_read_wide(regs, w) == ((spec_read_thin(regs, (8 + 2 * w) as u16) as u32) | ((
        spec_read_thin(regs, (9 + 2 * w) as u16) as u32) << 16)),
{
    let x = regs[8 + w as int]->Addr_0.value;
    lemma_half_bits(x, 0);
    assert(thin_index((8 + 2 * w) as u16) == 8 + w as int);
    assert(thin_index((9 + 2 * w) as u16) == 8 + w as int);
    assert(!thin_top((8 + 2 * w) as u16));
    assert(thin_top((9 + 2 * w) as u16));
}

} // verus!

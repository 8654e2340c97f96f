//! The memory model: a flat array of 16-bit words, index = address.
//! Addresses below `IO_BOUNDARY` are live memory; reads past the populated
//! length return zero, writes past it are an error (capacity is fixed at
//! image-load time).  Addresses at or above `IO_BOUNDARY` are reserved for
//! unimplemented memory-mapped I/O, and any access there is an error.

use vstd::prelude::*;

verus! {

/// First address of the reserved (unimplemented) I/O range.
pub const IO_BOUNDARY: u32 = 0xF000_0000;

/// A failed memory access.
#[derive(Clone, Copy, Debug, PartialEq, Eq, Structural)]
pub enum MemError {
    /// An access at or above `IO_BOUNDARY`.
    ReservedIo { addr: u32 },
    /// A write past the populated length.
    OutOfBounds { addr: u32 },
}

/// What a read of `addr` yields: the stored word, or zero past the
/// populated length.
pub open spec fn spec_read_mem(ram: Seq<u16>, addr: int) -> u16 {
    if 0 <= addr < ram.len() {
        ram[addr]
    } else {
        0
    }
}

/// Reads the word at `addr`: zero-extended below `IO_BOUNDARY`, an error at
/// or above it.
pub fn read_ram(addr: u32, ram: &Vec<u16>) -> (r: Result<u16, MemError>)
    ensures
        addr < IO_BOUNDARY ==> r == Ok::<u16, MemError>(spec_read_mem(ram@, addr as int)),
        addr >= IO_BOUNDARY ==> r == Err::<u16, MemError>(MemError::ReservedIo { addr }),
{
    if addr < IO_BOUNDARY {
        if (addr as usize) < ram.len() {
            Ok(ram[addr as usize])
        } else {
            Ok(0)
        }
    } else {
        Err(MemError::ReservedIo { addr })
    }
}

/// Writes `val` at `addr`.  Succeeds exactly on populated addresses below
/// `IO_BOUNDARY`; a write past the populated length is an error rather than
/// an extension, and memory is unchanged on any error.
pub fn write_ram(addr: u32, val: u16, ram: &mut Vec<u16>) -> (r: Result<(), MemError>)
    ensures
        addr >= IO_BOUNDARY ==> r == Err::<(), MemError>(MemError::ReservedIo { addr })
            && final(ram)@ == old(ram)@,
        addr < IO_BOUNDARY && addr < old(ram)@.len() ==> r == Ok::<(), MemError>(())
            && final(ram)@ == old(ram)@.update(addr as int, val),
        addr < IO_BOUNDARY && addr >= old(ram)@.len() ==> r == Err::<(), MemError>(
            MemError::OutOfBounds { addr },
        ) && final(ram)@ == old(ram)@,
{
    if addr < IO_BOUNDARY {
        if (addr as usize) < ram.len() {
            ram[addr as usize] = val;
            Ok(())
        } else {
            Err(MemError::OutOfBounds { addr })
        }
    } else {
        Err(MemError::ReservedIo { addr })
    }
}

} // verus!

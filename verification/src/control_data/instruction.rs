//! Decoding of the loads and stores that trap on a guest page fault.
use crate::error::Error;
use crate::control_data::instruction::MemoryInstruction::{
    LoadByte, LoadByteUnsigned, LoadDouble, LoadHalf, LoadHalfUnsigned, LoadWord, LoadWordUnsigned, Other, StoreByte,
    StoreDouble, StoreHalf, StoreWord,
};
use crate::hart::GpRegister;
use riscv_decode::Instruction::{Lb, Lbu, Ld, Lh, Lhu, Lw, Lwu, Sb, Sd, Sh, Sw};
use vstd::prelude::*;

verus! {

/// A load or store of the base instruction set as the decoder reports it. A
/// load carries the number of its destination register, a store the number
/// of the register that holds the value to store.
#[derive(Debug, Clone, Copy, PartialEq, Eq, Structural)]
pub enum MemoryInstruction {
    LoadByte(u32),
    LoadByteUnsigned(u32),
    LoadHalf(u32),
    LoadHalfUnsigned(u32),
    LoadWord(u32),
    LoadWordUnsigned(u32),
    LoadDouble(u32),
    StoreByte(u32),
    StoreHalf(u32),
    StoreWord(u32),
    StoreDouble(u32),
    /// Anything else, and what the decoder rejects.
    Other,
}

/// What the instruction decoder makes of an instruction word.
pub uninterp spec fn decoded_instruction(word: u32) -> MemoryInstruction;

/// Calls `riscv_decode::decode` on the word. The decoder's answer is a
/// function of the word alone; the contract gives it a name and claims
/// nothing else. Of the decoder's instructions the eleven loads and stores of
/// the base instruction set are handed on, each with the register number that
/// `rd()` or `rs2()` reads from it; every other answer, and every decoding
/// error, becomes `Other`.
#[verifier::external_body]
fn decode(word: u32) -> (instruction: MemoryInstruction)
    ensures
        instruction == decoded_instruction(word),
{
    let Ok(decoded) = riscv_decode::decode(word) else { return Other };
    match decoded {
        Lb(i) => LoadByte(i.rd()),
        Lbu(i) => LoadByteUnsigned(i.rd()),
        Lh(i) => LoadHalf(i.rd()),
        Lhu(i) => LoadHalfUnsigned(i.rd()),
        Lw(i) => LoadWord(i.rd()),
        Lwu(i) => LoadWordUnsigned(i.rd()),
        Ld(i) => LoadDouble(i.rd()),
        Sb(i) => StoreByte(i.rs2()),
        Sh(i) => StoreHalf(i.rs2()),
        Sw(i) => StoreWord(i.rs2()),
        Sd(i) => StoreDouble(i.rs2()),
        _ => Other,
    }
}

/// Length in bytes of the instruction whose lowest 16 bits are given, read
/// from the two or more lowest bits as the instruction-length encoding lays
/// down.
pub open spec fn spec_instruction_length(low_bits: u16) -> usize {
    if (low_bits & 0b11) != 0b11 {
        2
    } else if (low_bits & 0b11100) != 0b11100 {
        4
    } else if (low_bits & 0b111111) == 0b011111 {
        6
    } else if (low_bits & 0b1111111) == 0b011111 {
        8
    } else {
        (10 + 2 * ((low_bits >> 12) & 0b111)) as usize
    }
}

/// Calls `riscv_decode::instruction_length`. The contract restates the five
/// cases of that function as its source has them.
#[verifier::external_body]
fn instruction_length(low_bits: u16) -> (length: usize)
    ensures
        length == spec_instruction_length(low_bits),
{
    riscv_decode::instruction_length(low_bits)
}

/// The bits of a 64-bit word that an instruction of the given length takes.
pub open spec fn spec_instruction_mask(length: usize) -> u64 {
    if length == 0 {
        0
    } else if length == 1 {
        0xff
    } else if length == 2 {
        0xffff
    } else if length == 3 {
        0xff_ffff
    } else if length == 4 {
        0xffff_ffff
    } else if length == 5 {
        0xff_ffff_ffff
    } else if length == 6 {
        0xffff_ffff_ffff
    } else if length == 7 {
        0xff_ffff_ffff_ffff
    } else {
        0xffff_ffff_ffff_ffff
    }
}

/// The lowest 16 bits of a word.
pub open spec fn spec_low_half(word: u64) -> u16 {
    (word & 0xffff) as u16
}

/// The lowest 32 bits of a word.
pub open spec fn spec_low_word(word: u64) -> u32 {
    (word & 0xffff_ffff) as u32
}

/// The instruction at the start of the word that was read at the faulting
/// program counter, and its length in bytes: the bits of whatever follows
/// the instruction in memory are cleared.
pub fn trim_instruction(word: u64) -> (trimmed: (u64, usize))
    ensures
        trimmed.1 == spec_instruction_length(spec_low_half(word)),
        trimmed.0 == word & spec_instruction_mask(trimmed.1),
{
    assert(word & 0xffff <= 0xffff) by (bit_vector);
    let low_bits: u16 = (word & 0xffff) as u16;
    let length: usize = instruction_length(low_bits);
    let mask: u64 = match length {
        0 => 0,
        1 => 0xff,
        2 => 0xffff,
        3 => 0xff_ffff,
        4 => 0xffff_ffff,
        5 => 0xff_ffff_ffff,
        6 => 0xffff_ffff_ffff,
        7 => 0xff_ffff_ffff_ffff,
        _ => 0xffff_ffff_ffff_ffff,
    };
    (word & mask, length)
}

/// Number of the register that a compressed load or store reads or writes:
/// for the loads and stores relative to a register, `x8` to `x15` as bits 4
/// to 2 select; for the loads relative to the stack pointer, `x0`; for the
/// stores relative to the stack pointer, the register that bits 6 to 2 name.
pub open spec fn spec_compressed_register(instruction: u64) -> Option<u64> {
    let quadrant_and_function: u64 = instruction & 0xe003;
    if quadrant_and_function == 0x4000 || quadrant_and_function == 0x6000 {
        Some((8 + ((instruction >> 2) & 0x7)) as u64)
    } else if quadrant_and_function == 0xc000 || quadrant_and_function == 0xe000 {
        Some((8 + ((instruction >> 2) & 0x7)) as u64)
    } else if quadrant_and_function == 0x4002 || quadrant_and_function == 0x6002 {
        Some(0)
    } else if quadrant_and_function == 0xc002 || quadrant_and_function == 0xe002 {
        Some((instruction >> 2) & 0x1f)
    } else {
        None
    }
}

/// Number of the register that the instruction loads into or stores from:
/// the one that the decoder found, else that of a compressed load or store.
pub open spec fn spec_register_index(instruction: u64, decoded: MemoryInstruction) -> Option<u64> {
    match decoded {
        MemoryInstruction::LoadByte(rd) => Some(rd as u64),
        MemoryInstruction::LoadByteUnsigned(rd) => Some(rd as u64),
        MemoryInstruction::LoadHalf(rd) => Some(rd as u64),
        MemoryInstruction::LoadHalfUnsigned(rd) => Some(rd as u64),
        MemoryInstruction::LoadWord(rd) => Some(rd as u64),
        MemoryInstruction::LoadWordUnsigned(rd) => Some(rd as u64),
        MemoryInstruction::LoadDouble(rd) => Some(rd as u64),
        MemoryInstruction::StoreByte(rs2) => Some(rs2 as u64),
        MemoryInstruction::StoreHalf(rs2) => Some(rs2 as u64),
        MemoryInstruction::StoreWord(rs2) => Some(rs2 as u64),
        MemoryInstruction::StoreDouble(rs2) => Some(rs2 as u64),
        MemoryInstruction::Other => spec_compressed_register(instruction),
    }
}

/// The register of a faulting load or store, or the error that rejects the
/// instruction: it is neither a load or store that the decoder knows nor a
/// compressed one, or it names a register that does not exist.
pub open spec fn spec_result_gpr(instruction: u64, decoded: MemoryInstruction) -> Result<GpRegister, Error> {
    match spec_register_index(instruction, decoded) {
        Some(index) => match GpRegister::with_number(index as int) {
            Some(register) => Ok(register),
            None => Err(Error::InvalidRiscvInstruction(instruction)),
        },
        None => Err(Error::InvalidRiscvInstruction(instruction)),
    }
}

fn compressed_register(instruction: u64) -> (index: Option<u64>)
    ensures
        index == spec_compressed_register(instruction),
        index matches Some(i) ==> i < 32,
{
    let quadrant_and_function: u64 = instruction & 0xe003;
    assert(((instruction >> 2) & 0x7) < 8) by (bit_vector);
    assert(((instruction >> 2) & 0x1f) < 32) by (bit_vector);
    if quadrant_and_function == 0x4000 || quadrant_and_function == 0x6000 {
        Some(8 + ((instruction >> 2) & 0x7))
    } else if quadrant_and_function == 0xc000 || quadrant_and_function == 0xe000 {
        Some(8 + ((instruction >> 2) & 0x7))
    } else if quadrant_and_function == 0x4002 || quadrant_and_function == 0x6002 {
        Some(0)
    } else if quadrant_and_function == 0xc002 || quadrant_and_function == 0xe002 {
        Some((instruction >> 2) & 0x1f)
    } else {
        None
    }
}

/// Finds the register of a faulting load or store, given what the decoder
/// made of the instruction.
pub fn result_gpr(instruction: u64, decoded: MemoryInstruction) -> (register: Result<GpRegister, Error>)
    ensures
        register == spec_result_gpr(instruction, decoded),
{
    let index: Option<u64> = match decoded {
        MemoryInstruction::LoadByte(rd) => Some(rd as u64),
        MemoryInstruction::LoadByteUnsigned(rd) => Some(rd as u64),
        MemoryInstruction::LoadHalf(rd) => Some(rd as u64),
        MemoryInstruction::LoadHalfUnsigned(rd) => Some(rd as u64),
        MemoryInstruction::LoadWord(rd) => Some(rd as u64),
        MemoryInstruction::LoadWordUnsigned(rd) => Some(rd as u64),
        MemoryInstruction::LoadDouble(rd) => Some(rd as u64),
        MemoryInstruction::StoreByte(rs2) => Some(rs2 as u64),
        MemoryInstruction::StoreHalf(rs2) => Some(rs2 as u64),
        MemoryInstruction::StoreWord(rs2) => Some(rs2 as u64),
        MemoryInstruction::StoreDouble(rs2) => Some(rs2 as u64),
        MemoryInstruction::Other => compressed_register(instruction),
    };
    match index {
        Some(index) => {
            if index < 32 {
                match GpRegister::from_index(index as usize) {
                    Some(register) => Ok(register),
                    None => Err(Error::InvalidRiscvInstruction(instruction)),
                }
            } else {
                Err(Error::InvalidRiscvInstruction(instruction))
            }
        },
        None => Err(Error::InvalidRiscvInstruction(instruction)),
    }
}

/// Decodes a faulting load or store and finds its register. The instruction
/// is the trimmed word; the decoder sees its lowest 32 bits.
pub fn read_result_gpr(instruction: u64) -> (register: Result<GpRegister, Error>)
    ensures
        register == spec_result_gpr(instruction, decoded_instruction(spec_low_word(instruction))),
{
    assert(instruction & 0xffff_ffff <= 0xffff_ffff) by (bit_vector);
    let decoded: MemoryInstruction = decode((instruction & 0xffff_ffff) as u32);
    result_gpr(instruction, decoded)
}

} // verus!

//! Register file and processor state.

use vstd::prelude::*;
use crate::riscv::Register;

verus! {

/// The 32 integer registers. Register `X0` reads as zero whatever is written to it.
#[derive(Debug)]
pub struct RegisterFile {
    registers: [u32; 32],
}

impl View for RegisterFile {
    type V = Seq<u32>;

    closed spec fn view(&self) -> Seq<u32> {
        self.registers@
    }
}

impl RegisterFile {
    /// Every file holds 32 values, the first of which is zero.
    #[verifier::type_invariant]
    spec fn zero_is_zero(self) -> bool {
        self.registers@[0] == 0
    }

    /// The value that `self` holds in `reg`.
    pub open spec fn value(&self, reg: Register) -> u32 {
        self@[reg.index_spec() as int]
    }

    /// A register file in which every register holds zero.
    pub fn new() -> (file: Self)
        ensures
            file@.len() == 32,
            forall|r: Register| file.value(r) == 0,
    {
        RegisterFile { registers: [0u32;32] }
    }

    /// Sets `reg` to `value`; a write to `X0` changes nothing.
    pub fn write(&mut self, reg: Register, value: u32)
        ensures
            old(self)@.len() == 32,
            final(self)@ == if reg == Register::X0 {
                old(self)@
            } else {
                old(self)@.update(reg.index_spec() as int, value)
            },
    {
        proof {
            use_type_invariant(&*self);
        }
        let i = reg.index();
        if i != 0 {
            self.registers[i] = value;
        }
    }

    /// The value of `reg`, which is zero for `X0`.
    pub fn read(&self, reg: Register) -> (value: u32)
        ensures
            value == self.value(reg),
            reg == Register::X0 ==> value == 0,
    {
        proof {
            use_type_invariant(self);
        }
        self.registers[reg.index()]
    }
}

impl Default for RegisterFile {
    fn default() -> (file: Self)
        ensures
            file@.len() == 32,
            forall|r: Register| file.value(r) == 0,
    {
        RegisterFile::new()
    }
}

/// Processor state between two instructions.
#[derive(Debug)]
pub struct Cpu {
    /// The integer registers.
    pub registers: RegisterFile,
    /// Address of the instruction to execute next.
    pub pc: u32,
}

impl Default for Cpu {
    fn default() -> (cpu: Self)
        ensures
            cpu.pc == 0,
            cpu.registers@.len() == 32,
            forall|r: Register| cpu.registers.value(r) == 0,
    {
        Cpu { registers: RegisterFile::new(), pc: 0 }
    }
}

} // verus!

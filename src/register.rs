//! The architectural register file: 32 integer registers, of which x0 always
//! reads as zero, and a program counter.
use vstd::prelude::*;

verus! {

/// What a register file holds: the 32 registers and the program counter, a
/// byte offset.
pub struct RegisterFile {
    pub x: Seq<u32>,
    pub pc: usize,
}

/// The register file with every register zero and the program counter at 0.
pub open spec fn reset_registers() -> RegisterFile {
    RegisterFile { x: Seq::new(32, |i: int| 0u32), pc: 0 }
}

#[derive(Debug)]
pub struct Register {
    _x: [u32; 32],
    _pc: usize,
}

impl View for Register {
    type V = RegisterFile;

    closed spec fn view(&self) -> RegisterFile {
        RegisterFile { x: self._x@, pc: self._pc }
    }
}

impl RegisterFile {
    /// 32 registers, of which x0 holds zero.
    pub open spec fn wf(&self) -> bool {
        self.x.len() == 32 && self.x[0] == 0
    }
}

impl Register {
    pub open spec fn wf(&self) -> bool {
        self@.wf()
    }

    pub fn new() -> (r: Register)
        ensures
            r@ == reset_registers(),
            r.wf(),
    {
        let r = Register { _x: [0; 32], _pc: 0 };
        assert(r@.x =~= reset_registers().x);
        r
    }

    pub fn pc(&self) -> (r: usize)
        ensures
            r == self@.pc,
    {
        self._pc
    }

    pub fn update_pc(&mut self, pc: usize)
        ensures
            final(self)@ == (RegisterFile { pc, ..old(self)@ }),
    {
        self._pc = pc;
    }

    /// Stores `value` in register `index`; x0 cannot be written.
    pub fn put(&mut self, index: usize, value: u32)
        requires
            1 <= index < 32,
        ensures
            final(self)@ == (RegisterFile { x: old(self)@.x.update(index as int, value), ..old(self)@ }),
    {
        self._x[index] = value;
    }

    pub fn get(&self, index: usize) -> (r: u32)
        requires
            index < 32,
        ensures
            r == self@.x[index as int],
    {
        self._x[index]
    }
}

} // verus!

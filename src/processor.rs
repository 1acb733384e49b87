//! The processor: a register file and a memory, with assembled code loaded
//! from word 0, run by a fetch/decode/execute loop until the program returns
//! to the null address.
//!
//! The program counter is a byte offset: the instruction it points at is
//! memory word `pc / 4`. The addresses that loads and stores compute are
//! word indices as they stand, and the stack pointer starts at word 256.
use vstd::prelude::*;
use crate::assembly_compiler::{assemble, compile, line_views, AsmError};
use crate::instruction::{
    decode, lemma_decode_wf, with_pc, ExecError, Instruction, JALR, MEMORY_WORDS,
};
use crate::register::{reset_registers, Register, RegisterFile};

verus! {

/// The stack-pointer register.
const SP: usize = 2;

/// The initial value of the stack pointer, a word index.
pub const STACK_START: u32 = 256;

/// Where `load_into_memory` places data.
pub const DATA_ORIGIN: usize = 512;

/// What a processor holds: its registers, its memory and the word range of
/// the loaded code.
pub struct Machine {
    pub regs: RegisterFile,
    pub mem: Seq<u32>,
    pub code_start: usize,
    pub code_end: usize,
}

/// Why a run stopped short of the end of the program.
#[derive(Debug, Clone, Copy, PartialEq, Eq, Structural)]
pub enum RunError {
    /// The word at the program counter encodes no instruction.
    Undecodable { word: u32 },
    /// An instruction could not be carried out; the program counter still
    /// points at it.
    Execution(ExecError),
    /// The step budget ran out.
    StepLimit,
}

/// Why loading a program failed.
#[derive(Debug)]
pub enum LoadError {
    Assembly(AsmError),
    /// The program has more words than the memory.
    TooLong { words: usize },
}

/// The return to the null address that ends a program: `jalr x0, x1, 0`
/// while x1 holds zero.
pub open spec fn is_halt(ins: Instruction, rf: RegisterFile) -> bool {
    match ins {
        Instruction::IFormatInstruction { imm, rs1, rd, opcode, .. } => opcode == JALR && rd == 0
            && rs1 == 1 && imm == 0 && rf.x[1] == 0,
        _ => false,
    }
}

/// Runs `m` for at most `fuel` instructions: the state it stops in, and how.
/// A run ends without error when the program counter leaves the loaded code
/// or the halting return comes up; the program counter is advanced past an
/// instruction before it takes effect, while the instruction itself sees its
/// own address.
pub open spec fn run(m: Machine, fuel: nat) -> (Machine, Result<(), RunError>)
    decreases fuel,
{
    let pc = m.regs.pc;
    if pc / 4 >= m.code_end {
        (m, Ok(()))
    } else {
        let word = m.mem[(pc / 4) as int];
        match decode(word) {
            None => (m, Err(RunError::Undecodable { word })),
            Some(ins) => if is_halt(ins, m.regs) {
                (m, Ok(()))
            } else if fuel == 0 {
                (m, Err(RunError::StepLimit))
            } else {
                match ins.effect(pc, with_pc(m.regs, (pc + 4) as usize), m.mem) {
                    Err(e) => (m, Err(RunError::Execution(e))),
                    Ok((regs, mem)) => run(Machine { regs, mem, ..m }, (fuel - 1) as nat),
                }
            },
        }
    }
}

/// An instruction keeps the register file well formed and the memory its
/// size.
proof fn lemma_effect_keeps_wf(ins: Instruction, pc: usize, rf: RegisterFile, mem: Seq<u32>)
    requires
        ins.wf(),
        rf.wf(),
        mem.len() == MEMORY_WORDS,
    ensures
        ins.effect(pc, rf, mem) matches Ok((rf2, mem2)) ==> rf2.wf() && mem2.len() == MEMORY_WORDS,
{
}

proof fn lemma_run_keeps_wf(m: Machine, fuel: nat)
    requires
        m.wf(),
    ensures
        run(m, fuel).0.wf(),
    decreases fuel,
{
    let pc = m.regs.pc;
    if pc / 4 < m.code_end {
        let word = m.mem[(pc / 4) as int];
        lemma_decode_wf(word);
        if let Some(ins) = decode(word) {
            if !is_halt(ins, m.regs) && fuel > 0 {
                let rf = with_pc(m.regs, (pc + 4) as usize);
                lemma_effect_keeps_wf(ins, pc, rf, m.mem);
                if let Ok((regs, mem)) = ins.effect(pc, rf, m.mem) {
                    lemma_run_keeps_wf(Machine { regs, mem, ..m }, (fuel - 1) as nat);
                }
            }
        }
    }
}

/// Whatever the program does, x0 reads as zero when a run stops.
pub proof fn lemma_x0_stays_zero(m: Machine, fuel: nat)
    requires
        m.wf(),
    ensures
        run(m, fuel).0.regs.x[0] == 0,
{
    lemma_run_keeps_wf(m, fuel);
}

/// A run that stops without error inside the loaded code stops at the
/// halting return: the word at the program counter decodes to
/// `jalr x0, x1, 0`, and x1 holds zero.
pub proof fn lemma_halt_state(m: Machine, fuel: nat)
    requires
        m.wf(),
        run(m, fuel).1 is Ok,
        run(m, fuel).0.regs.pc / 4 < run(m, fuel).0.code_end,
    ensures
        ({
            let f = run(m, fuel).0;
            &&& f.regs.x[1] == 0
            &&& decode(f.mem[(f.regs.pc / 4) as int]) matches Some(
                Instruction::IFormatInstruction { imm, rs1, rd, opcode, .. },
            ) && imm == 0 && rs1 == 1 && rd == 0 && opcode == JALR
        }),
    decreases fuel,
{
    let pc = m.regs.pc;
    let word = m.mem[(pc / 4) as int];
    lemma_decode_wf(word);
    if let Some(ins) = decode(word) {
        if !is_halt(ins, m.regs) && fuel > 0 {
            let rf = with_pc(m.regs, (pc + 4) as usize);
            lemma_effect_keeps_wf(ins, pc, rf, m.mem);
            if let Ok((regs, mem)) = ins.effect(pc, rf, m.mem) {
                lemma_halt_state(Machine { regs, mem, ..m }, (fuel - 1) as nat);
            }
        }
    }
}

pub struct Processor {
    register: Register,
    memory: [u32; 1024],
    instruction_index: (usize, usize),
}

impl View for Processor {
    type V = Machine;

    closed spec fn view(&self) -> Machine {
        Machine {
            regs: self.register@,
            mem: self.memory@,
            code_start: self.instruction_index.0,
            code_end: self.instruction_index.1,
        }
    }
}

impl Machine {
    pub open spec fn wf(&self) -> bool {
        self.regs.wf() && self.mem.len() == MEMORY_WORDS && self.code_end <= MEMORY_WORDS
    }
}

impl Processor {
    pub open spec fn wf(&self) -> bool {
        self@.wf()
    }

    /// A processor with zeroed registers and memory, no code loaded, and the
    /// stack pointer at word 256.
    pub fn new() -> (r: Processor)
        ensures
            r@ == (Machine {
                regs: RegisterFile { x: reset_registers().x.update(2, STACK_START), pc: 0 },
                mem: Seq::new(1024, |i: int| 0u32),
                code_start: 0,
                code_end: 0,
            }),
            r.wf(),
    {
        let mut proc = Processor {
            register: Register::new(),
            memory: [0u32; 1024],
            instruction_index: (0, 0),
        };
        proc.set_register_value(SP, STACK_START);
        assert(proc.memory@ =~= Seq::new(1024, |i: int| 0u32));
        proc
    }

    /// Assembles `lines` and loads the words from memory word 0; the word
    /// range of the code is returned.
    pub fn load_instructions(&mut self, lines: Vec<String>) -> (r: Result<(usize, usize), LoadError>)
        requires
            old(self).wf(),
        ensures
            final(self).wf(),
            match assemble(line_views(lines@)) {
                Err(e) => r matches Err(LoadError::Assembly(x)) && x@ == e && final(self)@ == old(self)@,
                Ok(words) => if words.len() > MEMORY_WORDS {
                    r == Err::<(usize, usize), LoadError>(LoadError::TooLong { words: words.len() as usize })
                        && final(self)@ == old(self)@
                } else {
                    r matches Ok(range) && range == (0usize, words.len() as usize)
                        && final(self)@ == (Machine {
                            mem: words + old(self)@.mem.subrange(words.len() as int, MEMORY_WORDS as int),
                            code_start: 0,
                            code_end: words.len() as usize,
                            ..old(self)@
                        })
                },
            },
    {
        let instructions = match compile(lines) {
            Ok(words) => words,
            Err(e) => return Err(LoadError::Assembly(e)),
        };
        let n = instructions.len();
        if n > MEMORY_WORDS {
            return Err(LoadError::TooLong { words: n });
        }
        let ghost before = self.memory@;
        let mut i: usize = 0;
        while i < n
            invariant
                n == instructions@.len(),
                n <= MEMORY_WORDS,
                i <= n,
                before.len() == MEMORY_WORDS,
                self.register == old(self).register,
                self.instruction_index == old(self).instruction_index,
                self.memory@ =~= instructions@.subrange(0, i as int) + before.subrange(i as int, MEMORY_WORDS as int),
            decreases n - i,
        {
            self.memory[i] = instructions[i];
            i = i + 1;
        }
        self.instruction_index = (0, n);
        assert(instructions@.subrange(0, n as int) =~= instructions@);
        Ok(self.instruction_index)
    }

    /// Copies `src` into memory from word 512, and returns 512.
    pub fn load_into_memory(&mut self, src: &[u32]) -> (r: usize)
        requires
            old(self).wf(),
            src@.len() <= MEMORY_WORDS - DATA_ORIGIN,
        ensures
            r == DATA_ORIGIN,
            final(self).wf(),
            final(self)@ == (Machine {
                mem: old(self)@.mem.subrange(0, DATA_ORIGIN as int) + src@ + old(self)@.mem.subrange(
                    DATA_ORIGIN + src@.len(),
                    MEMORY_WORDS as int,
                ),
                ..old(self)@
            }),
    {
        let len = src.len();
        let ghost before = self.memory@;
        let mut i: usize = 0;
        while i < len
            invariant
                len == src@.len(),
                len <= MEMORY_WORDS - DATA_ORIGIN,
                i <= len,
                before == old(self).memory@,
                self.register == old(self).register,
                self.instruction_index == old(self).instruction_index,
                self.memory@.len() == MEMORY_WORDS,
                self.memory@ =~= before.subrange(0, DATA_ORIGIN as int) + src@.subrange(0, i as int)
                    + before.subrange(DATA_ORIGIN + i, MEMORY_WORDS as int),
            decreases len - i,
        {
            self.memory[DATA_ORIGIN + i] = src[i];
            i = i + 1;
        }
        assert(src@.subrange(0, len as int) =~= src@);
        DATA_ORIGIN
    }

    /// Sets register `index`; x0 cannot be set.
    pub fn set_register_value(&mut self, index: usize, value: u32)
        requires
            1 <= index < 32,
        ensures
            final(self)@ == (Machine {
                regs: RegisterFile { x: old(self)@.regs.x.update(index as int, value), ..old(self)@.regs },
                ..old(self)@
            }),
    {
        self.register.put(index, value);
    }

    /// Runs the loaded program until it returns to the null address, leaves
    /// the loaded code, or fails.
    pub fn execute_instructions(&mut self) -> (r: Result<(), RunError>)
        requires
            old(self).wf(),
        ensures
            (final(self)@, r) == run(old(self)@, u64::MAX as nat),
            final(self).wf(),
    {
        self.execute_steps(u64::MAX)
    }

    /// Runs the loaded program for at most `max_steps` instructions.
    pub fn execute_steps(&mut self, max_steps: u64) -> (r: Result<(), RunError>)
        requires
            old(self).wf(),
        ensures
            (final(self)@, r) == run(old(self)@, max_steps as nat),
            final(self).wf(),
    {
        let mut steps = max_steps;
        loop
            invariant
                self.wf(),
                run(self@, steps as nat) == run(old(self)@, max_steps as nat),
            decreases steps,
        {
            let pc = self.register.pc();
            if pc / 4 >= self.instruction_index.1 {
                return Ok(());
            }
            let word = self.memory[pc / 4];
            let ins = match Instruction::from(word) {
                None => return Err(RunError::Undecodable { word }),
                Some(ins) => ins,
            };
            if let Instruction::IFormatInstruction { imm, rs1, rd, opcode, .. } = ins {
                if opcode == JALR && rd == 0 && rs1 == 1 && imm == 0 && self.register.get(1) == 0 {
                    return Ok(());
                }
            }
            if steps == 0 {
                return Err(RunError::StepLimit);
            }
            self.register.update_pc(pc + 4);
            match ins.execute_at(pc, &mut self.register, &mut self.memory) {
                Err(e) => {
                    self.register.update_pc(pc);
                    return Err(RunError::Execution(e));
                },
                Ok(()) => {},
            }
            steps = steps - 1;
        }
    }

    /// A copy of the memory words `range.start..range.end`.
    pub fn get_copy_of_memory(&self, range: std::ops::Range<usize>) -> (r: Vec<u32>)
        requires
            range.start <= range.end <= MEMORY_WORDS,
            self.wf(),
        ensures
            r@ == self@.mem.subrange(range.start as int, range.end as int),
    {
        let mut out: Vec<u32> = Vec::new();
        let mut i = range.start;
        while i < range.end
            invariant
                range.start <= i <= range.end,
                range.end <= MEMORY_WORDS,
                self.memory@.len() == MEMORY_WORDS,
                out@ =~= self@.mem.subrange(range.start as int, i as int),
            decreases range.end - i,
        {
            out.push(self.memory[i]);
            i = i + 1;
        }
        out
    }

    pub fn get_registry_value(&self, index: usize) -> (r: u32)
        requires
            index < 32,
        ensures
            r == self@.regs.x[index as int],
    {
        self.register.get(index)
    }
}

} // verus!

//! The machine itself: the register file with its condition flags, the
//! 64K-word memory with the two memory-mapped keyboard registers, and the
//! loader that places a program image into memory.
//!
//! Keyboard input reaches the machine as a plain value: every operation that
//! may poll the keyboard takes the currently pending keystroke (if any) as an
//! `Option<u8>` argument, so the machine's behaviour is a function of its
//! state and that value alone.

use vstd::prelude::*;
use crate::bits::{wadd, wadd16, word_of_bytes, swap16};
use crate::decode::{decode, instr_wf, spec_decode, Instruction, JsrTarget, Operand};
use crate::trap::spec_trap;

verus! {

/// The keyboard-status register: reading it polls the keyboard.
pub const MR_KBSR: u16 = 0xFE00;

/// The keyboard-data register: holds the pending keystroke after a poll.
pub const MR_KBDR: u16 = 0xFE02;

/// The condition-flag state: exactly one of the three flags is active at any
/// time, so the state is a tagged choice rather than a bitmask.
#[derive(Clone, Copy, PartialEq, Eq, Structural, Debug)]
pub enum CondFlag {
    Pos,
    Zro,
    Neg,
}

/// The flag set by a result value, under its signed (two's-complement)
/// reading: negative gives NEG, zero gives ZRO, positive gives POS.
pub open spec fn flag_of(v: u16) -> CondFlag {
    if v == 0 {
        CondFlag::Zro
    } else if v >= 0x8000 {
        CondFlag::Neg
    } else {
        CondFlag::Pos
    }
}

/// The kind of fatal fault that halts the machine.
#[derive(Clone, Copy, PartialEq, Eq, Structural, Debug)]
pub enum VmErrorKind {
    /// RTI or the reserved opcode was decoded: neither has defined behaviour.
    ReservedOpcode,
    /// A TRAP instruction named a vector the dispatch table does not hold.
    UndefinedTrapVector,
}

/// What one step of the machine signals to the surrounding loop.
#[derive(Clone, Copy, PartialEq, Eq, Structural, Debug)]
pub enum StepOutcome {
    /// The instruction completed; fetch the next one.
    Continue,
    /// The instruction needs a keystroke and none is pending: the machine is
    /// unchanged but for the keyboard poll, and the step must be retried once
    /// a keystroke is available.
    NeedInput,
    /// A HALT trap was executed: normal completion.
    Halted,
    /// A fatal fault, with the program counter at the fault.
    Fatal { kind: VmErrorKind, pc: u16 },
}

/// The full effect of one step or one trap: the state after it, what it
/// signals, and the bytes it wrote to the console.
#[verifier::ext_equal]
pub struct StepEffect {
    pub state: State,
    pub outcome: StepOutcome,
    pub output: Seq<u8>,
}

/// The mathematical state of the machine: the eight general registers, the
/// program counter, the condition flags, and the 65,536-word memory.
#[verifier::ext_equal]
pub struct State {
    pub regs: Seq<u16>,
    pub pc: u16,
    pub cond: CondFlag,
    pub mem: Seq<u16>,
}

impl State {
    /// Eight general registers and a full 64K-word memory.
    pub open spec fn wf(self) -> bool {
        self.regs.len() == 8 && self.mem.len() == 0x10000
    }
}

/// Memory after the poll that a read of the keyboard-status register makes:
/// with a keystroke pending, the status register's high bit is set and the
/// data register holds the keystroke; otherwise the status register is
/// cleared.
pub open spec fn spec_poll(mem: Seq<u16>, key: Option<u8>) -> Seq<u16> {
    match key {
        Some(k) => mem.update(MR_KBSR as int, 0x8000u16).update(MR_KBDR as int, k as u16),
        None => mem.update(MR_KBSR as int, 0u16),
    }
}

/// Memory after a read of `addr`: a read of the keyboard-status register
/// polls the keyboard as a side effect; every other read leaves memory as it
/// was.
pub open spec fn spec_mem_after_read(mem: Seq<u16>, addr: u16, key: Option<u8>) -> Seq<u16> {
    if addr == MR_KBSR {
        spec_poll(mem, key)
    } else {
        mem
    }
}

/// The value a read of `addr` yields: the cell's content after any poll side
/// effect.
pub open spec fn spec_read_val(mem: Seq<u16>, addr: u16, key: Option<u8>) -> u16 {
    spec_mem_after_read(mem, addr, key)[addr as int]
}

/// Whether an instruction blocks for a keystroke: the GETC and IN traps do.
pub open spec fn needs_key(i: Instruction) -> bool {
    i matches Instruction::Trap { vector } && (vector == 0x20 || vector == 0x23)
}

/// The value of the second operand of ADD and AND: a source register's
/// content, or the sign-extended immediate itself.
pub open spec fn spec_operand_val(s: State, o: Operand) -> u16 {
    match o {
        Operand::Reg(r) => s.regs[r as int],
        Operand::Imm(v) => v,
    }
}

/// The state after a result value lands in a register the way the
/// arithmetic and load-class opcodes deliver one: the register is written
/// and the condition flags are recomputed from the value.
pub open spec fn spec_load_result(s: State, r: u16, v: u16) -> State {
    State { regs: s.regs.update(r as int, v), cond: flag_of(v), ..s }
}

/// An effect that only moves the machine on: no output, no signal but
/// `Continue`.
pub open spec fn spec_continue(s: State) -> StepEffect {
    StepEffect { state: s, outcome: StepOutcome::Continue, output: Seq::empty() }
}

/// The effect of one decoded instruction on state `s`, whose program counter
/// already points past the instruction. `key` is the keystroke pending at
/// the keyboard, read whenever the instruction's memory reads poll the
/// status register, and consumed by GETC and IN.
pub open spec fn spec_exec_instr(s: State, i: Instruction, key: Option<u8>) -> StepEffect {
    match i {
        Instruction::Add { dr, sr1, operand } => spec_continue(
            spec_load_result(s, dr, wadd(s.regs[sr1 as int], spec_operand_val(s, operand))),
        ),
        Instruction::And { dr, sr1, operand } => spec_continue(
            spec_load_result(s, dr, s.regs[sr1 as int] & spec_operand_val(s, operand)),
        ),
        Instruction::Not { dr, sr } => spec_continue(spec_load_result(s, dr, !s.regs[sr as int])),
        Instruction::Br { n, z, p, pc_offset } => {
            if (n && s.cond == CondFlag::Neg) || (z && s.cond == CondFlag::Zro) || (p && s.cond
                == CondFlag::Pos) {
                spec_continue(State { pc: wadd(s.pc, pc_offset), ..s })
            } else {
                spec_continue(s)
            }
        },
        Instruction::Jmp { base } => spec_continue(State { pc: s.regs[base as int], ..s }),
        Instruction::Jsr { target } => {
            let linked = State { regs: s.regs.update(7, s.pc), ..s };
            match target {
                JsrTarget::Reg(b) => spec_continue(
                    State { pc: linked.regs[b as int], ..linked },
                ),
                JsrTarget::Offset(off) => spec_continue(State { pc: wadd(s.pc, off), ..linked }),
            }
        },
        Instruction::Ld { dr, pc_offset } => {
            let a = wadd(s.pc, pc_offset);
            let read = State { mem: spec_mem_after_read(s.mem, a, key), ..s };
            spec_continue(spec_load_result(read, dr, spec_read_val(s.mem, a, key)))
        },
        Instruction::Ldi { dr, pc_offset } => {
            let a1 = wadd(s.pc, pc_offset);
            let a2 = spec_read_val(s.mem, a1, key);
            let m1 = spec_mem_after_read(s.mem, a1, key);
            let read = State { mem: spec_mem_after_read(m1, a2, key), ..s };
            spec_continue(spec_load_result(read, dr, spec_read_val(m1, a2, key)))
        },
        Instruction::Ldr { dr, base, offset } => {
            let a = wadd(s.regs[base as int], offset);
            let read = State { mem: spec_mem_after_read(s.mem, a, key), ..s };
            spec_continue(spec_load_result(read, dr, spec_read_val(s.mem, a, key)))
        },
        Instruction::Lea { dr, pc_offset } => spec_continue(
            spec_load_result(s, dr, wadd(s.pc, pc_offset)),
        ),
        Instruction::St { sr, pc_offset } => spec_continue(
            State { mem: s.mem.update(wadd(s.pc, pc_offset) as int, s.regs[sr as int]), ..s },
        ),
        Instruction::Sti { sr, pc_offset } => {
            let a1 = wadd(s.pc, pc_offset);
            let a2 = spec_read_val(s.mem, a1, key);
            let m1 = spec_mem_after_read(s.mem, a1, key);
            spec_continue(State { mem: m1.update(a2 as int, s.regs[sr as int]), ..s })
        },
        Instruction::Str { sr, base, offset } => spec_continue(
            State {
                mem: s.mem.update(wadd(s.regs[base as int], offset) as int, s.regs[sr as int]),
                ..s
            },
        ),
        Instruction::Trap { vector } => spec_trap(s, vector, key),
        Instruction::Rti => StepEffect {
            state: s,
            outcome: StepOutcome::Fatal { kind: VmErrorKind::ReservedOpcode, pc: s.pc },
            output: Seq::empty(),
        },
        Instruction::Res => StepEffect {
            state: s,
            outcome: StepOutcome::Fatal { kind: VmErrorKind::ReservedOpcode, pc: s.pc },
            output: Seq::empty(),
        },
    }
}

/// The effect of one full cycle from state `s`: fetch the word at the
/// program counter (with its poll side effect), advance the counter, decode
/// and execute. An instruction that blocks for a keystroke, with none
/// pending, leaves the machine unmoved but for the fetch's poll and signals
/// `NeedInput`.
pub open spec fn spec_step(s: State, key: Option<u8>) -> StepEffect {
    let w = spec_read_val(s.mem, s.pc, key);
    let fetched = State { mem: spec_mem_after_read(s.mem, s.pc, key), ..s };
    let i = spec_decode(w);
    if needs_key(i) && key is None {
        StepEffect { state: fetched, outcome: StepOutcome::NeedInput, output: Seq::empty() }
    } else {
        spec_exec_instr(State { pc: wadd(s.pc, 1), ..fetched }, i, key)
    }
}

/// The effect of running up to `fuel` cycles with no keystroke pending:
/// cycles follow each other while they signal `Continue`; the first other
/// signal, or the fuel running out, ends the run.
pub open spec fn spec_run(s: State, fuel: nat) -> StepEffect
    decreases fuel,
{
    if fuel == 0 {
        StepEffect { state: s, outcome: StepOutcome::Continue, output: Seq::empty() }
    } else {
        let first = spec_step(s, None);
        if first.outcome == StepOutcome::Continue {
            let rest = spec_run(first.state, (fuel - 1) as nat);
            StepEffect { state: rest.state, outcome: rest.outcome, output: first.output + rest.output }
        } else {
            first
        }
    }
}

/// JSR leaves the address of the instruction after it in R7, and a later
/// JMP through R7 — with R7 preserved in between — brings the program
/// counter back exactly there. `s` is the state executing the JSR, its
/// program counter already advanced past the JSR word; `s2` is any later
/// state whose R7 still holds what the JSR saved.
pub proof fn lemma_jsr_jmp_round_trip(
    s: State,
    target: JsrTarget,
    key1: Option<u8>,
    s2: State,
    key2: Option<u8>,
)
    requires
        s.wf(),
        s2.wf(),
        s2.regs[7] == spec_exec_instr(s, (Instruction::Jsr { target }), key1).state.regs[7],
    ensures
        spec_exec_instr(s, (Instruction::Jsr { target }), key1).state.regs[7] == s.pc,
        spec_exec_instr(s2, (Instruction::Jmp { base: 7 }), key2).state.pc == s.pc,
{
}

/// A reserved opcode — RTI (tag 8) or RES (tag 13) — makes the cycle fault
/// with a ReservedOpcode diagnostic at the advanced program counter; it is
/// never a silent no-op. Registers, flags and output are untouched.
pub proof fn lemma_reserved_opcode_faults(s: State, key: Option<u8>)
    requires
        s.wf(),
        spec_read_val(s.mem, s.pc, key) >> 12 == 8 || spec_read_val(s.mem, s.pc, key) >> 12 == 13,
    ensures
        spec_step(s, key).outcome == (StepOutcome::Fatal {
            kind: VmErrorKind::ReservedOpcode,
            pc: wadd(s.pc, 1),
        }),
        spec_step(s, key).state.regs == s.regs,
        spec_step(s, key).state.cond == s.cond,
        spec_step(s, key).output == Seq::<u8>::empty(),
{
}

/// The machine: eight general registers, the program counter, the condition
/// flags, and the 64K-word memory.
pub struct Vm {
    pub regs: Vec<u16>,
    pub pc: u16,
    pub cond: CondFlag,
    pub mem: Vec<u16>,
}

impl View for Vm {
    type V = State;

    open spec fn view(&self) -> State {
        State { regs: self.regs@, pc: self.pc, cond: self.cond, mem: self.mem@ }
    }
}

impl Vm {
    /// A machine at startup: registers and memory zero-filled, the program
    /// counter awaiting the loaded image's origin, and ZRO as the single
    /// active flag.
    pub fn new() -> (vm: Vm)
        ensures
            vm@.wf(),
            forall|i: int| 0 <= i < 8 ==> vm@.regs[i] == 0,
            vm@.pc == 0,
            vm@.cond == CondFlag::Zro,
            forall|a: int| 0 <= a < 0x10000 ==> vm@.mem[a] == 0,
    {
        Vm { regs: vec![0u16; 8], pc: 0, cond: CondFlag::Zro, mem: vec![0u16; 0x10000] }
    }

    /// Reads one memory cell. A read of the keyboard-status register first
    /// polls the keyboard, updating the status and data registers from the
    /// pending keystroke; every other address is plain storage.
    pub fn mem_read(&mut self, address: u16, key: Option<u8>) -> (w: u16)
        requires
            old(self)@.wf(),
        ensures
            final(self)@.wf(),
            final(self)@.mem == spec_mem_after_read(old(self)@.mem, address, key),
            final(self)@.regs == old(self)@.regs,
            final(self)@.pc == old(self)@.pc,
            final(self)@.cond == old(self)@.cond,
            w == spec_read_val(old(self)@.mem, address, key),
    {
        if address == MR_KBSR {
            match key {
                Some(k) => {
                    self.mem[MR_KBSR as usize] = 0x8000;
                    self.mem[MR_KBDR as usize] = k as u16;
                },
                None => {
                    self.mem[MR_KBSR as usize] = 0;
                },
            }
        }
        self.mem[address as usize]
    }

    /// Writes one memory cell: an unconditional store, at every address.
    pub fn mem_write(&mut self, address: u16, value: u16)
        requires
            old(self)@.wf(),
        ensures
            final(self)@.wf(),
            final(self)@.mem == old(self)@.mem.update(address as int, value),
            final(self)@.regs == old(self)@.regs,
            final(self)@.pc == old(self)@.pc,
            final(self)@.cond == old(self)@.cond,
    {
        self.mem[address as usize] = value;
    }

    /// Advances the program counter by one, wrapping at the top of the
    /// address space.
    pub fn increment_pc(&mut self)
        ensures
            final(self)@ == (State { pc: wadd(old(self)@.pc, 1), ..old(self)@ }),
    {
        self.pc = wadd16(self.pc, 1);
    }

    /// Recomputes the condition flags from a result value: the one active
    /// flag is chosen by the signed reading of `result`.
    pub fn set_flags(&mut self, result: u16)
        ensures
            final(self)@ == (State { cond: flag_of(result), ..old(self)@ }),
    {
        if result == 0 {
            self.cond = CondFlag::Zro;
        } else if result >= 0x8000 {
            self.cond = CondFlag::Neg;
        } else {
            self.cond = CondFlag::Pos;
        }
    }
}

/// The `i`-th 16-bit word of a big-endian image byte stream; a trailing odd
/// byte stands alone as a high byte.
pub open spec fn image_word(bytes: Seq<u8>, i: int) -> u16 {
    if 2 * i + 1 < bytes.len() {
        word_of_bytes(bytes[2 * i], bytes[2 * i + 1])
    } else {
        word_of_bytes(bytes[2 * i], 0)
    }
}

/// The number of words a byte stream fills: byte pairs, rounded up.
pub open spec fn image_len(bytes: Seq<u8>) -> int {
    (bytes.len() + 1) as int / 2
}

/// Memory after an image byte stream is placed at `offset`: the covered
/// cells hold the image's words, every other cell is untouched.
pub open spec fn spec_fill(mem: Seq<u16>, offset: u16, bytes: Seq<u8>) -> Seq<u16> {
    Seq::new(
        mem.len(),
        |a: int|
            if offset <= a < offset + image_len(bytes) {
                image_word(bytes, a - offset)
            } else {
                mem[a]
            },
    )
}

impl Vm {
    /// Places a program image's data words into memory starting at `offset`:
    /// consecutive big-endian byte pairs become consecutive words.
    pub fn fill_mem_from_offset(&mut self, offset: u16, bytes: &Vec<u8>)
        requires
            old(self)@.wf(),
            offset + image_len(bytes@) <= 0x10000,
        ensures
            final(self)@.wf(),
            final(self)@.mem == spec_fill(old(self)@.mem, offset, bytes@),
            final(self)@.regs == old(self)@.regs,
            final(self)@.pc == old(self)@.pc,
            final(self)@.cond == old(self)@.cond,
    {
        let ghost mem0 = self.mem@;
        let mut i: usize = 0;
        let n = bytes.len();
        while 2 * i + 1 < n
            invariant
                self@.wf(),
                n == bytes@.len(),
                0 <= 2 * i <= n + 1,
                i <= image_len(bytes@),
                offset + image_len(bytes@) <= 0x10000,
                self.regs@ == old(self).regs@,
                self.pc == old(self).pc,
                self.cond == old(self).cond,
                forall|a: int|
                    0 <= a < 0x10000 && !(offset <= a < offset + i) ==> self.mem@[a] == mem0[a],
                forall|a: int|
                    offset <= a < offset + i ==> self.mem@[a] == image_word(bytes@, a - offset),
            decreases n - 2 * i,
        {
            let w = swap16([bytes[2 * i], bytes[2 * i + 1]]);
            self.mem[offset as usize + i] = w;
            i = i + 1;
        }
        if 2 * i < n {
            let w = swap16([bytes[2 * i], 0]);
            self.mem[offset as usize + i] = w;
            proof {
                assert(image_word(bytes@, i as int) == word_of_bytes(bytes@[2 * i as int], 0));
            }
            i = i + 1;
        }
        proof {
            assert(i == image_len(bytes@));
            assert(self.mem@ =~= spec_fill(mem0, offset, bytes@));
        }
    }

    /// Executes one decoded instruction, the program counter already past it.
    /// The instruction's effect on registers, flags, memory, console output
    /// and the loop signal is exactly `spec_exec_instr`.
    pub fn exec_instr(&mut self, i: Instruction, key: Option<u8>, out: &mut Vec<u8>) -> (r:
        StepOutcome)
        requires
            old(self)@.wf(),
            instr_wf(i),
            needs_key(i) ==> key is Some,
        ensures
            final(self)@.wf(),
            final(self)@ == spec_exec_instr(old(self)@, i, key).state,
            r == spec_exec_instr(old(self)@, i, key).outcome,
            final(out)@ == old(out)@ + spec_exec_instr(old(self)@, i, key).output,
    {
        proof {
            assert(old(out)@ + Seq::<u8>::empty() =~= old(out)@);
        }
        match i {
            Instruction::Add { dr, sr1, operand } => {
                let a = self.regs[sr1 as usize];
                let b = match operand {
                    Operand::Reg(r2) => self.regs[r2 as usize],
                    Operand::Imm(v) => v,
                };
                let v = wadd16(a, b);
                self.regs[dr as usize] = v;
                self.set_flags(v);
                proof {
                    assert(self@ =~= spec_exec_instr(old(self)@, i, key).state);
                }
                StepOutcome::Continue
            },
            Instruction::And { dr, sr1, operand } => {
                let a = self.regs[sr1 as usize];
                let b = match operand {
                    Operand::Reg(r2) => self.regs[r2 as usize],
                    Operand::Imm(v) => v,
                };
                let v = a & b;
                self.regs[dr as usize] = v;
                self.set_flags(v);
                proof {
                    assert(self@ =~= spec_exec_instr(old(self)@, i, key).state);
                }
                StepOutcome::Continue
            },
            Instruction::Not { dr, sr } => {
                let v = !self.regs[sr as usize];
                self.regs[dr as usize] = v;
                self.set_flags(v);
                proof {
                    assert(self@ =~= spec_exec_instr(old(self)@, i, key).state);
                }
                StepOutcome::Continue
            },
            Instruction::Br { n, z, p, pc_offset } => {
                let taken = (n && self.cond == CondFlag::Neg) || (z && self.cond == CondFlag::Zro)
                    || (p && self.cond == CondFlag::Pos);
                if taken {
                    let t = wadd16(self.pc, pc_offset);
                    self.pc = t;
                }
                proof {
                    assert(self@ =~= spec_exec_instr(old(self)@, i, key).state);
                }
                StepOutcome::Continue
            },
            Instruction::Jmp { base } => {
                self.pc = self.regs[base as usize];
                proof {
                    assert(self@ =~= spec_exec_instr(old(self)@, i, key).state);
                }
                StepOutcome::Continue
            },
            Instruction::Jsr { target } => {
                let link = self.pc;
                self.regs[7] = link;
                match target {
                    JsrTarget::Reg(b) => {
                        self.pc = self.regs[b as usize];
                    },
                    JsrTarget::Offset(off) => {
                        self.pc = wadd16(link, off);
                    },
                }
                proof {
                    assert(self@ =~= spec_exec_instr(old(self)@, i, key).state);
                }
                StepOutcome::Continue
            },
            Instruction::Ld { dr, pc_offset } => {
                let a = wadd16(self.pc, pc_offset);
                let v = self.mem_read(a, key);
                self.regs[dr as usize] = v;
                self.set_flags(v);
                proof {
                    assert(self@ =~= spec_exec_instr(old(self)@, i, key).state);
                }
                StepOutcome::Continue
            },
            Instruction::Ldi { dr, pc_offset } => {
                let a1 = wadd16(self.pc, pc_offset);
                let a2 = self.mem_read(a1, key);
                let v = self.mem_read(a2, key);
                self.regs[dr as usize] = v;
                self.set_flags(v);
                proof {
                    assert(self@ =~= spec_exec_instr(old(self)@, i, key).state);
                }
                StepOutcome::Continue
            },
            Instruction::Ldr { dr, base, offset } => {
                let a = wadd16(self.regs[base as usize], offset);
                let v = self.mem_read(a, key);
                self.regs[dr as usize] = v;
                self.set_flags(v);
                proof {
                    assert(self@ =~= spec_exec_instr(old(self)@, i, key).state);
                }
                StepOutcome::Continue
            },
            Instruction::Lea { dr, pc_offset } => {
                let v = wadd16(self.pc, pc_offset);
                self.regs[dr as usize] = v;
                self.set_flags(v);
                proof {
                    assert(self@ =~= spec_exec_instr(old(self)@, i, key).state);
                }
                StepOutcome::Continue
            },
            Instruction::St { sr, pc_offset } => {
                let a = wadd16(self.pc, pc_offset);
                let v = self.regs[sr as usize];
                self.mem_write(a, v);
                proof {
                    assert(self@ =~= spec_exec_instr(old(self)@, i, key).state);
                }
                StepOutcome::Continue
            },
            Instruction::Sti { sr, pc_offset } => {
                let a1 = wadd16(self.pc, pc_offset);
                let a2 = self.mem_read(a1, key);
                let v = self.regs[sr as usize];
                self.mem_write(a2, v);
                proof {
                    assert(self@ =~= spec_exec_instr(old(self)@, i, key).state);
                }
                StepOutcome::Continue
            },
            Instruction::Str { sr, base, offset } => {
                let a = wadd16(self.regs[base as usize], offset);
                let v = self.regs[sr as usize];
                self.mem_write(a, v);
                proof {
                    assert(self@ =~= spec_exec_instr(old(self)@, i, key).state);
                }
                StepOutcome::Continue
            },
            Instruction::Trap { vector } => {
                proof {
                    assert(vector < 0x100 ==> vector & 0xFF == vector) by (bit_vector);
                }
                self.handle_trap(vector, key, out)
            },
            Instruction::Rti => StepOutcome::Fatal { kind: VmErrorKind::ReservedOpcode, pc: self.pc },
            Instruction::Res => StepOutcome::Fatal { kind: VmErrorKind::ReservedOpcode, pc: self.pc },
        }
    }

    /// One cycle of the execution engine: fetch the word at the program
    /// counter (which polls the keyboard when the fetch touches the status
    /// register), advance the counter, decode, and execute. When the decoded
    /// instruction blocks for a keystroke and none is pending, nothing but
    /// the fetch's poll happens and the step reports `NeedInput`.
    pub fn step(&mut self, key: Option<u8>, out: &mut Vec<u8>) -> (r: StepOutcome)
        requires
            old(self)@.wf(),
        ensures
            final(self)@.wf(),
            final(self)@ == spec_step(old(self)@, key).state,
            r == spec_step(old(self)@, key).outcome,
            final(out)@ == old(out)@ + spec_step(old(self)@, key).output,
    {
        let pc = self.pc;
        let w = self.mem_read(pc, key);
        let instr = decode(w);
        let blocking = match instr {
            Instruction::Trap { vector } => vector == 0x20 || vector == 0x23,
            _ => false,
        };
        if blocking && key.is_none() {
            proof {
                assert(old(out)@ + Seq::<u8>::empty() =~= old(out)@);
                assert(self@ =~= spec_step(old(self)@, key).state);
            }
            return StepOutcome::NeedInput;
        }
        self.increment_pc();
        proof {
            assert(self@ =~= (State {
                pc: wadd(old(self)@.pc, 1),
                mem: spec_mem_after_read(old(self)@.mem, old(self)@.pc, key),
                ..old(self)@
            }));
        }
        self.exec_instr(instr, key, out)
    }

    /// Runs the execution engine for at most `max_steps` cycles with no
    /// keystroke ever pending: the loop fetches, decodes and executes until
    /// a cycle signals something other than `Continue` or the budget runs
    /// out. The result is exactly `spec_run` of the starting state.
    #[verifier::rlimit(100)]
    pub fn run(&mut self, max_steps: usize, out: &mut Vec<u8>) -> (r: StepOutcome)
        requires
            old(self)@.wf(),
        ensures
            final(self)@.wf(),
            final(self)@ == spec_run(old(self)@, max_steps as nat).state,
            r == spec_run(old(self)@, max_steps as nat).outcome,
            final(out)@ == old(out)@ + spec_run(old(self)@, max_steps as nat).output,
    {
        let ghost s0 = self@;
        let ghost out0 = old(out)@;
        let ghost total = spec_run(s0, max_steps as nat);
        let ghost mut produced: Seq<u8> = Seq::empty();
        let mut k: usize = 0;
        let mut res = StepOutcome::Continue;
        proof {
            assert(out@ =~= out0 + produced);
            assert(total.output =~= produced + spec_run(self@, max_steps as nat).output);
        }
        loop
            invariant_except_break
                res == StepOutcome::Continue,
                k <= max_steps,
                total == spec_run(s0, max_steps as nat),
                total.state == spec_run(self@, (max_steps - k) as nat).state,
                total.outcome == spec_run(self@, (max_steps - k) as nat).outcome,
                out@ == out0 + produced,
                total.output == produced + spec_run(self@, (max_steps - k) as nat).output,
            invariant
                self@.wf(),
            ensures
                self@ == spec_run(s0, max_steps as nat).state,
                res == spec_run(s0, max_steps as nat).outcome,
                out@ == out0 + spec_run(s0, max_steps as nat).output,
            decreases max_steps - k,
        {
            if k >= max_steps {
                proof {
                    assert(total.output =~= produced);
                }
                break ;
            }
            let ghost prev = self@;
            let r = self.step(None, out);
            k = k + 1;
            if !(matches!(r, StepOutcome::Continue)) {
                res = r;
                proof {
                    assert(spec_run(prev, (max_steps - (k - 1)) as nat) == spec_step(prev, None));
                    produced = produced + spec_step(prev, None).output;
                    assert(out@ =~= out0 + produced);
                }
                break ;
            }
            proof {
                let rest = spec_run(self@, (max_steps - k) as nat);
                assert(spec_run(prev, (max_steps - (k - 1)) as nat) == (StepEffect {
                    state: rest.state,
                    outcome: rest.outcome,
                    output: spec_step(prev, None).output + rest.output,
                }));
                produced = produced + spec_step(prev, None).output;
                assert(out@ =~= out0 + produced);
                assert(total.output =~= produced + rest.output);
            }
        }
        res
    }

    /// Loads a full program image: the leading big-endian word is the origin,
    /// which becomes the program counter; the remaining words are placed into
    /// memory from the origin upward. Returns the origin, or `None` for an
    /// image that is too short to hold one or whose data would run past the
    /// top of memory — in that case the machine is untouched.
    pub fn load_image(&mut self, image: &Vec<u8>) -> (r: Option<u16>)
        requires
            old(self)@.wf(),
        ensures
            final(self)@.wf(),
            image@.len() < 2 || word_of_bytes(image@[0], image@[1]) + image_len(
                image@.skip(2),
            ) > 0x10000 ==> (r == None::<u16> && final(self)@ == old(self)@),
            image@.len() >= 2 && word_of_bytes(image@[0], image@[1]) + image_len(
                image@.skip(2),
            ) <= 0x10000 ==> {
                let origin = word_of_bytes(image@[0], image@[1]);
                r == Some(origin) && final(self)@ == (State {
                    pc: origin,
                    mem: spec_fill(old(self)@.mem, origin, image@.skip(2)),
                    ..old(self)@
                })
            },
    {
        if image.len() < 2 {
            return None;
        }
        let origin = swap16([image[0], image[1]]);
        let mut data: Vec<u8> = Vec::new();
        let mut j: usize = 2;
        while j < image.len()
            invariant
                2 <= j <= image@.len(),
                data@ == image@.subrange(2, j as int),
            decreases image@.len() - j,
        {
            data.push(image[j]);
            j = j + 1;
        }
        proof {
            assert(data@ == image@.skip(2));
        }
        let words = (data.len() + 1) / 2;
        if origin as usize + words > 0x10000 {
            return None;
        }
        self.fill_mem_from_offset(origin, &data);
        self.pc = origin;
        Some(origin)
    }
}

} // verus!

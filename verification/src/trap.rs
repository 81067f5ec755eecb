//! The trap dispatcher: the TRAP opcode's sub-codes for console I/O and for
//! halting. Console bytes are appended to an output buffer, and the pending
//! keystroke (if any) arrives as a plain value.

use vstd::prelude::*;
use vstd::arithmetic::div_mod::{lemma_add_mod_noop_right, lemma_small_mod};
use crate::bits::{wadd, wadd16};
use crate::machine::{State, StepEffect, StepOutcome, Vm, VmErrorKind};

verus! {

/// The trap sub-codes held in the low byte of a TRAP instruction.
#[allow(non_camel_case_types)]
#[derive(Clone, Copy, PartialEq, Eq, Structural, Debug)]
pub enum TrapCode {
    GETC,
    OUT,
    PUTS,
    IN,
    PUTSP,
    HALT,
    ERR,
}

/// The trap code selected by an instruction word's low byte; `ERR` for a
/// vector the dispatch table does not hold.
pub open spec fn spec_trapcode_from(value: u16) -> TrapCode {
    let trap = value & 0xFF;
    if trap == 0x20 {
        TrapCode::GETC
    } else if trap == 0x21 {
        TrapCode::OUT
    } else if trap == 0x22 {
        TrapCode::PUTS
    } else if trap == 0x23 {
        TrapCode::IN
    } else if trap == 0x24 {
        TrapCode::PUTSP
    } else if trap == 0x25 {
        TrapCode::HALT
    } else {
        TrapCode::ERR
    }
}

impl TrapCode {
    /// Maps an instruction word to the trap code its low byte selects.
    pub fn from_u16(value: u16) -> (r: TrapCode)
        ensures
            r == spec_trapcode_from(value),
    {
        let mask: u16 = 0b11111111;
        let trap = value & mask;
        match trap {
            0x20 => TrapCode::GETC,
            0x21 => TrapCode::OUT,
            0x22 => TrapCode::PUTS,
            0x23 => TrapCode::IN,
            0x24 => TrapCode::PUTSP,
            0x25 => TrapCode::HALT,
            _ => TrapCode::ERR,
        }
    }
}

/// The low byte of a word: the character OUT writes, and the first of the two
/// characters PUTSP unpacks.
pub open spec fn low_byte(w: u16) -> u8 {
    (w & 0xFF) as u8
}

/// The high byte of a word: the second character PUTSP unpacks.
pub open spec fn high_byte(w: u16) -> u8 {
    (w >> 8) as u8
}

/// The memory cell `j` words past `start`, wrapping at the top of the address
/// space.
pub open spec fn cell_at(mem: Seq<u16>, start: u16, j: int) -> u16 {
    mem[(start + j) % 0x10000]
}

/// The bytes PUTS writes for the words from `start` on: one character per
/// word, its low byte, up to but not including the first zero word. `fuel`
/// bounds the words read; a full memory sweep reaches every cell once.
pub open spec fn puts_output(mem: Seq<u16>, start: u16, fuel: nat) -> Seq<u8>
    decreases fuel,
{
    if fuel == 0 || cell_at(mem, start, 0) == 0 {
        seq![]
    } else {
        seq![low_byte(cell_at(mem, start, 0))] + puts_output(mem, wadd(start, 1), (fuel - 1) as nat)
    }
}

/// The bytes PUTSP writes for the first `n` words from `start`, each holding
/// two characters, low byte first — assuming no zero byte among them.
pub open spec fn putsp_prefix(mem: Seq<u16>, start: u16, n: nat) -> Seq<u8>
    decreases n,
{
    if n == 0 {
        seq![]
    } else {
        putsp_prefix(mem, start, (n - 1) as nat) + seq![
            low_byte(cell_at(mem, start, n - 1)),
            high_byte(cell_at(mem, start, n - 1)),
        ]
    }
}

/// The bytes PUTSP writes for the words from `start` on: two characters per
/// word, low byte then high byte, up to but not including the first zero
/// byte.
pub open spec fn putsp_output(mem: Seq<u16>, start: u16, fuel: nat) -> Seq<u8>
    decreases fuel,
{
    if fuel == 0 || low_byte(cell_at(mem, start, 0)) == 0 {
        seq![]
    } else if high_byte(cell_at(mem, start, 0)) == 0 {
        seq![low_byte(cell_at(mem, start, 0))]
    } else {
        seq![low_byte(cell_at(mem, start, 0)), high_byte(cell_at(mem, start, 0))] + putsp_output(
            mem,
            wadd(start, 1),
            (fuel - 1) as nat,
        )
    }
}

/// The prompt IN writes before it reads a keystroke.
pub open spec fn in_prompt() -> Seq<u8> {
    seq![
        69u8, 110u8, 116u8, 101u8, 114u8, 32u8, 97u8, 32u8, 99u8, 104u8, 97u8, 114u8, 97u8, 99u8,
        116u8, 101u8, 114u8, 58u8, 32u8,
    ]
}

/// Whether a trap vector blocks for a keystroke: GETC and IN do.
pub open spec fn trap_wants_key(instruction: u16) -> bool {
    instruction & 0xFF == 0x20 || instruction & 0xFF == 0x23
}

/// The full effect of dispatching a TRAP instruction from state `s` with
/// pending keystroke `key`: the state after it, the signal to the execution
/// loop, and the console bytes written.
pub open spec fn spec_trap(s: State, instruction: u16, key: Option<u8>) -> StepEffect {
    let trap = instruction & 0xFF;
    if trap == 0x20 {
        // GETC: one keystroke into R0, no echo.
        (StepEffect {
            state: State { regs: s.regs.update(0, key->Some_0 as u16), ..s },
            outcome: StepOutcome::Continue,
            output: seq![],
        })
    } else if trap == 0x21 {
        // OUT: the character in R0's low byte.
        (StepEffect { state: s, outcome: StepOutcome::Continue, output: seq![low_byte(s.regs[0])] })
    } else if trap == 0x22 {
        // PUTS: one character per word from the address in R0, up to a zero word.
        (StepEffect {
            state: s,
            outcome: StepOutcome::Continue,
            output: puts_output(s.mem, s.regs[0], 0x10000),
        })
    } else if trap == 0x23 {
        // IN: prompt, one keystroke into R0, echoed.
        (StepEffect {
            state: State { regs: s.regs.update(0, key->Some_0 as u16), ..s },
            outcome: StepOutcome::Continue,
            output: in_prompt() + seq![key->Some_0],
        })
    } else if trap == 0x24 {
        // PUTSP: two characters per word from the address in R0, up to a zero byte.
        (StepEffect {
            state: s,
            outcome: StepOutcome::Continue,
            output: putsp_output(s.mem, s.regs[0], 0x10000),
        })
    } else if trap == 0x25 {
        // HALT: no further instructions execute.
        (StepEffect { state: s, outcome: StepOutcome::Halted, output: seq![] })
    } else {
        // No entry in the dispatch table: fatal.
        (StepEffect {
            state: s,
            outcome: StepOutcome::Fatal { kind: VmErrorKind::UndefinedTrapVector, pc: s.pc },
            output: seq![],
        })
    }
}

/// Stepping the scan start forward one cell shifts every cell index by one.
proof fn lemma_cell_shift(mem: Seq<u16>, start: u16, j: int)
    requires
        0 <= j < 0x10000,
    ensures
        cell_at(mem, wadd(start, 1), j) == cell_at(mem, start, j + 1),
{
    lemma_small_mod(j as nat, 0x10000);
    lemma_add_mod_noop_right(j, (start + 1) as int, 0x10000);
    assert((j + (start + 1) % 0x10000) % 0x10000 == (j + start + 1) % 0x10000);
}

/// The PUTS output is exactly the low bytes of the `d` words scanned: those
/// before the first zero word, or before the fuel runs out.
proof fn lemma_puts_output_prefix(mem: Seq<u16>, start: u16, d: nat, fuel: nat)
    requires
        d <= fuel,
        d <= 0x10000,
        forall|j: int| 0 <= j < d ==> cell_at(mem, start, j) != 0,
        d < fuel ==> cell_at(mem, start, d as int) == 0,
    ensures
        puts_output(mem, start, fuel) == Seq::new(d, |j: int| low_byte(cell_at(mem, start, j))),
    decreases d,
{
    if d == 0 {
        assert(puts_output(mem, start, fuel) =~= Seq::new(
            0,
            |j: int| low_byte(cell_at(mem, start, j)),
        ));
    } else {
        assert forall|j: int| 0 <= j < d - 1 implies cell_at(mem, wadd(start, 1), j) != 0 by {
            lemma_cell_shift(mem, start, j);
        }
        lemma_cell_shift(mem, start, d - 1);
        lemma_puts_output_prefix(mem, wadd(start, 1), (d - 1) as nat, (fuel - 1) as nat);
        assert forall|j: int| 0 <= j < d - 1 implies low_byte(cell_at(mem, wadd(start, 1), j))
            == low_byte(cell_at(mem, start, j + 1)) by {
            lemma_cell_shift(mem, start, j);
        }
        assert(puts_output(mem, start, fuel) =~= Seq::new(
            d,
            |j: int| low_byte(cell_at(mem, start, j)),
        ));
    }
}

/// The PUTSP output is exactly the unpacked bytes of the `d` words scanned —
/// those before the first zero byte, or before the fuel runs out — plus the
/// final word's low byte when the zero is its high byte.
proof fn lemma_putsp_output_prefix(mem: Seq<u16>, start: u16, d: nat, fuel: nat)
    requires
        d <= fuel,
        d <= 0x10000,
        forall|j: int|
            0 <= j < d ==> low_byte(#[trigger] cell_at(mem, start, j)) != 0 && high_byte(
                cell_at(mem, start, j),
            ) != 0,
        d < fuel ==> (low_byte(cell_at(mem, start, d as int)) == 0 || high_byte(
            cell_at(mem, start, d as int),
        ) == 0),
    ensures
        d == fuel ==> putsp_output(mem, start, fuel) == putsp_prefix(mem, start, d),
        d < fuel && low_byte(cell_at(mem, start, d as int)) == 0 ==> putsp_output(mem, start, fuel)
            == putsp_prefix(mem, start, d),
        d < fuel && low_byte(cell_at(mem, start, d as int)) != 0 ==> putsp_output(mem, start, fuel)
            == putsp_prefix(mem, start, d) + seq![low_byte(cell_at(mem, start, d as int))],
    decreases d,
{
    if d == 0 {
        assert(putsp_prefix(mem, start, 0) =~= Seq::<u8>::empty());
        if fuel == 0 {
            assert(putsp_output(mem, start, fuel) =~= Seq::<u8>::empty());
        } else if low_byte(cell_at(mem, start, 0)) == 0 {
            assert(putsp_output(mem, start, fuel) =~= Seq::<u8>::empty());
        } else {
            assert(putsp_output(mem, start, fuel) =~= putsp_prefix(mem, start, 0) + seq![
                low_byte(cell_at(mem, start, 0)),
            ]);
        }
    } else {
        assert forall|j: int| 0 <= j < d - 1 implies low_byte(
            #[trigger] cell_at(mem, wadd(start, 1), j),
        ) != 0 && high_byte(cell_at(mem, wadd(start, 1), j)) != 0 by {
            lemma_cell_shift(mem, start, j);
        }
        lemma_cell_shift(mem, start, d - 1);
        lemma_putsp_output_prefix(mem, wadd(start, 1), (d - 1) as nat, (fuel - 1) as nat);
        lemma_putsp_prefix_shift(mem, start, (d - 1) as nat);
    }
}

/// Unrolls one leading word off a PUTSP prefix that starts one cell later.
proof fn lemma_putsp_prefix_shift(mem: Seq<u16>, start: u16, n: nat)
    requires
        n < 0x10000,
    ensures
        putsp_prefix(mem, start, (n + 1) as nat) == seq![
            low_byte(cell_at(mem, start, 0)),
            high_byte(cell_at(mem, start, 0)),
        ] + putsp_prefix(mem, wadd(start, 1), n),
    decreases n,
{
    if n == 0 {
        reveal_with_fuel(putsp_prefix, 3);
        assert(putsp_prefix(mem, start, 1) =~= seq![
            low_byte(cell_at(mem, start, 0)),
            high_byte(cell_at(mem, start, 0)),
        ] + putsp_prefix(mem, wadd(start, 1), 0));
    } else {
        lemma_putsp_prefix_shift(mem, start, (n - 1) as nat);
        lemma_cell_shift(mem, start, n - 1);
        assert(putsp_prefix(mem, start, (n + 1) as nat) =~= seq![
            low_byte(cell_at(mem, start, 0)),
            high_byte(cell_at(mem, start, 0)),
        ] + putsp_prefix(mem, wadd(start, 1), n));
    }
}

/// Extracts a word's low byte.
fn low_byte_x(w: u16) -> (r: u8)
    ensures
        r == low_byte(w),
{
    proof {
        assert(w & 0xFF < 0x100) by (bit_vector);
    }
    (w & 0xFF) as u8
}

/// Extracts a word's high byte.
fn high_byte_x(w: u16) -> (r: u8)
    ensures
        r == high_byte(w),
{
    proof {
        assert(w >> 8 < 0x100) by (bit_vector);
    }
    (w >> 8) as u8
}

impl Vm {
    /// PUTS: writes one character per word, the low byte, from `start` up to
    /// but not including the first zero word, wrapping at the top of memory.
    /// A scan that found no zero word in a full sweep would revisit the same
    /// cells forever, so it stops after one sweep.
    fn trap_puts(&self, start: u16, out: &mut Vec<u8>)
        requires
            self@.wf(),
        ensures
            final(out)@ == old(out)@ + puts_output(self@.mem, start, 0x10000),
    {
        let ghost out0 = old(out)@;
        let mut addr: u16 = start;
        let mut i: usize = 0;
        proof {
            lemma_small_mod(start as nat, 0x10000);
        }
        loop
            invariant
                self@.wf(),
                i <= 0x10000,
                addr as int == (start + i) % 0x10000,
                forall|j: int| 0 <= j < i ==> cell_at(self@.mem, start, j) != 0,
                out@ == out0 + Seq::new(i as nat, |j: int| low_byte(cell_at(self@.mem, start, j))),
            ensures
                out@ == out0 + puts_output(self@.mem, start, 0x10000),
            decreases 0x10000 - i,
        {
            if i >= 0x10000 {
                proof {
                    lemma_puts_output_prefix(self@.mem, start, 0x10000, 0x10000);
                    assert(out@ =~= out0 + puts_output(self@.mem, start, 0x10000));
                }
                break ;
            }
            let c = self.mem[addr as usize];
            proof {
                assert(c == cell_at(self@.mem, start, i as int));
            }
            if c == 0 {
                proof {
                    lemma_puts_output_prefix(self@.mem, start, i as nat, 0x10000);
                    assert(out@ =~= out0 + puts_output(self@.mem, start, 0x10000));
                }
                break ;
            }
            out.push(low_byte_x(c));
            addr = wadd16(addr, 1);
            proof {
                lemma_add_mod_noop_right((start + i) as int, 1, 0x10000);
            }
            i = i + 1;
            proof {
                assert(out@ =~= out0 + Seq::new(
                    i as nat,
                    |j: int| low_byte(cell_at(self@.mem, start, j)),
                ));
            }
        }
    }

    /// PUTSP: writes two characters per word, low byte then high byte, from
    /// `start` up to but not including the first zero byte, wrapping at the
    /// top of memory. A scan that found no zero byte in a full sweep would
    /// revisit the same cells forever, so it stops after one sweep.
    fn trap_putsp(&self, start: u16, out: &mut Vec<u8>)
        requires
            self@.wf(),
        ensures
            final(out)@ == old(out)@ + putsp_output(self@.mem, start, 0x10000),
    {
        let ghost out0 = old(out)@;
        let mut addr: u16 = start;
        let mut i: usize = 0;
        proof {
            lemma_small_mod(start as nat, 0x10000);
        }
        loop
            invariant_except_break
                out@ == out0 + putsp_prefix(self@.mem, start, i as nat),
            invariant
                self@.wf(),
                i <= 0x10000,
                addr as int == (start + i) % 0x10000,
                forall|j: int|
                    0 <= j < i ==> low_byte(#[trigger] cell_at(self@.mem, start, j)) != 0
                        && high_byte(cell_at(self@.mem, start, j)) != 0,
            ensures
                out@ == out0 + putsp_output(self@.mem, start, 0x10000),
            decreases 0x10000 - i,
        {
            if i >= 0x10000 {
                proof {
                    lemma_putsp_output_prefix(self@.mem, start, 0x10000, 0x10000);
                }
                break ;
            }
            let c = self.mem[addr as usize];
            proof {
                assert(c == cell_at(self@.mem, start, i as int));
                if low_byte(c) == 0 || high_byte(c) == 0 {
                    lemma_putsp_output_prefix(self@.mem, start, i as nat, 0x10000);
                }
            }
            let lo = low_byte_x(c);
            if lo == 0 {
                break ;
            }
            out.push(lo);
            let hi = high_byte_x(c);
            if hi == 0 {
                proof {
                    assert(out@ =~= out0 + putsp_output(self@.mem, start, 0x10000));
                }
                break ;
            }
            out.push(hi);
            addr = wadd16(addr, 1);
            proof {
                lemma_add_mod_noop_right((start + i) as int, 1, 0x10000);
            }
            i = i + 1;
            proof {
                assert(out@ =~= out0 + putsp_prefix(self@.mem, start, i as nat));
            }
        }
    }

    /// Dispatches a TRAP instruction: console I/O for the five I/O vectors, a
    /// halt signal for HALT, and a fatal fault for any other vector. GETC and
    /// IN block for a keystroke, so they may only be dispatched with one
    /// pending.
    pub fn handle_trap(&mut self, instruction: u16, key: Option<u8>, out: &mut Vec<u8>) -> (r:
        StepOutcome)
        requires
            old(self)@.wf(),
            trap_wants_key(instruction) ==> key is Some,
        ensures
            final(self)@.wf(),
            final(self)@ == spec_trap(old(self)@, instruction, key).state,
            r == spec_trap(old(self)@, instruction, key).outcome,
            final(out)@ == old(out)@ + spec_trap(old(self)@, instruction, key).output,
    {
        match TrapCode::from_u16(instruction) {
            TrapCode::GETC => {
                let k = match key {
                    Some(k) => k,
                    None => vstd::pervasive::unreached(),
                };
                self.regs[0] = k as u16;
                proof {
                    assert(self@ =~= spec_trap(old(self)@, instruction, key).state);
                }
                StepOutcome::Continue
            },
            TrapCode::OUT => {
                let c = low_byte_x(self.regs[0]);
                out.push(c);
                StepOutcome::Continue
            },
            TrapCode::PUTS => {
                let start = self.regs[0];
                self.trap_puts(start, out);
                StepOutcome::Continue
            },
            TrapCode::IN => {
                let k = match key {
                    Some(k) => k,
                    None => vstd::pervasive::unreached(),
                };
                out.push(69);
                out.push(110);
                out.push(116);
                out.push(101);
                out.push(114);
                out.push(32);
                out.push(97);
                out.push(32);
                out.push(99);
                out.push(104);
                out.push(97);
                out.push(114);
                out.push(97);
                out.push(99);
                out.push(116);
                out.push(101);
                out.push(114);
                out.push(58);
                out.push(32);
                out.push(k);
                self.regs[0] = k as u16;
                proof {
                    assert(self@ =~= spec_trap(old(self)@, instruction, key).state);
                    assert(out@ =~= old(out)@ + in_prompt() + seq![k]);
                }
                StepOutcome::Continue
            },
            TrapCode::PUTSP => {
                let start = self.regs[0];
                self.trap_putsp(start, out);
                StepOutcome::Continue
            },
            TrapCode::HALT => StepOutcome::Halted,
            TrapCode::ERR => StepOutcome::Fatal {
                kind: VmErrorKind::UndefinedTrapVector,
                pc: self.pc,
            },
        }
    }
}

} // verus!

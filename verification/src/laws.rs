//! Properties of the instruction step, proved from its definition.

#![allow(unused_imports)]

use vstd::prelude::*;
use crate::display::lemma_xor_sprite_pixels;
use crate::error::Chip8Error;
use crate::instruction::{decode_spec, lemma_decoded_is_wf, Instruction, REGISTER_COUNT};
use crate::memory::read_bytes;
use crate::semantics::{
    alu_spec,
    at_pc,
    draw_spec,
    draws_random,
    fetch_spec,
    initial_machine,
    load_spec,
    misc_spec,
    run_spec,
    state_wf,
    step_spec,
    MachineState,
    StepOutcome,
};

verus! {

/// A step keeps the machine in shape: sixteen registers, at most
/// `STACK_DEPTH` return addresses, `MEMORY_SIZE` bytes of memory and a
/// display of `HEIGHT` rows by `WIDTH` columns.
pub proof fn lemma_step_preserves_wf(s: MachineState, key: Option<u8>, random: u8)
    requires
        state_wf(s),
    ensures
        state_wf(step_spec(s, key, random).next),
{
    reveal(step_spec);
    reveal(alu_spec);
    reveal(misc_spec);
    reveal(draw_spec);
    if let Ok(opcode) = fetch_spec(s.memory, s.cpu.pc) {
        lemma_decoded_is_wf(opcode);
        if let Some(Instruction::Draw { x, y, rows }) = decode_spec(opcode) {
            lemma_xor_sprite_pixels(
                s.display,
                s.cpu.registers[x as int] as int,
                s.cpu.registers[y as int] as int,
                read_bytes(s.memory, s.cpu.index as int, rows as int),
                rows as nat,
            );
        }
    }
}

/// The machine at power-on is in shape.
pub proof fn lemma_initial_machine_is_wf()
    ensures
        state_wf(initial_machine()),
{
}

/// Loading a program image keeps the machine in shape, whatever the length
/// of the image.
pub proof fn lemma_load_preserves_wf(s: MachineState, rom: Seq<u8>)
    requires
        state_wf(s),
    ensures
        state_wf(load_spec(s, rom)),
{
}

/// A run of any length keeps the machine in shape.
pub proof fn lemma_run_preserves_wf(
    s: MachineState,
    key: Option<u8>,
    randoms: Seq<u8>,
    steps: nat,
)
    requires
        state_wf(s),
    ensures
        state_wf(run_spec(s, key, randoms, steps).next),
    decreases steps,
{
    if steps > 0 {
        lemma_run_preserves_wf(s, key, randoms, (steps - 1) as nat);
        let earlier = run_spec(s, key, randoms, (steps - 1) as nat);
        lemma_step_preserves_wf(earlier.next, key, randoms[steps - 1]);
    }
}

/// A step that does not complete leaves the machine as it found it, but
/// for the program counter: a fault met while the instruction is carried
/// out leaves the program counter past the instruction; a fetch outside
/// memory, a zero word and a wait for a key leave it where it was.
pub proof fn lemma_fault_keeps_state(s: MachineState, key: Option<u8>, random: u8)
    ensures
        ({
            let t = step_spec(s, key, random);
            &&& t.outcome is Err ==> t.next == s || t.next == at_pc(s, s.cpu.pc + 2)
            &&& t.outcome == Err::<StepOutcome, Chip8Error>(Chip8Error::Halted) ==> t.next == s
            &&& t.outcome == Ok::<StepOutcome, Chip8Error>(StepOutcome::WaitingForKey) ==> t.next
                == s
            &&& t.outcome matches Err(Chip8Error::UnknownOpcode(opcode)) ==> t.next == at_pc(
                s,
                s.cpu.pc + 2,
            ) && fetch_spec(s.memory, s.cpu.pc) == Ok::<u16, Chip8Error>(opcode)
            &&& t.outcome matches Err(Chip8Error::StackUnderflow) ==> t.next == at_pc(
                s,
                s.cpu.pc + 2,
            ) && s.cpu.stack.len() == 0
        }),
{
    reveal(step_spec);
    reveal(misc_spec);
    reveal(draw_spec);
}

/// The random byte reaches the state through the random instruction alone:
/// when the next instruction is any other, the step is the same whatever
/// byte it is given.
pub proof fn lemma_random_byte_matters_only_to_random(
    s: MachineState,
    key: Option<u8>,
    random: u8,
    other: u8,
)
    requires
        !draws_random(s.memory, s.cpu.pc),
    ensures
        step_spec(s, key, random) == step_spec(s, key, other),
{
    reveal(step_spec);
}

/// `7xnn` adds modulo 256 and writes no flag. After the step, `Vx` holds
/// `(Vx + nn) mod 256`, so `0xFF + 0x01` gives `0x00`, and every other
/// register is as it was. `VF` is written by this instruction only when
/// `x` itself is the flag register.
pub proof fn lemma_add_immediate_wraps(s: MachineState, x: u8, nn: u8, key: Option<u8>, random: u8)
    requires
        state_wf(s),
        x < REGISTER_COUNT,
        fetch_spec(s.memory, s.cpu.pc) == Ok::<u16, Chip8Error>((0x7000 + 256 * x + nn) as u16),
    ensures
        ({
            let t = step_spec(s, key, random);
            &&& t.outcome == Ok::<StepOutcome, Chip8Error>(StepOutcome::Completed)
            &&& t.next.cpu.registers[x as int] == (s.cpu.registers[x as int] + nn) % 256
            &&& s.cpu.registers[x as int] == 0xFF && nn == 0x01 ==> t.next.cpu.registers[x as int]
                == 0x00
            &&& forall|k: int|
                0 <= k < REGISTER_COUNT && k != x ==> t.next.cpu.registers[k]
                    == s.cpu.registers[k]
        }),
{
    reveal(step_spec);
}

/// A return straight after a call comes back to the instruction after the
/// call. If the step from `s` is a call that completes and the step after
/// it is a return, the return completes and leaves the machine as `s` was,
/// with the program counter 2 past the call.
pub proof fn lemma_return_after_call(
    s: MachineState,
    key: Option<u8>,
    random: u8,
    next_key: Option<u8>,
    next_random: u8,
)
    requires
        state_wf(s),
        fetch_spec(s.memory, s.cpu.pc) matches Ok(opcode) && decode_spec(opcode) matches Some(
            Instruction::Call { .. },
        ),
        step_spec(s, key, random).outcome == Ok::<StepOutcome, Chip8Error>(StepOutcome::Completed),
        fetch_spec(
            step_spec(s, key, random).next.memory,
            step_spec(s, key, random).next.cpu.pc,
        ) matches Ok(opcode) && decode_spec(opcode) == Some(Instruction::Return),
    ensures
        ({
            let called = step_spec(s, key, random).next;
            let t = step_spec(called, next_key, next_random);
            &&& t.outcome == Ok::<StepOutcome, Chip8Error>(StepOutcome::Completed)
            &&& t.next.cpu.pc == s.cpu.pc + 2
            &&& t.next == at_pc(s, s.cpu.pc + 2)
        }),
{
    reveal(step_spec);
}

/// A run that has stopped stays stopped: if the run of `steps` steps ends
/// on a step that did not complete, every longer run ends there too.
pub proof fn lemma_run_stops(
    s: MachineState,
    key: Option<u8>,
    randoms: Seq<u8>,
    steps: nat,
    more: nat,
)
    requires
        steps <= more,
        run_spec(s, key, randoms, steps).outcome != Ok::<StepOutcome, Chip8Error>(
            StepOutcome::Completed,
        ),
    ensures
        run_spec(s, key, randoms, more) == run_spec(s, key, randoms, steps),
    decreases more,
{
    if steps < more {
        lemma_run_stops(s, key, randoms, steps, (more - 1) as nat);
    }
}

/// A run is a function of the start state, the key held and the random
/// bytes it is given, and of nothing else: two runs of `steps` steps from
/// the same state, with the same key and with random bytes that agree on
/// the first `steps` positions, end in the same state with the same
/// outcome.
pub proof fn lemma_run_is_deterministic(
    s: MachineState,
    key: Option<u8>,
    randoms: Seq<u8>,
    others: Seq<u8>,
    steps: nat,
)
    requires
        forall|i: int| 0 <= i < steps ==> randoms[i] == others[i],
    ensures
        run_spec(s, key, randoms, steps) == run_spec(s, key, others, steps),
    decreases steps,
{
    if steps > 0 {
        lemma_run_is_deterministic(s, key, randoms, others, (steps - 1) as nat);
    }
}

} // verus!

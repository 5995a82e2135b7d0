//! The whole machine: one memory, one processor, one display and one
//! keyboard, with program loading and stepping.

#![allow(unused_imports)]

use vstd::prelude::*;
use crate::cpu::{machine_state, tick_spec, CPU};
use crate::display::Display;
use crate::error::Chip8Error;
use crate::keyboard::{valid_key, Keyboard};
use crate::laws::{lemma_run_is_deterministic, lemma_run_stops};
use crate::memory::Memory;
use crate::semantics::{
    completed,
    draws_random,
    initial_machine,
    load_spec,
    run_spec,
    step_spec,
    MachineState,
    StepOutcome,
    Transition,
    PROGRAM_START,
};

verus! {

/// Greatest length of a program image: what fits between `PROGRAM_START`
/// and the end of memory.
pub const MAX_ROM_SIZE: usize = 3584;

/// The machine: the composition of memory, processor, display and
/// keyboard.
pub struct Chip8 {
    memory: Memory,
    cpu: CPU,
    display: Display,
    keyboard: Keyboard,
}

impl Chip8 {
    /// The state of processor, memory and display.
    pub closed spec fn view(&self) -> MachineState {
        machine_state(&self.cpu, &self.memory, &self.display)
    }

    /// The key held down, if any.
    pub closed spec fn key(&self) -> Option<u8> {
        self.keyboard@
    }

    /// A machine at power-on with no key held down.
    pub fn new() -> (chip8: Chip8)
        ensures
            chip8@ == initial_machine(),
            chip8.key() == None::<u8>,
    {
        Chip8 {
            memory: Memory::new(),
            cpu: CPU::new(),
            display: Display::new(),
            keyboard: Keyboard::new(),
        }
    }

    /// Writes the program image `rom` into memory, byte `i` at address
    /// `PROGRAM_START + i`. The image must fit into memory.
    pub fn load_rom(&mut self, rom: Vec<u8>)
        requires
            rom@.len() <= MAX_ROM_SIZE,
        ensures
            final(self)@ == load_spec(old(self)@, rom@),
            final(self).key() == old(self).key(),
    {
        // The image fits, so the write cannot be rejected.
        let _ = self.memory.write_range(PROGRAM_START, rom.as_slice());
    }

    /// Records `key` as the key held down, or that none is.
    pub fn set_key_pressed(&mut self, key: Option<u8>)
        requires
            valid_key(key),
        ensures
            final(self).key() == key,
            final(self)@ == old(self)@,
    {
        self.keyboard.set_key_pressed(key);
    }

    /// Executes one instruction, using `random_byte` wherever the
    /// instruction calls for a random number.
    pub fn step_with(&mut self, random_byte: u8) -> (result: Result<StepOutcome, Chip8Error>)
        ensures
            step_spec(old(self)@, old(self).key(), random_byte) == (Transition {
                next: final(self)@,
                outcome: result,
            }),
            final(self).key() == old(self).key(),
    {
        self.cpu.execute_instruction_with(
            &mut self.memory,
            &mut self.display,
            &self.keyboard,
            random_byte,
        )
    }

    /// Executes one instruction, drawing the byte for a random instruction
    /// from the `rand` crate.
    pub fn step(&mut self) -> (result: Result<StepOutcome, Chip8Error>)
        ensures
            exists|random: u8| #[trigger]
                step_spec(old(self)@, old(self).key(), random) == (Transition {
                    next: final(self)@,
                    outcome: result,
                }),
            !draws_random(old(self)@.memory, old(self)@.cpu.pc) ==> step_spec(
                old(self)@,
                old(self).key(),
                0,
            ) == (Transition { next: final(self)@, outcome: result }),
            final(self).key() == old(self).key(),
    {
        let ghost before = self@;
        let ghost key = self.key();
        let result = self.cpu.execute_instruction(
            &mut self.memory,
            &mut self.display,
            &self.keyboard,
        );
        proof {
            let random = choose|random: u8| #[trigger]
                step_spec(before, key, random) == (Transition { next: self@, outcome: result });
            assert(step_spec(before, key, random) == (Transition {
                next: self@,
                outcome: result,
            }));
        }
        result
    }

    /// Runs one step for each byte of `randoms`, step `i` using
    /// `randoms[i]` as its random byte, and stops early at the first step
    /// that does not complete. The result is the outcome of the last step
    /// that was run, or `Completed` if none was.
    pub fn run_with(&mut self, randoms: &[u8]) -> (result: Result<StepOutcome, Chip8Error>)
        ensures
            run_spec(old(self)@, old(self).key(), randoms@, randoms@.len()) == (Transition {
                next: final(self)@,
                outcome: result,
            }),
            final(self).key() == old(self).key(),
    {
        let ghost start = self@;
        let ghost key = self.key();
        let mut i: usize = 0;
        while i < randoms.len()
            invariant
                i <= randoms@.len(),
                start == old(self)@,
                key == old(self).key(),
                self.key() == key,
                run_spec(start, key, randoms@, i as nat) == completed(self@),
            decreases randoms@.len() - i,
        {
            let result = self.step_with(randoms[i]);
            i += 1;
            match result {
                Ok(StepOutcome::Completed) => {},
                _ => {
                    proof {
                        lemma_run_stops(start, key, randoms@, i as nat, randoms@.len());
                    }
                    return result;
                },
            }
        }
        Ok(StepOutcome::Completed)
    }

    /// Runs up to `max_steps` steps, drawing random bytes from the `rand`
    /// crate, and stops early at the first step that does not complete.
    /// The result is the outcome of the last step that was run, or
    /// `Completed` if none was.
    pub fn run(&mut self, max_steps: usize) -> (result: Result<StepOutcome, Chip8Error>)
        ensures
            exists|randoms: Seq<u8>| #[trigger]
                run_spec(old(self)@, old(self).key(), randoms, max_steps as nat) == (Transition {
                    next: final(self)@,
                    outcome: result,
                }),
            final(self).key() == old(self).key(),
    {
        let ghost start = self@;
        let ghost key = self.key();
        let ghost mut randoms: Seq<u8> = Seq::empty();
        let mut i: usize = 0;
        while i < max_steps
            invariant
                i <= max_steps,
                start == old(self)@,
                key == old(self).key(),
                self.key() == key,
                randoms.len() == i,
                run_spec(start, key, randoms, i as nat) == completed(self@),
            decreases max_steps - i,
        {
            let ghost before = self@;
            let ghost earlier = randoms;
            let result = self.step();
            proof {
                let random = choose|random: u8| #[trigger]
                    step_spec(before, key, random) == (Transition { next: self@, outcome: result });
                randoms = earlier.push(random);
                lemma_run_is_deterministic(start, key, earlier, randoms, i as nat);
                assert(run_spec(start, key, randoms, (i + 1) as nat) == (Transition {
                    next: self@,
                    outcome: result,
                }));
            }
            i += 1;
            match result {
                Ok(StepOutcome::Completed) => {},
                _ => {
                    proof {
                        lemma_run_stops(start, key, randoms, i as nat, max_steps as nat);
                    }
                    return result;
                },
            }
        }
        Ok(StepOutcome::Completed)
    }

    /// Counts each timer that is not zero down by one.
    pub fn tick_timers(&mut self)
        ensures
            final(self)@ == (MachineState { cpu: tick_spec(old(self)@.cpu), ..old(self)@ }),
            final(self).key() == old(self).key(),
    {
        self.cpu.tick_timers();
    }

    /// The memory, for inspection.
    pub fn memory(&self) -> (memory: &Memory)
        ensures
            memory@ == self@.memory,
    {
        &self.memory
    }

    /// The processor, for inspection.
    pub fn cpu(&self) -> (cpu: &CPU)
        ensures
            cpu@ == self@.cpu,
    {
        &self.cpu
    }

    /// The display, for rendering.
    pub fn display(&self) -> (display: &Display)
        ensures
            display@ == self@.display,
    {
        &self.display
    }

    /// The keyboard, for inspection.
    pub fn keyboard(&self) -> (keyboard: &Keyboard)
        ensures
            keyboard@ == self.key(),
    {
        &self.keyboard
    }
}

} // verus!

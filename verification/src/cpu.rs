//! The processor: registers, program counter, call stack and timers, and
//! the fetch-decode-execute step.

#![allow(unused_imports)]

use vstd::prelude::*;
use vstd::slice::slice_subrange;
use crate::display::{Display, Grid};
use crate::error::Chip8Error;
use crate::instruction::{
    decode,
    AluOp,
    Instruction,
    MiscOp,
    FLAG_REGISTER,
    REGISTER_COUNT,
};
use crate::keyboard::Keyboard;
use crate::memory::{Memory, MEMORY_SIZE};
use crate::semantics::{
    alu_spec,
    bcd_digits,
    draw_spec,
    draws_random,
    execute_spec,
    fetch_spec,
    initial_cpu,
    load_registers,
    misc_spec,
    step_spec,
    CpuState,
    MachineState,
    StepOutcome,
    Transition,
    PROGRAM_START,
    STACK_DEPTH,
};

verus! {

/// Draws one byte from `rand::random`, which reads the thread-local
/// generator that `rand` seeds from the operating system. Nothing is
/// claimed about the byte. `rand` panics if the operating system cannot
/// seed the generator.
#[verifier::external_body]
fn random_byte() -> (byte: u8) {
    rand::random::<u8>()
}

/// The processor state. The call stack is a fixed array of `STACK_DEPTH`
/// slots, of which the first `depth` hold return addresses.
pub struct CPU {
    registers: [u8; REGISTER_COUNT],
    index_register: u16,
    program_counter: u16,
    delay_timer: u8,
    sound_timer: u8,
    stack: [u16; STACK_DEPTH],
    depth: usize,
}

/// The machine state made of a processor, a memory and a display.
pub open spec fn machine_state(cpu: &CPU, memory: &Memory, display: &Display) -> MachineState {
    MachineState { cpu: cpu@, memory: memory@, display: display@ }
}

/// Each timer that is not zero goes down by one.
pub open spec fn tick_spec(cpu: CpuState) -> CpuState {
    CpuState {
        delay_timer: if cpu.delay_timer > 0 {
            (cpu.delay_timer - 1) as u8
        } else {
            0
        },
        sound_timer: if cpu.sound_timer > 0 {
            (cpu.sound_timer - 1) as u8
        } else {
            0
        },
        ..cpu
    }
}

impl CPU {
    /// The call stack holds at most `STACK_DEPTH` return addresses.
    #[verifier::type_invariant]
    spec fn depth_is_bounded(self) -> bool {
        self.depth <= STACK_DEPTH
    }

    /// The registers, timers and call stack as a `CpuState`.
    pub closed spec fn view(&self) -> CpuState {
        CpuState {
            registers: self.registers@,
            index: self.index_register,
            pc: self.program_counter,
            delay_timer: self.delay_timer,
            sound_timer: self.sound_timer,
            stack: self.stack@.take(self.depth as int),
        }
    }

    /// A processor at power-on.
    pub fn new() -> (cpu: CPU)
        ensures
            cpu@ == initial_cpu(),
    {
        let cpu = CPU {
            registers: [0u8; REGISTER_COUNT],
            index_register: 0,
            program_counter: PROGRAM_START,
            delay_timer: 0,
            sound_timer: 0,
            stack: [0u16; STACK_DEPTH],
            depth: 0,
        };
        cpu
    }

    /// Reads the word at the program counter, high byte first.
    fn fetch(&self, memory: &Memory) -> (result: Result<u16, Chip8Error>)
        ensures
            result == fetch_spec(memory@, self@.pc),
    {
        let pc = self.program_counter;
        if pc >= (MEMORY_SIZE - 1) as u16 {
            return Err(Chip8Error::OutOfBoundsAccess);
        }
        let hi = match memory.read_from_address(pc) {
            Ok(byte) => byte,
            Err(error) => {
                return Err(error);
            },
        };
        let lo = match memory.read_from_address(pc + 1) {
            Ok(byte) => byte,
            Err(error) => {
                return Err(error);
            },
        };
        assert(((hi as u16) << 8) | (lo as u16) == (hi as u16) * 256 + (lo as u16))
            by (bit_vector);
        Ok(((hi as u16) << 8) | (lo as u16))
    }

    /// Pushes a return address.
    fn push_return(&mut self, addr: u16)
        requires
            old(self)@.stack.len() < STACK_DEPTH,
        ensures
            final(self)@ == (CpuState { stack: old(self)@.stack.push(addr), ..old(self)@ }),
    {
        proof {
            use_type_invariant(&*self);
        }
        self.stack[self.depth] = addr;
        self.depth = self.depth + 1;
    }

    /// Pops the most recent return address.
    fn pop_return(&mut self) -> (addr: u16)
        requires
            old(self)@.stack.len() > 0,
        ensures
            addr == old(self)@.stack.last(),
            final(self)@ == (CpuState { stack: old(self)@.stack.drop_last(), ..old(self)@ }),
    {
        proof {
            use_type_invariant(&*self);
        }
        self.depth = self.depth - 1;
        self.stack[self.depth]
    }

    /// The value of register `Vx`.
    pub fn register(&self, x: u8) -> (value: u8)
        requires
            x < REGISTER_COUNT,
        ensures
            value == self@.registers[x as int],
    {
        self.registers[x as usize]
    }

    /// The index register `I`.
    pub fn index_register(&self) -> (index: u16)
        ensures
            index == self@.index,
    {
        self.index_register
    }

    /// The program counter.
    pub fn program_counter(&self) -> (pc: u16)
        ensures
            pc == self@.pc,
    {
        self.program_counter
    }

    /// The delay timer.
    pub fn delay_timer(&self) -> (value: u8)
        ensures
            value == self@.delay_timer,
    {
        self.delay_timer
    }

    /// The sound timer. A tone is due for as long as it is not zero.
    pub fn sound_timer(&self) -> (value: u8)
        ensures
            value == self@.sound_timer,
    {
        self.sound_timer
    }

    /// Number of return addresses on the call stack.
    pub fn stack_depth(&self) -> (depth: usize)
        ensures
            depth == self@.stack.len(),
            depth <= STACK_DEPTH,
    {
        proof {
            use_type_invariant(self);
        }
        self.depth
    }

    /// Carries out a register-to-register operation.
    fn execute_alu(&mut self, op: AluOp, x: u8, y: u8)
        requires
            x < REGISTER_COUNT,
            y < REGISTER_COUNT,
        ensures
            final(self)@ == (CpuState {
                registers: alu_spec(old(self)@.registers, op, x, y),
                ..old(self)@
            }),
    {
        proof {
            use_type_invariant(&*self);
            reveal(alu_spec);
        }
        let vx = self.registers[x as usize];
        let vy = self.registers[y as usize];
        match op {
            AluOp::Assign => {
                self.registers[x as usize] = vy;
            },
            AluOp::Or => {
                self.registers[x as usize] = vx | vy;
            },
            AluOp::And => {
                self.registers[x as usize] = vx & vy;
            },
            AluOp::Xor => {
                self.registers[x as usize] = vx ^ vy;
            },
            AluOp::Add => {
                let carry: u8 = if vx as u16 + vy as u16 > 255 {
                    1
                } else {
                    0
                };
                self.registers[x as usize] = vx.wrapping_add(vy);
                self.registers[FLAG_REGISTER] = carry;
            },
            AluOp::Subtract => {
                let no_borrow: u8 = if vx >= vy {
                    1
                } else {
                    0
                };
                self.registers[x as usize] = vx.wrapping_sub(vy);
                self.registers[FLAG_REGISTER] = no_borrow;
            },
            AluOp::ShiftRight => {
                assert(vx & 1 == vx % 2 && vx >> 1 == vx / 2) by (bit_vector);
                self.registers[FLAG_REGISTER] = vx & 1;
                self.registers[x as usize] = vx >> 1;
            },
            AluOp::SubtractFrom => {
                let no_borrow: u8 = if vy >= vx {
                    1
                } else {
                    0
                };
                self.registers[x as usize] = vy.wrapping_sub(vx);
                self.registers[FLAG_REGISTER] = no_borrow;
            },
            AluOp::ShiftLeft => {
                assert(vx >> 7 == vx / 128 && vx << 1 == (vx * 2) % 256) by (bit_vector);
                self.registers[FLAG_REGISTER] = vx >> 7;
                self.registers[x as usize] = vx << 1;
            },
        }
    }

    /// Carries out a draw instruction fetched at the program counter.
    fn execute_draw(
        &mut self,
        x: u8,
        y: u8,
        rows: u8,
        memory: &Memory,
        display: &mut Display,
    ) -> (result: Result<StepOutcome, Chip8Error>)
        requires
            x < REGISTER_COUNT,
            y < REGISTER_COUNT,
            old(self)@.pc + 2 <= u16::MAX,
        ensures
            ({
                let t = draw_spec(machine_state(old(self), memory, old(display)), x, y, rows);
                &&& final(self)@ == t.next.cpu
                &&& memory@ == t.next.memory
                &&& final(display)@ == t.next.display
                &&& result == t.outcome
            }),
    {
        proof {
            use_type_invariant(&*self);
            reveal(draw_spec);
        }
        self.program_counter = self.program_counter + 2;
        let origin_x = self.registers[x as usize];
        let origin_y = self.registers[y as usize];
        match memory.read_range(self.index_register, rows as usize) {
            Ok(sprite) => {
                let hit = display.draw_sprite(
                    origin_x as usize,
                    origin_y as usize,
                    rows,
                    sprite.as_slice(),
                );
                self.registers[FLAG_REGISTER] = if hit {
                    1
                } else {
                    0
                };
                Ok(StepOutcome::Completed)
            },
            Err(error) => Err(error),
        }
    }

    /// Carries out an `Fx__` operation fetched at the program counter.
    fn execute_misc(
        &mut self,
        op: MiscOp,
        x: u8,
        memory: &mut Memory,
        keyboard: &Keyboard,
        Ghost(display): Ghost<Grid>,
    ) -> (result: Result<StepOutcome, Chip8Error>)
        requires
            x < REGISTER_COUNT,
            old(self)@.pc + 2 <= u16::MAX,
        ensures
            ({
                let t = misc_spec(
                    MachineState { cpu: old(self)@, memory: old(memory)@, display },
                    op,
                    x,
                    keyboard@,
                );
                &&& final(self)@ == t.next.cpu
                &&& final(memory)@ == t.next.memory
                &&& display == t.next.display
                &&& result == t.outcome
            }),
    {
        proof {
            use_type_invariant(&*self);
            reveal(misc_spec);
        }
        let vx = self.registers[x as usize];
        match op {
            MiscOp::ReadDelay => {
                self.program_counter = self.program_counter + 2;
                self.registers[x as usize] = self.delay_timer;
            },
            MiscOp::WaitForKey => {
                match keyboard.get_key_pressed() {
                    Some(key) => {
                        self.program_counter = self.program_counter + 2;
                        self.registers[x as usize] = key;
                    },
                    None => {
                        return Ok(StepOutcome::WaitingForKey);
                    },
                }
            },
            MiscOp::SetDelay => {
                self.program_counter = self.program_counter + 2;
                self.delay_timer = vx;
            },
            MiscOp::SetSound => {
                self.program_counter = self.program_counter + 2;
                self.sound_timer = vx;
            },
            MiscOp::AddToIndex => {
                self.program_counter = self.program_counter + 2;
                self.index_register = self.index_register.wrapping_add(vx as u16);
            },
            MiscOp::LoadGlyph => {
                self.program_counter = self.program_counter + 2;
                self.index_register = vx as u16 * 5;
            },
            MiscOp::StoreBcd => {
                self.program_counter = self.program_counter + 2;
                let digits: [u8; 3] = [vx / 100, (vx / 10) % 10, vx % 10];
                match memory.write_range(self.index_register, digits.as_slice()) {
                    Ok(()) => {},
                    Err(error) => {
                        return Err(error);
                    },
                }
            },
            MiscOp::StoreRegisters => {
                self.program_counter = self.program_counter + 2;
                let stored = slice_subrange(self.registers.as_slice(), 0, x as usize + 1);
                match memory.write_range(self.index_register, stored) {
                    Ok(()) => {},
                    Err(error) => {
                        return Err(error);
                    },
                }
            },
            MiscOp::LoadRegisters => {
                self.program_counter = self.program_counter + 2;
                match memory.read_range(self.index_register, x as usize + 1) {
                    Ok(loaded) => {
                        self.load_registers(&loaded);
                    },
                    Err(error) => {
                        return Err(error);
                    },
                }
            },
        }
        Ok(StepOutcome::Completed)
    }

    /// Copies `values` into the registers `V0`, `V1`, ...
    fn load_registers(&mut self, values: &Vec<u8>)
        requires
            values@.len() <= REGISTER_COUNT,
        ensures
            final(self)@ == (CpuState {
                registers: Seq::new(
                    REGISTER_COUNT as nat,
                    |k: int|
                        if k < values@.len() {
                            values@[k]
                        } else {
                            old(self)@.registers[k]
                        },
                ),
                ..old(self)@
            }),
    {
        let count = values.len();
        let mut k: usize = 0;
        while k < count
            invariant
                k <= count,
                count == values@.len(),
                count <= REGISTER_COUNT,
                self@ == (CpuState { registers: self@.registers, ..old(self)@ }),
                forall|j: int|
                    0 <= j < REGISTER_COUNT ==> self@.registers[j] == (if j < k {
                        values@[j]
                    } else {
                        old(self)@.registers[j]
                    }),
            decreases count - k,
        {
            proof {
                use_type_invariant(&*self);
            }
            self.registers[k] = values[k];
            k += 1;
        }
    }

    /// Carries out one decoded instruction that was fetched at the program
    /// counter.
    fn execute(
        &mut self,
        instruction: Instruction,
        memory: &mut Memory,
        display: &mut Display,
        keyboard: &Keyboard,
        random_byte: u8,
    ) -> (result: Result<StepOutcome, Chip8Error>)
        requires
            instruction.wf(),
            old(self)@.pc + 1 < MEMORY_SIZE,
        ensures
            ({
                let t = execute_spec(
                    machine_state(old(self), old(memory), old(display)),
                    instruction,
                    keyboard@,
                    random_byte,
                );
                &&& final(self)@ == t.next.cpu
                &&& final(memory)@ == t.next.memory
                &&& final(display)@ == t.next.display
                &&& result == t.outcome
            }),
    {
        proof {
            use_type_invariant(&*self);
        }
        let next: u16 = self.program_counter + 2;
        match instruction {
            Instruction::ClearScreen => {
                self.program_counter = next;
                display.clear();
            },
            Instruction::Return => {
                self.program_counter = next;
                if self.stack_depth() == 0 {
                    return Err(Chip8Error::StackUnderflow);
                }
                let addr = self.pop_return();
                proof {
                    use_type_invariant(&*self);
                }
                self.program_counter = addr;
            },
            Instruction::Jump { addr } => {
                self.program_counter = addr;
            },
            Instruction::Call { addr } => {
                self.program_counter = next;
                if self.stack_depth() >= STACK_DEPTH {
                    return Err(Chip8Error::StackOverflow);
                }
                self.push_return(next);
                proof {
                    use_type_invariant(&*self);
                }
                self.program_counter = addr;
            },
            Instruction::SkipIfEqual { x, value } => {
                self.program_counter = if self.registers[x as usize] == value {
                    next + 2
                } else {
                    next
                };
            },
            Instruction::SkipIfNotEqual { x, value } => {
                self.program_counter = if self.registers[x as usize] != value {
                    next + 2
                } else {
                    next
                };
            },
            Instruction::SkipIfRegistersEqual { x, y } => {
                self.program_counter = if self.registers[x as usize] == self.registers[y as usize] {
                    next + 2
                } else {
                    next
                };
            },
            Instruction::LoadImmediate { x, value } => {
                self.program_counter = next;
                self.registers[x as usize] = value;
            },
            Instruction::AddImmediate { x, value } => {
                self.program_counter = next;
                let vx = self.registers[x as usize];
                self.registers[x as usize] = vx.wrapping_add(value);
            },
            Instruction::Alu { op, x, y } => {
                self.program_counter = next;
                self.execute_alu(op, x, y);
            },
            Instruction::SkipIfRegistersNotEqual { x, y } => {
                self.program_counter = if self.registers[x as usize] != self.registers[y as usize] {
                    next + 2
                } else {
                    next
                };
            },
            Instruction::LoadIndex { addr } => {
                self.program_counter = next;
                self.index_register = addr;
            },
            Instruction::JumpOffset { addr } => {
                self.program_counter = addr + self.registers[0] as u16;
            },
            Instruction::Random { x, mask } => {
                self.program_counter = next;
                self.registers[x as usize] = random_byte & mask;
            },
            Instruction::Draw { x, y, rows } => {
                return self.execute_draw(x, y, rows, memory, display);
            },
            Instruction::SkipIfKey { x } => {
                self.program_counter = if keyboard.is_key_pressed(self.registers[x as usize]) {
                    next + 2
                } else {
                    next
                };
            },
            Instruction::SkipIfNotKey { x } => {
                self.program_counter = if !keyboard.is_key_pressed(self.registers[x as usize]) {
                    next + 2
                } else {
                    next
                };
            },
            Instruction::Misc { action, x } => {
                return self.execute_misc(action, x, memory, keyboard, Ghost(display@));
            },
        }
        Ok(StepOutcome::Completed)
    }

    /// Executes one instruction, using `random_byte` wherever the
    /// instruction calls for a random number.
    ///
    /// The word at the program counter is fetched, high byte first, and
    /// decoded; the program counter moves on by 2; the instruction is
    /// carried out. The state afterwards and the result are exactly those
    /// of `step_spec`. A step does not count the timers down: that is
    /// `tick_timers`, at a rate of the caller's choosing.
    pub fn execute_instruction_with(
        &mut self,
        memory: &mut Memory,
        display: &mut Display,
        keyboard: &Keyboard,
        random_byte: u8,
    ) -> (result: Result<StepOutcome, Chip8Error>)
        ensures
            ({
                let t = step_spec(
                    machine_state(old(self), old(memory), old(display)),
                    keyboard@,
                    random_byte,
                );
                &&& final(self)@ == t.next.cpu
                &&& final(memory)@ == t.next.memory
                &&& final(display)@ == t.next.display
                &&& result == t.outcome
            }),
    {
        reveal(step_spec);
        let opcode = match self.fetch(memory) {
            Ok(word) => word,
            Err(error) => {
                return Err(error);
            },
        };
        if opcode == 0 {
            return Err(Chip8Error::Halted);
        }
        match decode(opcode) {
            Some(instruction) => self.execute(instruction, memory, display, keyboard, random_byte),
            None => {
                proof {
                    use_type_invariant(&*self);
                }
                self.program_counter = self.program_counter + 2;
                Err(Chip8Error::UnknownOpcode(opcode))
            },
        }
    }

    /// Whether the next step will consume a random byte.
    fn next_draws_random(&self, memory: &Memory) -> (b: bool)
        ensures
            b == draws_random(memory@, self@.pc),
    {
        match self.fetch(memory) {
            Ok(opcode) => {
                assert(opcode >> 12 == opcode / 4096) by (bit_vector);
                opcode >> 12 == 0xC
            },
            Err(_) => false,
        }
    }

    /// Executes one instruction, drawing the byte for a random instruction
    /// from the `rand` crate.
    ///
    /// The generator is called only when the instruction at the program
    /// counter is a random instruction. The step is `step_spec` for some
    /// random byte; when the instruction is not a random instruction, it is
    /// `step_spec` for the byte 0, and for every other byte as well.
    pub fn execute_instruction(
        &mut self,
        memory: &mut Memory,
        display: &mut Display,
        keyboard: &Keyboard,
    ) -> (result: Result<StepOutcome, Chip8Error>)
        ensures
            exists|random: u8| #[trigger]
                step_spec(machine_state(old(self), old(memory), old(display)), keyboard@, random)
                    == (Transition {
                    next: machine_state(final(self), final(memory), final(display)),
                    outcome: result,
                }),
            !draws_random(old(memory)@, old(self)@.pc) ==> step_spec(
                machine_state(old(self), old(memory), old(display)),
                keyboard@,
                0,
            ) == (Transition {
                next: machine_state(final(self), final(memory), final(display)),
                outcome: result,
            }),
    {
        let ghost before = machine_state(self, memory, display);
        let random: u8 = if self.next_draws_random(memory) {
            random_byte()
        } else {
            0
        };
        let result = self.execute_instruction_with(memory, display, keyboard, random);
        assert(step_spec(before, keyboard@, random) == (Transition {
            next: machine_state(self, memory, display),
            outcome: result,
        }));
        result
    }

    /// Counts each timer that is not zero down by one. The caller decides
    /// how often; the usual rate is 60 times a second.
    pub fn tick_timers(&mut self)
        ensures
            final(self)@ == tick_spec(old(self)@),
    {
        proof {
            use_type_invariant(&*self);
        }
        if self.delay_timer > 0 {
            self.delay_timer = self.delay_timer - 1;
        }
        if self.sound_timer > 0 {
            self.sound_timer = self.sound_timer - 1;
        }
    }
}

} // verus!

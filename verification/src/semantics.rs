//! What one instruction step does, as a function on machine states.
//!
//! The processor in `cpu` is proved to compute exactly `step_spec`.
//! `step_spec`, `alu_spec`, `misc_spec` and `draw_spec` are opaque, to keep
//! their case analysis out of proofs that only pass them along; a proof
//! about a particular instruction reveals the ones it needs.

#![allow(unused_imports)]

use vstd::prelude::*;
use crate::display::{blank_grid, grid_wf, sprite_collides, xor_sprite, Grid};
use crate::error::Chip8Error;
use crate::instruction::{
    decode_spec,
    AluOp,
    Instruction,
    MiscOp,
    FLAG_REGISTER,
    REGISTER_COUNT,
};
use crate::memory::{range_in_bounds, read_bytes, write_bytes, MEMORY_SIZE};

verus! {

/// Address at which programs are loaded and at which execution starts.
pub const PROGRAM_START: u16 = 0x200;

/// Greatest number of return addresses the call stack holds.
pub const STACK_DEPTH: usize = 16;

/// How a step that raised no fault ended.
#[derive(Clone, Copy, Debug, PartialEq, Eq, Structural)]
pub enum StepOutcome {
    /// The instruction was carried out.
    Completed,
    /// The instruction waits for a key and none is held down. Nothing
    /// changed, and the program counter still points at the instruction, so
    /// the next step tries it again.
    WaitingForKey,
}

/// The processor's registers and call stack.
#[verifier::ext_equal]
pub struct CpuState {
    /// `V0 ..= VF`.
    pub registers: Seq<u8>,
    /// The index register `I`.
    pub index: u16,
    /// The program counter.
    pub pc: u16,
    /// The delay timer.
    pub delay_timer: u8,
    /// The sound timer.
    pub sound_timer: u8,
    /// Return addresses, the most recent call last.
    pub stack: Seq<u16>,
}

/// Everything an instruction can read or change, but for the keyboard.
#[verifier::ext_equal]
pub struct MachineState {
    pub cpu: CpuState,
    pub memory: Seq<u8>,
    pub display: Grid,
}

/// The state a step leaves behind, and how the step ended.
#[verifier::ext_equal]
pub struct Transition {
    pub next: MachineState,
    pub outcome: Result<StepOutcome, Chip8Error>,
}

/// The processor at power-on: everything zero, the stack empty, the program
/// counter at `PROGRAM_START`.
pub open spec fn initial_cpu() -> CpuState {
    CpuState {
        registers: Seq::new(REGISTER_COUNT as nat, |i: int| 0u8),
        index: 0,
        pc: PROGRAM_START,
        delay_timer: 0,
        sound_timer: 0,
        stack: Seq::empty(),
    }
}

/// There are `REGISTER_COUNT` registers and at most `STACK_DEPTH` return
/// addresses.
pub open spec fn cpu_wf(cpu: CpuState) -> bool {
    cpu.registers.len() == REGISTER_COUNT && cpu.stack.len() <= STACK_DEPTH
}

/// The processor, the memory and the display each have their proper shape.
pub open spec fn state_wf(s: MachineState) -> bool {
    cpu_wf(s.cpu) && s.memory.len() == MEMORY_SIZE && grid_wf(s.display)
}

/// `v` reduced modulo 256.
pub open spec fn wrap8(v: int) -> u8 {
    (v % 256) as u8
}

/// `v` reduced modulo 65536.
pub open spec fn wrap16(v: int) -> u16 {
    (v % 65536) as u16
}

/// 1 if `b` holds, else 0.
pub open spec fn flag(b: bool) -> u8 {
    if b {
        1
    } else {
        0
    }
}

/// The three decimal digits of `v`: hundreds, tens, ones.
pub open spec fn bcd_digits(v: u8) -> Seq<u8> {
    seq![v / 100, (v / 10) % 10, v % 10]
}

/// The word held by the two bytes of `memory` at `pc` and `pc + 1`, high
/// byte first, or the fault raised when one of the two lies outside
/// memory.
pub open spec fn fetch_spec(memory: Seq<u8>, pc: u16) -> Result<u16, Chip8Error> {
    if pc + 1 < MEMORY_SIZE {
        Ok((memory[pc as int] * 256 + memory[pc + 1]) as u16)
    } else {
        Err(Chip8Error::OutOfBoundsAccess)
    }
}

/// `s` with the program counter set to `pc`.
pub open spec fn at_pc(s: MachineState, pc: int) -> MachineState {
    MachineState { cpu: CpuState { pc: pc as u16, ..s.cpu }, ..s }
}

/// `s` with the register file replaced by `registers`.
pub open spec fn with_registers(s: MachineState, registers: Seq<u8>) -> MachineState {
    MachineState { cpu: CpuState { registers, ..s.cpu }, ..s }
}

/// `s` with register `x` set to `value`.
pub open spec fn with_register(s: MachineState, x: u8, value: u8) -> MachineState {
    with_registers(s, s.cpu.registers.update(x as int, value))
}

/// `s` with the index register set to `index`.
pub open spec fn with_index(s: MachineState, index: u16) -> MachineState {
    MachineState { cpu: CpuState { index, ..s.cpu }, ..s }
}

/// The step ends normally in state `s`.
pub open spec fn completed(s: MachineState) -> Transition {
    Transition { next: s, outcome: Ok(StepOutcome::Completed) }
}

/// The step ends with `error` in state `s`.
pub open spec fn faulted(s: MachineState, error: Chip8Error) -> Transition {
    Transition { next: s, outcome: Err(error) }
}

/// The step ends normally in `s`, jumping over the next instruction if
/// `skip` holds.
pub open spec fn skip_if(s: MachineState, skip: bool) -> Transition {
    completed(
        if skip {
            at_pc(s, s.cpu.pc + 2)
        } else {
            s
        },
    )
}

/// The register file after an instruction that writes its result to `Vx`
/// and then the flag to `VF`: if `x` is the flag register, the flag stays.
pub open spec fn result_then_flag(registers: Seq<u8>, x: u8, result: u8, f: u8) -> Seq<u8> {
    registers.update(x as int, result).update(FLAG_REGISTER as int, f)
}

/// The register file after an instruction that writes the flag to `VF` and
/// then its result to `Vx`: if `x` is the flag register, the result stays.
pub open spec fn flag_then_result(registers: Seq<u8>, x: u8, result: u8, f: u8) -> Seq<u8> {
    registers.update(FLAG_REGISTER as int, f).update(x as int, result)
}

/// The register file after the first `count` registers are loaded from
/// memory at `start`, `start + 1`, ...
pub open spec fn load_registers(
    registers: Seq<u8>,
    memory: Seq<u8>,
    start: int,
    count: int,
) -> Seq<u8> {
    Seq::new(
        registers.len(),
        |k: int|
            if k < count {
                memory[start + k]
            } else {
                registers[k]
            },
    )
}

/// The register file after the register-to-register operation `op` on
/// `Vx` and `Vy`.
///
/// `Add`, `Subtract` and `SubtractFrom` write the result and then the flag;
/// the shifts write the flag and then the result. The order shows when `x`
/// is the flag register: the value written last stays.
#[verifier::opaque]
pub open spec fn alu_spec(v: Seq<u8>, op: AluOp, x: u8, y: u8) -> Seq<u8> {
    let vx = v[x as int];
    let vy = v[y as int];
    match op {
        AluOp::Assign => v.update(x as int, vy),
        AluOp::Or => v.update(x as int, vx | vy),
        AluOp::And => v.update(x as int, vx & vy),
        AluOp::Xor => v.update(x as int, vx ^ vy),
        AluOp::Add => result_then_flag(v, x, wrap8(vx + vy), flag(vx + vy > 255)),
        AluOp::Subtract => result_then_flag(v, x, wrap8(vx - vy), flag(vx >= vy)),
        AluOp::ShiftRight => flag_then_result(v, x, vx / 2, vx % 2),
        AluOp::SubtractFrom => result_then_flag(v, x, wrap8(vy - vx), flag(vy >= vx)),
        AluOp::ShiftLeft => flag_then_result(v, x, wrap8(vx * 2), vx / 128),
    }
}

/// What the `Fx__` operation `op` on `Vx`, fetched at the program counter
/// of `s`, does to `s`.
#[verifier::opaque]
pub open spec fn misc_spec(s: MachineState, op: MiscOp, x: u8, key: Option<u8>) -> Transition {
    let a = at_pc(s, s.cpu.pc + 2);
    let vx = s.cpu.registers[x as int];
    let index = s.cpu.index as int;
    match op {
        MiscOp::ReadDelay => completed(with_register(a, x, s.cpu.delay_timer)),
        MiscOp::WaitForKey => match key {
            Some(k) => completed(with_register(a, x, k)),
            None => Transition { next: s, outcome: Ok(StepOutcome::WaitingForKey) },
        },
        MiscOp::SetDelay => completed(
            MachineState { cpu: CpuState { delay_timer: vx, ..a.cpu }, ..a },
        ),
        MiscOp::SetSound => completed(
            MachineState { cpu: CpuState { sound_timer: vx, ..a.cpu }, ..a },
        ),
        MiscOp::AddToIndex => completed(with_index(a, wrap16(index + vx))),
        MiscOp::LoadGlyph => completed(with_index(a, (5 * vx) as u16)),
        MiscOp::StoreBcd => if !range_in_bounds(index, 3) {
            faulted(a, Chip8Error::OutOfBoundsAccess)
        } else {
            completed(MachineState { memory: write_bytes(s.memory, index, bcd_digits(vx)), ..a })
        },
        MiscOp::StoreRegisters => if !range_in_bounds(index, x + 1) {
            faulted(a, Chip8Error::OutOfBoundsAccess)
        } else {
            completed(
                MachineState {
                    memory: write_bytes(s.memory, index, s.cpu.registers.take(x + 1)),
                    ..a
                },
            )
        },
        MiscOp::LoadRegisters => if !range_in_bounds(index, x + 1) {
            faulted(a, Chip8Error::OutOfBoundsAccess)
        } else {
            completed(with_registers(a, load_registers(s.cpu.registers, s.memory, index, x + 1)))
        },
    }
}

/// What drawing the `rows`-byte sprite found at `I` with its corner at
/// (`Vx`, `Vy`) does to `s`, the instruction being fetched at the program
/// counter of `s`.
#[verifier::opaque]
pub open spec fn draw_spec(s: MachineState, x: u8, y: u8, rows: u8) -> Transition {
    let a = at_pc(s, s.cpu.pc + 2);
    let index = s.cpu.index as int;
    let origin_x = s.cpu.registers[x as int] as int;
    let origin_y = s.cpu.registers[y as int] as int;
    if !range_in_bounds(index, rows as int) {
        faulted(a, Chip8Error::OutOfBoundsAccess)
    } else {
        let sprite = read_bytes(s.memory, index, rows as int);
        let hit = sprite_collides(s.display, origin_x, origin_y, sprite, rows as nat);
        completed(
            MachineState {
                display: xor_sprite(s.display, origin_x, origin_y, sprite, rows as nat),
                ..with_register(a, FLAG_REGISTER as u8, flag(hit))
            },
        )
    }
}

/// What `instruction`, fetched at the program counter of `s`, does to `s`.
///
/// `key` is the key held down and `random` the byte that a random
/// instruction uses. Unless the instruction sets the program counter
/// itself, the program counter moves on by 2. A fault leaves everything
/// but the program counter as it was.
pub open spec fn execute_spec(
    s: MachineState,
    instruction: Instruction,
    key: Option<u8>,
    random: u8,
) -> Transition {
    let a = at_pc(s, s.cpu.pc + 2);
    let v = s.cpu.registers;
    match instruction {
        Instruction::ClearScreen => completed(MachineState { display: blank_grid(), ..a }),
        Instruction::Return => if s.cpu.stack.len() == 0 {
            faulted(a, Chip8Error::StackUnderflow)
        } else {
            completed(
                MachineState {
                    cpu: CpuState {
                        pc: s.cpu.stack.last(),
                        stack: s.cpu.stack.drop_last(),
                        ..a.cpu
                    },
                    ..a
                },
            )
        },
        Instruction::Jump { addr } => completed(at_pc(a, addr as int)),
        Instruction::Call { addr } => if s.cpu.stack.len() >= STACK_DEPTH {
            faulted(a, Chip8Error::StackOverflow)
        } else {
            completed(
                MachineState {
                    cpu: CpuState { pc: addr, stack: s.cpu.stack.push(a.cpu.pc), ..a.cpu },
                    ..a
                },
            )
        },
        Instruction::SkipIfEqual { x, value } => skip_if(a, v[x as int] == value),
        Instruction::SkipIfNotEqual { x, value } => skip_if(a, v[x as int] != value),
        Instruction::SkipIfRegistersEqual { x, y } => skip_if(a, v[x as int] == v[y as int]),
        Instruction::LoadImmediate { x, value } => completed(with_register(a, x, value)),
        Instruction::AddImmediate { x, value } => completed(
            with_register(a, x, wrap8(v[x as int] + value)),
        ),
        Instruction::Alu { op, x, y } => completed(with_registers(a, alu_spec(v, op, x, y))),
        Instruction::SkipIfRegistersNotEqual { x, y } => skip_if(a, v[x as int] != v[y as int]),
        Instruction::LoadIndex { addr } => completed(with_index(a, addr)),
        Instruction::JumpOffset { addr } => completed(at_pc(a, addr + v[0])),
        Instruction::Random { x, mask } => completed(with_register(a, x, random & mask)),
        Instruction::Draw { x, y, rows } => draw_spec(s, x, y, rows),
        Instruction::SkipIfKey { x } => skip_if(a, key == Some(v[x as int])),
        Instruction::SkipIfNotKey { x } => skip_if(a, key != Some(v[x as int])),
        Instruction::Misc { action, x } => misc_spec(s, action, x, key),
    }
}

/// One step of the machine: fetch the word at the program counter, decode
/// it and carry it out.
///
/// A fetch outside memory and a zero word end the step with nothing
/// changed. A word that encodes no instruction ends it with the program
/// counter moved on by 2 and nothing else changed.
#[verifier::opaque]
pub open spec fn step_spec(s: MachineState, key: Option<u8>, random: u8) -> Transition {
    match fetch_spec(s.memory, s.cpu.pc) {
        Err(error) => faulted(s, error),
        Ok(opcode) => if opcode == 0 {
            faulted(s, Chip8Error::Halted)
        } else {
            match decode_spec(opcode) {
                None => faulted(at_pc(s, s.cpu.pc + 2), Chip8Error::UnknownOpcode(opcode)),
                Some(instruction) => execute_spec(s, instruction, key, random),
            }
        },
    }
}

/// The word at `pc` encodes a random instruction (`Cxnn`), the only
/// instruction that consumes a random byte.
pub open spec fn draws_random(memory: Seq<u8>, pc: u16) -> bool {
    fetch_spec(memory, pc) matches Ok(opcode) && decode_spec(opcode) matches Some(
        Instruction::Random { .. },
    )
}

/// The machine at power-on: the processor as in `initial_cpu`, memory all
/// zero, every pixel off.
pub open spec fn initial_machine() -> MachineState {
    MachineState {
        cpu: initial_cpu(),
        memory: Seq::new(MEMORY_SIZE as nat, |a: int| 0u8),
        display: blank_grid(),
    }
}

/// `s` with the program image `rom` written to memory from `PROGRAM_START`
/// on, byte `i` at address `PROGRAM_START + i`.
pub open spec fn load_spec(s: MachineState, rom: Seq<u8>) -> MachineState {
    MachineState { memory: write_bytes(s.memory, PROGRAM_START as int, rom), ..s }
}

/// Up to `steps` steps from `s` with the key `key` held throughout, step
/// `i` using `randoms[i]` as its random byte.
///
/// The run stops at the first step that does not complete, on a fault or
/// waiting for a key, and reports that step's state and outcome. If every
/// step completes it reports the last state and `Completed`.
pub open spec fn run_spec(
    s: MachineState,
    key: Option<u8>,
    randoms: Seq<u8>,
    steps: nat,
) -> Transition
    decreases steps,
{
    if steps == 0 {
        completed(s)
    } else {
        let earlier = run_spec(s, key, randoms, (steps - 1) as nat);
        if earlier.outcome == Ok::<StepOutcome, Chip8Error>(StepOutcome::Completed) {
            step_spec(earlier.next, key, randoms[steps - 1])
        } else {
            earlier
        }
    }
}

} // verus!

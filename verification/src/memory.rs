//! The machine's 4096 bytes of addressable memory.

use vstd::prelude::*;
use crate::error::Chip8Error;

verus! {

/// Number of addressable bytes; valid addresses are `0 .. MEMORY_SIZE`.
pub const MEMORY_SIZE: usize = 4096;

/// A fixed array of `MEMORY_SIZE` bytes, created zeroed and mutated in place.
///
/// Addresses at or beyond `MEMORY_SIZE` are rejected with
/// `Chip8Error::OutOfBoundsAccess`; they are never wrapped.
pub struct Memory {
    bytes: [u8; MEMORY_SIZE],
}

/// True when the `count` addresses starting at `start` all lie inside memory.
/// An empty range touches no address and is always inside.
pub open spec fn range_in_bounds(start: int, count: int) -> bool {
    count <= 0 || (0 <= start && start + count <= MEMORY_SIZE)
}

/// The `count` bytes of `memory` found at `start`, `start + 1`, ...
pub open spec fn read_bytes(memory: Seq<u8>, start: int, count: int) -> Seq<u8> {
    Seq::new(count as nat, |k: int| memory[start + k])
}

/// `memory` with `bytes` written at `start`, `start + 1`, ...
pub open spec fn write_bytes(memory: Seq<u8>, start: int, bytes: Seq<u8>) -> Seq<u8> {
    Seq::new(
        memory.len(),
        |a: int|
            if start <= a < start + bytes.len() {
                bytes[a - start]
            } else {
                memory[a]
            },
    )
}

impl Memory {
    /// The byte stored at address `a`.
    pub closed spec fn byte_at(&self, a: int) -> u8 {
        self.bytes[a]
    }

    /// The contents as a sequence of `MEMORY_SIZE` bytes indexed by address.
    pub open spec fn view(&self) -> Seq<u8> {
        Seq::new(MEMORY_SIZE as nat, |a: int| self.byte_at(a))
    }

    /// Fresh memory: every byte is zero.
    pub fn new() -> (memory: Memory)
        ensures
            memory@ == Seq::new(MEMORY_SIZE as nat, |a: int| 0u8),
    {
        Memory { bytes: [0u8; MEMORY_SIZE] }
    }

    /// Reads the byte at `address`.
    pub fn read_from_address(&self, address: u16) -> (result: Result<u8, Chip8Error>)
        ensures
            address < MEMORY_SIZE ==> result == Ok::<u8, Chip8Error>(self@[address as int]),
            address >= MEMORY_SIZE ==> result == Err::<u8, Chip8Error>(
                Chip8Error::OutOfBoundsAccess,
            ),
    {
        if (address as usize) < MEMORY_SIZE {
            Ok(self.bytes[address as usize])
        } else {
            Err(Chip8Error::OutOfBoundsAccess)
        }
    }

    /// Stores `value` at `address`; on a rejected address nothing changes.
    pub fn write_to_address(&mut self, address: u16, value: u8) -> (result: Result<
        (),
        Chip8Error,
    >)
        ensures
            address < MEMORY_SIZE ==> result == Ok::<(), Chip8Error>(()) && final(self)@ == old(
                self,
            )@.update(address as int, value),
            address >= MEMORY_SIZE ==> result == Err::<(), Chip8Error>(
                Chip8Error::OutOfBoundsAccess,
            ) && final(self)@ == old(self)@,
    {
        if (address as usize) < MEMORY_SIZE {
            self.bytes[address as usize] = value;
            Ok(())
        } else {
            Err(Chip8Error::OutOfBoundsAccess)
        }
    }

    /// Copies out the `count` bytes starting at `start`.
    pub fn read_range(&self, start: u16, count: usize) -> (result: Result<Vec<u8>, Chip8Error>)
        ensures
            range_in_bounds(start as int, count as int) ==> (result matches Ok(bytes) && bytes@
                == read_bytes(self@, start as int, count as int)),
            !range_in_bounds(start as int, count as int) ==> result == Err::<Vec<u8>, Chip8Error>(
                Chip8Error::OutOfBoundsAccess,
            ),
    {
        let mut out: Vec<u8> = Vec::new();
        if count == 0 {
            return Ok(out);
        }
        if count > MEMORY_SIZE || start as usize > MEMORY_SIZE - count {
            return Err(Chip8Error::OutOfBoundsAccess);
        }
        let base: usize = start as usize;
        let mut i: usize = 0;
        while i < count
            invariant
                i <= count,
                base + count <= MEMORY_SIZE,
                out@ == read_bytes(self@, base as int, i as int),
            decreases count - i,
        {
            out.push(self.bytes[base + i]);
            i += 1;
        }
        Ok(out)
    }

    /// Writes `bytes` at `start`, `start + 1`, ...; when the range does not
    /// fit, nothing is written.
    pub fn write_range(&mut self, start: u16, bytes: &[u8]) -> (result: Result<(), Chip8Error>)
        ensures
            range_in_bounds(start as int, bytes@.len() as int) ==> result == Ok::<(), Chip8Error>(
                (),
            ) && final(self)@ == write_bytes(old(self)@, start as int, bytes@),
            !range_in_bounds(start as int, bytes@.len() as int) ==> result == Err::<(), Chip8Error>(
                Chip8Error::OutOfBoundsAccess,
            ) && final(self)@ == old(self)@,
    {
        let count: usize = bytes.len();
        if count == 0 {
            return Ok(());
        }
        if count > MEMORY_SIZE || start as usize > MEMORY_SIZE - count {
            return Err(Chip8Error::OutOfBoundsAccess);
        }
        let base: usize = start as usize;
        let mut i: usize = 0;
        while i < count
            invariant
                i <= count,
                count == bytes@.len(),
                base + count <= MEMORY_SIZE,
                self@ == write_bytes(old(self)@, base as int, bytes@.take(i as int)),
            decreases count - i,
        {
            let ghost before = self@;
            self.bytes[base + i] = bytes[i];
            assert(self@ =~= before.update(base + i, bytes@[i as int]));
            i += 1;
        }
        Ok(())
    }
}

} // verus!

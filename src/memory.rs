use vstd::prelude::*;

use crate::error::Chip8Error;

verus! {

/// Number of addressable bytes.
pub const MEMORY_SIZE: usize = 4096;

/// Number of return-address slots in the call stack.
pub const STACK_SIZE: usize = 16;

/// Address at which a program image is placed.
pub const GAME_DATA_OFFSET: usize = 512;

/// Largest program image that fits between the program region's start and
/// the end of memory.
pub const MAX_ROM_SIZE: usize = 3584;

/// Stack pointer value that marks an empty call stack.
pub const EMPTY_STACK: usize = usize::MAX;

/// Number of bytes of the built-in glyph font.
pub const FONT_SIZE: usize = 80;

/// The built-in font: sixteen glyphs (0 to F), five rows of one byte each.
pub open spec fn font_spec() -> Seq<u8> {
    seq![
        0xF0u8, 0x90, 0x90, 0x90, 0xF0, 0x20, 0x60, 0x20, 0x20, 0x70,
        0xF0, 0x10, 0xF0, 0x80, 0xF0, 0xF0, 0x10, 0xF0, 0x10, 0xF0,
        0x90, 0x90, 0xF0, 0x10, 0x10, 0xF0, 0x80, 0xF0, 0x10, 0xF0,
        0xF0, 0x80, 0xF0, 0x90, 0xF0, 0xF0, 0x10, 0x20, 0x40, 0x40,
        0xF0, 0x90, 0xF0, 0x90, 0xF0, 0xF0, 0x90, 0xF0, 0x10, 0xF0,
        0xF0, 0x90, 0xF0, 0x90, 0x90, 0xE0, 0x90, 0xE0, 0x90, 0xE0,
        0xF0, 0x80, 0x80, 0x80, 0xF0, 0xE0, 0x90, 0x90, 0x90, 0xE0,
        0xF0, 0x80, 0xF0, 0x80, 0xF0, 0xF0, 0x80, 0xF0, 0x80, 0x80,
    ]
}

/// The built-in font as executable data.
pub fn font_data() -> (r: [u8; 80])
    ensures
        r@ == font_spec(),
{
    let r: [u8; 80] = [
        0xF0, 0x90, 0x90, 0x90, 0xF0, 0x20, 0x60, 0x20, 0x20, 0x70,
        0xF0, 0x10, 0xF0, 0x80, 0xF0, 0xF0, 0x10, 0xF0, 0x10, 0xF0,
        0x90, 0x90, 0xF0, 0x10, 0x10, 0xF0, 0x80, 0xF0, 0x10, 0xF0,
        0xF0, 0x80, 0xF0, 0x90, 0xF0, 0xF0, 0x10, 0x20, 0x40, 0x40,
        0xF0, 0x90, 0xF0, 0x90, 0xF0, 0xF0, 0x90, 0xF0, 0x10, 0xF0,
        0xF0, 0x90, 0xF0, 0x90, 0x90, 0xE0, 0x90, 0xE0, 0x90, 0xE0,
        0xF0, 0x80, 0x80, 0x80, 0xF0, 0xE0, 0x90, 0x90, 0x90, 0xE0,
        0xF0, 0x80, 0xF0, 0x80, 0xF0, 0xF0, 0x80, 0xF0, 0x80, 0x80,
    ];
    assert(r@ =~= font_spec());
    r
}

/// Addressable memory and the call stack of return addresses.
#[derive(Debug, Clone, Copy)]
pub struct Memory {
    /// The 4096 addressable bytes.
    pub memory: [u8; 4096],
    /// Return-address slots, bottom of the stack first.
    pub stack: [u16; 16],
    /// Index of the top slot in use, or `EMPTY_STACK`.
    pub sp: usize,
}

impl Memory {
    /// The stack pointer is the sentinel or names a slot.
    pub open spec fn wf(&self) -> bool {
        self.sp == EMPTY_STACK || self.sp < STACK_SIZE
    }

    /// Number of return addresses on the stack.
    pub open spec fn depth(&self) -> nat {
        if self.sp == EMPTY_STACK {
            0
        } else {
            (self.sp + 1) as nat
        }
    }

    /// The return addresses on the stack, bottom first.
    pub open spec fn stack_view(&self) -> Seq<u16> {
        self.stack@.subrange(0, self.depth() as int)
    }

    /// Fresh memory: the font at address 0, every other byte zero, and an
    /// empty stack.
    pub fn new() -> (r: Self)
        ensures
            r.wf(),
            r.sp == EMPTY_STACK,
            r.depth() == 0,
            r.stack@ == Seq::new(STACK_SIZE as nat, |k: int| 0u16),
            r.stack_view() == Seq::<u16>::empty(),
            r.memory@.subrange(0, FONT_SIZE as int) == font_spec(),
            forall|a: int| FONT_SIZE <= a < MEMORY_SIZE ==> r.memory@[a] == 0,
    {
        let font = font_data();
        let mut memory: [u8; 4096] = [0u8; 4096];
        let mut k: usize = 0;
        while k < FONT_SIZE
            invariant
                k <= FONT_SIZE,
                font@ == font_spec(),
                memory@.len() == MEMORY_SIZE,
                forall|a: int| 0 <= a < k ==> memory@[a] == font@[a],
                forall|a: int| FONT_SIZE <= a < MEMORY_SIZE ==> memory@[a] == 0,
            decreases FONT_SIZE - k,
        {
            memory[k] = font[k];
            k = k + 1;
        }
        let r = Memory { memory, stack: [0u16; 16], sp: EMPTY_STACK };
        assert(r.memory@.subrange(0, FONT_SIZE as int) =~= font_spec());
        assert(r.stack_view() =~= Seq::<u16>::empty());
        assert(r.stack@ =~= Seq::new(STACK_SIZE as nat, |k: int| 0u16));
        r
    }
    /// The byte at `offset`.
    pub fn read(self, offset: usize) -> (r: Result<u8, Chip8Error>)
        ensures
            offset < MEMORY_SIZE ==> r == Ok::<u8, Chip8Error>(self.memory@[offset as int]),
            offset >= MEMORY_SIZE ==> r == Err::<u8, Chip8Error>(Chip8Error::AddressOutOfBounds),
    {
        if offset < MEMORY_SIZE {
            Ok(self.memory[offset])
        } else {
            Err(Chip8Error::AddressOutOfBounds)
        }
    }

    /// Stores `data` at `offset`; memory is left as it was when the
    /// address is out of range.
    pub fn write(&mut self, offset: usize, data: u8) -> (r: Result<(), Chip8Error>)
        ensures
            offset < MEMORY_SIZE ==> r is Ok && final(self).memory@ == old(self).memory@.update(
                offset as int,
                data,
            ),
            offset >= MEMORY_SIZE ==> r == Err::<(), Chip8Error>(Chip8Error::AddressOutOfBounds)
                && final(self).memory == old(self).memory,
            final(self).stack == old(self).stack,
            final(self).sp == old(self).sp,
    {
        if offset < MEMORY_SIZE {
            self.memory[offset] = data;
            Ok(())
        } else {
            Err(Chip8Error::AddressOutOfBounds)
        }
    }

    /// Removes and returns the top return address.
    pub fn pop(&mut self) -> (r: Result<u16, Chip8Error>)
        requires
            old(self).wf(),
        ensures
            final(self).wf(),
            final(self).memory == old(self).memory,
            final(self).stack == old(self).stack,
            old(self).depth() == 0 ==> r == Err::<u16, Chip8Error>(Chip8Error::StackUnderflow)
                && *final(self) == *old(self),
            old(self).depth() > 0 ==> r == Ok::<u16, Chip8Error>(old(self).stack_view().last())
                && final(self).stack_view() == old(self).stack_view().drop_last()
                && final(self).depth() == old(self).depth() - 1,
    {
        if self.sp == EMPTY_STACK {
            return Err(Chip8Error::StackUnderflow);
        }
        let data = self.stack[self.sp];
        if self.sp == 0 {
            self.sp = EMPTY_STACK;
        } else {
            self.sp = self.sp - 1;
        }
        assert(self.stack_view() =~= old(self).stack_view().drop_last());
        Ok(data)
    }

    /// Pushes a return address.
    pub fn push(&mut self, val: u16) -> (r: Result<(), Chip8Error>)
        requires
            old(self).wf(),
        ensures
            final(self).wf(),
            final(self).memory == old(self).memory,
            old(self).depth() >= STACK_SIZE ==> r == Err::<(), Chip8Error>(
                Chip8Error::StackOverflow,
            ) && *final(self) == *old(self),
            old(self).depth() < STACK_SIZE ==> r is Ok && final(self).stack_view()
                == old(self).stack_view().push(val) && final(self).depth() == old(self).depth() + 1,
    {
        if self.sp == STACK_SIZE - 1 {
            return Err(Chip8Error::StackOverflow);
        }
        let next: usize = if self.sp == EMPTY_STACK {
            0
        } else {
            self.sp + 1
        };
        self.stack[next] = val;
        self.sp = next;
        assert(self.stack_view() =~= old(self).stack_view().push(val));
        Ok(())
    }

    /// The big-endian 16-bit word made of the bytes at `offset` and
    /// `offset + 1`.
    pub fn read_inst(self, offset: usize) -> (r: Result<u16, Chip8Error>)
        ensures
            offset + 1 < MEMORY_SIZE ==> r == Ok::<u16, Chip8Error>(
                word_at(self.memory@, offset as int),
            ),
            offset + 1 >= MEMORY_SIZE ==> r == Err::<u16, Chip8Error>(
                Chip8Error::AddressOutOfBounds,
            ),
    {
        if offset >= MEMORY_SIZE - 1 {
            return Err(Chip8Error::AddressOutOfBounds);
        }
        let hi = self.memory[offset] as u16;
        let lo = self.memory[offset + 1] as u16;
        assert(hi * 256 + lo <= 0xffff) by (nonlinear_arith)
            requires
                hi <= 255,
                lo <= 255,
        ;
        Ok(hi * 256 + lo)
    }

    /// Copies a program image to the program region; memory is left as it
    /// was when the image does not fit.
    pub fn load(&mut self, data: &[u8]) -> (r: Result<(), Chip8Error>)
        ensures
            final(self).stack == old(self).stack,
            final(self).sp == old(self).sp,
            data@.len() > MAX_ROM_SIZE ==> r == Err::<(), Chip8Error>(Chip8Error::RomTooLarge)
                && final(self).memory == old(self).memory,
            data@.len() <= MAX_ROM_SIZE ==> r is Ok && final(self).memory@ == loaded(
                old(self).memory@,
                data@,
            ),
    {
        if data.len() > MAX_ROM_SIZE {
            return Err(Chip8Error::RomTooLarge);
        }
        let mut k: usize = 0;
        while k < data.len()
            invariant
                data@.len() <= MAX_ROM_SIZE,
                k <= data@.len(),
                self.stack == old(self).stack,
                self.sp == old(self).sp,
                self.memory@.len() == MEMORY_SIZE,
                forall|a: int|
                    0 <= a < MEMORY_SIZE ==> #[trigger] self.memory@[a] == if GAME_DATA_OFFSET
                        <= a < GAME_DATA_OFFSET + k {
                        data@[a - GAME_DATA_OFFSET]
                    } else {
                        old(self).memory@[a]
                    },
            decreases data@.len() - k,
        {
            self.memory[GAME_DATA_OFFSET + k] = data[k];
            k = k + 1;
        }
        assert(self.memory@ =~= loaded(old(self).memory@, data@));
        Ok(())
    }
}

/// The big-endian word made of the bytes at `a` and `a + 1`.
pub open spec fn word_at(mem: Seq<u8>, a: int) -> u16 {
    (mem[a] as int * 256 + mem[a + 1] as int) as u16
}

/// Memory after a program image is placed at the start of the program
/// region.
pub open spec fn loaded(mem: Seq<u8>, data: Seq<u8>) -> Seq<u8> {
    Seq::new(
        mem.len(),
        |a: int|
            if GAME_DATA_OFFSET <= a < GAME_DATA_OFFSET + data.len() {
                data[a - GAME_DATA_OFFSET]
            } else {
                mem[a]
            },
    )
}

/// Loading an image and then fetching the word at the program region's
/// start yields the image's first two bytes, high byte first.
pub proof fn lemma_load_then_fetch(mem: Seq<u8>, data: Seq<u8>)
    requires
        mem.len() == MEMORY_SIZE,
        2 <= data.len() <= MAX_ROM_SIZE,
    ensures
        word_at(loaded(mem, data), GAME_DATA_OFFSET as int) == (data[0] as int * 256
            + data[1] as int) as u16,
{
}

/// A pop right after a push gives back the pushed address and leaves the
/// stack as it was before the push; the push itself succeeds whenever
/// fewer than sixteen addresses are on the stack.
pub proof fn lemma_push_then_pop(before: Memory, after: Memory, val: u16)
    requires
        before.wf(),
        after.wf(),
        before.depth() < STACK_SIZE,
        after.stack_view() == before.stack_view().push(val),
    ensures
        after.depth() > 0,
        after.stack_view().last() == val,
        after.stack_view().drop_last() == before.stack_view(),
{
    assert(after.stack_view().drop_last() =~= before.stack_view());
}

} // verus!

use vstd::prelude::*;

use crate::error::Chip8Error;

verus! {

/// Size of the addressable memory in bytes.
pub const MEMORY_SIZE: usize = 4096;

/// Address at which a program image is loaded and execution begins.
pub const PROGRAM_START: usize = 0x200;

/// Largest program image that fits between `PROGRAM_START` and the end of memory.
pub const MAX_PROGRAM_SIZE: usize = 3584;

/// Number of bytes in the built-in font: sixteen glyphs of five bytes each.
pub const FONT_SIZE: usize = 80;

/// The built-in hexadecimal font, glyph `d` at bytes `5 * d .. 5 * d + 5`.
pub open spec fn font() -> Seq<u8> {
    seq![
        0xF0u8, 0x90, 0x90, 0x90, 0xF0, // 0
        0x20, 0x60, 0x20, 0x20, 0x70, // 1
        0xF0, 0x10, 0xF0, 0x80, 0xF0, // 2
        0xF0, 0x10, 0xF0, 0x10, 0xF0, // 3
        0x90, 0x90, 0xF0, 0x10, 0x10, // 4
        0xF0, 0x80, 0xF0, 0x10, 0xF0, // 5
        0xF0, 0x80, 0xF0, 0x90, 0xF0, // 6
        0xF0, 0x10, 0x20, 0x40, 0x40, // 7
        0xF0, 0x90, 0xF0, 0x90, 0xF0, // 8
        0xF0, 0x90, 0xF0, 0x10, 0xF0, // 9
        0xF0, 0x90, 0xF0, 0x90, 0x90, // A
        0xE0, 0x90, 0xE0, 0x90, 0xE0, // B
        0xF0, 0x80, 0x80, 0x80, 0xF0, // C
        0xE0, 0x90, 0x90, 0x90, 0xE0, // D
        0xF0, 0x80, 0xF0, 0x80, 0xF0, // E
        0xF0, 0x80, 0xF0, 0x80, 0x80, // F
    ]
}

/// The font table as an executable value.
fn font_table() -> (r: [u8; 80])
    ensures
        r@ == font(),
{
    let r: [u8; 80] = [
        0xF0, 0x90, 0x90, 0x90, 0xF0, 0x20, 0x60, 0x20, 0x20, 0x70,
        0xF0, 0x10, 0xF0, 0x80, 0xF0, 0xF0, 0x10, 0xF0, 0x10, 0xF0,
        0x90, 0x90, 0xF0, 0x10, 0x10, 0xF0, 0x80, 0xF0, 0x10, 0xF0,
        0xF0, 0x80, 0xF0, 0x90, 0xF0, 0xF0, 0x10, 0x20, 0x40, 0x40,
        0xF0, 0x90, 0xF0, 0x90, 0xF0, 0xF0, 0x90, 0xF0, 0x10, 0xF0,
        0xF0, 0x90, 0xF0, 0x90, 0x90, 0xE0, 0x90, 0xE0, 0x90, 0xE0,
        0xF0, 0x80, 0x80, 0x80, 0xF0, 0xE0, 0x90, 0x90, 0x90, 0xE0,
        0xF0, 0x80, 0xF0, 0x80, 0xF0, 0xF0, 0x80, 0xF0, 0x80, 0x80,
    ];
    assert(r@ =~= font());
    r
}

/// The first address outside memory touched by an access at `start` that
/// runs past the end of memory.
pub open spec fn first_bad_address(start: int) -> usize {
    if start >= MEMORY_SIZE { start as usize } else { MEMORY_SIZE }
}

/// The 4096 bytes of machine memory.
pub struct Memory {
    ram: [u8; 4096],
}

impl View for Memory {
    type V = Seq<u8>;

    closed spec fn view(&self) -> Seq<u8> {
        self.ram@
    }
}

impl Memory {
    /// Memory of the right size always.
    pub proof fn lemma_len(&self)
        ensures
            self@.len() == MEMORY_SIZE,
    {
    }

    /// Memory with every byte zero.
    pub fn new() -> (r: Memory)
        ensures
            r@ == Seq::new(MEMORY_SIZE as nat, |i: int| 0u8),
    {
        let r = Memory { ram: [0; 4096] };
        assert(r@ =~= Seq::new(MEMORY_SIZE as nat, |i: int| 0u8));
        r
    }

    /// Writes the built-in font at the start of memory; every other byte is kept.
    pub fn initialize(&mut self)
        ensures
            final(self)@ == font() + old(self)@.subrange(FONT_SIZE as int, MEMORY_SIZE as int),
    {
        let table = font_table();
        let mut i: usize = 0;
        while i < FONT_SIZE
            invariant
                i <= FONT_SIZE,
                table@ == font(),
                self@.len() == MEMORY_SIZE,
                forall|k: int| 0 <= k < i ==> self@[k] == font()[k],
                forall|k: int| i <= k < MEMORY_SIZE ==> self@[k] == old(self)@[k],
            decreases FONT_SIZE - i,
        {
            self.ram[i] = table[i];
            i = i + 1;
        }
        assert(self@ =~= font() + old(self)@.subrange(FONT_SIZE as int, MEMORY_SIZE as int));
    }

    /// Copies a program image to `PROGRAM_START`. An image longer than
    /// `MAX_PROGRAM_SIZE` is refused and memory is left as it was.
    pub fn load_rom(&mut self, rom: &[u8]) -> (r: Result<(), Chip8Error>)
        ensures
            rom@.len() > MAX_PROGRAM_SIZE ==> r == Err::<(), Chip8Error>(
                Chip8Error::LoadError { size: rom@.len() as usize },
            ) && final(self)@ == old(self)@,
            rom@.len() <= MAX_PROGRAM_SIZE ==> r is Ok && final(self)@ == old(self)@.subrange(
                0,
                PROGRAM_START as int,
            ) + rom@ + old(self)@.subrange(PROGRAM_START + rom@.len(), MEMORY_SIZE as int),
    {
        if rom.len() > MAX_PROGRAM_SIZE {
            return Err(Chip8Error::LoadError { size: rom.len() });
        }
        self.write_range(PROGRAM_START, rom);
        Ok(())
    }

    /// Copies `data` to addresses `start ..` and keeps every other byte.
    pub fn write_range(&mut self, start: usize, data: &[u8])
        requires
            start + data@.len() <= MEMORY_SIZE,
        ensures
            final(self)@ == old(self)@.subrange(0, start as int) + data@ + old(self)@.subrange(
                start + data@.len(),
                MEMORY_SIZE as int,
            ),
    {
        let mut i: usize = 0;
        while i < data.len()
            invariant
                start + data@.len() <= MEMORY_SIZE,
                i <= data@.len(),
                self@.len() == MEMORY_SIZE,
                forall|k: int| 0 <= k < start ==> self@[k] == old(self)@[k],
                forall|k: int| 0 <= k < i ==> self@[start + k] == data@[k],
                forall|k: int| start + i <= k < MEMORY_SIZE ==> self@[k] == old(self)@[k],
            decreases data@.len() - i,
        {
            self.ram[start + i] = data[i];
            i = i + 1;
        }
        assert(self@ =~= old(self)@.subrange(0, start as int) + data@ + old(self)@.subrange(
            start + data@.len(),
            MEMORY_SIZE as int,
        ));
    }

    /// The `len` bytes at addresses `start ..`.
    pub fn read_range(&self, start: usize, len: usize) -> (r: Vec<u8>)
        requires
            start + len <= MEMORY_SIZE,
        ensures
            r@ == self@.subrange(start as int, start + len),
    {
        let mut r: Vec<u8> = Vec::new();
        let mut i: usize = 0;
        while i < len
            invariant
                start + len <= MEMORY_SIZE,
                i <= len,
                r@ == self@.subrange(start as int, start + i),
            decreases len - i,
        {
            r.push(self.ram[start + i]);
            i = i + 1;
            assert(r@ =~= self@.subrange(start as int, start + i));
        }
        r
    }

    /// The byte at address `i`, or `OutOfBounds` past the end of memory.
    pub fn get_from_index(&self, i: usize) -> (r: Result<u8, Chip8Error>)
        ensures
            i < MEMORY_SIZE ==> r == Ok::<u8, Chip8Error>(self@[i as int]),
            i >= MEMORY_SIZE ==> r == Err::<u8, Chip8Error>(Chip8Error::OutOfBounds { index: i }),
    {
        if i < MEMORY_SIZE {
            Ok(self.ram[i])
        } else {
            Err(Chip8Error::OutOfBounds { index: i })
        }
    }

    /// Writes `data` at address `i`, or returns `OutOfBounds` past the end of
    /// memory, which is then left as it was.
    pub fn set_from_index(&mut self, i: usize, data: u8) -> (r: Result<(), Chip8Error>)
        ensures
            i < MEMORY_SIZE ==> r is Ok && final(self)@ == old(self)@.update(i as int, data),
            i >= MEMORY_SIZE ==> r == Err::<(), Chip8Error>(Chip8Error::OutOfBounds { index: i })
                && final(self)@ == old(self)@,
    {
        if i < MEMORY_SIZE {
            self.ram[i] = data;
            Ok(())
        } else {
            Err(Chip8Error::OutOfBounds { index: i })
        }
    }
}

} // verus!

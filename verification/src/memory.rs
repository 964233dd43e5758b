//! The 4096-byte address space and the built-in hexadecimal sprite font.

use vstd::prelude::*;

use crate::error::Chip8Error;

verus! {

/// Number of bytes in the address space.
pub const MEM_SIZE: usize = 4096;

/// First address at which program bytes are loaded; everything below is
/// reserved for interpreter data (the font in particular).
pub const PROGRAM_START: usize = 0x200;

/// Largest program image that fits between `PROGRAM_START` and the end of
/// memory.
pub const MAX_PROGRAM_LEN: usize = MEM_SIZE - PROGRAM_START;

/// First address of the built-in font.
pub const FONT_START: usize = 0x50;

/// Total size of the font: 16 glyphs of 5 bytes each.
pub const FONT_LEN: usize = 80;

/// The canonical CHIP-8 font: one 5-byte glyph per hexadecimal digit,
/// each row using the high 4 bits of its byte. Draw opcodes locate glyph
/// `d` at `FONT_START + 5 * d`, so these exact patterns are part of the
/// machine's observable behaviour.
pub open spec fn font_seq() -> Seq<u8> {
    seq![
        0xF0u8, 0x90, 0x90, 0x90, 0xF0, // 0
        0x20, 0x60, 0x20, 0x20, 0x70, // 1
        0xF0, 0x10, 0xF0, 0x80, 0xF0, // 2
        0xF0, 0x10, 0xF0, 0x10, 0xF0, // 3
        0x90, 0x90, 0xF0, 0x10, 0x10, // 4
        0xF0, 0x80, 0xF0, 0x10, 0xF0, // 5
        0xF0, 0x80, 0xF0, 0x90, 0xF0, // 6
        0xF0, 0x10, 0x20, 0x40, 0x40, // 7
        0xF0, 0x90, 0xF0, 0x90, 0xF0, // 8
        0xF0, 0x90, 0xF0, 0x10, 0xF0, // 9
        0xF0, 0x90, 0xF0, 0x90, 0x90, // A
        0xE0, 0x90, 0xE0, 0x90, 0xE0, // B
        0xF0, 0x80, 0x80, 0x80, 0xF0, // C
        0xE0, 0x90, 0x90, 0x90, 0xE0, // D
        0xF0, 0x80, 0xF0, 0x80, 0xF0, // E
        0xF0, 0x80, 0xF0, 0x80, 0x80, // F
    ]
}

/// The memory contents of a freshly constructed machine: the font at
/// `FONT_START`, zero everywhere else.
pub open spec fn mem_initial() -> Seq<u8> {
    Seq::new(
        MEM_SIZE as nat,
        |a: int|
            if FONT_START <= a < FONT_START + FONT_LEN {
                font_seq()[a - FONT_START]
            } else {
                0u8
            },
    )
}

/// The memory contents after loading a program image: `prog` copied in at
/// `PROGRAM_START`, every other byte as before.
pub open spec fn mem_loaded(mem: Seq<u8>, prog: Seq<u8>) -> Seq<u8> {
    Seq::new(
        MEM_SIZE as nat,
        |a: int|
            if PROGRAM_START <= a < PROGRAM_START + prog.len() {
                prog[a - PROGRAM_START]
            } else {
                mem[a]
            },
    )
}

/// The flat 4096-byte address space. Addresses 0x000..0x200 are reserved
/// for interpreter data; program bytes load at 0x200.
pub struct Memory {
    pub data: Vec<u8>,
}

impl View for Memory {
    type V = Seq<u8>;

    open spec fn view(&self) -> Seq<u8> {
        self.data@
    }
}

impl Memory {
    /// The address space never changes size.
    pub open spec fn wf(&self) -> bool {
        self@.len() == MEM_SIZE
    }

    /// Builds the address space of a fresh machine: all zero except for
    /// the font, written once at construction time.
    pub fn new() -> (m: Memory)
        ensures
            m.wf(),
            m@ == mem_initial(),
    {
        let mut data: Vec<u8> = Vec::new();
        while data.len() < MEM_SIZE
            invariant
                data@.len() <= MEM_SIZE,
                forall|a: int| 0 <= a < data@.len() ==> data@[a] == 0u8,
            decreases MEM_SIZE - data@.len(),
        {
            data.push(0u8);
        }
        let font = font_table();
        let mut k: usize = 0;
        while k < FONT_LEN
            invariant
                k <= FONT_LEN,
                data@.len() == MEM_SIZE,
                font@ == font_seq(),
                forall|a: int|
                    FONT_START <= a < FONT_START + k ==> data@[a] == font_seq()[a - FONT_START],
                forall|a: int|
                    0 <= a < MEM_SIZE && !(FONT_START <= a < FONT_START + k) ==> data@[a] == 0u8,
            decreases FONT_LEN - k,
        {
            proof {
                assert(font_seq().len() == 80);
            }
            data[FONT_START + k] = font[k];
            k = k + 1;
        }
        let m = Memory { data };
        proof {
            assert(m@ =~= mem_initial());
        }
        m
    }

    /// Copies a program image into memory starting at `PROGRAM_START`.
    /// Succeeds exactly when the image fits; on failure the memory is left
    /// untouched.
    pub fn load_program(&mut self, program: &[u8]) -> (r: Result<(), Chip8Error>)
        requires
            old(self).wf(),
        ensures
            final(self).wf(),
            program@.len() <= MAX_PROGRAM_LEN ==> r == Ok::<(), Chip8Error>(()) && final(self)@
                == mem_loaded(old(self)@, program@),
            program@.len() > MAX_PROGRAM_LEN ==> r == Err::<(), Chip8Error>(
                Chip8Error::ProgramTooLarge,
            ) && final(self)@ == old(self)@,
    {
        if program.len() > MAX_PROGRAM_LEN {
            return Err(Chip8Error::ProgramTooLarge);
        }
        let mut k: usize = 0;
        while k < program.len()
            invariant
                k <= program@.len(),
                program@.len() <= MAX_PROGRAM_LEN,
                self.data@.len() == MEM_SIZE,
                forall|a: int|
                    PROGRAM_START <= a < PROGRAM_START + k ==> self.data@[a] == program@[a
                        - PROGRAM_START],
                forall|a: int|
                    0 <= a < MEM_SIZE && !(PROGRAM_START <= a < PROGRAM_START + k)
                        ==> self.data@[a] == old(self)@[a],
            decreases program@.len() - k,
        {
            self.data[PROGRAM_START + k] = program[k];
            k = k + 1;
        }
        proof {
            assert(self@ =~= mem_loaded(old(self)@, program@));
        }
        Ok(())
    }

    /// Reads the byte at `addr`; fails exactly when the address lies
    /// outside the 4096-byte space.
    pub fn read_byte(&self, addr: u16) -> (r: Result<u8, Chip8Error>)
        requires
            self.wf(),
        ensures
            addr < MEM_SIZE ==> r == Ok::<u8, Chip8Error>(self@[addr as int]),
            addr >= MEM_SIZE ==> r == Err::<u8, Chip8Error>(Chip8Error::AddressOutOfRange),
    {
        if (addr as usize) < MEM_SIZE {
            Ok(self.data[addr as usize])
        } else {
            Err(Chip8Error::AddressOutOfRange)
        }
    }

    /// Writes `value` at `addr`; fails exactly when the address lies
    /// outside the 4096-byte space, and then leaves memory untouched.
    pub fn write_byte(&mut self, addr: u16, value: u8) -> (r: Result<(), Chip8Error>)
        requires
            old(self).wf(),
        ensures
            final(self).wf(),
            addr < MEM_SIZE ==> r == Ok::<(), Chip8Error>(())
                && final(self)@ == old(self)@.update(addr as int, value),
            addr >= MEM_SIZE ==> r == Err::<(), Chip8Error>(Chip8Error::AddressOutOfRange)
                && final(self)@ == old(self)@,
    {
        if (addr as usize) < MEM_SIZE {
            self.data[addr as usize] = value;
            Ok(())
        } else {
            Err(Chip8Error::AddressOutOfRange)
        }
    }
}

/// Builds the canonical font as an executable table, row by row; the view
/// of the result is exactly `font_seq`.
fn font_table() -> (v: Vec<u8>)
    ensures
        v@ == font_seq(),
{
    let mut v: Vec<u8> = Vec::new();
    push_glyph(&mut v, 0xF0, 0x90, 0x90, 0x90, 0xF0); // 0
    push_glyph(&mut v, 0x20, 0x60, 0x20, 0x20, 0x70); // 1
    push_glyph(&mut v, 0xF0, 0x10, 0xF0, 0x80, 0xF0); // 2
    push_glyph(&mut v, 0xF0, 0x10, 0xF0, 0x10, 0xF0); // 3
    push_glyph(&mut v, 0x90, 0x90, 0xF0, 0x10, 0x10); // 4
    push_glyph(&mut v, 0xF0, 0x80, 0xF0, 0x10, 0xF0); // 5
    push_glyph(&mut v, 0xF0, 0x80, 0xF0, 0x90, 0xF0); // 6
    push_glyph(&mut v, 0xF0, 0x10, 0x20, 0x40, 0x40); // 7
    push_glyph(&mut v, 0xF0, 0x90, 0xF0, 0x90, 0xF0); // 8
    push_glyph(&mut v, 0xF0, 0x90, 0xF0, 0x10, 0xF0); // 9
    push_glyph(&mut v, 0xF0, 0x90, 0xF0, 0x90, 0x90); // A
    push_glyph(&mut v, 0xE0, 0x90, 0xE0, 0x90, 0xE0); // B
    push_glyph(&mut v, 0xF0, 0x80, 0x80, 0x80, 0xF0); // C
    push_glyph(&mut v, 0xE0, 0x90, 0x90, 0x90, 0xE0); // D
    push_glyph(&mut v, 0xF0, 0x80, 0xF0, 0x80, 0xF0); // E
    push_glyph(&mut v, 0xF0, 0x80, 0xF0, 0x80, 0x80); // F
    proof {
        assert(v@ =~= font_seq());
    }
    v
}

/// Appends one 5-byte glyph to the font table.
fn push_glyph(v: &mut Vec<u8>, b0: u8, b1: u8, b2: u8, b3: u8, b4: u8)
    ensures
        final(v)@ == old(v)@ + seq![b0, b1, b2, b3, b4],
{
    v.push(b0);
    v.push(b1);
    v.push(b2);
    v.push(b3);
    v.push(b4);
    proof {
        assert(v@ =~= old(v)@ + seq![b0, b1, b2, b3, b4]);
    }
}

} // verus!

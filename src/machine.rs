//! Machine state: register file, condition flags and memory.
use vstd::prelude::*;
use crate::decoder::RegisterAccess;

verus! {

/// Bytes of memory: the whole 16-bit address space.
pub const MEMORY_SIZE: usize = 65536;

/// Opcode of `hlt`, placed right after a loaded program.
pub const HALT_OPCODE: u8 = 0xf4;

/// Cell that a register operand lives in: byte encodings 4..7 are the high
/// bytes of cells 0..3.
pub open spec fn cell_index(encoding: u8, access: RegisterAccess) -> int {
    if access == RegisterAccess::Full { encoding as int } else { (encoding % 4) as int }
}

/// A cell seen through an access width.
pub open spec fn view_cell(cell: u16, access: RegisterAccess) -> u16 {
    match access {
        RegisterAccess::Full => cell,
        RegisterAccess::Low => cell % 256,
        RegisterAccess::High => cell / 256,
    }
}

/// A cell after storing `value` through an access width; the other byte
/// of the cell is kept.
pub open spec fn store_cell(cell: u16, access: RegisterAccess, value: u16) -> u16 {
    match access {
        RegisterAccess::Full => value,
        RegisterAccess::Low => ((cell / 256) * 256 + value % 256) as u16,
        RegisterAccess::High => ((value % 256) * 256 + cell % 256) as u16,
    }
}

pub open spec fn read_register_spec(cells: Seq<u16>, encoding: u8, access: RegisterAccess) -> u16 {
    view_cell(cells[cell_index(encoding, access)], access)
}

pub open spec fn write_register_spec(cells: Seq<u16>, encoding: u8, access: RegisterAccess, value: u16) -> Seq<u16> {
    let i = cell_index(encoding, access);
    cells.update(i, store_cell(cells[i], access, value))
}

/// Eight 16-bit cells: ax, cx, dx, bx, sp, bp, si, di.
#[derive(PartialEq, Eq, Clone, Copy, Debug)]
pub struct Registers {
    pub cells: [u16; 8],
}

impl Registers {
    /// All registers zero.
    pub fn new() -> (r: Self)
        ensures
            r.cells@ == seq![0u16; 8],
    {
        let r = Registers { cells: [0u16; 8] };
        assert(r.cells@ =~= seq![0u16; 8]);
        r
    }

    /// Reads a register: the whole cell, or one byte of it.
    pub fn read(&self, encoding: u8, access: RegisterAccess) -> (r: u16)
        requires
            encoding < 8,
        ensures
            r == read_register_spec(self.cells@, encoding, access),
    {
        let index: usize = if let RegisterAccess::Full = access { encoding as usize } else { (encoding % 4) as usize };
        let cell = self.cells[index];
        match access {
            RegisterAccess::Full => cell,
            RegisterAccess::Low => {
                let r = cell & 0x00ff;
                assert(r == cell % 256) by (bit_vector)
                    requires r == cell & 0x00ff;
                r
            },
            RegisterAccess::High => {
                let r = cell >> 8u16;
                assert(r == cell / 256) by (bit_vector)
                    requires r == cell >> 8u16;
                r
            },
        }
    }

    /// Writes a register through its access width, leaving the other byte of
    /// the cell and every other cell as they were.
    pub fn write(&mut self, encoding: u8, access: RegisterAccess, value: u16)
        requires
            encoding < 8,
        ensures
            final(self).cells@ == write_register_spec(old(self).cells@, encoding, access, value),
    {
        let index: usize = if let RegisterAccess::Full = access { encoding as usize } else { (encoding % 4) as usize };
        let cell = self.cells[index];
        let stored = match access {
            RegisterAccess::Full => value,
            RegisterAccess::Low => {
                let r = (cell & 0xff00) | (value & 0x00ff);
                assert(r == (cell / 256) * 256 + value % 256) by (bit_vector)
                    requires r == (cell & 0xff00) | (value & 0x00ff);
                r
            },
            RegisterAccess::High => {
                let r = (cell & 0x00ff) | ((value & 0x00ff) << 8u16);
                assert(r == (value % 256) * 256 + cell % 256) by (bit_vector)
                    requires r == (cell & 0x00ff) | ((value & 0x00ff) << 8u16);
                r
            },
        };
        self.cells[index] = stored;
        assert(self.cells@ =~= write_register_spec(old(self).cells@, encoding, access, value));
    }
}

/// Condition flags.
#[derive(PartialEq, Eq, Structural, Clone, Copy, Debug)]
pub enum Flag {
    Zero,
    Sign,
}

/// The runtime flag set.
#[derive(PartialEq, Eq, Structural, Clone, Copy, Debug)]
pub struct Flags {
    pub zero: bool,
    pub sign: bool,
}

pub open spec fn has_spec(flags: Flags, flag: Flag) -> bool {
    match flag {
        Flag::Zero => flags.zero,
        Flag::Sign => flags.sign,
    }
}

/// Flags of a value as stored: zero when it is 0, sign when the top bit of
/// its width (bit 15 for a word, bit 7 for a byte) is set.
pub open spec fn flags_of(stored: u16, wide: bool) -> Flags {
    Flags { zero: stored == 0, sign: if wide { stored >= 0x8000 } else { stored >= 0x80 } }
}

impl Flags {
    pub fn new() -> (r: Self)
        ensures
            !r.zero && !r.sign,
    {
        Flags { zero: false, sign: false }
    }

    pub fn has(&self, flag: Flag) -> (r: bool)
        ensures
            r == has_spec(*self, flag),
    {
        match flag {
            Flag::Zero => self.zero,
            Flag::Sign => self.sign,
        }
    }

    /// The flags a stored value of the given width sets.
    pub fn of_result(stored: u16, wide: bool) -> (r: Self)
        ensures
            r == flags_of(stored, wide),
    {
        Flags { zero: stored == 0, sign: if wide { stored >= 0x8000 } else { stored >= 0x80 } }
    }
}


/// Bytes of a cell are independent: after writing `lo` to the low byte and
/// `hi` to the high byte, the word reads `hi * 256 + lo`, each byte reads
/// back what was written to it, and no other cell changed.
pub proof fn lemma_sub_byte_independence(cells: Seq<u16>, cell: u8, lo: u8, hi: u8)
    requires
        cells.len() == 8,
        cell < 4,
    ensures
        ({
            let low_written = write_register_spec(cells, cell, RegisterAccess::Low, lo as u16);
            let both = write_register_spec(low_written, (cell + 4) as u8, RegisterAccess::High, hi as u16);
            &&& read_register_spec(both, cell, RegisterAccess::Full) == hi as int * 256 + lo as int
            &&& read_register_spec(both, cell, RegisterAccess::Low) == lo
            &&& read_register_spec(both, (cell + 4) as u8, RegisterAccess::High) == hi
            &&& forall|j: int| 0 <= j < 8 && j != cell ==> both[j] == cells[j]
        }),
{
}

} // verus!

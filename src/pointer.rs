//! Splitting a 64-bit virtual address into its four-level page-table
//! indices and 4 KiB page offset.
use vstd::prelude::*;

verus! {

/// The page-table indices and page offset of a virtual address, assuming
/// 4 KiB pages.
#[derive(PartialEq, Eq, Structural, Clone, Copy, Debug)]
pub struct DecomposedPointer {
    /// Bits 39..47: index into the level-4 table.
    pub pml4_index: u16,
    /// Bits 30..38: index into the level-3 table.
    pub directory_ptr_index: u16,
    /// Bits 21..29: index into the level-2 table.
    pub directory_index: u16,
    /// Bits 12..20: index into the level-1 table.
    pub table_index: u16,
    /// Bits 0..11: byte offset into the page.
    pub page_offset: u32,
}

impl DecomposedPointer {
    pub fn new(virtual_address: u64) -> (r: Self)
        ensures
            r.pml4_index == (virtual_address / 0x80_0000_0000) % 512,
            r.directory_ptr_index == (virtual_address / 0x4000_0000) % 512,
            r.directory_index == (virtual_address / 0x20_0000) % 512,
            r.table_index == (virtual_address / 0x1000) % 512,
            r.page_offset == virtual_address % 0x1000,
    {
        let va = virtual_address;
        let a = (va >> 39u64) & 0x1ff;
        let b = (va >> 30u64) & 0x1ff;
        let c = (va >> 21u64) & 0x1ff;
        let d = (va >> 12u64) & 0x1ff;
        let e = va & 0xfff;
        assert(a == (va / 0x80_0000_0000) % 512) by (bit_vector)
            requires a == (va >> 39u64) & 0x1ff;
        assert(b == (va / 0x4000_0000) % 512) by (bit_vector)
            requires b == (va >> 30u64) & 0x1ff;
        assert(c == (va / 0x20_0000) % 512) by (bit_vector)
            requires c == (va >> 21u64) & 0x1ff;
        assert(d == (va / 0x1000) % 512) by (bit_vector)
            requires d == (va >> 12u64) & 0x1ff;
        assert(e == va % 0x1000) by (bit_vector)
            requires e == va & 0xfff;
        DecomposedPointer {
            pml4_index: a as u16,
            directory_ptr_index: b as u16,
            directory_index: c as u16,
            table_index: d as u16,
            page_offset: e as u32,
        }
    }
}

} // verus!

//! The bytecode container: a minimal ELF-64 reader.
//!
//! A loaded program arrives as an ELF-64 object whose machine tag names
//! the bytecode architecture and whose `.text` section holds the
//! fixed-width bytecode words. Only what program loading needs is read —
//! the identification bytes, the machine tag, the section table and the
//! section-name strings — and every offset is bounds-checked, so a
//! malformed container is rejected with an error rather than trusted.

use vstd::prelude::*;
use crate::errors::SysError;

verus! {

/// The machine tag of the bytecode architecture.
pub const MACHINE_BPF: u16 = 0xf7;

/// The little-endian halfword at `off`.
pub open spec fn u16_at(b: Seq<u8>, off: int) -> u16 {
    (b[off] as u16) | ((b[off + 1] as u16) << 8)
}

/// The little-endian word at `off`.
pub open spec fn u32_at(b: Seq<u8>, off: int) -> u32 {
    (u16_at(b, off) as u32) | ((u16_at(b, off + 2) as u32) << 16)
}

/// The little-endian doubleword at `off`.
pub open spec fn u64_at(b: Seq<u8>, off: int) -> u64 {
    (u32_at(b, off) as u64) | ((u32_at(b, off + 4) as u64) << 32)
}

pub fn read_u16(b: &Vec<u8>, off: usize) -> (r: u16)
    requires
        off + 2 <= b@.len(),
    ensures
        r == u16_at(b@, off as int),
{
    let _n = b.len();
    (b[off] as u16) | ((b[off + 1] as u16) << 8)
}

pub fn read_u32(b: &Vec<u8>, off: usize) -> (r: u32)
    requires
        off + 4 <= b@.len(),
    ensures
        r == u32_at(b@, off as int),
{
    let _n = b.len();
    (read_u16(b, off) as u32) | ((read_u16(b, off + 2) as u32) << 16)
}

pub fn read_u64(b: &Vec<u8>, off: usize) -> (r: u64)
    requires
        off + 8 <= b@.len(),
    ensures
        r == u64_at(b@, off as int),
{
    let _n = b.len();
    (read_u32(b, off) as u64) | ((read_u32(b, off + 4) as u64) << 32)
}

/// A plausible ELF-64 object: the magic bytes, the 64-bit class byte, and
/// a complete header.
pub open spec fn elf_header_ok(b: Seq<u8>) -> bool {
    &&& b.len() >= 64
    &&& b[0] == 0x7f
    &&& b[1] == 0x45
    &&& b[2] == 0x4c
    &&& b[3] == 0x46
    &&& b[4] == 2
}

/// The header's machine tag.
pub open spec fn elf_machine(b: Seq<u8>) -> u16 {
    u16_at(b, 18)
}

/// Start of the section-header table.
pub open spec fn elf_shoff(b: Seq<u8>) -> u64 {
    u64_at(b, 40)
}

/// Number of section headers.
pub open spec fn elf_shnum(b: Seq<u8>) -> u16 {
    u16_at(b, 60)
}

/// Index of the section-name string table.
pub open spec fn elf_shstrndx(b: Seq<u8>) -> u16 {
    u16_at(b, 62)
}

/// Start of section header `i` (64-byte entries).
pub open spec fn sh_base(b: Seq<u8>, i: int) -> int {
    elf_shoff(b) + 64 * i
}

/// The file offset of section `i`'s contents.
pub open spec fn sh_offset(b: Seq<u8>, i: int) -> u64 {
    u64_at(b, sh_base(b, i) + 24)
}

/// The size of section `i`'s contents.
pub open spec fn sh_size(b: Seq<u8>, i: int) -> u64 {
    u64_at(b, sh_base(b, i) + 32)
}

/// The name offset of section `i` inside the string table.
pub open spec fn sh_name_off(b: Seq<u8>, i: int) -> u32 {
    u32_at(b, sh_base(b, i))
}

/// A container whose section machinery can be walked safely: 64-byte
/// section entries that all lie inside the file, and a section-name string
/// table that lies inside the file.
pub open spec fn elf_layout_ok(b: Seq<u8>) -> bool {
    &&& elf_header_ok(b)
    &&& u16_at(b, 58) == 64
    &&& elf_shstrndx(b) < elf_shnum(b)
    &&& elf_shoff(b) + 64 * elf_shnum(b) <= b.len()
    &&& sh_offset(b, elf_shstrndx(b) as int) + sh_size(b, elf_shstrndx(b) as int) <= b.len()
}

/// Whether section `i`'s name is `.text`: six bytes, the dot, the word,
/// and the terminator, inside the string table.
pub open spec fn sec_name_is_text(b: Seq<u8>, i: int) -> bool {
    let stroff = sh_offset(b, elf_shstrndx(b) as int) as int;
    let strsz = sh_size(b, elf_shstrndx(b) as int) as int;
    let noff = sh_name_off(b, i) as int;
    &&& noff + 6 <= strsz
    &&& b[stroff + noff] == 0x2e
    &&& b[stroff + noff + 1] == 0x74
    &&& b[stroff + noff + 2] == 0x65
    &&& b[stroff + noff + 3] == 0x78
    &&& b[stroff + noff + 4] == 0x74
    &&& b[stroff + noff + 5] == 0
}

/// The first section named `.text` at or after index `i`.
pub open spec fn find_text_from(b: Seq<u8>, i: int) -> Option<int>
    decreases elf_shnum(b) - i,
{
    if i < 0 || i >= elf_shnum(b) {
        None
    } else if sec_name_is_text(b, i) {
        Some(i)
    } else {
        find_text_from(b, i + 1)
    }
}

/// Where the bytecode lies in the container, or why the container is
/// refused: not a readable ELF-64 object for the bytecode machine
/// (`InvalidArgument`), or without a `.text` section (`NotFound`).
pub open spec fn spec_text_range(b: Seq<u8>) -> Result<(int, int), SysError> {
    if !(elf_layout_ok(b) && elf_machine(b) == MACHINE_BPF) {
        Err(SysError::InvalidArgument)
    } else {
        match find_text_from(b, 0) {
            None => Err(SysError::NotFound),
            Some(i) => {
                if sh_offset(b, i) + sh_size(b, i) <= b.len() {
                    Ok((sh_offset(b, i) as int, sh_size(b, i) as int))
                } else {
                    Err(SysError::InvalidArgument)
                }
            },
        }
    }
}

/// Find the bytecode: the file offset and size of the `.text` section of a
/// well-formed ELF-64 container for the bytecode machine.
pub fn elf_find_text(b: &Vec<u8>) -> (r: Result<(usize, usize), SysError>)
    ensures
        match spec_text_range(b@) {
            Ok((off, size)) => r is Ok && r->Ok_0.0 == off && r->Ok_0.1 == size,
            Err(e) => r == Err::<(usize, usize), SysError>(e),
        },
{
    let len = b.len();
    if len < 64 {
        return Err(SysError::InvalidArgument);
    }
    if !(b[0] == 0x7f && b[1] == 0x45 && b[2] == 0x4c && b[3] == 0x46 && b[4] == 2) {
        return Err(SysError::InvalidArgument);
    }
    if read_u16(b, 18) != MACHINE_BPF {
        return Err(SysError::InvalidArgument);
    }
    if read_u16(b, 58) != 64 {
        return Err(SysError::InvalidArgument);
    }
    let shoff = read_u64(b, 40);
    let shnum = read_u16(b, 60);
    let strndx = read_u16(b, 62);
    if !(strndx < shnum) {
        return Err(SysError::InvalidArgument);
    }
    if shoff > u64::MAX - 64 * (shnum as u64) || shoff + 64 * (shnum as u64) > len as u64 {
        return Err(SysError::InvalidArgument);
    }
    let str_base = (shoff as usize) + 64 * (strndx as usize);
    let stroff = read_u64(b, str_base + 24);
    let strsz = read_u64(b, str_base + 32);
    if stroff > u64::MAX - strsz || stroff + strsz > len as u64 {
        return Err(SysError::InvalidArgument);
    }
    let ghost bs = b@;
    let mut i: usize = 0;
    while i < shnum as usize
        invariant
            bs == b@,
            elf_layout_ok(bs),
            elf_machine(bs) == MACHINE_BPF,
            len == bs.len(),
            shoff == elf_shoff(bs),
            shnum == elf_shnum(bs),
            strndx == elf_shstrndx(bs),
            stroff == sh_offset(bs, strndx as int),
            strsz == sh_size(bs, strndx as int),
            i <= shnum as usize,
            find_text_from(bs, 0) == find_text_from(bs, i as int),
        decreases shnum as int - i,
    {
        let base = (shoff as usize) + 64 * i;
        let noff = read_u32(b, base);
        let is_text: bool;
        if (noff as u64) > strsz || strsz - (noff as u64) < 6 {
            is_text = false;
        } else {
            let p = (stroff as usize) + (noff as usize);
            is_text = b[p] == 0x2e && b[p + 1] == 0x74 && b[p + 2] == 0x65 && b[p + 3] == 0x78
                && b[p + 4] == 0x74 && b[p + 5] == 0;
        }
        proof {
            assert(noff == sh_name_off(bs, i as int));
            assert(is_text == sec_name_is_text(bs, i as int));
        }
        if is_text {
            let off = read_u64(b, base + 24);
            let size = read_u64(b, base + 32);
            proof {
                assert(find_text_from(bs, i as int) == Some(i as int));
            }
            if size > (len as u64) || off > (len as u64) - size {
                return Err(SysError::InvalidArgument);
            }
            return Ok((off as usize, size as usize));
        }
        proof {
            assert(find_text_from(bs, i as int) == find_text_from(bs, i + 1));
        }
        i = i + 1;
    }
    proof {
        assert(find_text_from(bs, shnum as int) is None);
    }
    Err(SysError::NotFound)
}

} // verus!

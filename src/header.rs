//! The fixed byte layout of the ELF32 file header and section-header record,
//! and the codes that a section header's type and flags fields hold.
use crate::bytes::{le16, le32, read_u16, read_u32};
use vstd::prelude::*;

verus! {

/// Length of the identification block at the start of the header.
pub const EI_NIDENT: usize = 16;

/// Size in bytes of the file header.
pub const ELF_HEADER_SIZE: usize = 52;

/// Size in bytes of one section-header record.
pub const SECTION_HEADER_SIZE: usize = 40;

/// Machine code of 32-bit ARM, the target these images are built for.
/// `e_machine` is read but not checked against it.
pub const EM_ARM: u16 = 0x28;

/// Byte offset of `e_shoff` inside the header.
pub const E_SHOFF_AT: usize = 32;

/// Byte offset of `e_shnum` inside the header.
pub const E_SHNUM_AT: usize = 48;

/// Byte offset of `e_shstrndx` inside the header.
pub const E_SHSTRNDX_AT: usize = 50;

/// Byte offset of `sh_offset` inside a section-header record.
pub const SH_OFFSET_AT: usize = 16;

/// The ELF32 file header, field for field as it lies in the image
/// (little-endian, no padding).
#[derive(Clone, Copy, Debug)]
pub struct ElfHeader {
    pub e_ident: [u8; 16],
    pub e_type: u16,
    pub e_machine: u16,
    pub e_version: u32,
    pub e_entry: u32,
    pub e_phoff: u32,
    /// Offset of the section-header table from the image base.
    pub e_shoff: u32,
    pub e_flags: u32,
    pub e_ehsize: u16,
    pub e_phentsize: u16,
    pub e_phnum: u16,
    /// Size of one section-header record as the image declares it.
    pub e_shentsize: u16,
    /// Number of section headers.
    pub e_shnum: u16,
    /// Index of the section that holds the section-name string table.
    pub e_shstrndx: u16,
}

impl ElfHeader {
    /// The header is the one laid out in the first bytes of `b`.
    pub open spec fn parsed_from(self, b: Seq<u8>) -> bool {
        &&& self.e_ident@ == b.subrange(0, 16)
        &&& self.e_type as int == le16(b, 16)
        &&& self.e_machine as int == le16(b, 18)
        &&& self.e_version as int == le32(b, 20)
        &&& self.e_entry as int == le32(b, 24)
        &&& self.e_phoff as int == le32(b, 28)
        &&& self.e_shoff as int == le32(b, 32)
        &&& self.e_flags as int == le32(b, 36)
        &&& self.e_ehsize as int == le16(b, 40)
        &&& self.e_phentsize as int == le16(b, 42)
        &&& self.e_phnum as int == le16(b, 44)
        &&& self.e_shentsize as int == le16(b, 46)
        &&& self.e_shnum as int == le16(b, 48)
        &&& self.e_shstrndx as int == le16(b, 50)
    }

    /// Reads the header out of the first bytes of `b`.
    pub fn read(b: &[u8]) -> (r: ElfHeader)
        requires
            ELF_HEADER_SIZE <= b@.len(),
        ensures
            r.parsed_from(b@),
    {
        let mut ident: [u8; 16] = [0u8; 16];
        let mut i: usize = 0;
        while i < EI_NIDENT
            invariant
                i <= EI_NIDENT,
                EI_NIDENT <= b@.len(),
                ident@.len() == EI_NIDENT,
                forall|j: int| 0 <= j < i ==> ident@[j] == b@[j],
            decreases EI_NIDENT - i,
        {
            ident[i] = b[i];
            i = i + 1;
        }
        assert(ident@ =~= b@.subrange(0, 16));
        ElfHeader {
            e_ident: ident,
            e_type: read_u16(b, 16),
            e_machine: read_u16(b, 18),
            e_version: read_u32(b, 20),
            e_entry: read_u32(b, 24),
            e_phoff: read_u32(b, 28),
            e_shoff: read_u32(b, E_SHOFF_AT),
            e_flags: read_u32(b, 36),
            e_ehsize: read_u16(b, 40),
            e_phentsize: read_u16(b, 42),
            e_phnum: read_u16(b, 44),
            e_shentsize: read_u16(b, 46),
            e_shnum: read_u16(b, E_SHNUM_AT),
            e_shstrndx: read_u16(b, E_SHSTRNDX_AT),
        }
    }
}

/// One ELF32 section-header record, field for field as it lies in the image.
#[derive(Clone, Copy, Debug, PartialEq, Eq, Structural)]
pub struct SectionHeader {
    /// Offset of the section's name in the section-name string table.
    pub sh_name: u32,
    pub sh_type: u32,
    pub sh_flags: u32,
    /// Address of the section's bytes, relative to the image base.
    pub sh_addr: u32,
    /// Offset of the section's bytes in the file.
    pub sh_offset: u32,
    /// Length in bytes of the section.
    pub sh_size: u32,
    pub sh_link: u32,
    pub sh_info: u32,
    pub sh_addralign: u32,
    pub sh_entsize: u32,
}

/// The section-header record that starts at `off` in `b`.
pub open spec fn section_at(b: Seq<u8>, off: int) -> SectionHeader {
    SectionHeader {
        sh_name: le32(b, off) as u32,
        sh_type: le32(b, off + 4) as u32,
        sh_flags: le32(b, off + 8) as u32,
        sh_addr: le32(b, off + 12) as u32,
        sh_offset: le32(b, off + 16) as u32,
        sh_size: le32(b, off + 20) as u32,
        sh_link: le32(b, off + 24) as u32,
        sh_info: le32(b, off + 28) as u32,
        sh_addralign: le32(b, off + 32) as u32,
        sh_entsize: le32(b, off + 36) as u32,
    }
}

impl SectionHeader {
    /// Reads the record that starts at `off` in `b`.
    pub fn read(b: &[u8], off: usize) -> (r: SectionHeader)
        requires
            off + SECTION_HEADER_SIZE <= b@.len(),
        ensures
            r == section_at(b@, off as int),
    {
        let len = b.len();
        assert(off + SECTION_HEADER_SIZE <= len);
        SectionHeader {
            sh_name: read_u32(b, off),
            sh_type: read_u32(b, off + 4),
            sh_flags: read_u32(b, off + 8),
            sh_addr: read_u32(b, off + 12),
            sh_offset: read_u32(b, off + 16),
            sh_size: read_u32(b, off + 20),
            sh_link: read_u32(b, off + 24),
            sh_info: read_u32(b, off + 28),
            sh_addralign: read_u32(b, off + 32),
            sh_entsize: read_u32(b, off + 36),
        }
    }

    /// The section's type, by name where the code has one.
    pub fn kind(&self) -> (r: sh_type)
        ensures
            r.code() == self.sh_type,
            r.canonical(),
    {
        sh_type::from_raw(self.sh_type)
    }

    /// Whether any bit of `flag` is set in the section's flags.
    pub fn has_flag(&self, flag: sh_flags) -> (r: bool)
        ensures
            r == (self.sh_flags & flag.bits() != 0),
    {
        self.sh_flags & flag.mask() != 0
    }

    /// Length in bytes of the section.
    pub fn size(&self) -> (r: usize)
        ensures
            r == self.sh_size,
    {
        self.sh_size as usize
    }
}

/// Lowest and highest codes of the processor-specific section types.
pub const SHT_LOPROC: u32 = 0x7000_0000;
pub const SHT_HIPROC: u32 = 0x7fff_ffff;

/// Lowest and highest codes of the section types left to applications.
pub const SHT_LOUSER: u32 = 0x8000_0000;
pub const SHT_HIUSER: u32 = 0xffff_ffff;

/// Number of section-type codes that have a name of their own.
pub const SHT_NAMED: u32 = 12;

/// The type code of a section: the named codes, then the two reserved
/// ranges, then any other code as it stands.
#[allow(non_camel_case_types)]
#[derive(Clone, Copy, Debug, PartialEq, Eq, Structural)]
pub enum sh_type {
    NULL,
    PROGBITS,
    SYMTAB,
    STRTAB,
    RELA,
    HASH,
    DYNAMIC,
    NOTE,
    NOBITS,
    REL,
    SHLIB,
    DYNSYM,
    /// A code in `SHT_LOPROC ..= SHT_HIPROC`.
    PROC(u32),
    /// A code in `SHT_LOUSER ..= SHT_HIUSER`.
    USER(u32),
    /// A code below `SHT_LOPROC` that has no name.
    OTHER(u32),
}

impl sh_type {
    /// The numeric code that the type stands for.
    pub open spec fn code(self) -> u32 {
        match self {
            sh_type::NULL => 0,
            sh_type::PROGBITS => 1,
            sh_type::SYMTAB => 2,
            sh_type::STRTAB => 3,
            sh_type::RELA => 4,
            sh_type::HASH => 5,
            sh_type::DYNAMIC => 6,
            sh_type::NOTE => 7,
            sh_type::NOBITS => 8,
            sh_type::REL => 9,
            sh_type::SHLIB => 10,
            sh_type::DYNSYM => 11,
            sh_type::PROC(c) => c,
            sh_type::USER(c) => c,
            sh_type::OTHER(c) => c,
        }
    }

    /// Each raw variant holds a code of its own range, so that every code has
    /// exactly one form.
    pub open spec fn canonical(self) -> bool {
        match self {
            sh_type::PROC(c) => SHT_LOPROC <= c <= SHT_HIPROC,
            sh_type::USER(c) => SHT_LOUSER <= c,
            sh_type::OTHER(c) => SHT_NAMED <= c < SHT_LOPROC,
            _ => true,
        }
    }

    /// The type that `v` codes for.
    pub fn from_raw(v: u32) -> (r: sh_type)
        ensures
            r.code() == v,
            r.canonical(),
    {
        match v {
            0 => sh_type::NULL,
            1 => sh_type::PROGBITS,
            2 => sh_type::SYMTAB,
            3 => sh_type::STRTAB,
            4 => sh_type::RELA,
            5 => sh_type::HASH,
            6 => sh_type::DYNAMIC,
            7 => sh_type::NOTE,
            8 => sh_type::NOBITS,
            9 => sh_type::REL,
            10 => sh_type::SHLIB,
            11 => sh_type::DYNSYM,
            _ => if v >= SHT_LOUSER {
                sh_type::USER(v)
            } else if v >= SHT_LOPROC {
                sh_type::PROC(v)
            } else {
                sh_type::OTHER(v)
            },
        }
    }

    /// The numeric code of the type.
    pub fn raw(&self) -> (r: u32)
        ensures
            r == self.code(),
    {
        match *self {
            sh_type::NULL => 0,
            sh_type::PROGBITS => 1,
            sh_type::SYMTAB => 2,
            sh_type::STRTAB => 3,
            sh_type::RELA => 4,
            sh_type::HASH => 5,
            sh_type::DYNAMIC => 6,
            sh_type::NOTE => 7,
            sh_type::NOBITS => 8,
            sh_type::REL => 9,
            sh_type::SHLIB => 10,
            sh_type::DYNSYM => 11,
            sh_type::PROC(c) => c,
            sh_type::USER(c) => c,
            sh_type::OTHER(c) => c,
        }
    }
}

/// The flag bits of a section.
#[allow(non_camel_case_types)]
#[derive(Clone, Copy, Debug, PartialEq, Eq, Structural)]
pub enum sh_flags {
    /// The section holds data written while the program runs.
    WRITE,
    /// The section occupies memory while the program runs.
    ALLOC,
    /// The section holds machine instructions.
    EXECINSTR,
    /// The bits reserved for processor-specific meanings.
    MASKPROC,
}

impl sh_flags {
    /// The bits of the flags field that the flag stands for.
    pub open spec fn bits(self) -> u32 {
        match self {
            sh_flags::WRITE => 0x1,
            sh_flags::ALLOC => 0x2,
            sh_flags::EXECINSTR => 0x4,
            sh_flags::MASKPROC => 0xf000_0000,
        }
    }

    /// The bits of the flags field that the flag stands for.
    pub fn mask(&self) -> (r: u32)
        ensures
            r == self.bits(),
    {
        match *self {
            sh_flags::WRITE => 0x1,
            sh_flags::ALLOC => 0x2,
            sh_flags::EXECINSTR => 0x4,
            sh_flags::MASKPROC => 0xf000_0000,
        }
    }
}

/// A section that is found by its role rather than by its index.
#[allow(non_camel_case_types)]
#[derive(Clone, Copy, Debug, PartialEq, Eq, Structural)]
pub enum Section {
    /// The section-name string table, named by `e_shstrndx`.
    STRTAB,
}

} // verus!

//! An ELF32 image held in a byte buffer: validation of its header, the
//! section-header table and the section-name string table.
use crate::bytes::{get_byte, le16, le32};
use crate::header::{
    section_at, ElfHeader, Section, SectionHeader, ELF_HEADER_SIZE, SECTION_HEADER_SIZE,
};
use vstd::arithmetic::power2::{lemma2_to64, pow2};
use vstd::prelude::*;
use vstd::slice::slice_subrange;

verus! {

/// The identification magic `0x7F 'E' 'L' 'F'` as one big-endian word.
pub const ELFMAG: u32 = 0x7f45_4c46;

/// Why an image cannot be read or relocated.
#[derive(Clone, Copy, Debug, PartialEq, Eq, Structural)]
pub enum ElfError {
    /// The identification bytes do not start with the ELF magic.
    InvalidMagic,
    /// A section index lies past the end of the section-header table.
    IndexOutOfRange,
    /// A range to be read lies outside the image's buffer.
    OutOfBounds,
    /// The destination buffer is too short for what the relocation writes.
    InsufficientDestination,
}

/// The four magic bytes that open every ELF identification block.
pub open spec fn elf_magic() -> Seq<u8> {
    seq![0x7fu8, 0x45u8, 0x4cu8, 0x46u8]
}

/// `b` begins with the ELF magic.
pub open spec fn has_magic(b: Seq<u8>) -> bool {
    b.len() >= 4 && b.subrange(0, 4) == elf_magic()
}

/// Offset of the section-header table, as the header of `img` gives it.
pub open spec fn shoff(img: Seq<u8>) -> int {
    le32(img, 32)
}

/// Number of section headers, as the header of `img` gives it.
pub open spec fn shnum(img: Seq<u8>) -> int {
    le16(img, 48)
}

/// Index of the section-name string table, as the header of `img` gives it.
pub open spec fn shstrndx(img: Seq<u8>) -> int {
    le16(img, 50)
}

/// Offset of the record of section `i` in `img`.
pub open spec fn record_at(img: Seq<u8>, i: int) -> int {
    shoff(img) + SECTION_HEADER_SIZE * i
}

/// The whole section-header table lies inside `img`.
pub open spec fn table_fits(img: Seq<u8>) -> bool {
    record_at(img, shnum(img)) <= img.len()
}

/// The record of the section-name string table.
pub open spec fn strtab_header(img: Seq<u8>) -> SectionHeader {
    section_at(img, record_at(img, shstrndx(img)))
}

/// The bytes that the string-table section spans lie inside `img`.
pub open spec fn strtab_fits(img: Seq<u8>) -> bool {
    strtab_header(img).sh_addr + strtab_header(img).sh_size <= img.len()
}

/// The bytes of the section-name string table.
pub open spec fn strtab_bytes(img: Seq<u8>) -> Seq<u8> {
    img.subrange(
        strtab_header(img).sh_addr as int,
        strtab_header(img).sh_addr + strtab_header(img).sh_size,
    )
}

/// The magic byte at position `i`, as taken out of `ELFMAG`.
proof fn lemma_magic_bytes(i: int)
    requires
        0 <= i < 4,
    ensures
        (ELFMAG as nat / pow2((24 - 8 * i) as nat)) % 256 == elf_magic()[i],
{
    lemma2_to64();
    let m = ELFMAG as nat;
    if i == 0 {
        assert(pow2(24) == 0x100_0000);
        assert((m / 0x100_0000) % 256 == 0x7f);
        assert(elf_magic()[0] == 0x7fu8);
    } else if i == 1 {
        assert(pow2(16) == 0x1_0000);
        assert((m / 0x1_0000) % 256 == 0x45);
        assert(elf_magic()[1] == 0x45u8);
    } else if i == 2 {
        assert(pow2(8) == 0x100);
        assert((m / 0x100) % 256 == 0x4c);
        assert(elf_magic()[2] == 0x4cu8);
    } else {
        assert(pow2(0) == 1);
        assert(m / 1 == m);
        assert(m % 256 == 0x46);
        assert(elf_magic()[3] == 0x46u8);
    }
}

/// Whether `b` begins with the ELF magic. Reads at most its first four bytes.
pub fn validate(b: &[u8]) -> (r: bool)
    ensures
        r == has_magic(b@),
{
    if b.len() < 4 {
        return false;
    }
    let mut i: usize = 0;
    while i < 4
        invariant
            i <= 4,
            4 <= b@.len(),
            forall|j: int| 0 <= j < i ==> b@[j] == elf_magic()[j],
        decreases 4 - i,
    {
        proof {
            lemma_magic_bytes(i as int);
        }
        if b[i] != get_byte(ELFMAG as usize, 24 - 8 * i) {
            assert(b@.subrange(0, 4)[i as int] != elf_magic()[i as int]);
            return false;
        }
        i = i + 1;
    }
    assert(b@.subrange(0, 4) =~= elf_magic());
    true
}

/// An ELF32 image and its header, read out of the buffer that holds it.
/// Offsets inside the image count from the first byte of `image`.
pub struct ElfHeadWrapper<'a> {
    pub header: ElfHeader,
    pub image: &'a [u8],
}

impl<'a> ElfHeadWrapper<'a> {
    /// `header` is the one at the start of `image`.
    pub open spec fn wf(&self) -> bool {
        &&& ELF_HEADER_SIZE <= self.image@.len()
        &&& self.header.parsed_from(self.image@)
    }

    /// Reads the header at the start of `image`; fails with `OutOfBounds`
    /// when the buffer is shorter than a header.
    pub fn new(image: &'a [u8]) -> (r: Result<Self, ElfError>)
        ensures
            image@.len() < ELF_HEADER_SIZE ==> r == Err::<Self, ElfError>(ElfError::OutOfBounds),
            image@.len() >= ELF_HEADER_SIZE ==> r is Ok,
            r matches Ok(w) ==> w.wf() && w.image@ == image@,
    {
        if image.len() < ELF_HEADER_SIZE {
            return Err(ElfError::OutOfBounds);
        }
        Ok(ElfHeadWrapper { header: ElfHeader::read(image), image })
    }

    /// Whether the header's identification block begins with the ELF magic.
    pub fn test_valid(&self) -> (r: bool)
        requires
            self.wf(),
        ensures
            r == has_magic(self.image@),
    {
        let r = validate(&self.header.e_ident);
        assert(self.header.e_ident@.subrange(0, 4) =~= self.image@.subrange(0, 4));
        r
    }

    /// The records of the section-header table, in index order; fails with
    /// `OutOfBounds` when the table does not lie inside the image. Records
    /// are taken `SECTION_HEADER_SIZE` bytes apart, the size of the record
    /// itself; the header's `e_shentsize` is not consulted.
    pub fn get_sections_headers(&self) -> (r: Result<Vec<SectionHeader>, ElfError>)
        requires
            self.wf(),
        ensures
            !table_fits(self.image@) ==> r == Err::<Vec<SectionHeader>, ElfError>(
                ElfError::OutOfBounds,
            ),
            table_fits(self.image@) ==> r is Ok,
            r matches Ok(v) ==> {
                &&& v@.len() == shnum(self.image@)
                &&& forall|i: int|
                    0 <= i < v@.len() ==> #[trigger] v@[i] == section_at(
                        self.image@,
                        record_at(self.image@, i),
                    )
            },
    {
        let len = self.image.len();
        let n = self.header.e_shnum as usize;
        let end: u64 = self.header.e_shoff as u64 + SECTION_HEADER_SIZE as u64 * n as u64;
        if end > len as u64 {
            return Err(ElfError::OutOfBounds);
        }
        let mut v: Vec<SectionHeader> = Vec::new();
        let mut i: usize = 0;
        while i < n
            invariant
                self.wf(),
                len == self.image@.len(),
                n == shnum(self.image@),
                table_fits(self.image@),
                i <= n,
                v@.len() == i,
                forall|j: int|
                    0 <= j < i ==> #[trigger] v@[j] == section_at(
                        self.image@,
                        record_at(self.image@, j),
                    ),
            decreases n - i,
        {
            let off = self.header.e_shoff as usize + SECTION_HEADER_SIZE * i;
            v.push(SectionHeader::read(self.image, off));
            i = i + 1;
        }
        Ok(v)
    }

    /// The bytes of the section-name string table, whose record is
    /// `sections[e_shstrndx]`. Fails with `IndexOutOfRange`, before any read,
    /// when that index is past the end of `sections`, and with `OutOfBounds`
    /// when the bytes the record spans do not lie inside the image.
    pub fn get_str_table(&self, sections: &[SectionHeader]) -> (r: Result<&'a [u8], ElfError>)
        requires
            self.wf(),
        ensures
            shstrndx(self.image@) >= sections@.len() ==> r == Err::<&'a [u8], ElfError>(
                ElfError::IndexOutOfRange,
            ),
            shstrndx(self.image@) < sections@.len() ==> {
                let s = sections@[shstrndx(self.image@)];
                &&& s.sh_addr + s.sh_size > self.image@.len() ==> r == Err::<&'a [u8], ElfError>(
                    ElfError::OutOfBounds,
                )
                &&& s.sh_addr + s.sh_size <= self.image@.len() ==> r is Ok
                &&& r matches Ok(t) ==> t@ == self.image@.subrange(
                    s.sh_addr as int,
                    s.sh_addr + s.sh_size,
                )
            },
    {
        let idx = self.header.e_shstrndx as usize;
        if idx >= sections.len() {
            return Err(ElfError::IndexOutOfRange);
        }
        let s = &sections[idx];
        let len = self.image.len();
        if s.sh_addr as u64 + s.sh_size as u64 > len as u64 {
            return Err(ElfError::OutOfBounds);
        }
        let start = s.sh_addr as usize;
        Ok(slice_subrange(self.image, start, start + s.sh_size as usize))
    }

    /// The record of the section that plays the role `section`.
    pub fn get_section(&self, section: Section) -> (r: Result<SectionHeader, ElfError>)
        requires
            self.wf(),
        ensures
            section == Section::STRTAB ==> r == self.strtab_outcome(),
    {
        match section {
            Section::STRTAB => self.get_section_strtab(),
        }
    }

    /// What looking up the string-table record gives: `IndexOutOfRange` when
    /// `e_shstrndx` is not below `e_shnum`, then `OutOfBounds` when the table
    /// does not lie inside the image, else the record.
    pub open spec fn strtab_outcome(&self) -> Result<SectionHeader, ElfError> {
        let img = self.image@;
        if shstrndx(img) >= shnum(img) {
            Err(ElfError::IndexOutOfRange)
        } else if !table_fits(img) {
            Err(ElfError::OutOfBounds)
        } else {
            Ok(strtab_header(img))
        }
    }

    fn get_section_strtab(&self) -> (r: Result<SectionHeader, ElfError>)
        requires
            self.wf(),
        ensures
            r == self.strtab_outcome(),
    {
        if self.header.e_shstrndx >= self.header.e_shnum {
            return Err(ElfError::IndexOutOfRange);
        }
        match self.get_sections_headers() {
            Err(e) => Err(e),
            Ok(sections) => Ok(sections[self.header.e_shstrndx as usize]),
        }
    }
}

} // verus!

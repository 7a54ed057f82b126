//! Relocation of an image's metadata: the header, the section-header table
//! and the section-name string table, laid out one after the other in a
//! destination buffer.
//!
//! Only metadata moves. The contents of the other sections are not copied,
//! and each copied record's `sh_offset` is set to 0 since it no longer
//! locates anything; `RelocatedImage::section_data_relocated` says so to the
//! caller.
use crate::bytes::{copy_bytes, le32, le32_bytes, write_u32};
use crate::header::{section_at, SectionHeader, ELF_HEADER_SIZE, E_SHOFF_AT, SECTION_HEADER_SIZE, SH_OFFSET_AT};
use crate::image::{
    has_magic, record_at, shnum, shoff, shstrndx, strtab_bytes, strtab_fits, strtab_header, table_fits,
    ElfError, ElfHeadWrapper,
};
use vstd::prelude::*;
use vstd::slice::slice_subrange;

verus! {

/// What a successful relocation wrote.
#[derive(Clone, Copy, Debug, PartialEq, Eq, Structural)]
pub struct RelocatedImage {
    /// Number of bytes written at the start of the destination.
    pub len: usize,
    /// Whether the sections' own bytes were moved along with their headers.
    /// Always false: only metadata is relocated.
    pub section_data_relocated: bool,
}

/// Every part that a relocation reads lies inside `img`, and the header
/// carries the magic.
pub open spec fn relocatable(img: Seq<u8>) -> bool {
    &&& ELF_HEADER_SIZE <= img.len()
    &&& has_magic(img)
    &&& table_fits(img)
    &&& shstrndx(img) < shnum(img)
    &&& strtab_fits(img)
}

/// The relocated header: the original one with `e_shoff` pointing just past
/// it.
pub open spec fn relocated_header(img: Seq<u8>) -> Seq<u8> {
    img.subrange(0, 32) + le32_bytes(ELF_HEADER_SIZE as u32) + img.subrange(
        36,
        ELF_HEADER_SIZE as int,
    )
}

/// The relocated record of section `i`: the original one with `sh_offset`
/// set to 0.
pub open spec fn relocated_record(img: Seq<u8>, i: int) -> Seq<u8> {
    let o = record_at(img, i);
    img.subrange(o, o + 16) + le32_bytes(0) + img.subrange(o + 20, o + 40)
}

/// The relocated records of the first `n` sections, in index order.
pub open spec fn relocated_records(img: Seq<u8>, n: nat) -> Seq<u8>
    decreases n,
{
    if n == 0 {
        Seq::empty()
    } else {
        relocated_records(img, (n - 1) as nat) + relocated_record(img, n - 1)
    }
}

/// Number of bytes that relocating `img` writes.
pub open spec fn relocated_len(img: Seq<u8>) -> int {
    ELF_HEADER_SIZE + SECTION_HEADER_SIZE * shnum(img) + strtab_header(img).sh_size
}

/// The bytes that relocating `img` writes: header, section-header table and
/// string table, back to back.
pub open spec fn relocated_image(img: Seq<u8>) -> Seq<u8> {
    relocated_header(img) + relocated_records(img, shnum(img) as nat) + strtab_bytes(img)
}

/// How relocating `img` into a buffer of `dest_len` bytes ends: the first
/// check that fails, in the order they are made, or success.
pub open spec fn relocation_outcome(img: Seq<u8>, dest_len: int) -> Result<(), ElfError> {
    if !has_magic(img) {
        Err(ElfError::InvalidMagic)
    } else if !table_fits(img) {
        Err(ElfError::OutOfBounds)
    } else if shstrndx(img) >= shnum(img) {
        Err(ElfError::IndexOutOfRange)
    } else if !strtab_fits(img) {
        Err(ElfError::OutOfBounds)
    } else if dest_len < relocated_len(img) {
        Err(ElfError::InsufficientDestination)
    } else {
        Ok(())
    }
}

/// The first `n` relocated records take 40 bytes each.
proof fn lemma_relocated_records_len(img: Seq<u8>, n: nat)
    requires
        table_fits(img),
        n <= shnum(img),
    ensures
        relocated_records(img, n).len() == SECTION_HEADER_SIZE * n,
    decreases n,
{
    if n > 0 {
        lemma_relocated_records_len(img, (n - 1) as nat);
    }
}

/// The relocated record of section `i` is the `i`-th 40-byte slot of the
/// relocated table.
proof fn lemma_relocated_records_slot(img: Seq<u8>, n: nat, i: int)
    requires
        table_fits(img),
        n <= shnum(img),
        0 <= i < n,
    ensures
        relocated_records(img, n).subrange(
            SECTION_HEADER_SIZE * i,
            SECTION_HEADER_SIZE * i + SECTION_HEADER_SIZE,
        ) == relocated_record(img, i),
    decreases n,
{
    lemma_relocated_records_len(img, (n - 1) as nat);
    let prev = relocated_records(img, (n - 1) as nat);
    let rec = relocated_record(img, n - 1);
    if i < n - 1 {
        lemma_relocated_records_slot(img, (n - 1) as nat, i);
        assert((prev + rec).subrange(40 * i, 40 * i + 40) =~= prev.subrange(40 * i, 40 * i + 40));
    } else {
        assert((prev + rec).subrange(40 * i, 40 * i + 40) =~= rec);
    }
}

/// A record read at offset `a` of `s` is the one at the start of the 40
/// bytes from `a` on.
proof fn lemma_section_at_slot(s: Seq<u8>, a: int)
    requires
        0 <= a,
        a + SECTION_HEADER_SIZE <= s.len(),
    ensures
        section_at(s, a) == section_at(s.subrange(a, a + SECTION_HEADER_SIZE), 0),
{
    let t = s.subrange(a, a + SECTION_HEADER_SIZE);
    assert forall|k: int| 0 <= k < 40 implies #[trigger] t[k] == s[a + k] by {}
}

/// A relocated record reads as the original record with `sh_offset` 0.
proof fn lemma_relocated_record_fields(img: Seq<u8>, i: int)
    requires
        table_fits(img),
        0 <= i < shnum(img),
    ensures
        relocated_record(img, i).len() == SECTION_HEADER_SIZE,
        section_at(relocated_record(img, i), 0) == (SectionHeader {
            sh_offset: 0,
            ..section_at(img, record_at(img, i))
        }),
{
    let o = record_at(img, i);
    let sub = img.subrange(o, o + SECTION_HEADER_SIZE);
    let r = relocated_record(img, i);
    lemma_section_at_slot(img, o);
    assert(le32_bytes(0) =~= seq![0u8, 0u8, 0u8, 0u8]);
    assert forall|k: int| 0 <= k < 40 && !(16 <= k < 20) implies #[trigger] r[k] == sub[k] by {}
    assert forall|k: int| 16 <= k < 20 implies #[trigger] r[k] == 0 by {}
    assert(le32(r, 16) == 0);
    assert(le32(r, 0) == le32(sub, 0));
    assert(le32(r, 4) == le32(sub, 4));
    assert(le32(r, 8) == le32(sub, 8));
    assert(le32(r, 12) == le32(sub, 12));
    assert(le32(r, 20) == le32(sub, 20));
    assert(le32(r, 24) == le32(sub, 24));
    assert(le32(r, 28) == le32(sub, 28));
    assert(le32(r, 32) == le32(sub, 32));
    assert(le32(r, 36) == le32(sub, 36));
}

/// The header of a relocated image: the original one but for `e_shoff`.
proof fn lemma_relocated_header_fields(img: Seq<u8>)
    requires
        relocatable(img),
    ensures
        ({
            let d = relocated_image(img);
            &&& d.len() == relocated_len(img)
            &&& d.subrange(0, 32) == img.subrange(0, 32)
            &&& shoff(d) == ELF_HEADER_SIZE
            &&& d.subrange(36, ELF_HEADER_SIZE as int) == img.subrange(36, ELF_HEADER_SIZE as int)
            &&& has_magic(d)
            &&& shnum(d) == shnum(img)
            &&& shstrndx(d) == shstrndx(img)
            &&& table_fits(d)
        }),
{
    let d = relocated_image(img);
    lemma_relocated_records_len(img, shnum(img) as nat);
    crate::bytes::lemma_le32_bytes(ELF_HEADER_SIZE as u32);
    assert(relocated_header(img).len() == ELF_HEADER_SIZE);
    assert(d.subrange(0, 32) =~= img.subrange(0, 32));
    assert(d.subrange(36, 52) =~= img.subrange(36, 52));
    assert(d.subrange(32, 36) =~= le32_bytes(ELF_HEADER_SIZE as u32));
    assert(d[32] == d.subrange(32, 36)[0] && d[33] == d.subrange(32, 36)[1]);
    assert(d[34] == d.subrange(32, 36)[2] && d[35] == d.subrange(32, 36)[3]);
    assert(d.subrange(0, 4) =~= img.subrange(0, 4));
    assert(d[48] == img[48] && d[49] == img[49] && d[50] == img[50] && d[51] == img[51]);
}

/// Record `i` of a relocated image, read where its header says the table
/// is, is the original record with `sh_offset` 0.
proof fn lemma_relocated_slot_reads(img: Seq<u8>, i: int)
    requires
        relocatable(img),
        0 <= i < shnum(img),
    ensures
        section_at(relocated_image(img), record_at(relocated_image(img), i)) == (SectionHeader {
            sh_offset: 0,
            ..section_at(img, record_at(img, i))
        }),
{
    let d = relocated_image(img);
    let n = shnum(img);
    lemma_relocated_header_fields(img);
    lemma_relocated_records_len(img, n as nat);
    lemma_relocated_records_slot(img, n as nat, i);
    lemma_relocated_record_fields(img, i);
    lemma_section_at_slot(d, record_at(d, i));
    assert(d.subrange(record_at(d, i), record_at(d, i) + 40) =~= relocated_records(
        img,
        n as nat,
    ).subrange(40 * i, 40 * i + 40));
}

/// Relocation round trip: relocating a relocatable image into a buffer of
/// exactly the size it needs succeeds, and the bytes written form an image
/// whose header is the original one but for `e_shoff`, which is the header's
/// size; whose section-header table, read at that offset, holds as many
/// records as the original, each equal to the original field for field but
/// for `sh_offset`, which is 0; and whose string-table bytes follow that
/// table.
pub proof fn lemma_relocation_round_trip(img: Seq<u8>)
    requires
        relocatable(img),
    ensures
        relocation_outcome(img, relocated_len(img)) is Ok,
        ({
            let d = relocated_image(img);
            &&& d.len() == relocated_len(img)
            &&& d.subrange(0, 32) == img.subrange(0, 32)
            &&& shoff(d) == ELF_HEADER_SIZE
            &&& d.subrange(36, ELF_HEADER_SIZE as int) == img.subrange(36, ELF_HEADER_SIZE as int)
            &&& has_magic(d)
            &&& shnum(d) == shnum(img)
            &&& shstrndx(d) == shstrndx(img)
            &&& table_fits(d)
            &&& forall|i: int|
                0 <= i < shnum(img) ==> #[trigger] section_at(d, record_at(d, i)) == (
                SectionHeader { sh_offset: 0, ..section_at(img, record_at(img, i)) })
            &&& d.subrange(record_at(d, shnum(d)), d.len() as int) == strtab_bytes(img)
        }),
{
    let d = relocated_image(img);
    lemma_relocated_header_fields(img);
    lemma_relocated_records_len(img, shnum(img) as nat);
    assert forall|i: int|
        0 <= i < shnum(img) implies #[trigger] section_at(d, record_at(d, i)) == (SectionHeader {
        sh_offset: 0,
        ..section_at(img, record_at(img, i))
    }) by {
        lemma_relocated_slot_reads(img, i);
    }
    assert(d.subrange(record_at(d, shnum(d)), d.len() as int) =~= strtab_bytes(img));
}

/// Relocating a relocated image again gives back its header and its
/// section-header table unchanged.
proof fn lemma_relocated_metadata_fixed(img: Seq<u8>, m: nat)
    requires
        relocatable(img),
        m <= shnum(img),
    ensures
        relocated_records(relocated_image(img), m) == relocated_records(img, m),
    decreases m,
{
    let d = relocated_image(img);
    if m > 0 {
        let i = m - 1;
        lemma_relocated_metadata_fixed(img, (m - 1) as nat);
        lemma_relocation_round_trip(img);
        lemma_relocated_records_len(img, shnum(img) as nat);
        lemma_relocated_records_slot(img, shnum(img) as nat, i);
        let slot = d.subrange(record_at(d, i), record_at(d, i) + 40);
        let recs = relocated_records(img, shnum(img) as nat);
        assert(slot =~= recs.subrange(40 * i, 40 * i + 40));
        let r = relocated_record(img, i);
        assert(le32_bytes(0) =~= seq![0u8, 0u8, 0u8, 0u8]);
        assert(relocated_record(d, i) =~= r);
    }
}

/// Relocation is idempotent: relocating the bytes that a relocation wrote
/// gives back the same header and section-header table. The string-table
/// record keeps its `sh_addr`, so the second relocation reads the string
/// table where that address points inside the relocated bytes: it succeeds
/// exactly when that range lies inside them, and gives back the whole image
/// byte for byte when the address is where the string table was placed.
pub proof fn lemma_relocation_idempotent(img: Seq<u8>)
    requires
        relocatable(img),
    ensures
        ({
            let d = relocated_image(img);
            let s = strtab_header(img);
            let placed = ELF_HEADER_SIZE + SECTION_HEADER_SIZE * shnum(img);
            &&& relocatable(d) <==> s.sh_addr + s.sh_size <= d.len()
            &&& relocatable(d) ==> {
                &&& relocated_len(d) == relocated_len(img)
                &&& relocated_image(d).subrange(0, placed) == d.subrange(0, placed)
            }
            &&& s.sh_addr == placed ==> relocatable(d) && relocated_image(d) == d
        }),
{
    let d = relocated_image(img);
    let n = shnum(img);
    let s = strtab_header(img);
    let placed = ELF_HEADER_SIZE + SECTION_HEADER_SIZE * n;
    lemma_relocation_round_trip(img);
    lemma_relocated_records_len(img, n as nat);
    crate::bytes::lemma_le32_bytes(ELF_HEADER_SIZE as u32);
    assert(strtab_header(d) == (SectionHeader { sh_offset: 0, ..s }));
    assert(relocated_header(d) =~= relocated_header(img));
    lemma_relocated_metadata_fixed(img, n as nat);
    assert(d.subrange(0, placed) =~= relocated_header(img) + relocated_records(img, n as nat));
    if relocatable(d) {
        assert(relocated_image(d).subrange(0, placed) =~= d.subrange(0, placed));
    }
    if s.sh_addr == placed {
        assert(strtab_bytes(d) =~= strtab_bytes(img));
        assert(relocated_image(d) =~= d);
    }
}

impl<'a> ElfHeadWrapper<'a> {
    /// Writes the relocated record of section `i` at offset `at` of `dest`.
    fn copy_section(&self, i: usize, dest: &mut [u8], at: usize)
        requires
            self.wf(),
            table_fits(self.image@),
            i < shnum(self.image@),
            at + SECTION_HEADER_SIZE <= old(dest)@.len(),
        ensures
            final(dest)@ == old(dest)@.subrange(0, at as int) + relocated_record(
                self.image@,
                i as int,
            ) + old(dest)@.subrange(at + SECTION_HEADER_SIZE, old(dest)@.len() as int),
    {
        let len = self.image.len();
        let dlen = dest.len();
        assert(record_at(self.image@, i + 1) <= len);
        assert(at + SECTION_HEADER_SIZE <= dlen);
        let o = self.header.e_shoff as usize + SECTION_HEADER_SIZE * i;
        copy_bytes(dest, at, slice_subrange(self.image, o, o + SECTION_HEADER_SIZE));
        write_u32(dest, at + SH_OFFSET_AT, 0);
        assert(dest@ =~= old(dest)@.subrange(0, at as int) + relocated_record(
            self.image@,
            i as int,
        ) + old(dest)@.subrange(at + SECTION_HEADER_SIZE, old(dest)@.len() as int));
    }

    /// Relocates the image's metadata into `dest`: the header with `e_shoff`
    /// set to the header's size, then each section-header record in index
    /// order with `sh_offset` set to 0, then the bytes of the section-name
    /// string table. Every check is made before the first write, so on any
    /// error `dest` is left as it was; bytes of `dest` past what is written
    /// are left as they were too. `dest` cannot overlap the image, as one is
    /// borrowed mutably and the other shared.
    pub fn copy(&self, dest: &mut [u8]) -> (r: Result<RelocatedImage, ElfError>)
        requires
            self.wf(),
        ensures
            relocation_outcome(self.image@, old(dest)@.len() as int) matches Err(e) ==> {
                &&& r == Err::<RelocatedImage, ElfError>(e)
                &&& final(dest)@ == old(dest)@
            },
            relocation_outcome(self.image@, old(dest)@.len() as int) is Ok ==> {
                &&& r matches Ok(out) && out.len == relocated_len(self.image@)
                    && !out.section_data_relocated
                &&& final(dest)@ == relocated_image(self.image@) + old(dest)@.subrange(
                    relocated_len(self.image@),
                    old(dest)@.len() as int,
                )
            },
    {
        let ghost img = self.image@;
        if !self.test_valid() {
            return Err(ElfError::InvalidMagic);
        }
        let sections = match self.get_sections_headers() {
            Ok(v) => v,
            Err(e) => return Err(e),
        };
        let str_table = match self.get_str_table(sections.as_slice()) {
            Ok(t) => t,
            Err(e) => return Err(e),
        };
        let n = sections.len();
        let meta_len = ELF_HEADER_SIZE + SECTION_HEADER_SIZE * n;
        let dlen = dest.len();
        if dlen < meta_len || dlen - meta_len < str_table.len() {
            return Err(ElfError::InsufficientDestination);
        }
        copy_bytes(dest, 0, slice_subrange(self.image, 0, ELF_HEADER_SIZE));
        write_u32(dest, E_SHOFF_AT, ELF_HEADER_SIZE as u32);
        assert(dest@ =~= relocated_header(img) + relocated_records(img, 0) + old(dest)@.subrange(
            ELF_HEADER_SIZE as int,
            dlen as int,
        ));
        let mut at: usize = ELF_HEADER_SIZE;
        let mut i: usize = 0;
        while i < n
            invariant
                self.wf(),
                img == self.image@,
                relocatable(img),
                n == shnum(img),
                i <= n,
                at == ELF_HEADER_SIZE + SECTION_HEADER_SIZE * i,
                meta_len == ELF_HEADER_SIZE + SECTION_HEADER_SIZE * n,
                meta_len <= dlen,
                dlen == old(dest)@.len(),
                dest@ == relocated_header(img) + relocated_records(img, i as nat) + old(
                    dest,
                )@.subrange(at as int, dlen as int),
            decreases n - i,
        {
            let ghost before = dest@;
            proof {
                lemma_relocated_records_len(img, i as nat);
            }
            self.copy_section(i, dest, at);
            assert(before.subrange(0, at as int) =~= relocated_header(img) + relocated_records(
                img,
                i as nat,
            ));
            assert(before.subrange(at + SECTION_HEADER_SIZE, dlen as int) =~= old(
                dest,
            )@.subrange(at + SECTION_HEADER_SIZE, dlen as int));
            assert(relocated_records(img, (i + 1) as nat) == relocated_records(img, i as nat)
                + relocated_record(img, i as int));
            assert(dest@ =~= relocated_header(img) + relocated_records(img, (i + 1) as nat) + old(
                dest,
            )@.subrange(at + SECTION_HEADER_SIZE, dlen as int));
            at = at + SECTION_HEADER_SIZE;
            i = i + 1;
        }
        let ghost before = dest@;
        proof {
            lemma_relocated_records_len(img, n as nat);
        }
        copy_bytes(dest, at, str_table);
        assert(before.subrange(0, at as int) =~= relocated_header(img) + relocated_records(
            img,
            n as nat,
        ));
        assert(before.subrange(at + str_table@.len(), dlen as int) =~= old(dest)@.subrange(
            at + str_table@.len(),
            dlen as int,
        ));
        assert(dest@ =~= relocated_image(img) + old(dest)@.subrange(
            relocated_len(img),
            dlen as int,
        ));
        Ok(RelocatedImage { len: at + str_table.len(), section_data_relocated: false })
    }
}

} // verus!

use elf32_reloc::bytes::get_byte;
use elf32_reloc::header::{sh_flags, sh_type, Section, SectionHeader};
use elf32_reloc::image::{validate, ElfError, ElfHeadWrapper};
use elf32_reloc::relocate::RelocatedImage;

fn put16(b: &mut Vec<u8>, v: u16) {
    b.extend_from_slice(&v.to_le_bytes());
}

fn put32(b: &mut Vec<u8>, v: u32) {
    b.extend_from_slice(&v.to_le_bytes());
}

fn header(shoff: u32, shnum: u16, shstrndx: u16) -> Vec<u8> {
    let mut b = vec![0x7f, b'E', b'L', b'F', 1, 1, 1, 0, 0, 0, 0, 0, 0, 0, 0, 0];
    put16(&mut b, 2); // e_type
    put16(&mut b, 0x28); // e_machine
    put32(&mut b, 1); // e_version
    put32(&mut b, 0x8000); // e_entry
    put32(&mut b, 0); // e_phoff
    put32(&mut b, shoff);
    put32(&mut b, 0x0500_0000); // e_flags
    put16(&mut b, 52);
    put16(&mut b, 32);
    put16(&mut b, 0);
    put16(&mut b, 40);
    put16(&mut b, shnum);
    put16(&mut b, shstrndx);
    b
}

fn record(b: &mut Vec<u8>, s: &SectionHeader) {
    for v in [
        s.sh_name,
        s.sh_type,
        s.sh_flags,
        s.sh_addr,
        s.sh_offset,
        s.sh_size,
        s.sh_link,
        s.sh_info,
        s.sh_addralign,
        s.sh_entsize,
    ] {
        put32(b, v);
    }
}

fn sh(name: u32, ty: u32, flags: u32, addr: u32, offset: u32, size: u32) -> SectionHeader {
    SectionHeader {
        sh_name: name,
        sh_type: ty,
        sh_flags: flags,
        sh_addr: addr,
        sh_offset: offset,
        sh_size: size,
        sh_link: 0,
        sh_info: 0,
        sh_addralign: 4,
        sh_entsize: 0,
    }
}

const STRTAB: &[u8] = b"\0.text\0.shstrtab\0";

/// A header, three section headers right after it at 52, and the string
/// table right after those at 172.
fn sample_sections() -> Vec<SectionHeader> {
    vec![
        sh(0, 0, 0, 0, 0, 0),
        sh(1, 1, 6, 0x8000, 0x200, 0x10),
        sh(7, 3, 0, 172, 172, STRTAB.len() as u32),
    ]
}

fn sample_image() -> Vec<u8> {
    let mut b = header(52, 3, 2);
    for s in sample_sections() {
        record(&mut b, &s);
    }
    b.extend_from_slice(STRTAB);
    b
}

/// The same sections, but the table at 64 after padding and the string
/// table further on at 200.
fn padded_image() -> Vec<u8> {
    let mut b = header(64, 3, 2);
    b.resize(64, 0xee);
    let mut secs = sample_sections();
    secs[2].sh_addr = 200;
    secs[2].sh_offset = 200;
    for s in &secs {
        record(&mut b, s);
    }
    b.resize(200, 0xee);
    b.extend_from_slice(STRTAB);
    b.extend_from_slice(&[0xee; 8]);
    b
}

fn zero_offset(s: &SectionHeader) -> SectionHeader {
    let mut z = *s;
    z.sh_offset = 0;
    z
}

#[test]
fn validate_accepts_magic() {
    assert!(validate(&[0x7f, 0x45, 0x4c, 0x46, 9, 9]));
    assert!(validate(&[0x7f, 0x45, 0x4c, 0x46]));
}

#[test]
fn validate_rejects_other_bytes() {
    assert!(!validate(&[0x7f, 0x45, 0x4c, 0x00, 1, 1]));
    assert!(!validate(&[0x00, 0x45, 0x4c, 0x46]));
    assert!(!validate(&[0x7f, 0x45, 0x4c]));
    assert!(!validate(&[]));
}

#[test]
fn test_valid_reads_identification() {
    let img = sample_image();
    assert!(ElfHeadWrapper::new(&img).unwrap().test_valid());
    let mut bad = sample_image();
    bad[1] = b'e';
    assert!(!ElfHeadWrapper::new(&bad).unwrap().test_valid());
}

#[test]
fn new_reads_header_fields() {
    let img = sample_image();
    let w = ElfHeadWrapper::new(&img).unwrap();
    assert_eq!(w.header.e_type, 2);
    assert_eq!(w.header.e_machine, 0x28);
    assert_eq!(w.header.e_entry, 0x8000);
    assert_eq!(w.header.e_shoff, 52);
    assert_eq!(w.header.e_flags, 0x0500_0000);
    assert_eq!(w.header.e_shentsize, 40);
    assert_eq!(w.header.e_shnum, 3);
    assert_eq!(w.header.e_shstrndx, 2);
}

#[test]
fn new_rejects_short_buffer() {
    let img = sample_image();
    assert!(matches!(ElfHeadWrapper::new(&img[..51]), Err(ElfError::OutOfBounds)));
    assert!(ElfHeadWrapper::new(&img[..52]).is_ok());
}

#[test]
fn walker_returns_three_records_after_header() {
    let img = sample_image();
    let w = ElfHeadWrapper::new(&img).unwrap();
    let secs = w.get_sections_headers().unwrap();
    assert_eq!(secs, sample_sections());
    for (i, s) in secs.iter().enumerate() {
        let at = 52 + 40 * i;
        assert_eq!(s.sh_name, u32::from_le_bytes(img[at..at + 4].try_into().unwrap()));
    }
}

#[test]
fn walker_rejects_table_past_end() {
    let mut img = header(52, 4, 2);
    for s in sample_sections() {
        record(&mut img, &s);
    }
    let w = ElfHeadWrapper::new(&img).unwrap();
    assert_eq!(w.get_sections_headers(), Err(ElfError::OutOfBounds));
}

#[test]
fn str_table_bytes() {
    let img = sample_image();
    let w = ElfHeadWrapper::new(&img).unwrap();
    let secs = w.get_sections_headers().unwrap();
    assert_eq!(w.get_str_table(&secs).unwrap(), STRTAB);
}

#[test]
fn str_table_index_out_of_range() {
    let mut img = header(52, 3, 3);
    for s in sample_sections() {
        record(&mut img, &s);
    }
    img.extend_from_slice(STRTAB);
    let w = ElfHeadWrapper::new(&img).unwrap();
    let secs = w.get_sections_headers().unwrap();
    assert_eq!(w.get_str_table(&secs), Err(ElfError::IndexOutOfRange));
    assert_eq!(w.get_str_table(&[]), Err(ElfError::IndexOutOfRange));
    assert_eq!(w.get_section(Section::STRTAB), Err(ElfError::IndexOutOfRange));
}

#[test]
fn str_table_span_out_of_bounds() {
    let mut img = header(52, 3, 2);
    let mut secs = sample_sections();
    secs[2].sh_size = 18;
    for s in &secs {
        record(&mut img, s);
    }
    img.extend_from_slice(STRTAB);
    let w = ElfHeadWrapper::new(&img).unwrap();
    assert_eq!(w.get_str_table(&secs), Err(ElfError::OutOfBounds));
}

#[test]
fn get_section_strtab_record() {
    let img = padded_image();
    let w = ElfHeadWrapper::new(&img).unwrap();
    let s = w.get_section(Section::STRTAB).unwrap();
    assert_eq!(s.sh_addr, 200);
    assert_eq!(s.size(), STRTAB.len());
    assert_eq!(s.kind(), sh_type::STRTAB);
}

#[test]
fn copy_into_exact_size() {
    let img = padded_image();
    let w = ElfHeadWrapper::new(&img).unwrap();
    let mut dest = vec![0u8; 52 + 3 * 40 + STRTAB.len()];
    let out = w.copy(&mut dest).unwrap();
    assert_eq!(out, RelocatedImage { len: 189, section_data_relocated: false });
    assert_eq!(&dest[..32], &img[..32]);
    assert_eq!(&dest[36..52], &img[36..52]);
    let moved = ElfHeadWrapper::new(&dest).unwrap();
    assert!(moved.test_valid());
    assert_eq!(moved.header.e_shoff, 52);
    assert_eq!(moved.header.e_shnum, 3);
    let before = w.get_sections_headers().unwrap();
    let after = moved.get_sections_headers().unwrap();
    assert_eq!(after.len(), 3);
    for (a, b) in after.iter().zip(before.iter()) {
        assert_eq!(*a, zero_offset(b));
    }
    assert_eq!(&dest[172..], STRTAB);
}

#[test]
fn copy_too_small_destination() {
    let img = sample_image();
    let w = ElfHeadWrapper::new(&img).unwrap();
    let mut dest = vec![0xaau8; 188];
    assert_eq!(w.copy(&mut dest), Err(ElfError::InsufficientDestination));
    assert!(dest.iter().all(|&b| b == 0xaa));
    let mut tiny = vec![0xaau8; 10];
    assert_eq!(w.copy(&mut tiny), Err(ElfError::InsufficientDestination));
    assert!(tiny.iter().all(|&b| b == 0xaa));
}

#[test]
fn copy_rejects_bad_magic() {
    let mut img = sample_image();
    img[3] = 0;
    let w = ElfHeadWrapper::new(&img).unwrap();
    let mut dest = vec![0x55u8; 400];
    assert_eq!(w.copy(&mut dest), Err(ElfError::InvalidMagic));
    assert!(dest.iter().all(|&b| b == 0x55));
}

#[test]
fn copy_reports_index_error() {
    let mut img = header(52, 3, 7);
    for s in sample_sections() {
        record(&mut img, &s);
    }
    img.extend_from_slice(STRTAB);
    let w = ElfHeadWrapper::new(&img).unwrap();
    let mut dest = vec![0x55u8; 400];
    assert_eq!(w.copy(&mut dest), Err(ElfError::IndexOutOfRange));
    assert!(dest.iter().all(|&b| b == 0x55));
}

#[test]
fn copy_leaves_rest_of_destination() {
    let img = sample_image();
    let w = ElfHeadWrapper::new(&img).unwrap();
    let mut dest = vec![0x99u8; 200];
    let out = w.copy(&mut dest).unwrap();
    assert_eq!(out.len, 189);
    assert!(dest[189..].iter().all(|&b| b == 0x99));
    assert_eq!(dest[52 + 40 + 16], 0);
    assert_eq!(dest[52 + 40 + 17], 0);
}

#[test]
fn copy_of_copy_is_the_same() {
    let img = padded_image();
    let w = ElfHeadWrapper::new(&img).unwrap();
    let mut first = vec![0u8; 189];
    w.copy(&mut first).unwrap();
    // the string-table record still points at 200, past the relocated bytes
    let again = ElfHeadWrapper::new(&first).unwrap();
    let mut second = vec![0u8; 189];
    assert_eq!(again.copy(&mut second), Err(ElfError::OutOfBounds));

    let img = sample_image();
    let w = ElfHeadWrapper::new(&img).unwrap();
    let mut first = vec![0u8; 189];
    w.copy(&mut first).unwrap();
    let again = ElfHeadWrapper::new(&first).unwrap();
    assert!(again.test_valid());
    let mut second = vec![0u8; 189];
    assert_eq!(again.copy(&mut second).unwrap().len, 189);
    assert_eq!(first, second);
}

#[test]
fn get_byte_takes_bits_from_position() {
    assert_eq!(get_byte(0x7f45_4c46, 24), 0x7f);
    assert_eq!(get_byte(0x7f45_4c46, 16), 0x45);
    assert_eq!(get_byte(0x7f45_4c46, 0), 0x46);
    assert_eq!(get_byte(0x1234, 4), 0x23);
}

#[test]
fn section_type_codes() {
    assert_eq!(sh_type::from_raw(0), sh_type::NULL);
    assert_eq!(sh_type::from_raw(3), sh_type::STRTAB);
    assert_eq!(sh_type::from_raw(11), sh_type::DYNSYM);
    assert_eq!(sh_type::from_raw(12), sh_type::OTHER(12));
    assert_eq!(sh_type::from_raw(0x7000_0001), sh_type::PROC(0x7000_0001));
    assert_eq!(sh_type::from_raw(0x8000_0000), sh_type::USER(0x8000_0000));
    assert_eq!(sh_type::from_raw(0xffff_ffff).raw(), 0xffff_ffff);
    assert_eq!(sh_type::RELA.raw(), 4);
}

#[test]
fn section_flags() {
    let s = sh(1, 1, 6, 0x8000, 0x200, 0x10);
    assert!(s.has_flag(sh_flags::ALLOC));
    assert!(s.has_flag(sh_flags::EXECINSTR));
    assert!(!s.has_flag(sh_flags::WRITE));
    assert!(!s.has_flag(sh_flags::MASKPROC));
    assert_eq!(sh_flags::MASKPROC.mask(), 0xf000_0000);
    assert_eq!(s.size(), 0x10);
    assert_eq!(s.kind(), sh_type::PROGBITS);
}

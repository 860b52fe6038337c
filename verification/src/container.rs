//! The ELF container, as read by the `elf` crate.
//!
//! Nothing in this file is proved. It declares the parser's types, names
//! what the parser finds in a buffer, and wraps each parser call that the
//! verified modules make. Everything else in the library is proved against
//! the contracts stated here.

use vstd::prelude::*;
use vstd::string::StringSliceAdditionalSpecFns;

verus! {

/// The word size that an image declares.
#[derive(Clone, Copy, Debug, PartialEq, Eq, Structural)]
pub enum ElfClass {
    Elf32,
    Elf64,
}

/// The fields of the file header that validation reads.
#[derive(Clone, Copy, Debug, PartialEq, Eq, Structural)]
pub struct ElfHeader {
    pub class: ElfClass,
    pub file_type: u16,
    pub machine: u16,
}

/// One entry of the section header table, field for field.
#[derive(Clone, Copy, Debug, PartialEq, Eq, Structural)]
pub struct SectionHeader {
    pub sh_name: u32,
    pub sh_type: u32,
    pub sh_flags: u64,
    pub sh_addr: u64,
    pub sh_offset: u64,
    pub sh_size: u64,
    pub sh_link: u32,
    pub sh_info: u32,
    pub sh_addralign: u64,
    pub sh_entsize: u64,
}

/// What a lookup of the section header table and its name strings finds in
/// an image.
pub ghost enum SectionLookup {
    /// The lookup itself failed.
    Unreadable,
    /// The lookup succeeded; either part may still be absent.
    Found { headers: Option<Seq<SectionHeader>>, names: Option<Map<int, Seq<u8>>> },
}

/// `elf::parse::ParseError`, the parser's error. Opaque here: the library
/// only ever tells success from failure.
#[verifier::external_type_specification]
#[verifier::external_body]
pub struct ExParseError(elf::parse::ParseError);

/// `elf::string_table::StringTable`, a table of NUL-terminated strings that
/// are found by byte offset.
#[verifier::external_type_specification]
#[verifier::external_body]
pub struct ExStringTable<'data>(elf::string_table::StringTable<'data>);

/// A parsed image: `elf::ElfBytes` over a caller's buffer.
#[verifier::external_body]
pub struct ElfImage<'a> {
    inner: elf::ElfBytes<'a, elf::endian::AnyEndian>,
}

/// The section header table of an image: `elf::section::SectionHeaderTable`.
#[verifier::external_body]
pub struct SectionTable<'a> {
    inner: elf::section::SectionHeaderTable<'a, elf::endian::AnyEndian>,
}

/// The header that `ElfBytes::minimal_parse` reads from `data`, or `None`
/// where it rejects `data`.
pub uninterp spec fn elf_header(data: Seq<u8>) -> Option<ElfHeader>;

/// The bytes that a parsed image was made from.
pub uninterp spec fn image_bytes(image: ElfImage<'_>) -> Seq<u8>;

/// What `ElfBytes::section_headers_with_strtab` finds in the image made
/// from `data`.
pub uninterp spec fn elf_sections(data: Seq<u8>) -> SectionLookup;

/// The entries of a section header table, in table order.
pub uninterp spec fn table_entries(table: SectionTable<'_>) -> Seq<SectionHeader>;

/// The strings of a string table: each offset at which `StringTable::get`
/// finds a string, with the bytes of that string.
pub uninterp spec fn table_strings(table: elf::string_table::StringTable<'_>) -> Map<
    int,
    Seq<u8>,
>;

/// Section type of a section that occupies no bytes in the file.
pub const SHT_NOBITS: u32 = 8;

/// Section flag of a section whose bytes are compressed.
pub const SHF_COMPRESSED: u64 = 0x800;

/// `data` starts with the sixteen identification bytes and these open with
/// the ELF magic number.
pub open spec fn has_elf_magic(data: Seq<u8>) -> bool {
    &&& data.len() >= 16
    &&& data[0] == 0x7f
    &&& data[1] == 0x45
    &&& data[2] == 0x4c
    &&& data[3] == 0x46
}

/// The bytes of the section that `header` describes, where the image
/// `bytes` holds them uncompressed: nothing for a section without file
/// bytes, otherwise the `sh_size` bytes at `sh_offset`. `None` where the
/// range leaves the image or the section is flagged as compressed.
pub open spec fn plain_payload(bytes: Seq<u8>, header: SectionHeader) -> Option<Seq<u8>> {
    if header.sh_type == SHT_NOBITS {
        Some(Seq::empty())
    } else if header.sh_offset + header.sh_size <= bytes.len() && header.sh_flags & SHF_COMPRESSED
        == 0 {
        Some(bytes.subrange(header.sh_offset as int, header.sh_offset + header.sh_size))
    } else {
        None
    }
}

/// The lookup result that a pair of tables stands for.
pub open spec fn lookup_of(
    found: Result<
        (Option<SectionTable<'_>>, Option<elf::string_table::StringTable<'_>>),
        elf::parse::ParseError,
    >,
) -> SectionLookup {
    match found {
        Err(_) => SectionLookup::Unreadable,
        Ok((headers, names)) => SectionLookup::Found {
            headers: match headers {
                Some(table) => Some(table_entries(table)),
                None => None,
            },
            names: match names {
                Some(table) => Some(table_strings(table)),
                None => None,
            },
        },
    }
}

/// Calls `elf::ElfBytes::<AnyEndian>::minimal_parse`. Claimed: it succeeds
/// exactly where [`elf_header`] is `Some`, the header fields returned are
/// those, the image keeps the buffer it was given, and a buffer that is
/// shorter than the identification bytes or lacks the magic number is
/// rejected.
#[verifier::external_body]
pub(crate) fn parse_image<'a>(data: &'a [u8]) -> (parsed: Result<
    (ElfHeader, ElfImage<'a>),
    elf::parse::ParseError,
>)
    ensures
        match parsed {
            Ok((header, image)) => elf_header(data@) == Some(header) && image_bytes(image)
                == data@,
            Err(_) => elf_header(data@) is None,
        },
        !has_elf_magic(data@) ==> parsed is Err,
{
    let inner = elf::ElfBytes::<elf::endian::AnyEndian>::minimal_parse(data)?;
    let class = match inner.ehdr.class {
        elf::file::Class::ELF32 => ElfClass::Elf32,
        elf::file::Class::ELF64 => ElfClass::Elf64,
    };
    let header = ElfHeader { class, file_type: inner.ehdr.e_type, machine: inner.ehdr.e_machine };
    Ok((header, ElfImage { inner }))
}

/// Calls `elf::ElfBytes::section_headers_with_strtab`. Claimed: what comes
/// back is what [`elf_sections`] names for the image's bytes.
#[verifier::external_body]
pub(crate) fn locate_sections<'a>(image: &ElfImage<'a>) -> (found: Result<
    (Option<SectionTable<'a>>, Option<elf::string_table::StringTable<'a>>),
    elf::parse::ParseError,
>)
    ensures
        lookup_of(found) == elf_sections(image_bytes(*image)),
{
    let (headers, names) = image.inner.section_headers_with_strtab()?;
    Ok((headers.map(|inner| SectionTable { inner }), names))
}

/// Walks a section header table with `ParsingTable::iter` and copies each
/// entry's fields. Claimed: the entries come out in table order.
#[verifier::external_body]
pub(crate) fn section_headers(table: &SectionTable<'_>) -> (headers: Vec<SectionHeader>)
    ensures
        headers@ == table_entries(*table),
{
    table.inner.iter().map(|h| SectionHeader {
        sh_name: h.sh_name,
        sh_type: h.sh_type,
        sh_flags: h.sh_flags,
        sh_addr: h.sh_addr,
        sh_offset: h.sh_offset,
        sh_size: h.sh_size,
        sh_link: h.sh_link,
        sh_info: h.sh_info,
        sh_addralign: h.sh_addralign,
        sh_entsize: h.sh_entsize,
    }).collect()
}

/// Calls `elf::string_table::StringTable::get`. Claimed: it succeeds
/// exactly at the offsets that [`table_strings`] has, with that string.
#[verifier::external_body]
pub(crate) fn string_at<'a>(table: &elf::string_table::StringTable<'a>, offset: usize) -> (found:
    Result<&'a str, elf::parse::ParseError>)
    ensures
        match found {
            Ok(name) => table_strings(*table).contains_key(offset as int) && table_strings(
                *table,
            )[offset as int] == name.spec_bytes(),
            Err(_) => !table_strings(*table).contains_key(offset as int),
        },
{
    table.get(offset)
}

/// Calls `elf::ElfBytes::section_data` and reports whether a compression
/// header came with the bytes. Claimed: bytes come back without one exactly
/// where [`plain_payload`] has them, and they are those bytes.
#[verifier::external_body]
pub(crate) fn section_data<'a>(image: &ElfImage<'a>, header: &SectionHeader) -> (fetched: Result<
    (&'a [u8], bool),
    elf::parse::ParseError,
>)
    ensures
        match fetched {
            Ok((bytes, false)) => plain_payload(image_bytes(*image), *header) == Some(bytes@),
            _ => plain_payload(image_bytes(*image), *header) is None,
        },
{
    let shdr = elf::section::SectionHeader {
        sh_name: header.sh_name,
        sh_type: header.sh_type,
        sh_flags: header.sh_flags,
        sh_addr: header.sh_addr,
        sh_offset: header.sh_offset,
        sh_size: header.sh_size,
        sh_link: header.sh_link,
        sh_info: header.sh_info,
        sh_addralign: header.sh_addralign,
        sh_entsize: header.sh_entsize,
    };
    let (bytes, compression) = image.inner.section_data(&shdr)?;
    Ok((bytes, compression.is_some()))
}

} // verus!

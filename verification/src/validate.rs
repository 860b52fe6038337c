//! Accepting or turning down a buffer as an image of the target
//! architecture.

use vstd::prelude::*;
use crate::container::{
    elf_header, elf_sections, has_elf_magic, image_bytes, locate_sections, lookup_of,
    parse_image, table_entries, table_strings, ElfClass, ElfHeader, ElfImage, SectionHeader,
    SectionLookup, SectionTable,
};
use crate::error::ElfError;

verus! {

/// File type of an executable image.
pub const ET_EXEC: u16 = 2;

/// Machine code of the target architecture.
pub const EM_TARGET: u16 = 258;

/// The section header table and the section names of an accepted image.
pub ghost struct SectionIndex {
    pub headers: Seq<SectionHeader>,
    pub names: Map<int, Seq<u8>>,
}

/// The header describes a 32-bit executable for the target machine.
pub open spec fn is_supported(header: ElfHeader) -> bool {
    &&& header.class == ElfClass::Elf32
    &&& header.file_type == ET_EXEC
    &&& header.machine == EM_TARGET
}

/// The verdict on a header, or on the lack of one.
pub open spec fn header_verdict(header: Option<ElfHeader>) -> Result<(), ElfError> {
    match header {
        None => Err(ElfError::InvalidFormat),
        Some(h) => if is_supported(h) {
            Ok(())
        } else {
            Err(ElfError::UnsupportedArchitecture)
        },
    }
}

/// The verdict on a section lookup: both tables, or the error for what is
/// missing. A missing header table is reported before missing names.
pub open spec fn lookup_verdict(lookup: SectionLookup) -> Result<SectionIndex, ElfError> {
    match lookup {
        SectionLookup::Unreadable => Err(ElfError::UnreadableSectionTable),
        SectionLookup::Found { headers: None, .. } => Err(ElfError::MissingSectionTable),
        SectionLookup::Found { headers: Some(_), names: None } => Err(
            ElfError::MissingStringTable,
        ),
        SectionLookup::Found { headers: Some(headers), names: Some(names) } => Ok(
            SectionIndex { headers, names },
        ),
    }
}

/// The verdict on a whole buffer: the header is judged first, the section
/// lookup only for a supported header.
pub open spec fn validation(data: Seq<u8>) -> Result<SectionIndex, ElfError> {
    match header_verdict(elf_header(data)) {
        Err(e) => Err(e),
        Ok(()) => lookup_verdict(elf_sections(data)),
    }
}

/// An image that passed validation, with its section header table and its
/// section names.
pub struct ValidatedImage<'a> {
    image: ElfImage<'a>,
    headers: SectionTable<'a>,
    names: elf::string_table::StringTable<'a>,
}

impl<'a> ValidatedImage<'a> {
    /// The bytes of the image.
    pub closed spec fn bytes(&self) -> Seq<u8> {
        image_bytes(self.image)
    }

    /// The section headers, in table order.
    pub closed spec fn section_headers(&self) -> Seq<SectionHeader> {
        table_entries(self.headers)
    }

    /// The section names, by offset into the name table.
    pub closed spec fn section_names(&self) -> Map<int, Seq<u8>> {
        table_strings(self.names)
    }

    /// The parsed image.
    pub(crate) fn image(&self) -> (image: &ElfImage<'a>)
        ensures
            image_bytes(*image) == self.bytes(),
    {
        &self.image
    }

    /// The section header table.
    pub(crate) fn header_table(&self) -> (table: &SectionTable<'a>)
        ensures
            table_entries(*table) == self.section_headers(),
    {
        &self.headers
    }

    /// The table of section names.
    pub(crate) fn name_table(&self) -> (table: &elf::string_table::StringTable<'a>)
        ensures
            table_strings(*table) == self.section_names(),
    {
        &self.names
    }
}

/// Judges a parsed header: accepted only for a 32-bit executable of the
/// target machine.
pub fn check_header(header: &ElfHeader) -> (verdict: Result<(), ElfError>)
    ensures
        verdict == header_verdict(Some(*header)),
{
    let is_32_bit = match header.class {
        ElfClass::Elf32 => true,
        ElfClass::Elf64 => false,
    };
    if is_32_bit && header.file_type == ET_EXEC && header.machine == EM_TARGET {
        Ok(())
    } else {
        Err(ElfError::UnsupportedArchitecture)
    }
}

/// Judges what a section lookup returned: both tables are needed.
pub(crate) fn check_lookup<'a>(
    found: Result<
        (Option<SectionTable<'a>>, Option<elf::string_table::StringTable<'a>>),
        elf::parse::ParseError,
    >,
) -> (verdict: Result<(SectionTable<'a>, elf::string_table::StringTable<'a>), ElfError>)
    ensures
        match verdict {
            Ok((headers, names)) => lookup_verdict(lookup_of(found)) == Ok::<
                SectionIndex,
                ElfError,
            >(SectionIndex { headers: table_entries(headers), names: table_strings(names) }),
            Err(e) => lookup_verdict(lookup_of(found)) == Err::<SectionIndex, ElfError>(e),
        },
{
    match found {
        Err(_) => Err(ElfError::UnreadableSectionTable),
        Ok((None, _)) => Err(ElfError::MissingSectionTable),
        Ok((Some(_), None)) => Err(ElfError::MissingStringTable),
        Ok((Some(headers), Some(names))) => Ok((headers, names)),
    }
}

/// Parses `data` as an ELF image and accepts it if it is a 32-bit
/// executable for the target machine that has a section header table and
/// section names. Any other buffer is turned down with the one error that
/// [`validation`] gives for it; in particular every buffer that the parser
/// rejects, such as one without the ELF magic number, is an invalid format.
pub fn validate_elf<'a>(data: &'a [u8]) -> (verdict: Result<ValidatedImage<'a>, ElfError>)
    ensures
        match verdict {
            Ok(image) => validation(data@) == Ok::<SectionIndex, ElfError>(
                SectionIndex { headers: image.section_headers(), names: image.section_names() },
            ) && image.bytes() == data@,
            Err(e) => validation(data@) == Err::<SectionIndex, ElfError>(e),
        },
        !has_elf_magic(data@) ==> verdict == Err::<ValidatedImage<'a>, ElfError>(
            ElfError::InvalidFormat,
        ),
{
    let (header, image) = match parse_image(data) {
        Ok(parsed) => parsed,
        Err(_) => {
            return Err(ElfError::InvalidFormat);
        },
    };
    match check_header(&header) {
        Ok(()) => {},
        Err(e) => {
            return Err(e);
        },
    }
    match check_lookup(locate_sections(&image)) {
        Ok((headers, names)) => Ok(ValidatedImage { image, headers, names }),
        Err(e) => Err(e),
    }
}

} // verus!

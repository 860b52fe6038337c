//! The ways in which an ELF image is turned down as a whole.

use vstd::prelude::*;

verus! {

/// Why a buffer was not accepted as an image of the target architecture.
#[derive(Clone, Copy, Debug, PartialEq, Eq, Structural)]
pub enum ElfError {
    /// The buffer does not parse as an ELF container.
    InvalidFormat,
    /// It parses, but is not a 32-bit executable for the target machine.
    UnsupportedArchitecture,
    /// Looking up the section header table and its name strings failed.
    UnreadableSectionTable,
    /// The image has no section header table.
    MissingSectionTable,
    /// The image has no table of section names.
    MissingStringTable,
}

impl ElfError {
    /// The text shown to a caller for this error.
    pub open spec fn spec_message(self) -> Seq<char> {
        match self {
            ElfError::InvalidFormat => "Not a valid ELF file."@,
            ElfError::UnsupportedArchitecture => "Not an LA32 ELF file."@,
            ElfError::UnreadableSectionTable => "Can not find section headers with strtab"@,
            ElfError::MissingSectionTable => "Can not find section headers."@,
            ElfError::MissingStringTable => "Can not find strtab."@,
        }
    }

    /// The text shown to a caller for this error.
    pub fn message(self) -> (text: String)
        ensures
            text@ == self.spec_message(),
    {
        match self {
            ElfError::InvalidFormat => "Not a valid ELF file.".to_owned(),
            ElfError::UnsupportedArchitecture => "Not an LA32 ELF file.".to_owned(),
            ElfError::UnreadableSectionTable => "Can not find section headers with strtab".to_owned(),
            ElfError::MissingSectionTable => "Can not find section headers.".to_owned(),
            ElfError::MissingStringTable => "Can not find strtab.".to_owned(),
        }
    }
}

} // verus!

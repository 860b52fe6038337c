//! Finding the code-bearing sections of an accepted image.
//!
//! A section bears code if its name starts with `.text` and its bytes can
//! be had uncompressed. Sections are taken in the order of the section
//! header table, whatever their names.

use vstd::prelude::*;
use vstd::string::StringSliceAdditionalSpecFns;
use crate::container::{
    plain_payload, section_data, section_headers, string_at, SectionHeader,
};
use crate::validate::ValidatedImage;
use crate::words::words_of;

verus! {

/// The bytes of `.text`.
pub open spec fn text_prefix() -> Seq<u8> {
    seq![0x2eu8, 0x74u8, 0x65u8, 0x78u8, 0x74u8]
}

/// `name` starts with the bytes of `.text`.
pub open spec fn has_text_prefix(name: Seq<u8>) -> bool {
    name.len() >= 5 && name.take(5) == text_prefix()
}

/// The bytes to decode for one section: those of a section that is named
/// at its `sh_name` offset, whose name starts with `.text`, and whose bytes
/// the image holds uncompressed. `None` for every other section.
pub open spec fn code_payload(
    bytes: Seq<u8>,
    names: Map<int, Seq<u8>>,
    header: SectionHeader,
) -> Option<Seq<u8>> {
    if names.contains_key(header.sh_name as int) && has_text_prefix(names[header.sh_name as int]) {
        plain_payload(bytes, header)
    } else {
        None
    }
}

/// The payloads of the code-bearing sections among `headers`, in the order
/// of `headers`.
pub open spec fn code_sections(
    bytes: Seq<u8>,
    names: Map<int, Seq<u8>>,
    headers: Seq<SectionHeader>,
) -> Seq<Seq<u8>>
    decreases headers.len(),
{
    if headers.len() == 0 {
        Seq::empty()
    } else {
        let earlier = code_sections(bytes, names, headers.drop_last());
        match code_payload(bytes, names, headers.last()) {
            Some(payload) => earlier.push(payload),
            None => earlier,
        }
    }
}

/// The words of a run of sections: the words of the first section, then
/// those of the second, and so on. Words never straddle two sections.
pub open spec fn section_words(sections: Seq<Seq<u8>>) -> Seq<u32>
    decreases sections.len(),
{
    if sections.len() == 0 {
        Seq::empty()
    } else {
        section_words(sections.drop_last()) + words_of(sections.last())
    }
}

/// The byte sequences that a vector of slices stands for.
pub open spec fn payloads_of(sections: Seq<&[u8]>) -> Seq<Seq<u8>> {
    sections.map_values(|s: &[u8]| s@)
}

/// Tells whether a section name starts with `.text`.
pub fn is_code_name(name: &[u8]) -> (yes: bool)
    ensures
        yes == has_text_prefix(name@),
{
    if name.len() < 5 {
        return false;
    }
    let yes = name[0] == 0x2e && name[1] == 0x74 && name[2] == 0x65 && name[3] == 0x78 && name[4]
        == 0x74;
    proof {
        let head = name@.take(5);
        if yes {
            assert(head =~= text_prefix());
        } else {
            assert(head[0] == name@[0] && head[1] == name@[1] && head[2] == name@[2] && head[3]
                == name@[3] && head[4] == name@[4]);
            assert(text_prefix()[0] == 0x2e && text_prefix()[1] == 0x74 && text_prefix()[2]
                == 0x65 && text_prefix()[3] == 0x78 && text_prefix()[4] == 0x74);
        }
    }
    yes
}

/// The bytes to decode for the section that `header` describes, if it
/// bears code. A section whose name cannot be resolved, whose bytes cannot
/// be fetched or whose bytes are compressed is passed over.
pub fn select_section<'a>(image: &ValidatedImage<'a>, header: &SectionHeader) -> (payload: Option<
    &'a [u8],
>)
    ensures
        match payload {
            Some(bytes) => code_payload(image.bytes(), image.section_names(), *header) == Some(
                bytes@,
            ),
            None => code_payload(image.bytes(), image.section_names(), *header) is None,
        },
{
    let name = match string_at(image.name_table(), header.sh_name as usize) {
        Ok(name) => name,
        Err(_) => {
            return None;
        },
    };
    if !is_code_name(name.as_bytes()) {
        return None;
    }
    match section_data(image.image(), header) {
        Ok((bytes, false)) => Some(bytes),
        _ => None,
    }
}

/// The payloads of the code-bearing sections of an accepted image, in the
/// order of its section header table.
pub fn select_code_sections<'a>(image: &ValidatedImage<'a>) -> (sections: Vec<&'a [u8]>)
    ensures
        payloads_of(sections@) == code_sections(
            image.bytes(),
            image.section_names(),
            image.section_headers(),
        ),
{
    let headers = section_headers(image.header_table());
    let mut sections: Vec<&'a [u8]> = Vec::new();
    let mut i: usize = 0;
    while i < headers.len()
        invariant
            i <= headers.len(),
            headers@ == image.section_headers(),
            payloads_of(sections@) == code_sections(
                image.bytes(),
                image.section_names(),
                headers@.take(i as int),
            ),
        decreases headers.len() - i,
    {
        let ghost earlier = payloads_of(sections@);
        assert(headers@.take(i + 1).drop_last() =~= headers@.take(i as int));
        match select_section(image, &headers[i]) {
            Some(bytes) => {
                sections.push(bytes);
                assert(payloads_of(sections@) =~= earlier.push(bytes@));
            },
            None => {},
        }
        i = i + 1;
    }
    assert(headers@.take(i as int) =~= headers@);
    sections
}

/// Sections of a table followed by another are the sections of the first
/// followed by those of the second: table order decides, not the names.
pub proof fn lemma_code_sections_concat(
    bytes: Seq<u8>,
    names: Map<int, Seq<u8>>,
    first: Seq<SectionHeader>,
    second: Seq<SectionHeader>,
)
    ensures
        code_sections(bytes, names, first + second) == code_sections(bytes, names, first)
            + code_sections(bytes, names, second),
    decreases second.len(),
{
    if second.len() == 0 {
        assert(first + second =~= first);
    } else {
        assert((first + second).drop_last() =~= first + second.drop_last());
        assert((first + second).last() == second.last());
        lemma_code_sections_concat(bytes, names, first, second.drop_last());
    }
}

/// The words of sections followed by further sections are the words of
/// the former followed by those of the latter.
pub proof fn lemma_section_words_concat(first: Seq<Seq<u8>>, second: Seq<Seq<u8>>)
    ensures
        section_words(first + second) == section_words(first) + section_words(second),
    decreases second.len(),
{
    if second.len() == 0 {
        assert(first + second =~= first);
    } else {
        assert((first + second).drop_last() =~= first + second.drop_last());
        assert((first + second).last() == second.last());
        lemma_section_words_concat(first, second.drop_last());
    }
}

/// A table in which no section bears code yields no section, and so no
/// word to decode.
pub proof fn lemma_no_code_sections(
    bytes: Seq<u8>,
    names: Map<int, Seq<u8>>,
    headers: Seq<SectionHeader>,
)
    requires
        forall|i: int| 0 <= i < headers.len() ==> code_payload(bytes, names, headers[i]) is None,
    ensures
        code_sections(bytes, names, headers).len() == 0,
        section_words(code_sections(bytes, names, headers)).len() == 0,
    decreases headers.len(),
{
    if headers.len() > 0 {
        lemma_no_code_sections(bytes, names, headers.drop_last());
    }
}

/// A section whose name does not start with `.text` never bears code,
/// whatever its bytes.
pub proof fn lemma_other_names_bear_no_code(
    bytes: Seq<u8>,
    names: Map<int, Seq<u8>>,
    header: SectionHeader,
)
    requires
        names.contains_key(header.sh_name as int) ==> !has_text_prefix(
            names[header.sh_name as int],
        ),
    ensures
        code_payload(bytes, names, header) is None,
{
}

} // verus!

//! Decoding the code of an ELF image.

use vstd::prelude::*;
use crate::container::{elf_header, has_elf_magic, ElfClass, ElfHeader, SectionHeader};
use crate::decode::{
    categories_in_range, decode_raw, decoded_from, decoder_run, lemma_decoded_from_concat,
    lemma_records_of_len, records_in, records_of, Instruction, InstructionRecord,
    WasmDecodedInstruction,
};
use crate::error::ElfError;
use crate::select::{
    code_payload, code_sections, has_text_prefix, lemma_no_code_sections,
    lemma_other_names_bear_no_code, payloads_of, section_words, select_code_sections,
};
use crate::validate::{validate_elf, validation, EM_TARGET, ET_EXEC};
use crate::words::words_of;

verus! {

/// The words that an image offers for decoding, or the error with which
/// the image is turned down: the words of its code-bearing sections, in the
/// order of the section header table, each section from its first byte on.
pub open spec fn code_words(data: Seq<u8>) -> Result<Seq<u32>, ElfError> {
    match validation(data) {
        Err(e) => Err(e),
        Ok(index) => Ok(section_words(code_sections(data, index.names, index.headers))),
    }
}

/// Decodes the given sections one after the other and strings the results
/// together: all instructions of a section come before those of the next.
pub fn decode_sections<F: Fn(u32) -> Option<Instruction>>(
    sections: &[&[u8]],
    decoder: &F,
) -> (out: Vec<WasmDecodedInstruction>)
    requires
        forall|w: u32| call_requires(decoder, (w,)),
    ensures
        decoded_from(decoder, section_words(payloads_of(sections@)), records_in(out@)),
        categories_in_range(records_in(out@)),
{
    let mut out: Vec<WasmDecodedInstruction> = Vec::new();
    let mut i: usize = 0;
    proof {
        let none: Seq<Option<Instruction>> = Seq::empty();
        assert(payloads_of(sections@).take(0) =~= Seq::<Seq<u8>>::empty());
        assert(records_in(out@) =~= records_of(none));
        assert(decoder_run(decoder, section_words(payloads_of(sections@).take(0)), none));
    }
    while i < sections.len()
        invariant
            i <= sections.len(),
            forall|w: u32| call_requires(decoder, (w,)),
            decoded_from(
                decoder,
                section_words(payloads_of(sections@).take(i as int)),
                records_in(out@),
            ),
            categories_in_range(records_in(out@)),
        decreases sections.len() - i,
    {
        let ghost earlier_words = section_words(payloads_of(sections@).take(i as int));
        let ghost earlier = records_in(out@);
        let mut part = decode_raw(sections[i], decoder);
        let ghost added = records_in(part@);
        out.append(&mut part);
        proof {
            assert(records_in(out@) =~= earlier + added);
            assert(payloads_of(sections@).take(i + 1).drop_last() =~= payloads_of(sections@).take(
                i as int,
            ));
            assert(payloads_of(sections@).take(i + 1).last() == sections[i as int]@);
            lemma_decoded_from_concat(
                decoder,
                earlier_words,
                earlier,
                words_of(sections[i as int]@),
                added,
            );
        }
        i = i + 1;
    }
    assert(payloads_of(sections@).take(i as int) =~= payloads_of(sections@));
    out
}

/// Decodes the code of an ELF image.
///
/// The image is validated first; a buffer that is turned down gives the
/// error and no instruction at all. For an accepted image every complete
/// word of every code-bearing section is handed to the decoder once, in
/// the order of the section header table and of the bytes within each
/// section, and the recognised instructions are returned in that order. An
/// image without any code-bearing section gives no instructions and no
/// error.
pub fn decode_elf_instructions<F: Fn(u32) -> Option<Instruction>>(
    elf_data: &[u8],
    decoder: &F,
) -> (decoded: Result<Vec<WasmDecodedInstruction>, ElfError>)
    requires
        forall|w: u32| call_requires(decoder, (w,)),
    ensures
        match decoded {
            Ok(out) => code_words(elf_data@) matches Ok(words) && decoded_from(
                decoder,
                words,
                records_in(out@),
            ) && categories_in_range(records_in(out@)) && out.len() <= words.len(),
            Err(e) => code_words(elf_data@) == Err::<Seq<u32>, ElfError>(e),
        },
        !has_elf_magic(elf_data@) ==> decoded == Err::<Vec<WasmDecodedInstruction>, ElfError>(
            ElfError::InvalidFormat,
        ),
{
    let image = match validate_elf(elf_data) {
        Ok(image) => image,
        Err(e) => {
            return Err(e);
        },
    };
    let sections = select_code_sections(&image);
    let out = decode_sections(sections.as_slice(), decoder);
    proof {
        let words = section_words(payloads_of(sections@));
        let outcomes = choose|o: Seq<Option<Instruction>>|
            decoder_run(decoder, words, o) && records_in(out@) == records_of(o);
        lemma_records_of_len(outcomes);
        assert(records_in(out@).len() == out.len());
    }
    Ok(out)
}

/// A buffer that the parser rejects is turned down as an invalid format,
/// whatever else it holds.
pub proof fn lemma_unparsable_is_invalid_format(data: Seq<u8>)
    requires
        elf_header(data) is None,
    ensures
        code_words(data) == Err::<Seq<u32>, ElfError>(ElfError::InvalidFormat),
{
}

/// A buffer that parses but is not a 32-bit executable for the target
/// machine is turned down for its architecture, not as an invalid format;
/// a wrong machine code alone is enough.
pub proof fn lemma_foreign_image_is_unsupported(data: Seq<u8>, header: ElfHeader)
    requires
        elf_header(data) == Some(header),
        header.machine != EM_TARGET || header.file_type != ET_EXEC || header.class
            != ElfClass::Elf32,
    ensures
        code_words(data) == Err::<Seq<u32>, ElfError>(ElfError::UnsupportedArchitecture),
{
}

/// An accepted image in which no section name starts with `.text` offers
/// no word, so decoding it gives no instruction and no error, whatever the
/// decoder.
pub proof fn lemma_image_without_text_sections<F: Fn(u32) -> Option<Instruction>>(
    decoder: &F,
    data: Seq<u8>,
    records: Seq<InstructionRecord>,
)
    requires
        validation(data) matches Ok(index) && forall|i: int|
            0 <= i < index.headers.len() && index.names.contains_key(
                index.headers[i].sh_name as int,
            ) ==> !has_text_prefix(index.names[index.headers[i].sh_name as int]),
        code_words(data) matches Ok(words) && decoded_from(decoder, words, records),
    ensures
        code_words(data) == Ok::<Seq<u32>, ElfError>(Seq::empty()),
        records.len() == 0,
{
    let index = validation(data)->Ok_0;
    assert forall|i: int| 0 <= i < index.headers.len() implies code_payload(
        data,
        index.names,
        index.headers[i],
    ) is None by {
        lemma_other_names_bear_no_code(data, index.names, index.headers[i]);
    }
    lemma_no_code_sections(data, index.names, index.headers);
    let words = section_words(code_sections(data, index.names, index.headers));
    assert(words =~= Seq::<u32>::empty());
    let outcomes = choose|o: Seq<Option<Instruction>>|
        decoder_run(decoder, words, o) && records == records_of(o);
    assert(outcomes.len() == 0);
}

/// Where the section header table holds two code-bearing sections, the
/// words of the one that stands first in the table come first, whatever
/// the two are called; and so do its instructions.
pub proof fn lemma_table_order_decides<F: Fn(u32) -> Option<Instruction>>(
    decoder: &F,
    bytes: Seq<u8>,
    names: Map<int, Seq<u8>>,
    first: SectionHeader,
    second: SectionHeader,
    first_records: Seq<InstructionRecord>,
    second_records: Seq<InstructionRecord>,
)
    requires
        code_payload(bytes, names, first) is Some,
        code_payload(bytes, names, second) is Some,
        decoded_from(decoder, words_of(code_payload(bytes, names, first)->Some_0), first_records),
        decoded_from(
            decoder,
            words_of(code_payload(bytes, names, second)->Some_0),
            second_records,
        ),
    ensures
        section_words(code_sections(bytes, names, seq![first, second])) == words_of(
            code_payload(bytes, names, first)->Some_0,
        ) + words_of(code_payload(bytes, names, second)->Some_0),
        decoded_from(
            decoder,
            section_words(code_sections(bytes, names, seq![first, second])),
            first_records + second_records,
        ),
{
    let one = code_payload(bytes, names, first)->Some_0;
    let two = code_payload(bytes, names, second)->Some_0;
    let table = seq![first, second];
    reveal_with_fuel(code_sections, 3);
    reveal_with_fuel(section_words, 3);
    assert(table.drop_last() =~= seq![first]);
    assert(table.drop_last().drop_last() =~= Seq::<SectionHeader>::empty());
    assert(code_sections(bytes, names, table) =~= seq![one, two]);
    assert(seq![one, two].drop_last() =~= seq![one]);
    assert(seq![one, two].drop_last().drop_last() =~= Seq::<Seq<u8>>::empty());
    assert(section_words(seq![one, two]) =~= words_of(one) + words_of(two));
    lemma_decoded_from_concat(decoder, words_of(one), first_records, words_of(two), second_records);
}

} // verus!

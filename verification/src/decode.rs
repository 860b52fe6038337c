//! Running a word decoder over a buffer and collecting what it recognises.
//!
//! The decoder itself is supplied by the caller: any function from one word
//! to a decoded instruction or to nothing. This module fixes how often and
//! on what it is called, and what becomes of its answers.

use vstd::prelude::*;
use crate::category::{category_names, InstructionCategory};
use crate::words::{chunk_words, words_of};

verus! {

/// What a decoder says about one word it recognises.
#[derive(Clone, Copy, Debug)]
pub struct Instruction {
    pub mnemonic: &'static str,
    pub category: InstructionCategory,
}

/// One decoded instruction as handed to callers: the mnemonic and the
/// position of the category in the canonical order.
#[derive(Debug)]
pub struct WasmDecodedInstruction {
    pub mnemonic: String,
    pub category: u8,
}

/// The mathematical content of a decoded instruction.
pub ghost struct InstructionRecord {
    pub mnemonic: Seq<char>,
    pub category: int,
}

impl View for WasmDecodedInstruction {
    type V = InstructionRecord;

    open spec fn view(&self) -> InstructionRecord {
        InstructionRecord { mnemonic: self.mnemonic@, category: self.category as int }
    }
}

/// The record that is emitted for an instruction the decoder returned.
pub open spec fn record_of(instruction: Instruction) -> InstructionRecord {
    InstructionRecord {
        mnemonic: instruction.mnemonic@,
        category: instruction.category.spec_index() as int,
    }
}

/// The records emitted for a run of decoder answers: one per recognised
/// word, in order; an unrecognised word leaves no trace.
pub open spec fn records_of(outcomes: Seq<Option<Instruction>>) -> Seq<InstructionRecord>
    decreases outcomes.len(),
{
    if outcomes.len() == 0 {
        Seq::empty()
    } else {
        let earlier = records_of(outcomes.drop_last());
        match outcomes.last() {
            Some(instruction) => earlier.push(record_of(instruction)),
            None => earlier,
        }
    }
}

/// `outcomes` is a possible run of the decoder over `words`: one answer per
/// word, each an answer the decoder may give for that word.
pub open spec fn decoder_run<F: Fn(u32) -> Option<Instruction>>(
    decoder: &F,
    words: Seq<u32>,
    outcomes: Seq<Option<Instruction>>,
) -> bool {
    &&& outcomes.len() == words.len()
    &&& forall|i: int|
        0 <= i < words.len() ==> call_ensures(decoder, (#[trigger] words[i],), outcomes[i])
}

/// `records` is what decoding `words` with `decoder` may produce.
pub open spec fn decoded_from<F: Fn(u32) -> Option<Instruction>>(
    decoder: &F,
    words: Seq<u32>,
    records: Seq<InstructionRecord>,
) -> bool {
    exists|outcomes: Seq<Option<Instruction>>|
        decoder_run(decoder, words, outcomes) && records == records_of(outcomes)
}

/// The records of a vector of decoded instructions.
pub open spec fn records_in(instructions: Seq<WasmDecodedInstruction>) -> Seq<InstructionRecord> {
    instructions.map_values(|d: WasmDecodedInstruction| d@)
}

/// Every record carries a category position that the canonical order has.
pub open spec fn categories_in_range(records: Seq<InstructionRecord>) -> bool {
    forall|k: int|
        0 <= k < records.len() ==> 0 <= (#[trigger] records[k]).category < category_names().len()
}

/// Records of a run followed by another are the records of the first
/// followed by those of the second.
pub proof fn lemma_records_of_concat(
    first: Seq<Option<Instruction>>,
    second: Seq<Option<Instruction>>,
)
    ensures
        records_of(first + second) == records_of(first) + records_of(second),
    decreases second.len(),
{
    if second.len() == 0 {
        assert(first + second =~= first);
        assert(records_of(first) + records_of(second) =~= records_of(first));
    } else {
        assert((first + second).drop_last() =~= first + second.drop_last());
        assert((first + second).last() == second.last());
        lemma_records_of_concat(first, second.drop_last());
        let earlier = records_of(first) + records_of(second.drop_last());
        match second.last() {
            Some(instruction) => {
                assert(earlier.push(record_of(instruction)) =~= records_of(first) + records_of(
                    second.drop_last(),
                ).push(record_of(instruction)));
            },
            None => {},
        }
    }
}

/// No run emits more records than it has answers, and it emits none when
/// the decoder recognised nothing.
pub proof fn lemma_records_of_len(outcomes: Seq<Option<Instruction>>)
    ensures
        records_of(outcomes).len() <= outcomes.len(),
        (forall|i: int| 0 <= i < outcomes.len() ==> outcomes[i] is None) ==> records_of(
            outcomes,
        ).len() == 0,
        (forall|i: int| 0 <= i < outcomes.len() ==> outcomes[i] is Some) ==> records_of(
            outcomes,
        ).len() == outcomes.len(),
    decreases outcomes.len(),
{
    if outcomes.len() > 0 {
        lemma_records_of_len(outcomes.drop_last());
    }
}

/// Whatever the decoder answers, the emitted categories are positions of
/// the canonical order.
pub proof fn lemma_records_categories(outcomes: Seq<Option<Instruction>>)
    ensures
        categories_in_range(records_of(outcomes)),
    decreases outcomes.len(),
{
    if outcomes.len() > 0 {
        lemma_records_categories(outcomes.drop_last());
    }
}

/// Decoding one stretch of words and then another gives what decoding both
/// stretches in one go may give: earlier words come out first.
pub proof fn lemma_decoded_from_concat<F: Fn(u32) -> Option<Instruction>>(
    decoder: &F,
    first: Seq<u32>,
    first_records: Seq<InstructionRecord>,
    second: Seq<u32>,
    second_records: Seq<InstructionRecord>,
)
    requires
        decoded_from(decoder, first, first_records),
        decoded_from(decoder, second, second_records),
    ensures
        decoded_from(decoder, first + second, first_records + second_records),
{
    let o1 = choose|o: Seq<Option<Instruction>>|
        decoder_run(decoder, first, o) && first_records == records_of(o);
    let o2 = choose|o: Seq<Option<Instruction>>|
        decoder_run(decoder, second, o) && second_records == records_of(o);
    lemma_records_of_concat(o1, o2);
    let words = first + second;
    let outcomes = o1 + o2;
    assert forall|i: int| 0 <= i < words.len() implies call_ensures(
        decoder,
        (#[trigger] words[i],),
        outcomes[i],
    ) by {
        if i < first.len() {
            assert(words[i] == first[i]);
        } else {
            assert(words[i] == second[i - first.len()]);
        }
    }
    assert(decoder_run(decoder, words, outcomes));
}

/// The decoder is asked once for every complete word of a buffer and for
/// nothing else: a run over the words of `bytes` has as many answers as
/// `bytes` has bytes, divided by four and rounded down.
pub proof fn lemma_one_attempt_per_word<F: Fn(u32) -> Option<Instruction>>(
    decoder: &F,
    bytes: Seq<u8>,
    outcomes: Seq<Option<Instruction>>,
)
    requires
        decoder_run(decoder, words_of(bytes), outcomes),
    ensures
        outcomes.len() == bytes.len() / 4,
{
}

/// With a decoder that gives one answer per word, namely `answer` of that
/// word, decoding has one result: the records of the recognised words, in
/// the order of the words. The same word therefore gives the same record
/// wherever it is met.
pub proof fn lemma_fixed_decoder<F: Fn(u32) -> Option<Instruction>>(
    decoder: &F,
    answer: spec_fn(u32) -> Option<Instruction>,
    words: Seq<u32>,
    records: Seq<InstructionRecord>,
)
    requires
        forall|w: u32, r: Option<Instruction>| call_ensures(decoder, (w,), r) ==> r == answer(w),
        decoded_from(decoder, words, records),
    ensures
        records == records_of(words.map_values(answer)),
{
    let outcomes = choose|o: Seq<Option<Instruction>>|
        decoder_run(decoder, words, o) && records == records_of(o);
    assert forall|i: int| 0 <= i < words.len() implies outcomes[i] == answer(words[i]) by {
        assert(call_ensures(decoder, (words[i],), outcomes[i]));
    }
    assert(outcomes =~= words.map_values(answer));
}

/// Decodes the given words in order and collects the instructions that the
/// decoder recognises.
pub fn decode_words<F: Fn(u32) -> Option<Instruction>>(words: &[u32], decoder: &F) -> (out: Vec<
    WasmDecodedInstruction,
>)
    requires
        forall|w: u32| call_requires(decoder, (w,)),
    ensures
        decoded_from(decoder, words@, records_in(out@)),
        categories_in_range(records_in(out@)),
        out.len() <= words.len(),
{
    let mut out: Vec<WasmDecodedInstruction> = Vec::new();
    let ghost mut outcomes: Seq<Option<Instruction>> = Seq::empty();
    let mut i: usize = 0;
    while i < words.len()
        invariant
            i <= words.len(),
            forall|w: u32| call_requires(decoder, (w,)),
            decoder_run(decoder, words@.take(i as int), outcomes),
            records_in(out@) == records_of(outcomes),
            out.len() <= i,
        decreases words.len() - i,
    {
        let answer = decoder(words[i]);
        proof {
            let before = outcomes;
            outcomes = outcomes.push(answer);
            assert(outcomes.drop_last() =~= before);
            assert(words@.take(i + 1) =~= words@.take(i as int).push(words[i as int]));
        }
        match answer {
            Some(instruction) => {
                let ghost earlier = records_in(out@);
                out.push(
                    WasmDecodedInstruction {
                        mnemonic: instruction.mnemonic.to_owned(),
                        category: instruction.category.index(),
                    },
                );
                assert(records_in(out@) =~= earlier.push(record_of(instruction)));
            },
            None => {},
        }
        i = i + 1;
    }
    proof {
        assert(words@.take(i as int) =~= words@);
        lemma_records_categories(outcomes);
    }
    out
}

/// Decodes every complete word of `data`, left to right, and collects the
/// instructions that the decoder recognises. Trailing bytes that do not
/// fill a word are not looked at.
pub fn decode_raw<F: Fn(u32) -> Option<Instruction>>(data: &[u8], decoder: &F) -> (out: Vec<
    WasmDecodedInstruction,
>)
    requires
        forall|w: u32| call_requires(decoder, (w,)),
    ensures
        decoded_from(decoder, words_of(data@), records_in(out@)),
        categories_in_range(records_in(out@)),
        out.len() <= data.len() / 4,
{
    let words = chunk_words(data);
    decode_words(words.as_slice(), decoder)
}

/// Decodes a flat buffer of instruction words. Never fails: a buffer
/// shorter than one word, the empty buffer included, gives no instructions.
pub fn decode_bin_instructions<F: Fn(u32) -> Option<Instruction>>(
    bin_data: &[u8],
    decoder: &F,
) -> (out: Vec<WasmDecodedInstruction>)
    requires
        forall|w: u32| call_requires(decoder, (w,)),
    ensures
        decoded_from(decoder, words_of(bin_data@), records_in(out@)),
        categories_in_range(records_in(out@)),
        out.len() <= bin_data.len() / 4,
        bin_data.len() < 4 ==> out.len() == 0,
{
    decode_raw(bin_data, decoder)
}

} // verus!

use la32_decode::decode::decode_words;
use la32_decode::{
    decode_bin_instructions, decode_raw, get_instruction_categories, Instruction,
    InstructionCategory, WasmDecodedInstruction,
};
use std::cell::RefCell;

const ADDI_W: u32 = 0x0280_0000;
const LD_W: u32 = 0x2880_0000;
const B: u32 = 0x5000_0000;

fn toy(word: u32) -> Option<Instruction> {
    match word {
        ADDI_W => Some(Instruction { mnemonic: "addi.w", category: InstructionCategory::Arithmetic }),
        LD_W => Some(Instruction { mnemonic: "ld.w", category: InstructionCategory::Memory }),
        B => Some(Instruction { mnemonic: "b", category: InstructionCategory::Branch }),
        _ => None,
    }
}

fn bytes_of(words: &[u32]) -> Vec<u8> {
    let mut bytes = Vec::new();
    for word in words {
        bytes.extend_from_slice(&word.to_le_bytes());
    }
    bytes
}

fn pairs(decoded: &[WasmDecodedInstruction]) -> Vec<(String, u8)> {
    decoded.iter().map(|d| (d.mnemonic.clone(), d.category)).collect()
}

#[test]
fn raw_mode_on_empty_input_is_empty() {
    assert!(decode_bin_instructions(&[], &toy).is_empty());
}

#[test]
fn raw_mode_on_short_input_is_empty() {
    assert!(decode_bin_instructions(&[0x00], &toy).is_empty());
    assert!(decode_bin_instructions(&[0x00, 0x00, 0x80], &toy).is_empty());
}

#[test]
fn raw_mode_known_word() {
    let decoded = decode_bin_instructions(&[0x00, 0x00, 0x80, 0x02], &toy);
    assert_eq!(pairs(&decoded), vec![("addi.w".to_string(), 0)]);
}

#[test]
fn raw_mode_keeps_word_order() {
    let decoded = decode_bin_instructions(&bytes_of(&[B, ADDI_W, LD_W, ADDI_W]), &toy);
    assert_eq!(
        pairs(&decoded),
        vec![
            ("b".to_string(), 3),
            ("addi.w".to_string(), 0),
            ("ld.w".to_string(), 4),
            ("addi.w".to_string(), 0),
        ]
    );
}

#[test]
fn unrecognised_words_are_passed_over() {
    let decoded = decode_bin_instructions(&bytes_of(&[0xffff_ffff, ADDI_W, 0, B, 1]), &toy);
    assert_eq!(pairs(&decoded), vec![("addi.w".to_string(), 0), ("b".to_string(), 3)]);
}

#[test]
fn nothing_recognised_gives_nothing() {
    let decoded = decode_bin_instructions(&bytes_of(&[1, 2, 3, 4]), &toy);
    assert!(decoded.is_empty());
}

#[test]
fn trailing_bytes_are_never_decoded() {
    let mut bytes = bytes_of(&[ADDI_W]);
    bytes.extend_from_slice(&[0x00, 0x00, 0x80]);
    let decoded = decode_bin_instructions(&bytes, &toy);
    assert_eq!(pairs(&decoded), vec![("addi.w".to_string(), 0)]);
}

#[test]
fn decoder_is_asked_once_per_complete_word() {
    for len in 0usize..=13 {
        let seen: RefCell<Vec<u32>> = RefCell::new(Vec::new());
        let spy = |word: u32| {
            seen.borrow_mut().push(word);
            toy(word)
        };
        let bytes: Vec<u8> = (0..len).map(|i| i as u8).collect();
        decode_bin_instructions(&bytes, &spy);
        assert_eq!(seen.borrow().len(), len / 4);
        let expected: Vec<u32> = (0..len / 4)
            .map(|i| {
                u32::from_le_bytes([bytes[4 * i], bytes[4 * i + 1], bytes[4 * i + 2], bytes[4 * i + 3]])
            })
            .collect();
        assert_eq!(*seen.borrow(), expected);
    }
}

#[test]
fn decode_raw_is_the_raw_mode() {
    let bytes = bytes_of(&[LD_W, 7, B]);
    assert_eq!(pairs(&decode_raw(&bytes, &toy)), pairs(&decode_bin_instructions(&bytes, &toy)));
    assert_eq!(pairs(&decode_raw(&bytes, &toy)), vec![("ld.w".to_string(), 4), ("b".to_string(), 3)]);
}

#[test]
fn decode_words_on_given_words() {
    let decoded = decode_words(&[ADDI_W, 9, LD_W], &toy);
    assert_eq!(pairs(&decoded), vec![("addi.w".to_string(), 0), ("ld.w".to_string(), 4)]);
    assert!(decode_words(&[], &toy).is_empty());
}

#[test]
fn every_category_is_an_index_into_the_names() {
    let names = get_instruction_categories();
    let every = |word: u32| {
        InstructionCategory::from_index((word % 16) as u8)
            .map(|category| Instruction { mnemonic: "op", category })
    };
    let words: Vec<u32> = (0..64).collect();
    let decoded = decode_bin_instructions(&bytes_of(&words), &every);
    assert_eq!(decoded.len(), 40);
    for d in &decoded {
        assert!((d.category as usize) < names.len());
    }
    assert_eq!(decoded[9].category, 9);
    assert_eq!(names[decoded[9].category as usize], "Miscellaneous");
}

#[test]
fn same_input_same_output() {
    let bytes = bytes_of(&[B, 5, ADDI_W]);
    assert_eq!(
        pairs(&decode_bin_instructions(&bytes, &toy)),
        pairs(&decode_bin_instructions(&bytes, &toy))
    );
}

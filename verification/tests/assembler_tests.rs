use austin_isa::assemble::{assemble, AsmError};
use austin_isa::decode::{decode, Instr};
use austin_isa::image::{bytes_from_words, words_from_bytes, ImageError};
use austin_isa::operands::{classify_token, scan_operands, Tok};
use austin_isa::tokens::{split_lines, tokenize};

fn assemble_str(src: &str) -> Result<Vec<u16>, AsmError> {
    assemble(&src.as_bytes().to_vec())
}

fn one_word(src: &str) -> u16 {
    let image = assemble_str(src).unwrap();
    assert_eq!(image.len(), 1);
    image[0]
}

#[test]
fn round_trip_nop() {
    assert_eq!(decode(one_word("NOP\n")), Some(Instr::Nop));
}

#[test]
fn round_trip_setflg() {
    let w = one_word("SETFLG #3, #0, #1, #2\n");
    assert_eq!(
        decode(w),
        Some(Instr::SetFlg { gt_code: 3, eq_code: 0, ls_code: 1, ov_code: 2 })
    );
}

#[test]
fn round_trip_ja() {
    let w = one_word("JA #7, P\n");
    assert_eq!(decode(w), Some(Instr::Ja { cond: 7, wide: 3 }));
}

#[test]
fn round_trip_store() {
    let w = one_word("STORE A, K\n");
    assert_eq!(decode(w), Some(Instr::Store { src: 0, wide: 1 }));
}

#[test]
fn round_trip_load() {
    let w = one_word("LOAD B, J\n");
    assert_eq!(decode(w), Some(Instr::Load { dst: 1, wide: 0 }));
}

#[test]
fn round_trip_register_register_alu() {
    // operands are a, b, out
    let w = one_word("ADD A B C\n");
    assert_eq!(decode(w), Some(Instr::Tra { op: 0b10101, out: 2, b: 1, a: 0 }));
    let w = one_word("SUB D E F\n");
    assert_eq!(decode(w), Some(Instr::Tra { op: 0b10110, out: 5, b: 4, a: 3 }));
    let w = one_word("MUL G H A\n");
    assert_eq!(decode(w), Some(Instr::Tra { op: 0b10111, out: 0, b: 7, a: 6 }));
    let w = one_word("PASS A B C\n");
    assert_eq!(decode(w), Some(Instr::Tra { op: 0b10100, out: 2, b: 1, a: 0 }));
}

#[test]
fn round_trip_register_immediate_alu() {
    // operands are the immediate, then a, then out
    let w = one_word("ADD #5 A B\n");
    assert_eq!(decode(w), Some(Instr::Im { op: 0b10101, imm: 5, out: 1, a: 0 }));
    let w = one_word("MUL #63 C D\n");
    assert_eq!(decode(w), Some(Instr::Im { op: 0b10111, imm: 63, out: 3, a: 2 }));
}

#[test]
fn round_trip_loadimm_within_six_bits() {
    let w = one_word("LOADIMM #42, A\n");
    assert_eq!(decode(w), Some(Instr::Im { op: 0b10100, imm: 42, out: 0, a: 0 }));
}

#[test]
fn loadimm_nine_bit_immediate_assembles() {
    // 511 fits the 9-bit LOADIMM field
    let w = one_word("LOADIMM #511, A\n");
    assert_eq!(w, 0x4000 | (511 << 6));
}

#[test]
fn loadimm_immediate_of_512_is_too_large() {
    assert_eq!(
        assemble_str("LOADIMM #512, A\n"),
        Err(AsmError::ImmediateTooLarge { value: 512, line: 1 })
    );
}

#[test]
fn other_immediates_are_limited_to_six_bits() {
    assert_eq!(
        assemble_str("ADD #64 A B\n"),
        Err(AsmError::ImmediateTooLarge { value: 64, line: 1 })
    );
    let w = one_word("ADD #63 A B\n");
    assert_eq!(decode(w), Some(Instr::Im { op: 0b10101, imm: 63, out: 1, a: 0 }));
}

#[test]
fn section_placement() {
    let src = "\
.start:
.foo 0x2000:
LOADIMM #1, A
LOADIMM #2, A
LOADIMM #3, A
.bar:
LOADIMM #4, A
LOADIMM #5, A
";
    let image = assemble_str(src).unwrap();
    // bar is sequential: it starts at 0x2000 + 3 = 0x2003
    assert_eq!(image.len(), 0x2005);
    let word = |imm: u16| 0x4000 | (imm << 6);
    assert_eq!(image[0x2000], word(1));
    assert_eq!(image[0x2001], word(2));
    assert_eq!(image[0x2002], word(3));
    assert_eq!(image[0x2003], word(4));
    assert_eq!(image[0x2004], word(5));
    for a in 0..0x2000 {
        assert_eq!(image[a], 0);
    }
}

#[test]
fn reselecting_a_section_appends_to_it() {
    let src = "\
.foo 0x2:
LOADIMM #1, A
.start:
LOADIMM #2, A
.foo:
LOADIMM #3, A
";
    let image = assemble_str(src).unwrap();
    let word = |imm: u16| 0x4000 | (imm << 6);
    assert_eq!(image, vec![word(2), 0, word(1), word(3)]);
}

#[test]
fn comments_and_blank_lines_are_ignored() {
    let src = "// a comment line\n\nNOP\n";
    assert_eq!(assemble_str(src).unwrap(), vec![0x0000]);
}

#[test]
fn bad_section_header_is_an_error() {
    assert_eq!(assemble_str(".foo\n"), Err(AsmError::BadSectionHeader { line: 1 }));
    assert_eq!(assemble_str(".:\n"), Err(AsmError::BadSectionHeader { line: 1 }));
    assert_eq!(assemble_str("NOP\n.foo bar:\n"), Err(AsmError::BadSectionHeader { line: 2 }));
}

#[test]
fn section_address_without_digits_is_an_error() {
    assert_eq!(assemble_str(".foo 0x___:\n"), Err(AsmError::BadSectionAddress { line: 1 }));
}

#[test]
fn section_address_with_underscores_parses() {
    let src = ".foo 0x1_0:\nLOADIMM #1, A\n";
    let image = assemble_str(src).unwrap();
    assert_eq!(image.len(), 0x11);
    assert_eq!(image[0x10], 0x4000 | (1 << 6));
}

#[test]
fn unknown_mnemonic_is_an_error() {
    assert_eq!(assemble_str("NOP\nFROB A B\n"), Err(AsmError::UnknownMnemonic { line: 2 }));
}

#[test]
fn operand_pattern_mismatch_is_an_error() {
    assert_eq!(assemble_str("LOADIMM A\n"), Err(AsmError::OperandMismatch { line: 1 }));
    assert_eq!(assemble_str("STORE A\n"), Err(AsmError::OperandMismatch { line: 1 }));
    assert_eq!(assemble_str("NOP #1\n"), Err(AsmError::OperandMismatch { line: 1 }));
    assert_eq!(assemble_str("SETFLG #4, #0, #0, #0\n"), Err(AsmError::OperandMismatch { line: 1 }));
}

#[test]
fn overlapping_sections_are_an_error() {
    let src = ".a 0x0:\nLOADIMM #1, A\n.b 0x0:\nLOADIMM #2, A\n";
    assert_eq!(assemble_str(src), Err(AsmError::SectionOverlap));
}

#[test]
fn sections_past_the_io_boundary_are_an_error() {
    let src = ".a 0xF0000000:\nLOADIMM #1, A\n";
    assert_eq!(assemble_str(src), Err(AsmError::AddressOutOfRange));
}

#[test]
fn tokenizer_splits_on_whitespace() {
    let line = b"  LOADIMM\t#5, A \r".to_vec();
    let toks = tokenize(&line);
    assert_eq!(toks.len(), 3);
    assert_eq!(toks[0], b"LOADIMM".to_vec());
    assert_eq!(toks[1], b"#5,".to_vec());
    assert_eq!(toks[2], b"A".to_vec());
}

#[test]
fn line_splitting_keeps_blank_lines() {
    let src = b"a\n\nb\n".to_vec();
    let lines = split_lines(&src);
    assert_eq!(lines.len(), 3);
    assert_eq!(lines[0], b"a".to_vec());
    assert_eq!(lines[1], Vec::<u8>::new());
    assert_eq!(lines[2], b"b".to_vec());
}

#[test]
fn token_classification() {
    assert_eq!(classify_token(&b"#12,".to_vec()), Tok::Imm { value: 12 });
    assert_eq!(classify_token(&b"A".to_vec()), Tok::Thin { code: 0 });
    assert_eq!(classify_token(&b"H,".to_vec()), Tok::Thin { code: 7 });
    assert_eq!(classify_token(&b"R9".to_vec()), Tok::Thin { code: 9 });
    assert_eq!(classify_token(&b"R16".to_vec()), Tok::Other);
    assert_eq!(classify_token(&b"J0".to_vec()), Tok::Thin { code: 8 });
    assert_eq!(classify_token(&b"P1,".to_vec()), Tok::Thin { code: 15 });
    assert_eq!(classify_token(&b"K".to_vec()), Tok::Wide { code: 1 });
    assert_eq!(classify_token(&b"P".to_vec()), Tok::Wide { code: 3 });
    assert_eq!(classify_token(&b"LOADIMM".to_vec()), Tok::Other);
    assert_eq!(classify_token(&b"#x".to_vec()), Tok::Other);
}

#[test]
fn operand_scanning_collects_in_order() {
    let toks = tokenize(&b"ADD #5 A J1 K P".to_vec());
    let (imms, thins, wides) = scan_operands(&toks);
    assert_eq!(imms, vec![5]);
    assert_eq!(thins, vec![0, 9]);
    assert_eq!(wides, vec![1, 3]);
}

#[test]
fn half_register_tokens_reach_address_register_halves() {
    // LOADIMM may target any register a 3-bit field can name, A-H
    let w = one_word("LOADIMM #7, C\n");
    assert_eq!(decode(w), Some(Instr::Im { op: 0b10100, imm: 7, out: 2, a: 0 }));
}

#[test]
fn image_decoding_is_big_endian() {
    let bytes = vec![0x12, 0x34, 0xAB, 0xCD];
    assert_eq!(words_from_bytes(&bytes), Ok(vec![0x1234, 0xABCD]));
}

#[test]
fn odd_image_is_truncated() {
    let bytes = vec![0x12, 0x34, 0xAB];
    assert_eq!(words_from_bytes(&bytes), Err(ImageError::TruncatedImage));
}

#[test]
fn image_bytes_round_trip() {
    let words = vec![0x0000, 0x4040, 0xFFFF, 0x1234];
    let bytes = bytes_from_words(&words);
    assert_eq!(bytes, vec![0x00, 0x00, 0x40, 0x40, 0xFF, 0xFF, 0x12, 0x34]);
    assert_eq!(words_from_bytes(&bytes), Ok(words));
}

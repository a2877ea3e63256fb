use regsim::simulator::lexer::Line;
use regsim::simulator::parser::{
    blank_or_comment, find_error, label_declaration, parse_instruction, preprocess_lines,
    process_lines, resolve_labels,
};
use regsim::simulator::{Error, Instructions, Simulator};

fn source(text: &[&str]) -> Vec<String> {
    text.iter().map(|line| line.to_string()).collect()
}

#[test]
fn every_mnemonic_parses() {
    assert_eq!(parse_instruction("LI $1 5"), Ok(Instructions::LI(1, 5)));
    assert_eq!(parse_instruction("MOVE $2 $3"), Ok(Instructions::MOVE(2, 3)));
    assert_eq!(parse_instruction("ADD $1 $2 $3"), Ok(Instructions::ADD(1, 2, 3)));
    assert_eq!(parse_instruction("SUB $4 $5 $6"), Ok(Instructions::SUB(4, 5, 6)));
    assert_eq!(parse_instruction("MUL $7 $8 $9"), Ok(Instructions::MUL(7, 8, 9)));
    assert_eq!(parse_instruction("DIV $10 $11 $12"), Ok(Instructions::DIV(10, 11, 12)));
    assert_eq!(parse_instruction("REM $13 $14 $15"), Ok(Instructions::REM(13, 14, 15)));
    assert_eq!(parse_instruction("PRINT $31"), Ok(Instructions::PRINT(31)));
    assert_eq!(parse_instruction("EXIT"), Ok(Instructions::EXIT));
    assert_eq!(parse_instruction("JUMP @A"), Ok(Instructions::JUMP(String::from("A"))));
    assert_eq!(
        parse_instruction("BEQ $1 $2 @L"),
        Ok(Instructions::BEQ(1, 2, String::from("L")))
    );
    assert_eq!(
        parse_instruction("BNE $1 $2 @L"),
        Ok(Instructions::BNE(1, 2, String::from("L")))
    );
    assert_eq!(
        parse_instruction("BLT $1 $2 @L"),
        Ok(Instructions::BLT(1, 2, String::from("L")))
    );
    assert_eq!(
        parse_instruction("BLE $1 $2 @L"),
        Ok(Instructions::BLE(1, 2, String::from("L")))
    );
    assert_eq!(
        parse_instruction("BGT $1 $2 @L"),
        Ok(Instructions::BGT(1, 2, String::from("L")))
    );
    assert_eq!(
        parse_instruction("BGE $1 $2 @L"),
        Ok(Instructions::BGE(1, 2, String::from("L")))
    );
}

#[test]
fn label_declaration_parses_to_its_placeholder() {
    assert_eq!(parse_instruction("@MAIN"), Ok(Instructions::LABEL));
    assert_eq!(parse_instruction("  @LOOP\t"), Ok(Instructions::LABEL));
    assert_eq!(parse_instruction("@MAIN extra"), Err(Error::InvalidInstruction));
    assert_eq!(parse_instruction("@main"), Err(Error::InvalidInstruction));
    assert_eq!(parse_instruction("@"), Err(Error::InvalidInstruction));
    assert_eq!(parse_instruction("@A1"), Err(Error::InvalidInstruction));
}

#[test]
fn unknown_first_word_is_invalid_instruction() {
    let lines = [
        "",
        "   ",
        "// a comment",
        "NOP",
        "SKIP",
        "li $1 5",
        "Li $1 5",
        "LI$1 5",
        "ADDX $1 $2 $3",
        "$1 LI 5",
        "EXIT!",
        "LABEL",
        "1",
        "LI, $1 5",
    ];
    for line in lines {
        assert_eq!(parse_instruction(line), Err(Error::InvalidInstruction), "{:?}", line);
    }
}

#[test]
fn operands_that_do_not_fit_are_invalid_parameter() {
    let lines = [
        "LI",
        "LI $1",
        "LI $1 5 6",
        "LI 1 5",
        "LI $1 $5",
        "LI $ 5",
        "LI $1 +5",
        "LI $1 -",
        "LI $1 --5",
        "LI $1 5-",
        "LI $-1 5",
        "LI $1 0x10",
        "LI $1 2147483648",
        "LI $1 -2147483649",
        "LI $1 99999999999999999999999999",
        "LI $1 5 // five",
        "MOVE $1",
        "MOVE $1 2",
        "MOVE $1 $2 $3",
        "ADD $1 $2",
        "ADD $1 $2 3",
        "ADD $1 $2 $3 $4",
        "ADD $1$2 $3",
        "SUB $1, $2, $3",
        "MUL $a $2 $3",
        "DIV",
        "REM $1 $2 @L",
        "PRINT",
        "PRINT 4",
        "PRINT $4 $5",
        "PRINT $",
        "EXIT now",
        "EXIT $1",
        "JUMP",
        "JUMP MAIN",
        "JUMP @main",
        "JUMP @",
        "JUMP @A B",
        "JUMP @A1",
        "JUMP $1",
        "BEQ $1 $2",
        "BEQ $1 $2 L",
        "BEQ $1 @L $2",
        "BNE $1 $2 @L @M",
        "BLT 1 2 @L",
        "BLE $1 $2 @l",
        "BGT $1 $2 $3",
        "BGE @L $1 $2",
        "BLT $1 $3 @LOOP // again",
    ];
    for line in lines {
        assert_eq!(parse_instruction(line), Err(Error::InvalidParameter), "{:?}", line);
    }
}

#[test]
fn immediates_cover_the_signed_32_bit_range() {
    assert_eq!(parse_instruction("LI $1 2147483647"), Ok(Instructions::LI(1, i32::MAX)));
    assert_eq!(parse_instruction("LI $1 -2147483648"), Ok(Instructions::LI(1, i32::MIN)));
    assert_eq!(parse_instruction("LI $1 0"), Ok(Instructions::LI(1, 0)));
    assert_eq!(parse_instruction("LI $1 -0"), Ok(Instructions::LI(1, 0)));
    assert_eq!(parse_instruction("LI $1 0000000000000000042"), Ok(Instructions::LI(1, 42)));
    assert_eq!(parse_instruction("LI $1 -007"), Ok(Instructions::LI(1, -7)));
}

#[test]
fn register_numbers_have_no_upper_bound_in_the_grammar() {
    assert_eq!(parse_instruction("PRINT $32"), Ok(Instructions::PRINT(32)));
    assert_eq!(parse_instruction("PRINT $1300"), Ok(Instructions::PRINT(1300)));
    assert_eq!(parse_instruction("PRINT $007"), Ok(Instructions::PRINT(7)));
    assert_eq!(parse_instruction("PRINT $0"), Ok(Instructions::PRINT(0)));
    let largest = format!("PRINT ${}", usize::MAX);
    assert_eq!(parse_instruction(&largest), Ok(Instructions::PRINT(usize::MAX)));
    let beyond = format!("PRINT ${}0", usize::MAX);
    assert_eq!(parse_instruction(&beyond), Ok(Instructions::PRINT(usize::MAX)));
    assert_eq!(
        parse_instruction("ADD $340282366920938463463374607431768211456 $1 $2"),
        Ok(Instructions::ADD(usize::MAX, 1, 2))
    );
}

#[test]
fn any_whitespace_separates_words() {
    assert_eq!(parse_instruction("\tLI\t$1\t5\t"), Ok(Instructions::LI(1, 5)));
    assert_eq!(parse_instruction("   LI    $1      5   "), Ok(Instructions::LI(1, 5)));
    assert_eq!(parse_instruction("LI $1 5\r"), Ok(Instructions::LI(1, 5)));
    assert_eq!(parse_instruction("LI\u{a0}$1\u{3000}5"), Ok(Instructions::LI(1, 5)));
    assert_eq!(parse_instruction("LI\u{2003}$1\u{85}5\u{2028}"), Ok(Instructions::LI(1, 5)));
    assert_eq!(parse_instruction("LI\u{b}$1\u{c}5"), Ok(Instructions::LI(1, 5)));
    assert_eq!(parse_instruction("LI\u{200b}$1 5"), Err(Error::InvalidInstruction));
    assert_eq!(parse_instruction("LI_$1_5"), Err(Error::InvalidInstruction));
}

#[test]
fn digits_are_the_ten_ascii_digits() {
    assert_eq!(parse_instruction("LI $\u{663} 5"), Err(Error::InvalidParameter));
    assert_eq!(parse_instruction("LI $1 \u{ff15}"), Err(Error::InvalidParameter));
    assert_eq!(parse_instruction("JUMP @\u{c9}"), Err(Error::InvalidParameter));
}

#[test]
fn blank_lines_and_comments_are_recognised() {
    for line in ["", " ", "\t \t", "//", "// text", "   // LI $1 5", "//LI $1 5", "\t//", "///"] {
        assert!(blank_or_comment(line), "{:?}", line);
    }
    for line in ["LI $1 5", "/", "/ /", "@MAIN", "x //", "LI $1 5 // five", "EXIT", "-//"] {
        assert!(!blank_or_comment(line), "{:?}", line);
    }
}

#[test]
fn label_declarations_give_their_name() {
    assert_eq!(label_declaration("@MAIN"), Some(String::from("MAIN")));
    assert_eq!(label_declaration("   @LOOP  "), Some(String::from("LOOP")));
    assert_eq!(label_declaration("\t@X"), Some(String::from("X")));
    for line in ["", "MAIN", "@", "@main", "@MAIN @MAIN", "@MAIN x", "JUMP @MAIN", "@M_N", "@ MAIN"] {
        assert_eq!(label_declaration(line), None, "{:?}", line);
    }
}

#[test]
fn preprocess_keeps_the_order_of_what_is_left() {
    let raw = source(&["// head", "", "@MAIN", "   ", "  LI $1 5", "\t// note", "EXIT", "bad line"]);
    assert_eq!(preprocess_lines(&raw), source(&["@MAIN", "  LI $1 5", "EXIT", "bad line"]));
    assert_eq!(preprocess_lines(&source(&[])), source(&[]));
    assert_eq!(preprocess_lines(&source(&["", "//"])), source(&[]));
}

#[test]
fn resolve_labels_records_the_address_of_each_declaration() {
    let lines = source(&["@MAIN", "LI $1 5", "@A", "@B", "EXIT", "@A", "not an instruction"]);
    let labels = resolve_labels(&lines);
    assert_eq!(labels.len(), 3);
    assert_eq!(labels.get("MAIN"), Some(0));
    assert_eq!(labels.get("A"), Some(5));
    assert_eq!(labels.get("B"), Some(3));
    assert_eq!(labels.get("@MAIN"), None);
    assert_eq!(labels.get("C"), None);
    assert_eq!(resolve_labels(&source(&[])).len(), 0);
}

#[test]
fn a_scanned_line_reads_each_word() {
    let line = Line::scan("  BGE $4 -31 @ENDLOOP //x $99999999999999999999999");
    assert_eq!(line.len(), 6);
    assert!(line.word_is(0, "BGE"));
    assert!(!line.word_is(0, "BG"));
    assert!(!line.word_is(0, "BGEE"));
    assert!(!line.word_is(1, "BGE"));
    assert_eq!(line.register(1), Some(4));
    assert_eq!(line.register(2), None);
    assert_eq!(line.register(0), None);
    assert_eq!(line.register(5), Some(usize::MAX));
    assert_eq!(line.immediate(2), Some(-31));
    assert_eq!(line.immediate(1), None);
    assert_eq!(line.immediate(3), None);
    assert_eq!(line.label(3), Some(String::from("ENDLOOP")));
    assert_eq!(line.label(0), None);
    assert!(line.is_label(3));
    assert!(!line.is_label(1));
    assert!(line.comment(4));
    assert!(!line.comment(3));
    assert_eq!(Line::scan(" \t ").len(), 0);
    assert_eq!(Line::scan("").len(), 0);
    assert_eq!(Line::scan("a").len(), 1);
}

#[test]
fn find_error_gives_the_first_bad_line() {
    assert_eq!(find_error(&source(&[])), None);
    assert_eq!(find_error(&source(&["@MAIN", "LI $1 5", "EXIT"])), None);
    assert_eq!(
        find_error(&source(&["@MAIN", "LI $1", "FOO", "EXIT"])),
        Some((1, Error::InvalidParameter))
    );
    assert_eq!(
        find_error(&source(&["@MAIN", "EXIT", "FOO", "LI $1"])),
        Some((2, Error::InvalidInstruction))
    );
    assert_eq!(find_error(&source(&["// note"])), Some((0, Error::InvalidInstruction)));
}

#[test]
fn process_lines_fails_where_find_error_points() {
    let texts = [
        vec!["@MAIN", "LI $1 5", "EXIT"],
        vec!["@MAIN", "LI $1", "FOO", "EXIT"],
        vec!["FOO", "LI $1"],
        vec!["@A", "@B", "JUMP"],
        vec![""],
    ];
    for text in texts {
        let lines = source(&text);
        let mut sim = Simulator::new();
        let expected = match find_error(&lines) {
            Some((_, e)) => Err(e),
            None => Ok(()),
        };
        assert_eq!(process_lines(&lines, &mut sim), expected);
        if expected.is_ok() {
            assert_eq!(sim.len(), lines.len());
        } else {
            assert_eq!(sim.len(), 0);
        }
    }
}

#[test]
fn process_lines_takes_no_blank_lines() {
    let mut sim = Simulator::new();
    let lines = source(&["@MAIN", "", "EXIT"]);
    assert_eq!(process_lines(&lines, &mut sim), Err(Error::InvalidInstruction));
    let lines = source(&["@MAIN", "// note", "EXIT"]);
    assert_eq!(process_lines(&lines, &mut sim), Err(Error::InvalidInstruction));
    assert_eq!(sim.len(), 0);
}

use regsim::simulator::parser::parse_instruction;
use regsim::simulator::printer::{write_immediate, write_label, write_number, write_register};
use regsim::simulator::Instructions;

#[test]
fn numbers_are_written_in_base_ten() {
    assert_eq!(write_number(0), "0");
    assert_eq!(write_number(7), "7");
    assert_eq!(write_number(10), "10");
    assert_eq!(write_number(1234567890), "1234567890");
    assert_eq!(write_number(u64::MAX), "18446744073709551615");
    assert_eq!(write_register(0), "$0");
    assert_eq!(write_register(31), "$31");
    assert_eq!(write_register(usize::MAX), format!("${}", usize::MAX));
    assert_eq!(write_immediate(0), "0");
    assert_eq!(write_immediate(-1), "-1");
    assert_eq!(write_immediate(i32::MAX), "2147483647");
    assert_eq!(write_immediate(i32::MIN), "-2147483648");
    assert_eq!(write_label("MAIN"), "@MAIN");
}

#[test]
fn every_instruction_has_its_text() {
    assert_eq!(Instructions::LI(1, -5).to_text(), "LI $1 -5");
    assert_eq!(Instructions::MOVE(2, 3).to_text(), "MOVE $2 $3");
    assert_eq!(Instructions::ADD(1, 2, 3).to_text(), "ADD $1 $2 $3");
    assert_eq!(Instructions::SUB(4, 5, 6).to_text(), "SUB $4 $5 $6");
    assert_eq!(Instructions::MUL(7, 8, 9).to_text(), "MUL $7 $8 $9");
    assert_eq!(Instructions::DIV(10, 11, 12).to_text(), "DIV $10 $11 $12");
    assert_eq!(Instructions::REM(13, 14, 15).to_text(), "REM $13 $14 $15");
    assert_eq!(Instructions::PRINT(31).to_text(), "PRINT $31");
    assert_eq!(Instructions::EXIT.to_text(), "EXIT");
    assert_eq!(Instructions::SKIP.to_text(), "SKIP");
    assert_eq!(Instructions::LABEL.to_text(), "LABEL");
    assert_eq!(Instructions::JUMP(String::from("END")).to_text(), "JUMP @END");
    assert_eq!(Instructions::BEQ(1, 2, String::from("A")).to_text(), "BEQ $1 $2 @A");
    assert_eq!(Instructions::BNE(1, 2, String::from("B")).to_text(), "BNE $1 $2 @B");
    assert_eq!(Instructions::BLT(1, 2, String::from("C")).to_text(), "BLT $1 $2 @C");
    assert_eq!(Instructions::BLE(1, 2, String::from("D")).to_text(), "BLE $1 $2 @D");
    assert_eq!(Instructions::BGT(1, 2, String::from("E")).to_text(), "BGT $1 $2 @E");
    assert_eq!(Instructions::BGE(1, 2, String::from("F")).to_text(), "BGE $1 $2 @F");
}

#[test]
fn text_parses_back_to_the_instruction() {
    let all = vec![
        Instructions::LI(0, 0),
        Instructions::LI(31, i32::MIN),
        Instructions::LI(usize::MAX, i32::MAX),
        Instructions::MOVE(1, 2),
        Instructions::ADD(1, 2, 3),
        Instructions::SUB(10, 20, 30),
        Instructions::MUL(100, 200, 300),
        Instructions::DIV(0, 0, 0),
        Instructions::REM(9, 99, 999),
        Instructions::PRINT(4),
        Instructions::EXIT,
        Instructions::JUMP(String::from("A")),
        Instructions::BEQ(1, 2, String::from("LOOP")),
        Instructions::BNE(1, 2, String::from("ENDLOOP")),
        Instructions::BLT(1, 2, String::from("Z")),
        Instructions::BLE(1, 2, String::from("MAIN")),
        Instructions::BGT(1, 2, String::from("X")),
        Instructions::BGE(1300, 23, String::from("SOMETHING")),
    ];
    for instruction in all {
        assert_eq!(parse_instruction(&instruction.to_text()), Ok(instruction));
    }
}

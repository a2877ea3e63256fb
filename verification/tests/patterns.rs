use regex::Regex;
use regsim::simulator::parser::{blank_or_comment, label_declaration, parse_instruction};
use regsim::simulator::{Error, Instructions};

fn corpus() -> Vec<String> {
    let heads = [
        "", "LI", "MOVE", "ADD", "SUB", "MUL", "DIV", "REM", "PRINT", "EXIT", "JUMP", "BEQ", "BNE",
        "BLT", "BLE", "BGT", "BGE", "NOP", "li", "@MAIN", "@", "//", "// LI", "LIX", "X",
    ];
    let tails = [
        "",
        " ",
        " $1",
        " $1 5",
        " $1 -5",
        " $1 $2",
        " $1 $2 $3",
        " $1 $2 @L",
        " $1 $2 @LOOP ",
        " @L",
        " @LOOP",
        " @l",
        " @",
        " L",
        "\t$12\t$0\t$31",
        "  $12   $0   @ZZ  ",
        " $1 $2 $3 $4",
        " $1 5 6",
        " 1 5",
        " $ 5",
        " $1 +5",
        " $1 5x",
        " $1$2 $3",
        " $1 2147483647",
        " $1 -2147483648",
        " $40 7",
        " // note",
        " $1 5 // note",
        "\u{a0}$1\u{2003}5",
        " @A B",
        " $1 -",
    ];
    let mut lines = Vec::new();
    for head in heads {
        for tail in tails {
            lines.push(format!("{}{}", head, tail));
            lines.push(format!("  {}{}", head, tail));
        }
    }
    lines
}

#[test]
fn blank_and_comment_lines_match_the_pattern() {
    let pattern = Regex::new(r"^\s*(?://.*)?\s*$").unwrap();
    for line in corpus() {
        assert_eq!(blank_or_comment(&line), pattern.is_match(&line), "{:?}", line);
    }
}

#[test]
fn label_declarations_match_the_pattern() {
    let pattern = Regex::new(r"^\s*@([A-Z]+)\s*$").unwrap();
    for line in corpus() {
        let expected = pattern.captures(&line).map(|found| found[1].to_string());
        assert_eq!(label_declaration(&line), expected, "{:?}", line);
    }
}

#[test]
fn first_word_matches_the_pattern() {
    let pattern = Regex::new(r"^\s*([A-Z]+)(?:\s+.*)*$").unwrap();
    let mnemonics = [
        "LI", "MOVE", "ADD", "SUB", "MUL", "DIV", "REM", "PRINT", "EXIT", "JUMP", "BEQ", "BNE",
        "BLT", "BLE", "BGT", "BGE",
    ];
    let label = Regex::new(r"^\s*@([A-Z]+)\s*$").unwrap();
    for line in corpus() {
        if label.is_match(&line) {
            assert_eq!(parse_instruction(&line), Ok(Instructions::LABEL), "{:?}", line);
            continue;
        }
        let known = match pattern.captures(&line) {
            Some(found) => mnemonics.contains(&&found[1]),
            None => false,
        };
        let refused = parse_instruction(&line) == Err(Error::InvalidInstruction);
        assert_eq!(refused, !known, "{:?}", line);
    }
}

#[test]
fn operands_match_the_patterns() {
    let li = Regex::new(r"^\s*(?:LI)\s+\$(\d+)\s+(-?\d+)\s*$").unwrap();
    let mv = Regex::new(r"^\s*(?:MOVE)\s+\$(\d+)\s+\$(\d+)\s*$").unwrap();
    let arithmetic =
        Regex::new(r"^\s*(ADD|SUB|MUL|DIV|REM)\s+\$(\d+)\s+\$(\d+)\s+\$(\d+)\s*$").unwrap();
    let print = Regex::new(r"^\s*(?:PRINT)\s+\$(\d+)\s*$").unwrap();
    let exit = Regex::new(r"^\s*EXIT\s*$").unwrap();
    let jump = Regex::new(r"^\s*(?:JUMP)\s+@([A-Z]+)\s*$").unwrap();
    let branch =
        Regex::new(r"^\s*(BEQ|BNE|BLT|BLE|BGT|BGE)\s+\$(\d+)\s+\$(\d+)\s+@([A-Z]+)\s*$").unwrap();
    let mut accepted = 0;
    for line in corpus() {
        let expected = if let Some(found) = li.captures(&line) {
            Some(Instructions::LI(found[1].parse().unwrap(), found[2].parse().unwrap()))
        } else if let Some(found) = mv.captures(&line) {
            Some(Instructions::MOVE(found[1].parse().unwrap(), found[2].parse().unwrap()))
        } else if let Some(found) = arithmetic.captures(&line) {
            let a = found[2].parse().unwrap();
            let b = found[3].parse().unwrap();
            let c = found[4].parse().unwrap();
            Some(match &found[1] {
                "ADD" => Instructions::ADD(a, b, c),
                "SUB" => Instructions::SUB(a, b, c),
                "MUL" => Instructions::MUL(a, b, c),
                "DIV" => Instructions::DIV(a, b, c),
                _ => Instructions::REM(a, b, c),
            })
        } else if let Some(found) = print.captures(&line) {
            Some(Instructions::PRINT(found[1].parse().unwrap()))
        } else if exit.is_match(&line) {
            Some(Instructions::EXIT)
        } else if let Some(found) = jump.captures(&line) {
            Some(Instructions::JUMP(found[1].to_string()))
        } else if let Some(found) = branch.captures(&line) {
            let a = found[2].parse().unwrap();
            let b = found[3].parse().unwrap();
            let l = found[4].to_string();
            Some(match &found[1] {
                "BEQ" => Instructions::BEQ(a, b, l),
                "BNE" => Instructions::BNE(a, b, l),
                "BLT" => Instructions::BLT(a, b, l),
                "BLE" => Instructions::BLE(a, b, l),
                "BGT" => Instructions::BGT(a, b, l),
                _ => Instructions::BGE(a, b, l),
            })
        } else {
            None
        };
        match expected {
            Some(instruction) => {
                accepted += 1;
                assert_eq!(parse_instruction(&line), Ok(instruction), "{:?}", line);
            },
            None => {
                let parsed = parse_instruction(&line);
                assert!(
                    parsed == Ok(Instructions::LABEL) || parsed.is_err(),
                    "{:?} gave {:?}",
                    line,
                    parsed
                );
            },
        }
    }
    assert!(accepted > 50);
}

use regsim::operation::{
    addition, con_jump, division, load_integer, move_reg, multiplication, print_reg, remain,
    substraction, unc_jump,
};
use regsim::simulator::labels::Labels;
use regsim::simulator::operation::{operate, wrapping_div, wrapping_rem};
use regsim::simulator::{Action, Error, Instructions, Simulator};

fn machine(text: &[&str]) -> Simulator {
    let lines: Vec<String> = text.iter().map(|line| line.to_string()).collect();
    let mut sim = Simulator::new();
    sim.load(&lines).expect("the program loads");
    sim
}

fn table(entries: &[(&str, usize)]) -> Labels {
    let mut labels = Labels::new();
    for (name, address) in entries {
        labels.insert(name.to_string(), *address);
    }
    labels
}

#[test]
fn load_integer_and_move() {
    let mut sim = Simulator::new();
    assert_eq!(load_integer(&mut sim, (5, -44)), Ok(()));
    assert_eq!(sim.get_int_reg(5), -44);
    assert_eq!(move_reg(&mut sim, (6, 5)), Ok(()));
    assert_eq!(sim.get_int_reg(6), -44);
    assert_eq!(load_integer(&mut sim, (0, 3)), Ok(()));
    assert_eq!(sim.get_int_reg(0), 0);
    assert_eq!(move_reg(&mut sim, (0, 5)), Ok(()));
    assert_eq!(sim.get_int_reg(0), 0);
    assert_eq!(load_integer(&mut sim, (32, 3)), Err(Error::OutOfRange));
    assert_eq!(move_reg(&mut sim, (32, 5)), Err(Error::OutOfRange));
    assert_eq!(move_reg(&mut sim, (5, 32)), Err(Error::OutOfRange));
    assert_eq!(sim.get_int_reg(5), -44);
}

#[test]
fn addition_substraction_multiplication() {
    let mut sim = Simulator::new();
    load_integer(&mut sim, (1, 20)).unwrap();
    load_integer(&mut sim, (2, 22)).unwrap();
    assert_eq!(addition(&mut sim, (3, 1, 2)), Ok(()));
    assert_eq!(sim.get_int_reg(3), 42);
    assert_eq!(substraction(&mut sim, (4, 1, 2)), Ok(()));
    assert_eq!(sim.get_int_reg(4), -2);
    assert_eq!(multiplication(&mut sim, (5, 1, 2)), Ok(()));
    assert_eq!(sim.get_int_reg(5), 440);
    load_integer(&mut sim, (6, i32::MAX)).unwrap();
    assert_eq!(addition(&mut sim, (7, 6, 1)), Ok(()));
    assert_eq!(sim.get_int_reg(7), i32::MIN + 19);
    assert_eq!(multiplication(&mut sim, (8, 6, 2)), Ok(()));
    assert_eq!(sim.get_int_reg(8), i32::MAX.wrapping_mul(22));
    assert_eq!(substraction(&mut sim, (9, 7, 2)), Ok(()));
    assert_eq!(sim.get_int_reg(9), (i32::MIN + 19).wrapping_sub(22));
    assert_eq!(addition(&mut sim, (32, 1, 2)), Err(Error::OutOfRange));
    assert_eq!(substraction(&mut sim, (1, 32, 2)), Err(Error::OutOfRange));
    assert_eq!(multiplication(&mut sim, (1, 2, 32)), Err(Error::OutOfRange));
    assert_eq!(sim.get_int_reg(1), 20);
}

#[test]
fn division_and_remain() {
    let mut sim = Simulator::new();
    load_integer(&mut sim, (1, -17)).unwrap();
    load_integer(&mut sim, (2, 5)).unwrap();
    assert_eq!(division(&mut sim, (3, 1, 2)), Ok(()));
    assert_eq!(sim.get_int_reg(3), -3);
    assert_eq!(remain(&mut sim, (4, 1, 2)), Ok(()));
    assert_eq!(sim.get_int_reg(4), -2);
    assert_eq!(division(&mut sim, (5, 1, 6)), Err(Error::DivisionByZero));
    assert_eq!(remain(&mut sim, (5, 1, 6)), Err(Error::DivisionByZero));
    assert_eq!(division(&mut sim, (5, 1, 0)), Err(Error::DivisionByZero));
    assert_eq!(sim.get_int_reg(5), 0);
    assert_eq!(division(&mut sim, (32, 1, 2)), Err(Error::OutOfRange));
    assert_eq!(remain(&mut sim, (1, 1, 32)), Err(Error::OutOfRange));
    assert_eq!(division(&mut sim, (32, 1, 6)), Err(Error::OutOfRange));
    assert_eq!(division(&mut sim, (0, 1, 2)), Ok(()));
    assert_eq!(sim.get_int_reg(0), 0);
}

#[test]
fn wrapping_division_matches_the_integer_type() {
    let values = [i32::MIN, i32::MIN + 1, -17, -2, -1, 0, 1, 2, 5, 17, i32::MAX - 1, i32::MAX];
    for x in values {
        for y in values {
            if y != 0 {
                assert_eq!(wrapping_div(x, y), x.wrapping_div(y), "{} / {}", x, y);
                assert_eq!(wrapping_rem(x, y), x.wrapping_rem(y), "{} % {}", x, y);
            }
        }
    }
}

#[test]
fn print_reg_hands_out_the_value() {
    let mut sim = Simulator::new();
    load_integer(&mut sim, (9, 77)).unwrap();
    assert_eq!(print_reg(&sim, 9), Ok(77));
    assert_eq!(print_reg(&sim, 0), Ok(0));
    assert_eq!(print_reg(&sim, 32), Err(Error::OutOfRange));
}

#[test]
fn unc_jump_uses_the_table_it_is_given() {
    let mut sim = machine(&["@MAIN", "LI $1 1", "EXIT"]);
    let labels = table(&[("@END", 2), ("@PAST", 3)]);
    assert_eq!(unc_jump(&mut sim, &labels, "@END"), Ok(()));
    assert_eq!(sim.get_ic(), 2);
    assert_eq!(unc_jump(&mut sim, &labels, "@PAST"), Ok(()));
    assert_eq!(sim.get_ic(), 3);
    assert_eq!(unc_jump(&mut sim, &labels, "END"), Err(Error::UnknownLabel));
    assert_eq!(unc_jump(&mut sim, &labels, "@MAIN"), Err(Error::UnknownLabel));
    assert_eq!(sim.get_ic(), 3);
}

#[test]
fn con_jump_reads_the_kind_of_the_instruction() {
    let labels = table(&[("@T", 2)]);
    let kinds: [(fn() -> Instructions, [bool; 3]); 6] = [
        (|| Instructions::BEQ(0, 0, String::new()), [false, true, false]),
        (|| Instructions::BNE(0, 0, String::new()), [true, false, true]),
        (|| Instructions::BLT(0, 0, String::new()), [true, false, false]),
        (|| Instructions::BLE(0, 0, String::new()), [true, true, false]),
        (|| Instructions::BGT(0, 0, String::new()), [false, false, true]),
        (|| Instructions::BGE(0, 0, String::new()), [false, true, true]),
    ];
    let pairs = [(-3, 4), (5, 5), (6, -7)];
    for (kind, expected) in kinds {
        for (k, (x, y)) in pairs.iter().enumerate() {
            let mut sim = machine(&["@MAIN", "LI $1 1", "EXIT"]);
            load_integer(&mut sim, (1, *x)).unwrap();
            load_integer(&mut sim, (2, *y)).unwrap();
            assert_eq!(con_jump(&mut sim, &labels, (1, 2, String::from("@T")), kind()), Ok(()));
            assert_eq!(sim.get_ic() == 2, expected[k]);
            assert_eq!(sim.get_ic() == 0, !expected[k]);
        }
    }
}

#[test]
fn con_jump_errors() {
    let labels = table(&[("@T", 1)]);
    let mut sim = machine(&["@MAIN", "EXIT"]);
    let beq = || Instructions::BEQ(9, 9, String::from("@ELSEWHERE"));
    assert_eq!(
        con_jump(&mut sim, &labels, (32, 1, String::from("@T")), beq()),
        Err(Error::OutOfRange)
    );
    assert_eq!(
        con_jump(&mut sim, &labels, (1, 32, String::from("@T")), beq()),
        Err(Error::OutOfRange)
    );
    assert_eq!(
        con_jump(&mut sim, &labels, (32, 1, String::from("@T")), Instructions::EXIT),
        Err(Error::OutOfRange)
    );
    assert_eq!(
        con_jump(&mut sim, &labels, (1, 2, String::from("@T")), Instructions::EXIT),
        Err(Error::InvalidParameter)
    );
    assert_eq!(
        con_jump(&mut sim, &labels, (1, 2, String::from("@T")), Instructions::ADD(1, 2, 3)),
        Err(Error::InvalidParameter)
    );
    assert_eq!(
        con_jump(
            &mut sim,
            &labels,
            (1, 2, String::from("@NONE")),
            Instructions::JUMP(String::from("@T"))
        ),
        Err(Error::InvalidParameter)
    );
    assert_eq!(
        con_jump(&mut sim, &labels, (1, 2, String::from("@NONE")), beq()),
        Err(Error::UnknownLabel)
    );
    assert_eq!(
        con_jump(
            &mut sim,
            &labels,
            (1, 2, String::from("@NONE")),
            Instructions::BNE(0, 0, String::new())
        ),
        Ok(())
    );
    assert_eq!(sim.get_ic(), 0);
    assert_eq!(con_jump(&mut sim, &labels, (1, 2, String::from("@T")), beq()), Ok(()));
    assert_eq!(sim.get_ic(), 1);
}

#[test]
fn operate_leaves_the_pointer_unless_it_jumps() {
    let mut sim = machine(&["@MAIN", "LI $1 6", "PRINT $1", "JUMP @MAIN", "EXIT"]);
    assert_eq!(operate(&mut sim), Ok(Action::Next));
    assert_eq!(sim.get_ic(), 0);
    sim.set_ic(1);
    assert_eq!(operate(&mut sim), Ok(Action::Next));
    assert_eq!(sim.get_ic(), 1);
    assert_eq!(sim.get_int_reg(1), 6);
    sim.set_ic(2);
    assert_eq!(operate(&mut sim), Ok(Action::Print(1, 6)));
    assert_eq!(sim.get_ic(), 2);
    sim.set_ic(4);
    assert_eq!(operate(&mut sim), Ok(Action::Exit));
    assert_eq!(sim.get_ic(), 4);
    sim.set_ic(3);
    assert_eq!(operate(&mut sim), Ok(Action::Jump));
    assert_eq!(sim.get_ic(), 0);
}

#[test]
fn operate_reports_errors_and_changes_nothing() {
    let mut sim = machine(&["@MAIN", "LI $1 6", "DIV $2 $1 $3", "MOVE $1 $50", "JUMP @GONE"]);
    sim.set_ic(1);
    assert_eq!(operate(&mut sim), Ok(Action::Next));
    sim.set_ic(2);
    assert_eq!(operate(&mut sim), Err(Error::DivisionByZero));
    assert_eq!(sim.get_ic(), 2);
    sim.set_ic(3);
    assert_eq!(operate(&mut sim), Err(Error::OutOfRange));
    assert_eq!(sim.get_ic(), 3);
    sim.set_ic(4);
    assert_eq!(operate(&mut sim), Err(Error::UnknownLabel));
    assert_eq!(sim.get_ic(), 4);
    assert_eq!(sim.get_int_reg(1), 6);
    assert_eq!(sim.get_int_reg(2), 0);
}

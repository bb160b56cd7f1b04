use tape_translator::emitter::Statement;
use tape_translator::position::Position;
use tape_translator::render::{push_body, push_decimal, push_diagnostic, push_statement};

fn text(statement: Statement, file_name: &str) -> String {
    let mut out = String::new();
    push_statement(&mut out, statement, file_name);
    out
}

fn decimal(n: usize) -> String {
    let mut out = String::new();
    push_decimal(&mut out, n);
    out
}

#[test]
fn decimal_of_single_digits() {
    assert_eq!(decimal(0), "0");
    assert_eq!(decimal(1), "1");
    assert_eq!(decimal(2), "2");
    assert_eq!(decimal(3), "3");
    assert_eq!(decimal(4), "4");
    assert_eq!(decimal(5), "5");
    assert_eq!(decimal(6), "6");
    assert_eq!(decimal(7), "7");
    assert_eq!(decimal(8), "8");
    assert_eq!(decimal(9), "9");
}

#[test]
fn decimal_of_longer_numbers() {
    assert_eq!(decimal(10), "10");
    assert_eq!(decimal(99), "99");
    assert_eq!(decimal(100), "100");
    assert_eq!(decimal(907), "907");
    assert_eq!(decimal(1000), "1000");
    assert_eq!(decimal(1234567890), "1234567890");
    assert_eq!(decimal(usize::MAX), usize::MAX.to_string());
}

#[test]
fn decimal_is_appended() {
    let mut out = String::from("n=");
    push_decimal(&mut out, 42);
    push_decimal(&mut out, 7);
    assert_eq!(out, "n=427");
}

#[test]
fn diagnostic_prints_location_and_message_and_returns_one() {
    let mut out = String::from("{ ");
    push_diagnostic(&mut out, "prog.bf", Position { line: 12, column: 345 }, "Something failed");
    assert_eq!(
        out,
        "{ printf(red \"[ERR] At prog.bf:12:345\nSomething failed\\n\" reset); return 1; "
    );
}

#[test]
fn increment_text() {
    assert_eq!(text(Statement::Increment, "a.bf"), "data[current_index]++; ");
}

#[test]
fn decrement_text() {
    assert_eq!(text(Statement::Decrement, "a.bf"), "data[current_index]--; ");
}

#[test]
fn move_right_text_checks_the_upper_bound_first() {
    assert_eq!(
        text(Statement::MoveRight { at: Position { line: 2, column: 31 } }, "a.bf"),
        "if (current_index == 999) { printf(red \"[ERR] At a.bf:2:31\nCurrent index cannot be greater than 999\\n\" reset); return 1; } current_index += 1; "
    );
}

#[test]
fn move_left_text_checks_the_lower_bound_first() {
    assert_eq!(
        text(Statement::MoveLeft { at: Position { line: 10, column: 1 } }, "dir/b.bf"),
        "if (current_index == 0) { printf(red \"[ERR] At dir/b.bf:10:1\nCurrent index cannot be lower than 0\\n\" reset); return 1; } current_index -= 1; "
    );
}

#[test]
fn print_text() {
    assert_eq!(text(Statement::Print, "a.bf"), "printf(\"%c\", (char)data[current_index]); ");
}

#[test]
fn read_text_checks_end_of_input_and_empty_read() {
    assert_eq!(
        text(Statement::Read { at: Position { line: 4, column: 5 } }, "in.bf"),
        "int ret = scanf(\"%c\", &data[current_index]); if (ret < 0) { printf(red \"[ERR] At in.bf:4:5\nUnexpected EOF\\n\" reset); return 1; } else if (ret == 0) { printf(red \"[ERR] At in.bf:4:5\nNo value assigned\\n\" reset); return 1; } "
    );
}

#[test]
fn loop_texts() {
    assert_eq!(text(Statement::LoopOpen, "a.bf"), "while (data[current_index] != 0) { ");
    assert_eq!(text(Statement::LoopClose, "a.bf"), "} ");
}

#[test]
fn track_max_text() {
    assert_eq!(
        text(Statement::TrackMax, "a.bf"),
        "if (current_index > biggest_index) { biggest_index = current_index; } "
    );
}

#[test]
fn trailing_newline_text() {
    assert_eq!(text(Statement::TrailingNewline, "a.bf"), "printf(\"\\n\"); ");
}

#[test]
fn statement_is_appended() {
    let mut out = String::from("x");
    push_statement(&mut out, Statement::LoopClose, "a.bf");
    push_statement(&mut out, Statement::Increment, "a.bf");
    assert_eq!(out, "x} data[current_index]++; ");
}

#[test]
fn file_name_is_embedded_as_it_is() {
    assert_eq!(
        text(Statement::MoveLeft { at: Position { line: 1, column: 1 } }, "mon été.bf"),
        "if (current_index == 0) { printf(red \"[ERR] At mon été.bf:1:1\nCurrent index cannot be lower than 0\\n\" reset); return 1; } current_index -= 1; "
    );
}

#[test]
fn body_is_the_statements_one_behind_the_other() {
    let body = vec![
        Statement::Increment,
        Statement::LoopOpen,
        Statement::Decrement,
        Statement::LoopClose,
        Statement::Print,
        Statement::TrailingNewline,
    ];
    let mut out = String::from("/**/");
    push_body(&mut out, &body, "a.bf");
    assert_eq!(
        out,
        "/**/data[current_index]++; while (data[current_index] != 0) { data[current_index]--; } printf(\"%c\", (char)data[current_index]); printf(\"\\n\"); "
    );
}

#[test]
fn empty_body_has_no_text() {
    let mut out = String::from("kept");
    push_body(&mut out, &[], "a.bf");
    assert_eq!(out, "kept");
}

use tape_translator::emitter::{emit, emit_symbol, Statement};
use tape_translator::normalizer::normalize;
use tape_translator::position::Position;

fn at(line: usize, column: usize) -> Position {
    Position { line, column }
}

fn oracle(stream: &[char], offset: usize) -> Position {
    let mut line: usize = 1;
    let mut column: usize = 1;
    for c in &stream[..offset] {
        if *c == '\n' {
            line += 1;
            column = 1;
        } else {
            column += 1;
        }
    }
    Position { line, column }
}

fn one(symbol: char, debug: bool) -> Vec<Statement> {
    let mut body: Vec<Statement> = Vec::new();
    emit_symbol(&mut body, symbol, at(3, 7), debug);
    body
}

#[test]
fn each_symbol_has_its_statement() {
    assert_eq!(one('+', false), vec![Statement::Increment]);
    assert_eq!(one('-', false), vec![Statement::Decrement]);
    assert_eq!(one('>', false), vec![Statement::MoveRight { at: at(3, 7) }]);
    assert_eq!(one('<', false), vec![Statement::MoveLeft { at: at(3, 7) }]);
    assert_eq!(one('.', false), vec![Statement::Print]);
    assert_eq!(one(',', false), vec![Statement::Read { at: at(3, 7) }]);
    assert_eq!(one('[', false), vec![Statement::LoopOpen]);
    assert_eq!(one(']', false), vec![Statement::LoopClose]);
}

#[test]
fn newline_and_strangers_have_no_statement() {
    assert_eq!(one('\n', false), Vec::<Statement>::new());
    assert_eq!(one('x', false), Vec::<Statement>::new());
    assert_eq!(one('#', true), Vec::<Statement>::new());
    assert_eq!(one('\n', true), Vec::<Statement>::new());
}

#[test]
fn debug_mode_tracks_the_maximum_behind_each_move_right() {
    assert_eq!(one('>', true), vec![Statement::MoveRight { at: at(3, 7) }, Statement::TrackMax]);
    assert_eq!(one('<', true), vec![Statement::MoveLeft { at: at(3, 7) }]);
    assert_eq!(one('+', true), vec![Statement::Increment]);
    assert_eq!(one(',', true), vec![Statement::Read { at: at(3, 7) }]);
}

#[test]
fn emit_symbol_appends_to_what_is_there() {
    let mut body = vec![Statement::Print];
    emit_symbol(&mut body, '-', at(1, 1), false);
    emit_symbol(&mut body, '\n', at(1, 2), false);
    emit_symbol(&mut body, '>', at(2, 1), true);
    assert_eq!(
        body,
        vec![
            Statement::Print,
            Statement::Decrement,
            Statement::MoveRight { at: at(2, 1) },
            Statement::TrackMax,
        ]
    );
}

#[test]
fn empty_stream_has_an_empty_body() {
    assert_eq!(emit(&normalize(""), false), Vec::<Statement>::new());
    assert_eq!(emit(&normalize("\n\n"), true), Vec::<Statement>::new());
}

#[test]
fn statements_follow_the_order_of_the_symbols() {
    assert_eq!(
        emit(&normalize("+-[<]"), false),
        vec![
            Statement::Increment,
            Statement::Decrement,
            Statement::LoopOpen,
            Statement::MoveLeft { at: at(1, 4) },
            Statement::LoopClose,
        ]
    );
}

#[test]
fn positions_follow_lines_of_the_stream() {
    assert_eq!(
        emit(&normalize(">\n\n ,x<\n+>"), false),
        vec![
            Statement::MoveRight { at: at(1, 1) },
            Statement::Read { at: at(3, 1) },
            Statement::MoveLeft { at: at(3, 2) },
            Statement::Increment,
            Statement::MoveRight { at: at(4, 2) },
        ]
    );
}

#[test]
fn positions_are_those_of_the_stream_not_of_the_raw_text() {
    assert_eq!(
        emit(&normalize("# header\nabc>\n# note\n\n   <"), false),
        vec![Statement::MoveRight { at: at(1, 1) }, Statement::MoveLeft { at: at(3, 1) }]
    );
}

#[test]
fn every_check_carries_the_position_a_full_scan_gives() {
    let unit = normalize("+>\n<<\n\n,.[>\n-]\n>>,<");
    let stream = unit.symbols();
    let body = emit(&unit, false);
    let mut next: usize = 0;
    for (i, c) in stream.iter().enumerate() {
        if *c == '\n' {
            continue;
        }
        let expected = oracle(stream, i);
        match body[next] {
            Statement::MoveRight { at } => {
                assert_eq!(*c, '>');
                assert_eq!(at, expected);
            }
            Statement::MoveLeft { at } => {
                assert_eq!(*c, '<');
                assert_eq!(at, expected);
            }
            Statement::Read { at } => {
                assert_eq!(*c, ',');
                assert_eq!(at, expected);
            }
            _ => assert!("+-.[]".contains(*c)),
        }
        next += 1;
    }
    assert_eq!(body[next], Statement::TrailingNewline);
    assert_eq!(body.len(), next + 1);
}

#[test]
fn thousandth_move_right_stands_at_column_1000() {
    let source = ">".repeat(1000);
    let body = emit(&normalize(&source), false);
    assert_eq!(body.len(), 1000);
    assert_eq!(body[0], Statement::MoveRight { at: at(1, 1) });
    assert_eq!(body[998], Statement::MoveRight { at: at(1, 999) });
    assert_eq!(body[999], Statement::MoveRight { at: at(1, 1000) });
}

#[test]
fn printing_program_gets_one_trailing_newline_at_the_end() {
    let body = emit(&normalize(".+.\n."), false);
    assert_eq!(
        body,
        vec![
            Statement::Print,
            Statement::Increment,
            Statement::Print,
            Statement::Print,
            Statement::TrailingNewline,
        ]
    );
    assert_eq!(body.iter().filter(|s| **s == Statement::TrailingNewline).count(), 1);
}

#[test]
fn silent_program_gets_no_trailing_newline() {
    let body = emit(&normalize("+[>,<-]"), true);
    assert_eq!(body.iter().filter(|s| **s == Statement::TrailingNewline).count(), 0);
}

#[test]
fn print_on_a_comment_line_brings_no_trailing_newline() {
    assert_eq!(emit(&normalize("#.\n+"), false), vec![Statement::Increment]);
}

#[test]
fn debug_body_without_tracking_is_the_plain_body() {
    let unit = normalize("+>>[<.>-]\n>,<.");
    let plain = emit(&unit, false);
    let traced = emit(&unit, true);
    assert_eq!(traced.len(), plain.len() + 4);
    let stripped: Vec<Statement> =
        traced.iter().filter(|s| **s != Statement::TrackMax).map(|s| *s).collect();
    assert_eq!(stripped, plain);
    assert_eq!(plain.iter().filter(|s| **s == Statement::TrackMax).count(), 0);
}

#[test]
fn cell_doubling_loop_body() {
    assert_eq!(
        emit(&normalize("++++[>++++<-]>."), false),
        vec![
            Statement::Increment,
            Statement::Increment,
            Statement::Increment,
            Statement::Increment,
            Statement::LoopOpen,
            Statement::MoveRight { at: at(1, 6) },
            Statement::Increment,
            Statement::Increment,
            Statement::Increment,
            Statement::Increment,
            Statement::MoveLeft { at: at(1, 11) },
            Statement::Decrement,
            Statement::LoopClose,
            Statement::MoveRight { at: at(1, 14) },
            Statement::Print,
            Statement::TrailingNewline,
        ]
    );
}

//! The instruction emitter: one pass over the normalized stream, from each
//! instruction symbol to the statements that stand for it.
use vstd::prelude::*;
use crate::normalizer::SourceUnit;
use crate::alphabet::is_instruction;
use crate::validator::{count_of, lemma_count_concat};
use crate::position::{
    column_of, lemma_position_bounds, lemma_step_follows_stream, line_of, Position,
    PositionTracker, TrackerState,
};

verus! {

/// A statement of the generated program. The three that can fail when the
/// generated program runs carry the line and column of the symbol they came
/// from, for the diagnostic that they print.
#[derive(Clone, Copy, Debug, PartialEq, Eq)]
pub enum Statement {
    /// Add one to the current cell.
    Increment,
    /// Take one from the current cell.
    Decrement,
    /// Stop with a diagnostic if the cursor is 999, else move it right.
    MoveRight { at: Position },
    /// Stop with a diagnostic if the cursor is 0, else move it left.
    MoveLeft { at: Position },
    /// Write the current cell as a character.
    Print,
    /// Read one character into the current cell; stop with a diagnostic at
    /// end of input or when nothing was assigned.
    Read { at: Position },
    /// Begin a loop that runs while the current cell is not zero.
    LoopOpen,
    /// End the innermost open loop.
    LoopClose,
    /// Raise the recorded maximum index to the cursor if the cursor is beyond it.
    TrackMax,
    /// Print the newline that closes the program's output.
    TrailingNewline,
}

impl Statement {
    /// The statement exists only in debug mode.
    pub open spec fn is_debug_only(self) -> bool {
        self is TrackMax
    }
}

/// Line and column of the character at offset `i`.
pub open spec fn position_of(stream: Seq<char>, i: int) -> Position {
    Position { line: line_of(stream, i) as usize, column: column_of(stream, i) as usize }
}

/// The statements that stand for one symbol found at `at`. A newline, like any
/// character that is no instruction, stands for none.
pub open spec fn translation(symbol: char, at: Position, debug: bool) -> Seq<Statement> {
    if symbol == '+' {
        seq![Statement::Increment]
    } else if symbol == '-' {
        seq![Statement::Decrement]
    } else if symbol == '>' {
        if debug {
            seq![Statement::MoveRight { at }, Statement::TrackMax]
        } else {
            seq![Statement::MoveRight { at }]
        }
    } else if symbol == '<' {
        seq![Statement::MoveLeft { at }]
    } else if symbol == '.' {
        seq![Statement::Print]
    } else if symbol == ',' {
        seq![Statement::Read { at }]
    } else if symbol == '[' {
        seq![Statement::LoopOpen]
    } else if symbol == ']' {
        seq![Statement::LoopClose]
    } else {
        Seq::empty()
    }
}

/// The statements for the first `n` characters of the stream, in order.
pub open spec fn emitted_prefix(stream: Seq<char>, n: int, debug: bool) -> Seq<Statement>
    decreases n,
{
    if n <= 0 {
        Seq::empty()
    } else {
        emitted_prefix(stream, n - 1, debug) + translation(
            stream[n - 1],
            position_of(stream, n - 1),
            debug,
        )
    }
}

/// The closing newline: one statement if the stream prints anything, none otherwise.
pub open spec fn trailing_newline(stream: Seq<char>) -> Seq<Statement> {
    if stream.contains('.') {
        seq![Statement::TrailingNewline]
    } else {
        Seq::empty()
    }
}

/// The body of the generated program: the statements for every character of
/// the stream, then the closing newline if there is one.
pub open spec fn emitted(stream: Seq<char>, debug: bool) -> Seq<Statement> {
    emitted_prefix(stream, stream.len() as int, debug) + trailing_newline(stream)
}

/// Appends to `body` the statements that stand for `symbol` found at `at`.
pub fn emit_symbol(body: &mut Vec<Statement>, symbol: char, at: Position, debug: bool)
    ensures
        final(body)@ == old(body)@ + translation(symbol, at, debug),
{
    match symbol {
        '+' => {
            body.push(Statement::Increment);
        },
        '-' => {
            body.push(Statement::Decrement);
        },
        '>' => {
            body.push(Statement::MoveRight { at });
            if debug {
                body.push(Statement::TrackMax);
            }
        },
        '<' => {
            body.push(Statement::MoveLeft { at });
        },
        '.' => {
            body.push(Statement::Print);
        },
        ',' => {
            body.push(Statement::Read { at });
        },
        '[' => {
            body.push(Statement::LoopOpen);
        },
        ']' => {
            body.push(Statement::LoopClose);
        },
        _ => {},
    }
    assert(body@ =~= old(body)@ + translation(symbol, at, debug));
}

/// Emits the body of the generated program. Each symbol is translated in
/// turn, with the line and column that the tracker reports for it; in debug
/// mode each move to the right is followed by an update of the recorded
/// maximum index.
pub fn emit(unit: &SourceUnit, debug: bool) -> (body: Vec<Statement>)
    ensures
        body@ == emitted(unit@, debug),
{
    let symbols = unit.symbols();
    let mut body: Vec<Statement> = Vec::new();
    let mut tracker = PositionTracker::new();
    let mut prints = false;
    let mut i: usize = 0;
    while i < symbols.len()
        invariant
            i <= symbols.len(),
            tracker@ == TrackerState::at(symbols@, i as int),
            body@ == emitted_prefix(symbols@, i as int, debug),
            prints == symbols@.take(i as int).contains('.'),
        decreases symbols.len() - i,
    {
        let symbol = symbols[i];
        proof {
            lemma_step_follows_stream(symbols@, i as int);
        }
        let at = tracker.advance(symbol);
        emit_symbol(&mut body, symbol, at, debug);
        if symbol == '.' {
            prints = true;
        }
        proof {
            let before = symbols@.take(i as int);
            let now = symbols@.take(i + 1);
            assert(now == before.push(symbol));
            if before.contains('.') {
                let j = choose|j: int| 0 <= j < before.len() && before[j] == '.';
                assert(now[j] == '.');
            }
            if symbol == '.' {
                assert(now[i as int] == '.');
            }
        }
        i = i + 1;
    }
    proof {
        assert(symbols@.take(i as int) == symbols@);
    }
    if prints {
        body.push(Statement::TrailingNewline);
    }
    assert(body@ =~= emitted(unit@, debug));
    body
}

/// Offset in the body of the first statement for the character at offset `i`
/// of the stream.
pub open spec fn slot(stream: Seq<char>, i: int, debug: bool) -> int {
    emitted_prefix(stream, i, debug).len() as int
}

/// The body without the statements that exist only in debug mode.
pub open spec fn without_debug(body: Seq<Statement>) -> Seq<Statement> {
    body.filter(|statement: Statement| !statement.is_debug_only())
}

proof fn lemma_prefix_extends(stream: Seq<char>, n: int, m: int, debug: bool)
    requires
        0 <= n <= m,
    ensures
        slot(stream, n, debug) <= slot(stream, m, debug),
        emitted_prefix(stream, m, debug).take(slot(stream, n, debug)) == emitted_prefix(
            stream,
            n,
            debug,
        ),
    decreases m,
{
    if n < m {
        lemma_prefix_extends(stream, n, m - 1, debug);
        assert(emitted_prefix(stream, m, debug).take(slot(stream, n, debug))
            =~= emitted_prefix(stream, m - 1, debug).take(slot(stream, n, debug)));
    } else {
        assert(emitted_prefix(stream, m, debug).take(slot(stream, n, debug)) =~= emitted_prefix(
            stream,
            n,
            debug,
        ));
    }
}

/// The statements for the character at offset `i` stand in the body right
/// behind those for the characters before it, and they are the translation of
/// that character with its own line and column.
pub proof fn lemma_statements_in_place(stream: Seq<char>, debug: bool, i: int)
    requires
        0 <= i < stream.len(),
    ensures
        0 <= slot(stream, i, debug) <= slot(stream, i + 1, debug) <= emitted(stream, debug).len(),
        emitted(stream, debug).subrange(slot(stream, i, debug), slot(stream, i + 1, debug))
            == translation(stream[i], position_of(stream, i), debug),
{
    let len = stream.len() as int;
    lemma_prefix_extends(stream, i + 1, len, debug);
    let whole = emitted_prefix(stream, len, debug);
    let upto = emitted_prefix(stream, i + 1, debug);
    assert(whole.take(slot(stream, i + 1, debug)) == upto);
    assert(emitted(stream, debug).subrange(slot(stream, i, debug), slot(stream, i + 1, debug))
        =~= upto.subrange(slot(stream, i, debug), slot(stream, i + 1, debug))) by {
        let first = slot(stream, i, debug);
        let next = slot(stream, i + 1, debug);
        assert forall|k: int| first <= k < next implies emitted(stream, debug)[k] == upto[k] by {
            assert(whole.take(next)[k] == whole[k]);
        }
    }
    assert(upto.subrange(slot(stream, i, debug), slot(stream, i + 1, debug)) =~= translation(
        stream[i],
        position_of(stream, i),
        debug,
    ));
}

/// Each check against the bounds of the tape, and each check of a read,
/// carries the line and column of the very symbol it was emitted for, as a
/// scan of the whole stream up to that symbol gives them.
pub proof fn lemma_check_carries_position(stream: Seq<char>, debug: bool, i: int)
    requires
        0 <= i < stream.len() <= usize::MAX,
        stream[i] == '>' || stream[i] == '<' || stream[i] == ',',
    ensures
        0 <= slot(stream, i, debug) < emitted(stream, debug).len(),
        ({
            let statement = emitted(stream, debug)[slot(stream, i, debug)];
            let at = Position {
                line: line_of(stream, i) as usize,
                column: column_of(stream, i) as usize,
            };
            &&& at.line == line_of(stream, i)
            &&& at.column == column_of(stream, i)
            &&& stream[i] == '>' ==> statement == Statement::MoveRight { at }
            &&& stream[i] == '<' ==> statement == Statement::MoveLeft { at }
            &&& stream[i] == ',' ==> statement == Statement::Read { at }
        }),
{
    lemma_statements_in_place(stream, debug, i);
    lemma_position_bounds(stream, i);
    let first = slot(stream, i, debug);
    let piece = emitted(stream, debug).subrange(first, slot(stream, i + 1, debug));
    assert(piece.len() > 0);
    assert(piece[0] == emitted(stream, debug)[first]);
}

proof fn lemma_prefix_origin(stream: Seq<char>, debug: bool, n: int, k: int)
    requires
        0 <= n,
        0 <= k < slot(stream, n, debug),
    ensures
        exists|i: int|
            0 <= i < n && is_instruction(stream[i]) && slot(stream, i, debug) <= k
                < #[trigger] slot(stream, i + 1, debug),
    decreases n,
{
    if k < slot(stream, n - 1, debug) {
        lemma_prefix_origin(stream, debug, n - 1, k);
    } else {
        assert(slot(stream, n - 1, debug) <= k < slot(stream, n - 1 + 1, debug));
    }
}

/// Nothing stands in the body but what an instruction symbol of the stream
/// put there. Each statement is one of the translation of some instruction
/// symbol, at its place among them; the single exception is the closing
/// newline, the last statement of a program that prints.
pub proof fn lemma_statement_has_origin(stream: Seq<char>, debug: bool, k: int)
    requires
        0 <= k < emitted(stream, debug).len(),
    ensures
        (stream.contains('.') && k == emitted(stream, debug).len() - 1 && emitted(stream, debug)[k]
            == Statement::TrailingNewline) || (exists|i: int|
            0 <= i < stream.len() && is_instruction(stream[i]) && slot(stream, i, debug) <= k
                < #[trigger] slot(stream, i + 1, debug) && emitted(stream, debug)[k] == translation(
                stream[i],
                position_of(stream, i),
                debug,
            )[k - slot(stream, i, debug)]),
{
    let len = stream.len() as int;
    if k < slot(stream, len, debug) {
        lemma_prefix_origin(stream, debug, len, k);
        let i = choose|i: int|
            0 <= i < len && is_instruction(stream[i]) && slot(stream, i, debug) <= k
                < #[trigger] slot(stream, i + 1, debug);
        lemma_statements_in_place(stream, debug, i);
        let first = slot(stream, i, debug);
        let piece = emitted(stream, debug).subrange(first, slot(stream, i + 1, debug));
        assert(piece[k - first] == emitted(stream, debug)[k]);
    }
}

proof fn lemma_prefix_has_no_trailing_newline(stream: Seq<char>, debug: bool, n: int, k: int)
    requires
        0 <= k < slot(stream, n, debug),
    ensures
        !(emitted_prefix(stream, n, debug)[k] is TrailingNewline),
    decreases n,
{
    if n > 0 {
        if k < slot(stream, n - 1, debug) {
            lemma_prefix_has_no_trailing_newline(stream, debug, n - 1, k);
        }
    }
}

/// A program that prints gets exactly one closing newline, as its last
/// statement; a program that does not print gets none.
pub proof fn lemma_one_trailing_newline(stream: Seq<char>, debug: bool)
    ensures
        stream.contains('.') ==> emitted(stream, debug).len() > 0,
        forall|k: int|
            0 <= k < emitted(stream, debug).len() ==> (#[trigger] emitted(stream, debug)[k]
                is TrailingNewline <==> stream.contains('.') && k == emitted(stream, debug).len()
                - 1),
{
    let len = stream.len() as int;
    assert forall|k: int| 0 <= k < emitted(stream, debug).len() implies (#[trigger] emitted(
        stream,
        debug,
    )[k] is TrailingNewline <==> stream.contains('.') && k == emitted(stream, debug).len()
        - 1) by {
        if k < slot(stream, len, debug) {
            lemma_prefix_has_no_trailing_newline(stream, debug, len, k);
        }
    }
}

proof fn lemma_prefix_without_debug(stream: Seq<char>, n: int)
    ensures
        without_debug(emitted_prefix(stream, n, true)) == emitted_prefix(stream, n, false),
    decreases n,
{
    reveal_with_fuel(Seq::filter, 3);
    let keep = |statement: Statement| !statement.is_debug_only();
    if n > 0 {
        lemma_prefix_without_debug(stream, n - 1);
        let before = emitted_prefix(stream, n - 1, true);
        let piece = translation(stream[n - 1], position_of(stream, n - 1), true);
        Seq::filter_distributes_over_add(before, piece, keep);
        assert(piece.filter(keep) =~= translation(
            stream[n - 1],
            position_of(stream, n - 1),
            false,
        )) by {
            if piece.len() == 2 {
                assert(piece.drop_last().drop_last().len() == 0);
            } else if piece.len() == 1 {
                assert(piece.drop_last().len() == 0);
            }
        }
    }
}

/// Debug mode adds statements and changes none: the body of debug mode, with
/// the updates of the recorded maximum index taken out, is the body of plain
/// mode.
pub proof fn lemma_debug_only_adds_tracking(stream: Seq<char>)
    ensures
        without_debug(emitted(stream, true)) == emitted(stream, false),
{
    reveal_with_fuel(Seq::filter, 2);
    let keep = |statement: Statement| !statement.is_debug_only();
    lemma_prefix_without_debug(stream, stream.len() as int);
    Seq::filter_distributes_over_add(
        emitted_prefix(stream, stream.len() as int, true),
        trailing_newline(stream),
        keep,
    );
    assert(trailing_newline(stream).filter(keep) =~= trailing_newline(stream)) by {
        if trailing_newline(stream).len() == 1 {
            assert(trailing_newline(stream).drop_last().len() == 0);
        }
    }
}

proof fn lemma_prefix_loops_mirror_brackets(stream: Seq<char>, debug: bool, n: int)
    requires
        0 <= n <= stream.len(),
    ensures
        count_of(emitted_prefix(stream, n, debug), Statement::LoopOpen) == count_of(
            stream.take(n),
            '[',
        ),
        count_of(emitted_prefix(stream, n, debug), Statement::LoopClose) == count_of(
            stream.take(n),
            ']',
        ),
    decreases n,
{
    reveal_with_fuel(count_of, 3);
    if n > 0 {
        lemma_prefix_loops_mirror_brackets(stream, debug, n - 1);
        let before = emitted_prefix(stream, n - 1, debug);
        let piece = translation(stream[n - 1], position_of(stream, n - 1), debug);
        lemma_count_concat(before, piece, Statement::LoopOpen);
        lemma_count_concat(before, piece, Statement::LoopClose);
        assert(stream.take(n).drop_last() == stream.take(n - 1));
        if piece.len() == 2 {
            assert(piece.drop_last().drop_last().len() == 0);
        } else if piece.len() == 1 {
            assert(piece.drop_last().len() == 0);
        }
    } else {
        assert(stream.take(0).len() == 0);
    }
}

/// The body opens a loop for each `[` of the stream and closes one for each
/// `]`, and does neither anywhere else.
pub proof fn lemma_loops_mirror_brackets(stream: Seq<char>, debug: bool)
    ensures
        count_of(emitted(stream, debug), Statement::LoopOpen) == count_of(stream, '['),
        count_of(emitted(stream, debug), Statement::LoopClose) == count_of(stream, ']'),
{
    reveal_with_fuel(count_of, 2);
    let len = stream.len() as int;
    lemma_prefix_loops_mirror_brackets(stream, debug, len);
    assert(stream.take(len) == stream);
    let body = emitted_prefix(stream, len, debug);
    lemma_count_concat(body, trailing_newline(stream), Statement::LoopOpen);
    lemma_count_concat(body, trailing_newline(stream), Statement::LoopClose);
    if trailing_newline(stream).len() == 1 {
        assert(trailing_newline(stream).drop_last().len() == 0);
    }
}

} // verus!

//! Rendering of statements as C source text.
//!
//! The generated program keeps its tape in `data`, its cursor in
//! `current_index` and, in debug mode, the highest cursor reached in
//! `biggest_index`. `red` and `reset` are the two text styles that the
//! preamble defines for diagnostics.
use vstd::prelude::*;
use vstd::string::StringExecFns;
use crate::emitter::Statement;
use crate::position::Position;

verus! {

/// Adds one to the current cell.
pub const INCREMENT: &'static str = "data[current_index]++; ";

/// Takes one from the current cell.
pub const DECREMENT: &'static str = "data[current_index]--; ";

/// Opens the check that the cursor has not reached the last cell.
pub const RIGHT_GUARD: &'static str = "if (current_index == 999) { ";

/// What the generated program says when the cursor would leave the tape on the right.
pub const RIGHT_MESSAGE: &'static str = "Current index cannot be greater than 999";

/// Closes the check and moves the cursor right.
pub const RIGHT_STEP: &'static str = "} current_index += 1; ";

/// Opens the check that the cursor has not reached the first cell.
pub const LEFT_GUARD: &'static str = "if (current_index == 0) { ";

/// What the generated program says when the cursor would leave the tape on the left.
pub const LEFT_MESSAGE: &'static str = "Current index cannot be lower than 0";

/// Closes the check and moves the cursor left.
pub const LEFT_STEP: &'static str = "} current_index -= 1; ";

/// Writes the current cell as a character.
pub const PRINT: &'static str = "printf(\"%c\", (char)data[current_index]); ";

/// Reads one character into the current cell and opens the check for end of input.
pub const READ_CALL: &'static str =
    "int ret = scanf(\"%c\", &data[current_index]); if (ret < 0) { ";

/// What the generated program says when its input has ended.
pub const READ_EOF_MESSAGE: &'static str = "Unexpected EOF";

/// Opens the check for a read that assigned nothing.
pub const READ_ELSE: &'static str = "} else if (ret == 0) { ";

/// What the generated program says when a read assigned nothing.
pub const READ_EMPTY_MESSAGE: &'static str = "No value assigned";

/// Closes the checks of a read.
pub const READ_END: &'static str = "} ";

/// Begins a loop that runs while the current cell is not zero.
pub const LOOP_OPEN: &'static str = "while (data[current_index] != 0) { ";

/// Ends a loop.
pub const LOOP_CLOSE: &'static str = "} ";

/// Raises the recorded maximum index to the cursor.
pub const TRACK_MAX: &'static str =
    "if (current_index > biggest_index) { biggest_index = current_index; } ";

/// Prints the newline that closes the program's output.
pub const TRAILING_NEWLINE: &'static str = "printf(\"\\n\"); ";

/// Begins the statement that prints a diagnostic, up to the location.
pub const DIAGNOSTIC_HEAD: &'static str = "printf(red \"[ERR] At ";

/// Ends the diagnostic with a newline, resets the style and stops the
/// generated program with status 1.
pub const DIAGNOSTIC_TAIL: &'static str = "\\n\" reset); return 1; ";

/// The character for one decimal digit.
pub open spec fn digit_char(d: int) -> char {
    (d + 48) as u8 as char
}

/// `n` in decimal, without sign or leading zeros.
pub open spec fn decimal_text(n: int) -> Seq<char>
    decreases n,
{
    if n < 10 {
        seq![digit_char(n)]
    } else {
        decimal_text(n / 10).push(digit_char(n % 10))
    }
}

/// File, line and column, separated by colons.
pub open spec fn location_text(file: Seq<char>, at: Position) -> Seq<char> {
    file + ":"@ + decimal_text(at.line as int) + ":"@ + decimal_text(at.column as int)
}

/// The statements that print a diagnostic and end the generated program with
/// status 1. The message stands on a line of its own under the location.
pub open spec fn diagnostic_text(file: Seq<char>, at: Position, message: Seq<char>) -> Seq<char> {
    DIAGNOSTIC_HEAD@ + location_text(file, at) + "\n"@ + message + DIAGNOSTIC_TAIL@
}

/// The C text of one statement.
pub open spec fn statement_text(statement: Statement, file: Seq<char>) -> Seq<char> {
    match statement {
        Statement::Increment => INCREMENT@,
        Statement::Decrement => DECREMENT@,
        Statement::MoveRight { at } => RIGHT_GUARD@ + diagnostic_text(file, at, RIGHT_MESSAGE@)
            + RIGHT_STEP@,
        Statement::MoveLeft { at } => LEFT_GUARD@ + diagnostic_text(file, at, LEFT_MESSAGE@)
            + LEFT_STEP@,
        Statement::Print => PRINT@,
        Statement::Read { at } => READ_CALL@ + diagnostic_text(file, at, READ_EOF_MESSAGE@)
            + READ_ELSE@ + diagnostic_text(file, at, READ_EMPTY_MESSAGE@) + READ_END@,
        Statement::LoopOpen => LOOP_OPEN@,
        Statement::LoopClose => LOOP_CLOSE@,
        Statement::TrackMax => TRACK_MAX@,
        Statement::TrailingNewline => TRAILING_NEWLINE@,
    }
}

/// The text of the statements of `body`, one behind the other.
pub open spec fn body_text(body: Seq<Statement>, file: Seq<char>) -> Seq<char>
    decreases body.len(),
{
    if body.len() == 0 {
        Seq::empty()
    } else {
        body_text(body.drop_last(), file) + statement_text(body.last(), file)
    }
}

fn digit_str(d: usize) -> (s: &'static str)
    requires
        d < 10,
    ensures
        s@ == seq![digit_char(d as int)],
{
    proof {
        reveal_strlit("0");
        reveal_strlit("1");
        reveal_strlit("2");
        reveal_strlit("3");
        reveal_strlit("4");
        reveal_strlit("5");
        reveal_strlit("6");
        reveal_strlit("7");
        reveal_strlit("8");
        reveal_strlit("9");
    }
    let s = if d == 0 {
        "0"
    } else if d == 1 {
        "1"
    } else if d == 2 {
        "2"
    } else if d == 3 {
        "3"
    } else if d == 4 {
        "4"
    } else if d == 5 {
        "5"
    } else if d == 6 {
        "6"
    } else if d == 7 {
        "7"
    } else if d == 8 {
        "8"
    } else {
        "9"
    };
    assert(s@ =~= seq![digit_char(d as int)]);
    s
}

/// Appends `n` in decimal.
pub fn push_decimal(out: &mut String, n: usize)
    ensures
        final(out)@ == old(out)@ + decimal_text(n as int),
    decreases n,
{
    if n >= 10 {
        push_decimal(out, n / 10);
    }
    out.append(digit_str(n % 10));
    assert(out@ =~= old(out)@ + decimal_text(n as int));
}

/// Appends the statements that print a diagnostic for `at` in `file_name`.
pub fn push_diagnostic(out: &mut String, file_name: &str, at: Position, message: &str)
    ensures
        final(out)@ == old(out)@ + diagnostic_text(file_name@, at, message@),
{
    out.append(DIAGNOSTIC_HEAD);
    out.append(file_name);
    out.append(":");
    push_decimal(out, at.line);
    out.append(":");
    push_decimal(out, at.column);
    out.append("\n");
    out.append(message);
    out.append(DIAGNOSTIC_TAIL);
    assert(out@ =~= old(out)@ + diagnostic_text(file_name@, at, message@));
}

/// Appends the C text of one statement.
pub fn push_statement(out: &mut String, statement: Statement, file_name: &str)
    ensures
        final(out)@ == old(out)@ + statement_text(statement, file_name@),
{
    match statement {
        Statement::Increment => {
            out.append(INCREMENT);
        },
        Statement::Decrement => {
            out.append(DECREMENT);
        },
        Statement::MoveRight { at } => {
            out.append(RIGHT_GUARD);
            push_diagnostic(out, file_name, at, RIGHT_MESSAGE);
            out.append(RIGHT_STEP);
        },
        Statement::MoveLeft { at } => {
            out.append(LEFT_GUARD);
            push_diagnostic(out, file_name, at, LEFT_MESSAGE);
            out.append(LEFT_STEP);
        },
        Statement::Print => {
            out.append(PRINT);
        },
        Statement::Read { at } => {
            out.append(READ_CALL);
            push_diagnostic(out, file_name, at, READ_EOF_MESSAGE);
            out.append(READ_ELSE);
            push_diagnostic(out, file_name, at, READ_EMPTY_MESSAGE);
            out.append(READ_END);
        },
        Statement::LoopOpen => {
            out.append(LOOP_OPEN);
        },
        Statement::LoopClose => {
            out.append(LOOP_CLOSE);
        },
        Statement::TrackMax => {
            out.append(TRACK_MAX);
        },
        Statement::TrailingNewline => {
            out.append(TRAILING_NEWLINE);
        },
    }
    assert(out@ =~= old(out)@ + statement_text(statement, file_name@));
}

/// Appends the text of every statement of `body`, in order.
pub fn push_body(out: &mut String, body: &[Statement], file_name: &str)
    ensures
        final(out)@ == old(out)@ + body_text(body@, file_name@),
{
    let mut k: usize = 0;
    while k < body.len()
        invariant
            k <= body.len(),
            out@ == old(out)@ + body_text(body@.take(k as int), file_name@),
        decreases body.len() - k,
    {
        proof {
            assert(body@.take(k + 1).drop_last() == body@.take(k as int));
        }
        push_statement(out, body[k], file_name);
        assert(out@ =~= old(out)@ + body_text(body@.take(k + 1), file_name@));
        k = k + 1;
    }
    proof {
        assert(body@.take(k as int) == body@);
    }
}

/// The text of two bodies in a row is the text of the first, then the text
/// of the second.
pub proof fn lemma_body_text_concat(first: Seq<Statement>, second: Seq<Statement>, file: Seq<char>)
    ensures
        body_text(first + second, file) == body_text(first, file) + body_text(second, file),
    decreases second.len(),
{
    if second.len() == 0 {
        assert(first + second == first);
        assert(body_text(first, file) + body_text(second, file) == body_text(first, file));
    } else {
        lemma_body_text_concat(first, second.drop_last(), file);
        assert((first + second).drop_last() == first + second.drop_last());
        assert(body_text(first + second, file) == body_text(first, file) + body_text(second, file));
    }
}

} // verus!

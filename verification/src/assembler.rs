//! The program assembler: wraps a body of statements into a complete
//! translation unit.
use vstd::prelude::*;
use vstd::string::StringExecFns;
use crate::emitter::Statement;
use crate::render::{body_text, push_body};

verus! {

/// What the generated program includes, and the two text styles of its
/// diagnostics.
pub const PREAMBLE: &'static str =
    "\n#include <stdio.h>\n#define red \"\\x1b[31m\"\n#define reset \"\\x1b[0m\"\n";

/// Opens the entry point.
pub const ENTRY: &'static str = "int main() {";

/// Declares the tape of 1000 cells, all zero, and the cursor at 0.
pub const TAPE: &'static str = " long data[1000] = {0}; unsigned int current_index = 0; ";

/// Declares the recorded maximum index, at 0.
pub const MAX_INDEX: &'static str = "unsigned int biggest_index = 0; ";

/// Prints the cells from 0 to the recorded maximum index, separated by
/// commas, in brackets, and a newline.
pub const DUMP: &'static str =
    "printf(\"[\"); if (biggest_index > 0) { for (int i = 0; i < biggest_index; i++) { printf(\"%d, \", data[i]); } } printf(\"%d]\\n\", data[biggest_index]); ";

/// Returns success and closes the entry point.
pub const FINISH: &'static str = "return 0; }";

/// What stands before the body: preamble, entry point, tape and cursor and,
/// in debug mode, the recorded maximum index.
pub open spec fn prologue_text(debug: bool) -> Seq<char> {
    if debug {
        PREAMBLE@ + ENTRY@ + TAPE@ + MAX_INDEX@
    } else {
        PREAMBLE@ + ENTRY@ + TAPE@
    }
}

/// What stands behind the body: in debug mode the dump of the tape, then the
/// return.
pub open spec fn epilogue_text(debug: bool) -> Seq<char> {
    if debug {
        DUMP@ + FINISH@
    } else {
        FINISH@
    }
}

/// The complete translation unit around `body`.
pub open spec fn program_text(body: Seq<Statement>, file: Seq<char>, debug: bool) -> Seq<char> {
    prologue_text(debug) + body_text(body, file) + epilogue_text(debug)
}

/// Assembles the translation unit: prologue, the text of each statement of
/// `body` in order, epilogue. Diagnostics in the body name `file_name`.
pub fn assemble(body: &[Statement], file_name: &str, debug: bool) -> (program: String)
    ensures
        program@ == program_text(body@, file_name@, debug),
{
    let mut program = String::from_str(PREAMBLE);
    program.append(ENTRY);
    program.append(TAPE);
    if debug {
        program.append(MAX_INDEX);
    }
    push_body(&mut program, body, file_name);
    if debug {
        program.append(DUMP);
    }
    program.append(FINISH);
    assert(program@ =~= program_text(body@, file_name@, debug));
    program
}

} // verus!

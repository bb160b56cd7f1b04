//! The whole pipeline, from raw text to the text of the generated program.
use vstd::prelude::*;
use crate::alphabet::{in_alphabet, is_instruction};
use crate::assembler::{assemble, program_text, DUMP, ENTRY, FINISH, MAX_INDEX, PREAMBLE, TAPE};
use crate::emitter::{
    emit, emitted, emitted_prefix, lemma_debug_only_adds_tracking, lemma_loops_mirror_brackets,
    position_of, translation, without_debug, Statement,
};
use crate::normalizer::{
    ends_at_line_boundary, lemma_outside_character_is_ignored, normalize, normalized,
};
use crate::render::{body_text, lemma_body_text_concat};
use crate::validator::{brackets_balanced, count_of, validate, StructuralError};

verus! {

/// The generated program for `source`, had it passed validation.
pub open spec fn translation_text(source: Seq<char>, file: Seq<char>, debug: bool) -> Seq<char> {
    program_text(emitted(normalized(source), debug), file, debug)
}

/// What `translate` returns for `source`: the generated program exactly when
/// the loop delimiters of the normalized stream balance, and otherwise an
/// error that names the file.
pub open spec fn is_translation(
    source: Seq<char>,
    file: Seq<char>,
    debug: bool,
    result: Result<String, StructuralError>,
) -> bool {
    match result {
        Ok(program) => brackets_balanced(normalized(source)) && program@ == translation_text(
            source,
            file,
            debug,
        ),
        Err(error) => !brackets_balanced(normalized(source)) && error.file_name@ == file,
    }
}

/// Translates a program. The text is normalized and validated before
/// anything is emitted, so a failure leaves no partial output.
pub fn translate(source: &str, file_name: &str, debug: bool) -> (result: Result<
    String,
    StructuralError,
>)
    ensures
        result is Ok <==> brackets_balanced(normalized(source@)),
        is_translation(source@, file_name@, debug, result),
{
    let unit = normalize(source);
    match validate(&unit, file_name) {
        Err(error) => Err(error),
        Ok(()) => {
            let body = emit(&unit, debug);
            Ok(assemble(body.as_slice(), file_name, debug))
        },
    }
}

/// Translating the same input twice with the same flags gives the same
/// outcome: both fail, naming the same file, or both succeed with the same
/// text, character for character.
pub proof fn lemma_translation_is_deterministic(
    source: Seq<char>,
    file: Seq<char>,
    debug: bool,
    first: Result<String, StructuralError>,
    second: Result<String, StructuralError>,
)
    requires
        is_translation(source, file, debug, first),
        is_translation(source, file, debug, second),
    ensures
        first is Ok <==> second is Ok,
        first is Ok ==> first->Ok_0@ == second->Ok_0@,
        first is Err ==> first->Err_0.file_name@ == second->Err_0.file_name@,
{
}

/// Debug mode changes three things and nothing else: the declaration of the
/// recorded maximum index stands before the body, its update follows each
/// move to the right, and the dump of the tape stands behind the body. With
/// the updates taken out, the body of debug mode is the body of plain mode.
pub proof fn lemma_debug_mode_only_adds(source: Seq<char>, file: Seq<char>)
    ensures
        ({
            let plain = emitted(normalized(source), false);
            let traced = emitted(normalized(source), true);
            &&& plain == without_debug(traced)
            &&& translation_text(source, file, false) == PREAMBLE@ + ENTRY@ + TAPE@ + body_text(
                plain,
                file,
            ) + FINISH@
            &&& translation_text(source, file, true) == PREAMBLE@ + ENTRY@ + TAPE@ + MAX_INDEX@
                + body_text(traced, file) + DUMP@ + FINISH@
        }),
{
    lemma_debug_only_adds_tracking(normalized(source));
    let traced = emitted(normalized(source), true);
    assert(translation_text(source, file, true) =~= PREAMBLE@ + ENTRY@ + TAPE@ + MAX_INDEX@
        + body_text(traced, file) + DUMP@ + FINISH@);
}

/// A character outside the alphabet never shows in the outcome: with it or
/// without it the same inputs are accepted and the same program is
/// generated. Left out is the insertion, at the start of a line, of a
/// character that turns the line into a comment or a comment into a line.
pub proof fn lemma_outside_character_never_shows(
    a: Seq<char>,
    c: char,
    b: Seq<char>,
    file: Seq<char>,
    debug: bool,
)
    requires
        !in_alphabet(c),
        ends_at_line_boundary(a) && b.len() > 0 ==> (c == '#' <==> b[0] == '#'),
    ensures
        brackets_balanced(normalized(a + seq![c] + b)) == brackets_balanced(normalized(a + b)),
        translation_text(a + seq![c] + b, file, debug) == translation_text(a + b, file, debug),
{
    lemma_outside_character_is_ignored(a, c, b);
}

/// The text of the body grows symbol by symbol, by the text of the
/// translation of each instruction symbol and by nothing else: a newline adds
/// no text.
pub proof fn lemma_body_text_by_symbol(stream: Seq<char>, file: Seq<char>, debug: bool, n: int)
    requires
        0 <= n < stream.len(),
    ensures
        body_text(emitted_prefix(stream, n + 1, debug), file) == body_text(
            emitted_prefix(stream, n, debug),
            file,
        ) + body_text(translation(stream[n], position_of(stream, n), debug), file),
        !is_instruction(stream[n]) ==> body_text(emitted_prefix(stream, n + 1, debug), file)
            == body_text(emitted_prefix(stream, n, debug), file),
{
    lemma_body_text_concat(
        emitted_prefix(stream, n, debug),
        translation(stream[n], position_of(stream, n), debug),
        file,
    );
    if !is_instruction(stream[n]) {
        assert(emitted_prefix(stream, n + 1, debug) == emitted_prefix(stream, n, debug));
    }
}

/// A program that was generated opens as many loops as it closes.
pub proof fn lemma_generated_loops_balance(
    source: Seq<char>,
    file: Seq<char>,
    debug: bool,
    result: Result<String, StructuralError>,
)
    requires
        is_translation(source, file, debug, result),
        result is Ok,
    ensures
        result->Ok_0@ == program_text(emitted(normalized(source), debug), file, debug),
        count_of(emitted(normalized(source), debug), Statement::LoopOpen) == count_of(
            emitted(normalized(source), debug),
            Statement::LoopClose,
        ),
{
    lemma_loops_mirror_brackets(normalized(source), debug);
}

} // verus!

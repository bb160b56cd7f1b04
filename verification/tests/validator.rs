use tape_translator::normalizer::normalize;
use tape_translator::validator::{count_symbol, validate, StructuralError};

#[test]
fn balanced_brackets_pass() {
    assert_eq!(validate(&normalize("[[]][]"), "a.bf"), Ok(()));
}

#[test]
fn no_brackets_pass() {
    assert_eq!(validate(&normalize("+-><.,"), "a.bf"), Ok(()));
    assert_eq!(validate(&normalize(""), "a.bf"), Ok(()));
}

#[test]
fn stray_closing_bracket_fails() {
    assert_eq!(
        validate(&normalize("+]"), "a.bf"),
        Err(StructuralError { file_name: "a.bf".to_string() })
    );
}

#[test]
fn stray_opening_bracket_fails() {
    assert_eq!(
        validate(&normalize("[[]"), "dir.bf"),
        Err(StructuralError { file_name: "dir.bf".to_string() })
    );
}

#[test]
fn only_the_totals_are_compared() {
    assert_eq!(validate(&normalize("]["), "a.bf"), Ok(()));
    assert_eq!(validate(&normalize("]]+[["), "a.bf"), Ok(()));
}

#[test]
fn brackets_on_comment_lines_do_not_count() {
    assert_eq!(validate(&normalize("[\n#]\n"), "a.bf").is_err(), true);
    assert_eq!(validate(&normalize("[\n#[[\n]"), "a.bf"), Ok(()));
}

#[test]
fn counts_each_symbol() {
    let unit = normalize("[[+]\n]..[");
    assert_eq!(count_symbol(&unit, '['), 3);
    assert_eq!(count_symbol(&unit, ']'), 2);
    assert_eq!(count_symbol(&unit, '.'), 2);
    assert_eq!(count_symbol(&unit, '\n'), 1);
    assert_eq!(count_symbol(&unit, ','), 0);
    assert_eq!(count_symbol(&unit, 'x'), 0);
}

#[test]
fn diagnostic_names_the_file_only() {
    let error = StructuralError { file_name: "prog.bf".to_string() };
    assert_eq!(error.message(), "At prog.bf: Mismatched brackets []");
}

//! The structural validator: loop delimiters must balance in number.
use vstd::prelude::*;
use vstd::string::StringExecFns;
use crate::normalizer::SourceUnit;

verus! {

/// Number of occurrences of `symbol` in `stream`.
pub open spec fn count_of<A>(stream: Seq<A>, symbol: A) -> nat
    decreases stream.len(),
{
    if stream.len() == 0 {
        0
    } else if stream.last() == symbol {
        count_of(stream.drop_last(), symbol) + 1
    } else {
        count_of(stream.drop_last(), symbol)
    }
}

/// As many `[` as `]`. Only the two totals are compared: neither order nor
/// nesting is looked at, so `][` is balanced.
pub open spec fn brackets_balanced(stream: Seq<char>) -> bool {
    count_of(stream, '[') == count_of(stream, ']')
}

/// Occurrences in two streams in a row add up.
pub proof fn lemma_count_concat<A>(first: Seq<A>, second: Seq<A>, symbol: A)
    ensures
        count_of(first + second, symbol) == count_of(first, symbol) + count_of(second, symbol),
    decreases second.len(),
{
    if second.len() == 0 {
        assert(first + second == first);
    } else {
        lemma_count_concat(first, second.drop_last(), symbol);
        assert((first + second).drop_last() == first + second.drop_last());
    }
}

/// The loop delimiters of a program do not balance. It names the file and
/// nothing more: no position is known.
#[derive(Debug, PartialEq, Eq)]
pub struct StructuralError {
    pub file_name: String,
}

impl StructuralError {
    /// The text of the diagnostic.
    pub fn message(&self) -> (text: String)
        ensures
            text@ == "At "@ + self.file_name@ + ": Mismatched brackets []"@,
    {
        let mut text = String::from_str("At ");
        text.append(self.file_name.as_str());
        text.append(": Mismatched brackets []");
        text
    }
}

/// Counts the occurrences of `symbol` in the unit.
pub fn count_symbol(unit: &SourceUnit, symbol: char) -> (n: usize)
    ensures
        n == count_of(unit@, symbol),
{
    let symbols = unit.symbols();
    let mut n: usize = 0;
    let mut i: usize = 0;
    while i < symbols.len()
        invariant
            i <= symbols.len(),
            n <= i,
            n == count_of(symbols@.take(i as int), symbol),
        decreases symbols.len() - i,
    {
        proof {
            assert(symbols@.take(i + 1).drop_last() == symbols@.take(i as int));
        }
        if symbols[i] == symbol {
            n = n + 1;
        }
        i = i + 1;
    }
    proof {
        assert(symbols@.take(i as int) == symbols@);
    }
    n
}

/// Accepts the unit exactly when it holds as many `[` as `]`; otherwise the
/// error names `file_name`.
pub fn validate(unit: &SourceUnit, file_name: &str) -> (result: Result<(), StructuralError>)
    ensures
        result is Ok <==> brackets_balanced(unit@),
        result matches Err(error) ==> error.file_name@ == file_name@,
{
    if count_symbol(unit, '[') == count_symbol(unit, ']') {
        Ok(())
    } else {
        Err(StructuralError { file_name: String::from_str(file_name) })
    }
}

} // verus!

//! The source normalizer: drops comment lines whole, then every character
//! outside the alphabet.
use vstd::prelude::*;
use crate::alphabet::{in_alphabet, is_alphabet_char};
use crate::position::{lemma_line_start_bounds, line_start};

verus! {

/// The character at offset `i` stands on a comment line: the first character
/// of its line is `#`.
pub open spec fn in_comment_line(text: Seq<char>, i: int) -> bool {
    text[line_start(text, i)] == '#'
}

/// The character at offset `i` reaches the normalized stream: it belongs to
/// the alphabet and does not stand on a comment line.
pub open spec fn survives(text: Seq<char>, i: int) -> bool {
    in_alphabet(text[i]) && !in_comment_line(text, i)
}

/// What the first `n` characters of `text` leave in the normalized stream.
pub open spec fn normalized_prefix(text: Seq<char>, n: int) -> Seq<char>
    decreases n,
{
    if n <= 0 {
        Seq::empty()
    } else if survives(text, n - 1) {
        normalized_prefix(text, n - 1).push(text[n - 1])
    } else {
        normalized_prefix(text, n - 1)
    }
}

/// The normalized stream of `text`: its surviving characters, in order.
pub open spec fn normalized(text: Seq<char>) -> Seq<char> {
    normalized_prefix(text, text.len() as int)
}

/// A normalized program: instruction symbols and newlines only. The line and
/// column of a symbol are those of its offset in this stream, not in the raw
/// text: see `line_of` and `column_of`.
pub struct SourceUnit {
    symbols: Vec<char>,
}

impl View for SourceUnit {
    type V = Seq<char>;

    closed spec fn view(&self) -> Seq<char> {
        self.symbols@
    }
}

impl SourceUnit {
    #[verifier::type_invariant]
    spec fn well_formed(self) -> bool {
        forall|i: int| 0 <= i < self.symbols@.len() ==> in_alphabet(#[trigger] self.symbols@[i])
    }

    /// The stream as a slice of characters.
    pub fn symbols(&self) -> (symbols: &[char])
        ensures
            symbols@ == self@,
            forall|i: int| 0 <= i < self@.len() ==> in_alphabet(#[trigger] self@[i]),
    {
        proof {
            use_type_invariant(self);
        }
        self.symbols.as_slice()
    }
}

proof fn lemma_normalized_prefix_in_alphabet(text: Seq<char>, n: int)
    ensures
        forall|i: int|
            0 <= i < normalized_prefix(text, n).len() ==> in_alphabet(
                #[trigger] normalized_prefix(text, n)[i],
            ),
    decreases n,
{
    if n > 0 {
        lemma_normalized_prefix_in_alphabet(text, n - 1);
        let shorter = normalized_prefix(text, n - 1);
        assert forall|i: int| 0 <= i < normalized_prefix(text, n).len() implies in_alphabet(
            #[trigger] normalized_prefix(text, n)[i],
        ) by {
            if i < shorter.len() {
                assert(normalized_prefix(text, n)[i] == shorter[i]);
            }
        }
    }
}

/// Every character of a normalized stream belongs to the alphabet.
pub proof fn lemma_normalized_in_alphabet(text: Seq<char>)
    ensures
        forall|i: int|
            0 <= i < normalized(text).len() ==> in_alphabet(#[trigger] normalized(text)[i]),
{
    lemma_normalized_prefix_in_alphabet(text, text.len() as int);
}

/// Normalizes raw text: removes each line that begins with `#`, its newline
/// included, and keeps of the rest the instruction symbols and the newlines.
pub fn normalize(source: &str) -> (unit: SourceUnit)
    ensures
        unit@ == normalized(source@),
        forall|i: int| 0 <= i < unit@.len() ==> in_alphabet(#[trigger] unit@[i]),
{
    broadcast use vstd::string::group_string_axioms;

    let mut symbols: Vec<char> = Vec::new();
    let mut at_line_start = true;
    let mut in_comment = false;
    for c in it: source.chars()
        invariant
            it.seq() == source@,
            symbols@ == normalized_prefix(source@, it.index() as int),
            at_line_start == (line_start(source@, it.index() as int) == it.index()),
            !at_line_start ==> in_comment == in_comment_line(source@, it.index() as int),
    {
        proof {
            lemma_line_start_bounds(source@, it.index() as int);
        }
        if at_line_start {
            in_comment = c == '#';
        }
        if !in_comment && is_alphabet_char(c) {
            symbols.push(c);
        }
        at_line_start = c == '\n';
    }
    proof {
        lemma_normalized_in_alphabet(source@);
        assert(symbols@ == normalized(source@));
    }
    SourceUnit { symbols }
}

/// `text` ends where a line ends: it is empty, or its last character is a newline.
pub open spec fn ends_at_line_boundary(text: Seq<char>) -> bool {
    text.len() == 0 || text.last() == '\n'
}

/// `line` is at most one line: no newline stands in it but, possibly, as its
/// last character.
pub open spec fn is_single_line(line: Seq<char>) -> bool {
    forall|j: int| 0 <= j < line.len() - 1 ==> line[j] != '\n'
}

/// The characters of `text` that belong to the alphabet, in order.
pub open spec fn alphabet_only(text: Seq<char>) -> Seq<char> {
    text.filter(|c: char| in_alphabet(c))
}

/// Where a line begins depends only on the characters before the offset.
proof fn lemma_line_start_local(s: Seq<char>, t: Seq<char>, i: int)
    requires
        0 <= i <= s.len(),
        i <= t.len(),
        forall|j: int| 0 <= j < i ==> s[j] == t[j],
    ensures
        line_start(s, i) == line_start(t, i),
    decreases i,
{
    if i > 0 && s[i - 1] != '\n' {
        lemma_line_start_local(s, t, i - 1);
    }
}

/// What a prefix leaves in the stream depends only on that prefix.
proof fn lemma_normalized_prefix_local(s: Seq<char>, t: Seq<char>, n: int)
    requires
        0 <= n <= s.len(),
        n <= t.len(),
        forall|j: int| 0 <= j < n ==> s[j] == t[j],
    ensures
        normalized_prefix(s, n) == normalized_prefix(t, n),
    decreases n,
{
    if n > 0 {
        lemma_normalized_prefix_local(s, t, n - 1);
        lemma_line_start_local(s, t, n - 1);
        lemma_line_start_bounds(s, n - 1);
    }
}

/// Behind a line boundary, lines begin where they would begin if the text
/// started there.
proof fn lemma_line_start_behind_boundary(a: Seq<char>, b: Seq<char>, i: int)
    requires
        ends_at_line_boundary(a),
        0 <= i <= b.len(),
    ensures
        line_start(a + b, a.len() + i) == a.len() + line_start(b, i),
    decreases i,
{
    if i > 0 {
        assert((a + b)[a.len() + i - 1] == b[i - 1]);
        if b[i - 1] != '\n' {
            lemma_line_start_behind_boundary(a, b, i - 1);
        }
    } else if a.len() > 0 {
        assert((a + b)[a.len() - 1] == a.last());
    }
}

proof fn lemma_normalized_prefix_behind_boundary(a: Seq<char>, b: Seq<char>, n: int)
    requires
        ends_at_line_boundary(a),
        0 <= n <= b.len(),
    ensures
        normalized_prefix(a + b, a.len() + n) == normalized(a) + normalized_prefix(b, n),
    decreases n,
{
    if n > 0 {
        lemma_normalized_prefix_behind_boundary(a, b, n - 1);
        lemma_line_start_behind_boundary(a, b, n - 1);
        lemma_line_start_bounds(b, n - 1);
        let at = a.len() + n - 1;
        assert((a + b)[at] == b[n - 1]);
        assert((a + b)[a.len() + line_start(b, n - 1)] == b[line_start(b, n - 1)]);
        assert(survives(a + b, at) == survives(b, n - 1));
        assert(normalized_prefix(a + b, a.len() + n) =~= normalized(a) + normalized_prefix(b, n));
    } else {
        lemma_normalized_prefix_local(a + b, a, a.len() as int);
        assert(normalized(a) + normalized_prefix(b, 0) =~= normalized(a));
    }
}

/// Text that is cut at a line boundary is normalized piece by piece.
pub proof fn lemma_normalized_concat(a: Seq<char>, b: Seq<char>)
    requires
        ends_at_line_boundary(a),
    ensures
        normalized(a + b) == normalized(a) + normalized(b),
{
    lemma_normalized_prefix_behind_boundary(a, b, b.len() as int);
}

proof fn lemma_single_line_start(line: Seq<char>, i: int)
    requires
        is_single_line(line),
        0 <= i < line.len(),
    ensures
        line_start(line, i) == 0,
    decreases i,
{
    if i > 0 {
        lemma_single_line_start(line, i - 1);
    }
}

proof fn lemma_single_line_prefix(line: Seq<char>, n: int)
    requires
        is_single_line(line),
        0 <= n <= line.len(),
    ensures
        normalized_prefix(line, n) == if line.len() > 0 && line[0] == '#' {
            Seq::empty()
        } else {
            alphabet_only(line.take(n))
        },
    decreases n,
{
    reveal(Seq::filter);
    if n > 0 {
        lemma_single_line_prefix(line, n - 1);
        lemma_single_line_start(line, n - 1);
        assert(line.take(n).drop_last() == line.take(n - 1));
    } else {
        assert(line.take(0).len() == 0);
    }
}

/// Of a single line nothing is left if it begins with `#`, and otherwise
/// exactly its characters of the alphabet.
pub proof fn lemma_normalized_single_line(line: Seq<char>)
    requires
        is_single_line(line),
    ensures
        normalized(line) == if line.len() > 0 && line[0] == '#' {
            Seq::empty()
        } else {
            alphabet_only(line)
        },
{
    lemma_single_line_prefix(line, line.len() as int);
    assert(line.take(line.len() as int) == line);
}

/// Comment lines are removed line by line. Whatever stands before and behind
/// a complete line, the line is either dropped whole, when it begins with
/// `#`, or kept whole but for its characters outside the alphabet; and what
/// stands before and behind it is normalized as if the line were not there.
pub proof fn lemma_line_granular(before: Seq<char>, line: Seq<char>, after: Seq<char>)
    requires
        ends_at_line_boundary(before),
        is_single_line(line),
        ends_at_line_boundary(line) || after.len() == 0,
    ensures
        normalized(before + line + after) == normalized(before) + (if line.len() > 0 && line[0]
            == '#' {
            Seq::empty()
        } else {
            alphabet_only(line)
        }) + normalized(after),
{
    lemma_normalized_single_line(line);
    lemma_normalized_concat(before, line);
    if after.len() == 0 {
        assert(before + line + after == before + line);
        assert(normalized(before + line) + normalized(after) == normalized(before + line));
    } else {
        if line.len() > 0 {
            assert((before + line).last() == line.last());
        } else {
            assert(before + line == before);
        }
        lemma_normalized_concat(before + line, after);
    }
}

proof fn lemma_alphabet_prefix_is_kept(stream: Seq<char>, n: int)
    requires
        forall|i: int| 0 <= i < stream.len() ==> in_alphabet(#[trigger] stream[i]),
        0 <= n <= stream.len(),
    ensures
        normalized_prefix(stream, n) == stream.take(n),
    decreases n,
{
    if n > 0 {
        lemma_alphabet_prefix_is_kept(stream, n - 1);
        lemma_line_start_bounds(stream, n - 1);
        assert(in_alphabet(stream[line_start(stream, n - 1)]));
        assert(in_alphabet(stream[n - 1]));
        assert(stream.take(n) == stream.take(n - 1).push(stream[n - 1]));
    } else {
        assert(stream.take(0) == Seq::<char>::empty());
    }
}

/// Normalizing a normalized stream changes nothing.
pub proof fn lemma_normalized_idempotent(text: Seq<char>)
    ensures
        normalized(normalized(text)) == normalized(text),
{
    let stream = normalized(text);
    lemma_normalized_in_alphabet(text);
    lemma_alphabet_prefix_is_kept(stream, stream.len() as int);
    assert(stream.take(stream.len() as int) == stream);
}

proof fn lemma_line_start_behind_insertion(a: Seq<char>, c: char, b: Seq<char>, i: int)
    requires
        c != '\n',
        0 <= i <= b.len(),
    ensures
        line_start(a + seq![c] + b, a.len() + 1 + i) == if line_start(a + b, a.len() + i)
            > a.len() {
            line_start(a + b, a.len() + i) + 1
        } else {
            line_start(a + b, a.len() + i)
        },
    decreases i,
{
    let with = a + seq![c] + b;
    let without = a + b;
    if i > 0 {
        assert(with[a.len() + i] == b[i - 1]);
        assert(without[a.len() + i - 1] == b[i - 1]);
        if b[i - 1] != '\n' {
            lemma_line_start_behind_insertion(a, c, b, i - 1);
        }
    } else {
        assert(with[a.len() as int] == c);
        lemma_line_start_local(with, without, a.len() as int);
        lemma_line_start_bounds(without, a.len() as int);
    }
}

proof fn lemma_normalized_prefix_behind_insertion(a: Seq<char>, c: char, b: Seq<char>, n: int)
    requires
        !in_alphabet(c),
        ends_at_line_boundary(a) && b.len() > 0 ==> (c == '#' <==> b[0] == '#'),
        0 <= n <= b.len(),
    ensures
        normalized_prefix(a + seq![c] + b, a.len() + 1 + n) == normalized_prefix(
            a + b,
            a.len() + n,
        ),
    decreases n,
{
    let with = a + seq![c] + b;
    let without = a + b;
    if n > 0 {
        lemma_normalized_prefix_behind_insertion(a, c, b, n - 1);
        lemma_line_start_behind_insertion(a, c, b, n - 1);
        let at = a.len() + n - 1;
        let begin = line_start(without, at);
        lemma_line_start_bounds(without, at);
        assert(with[at + 1] == b[n - 1]);
        assert(without[at] == b[n - 1]);
        if begin > a.len() {
            assert(with[begin + 1] == b[begin - a.len()]);
            assert(without[begin] == b[begin - a.len()]);
        } else if begin < a.len() {
            assert(with[begin] == a[begin]);
            assert(without[begin] == a[begin]);
        } else {
            assert(with[begin] == c);
            assert(without[begin] == b[0]);
            if a.len() > 0 {
                assert(without[begin - 1] == a.last());
            }
        }
        assert(survives(with, at + 1) == survives(without, at));
    } else {
        assert(with[a.len() as int] == c);
        lemma_normalized_prefix_local(with, without, a.len() as int);
    }
}

/// A character outside the alphabet has no influence on the normalized
/// stream: with it or without it the stream is the same. The one thing such a
/// character can do is to decide whether its line is a comment, so the law
/// leaves out the insertion, at the start of a line, of a character that
/// turns the line into a comment or a comment into a line.
pub proof fn lemma_outside_character_is_ignored(a: Seq<char>, c: char, b: Seq<char>)
    requires
        !in_alphabet(c),
        ends_at_line_boundary(a) && b.len() > 0 ==> (c == '#' <==> b[0] == '#'),
    ensures
        normalized(a + seq![c] + b) == normalized(a + b),
{
    lemma_normalized_prefix_behind_insertion(a, c, b, b.len() as int);
}

} // verus!

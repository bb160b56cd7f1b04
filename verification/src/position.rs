//! Lines and columns in a stream of characters, and the tracker that follows
//! them one character at a time.
use vstd::prelude::*;

verus! {

/// Offset at which the line holding offset `i` begins: the offset just behind
/// the nearest newline before `i`, or 0 where there is none.
pub open spec fn line_start(stream: Seq<char>, i: int) -> int
    decreases i,
{
    if i <= 0 {
        0
    } else if stream[i - 1] == '\n' {
        i
    } else {
        line_start(stream, i - 1)
    }
}

/// Number of newlines among the first `i` characters of the stream.
pub open spec fn newlines_before(stream: Seq<char>, i: int) -> int
    decreases i,
{
    if i <= 0 {
        0
    } else if stream[i - 1] == '\n' {
        newlines_before(stream, i - 1) + 1
    } else {
        newlines_before(stream, i - 1)
    }
}

/// 1-based line of the character at offset `i`.
pub open spec fn line_of(stream: Seq<char>, i: int) -> int {
    newlines_before(stream, i) + 1
}

/// 1-based column of the character at offset `i`.
pub open spec fn column_of(stream: Seq<char>, i: int) -> int {
    i - line_start(stream, i) + 1
}

/// A line begins at or before each of its offsets, at the start of the stream
/// or just behind a newline.
pub proof fn lemma_line_start_bounds(stream: Seq<char>, i: int)
    requires
        0 <= i,
    ensures
        0 <= line_start(stream, i) <= i,
        line_start(stream, i) == 0 || stream[line_start(stream, i) - 1] == '\n',
    decreases i,
{
    if i > 0 && stream[i - 1] != '\n' {
        lemma_line_start_bounds(stream, i - 1);
    }
}

/// No more newlines lie before an offset than characters do.
pub proof fn lemma_newlines_bounds(stream: Seq<char>, i: int)
    requires
        0 <= i,
    ensures
        0 <= newlines_before(stream, i) <= i,
    decreases i,
{
    if i > 0 {
        lemma_newlines_bounds(stream, i - 1);
    }
}

/// Lines and columns start at 1, and neither exceeds the offset by more than 1.
pub proof fn lemma_position_bounds(stream: Seq<char>, i: int)
    requires
        0 <= i,
    ensures
        1 <= line_of(stream, i) <= i + 1,
        1 <= column_of(stream, i) <= i + 1,
{
    lemma_line_start_bounds(stream, i);
    lemma_newlines_bounds(stream, i);
}

/// A 1-based line and column.
#[derive(Clone, Copy, PartialEq, Eq, Debug)]
pub struct Position {
    pub line: usize,
    pub column: usize,
}

/// What a tracker knows after some characters: how many it has taken, where
/// the current line began, and how many newlines were among them.
pub struct TrackerState {
    pub offset: int,
    pub line_start: int,
    pub newlines: int,
}

impl TrackerState {
    /// The state before any character.
    pub open spec fn start() -> TrackerState {
        TrackerState { offset: 0, line_start: 0, newlines: 0 }
    }

    /// The state that a full scan of the first `i` characters of `stream` gives.
    pub open spec fn at(stream: Seq<char>, i: int) -> TrackerState {
        TrackerState {
            offset: i,
            line_start: line_start(stream, i),
            newlines: newlines_before(stream, i),
        }
    }

    /// The line began at or before the offset, and no more newlines were
    /// taken than characters.
    pub open spec fn valid(self) -> bool {
        0 <= self.line_start <= self.offset && 0 <= self.newlines <= self.offset
    }

    /// Line of the character that comes next.
    pub open spec fn line(self) -> int {
        self.newlines + 1
    }

    /// Column of the character that comes next.
    pub open spec fn column(self) -> int {
        self.offset - self.line_start + 1
    }

    /// The state after taking `c`.
    pub open spec fn after(self, c: char) -> TrackerState {
        if c == '\n' {
            TrackerState {
                offset: self.offset + 1,
                line_start: self.offset + 1,
                newlines: self.newlines + 1,
            }
        } else {
            TrackerState { offset: self.offset + 1, ..self }
        }
    }
}

/// Follows a stream one character at a time and knows, at each offset, the
/// line and column of the character that comes next.
pub struct PositionTracker {
    offset: usize,
    line_start: usize,
    newlines: usize,
}

impl View for PositionTracker {
    type V = TrackerState;

    closed spec fn view(&self) -> TrackerState {
        TrackerState {
            offset: self.offset as int,
            line_start: self.line_start as int,
            newlines: self.newlines as int,
        }
    }
}

impl PositionTracker {
    #[verifier::type_invariant]
    spec fn well_formed(self) -> bool {
        self.line_start <= self.offset && self.newlines <= self.offset
    }

    /// A tracker at the start of a stream.
    pub fn new() -> (tracker: Self)
        ensures
            tracker@ == TrackerState::start(),
            tracker@.valid(),
    {
        PositionTracker { offset: 0, line_start: 0, newlines: 0 }
    }

    /// Number of characters taken so far.
    pub fn offset(&self) -> (n: usize)
        ensures
            n == self@.offset,
            self@.valid(),
    {
        proof {
            use_type_invariant(self);
        }
        self.offset
    }

    /// Takes the next character and reports where it stands. A newline moves
    /// the tracker to the start of the next line.
    pub fn advance(&mut self, c: char) -> (at: Position)
        requires
            old(self)@.offset < usize::MAX,
        ensures
            at.line == old(self)@.line(),
            at.column == old(self)@.column(),
            final(self)@ == old(self)@.after(c),
            final(self)@.valid(),
            at.line >= 1,
            at.column >= 1,
    {
        proof {
            use_type_invariant(&*self);
        }
        let at = Position { line: self.newlines + 1, column: self.offset - self.line_start + 1 };
        self.offset = self.offset + 1;
        if c == '\n' {
            self.newlines = self.newlines + 1;
            self.line_start = self.offset;
        }
        at
    }
}

/// Stepping over the character at offset `i` leads from the state of a full
/// scan up to `i` to the state of a full scan up to `i + 1`, and the line and
/// column known before the step are those of that character.
pub proof fn lemma_step_follows_stream(stream: Seq<char>, i: int)
    requires
        0 <= i < stream.len(),
    ensures
        TrackerState::start() == TrackerState::at(stream, 0),
        TrackerState::at(stream, i).valid(),
        TrackerState::at(stream, i).after(stream[i]) == TrackerState::at(stream, i + 1),
        TrackerState::at(stream, i).line() == line_of(stream, i),
        TrackerState::at(stream, i).column() == column_of(stream, i),
{
    lemma_line_start_bounds(stream, i);
    lemma_newlines_bounds(stream, i);
}

} // verus!

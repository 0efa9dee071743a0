//! The line log: what one operation's outcome reads as, and the append-only
//! buffer that keeps the lines in the order in which they were appended.

use vstd::prelude::*;
use vstd::string::*;
use crate::decimal::{append_decimal, decimal_text};

verus! {

/// The line that records a push of `v`.
pub open spec fn pushing_text(v: int) -> Seq<char> {
    "Pushing "@ + decimal_text(v)
}

/// The line that records a pop that returned `v`.
pub open spec fn popped_text(v: int) -> Seq<char> {
    "Popped "@ + decimal_text(v)
}

/// The line that records a pop that found the stack empty.
pub open spec fn empty_text() -> Seq<char> {
    "Stack was empty, nothing to pop"@
}

/// The outcome of one stack operation, as the log records it.
#[derive(Clone, Copy, Debug, PartialEq, Eq)]
pub enum Event {
    /// The value is being pushed.
    Pushing(i32),
    /// A pop returned the value.
    Popped(i32),
    /// A pop found nothing on the stack.
    Empty,
}

impl Event {
    /// The text of the log line for this outcome, without the line break.
    pub open spec fn text(self) -> Seq<char> {
        match self {
            Event::Pushing(v) => pushing_text(v as int),
            Event::Popped(v) => popped_text(v as int),
            Event::Empty => empty_text(),
        }
    }

    /// Writes the log line for this outcome.
    pub fn line(&self) -> (line: String)
        ensures
            line@ == self.text(),
    {
        let mut line = String::new();
        match *self {
            Event::Pushing(v) => {
                line.append("Pushing ");
                append_decimal(&mut line, v);
                assert(line@ =~= pushing_text(v as int));
            },
            Event::Popped(v) => {
                line.append("Popped ");
                append_decimal(&mut line, v);
                assert(line@ =~= popped_text(v as int));
            },
            Event::Empty => {
                line.append("Stack was empty, nothing to pop");
                assert(line@ =~= empty_text());
            },
        }
        line
    }
}

/// An append-only buffer of log lines. Lines are never changed, dropped or
/// reordered once appended; the owner writes them out when the work is done.
pub struct Logger {
    lines: Vec<String>,
}

impl View for Logger {
    type V = Seq<Seq<char>>;

    /// The text of each line, oldest first.
    closed spec fn view(&self) -> Seq<Seq<char>> {
        Seq::new(self.lines@.len(), |i: int| self.lines@[i]@)
    }
}

impl Logger {
    /// A log without lines.
    pub fn new() -> (logger: Self)
        ensures
            logger@ == Seq::<Seq<char>>::empty(),
    {
        let logger = Logger { lines: Vec::new() };
        assert(logger@ =~= Seq::<Seq<char>>::empty());
        logger
    }

    /// Appends one line after all the lines already there.
    pub fn append(&mut self, line: String)
        ensures
            final(self)@ == old(self)@.push(line@),
    {
        self.lines.push(line);
        assert(self@ =~= old(self)@.push(line@));
    }

    /// Appends the line for one operation's outcome.
    pub fn log(&mut self, event: Event)
        ensures
            final(self)@ == old(self)@.push(event.text()),
    {
        let line = event.line();
        self.append(line);
    }

    /// The lines appended so far, oldest first.
    pub fn lines(&self) -> (lines: &Vec<String>)
        ensures
            lines@.len() == self@.len(),
            forall|i: int| 0 <= i < lines@.len() ==> (#[trigger] lines@[i])@ == self@[i],
    {
        &self.lines
    }
}

} // verus!

//! Reading a command's output line by line.
//!
//! The lines of one invocation are read lazily: nothing is requested
//! before the first line is asked for, and a consumer that has found what
//! it looked for simply stops asking. Reading is the caller's business;
//! what is decided here is what each outcome of the transport means for
//! the consumer.

use vstd::prelude::*;

verus! {

/// Where the reading of one invocation stands.
#[derive(Clone, Copy, Debug, PartialEq, Eq, Structural)]
pub enum LinesIter {
    /// Nothing was asked for yet; the command may not even have started.
    Begin,
    /// The channel is open and lines are read from it.
    Read,
    /// The command could not be started. There is nothing to read.
    Eof,
}

/// What the transport did when it was asked for the next thing.
#[derive(Debug)]
pub enum Event {
    /// The command started and its channel is open.
    Opened,
    /// The command could not be started.
    OpenFailed,
    /// One more line arrived.
    Line(String),
    /// Reading failed.
    ReadFailed,
    /// The output is at its end.
    Finished,
}

/// Why no line could be handed out.
#[derive(Clone, Copy, Debug, PartialEq, Eq, Structural)]
pub enum LinesError {
    /// The command could not be started.
    Open,
    /// Reading its output failed.
    Read,
}

/// What the consumer gets, or what the caller has to do first.
#[derive(Debug)]
pub enum Step {
    /// Read a line from the channel and report what came of it.
    ReadLine,
    /// Hand this line to the consumer.
    Item(String),
    /// Hand this failure to the consumer.
    Failed(LinesError),
    /// Tell the consumer that there are no more lines.
    End,
}

/// A `Step` as plain values.
pub enum StepView {
    ReadLine,
    Item(Seq<char>),
    Failed(LinesError),
    End,
}

impl View for Step {
    type V = StepView;

    open spec fn view(&self) -> StepView {
        match self {
            Step::ReadLine => StepView::ReadLine,
            Step::Item(line) => StepView::Item(line@),
            Step::Failed(error) => StepView::Failed(*error),
            Step::End => StepView::End,
        }
    }
}

/// The state after an event, and the step that follows from it.
///
/// A command that did not start yields its failure once and nothing after
/// it. An open channel yields what reading gives, whatever it is, for as
/// long as it is asked. An event that the state does not expect is passed
/// over: the state stays where it is, and it is the end for a command that
/// never started, and one more attempt to read otherwise.
pub open spec fn next(state: LinesIter, event: Event) -> (LinesIter, StepView) {
    match (state, event) {
        (LinesIter::Begin, Event::Opened) => (LinesIter::Read, StepView::ReadLine),
        (LinesIter::Begin, Event::OpenFailed) => (
            LinesIter::Eof,
            StepView::Failed(LinesError::Open),
        ),
        (LinesIter::Read, Event::Line(line)) => (LinesIter::Read, StepView::Item(line@)),
        (LinesIter::Read, Event::ReadFailed) => (
            LinesIter::Read,
            StepView::Failed(LinesError::Read),
        ),
        (LinesIter::Read, Event::Finished) => (LinesIter::Read, StepView::End),
        (LinesIter::Eof, _) => (LinesIter::Eof, StepView::End),
        (LinesIter::Begin, _) => (LinesIter::Begin, StepView::ReadLine),
        (LinesIter::Read, _) => (LinesIter::Read, StepView::ReadLine),
    }
}

impl LinesIter {
    /// The state in which every invocation starts.
    pub fn new() -> (state: Self)
        ensures
            state == LinesIter::Begin,
    {
        LinesIter::Begin
    }

    /// Whether the transport has to be asked before the consumer can be
    /// answered: not once the command failed to start.
    pub fn needs_event(&self) -> (r: bool)
        ensures
            r == (*self != LinesIter::Eof),
    {
        match self {
            LinesIter::Eof => false,
            _ => true,
        }
    }

    /// Takes in what the transport did and says what follows.
    pub fn advance(&mut self, event: Event) -> (step: Step)
        ensures
            (*final(self), step@) == next(*old(self), event),
    {
        match (*self, event) {
            (LinesIter::Begin, Event::Opened) => {
                *self = LinesIter::Read;
                Step::ReadLine
            },
            (LinesIter::Begin, Event::OpenFailed) => {
                *self = LinesIter::Eof;
                Step::Failed(LinesError::Open)
            },
            (LinesIter::Read, Event::Line(line)) => Step::Item(line),
            (LinesIter::Read, Event::ReadFailed) => Step::Failed(LinesError::Read),
            (LinesIter::Read, Event::Finished) => Step::End,
            (LinesIter::Eof, _) => Step::End,
            (LinesIter::Begin, _) => Step::ReadLine,
            (LinesIter::Read, _) => Step::ReadLine,
        }
    }
}

/// The first line of an output, or the empty line for an output without
/// lines.
pub fn first_line(lines: &Vec<String>) -> (line: &str)
    ensures
        line@ == if lines@.len() > 0 {
            lines@[0]@
        } else {
            Seq::<char>::empty()
        },
{
    if lines.len() > 0 {
        lines[0].as_str()
    } else {
        let empty: &'static str = "";
        proof {
            reveal_strlit("");
        }
        assert(empty@ =~= Seq::<char>::empty());
        empty
    }
}

} // verus!

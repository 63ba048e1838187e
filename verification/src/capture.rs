//! One entry typed behind the mask: the characters up to the line feed.
//!
//! A capture reads nothing and draws nothing. Its owner hands it each event of
//! the terminal and shows what comes back. What was typed is never handed out
//! before the entry is complete, and then only trimmed.

use vstd::prelude::*;
use crate::mask::{gen_pwmask, is_mask};
use crate::text::{trim, trimmed};

verus! {

/// What the terminal reports.
#[derive(Clone, Copy, Debug, PartialEq, Eq, Structural)]
pub enum Event {
    /// A character was typed. The line feed ends an entry.
    Character(char),
    /// Some other input arrived: a function key, a resize.
    Other,
    /// No event is available yet.
    Idle,
    /// Reading failed for good.
    ReadFailure,
}

/// The characters typed so far in one entry.
pub struct Capture {
    typed: Vec<char>,
}

impl View for Capture {
    type V = Seq<char>;

    closed spec fn view(&self) -> Seq<char> {
        self.typed@
    }
}

/// What an event means for the entry.
#[derive(Debug, PartialEq, Eq)]
pub enum Progress {
    /// A character joined the entry: print this mask in its place.
    Echo(String),
    /// Nothing happened: read the next event.
    ReadOn,
    /// The entry is complete: this is its text, trimmed.
    Done(String),
    /// The terminal could not be read: the entry is lost.
    Failed,
}

/// A `Progress` without the glyphs of its mask.
pub enum Turn {
    Echo,
    ReadOn,
    Done(Seq<char>),
    Failed,
}

/// The entry after `event`, and what the event means for it.
///
/// A character other than the line feed joins the entry. The line feed
/// completes it: the text is what was typed, without the white space at either
/// end. A failed read loses it. Either way nothing that was typed is kept. Any
/// other event changes nothing.
pub open spec fn turn(typed: Seq<char>, event: Event) -> (Seq<char>, Turn) {
    match event {
        Event::Character(c) => if c == '\n' {
            (Seq::empty(), Turn::Done(trimmed(typed)))
        } else {
            (typed.push(c), Turn::Echo)
        },
        Event::Other | Event::Idle => (typed, Turn::ReadOn),
        Event::ReadFailure => (Seq::empty(), Turn::Failed),
    }
}

/// `true` where `progress` is the turn `expected`, and what is echoed is a mask.
pub open spec fn shows(progress: Progress, expected: Turn) -> bool {
    match progress {
        Progress::Echo(mask) => expected == Turn::Echo && is_mask(mask@),
        Progress::ReadOn => expected == Turn::ReadOn,
        Progress::Done(text) => expected == Turn::Done(text@),
        Progress::Failed => expected == Turn::Failed,
    }
}

impl Capture {
    /// An entry of which nothing is typed yet.
    pub fn new() -> (capture: Capture)
        ensures
            capture@ == Seq::<char>::empty(),
    {
        Capture { typed: Vec::new() }
    }

    /// Takes the next event of the terminal.
    pub fn feed(&mut self, event: Event) -> (progress: Progress)
        ensures
            final(self)@ == turn(old(self)@, event).0,
            shows(progress, turn(old(self)@, event).1),
    {
        match event {
            Event::Character(c) => {
                if c == '\n' {
                    let text = trim(&self.typed);
                    self.typed = Vec::new();
                    Progress::Done(text)
                } else {
                    self.typed.push(c);
                    Progress::Echo(gen_pwmask())
                }
            },
            Event::Other | Event::Idle => Progress::ReadOn,
            Event::ReadFailure => {
                self.typed = Vec::new();
                Progress::Failed
            },
        }
    }
}

/// The event of typing `c`.
pub open spec fn keystroke(c: char) -> Event {
    Event::Character(c)
}

/// The events of typing the characters of `line`.
pub open spec fn keystrokes(line: Seq<char>) -> Seq<Event> {
    Seq::new(line.len(), |i: int| keystroke(line[i]))
}

/// The events of typing `line` and then the line feed.
pub open spec fn typing(line: Seq<char>) -> Seq<Event> {
    keystrokes(line).push(Event::Character('\n'))
}

/// `true` where `line` can be typed as one entry.
pub open spec fn one_line(line: Seq<char>) -> bool {
    forall|i: int| 0 <= i < line.len() ==> line[i] != '\n'
}

/// The entry after all of `events`.
pub open spec fn typed_after(typed: Seq<char>, events: Seq<Event>) -> Seq<char>
    decreases events.len(),
{
    if events.len() == 0 {
        typed
    } else {
        typed_after(turn(typed, events.first()).0, events.drop_first())
    }
}

/// Typing a line lengthens the entry by it, and the line feed then completes
/// the entry with the trimmed text of all that was typed.
pub proof fn lemma_typing_completes(typed: Seq<char>, line: Seq<char>)
    requires
        one_line(line),
    ensures
        typed_after(typed, keystrokes(line)) == typed + line,
        turn(typed_after(typed, keystrokes(line)), Event::Character('\n')) == (
            Seq::<char>::empty(),
            Turn::Done(trimmed(typed + line)),
        ),
    decreases line.len(),
{
    if line.len() == 0 {
        assert(typed + line =~= typed);
    } else {
        let tail = line.drop_first();
        assert(keystrokes(line).first() == Event::Character(line.first()));
        assert(keystrokes(line).drop_first() =~= keystrokes(tail));
        lemma_typing_completes(typed.push(line.first()), tail);
        assert(typed.push(line.first()) + tail =~= typed + line);
    }
}

} // verus!

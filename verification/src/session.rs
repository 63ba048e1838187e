//! The dialogue with the user: what to do next, given what has been typed so far.
//!
//! The session reads nothing and draws nothing. Its owner hands it each event
//! of the terminal and carries out the action that comes back.

use vstd::prelude::*;
use crate::capture::{keystrokes, one_line, turn, typing, Capture, Event, Progress, Turn};
use crate::config::{Mkpw, Settings};
use crate::deriver::derived_password;
use crate::mask::is_mask;
use crate::text::trimmed;

verus! {

/// What the user is asked for.
#[derive(Clone, Copy, Debug, PartialEq, Eq, Structural)]
pub enum Prompt {
    Passphrase,
    Confirmation,
}

/// Why a session ends without a password.
#[derive(Clone, Copy, Debug, PartialEq, Eq, Structural)]
pub enum Failure {
    /// The passphrase and its confirmation differ.
    ConfirmationMismatch,
    /// The terminal could not be read.
    TerminalReadError,
}

/// How far the dialogue has come.
#[derive(Clone, Copy, Debug, PartialEq, Eq, Structural)]
pub enum Stage {
    /// The passphrase is being typed.
    Entering,
    /// The passphrase is being typed a second time.
    Confirming,
    /// The dialogue is over.
    Closed,
}

/// What the owner of the session is to do with the display.
#[derive(Debug, PartialEq, Eq)]
pub enum Action {
    /// Clear the display, show the prompt centred, and place the input cursor.
    Ask(Prompt),
    /// Print the mask at the cursor, then move the cursor back to where the mask begins.
    Echo(String),
    /// Nothing to draw: read the next event.
    ReadOn,
    /// Clear the display and show the password. The session is over.
    Reveal(String),
    /// Clear the display and report the failure. The session is over.
    Fail(Failure),
}

/// An `Action` without the glyphs of its mask.
pub enum Reaction {
    Ask(Prompt),
    Echo,
    ReadOn,
    Reveal(Seq<char>),
    Fail(Failure),
}

/// The state of a dialogue.
pub struct Session {
    stage: Stage,
    capture: Capture,
    accepted: String,
}

/// What a `Session` holds: the stage, the characters typed in the current entry,
/// and, while the confirmation is typed, the passphrase that was entered first.
pub struct SessionView {
    pub stage: Stage,
    pub typed: Seq<char>,
    pub accepted: Seq<char>,
}

impl View for Session {
    type V = SessionView;

    closed spec fn view(&self) -> SessionView {
        SessionView { stage: self.stage, typed: self.capture@, accepted: self.accepted@ }
    }
}

/// The state in which a dialogue begins.
pub open spec fn opening() -> SessionView {
    SessionView { stage: Stage::Entering, typed: Seq::empty(), accepted: Seq::empty() }
}

/// The state in which a dialogue ends. Nothing that was typed is kept.
pub open spec fn closed() -> SessionView {
    SessionView { stage: Stage::Closed, typed: Seq::empty(), accepted: Seq::empty() }
}

/// The state after `event`, and what to do about it.
///
/// The event goes to the entry that is being typed. Once the entry is
/// complete, the first entry is kept for comparison where a confirmation is
/// asked for; otherwise the entry is the passphrase, unless it is a
/// confirmation that differs from the first. A failed read ends the dialogue,
/// and nothing moves a dialogue that is over.
pub open spec fn react(settings: Settings, s: SessionView, event: Event) -> (SessionView, Reaction) {
    if s.stage == Stage::Closed {
        (s, Reaction::ReadOn)
    } else {
        let (typed, what) = turn(s.typed, event);
        match what {
            Turn::Echo => (SessionView { typed, ..s }, Reaction::Echo),
            Turn::ReadOn => (SessionView { typed, ..s }, Reaction::ReadOn),
            Turn::Failed => (closed(), Reaction::Fail(Failure::TerminalReadError)),
            Turn::Done(entry) => if s.stage == Stage::Entering && settings.confirmation {
                (
                    SessionView { stage: Stage::Confirming, typed, accepted: entry },
                    Reaction::Ask(Prompt::Confirmation),
                )
            } else if s.stage == Stage::Confirming && entry != s.accepted {
                (closed(), Reaction::Fail(Failure::ConfirmationMismatch))
            } else {
                (
                    closed(),
                    Reaction::Reveal(
                        derived_password(settings.domain, entry, settings.urlsafe, settings.pwlen),
                    ),
                )
            },
        }
    }
}

/// `true` where `action` carries out `reaction`: the two are the same, and
/// what is echoed is a mask.
pub open spec fn carries_out(action: Action, reaction: Reaction) -> bool {
    match action {
        Action::Ask(prompt) => reaction == Reaction::Ask(prompt),
        Action::Echo(mask) => reaction == Reaction::Echo && is_mask(mask@),
        Action::ReadOn => reaction == Reaction::ReadOn,
        Action::Reveal(password) => reaction == Reaction::Reveal(password@),
        Action::Fail(failure) => reaction == Reaction::Fail(failure),
    }
}

impl Prompt {
    /// The prompt's text.
    pub open spec fn words(self) -> Seq<char> {
        match self {
            Prompt::Passphrase => "Enter passphrase:"@,
            Prompt::Confirmation => "Confirm passphrase:"@,
        }
    }

    /// The prompt's text.
    pub fn text(&self) -> (words: &'static str)
        ensures
            words@ == self.words(),
    {
        match self {
            Prompt::Passphrase => "Enter passphrase:",
            Prompt::Confirmation => "Confirm passphrase:",
        }
    }
}

impl Failure {
    /// The failure in words, for the user.
    pub open spec fn words(self) -> Seq<char> {
        match self {
            Failure::ConfirmationMismatch => "Passphrase and confirmation do not match!"@,
            Failure::TerminalReadError => "Error reading from terminal!"@,
        }
    }

    /// The failure in words, for the user.
    pub fn message(&self) -> (words: &'static str)
        ensures
            words@ == self.words(),
    {
        match self {
            Failure::ConfirmationMismatch => "Passphrase and confirmation do not match!",
            Failure::TerminalReadError => "Error reading from terminal!",
        }
    }
}

/// The line that shows the password for a domain.
pub open spec fn announcement_of(domain: Seq<char>, password: Seq<char>) -> Seq<char> {
    "Password for domain '"@ + domain + "': "@ + password
}

/// How a dialogue ends: with the password or with a failure.
pub open spec fn ending(reaction: Reaction) -> Option<Result<Seq<char>, Failure>> {
    match reaction {
        Reaction::Reveal(password) => Some(Ok(password)),
        Reaction::Fail(failure) => Some(Err(failure)),
        _ => None,
    }
}

/// How the dialogue that stands at `s` ends on `events`: with the first
/// password or failure. It does not end where the events run out before.
pub open spec fn replay(settings: Settings, s: SessionView, events: Seq<Event>) -> Option<
    Result<Seq<char>, Failure>,
>
    decreases events.len(),
{
    if events.len() == 0 {
        None
    } else {
        let (next, reaction) = react(settings, s, events.first());
        if ending(reaction) is Some {
            ending(reaction)
        } else {
            replay(settings, next, events.drop_first())
        }
    }
}

/// `true` where `outcome` is the ending `expected`.
pub open spec fn ends_as(
    outcome: Option<Result<String, Failure>>,
    expected: Option<Result<Seq<char>, Failure>>,
) -> bool {
    match outcome {
        None => expected is None,
        Some(Ok(password)) => expected == Some(Ok::<Seq<char>, Failure>(password@)),
        Some(Err(failure)) => expected == Some(Err::<Seq<char>, Failure>(failure)),
    }
}

impl Session {
    /// How far the dialogue has come.
    pub fn stage(&self) -> (stage: Stage)
        ensures
            stage == self@.stage,
    {
        self.stage
    }

    fn close(&mut self)
        ensures
            final(self)@ == closed(),
    {
        self.stage = Stage::Closed;
        self.capture = Capture::new();
        self.accepted = String::new();
    }
}

impl Mkpw {
    /// Opens a dialogue. The first thing to do is to ask for the passphrase.
    pub fn begin(&self) -> (start: (Session, Action))
        ensures
            start.0@ == opening(),
            start.1 == Action::Ask(Prompt::Passphrase),
    {
        let session = Session {
            stage: Stage::Entering,
            capture: Capture::new(),
            accepted: String::new(),
        };
        (session, Action::Ask(Prompt::Passphrase))
    }

    /// Takes the next event of the terminal and says what to do about it.
    pub fn step(&self, session: &mut Session, event: Event) -> (action: Action)
        ensures
            final(session)@ == react(self@, old(session)@, event).0,
            carries_out(action, react(self@, old(session)@, event).1),
    {
        match session.stage {
            Stage::Closed => { return Action::ReadOn; },
            _ => {},
        }
        match session.capture.feed(event) {
            Progress::Echo(mask) => Action::Echo(mask),
            Progress::ReadOn => Action::ReadOn,
            Progress::Failed => {
                session.close();
                Action::Fail(Failure::TerminalReadError)
            },
            Progress::Done(entry) => {
                let confirming = match session.stage {
                    Stage::Confirming => true,
                    _ => false,
                };
                if !confirming && self.confirmation() {
                    session.stage = Stage::Confirming;
                    session.accepted = entry;
                    Action::Ask(Prompt::Confirmation)
                } else if confirming && entry != session.accepted {
                    session.close();
                    Action::Fail(Failure::ConfirmationMismatch)
                } else {
                    session.close();
                    Action::Reveal(self.generate_pw(entry.as_str()))
                }
            },
        }
    }

    /// The line that shows `password` to the user.
    pub fn announcement(&self, password: &str) -> (line: String)
        ensures
            line@ == announcement_of(self@.domain, password@),
    {
        let mut line = String::from_str("Password for domain '");
        line.append(self.domain());
        line.append("': ");
        line.append(password);
        line
    }

    /// Plays a dialogue from its beginning on a record of events, up to the
    /// event that ends it. `None` where the record ends before the dialogue does.
    pub fn run(&self, events: &Vec<Event>) -> (outcome: Option<Result<String, Failure>>)
        ensures
            ends_as(outcome, replay(self@, opening(), events@)),
    {
        let (mut session, _) = self.begin();
        let mut at: usize = 0;
        assert(events@.subrange(0, events.len() as int) =~= events@);
        while at < events.len()
            invariant
                at <= events.len(),
                replay(self@, opening(), events@) == replay(
                    self@,
                    session@,
                    events@.subrange(at as int, events.len() as int),
                ),
            decreases events.len() - at,
        {
            assert(events@.subrange(at as int, events.len() as int).drop_first()
                =~= events@.subrange(at + 1, events.len() as int));
            match self.step(&mut session, events[at]) {
                Action::Reveal(password) => { return Some(Ok(password)); },
                Action::Fail(failure) => { return Some(Err(failure)); },
                _ => {},
            }
            at = at + 1;
        }
        None
    }
}

/// Typing characters other than the line feed only lengthens the entry.
pub proof fn lemma_typed_characters(
    settings: Settings,
    s: SessionView,
    line: Seq<char>,
    rest: Seq<Event>,
)
    requires
        s.stage != Stage::Closed,
        one_line(line),
    ensures
        replay(settings, s, keystrokes(line) + rest) == replay(
            settings,
            SessionView { typed: s.typed + line, ..s },
            rest,
        ),
    decreases line.len(),
{
    if line.len() == 0 {
        assert(keystrokes(line) + rest =~= rest);
        assert(s.typed + line =~= s.typed);
    } else {
        let next = SessionView { typed: s.typed.push(line.first()), ..s };
        let tail = line.drop_first();
        assert((keystrokes(line) + rest).first() == Event::Character(line.first()));
        assert((keystrokes(line) + rest).drop_first() =~= keystrokes(tail) + rest);
        lemma_typed_characters(settings, next, tail, rest);
        assert(next.typed + tail =~= s.typed + line);
    }
}

/// Where no confirmation is asked for, the passphrase typed on one line gives
/// the password for its trimmed text.
pub proof fn lemma_dialogue_without_confirmation(settings: Settings, passphrase: Seq<char>)
    requires
        !settings.confirmation,
        one_line(passphrase),
    ensures
        replay(settings, opening(), typing(passphrase)) == Some(
            Ok::<Seq<char>, Failure>(
                derived_password(
                    settings.domain,
                    trimmed(passphrase),
                    settings.urlsafe,
                    settings.pwlen,
                ),
            ),
        ),
{
    let enter = seq![Event::Character('\n')];
    assert(typing(passphrase) =~= keystrokes(passphrase) + enter);
    lemma_typed_characters(settings, opening(), passphrase, enter);
    assert(opening().typed + passphrase =~= passphrase);
}

/// Where a confirmation is asked for, a passphrase and a confirmation that
/// are the same once trimmed give the password, and two that differ give
/// `ConfirmationMismatch` and no password.
pub proof fn lemma_dialogue_with_confirmation(
    settings: Settings,
    passphrase: Seq<char>,
    confirmation: Seq<char>,
)
    requires
        settings.confirmation,
        one_line(passphrase),
        one_line(confirmation),
    ensures
        replay(settings, opening(), typing(passphrase) + typing(confirmation)) == if trimmed(
            passphrase,
        ) == trimmed(confirmation) {
            Some(
                Ok::<Seq<char>, Failure>(
                    derived_password(
                        settings.domain,
                        trimmed(passphrase),
                        settings.urlsafe,
                        settings.pwlen,
                    ),
                ),
            )
        } else {
            Some(Err::<Seq<char>, Failure>(Failure::ConfirmationMismatch))
        },
{
    let enter = seq![Event::Character('\n')];
    let second = typing(confirmation);
    assert(typing(passphrase) + second =~= keystrokes(passphrase) + (
        enter + second
    ));
    lemma_typed_characters(settings, opening(), passphrase, enter + second);
    assert(opening().typed + passphrase =~= passphrase);
    let confirming = SessionView {
        stage: Stage::Confirming,
        typed: Seq::empty(),
        accepted: trimmed(passphrase),
    };
    assert((enter + second).first() == Event::Character('\n'));
    assert((enter + second).drop_first() =~= second);
    assert(second =~= keystrokes(confirmation) + enter);
    lemma_typed_characters(settings, confirming, confirmation, enter);
    assert(confirming.typed + confirmation =~= confirmation);
}

} // verus!

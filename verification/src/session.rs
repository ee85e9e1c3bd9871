//! The session: what each key event does to the engine and the cursor, and
//! how a session ends.

use crate::cursor::{commit_text, index_after_down, index_after_up, SelectionCursor};
use crate::engine::{lines_of, EngineView, FilterEngine};
use vstd::prelude::*;

verus! {

/// The byte that a terminal sends for the escape key.
pub const ESCAPE_BYTE: u8 = 27;

/// A decoded key event.
#[derive(Clone, Copy, Debug, PartialEq, Eq, Structural)]
pub enum KeyEvent {
    /// A character to add to the query.
    Character(char),
    Up,
    Down,
    /// The confirm key: line feed.
    Confirm,
    /// The cancel key: escape.
    Cancel,
    DeleteBackward,
    /// Any other event.
    Other,
}

/// Input that could not be decoded, with the byte at which decoding began.
#[derive(Clone, Copy, Debug, PartialEq, Eq, Structural)]
pub struct EventDecodeError {
    pub byte: u8,
}

impl KeyEvent {
    /// The event of a character key: line feed confirms, every other
    /// character is typed.
    pub fn from_char(c: char) -> (event: KeyEvent)
        ensures
            c == '\n' ==> event == KeyEvent::Confirm,
            c != '\n' ==> event == KeyEvent::Character(c),
    {
        if c == '\n' {
            KeyEvent::Confirm
        } else {
            KeyEvent::Character(c)
        }
    }
}

/// What to make of input that could not be decoded, given the byte at which
/// decoding began. A lone escape byte does not decode, and is the cancel key;
/// anything else ends the session with an error.
pub fn recover_decode_failure(first_byte: u8) -> (event: Result<KeyEvent, EventDecodeError>)
    ensures
        first_byte == ESCAPE_BYTE ==> event == Ok::<KeyEvent, EventDecodeError>(KeyEvent::Cancel),
        first_byte != ESCAPE_BYTE ==> event == Err::<KeyEvent, EventDecodeError>(
            (EventDecodeError { byte: first_byte }),
        ),
{
    if first_byte == ESCAPE_BYTE {
        Ok(KeyEvent::Cancel)
    } else {
        Err(EventDecodeError { byte: first_byte })
    }
}

/// Where a session stands. It starts running, and the other two states are
/// final.
#[derive(Clone, Copy, Debug, PartialEq, Eq, Structural)]
pub enum SessionState {
    Running,
    CommittedWithSelection,
    CancelledNoSelection,
}

/// What a session stands for.
pub struct SessionView {
    pub engine: EngineView,
    pub cursor: int,
    pub state: SessionState,
    /// The text that was picked; empty until a commit.
    pub output: Seq<char>,
}

impl SessionView {
    /// The session after one key event. Only a running session reacts.
    pub open spec fn step(self, event: KeyEvent) -> SessionView {
        if self.state != SessionState::Running {
            self
        } else {
            match event {
                KeyEvent::Cancel => SessionView {
                    engine: self.engine,
                    cursor: self.cursor,
                    state: SessionState::CancelledNoSelection,
                    output: self.output,
                },
                KeyEvent::Down => SessionView {
                    engine: self.engine,
                    cursor: index_after_down(self.cursor, self.engine.mask().len() as int),
                    state: self.state,
                    output: self.output,
                },
                KeyEvent::Up => SessionView {
                    engine: self.engine,
                    cursor: index_after_up(self.cursor, self.engine.mask().len() as int),
                    state: self.state,
                    output: self.output,
                },
                KeyEvent::Confirm => SessionView {
                    engine: self.engine,
                    cursor: self.cursor,
                    state: SessionState::CommittedWithSelection,
                    output: commit_text(self.engine, self.cursor),
                },
                KeyEvent::Character(c) => if self.engine.accepts_input() {
                    SessionView {
                        engine: self.engine.append(c),
                        cursor: self.cursor,
                        state: self.state,
                        output: self.output,
                    }
                } else {
                    self
                },
                KeyEvent::DeleteBackward => SessionView {
                    engine: self.engine.backspace(),
                    cursor: self.cursor,
                    state: self.state,
                    output: self.output,
                },
                KeyEvent::Other => self,
            }
        }
    }

    /// What the session hands to its caller when it is over: the text that
    /// was picked after a commit, nothing otherwise.
    pub open spec fn emitted(self) -> Option<Seq<char>> {
        if self.state == SessionState::CommittedWithSelection {
            Some(self.output)
        } else {
            None
        }
    }
}

/// One interactive session over a list of lines.
pub struct Session {
    engine: FilterEngine,
    cursor: SelectionCursor,
    state: SessionState,
    output: String,
}

impl View for Session {
    type V = SessionView;

    closed spec fn view(&self) -> SessionView {
        SessionView {
            engine: self.engine@,
            cursor: self.cursor.index as int,
            state: self.state,
            output: self.output@,
        }
    }
}

impl Session {
    /// A running session over `items`: empty query, cursor on the first
    /// line, nothing picked.
    pub fn new(items: Vec<String>) -> (session: Session)
        ensures
            session@.engine.lines == lines_of(items@),
            session@.engine.query == Seq::<char>::empty(),
            session@.cursor == 0,
            session@.state == SessionState::Running,
            session@.output == Seq::<char>::empty(),
    {
        Session {
            engine: FilterEngine::new(items),
            cursor: SelectionCursor::new(),
            state: SessionState::Running,
            output: String::new(),
        }
    }

    /// Takes one key event.
    pub fn step(&mut self, event: KeyEvent)
        ensures
            final(self)@ == old(self)@.step(event),
    {
        match self.state {
            SessionState::Running => {},
            _ => {
                return ;
            },
        }
        match event {
            KeyEvent::Cancel => {
                self.state = SessionState::CancelledNoSelection;
            },
            KeyEvent::Down => {
                let len = self.engine.view_len();
                self.cursor.move_down(len);
            },
            KeyEvent::Up => {
                let len = self.engine.view_len();
                self.cursor.move_up(len);
            },
            KeyEvent::Confirm => {
                self.output = self.cursor.commit(&self.engine);
                self.state = SessionState::CommittedWithSelection;
            },
            KeyEvent::Character(c) => {
                self.engine.try_append(c);
            },
            KeyEvent::DeleteBackward => {
                self.engine.backspace();
            },
            KeyEvent::Other => {},
        }
    }

    /// Where the session stands.
    pub fn state(&self) -> (state: SessionState)
        ensures
            state == self@.state,
    {
        self.state
    }

    /// Whether the session still takes events.
    pub fn is_running(&self) -> (running: bool)
        ensures
            running == (self@.state == SessionState::Running),
    {
        match self.state {
            SessionState::Running => true,
            _ => false,
        }
    }

    /// The engine, for drawing the query and the current view.
    pub fn engine(&self) -> (engine: &FilterEngine)
        ensures
            engine@ == self@.engine,
    {
        &self.engine
    }

    /// The index of the cursor, for drawing the selection. It may lie past
    /// the current view.
    pub fn cursor_index(&self) -> (index: usize)
        ensures
            index == self@.cursor,
    {
        self.cursor.index
    }

    /// What the session hands to its caller once it is over: the text that
    /// was picked after a commit, nothing otherwise.
    pub fn emitted(&self) -> (text: Option<&String>)
        ensures
            self@.emitted() is Some <==> text is Some,
            text is Some ==> text->0@ == self@.emitted()->0,
    {
        match self.state {
            SessionState::CommittedWithSelection => Some(&self.output),
            _ => None,
        }
    }
}

} // verus!

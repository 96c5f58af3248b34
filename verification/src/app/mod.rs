//! The application state: the ordered habits, the focus within their grid,
//! the month on view and the message line.

use vstd::prelude::*;
use vstd::string::*;
use crate::habit::{Habit, HabitView};

pub mod impl_self;
pub mod laws;
pub mod model;

verus! {

/// How serious a message is.
#[derive(Clone, Copy, Debug, PartialEq, Eq, Structural)]
pub enum MessageKind {
    Info,
    Error,
}

/// The notice on the message line.
#[derive(Clone, Debug, PartialEq, Eq)]
pub struct Message {
    pub msg: String,
    pub kind: MessageKind,
}

/// Mathematical value of a [`Message`].
pub struct MessageView {
    pub text: Seq<char>,
    pub kind: MessageKind,
}

impl View for Message {
    type V = MessageView;

    open spec fn view(&self) -> MessageView {
        MessageView { text: self.msg@, kind: self.kind }
    }
}

impl MessageView {
    /// No text, neutral severity.
    pub open spec fn empty() -> MessageView {
        MessageView { text: Seq::empty(), kind: MessageKind::Info }
    }

    /// The notice that a fresh application shows.
    pub open spec fn startup() -> MessageView {
        MessageView {
            text: "Type :add <habit-name> <goal> to get started, Ctrl-L to dismiss"@,
            kind: MessageKind::Info,
        }
    }

    pub open spec fn error(text: Seq<char>) -> MessageView {
        MessageView { text, kind: MessageKind::Error }
    }
}

impl Message {
    /// The notice that a fresh application shows.
    pub fn startup() -> (message: Message)
        ensures
            message@ == MessageView::startup(),
    {
        Message {
            msg: String::from_str(
                "Type :add <habit-name> <goal> to get started, Ctrl-L to dismiss",
            ),
            kind: MessageKind::Info,
        }
    }

    pub fn contents(&self) -> (text: &str)
        ensures
            text@ == self@.text,
    {
        self.msg.as_str()
    }

    pub fn kind(&self) -> (kind: MessageKind)
        ensures
            kind == self@.kind,
    {
        self.kind
    }

    pub fn has_message(&self) -> (yes: bool)
        ensures
            yes == (self@.text.len() > 0),
    {
        self.msg.as_str().unicode_len() > 0
    }

    pub fn set_kind(&mut self, kind: MessageKind)
        ensures
            final(self)@ == (MessageView { kind, ..old(self)@ }),
    {
        self.kind = kind;
    }

    pub fn set_message(&mut self, text: String)
        ensures
            final(self)@ == (MessageView { text: text@, ..old(self)@ }),
    {
        self.msg = text;
    }

    /// Empties the line and makes it neutral again.
    pub fn clear(&mut self)
        ensures
            final(self)@ == MessageView::empty(),
    {
        self.msg = String::new();
        self.kind = MessageKind::Info;
    }
}

/// The two lines of the status readout: a summary and a timestamp.
#[derive(Clone, Debug, PartialEq, Eq)]
pub struct StatusLine(pub String, pub String);

impl View for StatusLine {
    type V = (Seq<char>, Seq<char>);

    open spec fn view(&self) -> (Seq<char>, Seq<char>) {
        (self.0@, self.1@)
    }
}

/// The layout of the habit grid: how many habits stand in a row, and how
/// wide and high each is drawn.
#[derive(Clone, Copy, Debug, PartialEq, Eq, Structural)]
pub struct Config {
    pub grid_width: usize,
    pub view_width: usize,
    pub view_height: usize,
}

impl Config {
    /// A grid has at least one column.
    pub open spec fn wf(self) -> bool {
        self.grid_width >= 1
    }
}

/// A move of the focus within the grid.
#[derive(Clone, Copy, Debug, PartialEq, Eq, Structural)]
pub enum Direction {
    Left,
    Up,
    Right,
    Down,
    /// No move at all.
    Stay,
}

/// A width and a height, in character cells.
#[derive(Clone, Copy, Debug, PartialEq, Eq, Structural)]
pub struct Extent {
    pub width: usize,
    pub height: usize,
}

/// How much of today's goals is done and how much is left, summed over all
/// habits.
#[derive(Clone, Copy, Debug, PartialEq, Eq, Structural)]
pub struct Progress {
    pub completed: u128,
    pub remaining: u128,
}

/// What the caller is to do after a command was applied.
#[derive(Clone, Copy, Debug, PartialEq, Eq, Structural)]
pub enum Action {
    /// Nothing further.
    Proceed,
    /// Write the habits to their two documents.
    Persist,
}

/// The application state.
pub struct App {
    pub habits: Vec<Habit>,
    pub focus: usize,
    pub view_month_offset: u32,
    pub message: Message,
    pub config: Config,
}

/// Mathematical value of an [`App`].
pub struct AppView {
    pub habits: Seq<HabitView>,
    pub focus: nat,
    pub view_month_offset: u32,
    pub message: MessageView,
    pub config: Config,
}

/// The values of a sequence of habits, in order.
pub open spec fn habit_views(habits: Seq<Habit>) -> Seq<HabitView> {
    habits.map_values(|habit: Habit| habit@)
}

impl View for App {
    type V = AppView;

    open spec fn view(&self) -> AppView {
        AppView {
            habits: habit_views(self.habits@),
            focus: self.focus as nat,
            view_month_offset: self.view_month_offset,
            message: self.message@,
            config: self.config,
        }
    }
}

} // verus!

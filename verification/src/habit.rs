//! The habit model: a habit is either binary (done or not on a day) or
//! counted (a tally per day against a goal). Both answer the same
//! questions and take the same events.

use std::collections::HashMap;
use vstd::prelude::*;
use vstd::string::*;

verus! {

broadcast use vstd::std_specs::hash::group_hash_axioms;

/// A calendar day, as the number of days since the last day of the year 0
/// of the proleptic Gregorian calendar (1 January of year 1 is day 1).
pub type Day = i32;

/// A step of progress on one day, forwards or back.
#[derive(Clone, Copy, Debug, PartialEq, Eq, Structural)]
pub enum TrackEvent {
    Increment,
    Decrement,
}

/// How a habit is presented.
#[derive(Clone, Copy, Debug, PartialEq, Eq, Structural)]
pub enum ViewMode {
    Day,
    Month,
}

/// The two variants of a habit.
#[derive(Clone, Copy, Debug, PartialEq, Eq, Structural)]
pub enum HabitKind {
    Bit,
    Count,
}

impl ViewMode {
    /// The mode's name as the status readout shows it.
    pub open spec fn label(self) -> Seq<char> {
        match self {
            ViewMode::Day => "DAY"@,
            ViewMode::Month => "MONTH"@,
        }
    }

    /// The mode's name as the status readout shows it.
    pub fn name(&self) -> (text: &'static str)
        ensures
            text@ == self.label(),
    {
        match self {
            ViewMode::Day => "DAY",
            ViewMode::Month => "MONTH",
        }
    }
}

/// `x` brought into the range from 0 to `goal`.
pub open spec fn clamp(x: int, goal: u32) -> u32 {
    if x < 0 {
        0
    } else if x > goal {
        goal
    } else {
        x as u32
    }
}

/// Mathematical value of a habit. A binary habit has goal 1 and a tally of
/// 0 or 1 on each day.
pub struct HabitView {
    pub kind: HabitKind,
    pub name: Seq<char>,
    pub goal: u32,
    pub auto: bool,
    pub ledger: Map<Day, u32>,
    pub view_mode: ViewMode,
    pub view_month_offset: u32,
}

impl HabitView {
    /// A binary habit has goal 1 and no tally above it.
    pub open spec fn wf(self) -> bool {
        self.kind == HabitKind::Bit ==> {
            &&& self.goal == 1
            &&& forall|day: Day| #[trigger] self.tally(day) <= 1
        }
    }

    /// Progress recorded for `day`; 0 where the ledger has no entry.
    pub open spec fn tally(self, day: Day) -> u32 {
        if self.ledger.contains_key(day) {
            self.ledger[day]
        } else {
            0
        }
    }

    /// What is left to do on `day`.
    pub open spec fn remaining(self, day: Day) -> u32 {
        if self.tally(day) >= self.goal {
            0
        } else {
            (self.goal - self.tally(day)) as u32
        }
    }

    /// The habit after `event` on `day`: the day's tally moves by one and
    /// stays between 0 and the goal.
    pub open spec fn modified(self, day: Day, event: TrackEvent) -> HabitView {
        let tally = match event {
            TrackEvent::Increment => clamp(self.tally(day) + 1, self.goal),
            TrackEvent::Decrement => clamp(self.tally(day) - 1, self.goal),
        };
        HabitView { ledger: self.ledger.insert(day, tally), ..self }
    }

    pub open spec fn renamed(self, name: Seq<char>) -> HabitView {
        HabitView { name, ..self }
    }

    pub open spec fn with_view_mode(self, mode: ViewMode) -> HabitView {
        HabitView { view_mode: mode, ..self }
    }

    pub open spec fn with_view_month_offset(self, offset: u32) -> HabitView {
        HabitView { view_month_offset: offset, ..self }
    }
}

/// A binary habit: each day is done or not.
#[derive(Clone, Debug, PartialEq, Eq)]
pub struct Bit {
    pub name: String,
    pub stats: HashMap<Day, bool>,
    pub auto: bool,
    pub view_month_offset: u32,
    pub view_mode: ViewMode,
}

/// A counted habit: each day has a tally against the goal.
#[derive(Clone, Debug, PartialEq, Eq)]
pub struct Count {
    pub name: String,
    pub stats: HashMap<Day, u32>,
    pub goal: u32,
    pub auto: bool,
    pub view_month_offset: u32,
    pub view_mode: ViewMode,
}

/// A habit of either variant.
#[derive(Clone, Debug, PartialEq, Eq)]
pub enum Habit {
    Bit(Bit),
    Count(Count),
}

/// The tallies that a binary ledger stands for: 1 for a day done, 0 for a
/// day recorded as not done.
pub open spec fn bit_tallies(stats: Map<Day, bool>) -> Map<Day, u32> {
    Map::new(
        |day: Day| stats.contains_key(day),
        |day: Day|
            if stats[day] {
                1u32
            } else {
                0u32
            },
    )
}

impl View for Bit {
    type V = HabitView;

    open spec fn view(&self) -> HabitView {
        HabitView {
            kind: HabitKind::Bit,
            name: self.name@,
            goal: 1,
            auto: self.auto,
            ledger: bit_tallies(self.stats@),
            view_mode: self.view_mode,
            view_month_offset: self.view_month_offset,
        }
    }
}

impl View for Count {
    type V = HabitView;

    open spec fn view(&self) -> HabitView {
        HabitView {
            kind: HabitKind::Count,
            name: self.name@,
            goal: self.goal,
            auto: self.auto,
            ledger: self.stats@,
            view_mode: self.view_mode,
            view_month_offset: self.view_month_offset,
        }
    }
}

impl View for Habit {
    type V = HabitView;

    open spec fn view(&self) -> HabitView {
        match self {
            Habit::Bit(bit) => bit@,
            Habit::Count(count) => count@,
        }
    }
}

impl Bit {
    /// A binary habit with an empty ledger, shown by day in the current
    /// month.
    pub fn new(name: String, auto: bool) -> (bit: Bit)
        ensures
            bit@ == (HabitView {
                kind: HabitKind::Bit,
                name: name@,
                goal: 1,
                auto,
                ledger: Map::empty(),
                view_mode: ViewMode::Day,
                view_month_offset: 0,
            }),
    {
        let bit = Bit {
            name,
            stats: HashMap::new(),
            auto,
            view_month_offset: 0,
            view_mode: ViewMode::Day,
        };
        assert(bit@.ledger =~= Map::empty());
        bit
    }
}

impl Count {
    /// A counted habit with an empty ledger, shown by day in the current
    /// month.
    pub fn new(name: String, goal: u32, auto: bool) -> (count: Count)
        ensures
            count@ == (HabitView {
                kind: HabitKind::Count,
                name: name@,
                goal,
                auto,
                ledger: Map::empty(),
                view_mode: ViewMode::Day,
                view_month_offset: 0,
            }),
    {
        Count {
            name,
            stats: HashMap::new(),
            goal,
            auto,
            view_month_offset: 0,
            view_mode: ViewMode::Day,
        }
    }
}

impl Habit {
    /// The value of every habit is well formed.
    pub proof fn lemma_view_wf(self)
        ensures
            self@.wf(),
    {
    }

    pub fn kind(&self) -> (kind: HabitKind)
        ensures
            kind == self@.kind,
    {
        match self {
            Habit::Bit(_) => HabitKind::Bit,
            Habit::Count(_) => HabitKind::Count,
        }
    }

    pub fn name(&self) -> (name: &str)
        ensures
            name@ == self@.name,
    {
        match self {
            Habit::Bit(bit) => bit.name.as_str(),
            Habit::Count(count) => count.name.as_str(),
        }
    }

    pub fn set_name(&mut self, name: String)
        ensures
            final(self)@ == old(self)@.renamed(name@),
    {
        match self {
            Habit::Bit(bit) => {
                bit.name = name;
            },
            Habit::Count(count) => {
                count.name = name;
            },
        }
    }

    /// The target per day; 1 for a binary habit.
    pub fn goal(&self) -> (goal: u32)
        ensures
            goal == self@.goal,
    {
        match self {
            Habit::Bit(_) => 1,
            Habit::Count(count) => count.goal,
        }
    }

    /// What is left to do on `day`; never more than the goal.
    pub fn remaining(&self, day: Day) -> (left: u32)
        ensures
            left == self@.remaining(day),
            left <= self@.goal,
    {
        match self {
            Habit::Bit(bit) => {
                match bit.stats.get(&day) {
                    Some(done) => if *done {
                        0
                    } else {
                        1
                    },
                    None => 1,
                }
            },
            Habit::Count(count) => {
                match count.stats.get(&day) {
                    Some(tally) => if *tally >= count.goal {
                        0
                    } else {
                        count.goal - *tally
                    },
                    None => count.goal,
                }
            },
        }
    }

    /// Records `event` on `day`.
    pub fn modify(&mut self, day: Day, event: TrackEvent)
        ensures
            final(self)@ == old(self)@.modified(day, event),
    {
        match self {
            Habit::Bit(bit) => {
                let done = match event {
                    TrackEvent::Increment => true,
                    TrackEvent::Decrement => false,
                };
                bit.stats.insert(day, done);
                assert(bit_tallies(bit.stats@) =~= old(self)@.modified(day, event).ledger);
            },
            Habit::Count(count) => {
                let tally: u32 = match count.stats.get(&day) {
                    Some(tally) => *tally,
                    None => 0,
                };
                let next: u32 = match event {
                    TrackEvent::Increment => if tally < count.goal {
                        tally + 1
                    } else {
                        count.goal
                    },
                    TrackEvent::Decrement => if tally == 0 {
                        0
                    } else if tally - 1 > count.goal {
                        count.goal
                    } else {
                        tally - 1
                    },
                };
                count.stats.insert(day, next);
            },
        }
    }

    pub fn is_auto(&self) -> (auto: bool)
        ensures
            auto == self@.auto,
    {
        match self {
            Habit::Bit(bit) => bit.auto,
            Habit::Count(count) => count.auto,
        }
    }

    pub fn view_mode(&self) -> (mode: ViewMode)
        ensures
            mode == self@.view_mode,
    {
        match self {
            Habit::Bit(bit) => bit.view_mode,
            Habit::Count(count) => count.view_mode,
        }
    }

    pub fn set_view_mode(&mut self, mode: ViewMode)
        ensures
            final(self)@ == old(self)@.with_view_mode(mode),
    {
        match self {
            Habit::Bit(bit) => {
                bit.view_mode = mode;
            },
            Habit::Count(count) => {
                count.view_mode = mode;
            },
        }
    }

    pub fn set_view_month_offset(&mut self, offset: u32)
        ensures
            final(self)@ == old(self)@.with_view_month_offset(offset),
    {
        match self {
            Habit::Bit(bit) => {
                bit.view_month_offset = offset;
            },
            Habit::Count(count) => {
                count.view_month_offset = offset;
            },
        }
    }
}

/// What is left on a day lies between 0 and the goal, and no event changes
/// the goal: the bound holds at all times.
pub proof fn lemma_remaining_bounded(habit: HabitView, day: Day, event: TrackEvent, on: Day)
    ensures
        0 <= habit.remaining(day) <= habit.goal,
        habit.modified(on, event).goal == habit.goal,
        0 <= habit.modified(on, event).remaining(day) <= habit.goal,
        habit.modified(on, event).auto == habit.auto,
        habit.modified(on, event).kind == habit.kind,
        habit.modified(on, event).name == habit.name,
{
}

/// Renaming a habit and changing how it is shown touch neither its goal, its
/// variant, whether it is fed from outside, nor what is left on any day.
pub proof fn lemma_presentation_keeps_progress(
    habit: HabitView,
    day: Day,
    name: Seq<char>,
    mode: ViewMode,
    offset: u32,
)
    ensures
        habit.renamed(name).goal == habit.goal,
        habit.renamed(name).remaining(day) == habit.remaining(day),
        habit.with_view_mode(mode).goal == habit.goal,
        habit.with_view_mode(mode).remaining(day) == habit.remaining(day),
        habit.with_view_month_offset(offset).goal == habit.goal,
        habit.with_view_month_offset(offset).remaining(day) == habit.remaining(day),
        habit.renamed(name).auto == habit.auto && habit.renamed(name).kind == habit.kind,
        habit.with_view_mode(mode).auto == habit.auto && habit.with_view_mode(mode).kind
            == habit.kind,
        habit.with_view_month_offset(offset).auto == habit.auto && habit.with_view_month_offset(
            offset,
        ).kind == habit.kind,
{
}

/// An event moves the tally of its own day by one, within 0 and the goal,
/// and leaves every other day as it was. What is left on the day is the goal
/// less the new tally.
pub proof fn lemma_modified_tally(habit: HabitView, day: Day, event: TrackEvent, other: Day)
    requires
        habit.tally(day) <= habit.goal,
    ensures
        event == TrackEvent::Increment ==> habit.modified(day, event).tally(day) == if habit.tally(
            day,
        ) < habit.goal {
            habit.tally(day) + 1
        } else {
            habit.goal as int
        },
        event == TrackEvent::Decrement ==> habit.modified(day, event).tally(day) == if habit.tally(
            day,
        ) > 0 {
            habit.tally(day) - 1
        } else {
            0
        },
        habit.modified(day, event).remaining(day) == habit.goal - habit.modified(day, event).tally(
            day,
        ),
        other != day ==> habit.modified(day, event).tally(other) == habit.tally(other),
{
}

/// A binary habit has no partial state: after an increment nothing is left
/// on the day, after a decrement the whole goal is.
pub proof fn lemma_bit_has_no_partial_state(habit: HabitView, day: Day)
    requires
        habit.kind == HabitKind::Bit,
        habit.wf(),
    ensures
        habit.modified(day, TrackEvent::Increment).remaining(day) == 0,
        habit.modified(day, TrackEvent::Decrement).remaining(day) == habit.goal,
        habit.modified(day, TrackEvent::Increment).wf(),
        habit.modified(day, TrackEvent::Decrement).wf(),
{
    assert(habit.tally(day) <= 1);
    let up = habit.modified(day, TrackEvent::Increment);
    let down = habit.modified(day, TrackEvent::Decrement);
    assert forall|other: Day| #[trigger] up.tally(other) <= 1 by {
        assert(habit.tally(other) <= 1);
    }
    assert forall|other: Day| #[trigger] down.tally(other) <= 1 by {
        assert(habit.tally(other) <= 1);
    }
}

} // verus!

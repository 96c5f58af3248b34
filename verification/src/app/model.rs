//! The mathematical value of the application state and the transitions
//! that the operations carry out on it.

use vstd::prelude::*;
use crate::app::{Action, AppView, Config, Direction, MessageView};
use crate::command::{CommandView, ErrorView};
use crate::habit::{Day, Habit, HabitKind, HabitView, TrackEvent, ViewMode};
use crate::text::decimal;

verus! {

impl AppView {
    /// The grid has a column, and the focus is on a habit or, where there is
    /// none to be on, at 0.
    pub open spec fn wf(self) -> bool {
        &&& self.config.wf()
        &&& (self.focus == 0 || self.focus < self.habits.len())
    }

    /// A fresh state with these habits.
    pub open spec fn fresh(config: Config, habits: Seq<HabitView>) -> AppView {
        AppView {
            habits,
            focus: 0,
            view_month_offset: 0,
            message: MessageView::startup(),
            config,
        }
    }

    pub open spec fn add_habit(self, habit: HabitView) -> AppView {
        AppView { habits: self.habits.push(habit), ..self }
    }

    /// The habits whose name is not `name`, in their order.
    pub open spec fn without_name(self, name: Seq<char>) -> Seq<HabitView> {
        self.habits.filter(|habit: HabitView| habit.name != name)
    }

    pub open spec fn delete_by_name(self, name: Seq<char>) -> AppView {
        let kept = self.without_name(name);
        AppView {
            habits: kept,
            message: if kept.len() == self.habits.len() {
                MessageView::error("Could not delete habit `"@ + name + "`"@)
            } else {
                self.message
            },
            ..self
        }
    }

    pub open spec fn get_mode(self) -> ViewMode {
        if self.habits.len() == 0 {
            ViewMode::Day
        } else {
            self.habits[self.focus as int].view_mode
        }
    }

    pub open spec fn set_mode(self, mode: ViewMode) -> AppView {
        if self.habits.len() == 0 {
            self
        } else {
            AppView {
                habits: self.habits.update(
                    self.focus as int,
                    self.habits[self.focus as int].with_view_mode(mode),
                ),
                ..self
            }
        }
    }

    pub open spec fn set_view_month_offset(self, offset: u32) -> AppView {
        AppView {
            habits: self.habits.map_values(
                |habit: HabitView| habit.with_view_month_offset(offset),
            ),
            view_month_offset: offset,
            ..self
        }
    }

    pub open spec fn sift_backward(self) -> AppView {
        self.set_view_month_offset((self.view_month_offset + 1) as u32)
    }

    pub open spec fn sift_forward(self) -> AppView {
        if self.view_month_offset > 0 {
            self.set_view_month_offset((self.view_month_offset - 1) as u32)
        } else {
            self
        }
    }

    pub open spec fn clear_message(self) -> AppView {
        AppView { message: MessageView::empty(), ..self }
    }

    pub open spec fn set_focus(self, d: Direction) -> AppView {
        AppView {
            focus: moved_focus(
                self.focus as int,
                self.habits.len() as int,
                self.config.grid_width as int,
                d,
            ) as nat,
            ..self
        }
    }

    /// What is done of today's goals: the goals less what is left.
    pub open spec fn completed(self, today: Day) -> nat {
        (total_goal(self.habits) - total_remaining(self.habits, today)) as nat
    }

    /// The first line of the status readout.
    pub open spec fn summary(self, today: Day) -> Seq<char> {
        "Today: "@ + decimal(self.completed(today)) + " completed, "@ + decimal(
            total_remaining(self.habits, today),
        ) + " remaining --"@ + self.get_mode().label() + "--"@
    }

    /// The second line of the status readout: the date's stamp while the
    /// current month is on view, else how far back the view is.
    pub open spec fn timestamp(self, stamp: Seq<char>) -> Seq<char> {
        if self.view_month_offset == 0 {
            stamp
        } else {
            decimal(self.view_month_offset as nat) + " months ago"@
        }
    }

    pub open spec fn status(self, today: Day, stamp: Seq<char>) -> (Seq<char>, Seq<char>) {
        (self.summary(today), self.timestamp(stamp))
    }

    /// Rows that the habits fill: their number divided by the width of the
    /// grid, rounded up.
    pub open spec fn rows(self) -> int {
        let len = self.habits.len() as int;
        let grid_width = self.config.grid_width as int;
        len / grid_width + if len % grid_width == 0 {
            0int
        } else {
            1int
        }
    }

    /// Width and height of the whole grid: a row's cells side by side, the
    /// rows one under the other, and a margin of two rows. Without habits
    /// there is no row, and the margin alone is left.
    pub open spec fn max_size(self) -> (int, int) {
        (
            self.config.grid_width * self.config.view_width,
            self.config.view_height * self.rows() + 2,
        )
    }

    /// The habits that are tracked by hand, in their order.
    pub open spec fn regular_habits(self) -> Seq<HabitView> {
        regular_part(self.habits)
    }

    /// The habits that are fed from outside, in their order.
    pub open spec fn auto_habits(self) -> Seq<HabitView> {
        auto_part(self.habits)
    }

    /// The state after `event` on `today` for the first habit that is called
    /// `name` and fed from outside; the same state where there is none.
    pub open spec fn track(self, name: Seq<char>, today: Day, event: TrackEvent) -> AppView {
        let i = first_auto_named(self.habits, name) as int;
        if i < self.habits.len() {
            AppView { habits: self.habits.update(i, self.habits[i].modified(today, event)), ..self }
        } else {
            self
        }
    }

    pub open spec fn set_name(self, name: Seq<char>) -> AppView {
        if self.habits.len() == 0 {
            AppView {
                message: MessageView::error("Can't call command `set` on empty habit list!"@),
                ..self
            }
        } else {
            AppView {
                habits: self.habits.update(
                    self.focus as int,
                    self.habits[self.focus as int].renamed(name),
                ),
                ..self
            }
        }
    }

    /// The state after the interpreter's result was applied on `today`.
    pub open spec fn apply(self, result: Result<CommandView, ErrorView>, today: Day) -> AppView {
        match result {
            Ok(CommandView::Add(name, goal, auto)) => self.add_habit(new_habit(name, goal, auto)),
            Ok(CommandView::Delete(name)) => AppView { focus: 0, ..self.delete_by_name(name) },
            Ok(CommandView::TrackUp(name)) => self.track(name, today, TrackEvent::Increment),
            Ok(CommandView::TrackDown(name)) => self.track(name, today, TrackEvent::Decrement),
            Ok(CommandView::MonthNext) => self.sift_forward(),
            Ok(CommandView::MonthPrev) => self.sift_backward(),
            Ok(CommandView::SetName(name)) => self.set_name(name),
            Ok(CommandView::Quit) => self,
            Ok(CommandView::SetGoal(_)) => self,
            Ok(CommandView::Blank) => self,
            Err(e) => AppView { message: MessageView::error(e.message()), ..self },
        }
    }

    /// The state after a sequence of moves of the focus.
    pub open spec fn after_moves(self, moves: Seq<Direction>) -> AppView
        decreases moves.len(),
    {
        if moves.len() == 0 {
            self
        } else {
            self.after_moves(moves.drop_last()).set_focus(moves.last())
        }
    }
}

/// What the caller is to do once the result was applied: persist on `Quit`,
/// else nothing.
pub open spec fn action_for(result: Result<CommandView, ErrorView>) -> Action {
    if result == Ok::<CommandView, ErrorView>(CommandView::Quit) {
        Action::Persist
    } else {
        Action::Proceed
    }
}

/// Whether the result can be applied in this state: the month offset has a
/// successor where it is to grow.
pub open spec fn can_apply(app: AppView, result: Result<CommandView, ErrorView>) -> bool {
    result == Ok::<CommandView, ErrorView>(CommandView::MonthPrev) ==> app.view_month_offset
        < u32::MAX
}

/// The habit that `add` makes: binary where no goal or a goal of 1 was
/// given, counted for any other goal.
pub open spec fn new_habit(name: Seq<char>, goal: Option<u32>, auto: bool) -> HabitView {
    let bit = goal is None || goal == Some(1u32);
    HabitView {
        kind: if bit {
            HabitKind::Bit
        } else {
            HabitKind::Count
        },
        name,
        goal: if bit {
            1
        } else {
            goal->0
        },
        auto,
        ledger: Map::empty(),
        view_mode: ViewMode::Day,
        view_month_offset: 0,
    }
}

/// Sum of the goals.
pub open spec fn total_goal(habits: Seq<HabitView>) -> nat
    decreases habits.len(),
{
    if habits.len() == 0 {
        0
    } else {
        total_goal(habits.drop_last()) + habits.last().goal as nat
    }
}

/// Sum of what is left on `day`.
pub open spec fn total_remaining(habits: Seq<HabitView>, day: Day) -> nat
    decreases habits.len(),
{
    if habits.len() == 0 {
        0
    } else {
        total_remaining(habits.drop_last(), day) + habits.last().remaining(day) as nat
    }
}

/// Position of the first habit that is called `name` and fed from outside,
/// or the number of habits where there is none.
pub open spec fn first_auto_named(habits: Seq<HabitView>, name: Seq<char>) -> nat
    decreases habits.len(),
{
    if habits.len() == 0 || (habits[0].name == name && habits[0].auto) {
        0
    } else {
        1 + first_auto_named(habits.drop_first(), name)
    }
}

/// The habits that are tracked by hand, in their order.
pub open spec fn regular_part(habits: Seq<HabitView>) -> Seq<HabitView> {
    habits.filter(|habit: HabitView| !habit.auto)
}

/// The habits that are fed from outside, in their order.
pub open spec fn auto_part(habits: Seq<HabitView>) -> Seq<HabitView> {
    habits.filter(|habit: HabitView| habit.auto)
}

/// What a state is reloaded as: the habits tracked by hand, then those fed
/// from outside.
pub open spec fn reloaded(habits: Seq<HabitView>) -> Seq<HabitView> {
    regular_part(habits) + auto_part(habits)
}

/// The values of borrowed habits, in order.
pub open spec fn borrowed_views(habits: Seq<&Habit>) -> Seq<HabitView> {
    habits.map_values(|habit: &Habit| habit@)
}

/// Where the focus goes from `focus` among `len` habits laid out in rows of
/// `grid_width`: one habit left or right, one row up or down, never past
/// the first or the last habit.
pub open spec fn moved_focus(focus: int, len: int, grid_width: int, d: Direction) -> int {
    match d {
        Direction::Right => if focus != len - 1 {
            focus + 1
        } else {
            focus
        },
        Direction::Left => if focus != 0 {
            focus - 1
        } else {
            focus
        },
        Direction::Down => if focus + grid_width < len - 1 {
            focus + grid_width
        } else {
            len - 1
        },
        Direction::Up => if focus - grid_width >= 0 {
            focus - grid_width
        } else {
            0
        },
        Direction::Stay => focus,
    }
}

} // verus!

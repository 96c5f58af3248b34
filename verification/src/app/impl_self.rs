//! The operations on the application state. Each says which transition of
//! the mathematical value it carries out.

use vstd::prelude::*;
use vstd::string::*;
use crate::app::laws::lemma_first_auto_named;
use crate::app::model::{
    action_for, borrowed_views, can_apply, first_auto_named, total_goal, total_remaining,
};
use crate::app::{
    habit_views, Action, App, AppView, Config, Direction, Extent, Message, MessageKind, Progress,
    StatusLine,
};
use crate::clock::{is_date_stamp, local_date_stamp, utc_today};
use crate::command::{result_view, Command, CommandLineError};
use crate::habit::{Bit, Count, Day, Habit, HabitView, TrackEvent, ViewMode};
use crate::text::{push_decimal, str_eq};

verus! {

impl App {
    /// A state without habits, for the given grid.
    pub fn new(config: Config) -> (app: App)
        ensures
            app@ == AppView::fresh(config, Seq::empty()),
    {
        let app = App {
            habits: Vec::new(),
            focus: 0,
            view_month_offset: 0,
            message: Message::startup(),
            config,
        };
        assert(app@.habits =~= Seq::empty());
        app
    }

    /// Whether the state is well formed. For callers that cannot prove it.
    pub fn is_well_formed(&self) -> (yes: bool)
        ensures
            yes == self@.wf(),
    {
        self.config.grid_width >= 1 && (self.focus == 0 || self.focus < self.habits.len())
    }

    /// Appends a habit. Names are not held apart: a second habit of a name
    /// is accepted.
    pub fn add_habit(&mut self, h: Habit)
        ensures
            final(self)@ == old(self)@.add_habit(h@),
    {
        self.habits.push(h);
        assert(final(self)@.habits =~= old(self)@.habits.push(h@));
    }

    /// The view mode of the habit in focus; by day where there is no habit.
    pub fn get_mode(&self) -> (mode: ViewMode)
        requires
            self@.wf(),
        ensures
            mode == self@.get_mode(),
    {
        if self.habits.len() == 0 {
            return ViewMode::Day;
        }
        self.habits[self.focus].view_mode()
    }

    /// Sets the view mode of the habit in focus, if there is one.
    pub fn set_mode(&mut self, mode: ViewMode)
        requires
            old(self)@.wf(),
        ensures
            final(self)@ == old(self)@.set_mode(mode),
    {
        if self.habits.len() != 0 {
            let focus = self.focus;
            self.habits[focus].set_view_mode(mode);
            assert(final(self)@.habits =~= old(self)@.set_mode(mode).habits);
        }
    }

    /// Empties the message line.
    pub fn clear_message(&mut self)
        ensures
            final(self)@ == old(self)@.clear_message(),
    {
        self.message.clear();
    }

    /// Shows every habit `offset` months back.
    pub fn set_view_month_offset(&mut self, offset: u32)
        ensures
            final(self)@ == old(self)@.set_view_month_offset(offset),
    {
        self.view_month_offset = offset;
        let n = self.habits.len();
        let mut i: usize = 0;
        while i < n
            invariant
                i <= n,
                n == self.habits.len(),
                n == old(self).habits.len(),
                self.focus == old(self).focus,
                self.view_month_offset == offset,
                self.message == old(self).message,
                self.config == old(self).config,
                forall|k: int|
                    0 <= k < i ==> (#[trigger] self.habits[k])@ == old(
                        self,
                    ).habits[k]@.with_view_month_offset(offset),
                forall|k: int| i <= k < n ==> #[trigger] self.habits[k] == old(self).habits[k],
            decreases n - i,
        {
            self.habits[i].set_view_month_offset(offset);
            i += 1;
        }
        assert(final(self)@.habits =~= old(self)@.set_view_month_offset(offset).habits);
    }

    /// Moves the view one month back.
    pub fn sift_backward(&mut self)
        requires
            old(self).view_month_offset < u32::MAX,
        ensures
            final(self)@ == old(self)@.sift_backward(),
    {
        let offset = self.view_month_offset + 1;
        self.set_view_month_offset(offset);
    }

    /// Moves the view one month forward, not beyond the current month.
    pub fn sift_forward(&mut self)
        ensures
            final(self)@ == old(self)@.sift_forward(),
    {
        if self.view_month_offset > 0 {
            let offset = self.view_month_offset - 1;
            self.set_view_month_offset(offset);
        }
    }

    /// Removes every habit called `name`. Where there is none, says so on
    /// the message line. The focus is left where it was.
    pub fn delete_by_name(&mut self, name: &str)
        ensures
            final(self)@ == old(self)@.delete_by_name(name@),
    {
        let old_len = self.habits.len();
        let ghost differs = |habit: HabitView| habit.name != name@;
        let ghost before = old(self)@.habits;
        let mut i: usize = 0;
        let mut seen: usize = 0;
        proof {
            assert(before.take(0).filter(differs) =~= Seq::<HabitView>::empty()) by {
                before.take(0).lemma_filter_len(differs);
            }
            assert(habit_views(self.habits@).take(0) =~= Seq::<HabitView>::empty());
        }
        while seen < old_len
            invariant
                old_len == before.len(),
                before == old(self)@.habits,
                differs == |habit: HabitView| habit.name != name@,
                i <= seen <= old_len,
                self.habits.len() == i + (old_len - seen),
                self.focus == old(self).focus,
                self.view_month_offset == old(self).view_month_offset,
                self.message == old(self).message,
                self.config == old(self).config,
                habit_views(self.habits@).take(i as int) == before.take(seen as int).filter(
                    differs,
                ),
                habit_views(self.habits@).skip(i as int) == before.skip(seen as int),
            decreases old_len - seen,
        {
            let ghost current = habit_views(self.habits@);
            proof {
                assert(current[i as int] == current.skip(i as int)[0]);
                assert(before[seen as int] == before.skip(seen as int)[0]);
                assert(before.take(seen + 1) =~= before.take(seen as int).push(
                    before[seen as int],
                ));
                Seq::lemma_filter_push(before.take(seen as int), before[seen as int], differs);
            }
            if str_eq(self.habits[i].name(), name) {
                self.habits.remove(i);
                proof {
                    let next = habit_views(self.habits@);
                    assert(next.take(i as int) =~= current.take(i as int));
                    assert(next.skip(i as int) =~= current.skip(i as int).skip(1));
                    assert(before.skip(seen as int).skip(1) =~= before.skip(seen + 1));
                }
            } else {
                proof {
                    assert(current.take(i + 1) =~= current.take(i as int).push(current[i as int]));
                    assert(current.skip(i + 1) =~= current.skip(i as int).skip(1));
                    assert(before.skip(seen as int).skip(1) =~= before.skip(seen + 1));
                }
                i += 1;
            }
            seen += 1;
        }
        proof {
            assert(before.take(old_len as int) =~= before);
            assert(habit_views(self.habits@).take(i as int) =~= habit_views(self.habits@));
        }
        if self.habits.len() == old_len {
            let mut text = String::from_str("Could not delete habit `");
            text.append(name);
            text.append("`");
            self.message.set_message(text);
            self.message.set_kind(MessageKind::Error);
        }
    }

    /// Moves the focus within the grid. There must be a habit in focus.
    pub fn set_focus(&mut self, d: Direction)
        requires
            old(self)@.wf(),
            old(self).habits.len() > 0,
        ensures
            final(self)@ == old(self)@.set_focus(d),
            final(self)@.wf(),
            final(self).focus < final(self).habits.len(),
    {
        let grid_width = self.config.grid_width;
        let last = self.habits.len() - 1;
        match d {
            Direction::Right => {
                if self.focus != last {
                    self.focus += 1;
                }
            },
            Direction::Left => {
                if self.focus != 0 {
                    self.focus -= 1;
                }
            },
            Direction::Down => {
                if grid_width < last - self.focus {
                    self.focus += grid_width;
                } else {
                    self.focus = last;
                }
            },
            Direction::Up => {
                if self.focus >= grid_width {
                    self.focus -= grid_width;
                } else {
                    self.focus = 0;
                }
            },
            Direction::Stay => {},
        }
    }

    /// What is done today and what is left, over all habits.
    pub fn progress(&self, today: Day) -> (progress: Progress)
        ensures
            progress.completed == self@.completed(today),
            progress.remaining == total_remaining(self@.habits, today),
            progress.completed + progress.remaining == total_goal(self@.habits),
    {
        let n = self.habits.len();
        let ghost views = self@.habits;
        let mut total: u128 = 0;
        let mut remaining: u128 = 0;
        let mut i: usize = 0;
        proof {
            assert(views.take(0) =~= Seq::<HabitView>::empty());
        }
        while i < n
            invariant
                i <= n,
                n == self.habits.len(),
                views == self@.habits,
                total == total_goal(views.take(i as int)),
                remaining == total_remaining(views.take(i as int), today),
                remaining <= total,
                total <= i * 0xffff_ffff,
            decreases n - i,
        {
            let habit = &self.habits[i];
            proof {
                assert(views.take(i + 1).drop_last() =~= views.take(i as int));
                assert(views.take(i + 1).last() == habit@);
            }
            total = total + habit.goal() as u128;
            remaining = remaining + habit.remaining(today) as u128;
            i += 1;
        }
        proof {
            assert(views.take(n as int) =~= views);
        }
        Progress { completed: total - remaining, remaining }
    }

    /// The status readout for `today`, with `stamp` as the date's stamp.
    pub fn status_at(&self, today: Day, stamp: String) -> (line: StatusLine)
        requires
            self@.wf(),
        ensures
            line@ == self@.status(today, stamp@),
    {
        let progress = self.progress(today);
        let mut summary = String::from_str("Today: ");
        push_decimal(&mut summary, progress.completed);
        summary.append(" completed, ");
        push_decimal(&mut summary, progress.remaining);
        summary.append(" remaining --");
        summary.append(self.get_mode().name());
        summary.append("--");
        let timestamp = if self.view_month_offset == 0 {
            stamp
        } else {
            let mut text = String::new();
            push_decimal(&mut text, self.view_month_offset as u128);
            text.append(" months ago");
            assert(text@ =~= self@.timestamp(stamp@));
            text
        };
        StatusLine(summary, timestamp)
    }

    /// The status readout for the day that the system clock gives.
    pub fn status(&self) -> (line: StatusLine)
        requires
            self@.wf(),
        ensures
            exists|today: Day, stamp: Seq<char>|
                is_date_stamp(stamp) && line@ == #[trigger] self@.status(today, stamp),
    {
        let today = utc_today();
        let stamp = local_date_stamp();
        let line = self.status_at(today, stamp);
        assert(is_date_stamp(stamp@) && line@ == self@.status(today, stamp@));
        line
    }

    /// Rows that the habits fill.
    fn rows(&self) -> (rows: usize)
        requires
            self@.config.wf(),
        ensures
            rows == self@.rows(),
    {
        let grid_width = self.config.grid_width;
        let len = self.habits.len();
        let full = len / grid_width;
        if len % grid_width == 0 {
            full
        } else {
            assert(full < len) by (nonlinear_arith)
                requires
                    full == len / grid_width,
                    len % grid_width != 0,
                    grid_width >= 1,
            {
                assert(grid_width >= 2);
                assert(len >= 1);
            }
            full + 1
        }
    }

    /// Width and height that the grid of habits takes on screen.
    pub fn max_size(&self) -> (size: Extent)
        requires
            self@.wf(),
            self@.max_size().0 <= usize::MAX,
            self@.max_size().1 <= usize::MAX,
        ensures
            size.width == self@.max_size().0,
            size.height == self@.max_size().1,
    {
        let grid_width = self.config.grid_width;
        let len = self.habits.len();
        let width = grid_width * self.config.view_width;
        let rows = self.rows();
        assert(self.config.view_height * rows >= 0) by (nonlinear_arith)
            requires
                self.config.view_height >= 0,
                rows >= 0,
        ;
        let height = self.config.view_height * rows;
        Extent { width, height: height + 2 }
    }

    /// Width and height that the grid of habits takes on screen, or nothing
    /// where the state is not well formed or one of the two does not fit in
    /// a machine word.
    pub fn checked_max_size(&self) -> (size: Option<Extent>)
        ensures
            size is Some <==> self@.wf() && self@.max_size().0 <= usize::MAX && self@.max_size().1
                <= usize::MAX,
            size matches Some(extent) ==> extent.width == self@.max_size().0 && extent.height
                == self@.max_size().1,
    {
        if !self.is_well_formed() {
            return None;
        }
        let grid_width = self.config.grid_width;
        let len = self.habits.len();
        let rows = self.rows();
        let fits = match (
            grid_width.checked_mul(self.config.view_width),
            self.config.view_height.checked_mul(rows),
        ) {
            (Some(_), Some(height)) => height <= usize::MAX - 2,
            _ => false,
        };
        if fits {
            Some(self.max_size())
        } else {
            None
        }
    }

    /// The state that is rebuilt from the two stored sequences: the habits
    /// tracked by hand, then those fed from outside; everything else as in a
    /// fresh state.
    pub fn load_state(config: Config, regular: Vec<Habit>, auto: Vec<Habit>) -> (app: App)
        ensures
            app@ == AppView::fresh(config, habit_views(regular@) + habit_views(auto@)),
    {
        let mut habits = regular;
        let mut tail = auto;
        let ghost by_hand = habits@;
        let ghost fed = tail@;
        habits.append(&mut tail);
        let app = App {
            habits,
            focus: 0,
            view_month_offset: 0,
            message: Message::startup(),
            config,
        };
        assert(app@.habits =~= habit_views(by_hand) + habit_views(fed));
        app
    }

    /// The two sequences that are stored: the habits tracked by hand, and
    /// those fed from outside, each in the order in which they stand.
    pub fn save_state(&self) -> (parts: (Vec<&Habit>, Vec<&Habit>))
        ensures
            borrowed_views(parts.0@) == self@.regular_habits(),
            borrowed_views(parts.1@) == self@.auto_habits(),
    {
        let n = self.habits.len();
        let ghost views = self@.habits;
        let ghost by_hand = |habit: HabitView| !habit.auto;
        let ghost fed = |habit: HabitView| habit.auto;
        let mut regular: Vec<&Habit> = Vec::new();
        let mut auto: Vec<&Habit> = Vec::new();
        let mut i: usize = 0;
        proof {
            views.take(0).lemma_filter_len(by_hand);
            views.take(0).lemma_filter_len(fed);
            assert(borrowed_views(regular@) =~= views.take(0).filter(by_hand));
            assert(borrowed_views(auto@) =~= views.take(0).filter(fed));
        }
        while i < n
            invariant
                i <= n,
                n == self.habits.len(),
                views == self@.habits,
                by_hand == |habit: HabitView| !habit.auto,
                fed == |habit: HabitView| habit.auto,
                borrowed_views(regular@) == views.take(i as int).filter(by_hand),
                borrowed_views(auto@) == views.take(i as int).filter(fed),
            decreases n - i,
        {
            let habit = &self.habits[i];
            proof {
                assert(views.take(i + 1) =~= views.take(i as int).push(habit@));
                Seq::lemma_filter_push(views.take(i as int), habit@, by_hand);
                Seq::lemma_filter_push(views.take(i as int), habit@, fed);
            }
            if habit.is_auto() {
                proof {
                    assert(borrowed_views(auto@.push(habit)) =~= borrowed_views(auto@).push(
                        habit@,
                    ));
                }
                auto.push(habit);
            } else {
                proof {
                    assert(borrowed_views(regular@.push(habit)) =~= borrowed_views(
                        regular@,
                    ).push(habit@));
                }
                regular.push(habit);
            }
            i += 1;
        }
        proof {
            assert(views.take(n as int) =~= views);
        }
        (regular, auto)
    }

    /// Position of the first habit that is called `name` and fed from
    /// outside.
    fn find_auto(&self, name: &str) -> (found: Option<usize>)
        ensures
            match found {
                Some(i) => i < self.habits.len() && i == first_auto_named(self@.habits, name@),
                None => first_auto_named(self@.habits, name@) == self.habits.len(),
            },
    {
        let n = self.habits.len();
        let ghost views = self@.habits;
        let mut i: usize = 0;
        while i < n
            invariant
                i <= n,
                n == self.habits.len(),
                views == self@.habits,
                forall|k: int|
                    0 <= k < i ==> !((#[trigger] views[k]).name == name@ && views[k].auto),
            decreases n - i,
        {
            let habit = &self.habits[i];
            if habit.is_auto() && str_eq(habit.name(), name) {
                proof {
                    lemma_first_auto_named(views, name@, i as int);
                }
                return Some(i);
            }
            i += 1;
        }
        proof {
            lemma_first_auto_named(views, name@, n as int);
        }
        None
    }

    /// Records `event` on `today` for the first habit that is called `name`
    /// and fed from outside; does nothing where there is none.
    fn track(&mut self, name: &str, today: Day, event: TrackEvent)
        ensures
            final(self)@ == old(self)@.track(name@, today, event),
    {
        match self.find_auto(name) {
            Some(i) => {
                self.habits[i].modify(today, event);
                assert(final(self)@.habits =~= old(self)@.track(name@, today, event).habits);
            },
            None => {},
        }
    }

    /// Applies the interpreter's result, with `today` as the day that
    /// tracking commands act on.
    pub fn apply_command(&mut self, result: Result<Command, CommandLineError>, today: Day) -> (action:
        Action)
        requires
            old(self)@.wf(),
            can_apply(old(self)@, result_view(result)),
        ensures
            final(self)@ == old(self)@.apply(result_view(result), today),
            action == action_for(result_view(result)),
            final(self)@.wf(),
    {
        match result {
            Ok(Command::Add(name, goal, auto)) => {
                let habit = match goal {
                    Some(goal) => if goal == 1 {
                        Habit::Bit(Bit::new(name, auto))
                    } else {
                        Habit::Count(Count::new(name, goal, auto))
                    },
                    None => Habit::Bit(Bit::new(name, auto)),
                };
                self.add_habit(habit);
                Action::Proceed
            },
            Ok(Command::Delete(name)) => {
                self.delete_by_name(name.as_str());
                self.focus = 0;
                Action::Proceed
            },
            Ok(Command::TrackUp(name)) => {
                self.track(name.as_str(), today, TrackEvent::Increment);
                Action::Proceed
            },
            Ok(Command::TrackDown(name)) => {
                self.track(name.as_str(), today, TrackEvent::Decrement);
                Action::Proceed
            },
            Ok(Command::Quit) => Action::Persist,
            Ok(Command::MonthNext) => {
                self.sift_forward();
                Action::Proceed
            },
            Ok(Command::MonthPrev) => {
                self.sift_backward();
                Action::Proceed
            },
            Ok(Command::SetName(name)) => {
                if self.habits.len() == 0 {
                    self.message.set_message(
                        String::from_str("Can't call command `set` on empty habit list!"),
                    );
                    self.message.set_kind(MessageKind::Error);
                } else {
                    let focus = self.focus;
                    self.habits[focus].set_name(name);
                    assert(final(self)@.habits =~= old(self)@.set_name(name@).habits);
                }
                Action::Proceed
            },
            Ok(Command::SetGoal(_)) => Action::Proceed,
            Ok(Command::Blank) => Action::Proceed,
            Err(e) => {
                self.message.set_message(e.message());
                self.message.set_kind(MessageKind::Error);
                Action::Proceed
            },
        }
    }

    /// Applies the interpreter's result on the day that the system clock
    /// gives.
    pub fn parse_command(&mut self, result: Result<Command, CommandLineError>) -> (action: Action)
        requires
            old(self)@.wf(),
            can_apply(old(self)@, result_view(result)),
        ensures
            exists|today: Day| final(self)@ == #[trigger] old(self)@.apply(result_view(result), today),
            action == action_for(result_view(result)),
            final(self)@.wf(),
    {
        let today = utc_today();
        self.apply_command(result, today)
    }
}

} // verus!

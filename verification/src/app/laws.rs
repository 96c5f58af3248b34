//! Laws of the application state, stated over its mathematical value.

use vstd::prelude::*;
use crate::app::model::{
    auto_part, first_auto_named, moved_focus, regular_part, reloaded, total_goal,
    total_remaining,
};
use crate::app::{AppView, Direction, MessageKind};
use crate::command::{CommandView, ErrorView};
use crate::habit::{Day, HabitView, TrackEvent};

verus! {

/// What is left today is never more than the goals together.
pub proof fn lemma_remaining_within_goal(habits: Seq<HabitView>, day: Day)
    ensures
        total_remaining(habits, day) <= total_goal(habits),
    decreases habits.len(),
{
    if habits.len() > 0 {
        lemma_remaining_within_goal(habits.drop_last(), day);
    }
}

/// What is done and what is left add up to the sum of the goals, in every
/// state and on every day.
pub proof fn lemma_progress_adds_up(app: AppView, today: Day)
    ensures
        app.completed(today) + total_remaining(app.habits, today) == total_goal(app.habits),
{
    lemma_remaining_within_goal(app.habits, today);
}

/// The rows of the grid are the number of habits divided by the width and
/// rounded up: the least number of rows that holds them all.
pub proof fn lemma_rows_is_ceiling(app: AppView)
    requires
        app.config.wf(),
    ensures
        app.rows() * app.config.grid_width >= app.habits.len(),
        (app.rows() - 1) * app.config.grid_width < app.habits.len() || app.habits.len() == 0,
        app.habits.len() == 0 ==> app.rows() == 0,
{
    let len = app.habits.len() as int;
    let width = app.config.grid_width as int;
    let rows = app.rows();
    assert(rows * width >= len && ((rows - 1) * width < len || len == 0) && (len == 0 ==> rows
        == 0)) by (nonlinear_arith)
        requires
            width >= 1,
            len >= 0,
            rows == len / width + if len % width == 0 {
                0int
            } else {
                1int
            },
    {
        assert(len == width * (len / width) + len % width);
        assert(0 <= len % width < width);
    }
}

proof fn lemma_filter_keeps_all<A>(s: Seq<A>, pred: spec_fn(A) -> bool)
    requires
        forall|i: int| 0 <= i < s.len() ==> pred(#[trigger] s[i]),
    ensures
        s.filter(pred) == s,
    decreases s.len(),
{
    if s.len() == 0 {
        s.lemma_filter_len(pred);
        assert(s.filter(pred) =~= s);
    } else {
        let init = s.drop_last();
        lemma_filter_keeps_all(init, pred);
        assert(s =~= init.push(s.last()));
        Seq::lemma_filter_push(init, s.last(), pred);
    }
}

proof fn lemma_filter_of_full_length<A>(s: Seq<A>, pred: spec_fn(A) -> bool)
    requires
        s.filter(pred).len() == s.len(),
    ensures
        s.filter(pred) == s,
        forall|i: int| 0 <= i < s.len() ==> pred(#[trigger] s[i]),
    decreases s.len(),
{
    if s.len() == 0 {
        assert(s.filter(pred) =~= s);
    } else {
        let init = s.drop_last();
        assert(s =~= init.push(s.last()));
        Seq::lemma_filter_push(init, s.last(), pred);
        init.lemma_filter_len(pred);
        lemma_filter_of_full_length(init, pred);
        assert forall|i: int| 0 <= i < s.len() implies pred(#[trigger] s[i]) by {
            if i < init.len() {
                assert(s[i] == init[i]);
            }
        }
    }
}

proof fn lemma_filter_drops_all<A>(s: Seq<A>, pred: spec_fn(A) -> bool)
    requires
        forall|i: int| 0 <= i < s.len() ==> !pred(#[trigger] s[i]),
    ensures
        s.filter(pred) == Seq::<A>::empty(),
    decreases s.len(),
{
    if s.len() == 0 {
        s.lemma_filter_len(pred);
        assert(s.filter(pred) =~= Seq::<A>::empty());
    } else {
        let init = s.drop_last();
        lemma_filter_drops_all(init, pred);
        assert(s =~= init.push(s.last()));
        Seq::lemma_filter_push(init, s.last(), pred);
    }
}

proof fn lemma_parts_hold_every_habit(habits: Seq<HabitView>)
    ensures
        regular_part(habits).to_multiset().add(auto_part(habits).to_multiset())
            == habits.to_multiset(),
    decreases habits.len(),
{
    broadcast use vstd::multiset::group_multiset_axioms;

    let by_hand = |habit: HabitView| !habit.auto;
    let fed = |habit: HabitView| habit.auto;
    if habits.len() == 0 {
        habits.lemma_filter_len(by_hand);
        habits.lemma_filter_len(fed);
        assert(regular_part(habits) =~= habits);
        assert(auto_part(habits) =~= habits);
        assert(habits.to_multiset().add(habits.to_multiset()) =~= habits.to_multiset()) by {
            habits.to_multiset_ensures();
        }
    } else {
        let init = habits.drop_last();
        let last = habits.last();
        lemma_parts_hold_every_habit(init);
        assert(habits =~= init.push(last));
        Seq::lemma_filter_push(init, last, by_hand);
        Seq::lemma_filter_push(init, last, fed);
        vstd::seq_lib::to_multiset_build(init, last);
        vstd::seq_lib::to_multiset_build(regular_part(init), last);
        vstd::seq_lib::to_multiset_build(auto_part(init), last);
        assert(regular_part(habits).to_multiset().add(auto_part(habits).to_multiset())
            =~= habits.to_multiset());
    }
}

/// Storing a state and loading it again gives back the same habits, each as
/// often as before and unchanged: those tracked by hand first, then those
/// fed from outside, each group in its old order. Storing what was loaded
/// gives the same two documents again.
pub proof fn lemma_reload_keeps_habits(habits: Seq<HabitView>)
    ensures
        reloaded(habits).to_multiset() == habits.to_multiset(),
        reloaded(habits).len() == habits.len(),
        regular_part(reloaded(habits)) == regular_part(habits),
        auto_part(reloaded(habits)) == auto_part(habits),
        reloaded(reloaded(habits)) == reloaded(habits),
{
    let by_hand = |habit: HabitView| !habit.auto;
    let fed = |habit: HabitView| habit.auto;
    let regular = regular_part(habits);
    let auto = auto_part(habits);
    lemma_parts_hold_every_habit(habits);
    vstd::seq_lib::lemma_multiset_commutative(regular, auto);
    habits.to_multiset_ensures();
    reloaded(habits).to_multiset_ensures();
    assert forall|i: int| 0 <= i < regular.len() implies by_hand(#[trigger] regular[i]) by {
        habits.lemma_filter_pred(by_hand, i);
    }
    assert forall|i: int| 0 <= i < auto.len() implies fed(#[trigger] auto[i]) by {
        habits.lemma_filter_pred(fed, i);
    }
    lemma_filter_keeps_all(regular, by_hand);
    lemma_filter_drops_all(regular, fed);
    lemma_filter_keeps_all(auto, fed);
    lemma_filter_drops_all(auto, by_hand);
    Seq::filter_distributes_over_add(regular, auto, by_hand);
    Seq::filter_distributes_over_add(regular, auto, fed);
    assert(regular + Seq::<HabitView>::empty() =~= regular);
    assert(Seq::<HabitView>::empty() + auto =~= auto);
}

/// Where no habit fed from outside stands before one tracked by hand,
/// storing and loading gives back the very sequence.
pub proof fn lemma_reload_keeps_order(habits: Seq<HabitView>)
    requires
        forall|i: int, j: int|
            0 <= i < j < habits.len() && (#[trigger] habits[i]).auto ==> (
            #[trigger] habits[j]).auto,
    ensures
        reloaded(habits) == habits,
    decreases habits.len(),
{
    let by_hand = |habit: HabitView| !habit.auto;
    let fed = |habit: HabitView| habit.auto;
    if habits.len() == 0 {
        habits.lemma_filter_len(by_hand);
        habits.lemma_filter_len(fed);
        assert(reloaded(habits) =~= habits);
    } else {
        let init = habits.drop_last();
        let last = habits.last();
        assert(habits =~= init.push(last));
        Seq::lemma_filter_push(init, last, by_hand);
        Seq::lemma_filter_push(init, last, fed);
        if last.auto {
            assert forall|i: int, j: int|
                0 <= i < j < init.len() && (#[trigger] init[i]).auto implies (
            #[trigger] init[j]).auto by {
                assert(init[i] == habits[i] && init[j] == habits[j]);
            }
            lemma_reload_keeps_order(init);
            assert(regular_part(init) + auto_part(init).push(last) =~= (regular_part(init)
                + auto_part(init)).push(last));
        } else {
            assert forall|i: int| 0 <= i < init.len() implies by_hand(#[trigger] init[i]) by {
                assert(init[i] == habits[i]);
                assert(last == habits[habits.len() - 1]);
            }
            lemma_filter_keeps_all(init, by_hand);
            lemma_filter_drops_all(init, fed);
            assert(init.push(last) + Seq::<HabitView>::empty() =~= init.push(last));
        }
    }
}

/// A move from a habit ends on a habit: the focus never goes below 0 nor
/// beyond the last habit.
pub proof fn lemma_moved_focus_in_range(focus: int, len: int, grid_width: int, d: Direction)
    requires
        0 <= focus < len,
        grid_width >= 0,
    ensures
        0 <= moved_focus(focus, len, grid_width, d) <= len - 1,
{
}

/// Whatever moves are made from a well-formed state with habits, and in
/// whatever order, the focus stays on a habit.
pub proof fn lemma_focus_stays_in_range(app: AppView, moves: Seq<Direction>)
    requires
        app.wf(),
        app.habits.len() > 0,
    ensures
        app.after_moves(moves).wf(),
        0 <= app.after_moves(moves).focus <= app.habits.len() - 1,
        app.after_moves(moves).habits == app.habits,
        app.after_moves(moves).config == app.config,
    decreases moves.len(),
{
    if moves.len() > 0 {
        lemma_focus_stays_in_range(app, moves.drop_last());
        let before = app.after_moves(moves.drop_last());
        lemma_moved_focus_in_range(
            before.focus as int,
            before.habits.len() as int,
            before.config.grid_width as int,
            moves.last(),
        );
    }
}

/// Going down from the last row ends on the last habit, whatever the
/// width of the grid.
pub proof fn lemma_down_from_last_row(focus: int, len: int, grid_width: int)
    requires
        0 <= focus < len,
        grid_width >= 1,
        focus / grid_width == (len - 1) / grid_width,
    ensures
        moved_focus(focus, len, grid_width, Direction::Down) == len - 1,
{
    let row = focus / grid_width;
    assert(focus + grid_width > len - 1) by (nonlinear_arith)
        requires
            0 <= focus < len,
            grid_width >= 1,
            focus / grid_width == (len - 1) / grid_width,
    {
        let row = focus / grid_width;
        assert(focus == grid_width * row + focus % grid_width);
        assert(len - 1 == grid_width * row + (len - 1) % grid_width);
        assert(0 <= focus % grid_width);
        assert((len - 1) % grid_width < grid_width);
    }
}

/// The first habit that is called `name` and fed from outside stands at
/// `i` where the habit there is one and none before it is; where `i` is the
/// number of habits, there is none.
pub proof fn lemma_first_auto_named(habits: Seq<HabitView>, name: Seq<char>, i: int)
    requires
        0 <= i <= habits.len(),
        forall|k: int| 0 <= k < i ==> !((#[trigger] habits[k]).name == name && habits[k].auto),
        i == habits.len() || (habits[i].name == name && habits[i].auto),
    ensures
        first_auto_named(habits, name) == i,
    decreases i,
{
    if i > 0 {
        let rest = habits.drop_first();
        assert forall|k: int| 0 <= k < i - 1 implies !((#[trigger] rest[k]).name == name
            && rest[k].auto) by {
            assert(rest[k] == habits[k + 1]);
        }
        lemma_first_auto_named(rest, name, i - 1);
    }
}

/// After a deletion no habit bears the name, the habits of other names
/// stand as before, and the focus has not moved. The message line reports
/// the deletion as failed exactly where no habit bore the name.
pub proof fn lemma_delete_leaves_no_match(app: AppView, name: Seq<char>)
    ensures
        forall|i: int|
            0 <= i < app.delete_by_name(name).habits.len() ==> (
            #[trigger] app.delete_by_name(name).habits[i]).name != name,
        app.delete_by_name(name).habits.len() <= app.habits.len(),
        app.delete_by_name(name).focus == app.focus,
        (forall|i: int| 0 <= i < app.habits.len() ==> (#[trigger] app.habits[i]).name != name)
            <==> app.delete_by_name(name).habits == app.habits,
        app.delete_by_name(name).habits.len() == app.habits.len() <==> app.delete_by_name(
            name,
        ).habits == app.habits,
{
    let differs = |habit: HabitView| habit.name != name;
    let kept = app.without_name(name);
    app.habits.lemma_filter_len(differs);
    assert forall|i: int| 0 <= i < kept.len() implies (#[trigger] kept[i]).name != name by {
        app.habits.lemma_filter_pred(differs, i);
    }
    if forall|i: int| 0 <= i < app.habits.len() ==> (#[trigger] app.habits[i]).name != name {
        lemma_filter_keeps_all(app.habits, differs);
    }
    if kept.len() == app.habits.len() {
        lemma_filter_of_full_length(app.habits, differs);
    }
}

/// Setting the month offset reaches the state and every habit alike, and
/// one step back followed by one step forward ends where it began.
pub proof fn lemma_offset_mirrored(app: AppView, offset: u32)
    ensures
        app.set_view_month_offset(offset).view_month_offset == offset,
        app.set_view_month_offset(offset).habits.len() == app.habits.len(),
        forall|i: int|
            0 <= i < app.habits.len() ==> (#[trigger] app.set_view_month_offset(
                offset,
            ).habits[i]) == app.habits[i].with_view_month_offset(offset),
        app.view_month_offset < u32::MAX ==> app.sift_backward().sift_forward()
            == app.set_view_month_offset(app.view_month_offset),
        app.view_month_offset == 0 ==> app.sift_forward() == app,
{
    if app.view_month_offset < u32::MAX {
        let back = app.sift_backward();
        assert(back.sift_forward().habits =~= app.set_view_month_offset(
            app.view_month_offset,
        ).habits);
    }
}

/// Emptying the message line twice is the same as emptying it once.
pub proof fn lemma_clear_message_idempotent(app: AppView)
    ensures
        app.clear_message().clear_message() == app.clear_message(),
{
}

/// Tracking a name that no habit fed from outside bears changes nothing,
/// also where a habit tracked by hand bears it.
pub proof fn lemma_track_without_target(
    app: AppView,
    name: Seq<char>,
    today: Day,
    event: TrackEvent,
)
    requires
        forall|i: int|
            0 <= i < app.habits.len() ==> !((#[trigger] app.habits[i]).name == name
                && app.habits[i].auto),
    ensures
        app.track(name, today, event) == app,
        app.apply(Ok(CommandView::TrackUp(name)), today) == app,
        app.apply(Ok(CommandView::TrackDown(name)), today) == app,
{
    lemma_first_auto_named(app.habits, name, app.habits.len() as int);
}

/// Tracking reaches the first habit of the name that is fed from outside,
/// and no other habit.
pub proof fn lemma_track_first_match(
    app: AppView,
    name: Seq<char>,
    today: Day,
    event: TrackEvent,
    i: int,
)
    requires
        0 <= i < app.habits.len(),
        app.habits[i].name == name && app.habits[i].auto,
        forall|k: int|
            0 <= k < i ==> !((#[trigger] app.habits[k]).name == name && app.habits[k].auto),
    ensures
        app.track(name, today, event).habits == app.habits.update(
            i,
            app.habits[i].modified(today, event),
        ),
{
    lemma_first_auto_named(app.habits, name, i);
}

/// A parse error changes nothing but the message line, which then shows
/// the error's text as an error.
pub proof fn lemma_error_sets_message(app: AppView, e: ErrorView, today: Day)
    ensures
        app.apply(Err(e), today).message.text == e.message(),
        app.apply(Err(e), today).message.kind == MessageKind::Error,
        app.apply(Err(e), today).habits == app.habits,
        app.apply(Err(e), today).focus == app.focus,
        app.apply(Err(e), today).view_month_offset == app.view_month_offset,
{
}

/// Every result of the interpreter takes a well-formed state to a
/// well-formed state, and deleting puts the focus back at 0.
pub proof fn lemma_apply_keeps_wf(app: AppView, result: Result<CommandView, ErrorView>, today: Day)
    requires
        app.wf(),
    ensures
        app.apply(result, today).wf(),
        result matches Ok(CommandView::Delete(_)) ==> app.apply(result, today).focus == 0,
{
}

} // verus!

use dijo::habit::{Bit, Count, Habit, HabitKind, TrackEvent, ViewMode};

fn count(goal: u32) -> Habit {
    Habit::Count(Count::new("coffee".to_string(), goal, false))
}

fn bit() -> Habit {
    Habit::Bit(Bit::new("water".to_string(), true))
}

#[test]
fn fresh_habits() {
    let c = count(3);
    assert_eq!(c.kind(), HabitKind::Count);
    assert_eq!(c.name(), "coffee");
    assert_eq!(c.goal(), 3);
    assert!(!c.is_auto());
    assert_eq!(c.view_mode(), ViewMode::Day);
    assert_eq!(c.remaining(738_000), 3);
    let b = bit();
    assert_eq!(b.kind(), HabitKind::Bit);
    assert_eq!(b.name(), "water");
    assert_eq!(b.goal(), 1);
    assert!(b.is_auto());
    assert_eq!(b.remaining(738_000), 1);
}

#[test]
fn count_moves_by_one_within_its_goal() {
    let mut c = count(3);
    let day = 738_000;
    c.modify(day, TrackEvent::Increment);
    assert_eq!(c.remaining(day), 2);
    c.modify(day, TrackEvent::Increment);
    assert_eq!(c.remaining(day), 1);
    c.modify(day, TrackEvent::Increment);
    assert_eq!(c.remaining(day), 0);
    c.modify(day, TrackEvent::Increment);
    assert_eq!(c.remaining(day), 0);
    c.modify(day, TrackEvent::Decrement);
    assert_eq!(c.remaining(day), 1);
    c.modify(day, TrackEvent::Decrement);
    c.modify(day, TrackEvent::Decrement);
    assert_eq!(c.remaining(day), 3);
    c.modify(day, TrackEvent::Decrement);
    assert_eq!(c.remaining(day), 3);
    match &c {
        Habit::Count(inner) => assert_eq!(inner.stats.get(&day), Some(&0)),
        Habit::Bit(_) => panic!("variant changed"),
    }
}

#[test]
fn count_tally_never_passes_the_goal() {
    let mut c = count(2);
    for _ in 0..5 {
        c.modify(1, TrackEvent::Increment);
    }
    match &c {
        Habit::Count(inner) => assert_eq!(inner.stats.get(&1), Some(&2)),
        Habit::Bit(_) => panic!("variant changed"),
    }
    c.modify(1, TrackEvent::Decrement);
    assert_eq!(c.remaining(1), 1);
}

#[test]
fn count_with_a_tally_above_its_goal_is_brought_back() {
    let mut inner = Count::new("coffee".to_string(), 2, false);
    inner.stats.insert(5, 9);
    let mut c = Habit::Count(inner);
    assert_eq!(c.remaining(5), 0);
    c.modify(5, TrackEvent::Decrement);
    assert_eq!(c.remaining(5), 0);
    c.modify(5, TrackEvent::Decrement);
    assert_eq!(c.remaining(5), 1);
    let mut inner = Count::new("coffee".to_string(), 2, false);
    inner.stats.insert(5, u32::MAX);
    let mut c = Habit::Count(inner);
    c.modify(5, TrackEvent::Increment);
    assert_eq!(c.remaining(5), 0);
    c.modify(5, TrackEvent::Decrement);
    assert_eq!(c.remaining(5), 1);
}

#[test]
fn count_with_goal_zero() {
    let mut c = count(0);
    assert_eq!(c.remaining(1), 0);
    c.modify(1, TrackEvent::Increment);
    assert_eq!(c.remaining(1), 0);
    c.modify(1, TrackEvent::Decrement);
    assert_eq!(c.remaining(1), 0);
}

#[test]
fn bit_has_no_partial_state() {
    let mut b = bit();
    let day = -3;
    b.modify(day, TrackEvent::Increment);
    assert_eq!(b.remaining(day), 0);
    b.modify(day, TrackEvent::Increment);
    assert_eq!(b.remaining(day), 0);
    b.modify(day, TrackEvent::Decrement);
    assert_eq!(b.remaining(day), 1);
    b.modify(day, TrackEvent::Decrement);
    assert_eq!(b.remaining(day), 1);
    assert_eq!(b.goal(), 1);
}

#[test]
fn days_are_kept_apart() {
    let mut c = count(3);
    c.modify(10, TrackEvent::Increment);
    c.modify(11, TrackEvent::Increment);
    c.modify(11, TrackEvent::Increment);
    assert_eq!(c.remaining(9), 3);
    assert_eq!(c.remaining(10), 2);
    assert_eq!(c.remaining(11), 1);
    assert_eq!(c.remaining(i32::MIN), 3);
    assert_eq!(c.remaining(i32::MAX), 3);
}

#[test]
fn remaining_stays_within_the_goal() {
    for goal in [0u32, 1, 2, 5, u32::MAX] {
        let mut c = count(goal);
        for step in 0..12 {
            let event = if step % 3 == 2 { TrackEvent::Decrement } else { TrackEvent::Increment };
            c.modify(7, event);
            assert!(c.remaining(7) <= goal);
            assert_eq!(c.goal(), goal);
        }
    }
    let mut b = bit();
    for step in 0..6 {
        let event = if step % 2 == 0 { TrackEvent::Increment } else { TrackEvent::Decrement };
        b.modify(7, event);
        assert!(b.remaining(7) <= 1);
    }
}

#[test]
fn renaming_and_presentation() {
    let mut c = count(3);
    c.modify(1, TrackEvent::Increment);
    c.set_name("tea".to_string());
    assert_eq!(c.name(), "tea");
    assert_eq!(c.remaining(1), 2);
    c.set_view_mode(ViewMode::Month);
    assert_eq!(c.view_mode(), ViewMode::Month);
    c.set_view_month_offset(4);
    match &c {
        Habit::Count(inner) => {
            assert_eq!(inner.view_month_offset, 4);
            assert_eq!(inner.goal, 3);
            assert!(!inner.auto);
        }
        Habit::Bit(_) => panic!("variant changed"),
    }
    let mut b = bit();
    b.set_name("juice".to_string());
    b.set_view_mode(ViewMode::Month);
    b.set_view_month_offset(2);
    match &b {
        Habit::Bit(inner) => {
            assert_eq!(inner.name, "juice");
            assert_eq!(inner.view_mode, ViewMode::Month);
            assert_eq!(inner.view_month_offset, 2);
            assert!(inner.auto);
        }
        Habit::Count(_) => panic!("variant changed"),
    }
}

#[test]
fn view_mode_names() {
    assert_eq!(ViewMode::Day.name(), "DAY");
    assert_eq!(ViewMode::Month.name(), "MONTH");
}

use life_sim::family::birth;
use life_sim::family::birth_second;
use life_sim::family::birth_second_step;
use life_sim::family::birth_step;
use life_sim::family::families_with_girls;
use life_sim::family::total_children;
use life_sim::family::try_birth_second_step;
use life_sim::family::try_birth_step;
use life_sim::family::Round;

#[test]
fn a_boy_ends_the_family() {
    assert_eq!(birth_step((0, 0), true), Round::Done(1, 0));
    assert_eq!(birth_step((0, 3), false), Round::Continue(0, 4));
    assert_eq!(birth_second_step((0, 2), true, false), Round::Done(1, 2));
    assert_eq!(birth_second_step((0, 2), false, true), Round::Continue(0, 2));
    assert_eq!(birth_second_step((0, 2), false, false), Round::Continue(0, 3));
}

#[test]
fn every_family_has_exactly_one_boy() {
    for _ in 0..200 {
        let (b, g) = birth().unwrap();
        assert_eq!(b, 1);
        assert!(g >= 0);
        let (b, g) = birth_second().unwrap();
        assert_eq!(b, 1);
        assert!(g >= 0);
    }
}

#[test]
fn a_full_tally_only_stops_the_child_it_would_overflow() {
    assert_eq!(birth_step((0, i32::MAX), true), Round::Done(1, i32::MAX));
    assert_eq!(birth_step((i32::MAX, 0), false), Round::Continue(i32::MAX, 1));
    assert_eq!(birth_second_step((0, i32::MAX), false, true), Round::Continue(0, i32::MAX));
}

#[test]
fn totals_are_summed_in_order() {
    let child = vec![(0, 0), (1, 2), (1, 0), (1, 5)];
    assert_eq!(total_children(&child), Some((3, 7)));
    assert_eq!(total_children(&vec![]), Some((0, 0)));
    assert_eq!(total_children(&vec![(i32::MAX, 0), (1, 0)]), None);
    assert_eq!(total_children(&vec![(0, i32::MIN), (0, -1)]), None);
    assert_eq!(total_children(&vec![(i32::MAX, 0), (-1, 0), (1, 0)]), Some((i32::MAX, 0)));
}

#[test]
fn families_with_more_than_one_girl_are_kept_in_order() {
    let child = vec![(0, 0), (1, 2), (1, 1), (1, 5), (1, 0), (1, 2)];
    assert_eq!(families_with_girls(&child), vec![(1, 2), (1, 5), (1, 2)]);
    assert_eq!(families_with_girls(&vec![(1, 0), (1, 1)]), vec![]);
}

#[test]
fn a_checked_step_refuses_only_the_child_without_room() {
    assert_eq!(try_birth_step((0, 3), false), Some(Round::Continue(0, 4)));
    assert_eq!(try_birth_step((0, i32::MAX), false), None);
    assert_eq!(try_birth_step((0, i32::MAX), true), Some(Round::Done(1, i32::MAX)));
    assert_eq!(try_birth_step((i32::MAX, 0), true), None);
    assert_eq!(try_birth_second_step((0, i32::MAX), false, true), Some(Round::Continue(0, i32::MAX)));
    assert_eq!(try_birth_second_step((0, i32::MAX), false, false), None);
    assert_eq!(try_birth_second_step((0, 5), true, false), Some(Round::Done(1, 5)));
}

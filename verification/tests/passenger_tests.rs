use elevator_lib::entity::Entity;
use elevator_lib::human::{Gender, Human, HumanGroup, BOARDING_TIME_PER_PERSON_MS};

fn person(weight: u32, area: u32, destination: usize) -> Human {
    Human::new(30, Gender::Female, weight, area, destination)
}

#[test]
fn human_starts_unwaited_and_unboarded() {
    let h = Human::new(42, Gender::Male, 81_500, 5000, 3);
    assert_eq!(h.get_age(), 42);
    assert_eq!(h.get_gender(), Gender::Male);
    assert_eq!(h.get_weight(), 81_500);
    assert_eq!(h.get_area(), 5000);
    assert_eq!(h.get_destination(), 3);
    assert_eq!(h.get_queue_wait(), 0);
    assert!(!h.is_boarded());
    assert_eq!(h.calculate_boarding_time(), 2000);
}

#[test]
fn human_wait_saturates() {
    let mut h = person(1, 1, 0);
    h.increase_wait_time(1500);
    h.increase_wait_time(250);
    assert_eq!(h.get_queue_wait(), 1750);
    assert_eq!(h.get_transport_wait(), 1750);
    h.increase_wait_time(u64::MAX);
    assert_eq!(h.get_queue_wait(), u64::MAX);
    h.board();
    assert!(h.is_boarded());
}

#[test]
fn group_sums_and_means() {
    let mut g = HumanGroup::new(vec![person(70_000, 100, 4), person(55_000, 200, 9)]);
    assert_eq!(g.len(), 2);
    assert_eq!(g.get_weight(), 125_000);
    assert_eq!(g.get_area(), 300);
    // the group goes where its first member goes
    assert_eq!(g.get_destination(), 4);
    assert_eq!(g.calculate_boarding_time(), 2 * BOARDING_TIME_PER_PERSON_MS);
    g.increase_wait_time(1001);
    assert_eq!(g.member(0).get_queue_wait(), 1001);
    assert_eq!(g.member(1).get_queue_wait(), 1001);
    assert_eq!(g.get_queue_wait(), 1001);
    g.board();
    assert!(g.member(0).is_boarded() && g.member(1).is_boarded());
}

#[test]
fn group_mean_wait_rounds_down() {
    let mut a = person(1, 1, 0);
    a.increase_wait_time(3);
    let b = person(1, 1, 0);
    let g = HumanGroup::new(vec![a, b]);
    assert_eq!(g.get_queue_wait(), 1);
    assert_eq!(g.get_transport_wait(), 1);
}

#[test]
fn entity_delegates_to_person_and_group() {
    let mut single = Entity::Person(person(80_000, 5000, 2));
    assert_eq!(single.get_weight(), 80_000);
    assert_eq!(single.get_area(), 5000);
    assert_eq!(single.people(), 1);
    assert_eq!(single.calculate_boarding_time(), 2000);
    single.increase_wait_time(10);
    assert_eq!(single.get_queue_wait(), 10);

    let group = Entity::Group(HumanGroup::new(vec![person(1, 2, 7), person(3, 4, 7), person(5, 6, 7)]));
    assert_eq!(group.get_weight(), 9);
    assert_eq!(group.get_area(), 12);
    assert_eq!(group.get_destination(), 7);
    assert_eq!(group.people(), 3);
    assert_eq!(group.calculate_boarding_time(), 6000);
    let copy = group.clone_box();
    assert_eq!(copy.get_weight(), 9);
    assert_eq!(copy.get_destination(), 7);
}

use elevator_lib::direction::{call_code, call_codes, Direction};
use elevator_lib::state_space::SystemState;
use elevator_lib::entity::Entity;
use elevator_lib::human::{Gender, Human};
use elevator_lib::queue::Queue;

fn going_to(destination: usize) -> Entity {
    Entity::Person(Human::new(30, Gender::Male, 70_000, 5000, destination))
}

#[test]
fn new_queue_is_empty() {
    let q = Queue::new(4);
    assert_eq!(q.len(), 4);
    assert_eq!(q.get_floor_count(), 4);
    assert!(q.is_empty());
    assert!(q.is_floor_empty(3));
    assert!(q.wait_times().is_empty());
}

#[test]
fn add_then_remove_gives_the_passenger_back() {
    let mut q = Queue::new(3);
    q.add(1, going_to(2));
    q.add(1, going_to(0));
    assert!(!q.is_empty());
    assert_eq!(q.floor_len(1), 2);
    assert_eq!(q.get(1, 1).get_destination(), 0);
    q.update_wait_time(400);
    let removed = q.remove(1, 1).unwrap();
    assert_eq!(removed.get_destination(), 0);
    assert_eq!(q.floor_len(1), 1);
    assert_eq!(q.wait_times(), &vec![400]);
    assert!(q.remove(0, 5).is_none());
    assert_eq!(q.wait_times().len(), 1);
}

#[test]
fn call_buttons_follow_first_passenger_leaving() {
    let mut q = Queue::new(4);
    // floor 1: a passenger already there, then one going down, then one going up
    q.add(1, going_to(1));
    q.add(1, going_to(0));
    q.add(1, going_to(3));
    // floor 2: going up
    q.add(2, going_to(3));
    // floor 3: only passengers at their destination
    q.add(3, going_to(3));
    let calls = q.call_buttons();
    assert_eq!(calls, vec![Direction::NoCall, Direction::Down, Direction::Up, Direction::NoCall]);
}

#[test]
fn call_codes_for_python() {
    assert_eq!(call_code(Direction::Up), Some(1));
    assert_eq!(call_code(Direction::Down), Some(-1));
    assert_eq!(call_code(Direction::Both), Some(0));
    assert_eq!(call_code(Direction::NoCall), None);
    let codes = call_codes(&vec![Direction::Down, Direction::NoCall, Direction::Up]);
    assert_eq!(codes, vec![Some(-1), None, Some(1)]);
}

#[test]
fn parse_calls_splits_directions() {
    let (up, down) = SystemState::parse_calls(vec![Direction::Up, Direction::Down, Direction::Both, Direction::NoCall]);
    assert_eq!(up, vec![true, false, true, false]);
    assert_eq!(down, vec![false, true, true, false]);
}

#[test]
fn passengers_change_in_place() {
    let mut q = Queue::new(3);
    q.add(2, going_to(0));
    q.get_mut(2, 0).increase_wait_time(250);
    assert_eq!(q.get(2, 0).get_queue_wait(), 250);
    q.get_floor_queue_mut(2).push(going_to(1));
    assert_eq!(q.floor_len(2), 2);
    assert_eq!(q.get(2, 1).get_destination(), 1);
    assert_eq!(q.get_floor_queue(2).len(), 2);
}

use elevator_lib::evolution::generation_plan;
use elevator_lib::elevator::{
    default_enable_debug_plotting, default_plot_path, Elevator, ElevatorParameters,
};
use elevator_lib::entity::Entity;
use elevator_lib::human::{Gender, Human};
use elevator_lib::nearest_car::NearestCarDispatchController;
use elevator_lib::plotter::LinePlotter;
use elevator_lib::simple_controller::SimpleElevatorController;
use elevator_lib::state_space::{ElevatorState, SystemState};
use elevator_lib::direction::Direction;

fn params(max_load: u64, area: u64) -> ElevatorParameters {
    ElevatorParameters {
        floors: vec![0, 3000, 6000, 9000, 12000],
        max_speed: 2000,
        max_accel: 1000,
        max_load,
        elevator_mass: 500_000,
        elevator_counter_mass: 400_000,
        area,
        enable_debug_plotting: default_enable_debug_plotting(),
        plot_path: default_plot_path(),
    }
}

fn cabin(max_load: u64, area: u64) -> Elevator {
    Elevator::new(vec![0, 3000, 6000, 9000, 12000], 9807, params(max_load, area))
}

fn rider(weight: u32, area: u32, destination: usize) -> Entity {
    Entity::Person(Human::new(30, Gender::Female, weight, area, destination))
}

#[test]
fn parameter_defaults() {
    assert!(!default_enable_debug_plotting());
    assert_eq!(default_plot_path(), "motor_plot.png");
    let p = LinePlotter::new(true);
    assert!(p.enable_plotting);
    p.create_plot();
    p.update_plot();
}

#[test]
fn new_cabin_is_empty_and_moving() {
    let e = cabin(1_000_000, 0);
    assert_eq!(e.get_gravity(), 9807);
    assert_eq!(e.get_floor_count(), 5);
    assert_eq!(e.get_entity_count(), 0);
    assert_eq!(e.get_current_load(), 0);
    assert_eq!(e.get_target_floor(), 0);
    assert_eq!(e.get_current_height(), 0);
    assert!(!e.can_board());
    assert_eq!(e.get_current_floor(), None);
    assert_eq!(e.get_total_mass(), 900_000);
}

#[test]
fn docking_at_the_target_opens_boarding() {
    let mut e = cabin(1_000_000, 0);
    e.set_target(3);
    e.set_motion(9000, 0, Some(3));
    assert!(e.can_board());
    assert_eq!(e.get_current_floor(), Some(3));
    assert_eq!(e.distance_to_floor(1), -6000);
    // a new target closes boarding until the cabin stands there
    e.set_target(1);
    assert_eq!(e.get_current_floor(), None);
}

#[test]
fn load_and_unload_keep_the_books() {
    let mut e = cabin(200_000, 0);
    let a = rider(80_000, 0, 2);
    let b = rider(70_000, 0, 4);
    assert!(e.can_fit(&a));
    e.load(a);
    e.load(b);
    assert_eq!(e.get_current_load(), 150_000);
    assert_eq!(e.get_total_mass(), 1_050_000);
    assert_eq!(e.get_target_floors(), vec![2, 4]);
    // 80 kg more would exceed the most load
    assert!(!e.can_fit(&rider(80_000, 0, 1)));
    e.set_target(2);
    e.unload();
    assert_eq!(e.get_entity_count(), 1);
    assert_eq!(e.get_current_load(), 70_000);
    assert_eq!(e.get_target_floors(), vec![4]);
    // unloading again lets off nobody else
    e.unload();
    assert_eq!(e.get_entity_count(), 1);
}

#[test]
fn passengers_with_area_never_fit() {
    let e = cabin(1_000_000, 20_000);
    // the area check adds the passenger's area to the full cabin area
    assert!(!e.can_fit(&rider(60_000, 5000, 1)));
    assert!(e.can_fit(&rider(60_000, 0, 1)));
}

#[test]
fn simple_controller_sets_up_then_shuttles() {
    let mut c = SimpleElevatorController::new();
    assert_eq!(c.get_up_idx(), 0);
    assert_eq!(c.get_down_idx(), 1);
    let mut elevators = vec![cabin(1_000_000, 0), cabin(1_000_000, 0)];
    // first step: down elevator sent to the top, up elevator to the ground
    c.update(&mut elevators);
    assert!(!c.is_initialized());
    assert_eq!(elevators[0].get_target_floor(), 0);
    assert_eq!(elevators[1].get_target_floor(), 4);
    // the down elevator reaches the top: the shuttle starts at floor one
    elevators[1].set_motion(12000, 0, Some(4));
    c.update(&mut elevators);
    assert!(c.is_initialized());
    assert_eq!(c.get_up_target(), 1);
    assert_eq!(elevators[0].get_target_floor(), 1);
    assert_eq!(elevators[1].get_target_floor(), 3);
    // nothing happens until both stand at their floors
    elevators[0].set_motion(3000, 0, Some(1));
    c.update(&mut elevators);
    assert_eq!(c.get_up_target(), 1);
    elevators[1].set_motion(9000, 0, Some(3));
    c.update(&mut elevators);
    assert_eq!(c.get_up_target(), 2);
    assert_eq!(elevators[0].get_target_floor(), 2);
    assert_eq!(elevators[1].get_target_floor(), 2);
}

#[test]
fn simple_controller_swaps_roles_at_the_top() {
    let mut c = SimpleElevatorController::new();
    let mut elevators = vec![cabin(1_000_000, 0), cabin(1_000_000, 0)];
    elevators[1].set_motion(12000, 0, Some(4));
    c.update(&mut elevators);
    for target in 1..=4usize {
        elevators[0].set_motion(0, 0, Some(target));
        elevators[1].set_motion(0, 0, Some(4 - target));
        c.update(&mut elevators);
    }
    // after the top, elevator 1 climbs from floor one and elevator 0 descends
    assert_eq!(c.get_up_idx(), 1);
    assert_eq!(c.get_down_idx(), 0);
    assert_eq!(c.get_up_target(), 1);
    assert_eq!(elevators[1].get_target_floor(), 1);
    assert_eq!(elevators[0].get_target_floor(), 3);
}

#[test]
fn nearest_car_distance_and_init() {
    let mut e = cabin(1_000_000, 0);
    e.set_motion(4000, 0, None);
    assert_eq!(NearestCarDispatchController::calculate_distance(&e, 2), 2000);
    assert_eq!(NearestCarDispatchController::calculate_distance(&e, 0), 4000);
    let mut c = NearestCarDispatchController::new();
    // one heading per elevator
    c.init(2, 5);
    assert_eq!(c.get_direction_count(), 2);
    assert!(c.is_initialized());
}

#[test]
fn state_space_counts_and_observes() {
    assert_eq!(ElevatorState::var_count(10), 15);
    assert_eq!(SystemState::var_count(2, 10), 50);
    let mut e = cabin(1_000_000, 0);
    e.load(rider(1, 0, 3));
    e.load(rider(1, 0, 1));
    e.set_motion(500, -120, None);
    let s = ElevatorState::new(&e);
    assert_eq!(s.get_current_floor(), -1);
    assert_eq!(s.get_speed(), -120);
    assert_eq!(s.get_current_load(), 2);
    assert_eq!(s.get_inner_target_floors(), &vec![false, true, false, true, false]);
    let sys = SystemState::new(&vec![e], vec![Direction::Both, Direction::NoCall]);
    assert_eq!(sys.get_elevator_states().len(), 1);
    let observed = &sys.get_elevator_states()[0];
    assert_eq!(observed.get_speed(), -120);
    assert_eq!(observed.get_inner_target_floors(), &vec![false, true, false, true, false]);
    assert_eq!(sys.get_upwards_calls(), &vec![true, false]);
    assert_eq!(sys.get_downwards_calls(), &vec![true, false]);
    let (up, down) = SystemState::parse_calls(vec![Direction::Down]);
    assert_eq!((up, down), (vec![false], vec![true]));
}

#[test]
fn observability_needs_destinations_in_the_building() {
    let mut e = cabin(1_000_000, 0);
    assert!(ElevatorState::can_observe(&e));
    e.load(rider(70_000, 0, 4));
    assert!(ElevatorState::can_observe(&e));
    e.load(rider(70_000, 0, 5));
    assert!(!ElevatorState::can_observe(&e));
    assert!(e.is_consistent());
}

#[test]
fn roles_swap_back_and_forth() {
    let mut c = SimpleElevatorController::new();
    assert_eq!((c.get_up_idx(), c.get_down_idx()), (0, 1));
    c.switch_elevators();
    assert_eq!((c.get_up_idx(), c.get_down_idx()), (1, 0));
    assert_eq!(c.get_up_target(), 0);
    c.switch_elevators();
    assert_eq!((c.get_up_idx(), c.get_down_idx()), (0, 1));
}

#[test]
fn generation_plans() {
    assert_eq!(
        generation_plan(2, 3, 5),
        vec![(0, false), (0, true), (0, true), (1, false), (1, true)]
    );
    assert_eq!(generation_plan(2, 2, 10), vec![(0, false), (0, true), (1, false), (1, true)]);
    assert_eq!(generation_plan(3, 0, 10), vec![]);
}

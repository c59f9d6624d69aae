use elevator_lib::direction::Direction;
use elevator_lib::elevator::ElevatorParameters;
use elevator_lib::generator::PopulationTables;
use elevator_lib::nearest_car::NearestCarDispatchController;
use elevator_lib::population::{CommuteByAge, WeightDistribution};
use elevator_lib::simple_controller::SimpleElevatorController;
use elevator_lib::system::{get_calls, Controller, ElevatorSystem, ElevatorSystemParameters};
use elevator_lib::text::push_decimal;

fn elevator_params() -> ElevatorParameters {
    ElevatorParameters {
        floors: vec![0, 3000, 6000, 9000, 12000],
        max_speed: 2000,
        max_accel: 1000,
        max_load: 1_000_000,
        elevator_mass: 500_000,
        elevator_counter_mass: 400_000,
        area: 0,
        enable_debug_plotting: false,
        plot_path: "motor_plot.png".to_string(),
    }
}

fn weights() -> WeightDistribution {
    let mut w = WeightDistribution::new();
    w.insert((0, 120), [60_000, 62_000, 64_000, 66_000, 70_000, 74_000, 78_000, 80_000, 85_000]);
    w
}

fn tables(rate: u64) -> PopulationTables {
    let mut c = CommuteByAge::new();
    c.insert("15-24".to_string(), [1_000_000; 3]);
    c.insert("25-54".to_string(), [1_000_000; 3]);
    c.insert("55+".to_string(), [1_000_000; 3]);
    PopulationTables {
        avg_passenger_by_time: vec![(8, rate), (9, rate)],
        commute_by_age: c,
        avg_female_weight: weights(),
        avg_male_weight: weights(),
    }
}

fn system(controller: Controller, max_human_count: u32, rate: u64) -> ElevatorSystem {
    let params = ElevatorSystemParameters {
        floors: vec![0, 3000, 6000, 9000, 12000],
        elevators: vec![elevator_params(), elevator_params()],
        time_of_day: 8,
        time_step: 1000,
        gravity: 9807,
        hour_length: 3_600_000,
        max_human_count,
    };
    ElevatorSystem::new(controller, params, tables(rate))
}

#[test]
fn finished_system_stops_at_once() {
    let mut s = system(Controller::Simple(SimpleElevatorController::new()), 0, 0);
    assert!(s.is_finished());
    assert!(!s.update());
    // only the clock moved
    assert_eq!(s.get_total_time(), 1000);
    assert_eq!(s.get_time_of_day(), 8);
}

#[test]
fn running_system_advances_and_dispatches() {
    let mut s = system(Controller::Simple(SimpleElevatorController::new()), 5, 0);
    assert_eq!(s.get_elevator_count(), 2);
    assert!(s.update());
    assert_eq!(s.get_total_time(), 1000);
    assert_eq!(s.get_delta_time(), 1000);
    // the simple controller sent the descending elevator to the top
    assert_eq!(s.get_elevator(1).get_target_floor(), 4);
    assert_eq!(s.get_elevator(0).get_target_floor(), 0);
    assert_eq!(s.get_call_buttons(), vec![Direction::NoCall; 5]);
    assert_eq!(get_calls(&s), vec![None; 5]);
    assert_eq!(s.get_total_wait_time(), 0);
    assert_eq!(s.get_elevators().len(), 2);
}

#[test]
fn passengers_arrive_and_call() {
    // sixty passengers per hour: one per simulated minute
    let mut s = system(Controller::Delegated, 1000, 60_000_000);
    for _ in 0..180 {
        assert!(s.update());
    }
    let q = s.get_queue();
    let mut waiting = 0;
    for f in 0..q.len() {
        waiting += q.floor_len(f);
    }
    assert_eq!(waiting as u32, s.get_generator().get_entity_generated());
    assert!(waiting >= 1);
    let calls = s.get_call_buttons();
    assert!(calls.iter().any(|c| *c != Direction::NoCall));
    assert!(calls.iter().all(|c| *c != Direction::Both));
    let codes = get_calls(&s);
    for (c, code) in calls.iter().zip(codes.iter()) {
        let expected = match c {
            Direction::Up => Some(1),
            Direction::Down => Some(-1),
            Direction::Both => Some(0),
            Direction::NoCall => None,
        };
        assert_eq!(*code, expected);
    }
}

#[test]
fn delegated_boarding_and_unloading() {
    let mut s = system(Controller::Delegated, 1000, 60_000_000);
    for _ in 0..180 {
        s.update();
    }
    // find a floor with someone waiting and bring elevator 0 there
    let q = s.get_queue();
    let floor = (0..q.len()).find(|f| q.floor_len(*f) > 0).unwrap();
    let waiting = q.floor_len(floor);
    s.set_elevator_target(0, floor);
    s.set_elevator_motion(0, 0, 0, Some(floor));
    s.load_elevator_all(0);
    assert_eq!(s.get_elevator(0).get_entity_count() + s.get_queue().floor_len(floor), waiting);
    assert_eq!(s.get_queue().wait_times().len(), s.get_elevator(0).get_entity_count());
    let boarded = s.get_elevator(0).get_entity_count();
    if boarded > 0 {
        let dest = s.get_elevator(0).get_entity(0).get_destination();
        s.set_elevator_target(0, dest);
        s.unload_elevator(0);
        assert!(s.get_elevator(0).get_entity_count() < boarded);
    }
}

#[test]
fn nearest_car_system_initializes_directions() {
    let s = system(Controller::NearestCar(NearestCarDispatchController::new()), 1, 0);
    match s.get_controller() {
        Controller::NearestCar(c) => assert_eq!(c.get_direction_count(), 2),
        _ => panic!("expected the nearest-car controller"),
    }
}

#[test]
fn time_of_day_adds_whole_hours() {
    let mut s = system(Controller::Delegated, 1, 0);
    for _ in 0..3600 {
        s.update();
    }
    // the hour count is added after the clock reached one hour
    assert_eq!(s.get_time_of_day(), 9);
    s.update();
    assert_eq!(s.get_time_of_day(), 10);
}

#[test]
fn decimal_notation() {
    let mut t = "n=".to_string();
    push_decimal(&mut t, 0);
    assert_eq!(t, "n=0");
    let mut t = String::new();
    push_decimal(&mut t, 1_234_509);
    assert_eq!(t, "1234509");
    let mut t = String::new();
    push_decimal(&mut t, u64::MAX);
    assert_eq!(t, u64::MAX.to_string());
}

#[test]
fn update_readiness_follows_the_controller() {
    let s = system(Controller::Simple(SimpleElevatorController::new()), 5, 0);
    assert!(s.can_update());
    // the system sets the nearest-car controller up, so it can step
    let mut n = system(Controller::NearestCar(NearestCarDispatchController::new()), 5, 0);
    assert!(n.can_update());
    for _ in 0..10 {
        assert!(n.can_update());
        assert!(n.update());
    }
    let d = system(Controller::Delegated, 5, 0);
    assert!(d.can_update());
}

#[test]
fn update_readiness_needs_weights_for_every_age() {
    let mut t = tables(2_000_000_000);
    let mut narrow = WeightDistribution::new();
    narrow.insert((30, 40), [1; 9]);
    t.avg_male_weight = narrow;
    let params = ElevatorSystemParameters {
        floors: vec![0, 3000, 6000],
        elevators: vec![],
        time_of_day: 8,
        time_step: 3_600_000,
        gravity: 9807,
        hour_length: 3_600_000,
        max_human_count: 10,
    };
    let s = ElevatorSystem::new(Controller::Delegated, params, t);
    assert!(!s.get_generator().can_generate());
    // one hour at two thousand passengers an hour owes two thousand of them
    assert_eq!(s.get_generator().accumulated_after(8, 3_600_000, 3_600_000), 2_000_000_000);
    assert!(!s.can_update());
}

#[test]
fn update_readiness_without_owed_passengers() {
    let mut t = tables(0);
    t.avg_female_weight = WeightDistribution::new();
    let params = ElevatorSystemParameters {
        floors: vec![0, 3000, 6000],
        elevators: vec![],
        time_of_day: 8,
        time_step: 1000,
        gravity: 9807,
        hour_length: 3_600_000,
        max_human_count: 10,
    };
    let s = ElevatorSystem::new(Controller::Delegated, params, t);
    assert!(!s.get_generator().can_generate());
    assert_eq!(s.get_generator().accumulated_after(8, 1000, 3_600_000), 0);
    // nothing is owed, so the missing weights do not matter
    assert!(s.can_update());
}

#[test]
fn fresh_cabins_are_consistent() {
    let s = system(Controller::Delegated, 5, 0);
    assert!(s.get_elevator(0).is_consistent());
    assert!(s.get_elevator(1).is_consistent());
}

#[test]
fn cabins_and_generator_come_from_the_parameters() {
    let s = system(Controller::Delegated, 5, 7);
    for i in 0..2 {
        let e = s.get_elevator(i);
        assert_eq!(e.get_max_load(), 1_000_000);
        assert_eq!(e.get_max_speed(), 2000);
        assert_eq!(e.get_max_accel(), 1000);
        assert_eq!(e.get_gravity(), 9807);
        assert_eq!(e.get_total_mass(), 900_000);
        assert_eq!(e.get_floor_count(), 5);
    }
    let g = s.get_generator();
    assert_eq!(g.get_floor_count(), 5);
    // the hourly rate of the tables is used: 7 millionths per hour at 8
    assert_eq!(g.accumulated_after(8, 3_600_000, 3_600_000), 7);
    assert!(g.can_generate());
}

#[test]
fn a_finished_system_steps_with_any_controller() {
    // three cabins are too many for the simple controller, but a finished
    // simulation never asks the controller
    let params = ElevatorSystemParameters {
        floors: vec![0, 3000, 6000],
        elevators: vec![elevator_params(), elevator_params(), elevator_params()],
        time_of_day: 8,
        time_step: 1000,
        gravity: 9807,
        hour_length: 3_600_000,
        max_human_count: 0,
    };
    let mut s = ElevatorSystem::new(Controller::Simple(SimpleElevatorController::new()), params, tables(0));
    assert!(s.can_update());
    assert!(!s.update());
    assert_eq!(s.get_total_time(), 1000);
}

#[test]
fn a_system_accepts_an_hour_of_no_length_but_cannot_step() {
    let params = ElevatorSystemParameters {
        floors: vec![0, 3000],
        elevators: vec![],
        time_of_day: 8,
        time_step: 1000,
        gravity: 9807,
        hour_length: 0,
        max_human_count: 0,
    };
    let s = ElevatorSystem::new(Controller::Delegated, params, tables(0));
    assert_eq!(s.get_total_time(), 0);
    assert!(!s.can_update());
}

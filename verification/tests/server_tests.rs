use elevator_lib::server::{
    request_for, Request, RequestParams, Response, ServerElevator, ServerPassenger, Settings,
    SimulationState,
};

fn empty_state() -> SimulationState {
    SimulationState {
        elevators: vec![],
        floors: vec![],
        simulation_time: "00:00:00".to_string(),
        floor_count: 0,
        elevator_count: 0,
        floor_heights: vec![],
        elevator_door_width: 0,
        elevator_width: 0,
        elevator_depth: 0,
        time_multiplier: 1000,
    }
}

fn message(r: &Response) -> (bool, String) {
    match r {
        Response::Message { success, message } => (*success, message.clone()),
        _ => panic!("expected a message"),
    }
}

#[test]
fn test_get_state() {
    let mut sim = SimulationState::new();
    let response = sim.handle_request(Request::GetState);
    // get_state answers with the state, not with a success message
    assert!(matches!(response, Response::State));
    assert_eq!(sim.elevators.len(), 1);
    assert_eq!(sim.floors.len(), 0);
}

#[test]
fn test_start_and_stop_simulation() {
    let mut sim = SimulationState::new();
    let start_response = sim.handle_request(Request::StartSimulation);
    assert_eq!(message(&start_response), (true, "Simulation started.".to_string()));
    let stop_response = sim.handle_request(Request::StopSimulation);
    assert_eq!(message(&stop_response), (true, "Simulation stopped.".to_string()));
}

#[test]
fn test_update_settings() {
    let mut sim = SimulationState::new();
    let heights_m = [3.0, 3.5, 4.0, 3.0, 3.5, 4.0, 3.0, 3.5, 4.0, 3.0, 3.5, 4.0, 3.0, 3.5];
    let settings = Settings {
        floor_count: Some(15),
        elevator_count: Some(3),
        elevator_capacity: Some(1_200_000),
        elevator_door_width: Some(1200),
        elevator_width: None,
        elevator_depth: None,
        floor_heights: Some(heights_m.iter().map(|h: &f64| (h * 1000.0) as u32).collect()),
    };
    let update_response = sim.handle_request(Request::UpdateSettings(Some(settings)));
    assert_eq!(message(&update_response), (true, "Settings updated.".to_string()));

    let state_response = sim.handle_request(Request::GetState);
    assert!(matches!(state_response, Response::State));
    assert_eq!(sim.floor_count, 15);
    assert_eq!(sim.elevator_count, 3);
    assert_eq!(sim.elevators.len(), 3);
    assert!(sim.elevators.iter().all(|e| e.capacity == 1_200_000));
    assert_eq!(sim.elevator_door_width, 1200);
    assert_eq!(sim.floor_heights.len(), 14);
    assert_eq!(sim.floor_heights[1], 3500);
}

#[test]
fn test_toggle_doors() {
    let mut sim = SimulationState::new();
    let open_doors_response = sim.handle_request(Request::ToggleDoors(Some(true)));
    assert_eq!(message(&open_doors_response), (true, "Doors have been opened.".to_string()));
    let close_doors_response = sim.handle_request(Request::ToggleDoors(Some(false)));
    assert_eq!(message(&close_doors_response), (true, "Doors have been closed.".to_string()));
}

#[test]
fn test_set_manual_target() {
    let mut sim = SimulationState::new();
    let manual_target_response = sim.handle_request(Request::SetManualTarget(Some(1), Some(5)));
    assert_eq!(
        message(&manual_target_response),
        (true, "Elevator 1 set to floor 5.".to_string())
    );
    let elevators_response = sim.handle_request(Request::GetElevators);
    assert!(matches!(elevators_response, Response::Elevators));
    let elevator1 = sim.elevators.iter().find(|e| e.id == 1).unwrap();
    assert_eq!(elevator1.current_floor, 5);
    assert!(elevator1.moving);
}

#[test]
fn test_unknown_action() {
    let mut sim = SimulationState::new();
    let unknown_response = sim.handle_request(Request::Unknown);
    assert_eq!(message(&unknown_response), (false, "Unknown action.".to_string()));
}

#[test]
fn manual_target_of_missing_elevator_fails() {
    let mut sim = empty_state();
    let r = sim.handle_request(Request::SetManualTarget(Some(7), Some(2)));
    assert_eq!(message(&r), (false, "Elevator 7 not found.".to_string()));
    let r = sim.handle_request(Request::SetManualTarget(None, Some(2)));
    assert_eq!(message(&r), (false, "Missing elevator_id or target_floor.".to_string()));
}

#[test]
fn manual_target_height_uses_floor_below() {
    let mut sim = empty_state();
    sim.floor_heights = vec![3000, 3500, 4000];
    sim.elevators.push(ServerElevator {
        id: 4,
        current_floor: 1,
        current_height: 0,
        moving: false,
        passengers: vec![],
        capacity: 1000,
    });
    sim.handle_request(Request::SetManualTarget(Some(4), Some(3)));
    // (3 - 1) * heights[1]
    assert_eq!(sim.elevators[0].current_height, 7000);
    sim.handle_request(Request::SetManualTarget(Some(4), Some(1)));
    assert_eq!(sim.elevators[0].current_height, 0);
    sim.handle_request(Request::SetManualTarget(Some(4), Some(12)));
    assert_eq!(sim.elevators[0].current_height, 0);
    assert_eq!(sim.elevators[0].current_floor, 12);
}

#[test]
fn opening_doors_empties_elevators() {
    let mut sim = empty_state();
    sim.elevators.push(ServerElevator {
        id: 1,
        current_floor: 1,
        current_height: 0,
        moving: false,
        passengers: vec![ServerPassenger {
            destination_floor: 3,
            group_size: 1,
            weight: 70000,
            is_disabled: false,
        }],
        capacity: 1000,
    });
    sim.handle_request(Request::ToggleDoors(Some(false)));
    assert_eq!(sim.elevators[0].passengers.len(), 1);
    sim.handle_request(Request::ToggleDoors(Some(true)));
    assert_eq!(sim.elevators[0].passengers.len(), 0);
    let r = sim.handle_request(Request::ToggleDoors(None));
    assert_eq!(message(&r), (false, "No door state provided.".to_string()));
}

#[test]
fn start_then_stop_leaves_elevators_stopped() {
    let mut sim = empty_state();
    sim.handle_request(Request::UpdateSettings(Some(Settings {
        floor_count: Some(3),
        elevator_count: Some(2),
        elevator_capacity: None,
        elevator_door_width: None,
        elevator_width: None,
        elevator_depth: None,
        floor_heights: None,
    })));
    // added elevators share the id after the last one and default capacity
    assert_eq!(sim.elevators[0].id, 1);
    assert_eq!(sim.elevators[1].id, 1);
    assert_eq!(sim.elevators[0].capacity, 1_000_000);
    // two default heights for three floors
    assert_eq!(sim.floor_heights, vec![3000, 3000]);
    sim.handle_request(Request::StartSimulation);
    assert!(sim.elevators.iter().all(|e| e.moving));
    sim.handle_request(Request::StopSimulation);
    assert!(sim.elevators.iter().all(|e| !e.moving));
}

#[test]
fn speed_and_time_requests() {
    let mut sim = empty_state();
    let r = sim.handle_request(Request::UpdateSpeed(Some((2500, "2.5".to_string()))));
    assert_eq!(message(&r), (true, "Time multiplier set to 2.5.".to_string()));
    assert_eq!(sim.time_multiplier, 2500);
    let r = sim.handle_request(Request::UpdateSpeed(None));
    assert_eq!(message(&r), (false, "No time multiplier provided.".to_string()));
    let r = sim.handle_request(Request::SkipToTime(Some("08:30:00".to_string())));
    assert_eq!(message(&r), (true, "Simulation time skipped to 08:30:00.".to_string()));
    assert_eq!(sim.simulation_time, "08:30:00");
    let r = sim.handle_request(Request::SkipToTime(None));
    assert_eq!(message(&r), (false, "No new time provided.".to_string()));
    let r = sim.handle_request(Request::UpdateSettings(None));
    assert_eq!(message(&r), (false, "No settings provided.".to_string()));
}

#[test]
fn shrinking_elevator_count_drops_last() {
    let mut sim = empty_state();
    for id in 1..=3 {
        sim.elevators.push(ServerElevator {
            id,
            current_floor: 1,
            current_height: 0,
            moving: false,
            passengers: vec![],
            capacity: 5,
        });
    }
    sim.handle_request(Request::UpdateSettings(Some(Settings {
        floor_count: None,
        elevator_count: Some(1),
        elevator_capacity: Some(9),
        elevator_door_width: None,
        elevator_width: Some(1500),
        elevator_depth: Some(2000),
        floor_heights: None,
    })));
    assert_eq!(sim.elevators.len(), 1);
    assert_eq!(sim.elevators[0].id, 1);
    assert_eq!(sim.elevators[0].capacity, 9);
    assert_eq!(sim.elevator_width, 1500);
    assert_eq!(sim.elevator_depth, 2000);
}

#[test]
fn a_new_server_has_elevator_one() {
    let sim = SimulationState::new();
    assert_eq!(sim.elevator_count, 1);
    assert_eq!(sim.elevators[0].id, 1);
    assert_eq!(sim.elevators[0].current_floor, 1);
    assert_eq!(sim.elevators[0].capacity, 1_000_000);
    assert!(!sim.elevators[0].moving);
    assert_eq!(sim.simulation_time, "00:00:00");
    assert_eq!(sim.time_multiplier, 1000);
    assert_eq!(sim.floor_count, 0);
}

fn no_params() -> RequestParams {
    RequestParams {
        settings: None,
        doors_open: None,
        time_multiplier: None,
        new_time: None,
        elevator_id: None,
        target_floor: None,
    }
}

#[test]
fn actions_name_requests() {
    assert!(matches!(request_for("get_state", no_params()), Request::GetState));
    assert!(matches!(request_for("start_simulation", no_params()), Request::StartSimulation));
    assert!(matches!(request_for("stop_simulation", no_params()), Request::StopSimulation));
    assert!(matches!(request_for("get_elevators", no_params()), Request::GetElevators));
    assert!(matches!(request_for("update_settings", no_params()), Request::UpdateSettings(None)));
    let mut p = no_params();
    p.doors_open = Some(true);
    assert!(matches!(request_for("toggle_doors", p), Request::ToggleDoors(Some(true))));
    let mut p = no_params();
    p.elevator_id = Some(2);
    p.target_floor = Some(4);
    assert!(matches!(
        request_for("set_manual_target", p),
        Request::SetManualTarget(Some(2), Some(4))
    ));
    let mut p = no_params();
    p.new_time = Some("12:00:00".to_string());
    match request_for("skip_to_time", p) {
        Request::SkipToTime(Some(t)) => assert_eq!(t, "12:00:00"),
        _ => panic!("expected a time skip"),
    }
    let mut p = no_params();
    p.time_multiplier = Some((2000, "2".to_string()));
    assert!(matches!(request_for("update_speed", p), Request::UpdateSpeed(Some((2000, _)))));
    assert!(matches!(request_for("unknown_action", no_params()), Request::Unknown));
    assert!(matches!(request_for("", no_params()), Request::Unknown));
}

#[test]
fn failing_requests_change_nothing() {
    let mut sim = SimulationState::new();
    for request in [
        Request::Unknown,
        Request::UpdateSettings(None),
        Request::ToggleDoors(None),
        Request::UpdateSpeed(None),
        Request::SkipToTime(None),
        Request::SetManualTarget(Some(9), Some(1)),
    ] {
        let r = sim.handle_request(request);
        assert!(!message(&r).0);
        assert_eq!(sim.elevators.len(), 1);
        assert!(!sim.elevators[0].moving);
        assert_eq!(sim.simulation_time, "00:00:00");
        assert_eq!(sim.time_multiplier, 1000);
    }
}

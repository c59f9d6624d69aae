//! The simulation server's state and how it answers requests.
//!
//! Heights and widths are in millimetres, capacities and weights in grams
//! and the time multiplier in thousandths.  Reading requests and writing
//! answers is done by the caller; this module decides what a request does
//! to the state and what the answer says.
use vstd::prelude::*;
use crate::text::{decimal, push_decimal};

verus! {

/// Capacity of an elevator added by a settings update that names none, in
/// grams.
pub const DEFAULT_CAPACITY_G: u64 = 1000000;

/// Height of a floor added by a settings update, in millimetres.
pub const DEFAULT_FLOOR_HEIGHT_MM: u32 = 3000;

#[derive(Debug, Clone, Copy, PartialEq, Eq, Structural)]
pub struct ServerPassenger {
    pub destination_floor: usize,
    pub group_size: usize,
    /// In grams.
    pub weight: u32,
    pub is_disabled: bool,
}

pub struct ServerElevator {
    pub id: usize,
    pub current_floor: usize,
    /// In millimetres.
    pub current_height: u128,
    pub moving: bool,
    pub passengers: Vec<ServerPassenger>,
    /// In grams.
    pub capacity: u64,
}

/// An elevator of the server as a mathematical value.
pub struct ElevatorRecord {
    pub id: nat,
    pub current_floor: nat,
    pub current_height: nat,
    pub moving: bool,
    pub passengers: Seq<ServerPassenger>,
    pub capacity: nat,
}

impl View for ServerElevator {
    type V = ElevatorRecord;

    open spec fn view(&self) -> ElevatorRecord {
        ElevatorRecord {
            id: self.id as nat,
            current_floor: self.current_floor as nat,
            current_height: self.current_height as nat,
            moving: self.moving,
            passengers: self.passengers@,
            capacity: self.capacity as nat,
        }
    }
}

impl ServerElevator {
    pub fn clone_record(&self) -> (e: Self)
        ensures
            e@ == self@,
    {
        let passengers = self.passengers.clone();
        assert(passengers@ =~= self.passengers@);
        ServerElevator {
            id: self.id,
            current_floor: self.current_floor,
            current_height: self.current_height,
            moving: self.moving,
            passengers,
            capacity: self.capacity,
        }
    }
}

pub struct ServerFloor {
    pub waiting: Vec<ServerPassenger>,
    pub stairs: Vec<ServerPassenger>,
}

pub struct SimulationState {
    pub elevators: Vec<ServerElevator>,
    pub floors: Vec<(usize, ServerFloor)>,
    pub simulation_time: String,
    pub floor_count: usize,
    pub elevator_count: usize,
    /// In millimetres.
    pub floor_heights: Vec<u32>,
    /// In millimetres.
    pub elevator_door_width: u32,
    /// In millimetres.
    pub elevator_width: u32,
    /// In millimetres.
    pub elevator_depth: u32,
    /// In thousandths.
    pub time_multiplier: u64,
}

/// The server's state as a mathematical value.
pub struct SimView {
    pub elevators: Seq<ElevatorRecord>,
    /// For each floor entry: the floor, who waits there and who takes the
    /// stairs.
    pub floors: Seq<(usize, Seq<ServerPassenger>, Seq<ServerPassenger>)>,
    pub simulation_time: Seq<char>,
    pub floor_count: nat,
    pub elevator_count: nat,
    pub floor_heights: Seq<u32>,
    pub elevator_door_width: nat,
    pub elevator_width: nat,
    pub elevator_depth: nat,
    pub time_multiplier: nat,
}

pub open spec fn records(v: Seq<ServerElevator>) -> Seq<ElevatorRecord> {
    v.map_values(|e: ServerElevator| e@)
}

impl View for SimulationState {
    type V = SimView;

    open spec fn view(&self) -> SimView {
        SimView {
            elevators: records(self.elevators@),
            floors: self.floors@.map_values(
                |f: (usize, ServerFloor)| (f.0, f.1.waiting@, f.1.stairs@),
            ),
            simulation_time: self.simulation_time@,
            floor_count: self.floor_count as nat,
            elevator_count: self.elevator_count as nat,
            floor_heights: self.floor_heights@,
            elevator_door_width: self.elevator_door_width as nat,
            elevator_width: self.elevator_width as nat,
            elevator_depth: self.elevator_depth as nat,
            time_multiplier: self.time_multiplier as nat,
        }
    }
}

/// New settings; each names a value or leaves it unchanged.
pub struct Settings {
    pub floor_count: Option<u64>,
    pub elevator_count: Option<u64>,
    /// In grams.
    pub elevator_capacity: Option<u64>,
    /// In millimetres.
    pub elevator_door_width: Option<u32>,
    /// In millimetres.
    pub elevator_width: Option<u32>,
    /// In millimetres.
    pub elevator_depth: Option<u32>,
    /// In millimetres.
    pub floor_heights: Option<Vec<u32>>,
}

/// A request to the server.
pub enum Request {
    GetState,
    StartSimulation,
    StopSimulation,
    UpdateSettings(Option<Settings>),
    ToggleDoors(Option<bool>),
    /// The new multiplier in thousandths, with the notation in which the
    /// request wrote it.
    UpdateSpeed(Option<(u64, String)>),
    SkipToTime(Option<String>),
    SetManualTarget(Option<u64>, Option<u64>),
    GetElevators,
    Unknown,
}

/// The parameters that a request message may carry, already read from it.
pub struct RequestParams {
    pub settings: Option<Settings>,
    pub doors_open: Option<bool>,
    /// The new multiplier in thousandths, with the notation in which the
    /// message wrote it.
    pub time_multiplier: Option<(u64, String)>,
    pub new_time: Option<String>,
    pub elevator_id: Option<u64>,
    pub target_floor: Option<u64>,
}

/// The request that a message with the action named `action` and the
/// parameters `p` makes; an action of no other name is unknown.
pub open spec fn request_of(action: Seq<char>, p: RequestParams) -> Request {
    if action == "get_state"@ {
        Request::GetState
    } else if action == "start_simulation"@ {
        Request::StartSimulation
    } else if action == "stop_simulation"@ {
        Request::StopSimulation
    } else if action == "update_settings"@ {
        Request::UpdateSettings(p.settings)
    } else if action == "toggle_doors"@ {
        Request::ToggleDoors(p.doors_open)
    } else if action == "update_speed"@ {
        Request::UpdateSpeed(p.time_multiplier)
    } else if action == "skip_to_time"@ {
        Request::SkipToTime(p.new_time)
    } else if action == "set_manual_target"@ {
        Request::SetManualTarget(p.elevator_id, p.target_floor)
    } else if action == "get_elevators"@ {
        Request::GetElevators
    } else {
        Request::Unknown
    }
}

/// The request that a message with the action named `action` and the
/// parameters `params` makes.
pub fn request_for(action: &str, params: RequestParams) -> (r: Request)
    ensures
        r == request_of(action@, params),
{
    let a = action.to_owned();
    if a == "get_state".to_owned() {
        Request::GetState
    } else if a == "start_simulation".to_owned() {
        Request::StartSimulation
    } else if a == "stop_simulation".to_owned() {
        Request::StopSimulation
    } else if a == "update_settings".to_owned() {
        Request::UpdateSettings(params.settings)
    } else if a == "toggle_doors".to_owned() {
        Request::ToggleDoors(params.doors_open)
    } else if a == "update_speed".to_owned() {
        Request::UpdateSpeed(params.time_multiplier)
    } else if a == "skip_to_time".to_owned() {
        Request::SkipToTime(params.new_time)
    } else if a == "set_manual_target".to_owned() {
        Request::SetManualTarget(params.elevator_id, params.target_floor)
    } else if a == "get_elevators".to_owned() {
        Request::GetElevators
    } else {
        Request::Unknown
    }
}

/// An answer of the server.
pub enum Response {
    /// The whole state.
    State,
    /// The elevators.
    Elevators,
    Message { success: bool, message: String },
}

/// The records with every elevator's motion flag set to `moving`.
pub open spec fn with_moving(es: Seq<ElevatorRecord>, moving: bool) -> Seq<ElevatorRecord> {
    es.map_values(|e: ElevatorRecord| ElevatorRecord { moving, ..e })
}

/// The records with every elevator emptied.
pub open spec fn emptied(es: Seq<ElevatorRecord>) -> Seq<ElevatorRecord> {
    es.map_values(|e: ElevatorRecord| ElevatorRecord { passengers: Seq::empty(), ..e })
}

/// The records with every elevator's capacity set to `capacity`.
pub open spec fn with_capacity(es: Seq<ElevatorRecord>, capacity: nat) -> Seq<ElevatorRecord> {
    es.map_values(|e: ElevatorRecord| ElevatorRecord { capacity, ..e })
}

/// The elevator a settings update adds.
pub open spec fn added_elevator(id: nat, capacity: nat) -> ElevatorRecord {
    ElevatorRecord {
        id,
        current_floor: 1,
        current_height: 0,
        moving: false,
        passengers: Seq::empty(),
        capacity,
    }
}

/// The records after the elevator count is set to `count`: copies of one
/// new elevator are added, or the last elevators removed.
pub open spec fn resized(es: Seq<ElevatorRecord>, count: nat, capacity: nat) -> Seq<ElevatorRecord> {
    if es.len() < count {
        es + Seq::new((count - es.len()) as nat, |i: int| added_elevator(es.len() + 1, capacity))
    } else {
        es.take(count as int)
    }
}

/// The floor heights after the floor count is set to `count`: heights of
/// the default are added until there is one for each floor but the first.
pub open spec fn extended_heights(h: Seq<u32>, count: nat) -> Seq<u32> {
    if h.len() < count - 1 {
        h + Seq::new((count - 1 - h.len()) as nat, |i: int| DEFAULT_FLOOR_HEIGHT_MM)
    } else {
        h
    }
}

/// The state after the settings `s`, applied in turn: floor count,
/// elevator count, capacity, door width, width, depth and floor heights.
pub open spec fn after_settings(v: SimView, s: Settings) -> SimView {
    let v1 = match s.floor_count {
        Some(fc) => SimView {
            floor_count: fc as usize as nat,
            floor_heights: extended_heights(v.floor_heights, fc as usize as nat),
            ..v
        },
        None => v,
    };
    let v2 = match s.elevator_count {
        Some(ec) => SimView {
            elevator_count: ec as usize as nat,
            elevators: resized(
                v1.elevators,
                ec as usize as nat,
                match s.elevator_capacity {
                    Some(c) => c as nat,
                    None => DEFAULT_CAPACITY_G as nat,
                },
            ),
            ..v1
        },
        None => v1,
    };
    let v3 = match s.elevator_capacity {
        Some(c) => SimView { elevators: with_capacity(v2.elevators, c as nat), ..v2 },
        None => v2,
    };
    let v4 = match s.elevator_door_width {
        Some(w) => SimView { elevator_door_width: w as nat, ..v3 },
        None => v3,
    };
    let v5 = match s.elevator_width {
        Some(w) => SimView { elevator_width: w as nat, ..v4 },
        None => v4,
    };
    let v6 = match s.elevator_depth {
        Some(d) => SimView { elevator_depth: d as nat, ..v5 },
        None => v5,
    };
    match s.floor_heights {
        Some(h) => SimView { floor_heights: h@, ..v6 },
        None => v6,
    }
}

/// Index of the first elevator with the id `id`.
pub open spec fn find_elevator(es: Seq<ElevatorRecord>, id: nat, n: int) -> Option<int>
    decreases n,
{
    if n <= 0 {
        None
    } else {
        match find_elevator(es, id, n - 1) {
            Some(i) => Some(i),
            None => if es[n - 1].id == id {
                Some(n - 1)
            } else {
                None
            },
        }
    }
}

/// The height at which a manually targeted elevator is put: the floor
/// number less one times the height below the floor, when there is one.
pub open spec fn manual_height(heights: Seq<u32>, target_floor: nat) -> nat {
    if target_floor >= 2 && target_floor - 2 < heights.len() {
        ((target_floor - 1) * heights[target_floor - 2]) as nat
    } else {
        0
    }
}

/// The answer of the server as a mathematical value.
pub enum ResponseView {
    State,
    Elevators,
    Message { success: bool, message: Seq<char> },
}

impl View for Response {
    type V = ResponseView;

    open spec fn view(&self) -> ResponseView {
        match self {
            Response::State => ResponseView::State,
            Response::Elevators => ResponseView::Elevators,
            Response::Message { success, message } => ResponseView::Message {
                success: *success,
                message: message@,
            },
        }
    }
}

/// The message that an elevator was sent to a floor.
pub open spec fn target_set_message(id: nat, floor: nat) -> Seq<char> {
    "Elevator "@ + decimal(id) + " set to floor "@ + decimal(floor) + "."@
}

/// The message that no elevator has the id.
pub open spec fn not_found_message(id: nat) -> Seq<char> {
    "Elevator "@ + decimal(id) + " not found."@
}

impl SimulationState {
    /// The state a server starts from: at time `00:00:00`, at normal speed,
    /// with no floors and one elevator, elevator `1`, as a settings update
    /// adds it.
    pub fn new() -> (s: Self)
        ensures
            s@ == (SimView {
                elevators: seq![added_elevator(1, DEFAULT_CAPACITY_G as nat)],
                floors: Seq::empty(),
                simulation_time: "00:00:00"@,
                floor_count: 0,
                elevator_count: 1,
                floor_heights: Seq::empty(),
                elevator_door_width: 0,
                elevator_width: 0,
                elevator_depth: 0,
                time_multiplier: 1000,
            }),
    {
        let mut elevators: Vec<ServerElevator> = Vec::new();
        elevators.push(
            ServerElevator {
                id: 1,
                current_floor: 1,
                current_height: 0,
                moving: false,
                passengers: Vec::new(),
                capacity: DEFAULT_CAPACITY_G,
            },
        );
        let s = SimulationState {
            elevators,
            floors: Vec::new(),
            simulation_time: "00:00:00".to_owned(),
            floor_count: 0,
            elevator_count: 1,
            floor_heights: Vec::new(),
            elevator_door_width: 0,
            elevator_width: 0,
            elevator_depth: 0,
            time_multiplier: 1000,
        };
        assert(s@.elevators =~= seq![added_elevator(1, DEFAULT_CAPACITY_G as nat)]);
        assert(s@.floors =~= Seq::<(usize, Seq<ServerPassenger>, Seq<ServerPassenger>)>::empty());
        s
    }

    /// Every elevator starts moving.
    pub fn moving_simulation(&mut self)
        ensures
            final(self)@ == (SimView { elevators: with_moving(old(self)@.elevators, true), ..old(self)@ }),
            final(self).floors == old(self).floors,
    {
        self.set_moving(true);
    }

    /// Every elevator stops.
    pub fn stop_simulation(&mut self)
        ensures
            final(self)@ == (SimView { elevators: with_moving(old(self)@.elevators, false), ..old(self)@ }),
            final(self).floors == old(self).floors,
    {
        self.set_moving(false);
    }

    fn set_moving(&mut self, moving: bool)
        ensures
            final(self)@ == (SimView { elevators: with_moving(old(self)@.elevators, moving), ..old(self)@ }),
            final(self).floors == old(self).floors,
    {
        let n = self.elevators.len();
        let mut i: usize = 0;
        while i < n
            invariant
                n == self.elevators@.len(),
                n == old(self).elevators@.len(),
                0 <= i <= n,
                forall|j: int| 0 <= j < i ==> #[trigger] self.elevators@[j]@ == (ElevatorRecord {
                    moving,
                    ..old(self).elevators@[j]@
                }),
                forall|j: int| i <= j < n ==> #[trigger] self.elevators@[j]@ == old(self).elevators@[j]@,
                self@ == (SimView { elevators: self@.elevators, ..old(self)@ }),
                self.floors == old(self).floors,
            decreases n - i,
        {
            let e = &self.elevators[i];
            let updated = ServerElevator {
                id: e.id,
                current_floor: e.current_floor,
                current_height: e.current_height,
                moving,
                passengers: e.passengers.clone(),
                capacity: e.capacity,
            };
            assert(updated.passengers@ =~= self.elevators@[i as int].passengers@);
            assert(self.elevators@[i as int]@ == old(self).elevators@[i as int]@);
            assert(updated@ == (ElevatorRecord { moving, ..old(self).elevators@[i as int]@ }));
            let ghost before = self.elevators@;
            self.elevators.set(i, updated);
            assert(self.elevators@ == before.update(i as int, updated));
            assert(self.elevators@[i as int]@ == (ElevatorRecord { moving, ..old(self).elevators@[i as int]@ }));
            i = i + 1;
        }
        assert(self@.elevators =~= with_moving(old(self)@.elevators, moving));
    }

    /// Opening the doors lets every passenger off; closing them changes
    /// nothing.
    pub fn toggle_doors(&mut self, doors_open: bool)
        ensures
            doors_open ==> final(self)@ == (SimView { elevators: emptied(old(self)@.elevators), ..old(self)@ }),
            !doors_open ==> final(self)@ == old(self)@,
            final(self).floors == old(self).floors,
    {
        if doors_open {
            let n = self.elevators.len();
            let mut i: usize = 0;
            while i < n
                invariant
                    n == self.elevators@.len(),
                    n == old(self).elevators@.len(),
                    0 <= i <= n,
                    forall|j: int| 0 <= j < i ==> #[trigger] self.elevators@[j]@ == (ElevatorRecord {
                        passengers: Seq::empty(),
                        ..old(self).elevators@[j]@
                    }),
                    forall|j: int| i <= j < n ==> #[trigger] self.elevators@[j]@ == old(self).elevators@[j]@,
                    self@ == (SimView { elevators: self@.elevators, ..old(self)@ }),
                    self.floors == old(self).floors,
                decreases n - i,
            {
                let e = &self.elevators[i];
                let updated = ServerElevator {
                    id: e.id,
                    current_floor: e.current_floor,
                    current_height: e.current_height,
                    moving: e.moving,
                    passengers: Vec::new(),
                    capacity: e.capacity,
                };
                assert(self.elevators@[i as int]@ == old(self).elevators@[i as int]@);
                assert(updated@ == (ElevatorRecord { passengers: Seq::empty(), ..old(self).elevators@[i as int]@ }));
                let ghost before = self.elevators@;
                self.elevators.set(i, updated);
                assert(self.elevators@ == before.update(i as int, updated));
                i = i + 1;
            }
            assert(self@.elevators =~= emptied(old(self)@.elevators));
        }
    }

    /// Applies new settings, in turn: floor count, elevator count,
    /// capacity, door width, width, depth and floor heights.
    pub fn update_settings(&mut self, settings: Settings)
        requires
            settings.floor_count matches Some(fc) ==> fc as usize != 0usize,
            settings.elevator_count is Some ==> old(self).elevators@.len() < usize::MAX,
        ensures
            final(self)@ == after_settings(old(self)@, settings),
            final(self).floors == old(self).floors,
    {
        let ghost v0 = self@;
        let ghost s = settings;
        if let Some(floor_count) = settings.floor_count {
            self.floor_count = #[verifier::truncate] (floor_count as usize);
            let target_len = self.floor_count - 1;
            let ghost h0 = self.floor_heights@;
            while self.floor_heights.len() < target_len
                invariant
                    self.floor_heights@.len() <= target_len || self.floor_heights@ == h0,
                    h0.len() >= target_len ==> self.floor_heights@ == h0,
                    h0.len() < target_len ==> self.floor_heights@ == h0 + Seq::new(
                        (self.floor_heights@.len() - h0.len()) as nat,
                        |i: int| DEFAULT_FLOOR_HEIGHT_MM,
                    ),
                    self.floor_heights@.len() >= h0.len(),
                    self.elevators == old(self).elevators,
                    self.floors == old(self).floors,
                    self.floor_count == floor_count as usize,
                    target_len == floor_count as usize - 1,
                    self.simulation_time == old(self).simulation_time,
                    self.elevator_count == old(self).elevator_count,
                    self.elevator_door_width == old(self).elevator_door_width,
                    self.elevator_width == old(self).elevator_width,
                    self.elevator_depth == old(self).elevator_depth,
                    self.time_multiplier == old(self).time_multiplier,
                decreases target_len - self.floor_heights@.len(),
            {
                self.floor_heights.push(DEFAULT_FLOOR_HEIGHT_MM);
            }
            assert(self.floor_heights@ =~= extended_heights(h0, floor_count as usize as nat));
        }
        let ghost v1 = self@;
        assert(v1 == match s.floor_count {
            Some(fc) => SimView {
                floor_count: fc as usize as nat,
                floor_heights: extended_heights(v0.floor_heights, fc as usize as nat),
                ..v0
            },
            None => v0,
        });
        if let Some(elevator_count) = settings.elevator_count {
            self.elevator_count = #[verifier::truncate] (elevator_count as usize);
            let capacity = match settings.elevator_capacity {
                Some(c) => c,
                None => DEFAULT_CAPACITY_G,
            };
            let new_elevator = ServerElevator {
                id: self.elevators.len() + 1,
                current_floor: 1,
                current_height: 0,
                moving: false,
                passengers: Vec::new(),
                capacity,
            };
            let ghost e0 = self@.elevators;
            let ghost proto = new_elevator@;
            assert(proto == added_elevator(e0.len() + 1, capacity as nat));
            while self.elevators.len() < self.elevator_count
                invariant
                    self.elevator_count == elevator_count as usize,
                    self@.elevators == e0 + Seq::new(
                        (self@.elevators.len() - e0.len()) as nat,
                        |i: int| proto,
                    ),
                    self@.elevators.len() >= e0.len(),
                    e0.len() <= self.elevator_count ==> self@.elevators.len() <= self.elevator_count,
                    new_elevator@ == proto,
                    self.floors == old(self).floors,
                    self@ == (SimView { elevators: self@.elevators, elevator_count: self.elevator_count as nat, ..v1 }),
                decreases self.elevator_count - self.elevators@.len(),
            {
                let ghost before = records(self.elevators@);
                self.elevators.push(new_elevator.clone_record());
                proof {
                    assert(records(self.elevators@) =~= before.push(proto));
                    assert(records(self.elevators@) =~= e0 + Seq::new(
                        (records(self.elevators@).len() - e0.len()) as nat,
                        |i: int| proto,
                    ));
                }
            }
            let ghost e1 = self@.elevators;
            assert(e1.take(e1.len() as int) =~= e1);
            while self.elevators.len() > self.elevator_count
                invariant
                    self.elevator_count == elevator_count as usize,
                    self@.elevators == e1.take(self@.elevators.len() as int),
                    self@.elevators.len() <= e1.len(),
                    e1.len() >= self.elevator_count ==> self@.elevators.len() >= self.elevator_count,
                    self.floors == old(self).floors,
                    self@ == (SimView { elevators: self@.elevators, elevator_count: self.elevator_count as nat, ..v1 }),
                decreases self.elevators@.len(),
            {
                let ghost before = records(self.elevators@);
                self.elevators.pop();
                assert(records(self.elevators@) =~= before.drop_last());
                assert(records(self.elevators@) =~= e1.take(records(self.elevators@).len() as int));
            }
            proof {
                let cnt = elevator_count as usize as nat;
                if e0.len() < cnt {
                    assert(self@.elevators =~= resized(e0, cnt, capacity as nat));
                } else {
                    assert(self@.elevators =~= resized(e0, cnt, capacity as nat));
                }
            }
        }
        if let Some(capacity) = settings.elevator_capacity {
            let n = self.elevators.len();
            let ghost e2 = self@.elevators;
            let ghost v2 = self@;
            let mut i: usize = 0;
            while i < n
                invariant
                    n == self.elevators@.len(),
                    n == e2.len(),
                    0 <= i <= n,
                    forall|j: int| 0 <= j < i ==> #[trigger] self@.elevators[j] == (ElevatorRecord {
                        capacity: capacity as nat,
                        ..e2[j]
                    }),
                    forall|j: int| i <= j < n ==> #[trigger] self@.elevators[j] == e2[j],
                    self.floors == old(self).floors,
                    self@ == (SimView { elevators: self@.elevators, ..v2 }),
                decreases n - i,
            {
                let e = &self.elevators[i];
                let updated = ServerElevator {
                    id: e.id,
                    current_floor: e.current_floor,
                    current_height: e.current_height,
                    moving: e.moving,
                    passengers: e.passengers.clone(),
                    capacity,
                };
                let ghost before = self.elevators@;
                assert(updated.passengers@ =~= self.elevators@[i as int].passengers@);
                assert(self@.elevators[i as int] == self.elevators@[i as int]@);
                assert(updated@ == (ElevatorRecord { capacity: capacity as nat, ..e2[i as int] }));
                self.elevators.set(i, updated);
                assert(self.elevators@ == before.update(i as int, updated));
                proof {
                    assert forall|j: int| 0 <= j < n && j != i implies #[trigger] self@.elevators[j] == records(before)[j] by {
                        assert(self@.elevators[j] == self.elevators@[j]@);
                    }
                    assert(self@.elevators[i as int] == self.elevators@[i as int]@);
                }
                i = i + 1;
            }
            assert(self@.elevators =~= with_capacity(e2, capacity as nat));
        }
        if let Some(door_width) = settings.elevator_door_width {
            self.elevator_door_width = door_width;
        }
        if let Some(width) = settings.elevator_width {
            self.elevator_width = width;
        }
        if let Some(depth) = settings.elevator_depth {
            self.elevator_depth = depth;
        }
        if let Some(floor_heights) = settings.floor_heights {
            self.floor_heights = floor_heights;
        }
    }

    /// Puts the first elevator with id `elevator_id` at `target_floor` and
    /// sets it moving; tells whether there was one.
    pub fn set_manual_target(&mut self, elevator_id: u64, target_floor: u64) -> (found: bool)
        ensures
            ({
                let i = find_elevator(old(self)@.elevators, elevator_id as usize as nat, old(self)@.elevators.len() as int);
                &&& found == i is Some
                &&& i is None ==> final(self)@ == old(self)@
                &&& i matches Some(k) ==> final(self)@ == (SimView {
                    elevators: old(self)@.elevators.update(k, ElevatorRecord {
                        current_floor: target_floor as usize as nat,
                        current_height: manual_height(old(self)@.floor_heights, target_floor as nat),
                        moving: true,
                        ..old(self)@.elevators[k]
                    }),
                    ..old(self)@
                })
            }),
            final(self).floors == old(self).floors,
    {
        let id = #[verifier::truncate] (elevator_id as usize);
        let n = self.elevators.len();
        let ghost es = self@.elevators;
        let mut found: Option<usize> = None;
        let mut i: usize = 0;
        while i < n
            invariant_except_break
                n == self.elevators@.len(),
                es == self@.elevators,
                0 <= i <= n,
                found is None,
                find_elevator(es, id as nat, i as int) is None,
            ensures
                found matches Some(k) ==> k < n && find_elevator(es, id as nat, n as int) == Some(k as int),
                found is None ==> find_elevator(es, id as nat, n as int) is None,
            decreases n - i,
        {
            if self.elevators[i].id == id {
                assert(find_elevator(es, id as nat, i + 1) == Some(i as int));
                proof {
                    lemma_find_elevator_stable(es, id as nat, i + 1, n as int);
                }
                found = Some(i);
                break;
            }
            i = i + 1;
        }
        match found {
            Some(k) => {
                let height: u128 = if target_floor >= 2 && target_floor - 2 < self.floor_heights.len() as u64 {
                    let h = self.floor_heights[(target_floor - 2) as usize];
                    proof {
                        assert((target_floor - 1) * h <= u128::MAX) by (nonlinear_arith)
                            requires
                                target_floor <= u64::MAX,
                                h <= u32::MAX,
                        ;
                    }
                    (target_floor - 1) as u128 * h as u128
                } else {
                    0
                };
                let e = &self.elevators[k];
                let updated = ServerElevator {
                    id: e.id,
                    current_floor: #[verifier::truncate] (target_floor as usize),
                    current_height: height,
                    moving: true,
                    passengers: e.passengers.clone(),
                    capacity: e.capacity,
                };
                assert(updated.passengers@ =~= self.elevators@[k as int].passengers@);
                let ghost before = self.elevators@;
                self.elevators.set(k, updated);
                proof {
                    assert(self.elevators@ == before.update(k as int, updated));
                    assert(self@.elevators =~= es.update(k as int, ElevatorRecord {
                        current_floor: target_floor as usize as nat,
                        current_height: manual_height(old(self)@.floor_heights, target_floor as nat),
                        moving: true,
                        ..es[k as int]
                    }));
                }
                true
            },
            None => false,
        }
    }

    /// Answers a request, changing the state as the request asks.
    pub fn handle_request(&mut self, request: Request) -> (r: Response)
        requires
            request matches Request::UpdateSettings(Some(s)) ==> {
                &&& s.floor_count matches Some(fc) ==> fc as usize != 0usize
                &&& s.elevator_count is Some ==> old(self).elevators@.len() < usize::MAX
            },
        ensures
            final(self).floors == old(self).floors,
            r@ matches ResponseView::Message { success: false, .. } ==> final(self)@ == old(self)@,
            match request {
                Request::GetState => r@ == ResponseView::State && final(self)@ == old(self)@,
                Request::GetElevators => r@ == ResponseView::Elevators && final(self)@ == old(self)@,
                Request::StartSimulation => {
                    &&& r@ == ResponseView::Message { success: true, message: "Simulation started."@ }
                    &&& final(self)@ == (SimView { elevators: with_moving(old(self)@.elevators, true), ..old(self)@ })
                },
                Request::StopSimulation => {
                    &&& r@ == ResponseView::Message { success: true, message: "Simulation stopped."@ }
                    &&& final(self)@ == (SimView { elevators: with_moving(old(self)@.elevators, false), ..old(self)@ })
                },
                Request::UpdateSettings(Some(s)) => {
                    &&& r@ == ResponseView::Message { success: true, message: "Settings updated."@ }
                    &&& final(self)@ == after_settings(old(self)@, s)
                },
                Request::UpdateSettings(None) => {
                    &&& r@ == ResponseView::Message { success: false, message: "No settings provided."@ }
                    &&& final(self)@ == old(self)@
                },
                Request::ToggleDoors(Some(open)) => {
                    &&& r@ == ResponseView::Message {
                        success: true,
                        message: if open { "Doors have been opened."@ } else { "Doors have been closed."@ },
                    }
                    &&& open ==> final(self)@ == (SimView { elevators: emptied(old(self)@.elevators), ..old(self)@ })
                    &&& !open ==> final(self)@ == old(self)@
                },
                Request::ToggleDoors(None) => {
                    &&& r@ == ResponseView::Message { success: false, message: "No door state provided."@ }
                    &&& final(self)@ == old(self)@
                },
                Request::UpdateSpeed(Some((m, text))) => {
                    &&& r@ == ResponseView::Message {
                        success: true,
                        message: "Time multiplier set to "@ + text@ + "."@,
                    }
                    &&& final(self)@ == (SimView { time_multiplier: m as nat, ..old(self)@ })
                },
                Request::UpdateSpeed(None) => {
                    &&& r@ == ResponseView::Message { success: false, message: "No time multiplier provided."@ }
                    &&& final(self)@ == old(self)@
                },
                Request::SkipToTime(Some(t)) => {
                    &&& r@ == ResponseView::Message {
                        success: true,
                        message: "Simulation time skipped to "@ + t@ + "."@,
                    }
                    &&& final(self)@ == (SimView { simulation_time: t@, ..old(self)@ })
                },
                Request::SkipToTime(None) => {
                    &&& r@ == ResponseView::Message { success: false, message: "No new time provided."@ }
                    &&& final(self)@ == old(self)@
                },
                Request::SetManualTarget(Some(id), Some(floor)) => {
                    let i = find_elevator(old(self)@.elevators, id as usize as nat, old(self)@.elevators.len() as int);
                    &&& i is None ==> r@ == ResponseView::Message { success: false, message: not_found_message(id as nat) }
                        && final(self)@ == old(self)@
                    &&& i matches Some(k) ==> r@ == ResponseView::Message { success: true, message: target_set_message(id as nat, floor as nat) }
                        && final(self)@ == (SimView {
                            elevators: old(self)@.elevators.update(k, ElevatorRecord {
                                current_floor: floor as usize as nat,
                                current_height: manual_height(old(self)@.floor_heights, floor as nat),
                                moving: true,
                                ..old(self)@.elevators[k]
                            }),
                            ..old(self)@
                        })
                },
                Request::SetManualTarget(_, _) => {
                    &&& r@ == ResponseView::Message { success: false, message: "Missing elevator_id or target_floor."@ }
                    &&& final(self)@ == old(self)@
                },
                Request::Unknown => {
                    &&& r@ == ResponseView::Message { success: false, message: "Unknown action."@ }
                    &&& final(self)@ == old(self)@
                },
            },
    {
        match request {
            Request::GetState => Response::State,
            Request::GetElevators => Response::Elevators,
            Request::StartSimulation => {
                self.moving_simulation();
                Response::Message { success: true, message: "Simulation started.".to_owned() }
            },
            Request::StopSimulation => {
                self.stop_simulation();
                Response::Message { success: true, message: "Simulation stopped.".to_owned() }
            },
            Request::UpdateSettings(Some(settings)) => {
                self.update_settings(settings);
                Response::Message { success: true, message: "Settings updated.".to_owned() }
            },
            Request::UpdateSettings(None) => Response::Message {
                success: false,
                message: "No settings provided.".to_owned(),
            },
            Request::ToggleDoors(Some(doors_open)) => {
                self.toggle_doors(doors_open);
                let message = if doors_open {
                    "Doors have been opened.".to_owned()
                } else {
                    "Doors have been closed.".to_owned()
                };
                Response::Message { success: true, message }
            },
            Request::ToggleDoors(None) => Response::Message {
                success: false,
                message: "No door state provided.".to_owned(),
            },
            Request::UpdateSpeed(Some((multiplier, text))) => {
                self.time_multiplier = multiplier;
                let mut message = "Time multiplier set to ".to_owned();
                message.append(text.as_str());
                message.append(".");
                Response::Message { success: true, message }
            },
            Request::UpdateSpeed(None) => Response::Message {
                success: false,
                message: "No time multiplier provided.".to_owned(),
            },
            Request::SkipToTime(Some(new_time)) => {
                let mut message = "Simulation time skipped to ".to_owned();
                message.append(new_time.as_str());
                message.append(".");
                self.simulation_time = new_time;
                Response::Message { success: true, message }
            },
            Request::SkipToTime(None) => Response::Message {
                success: false,
                message: "No new time provided.".to_owned(),
            },
            Request::SetManualTarget(Some(elevator_id), Some(target_floor)) => {
                let found = self.set_manual_target(elevator_id, target_floor);
                let mut message = "Elevator ".to_owned();
                push_decimal(&mut message, elevator_id);
                if found {
                    message.append(" set to floor ");
                    push_decimal(&mut message, target_floor);
                    message.append(".");
                } else {
                    message.append(" not found.");
                }
                Response::Message { success: found, message }
            },
            Request::SetManualTarget(_, _) => Response::Message {
                success: false,
                message: "Missing elevator_id or target_floor.".to_owned(),
            },
            Request::Unknown => Response::Message {
                success: false,
                message: "Unknown action.".to_owned(),
            },
        }
    }
}

proof fn lemma_find_elevator_stable(es: Seq<ElevatorRecord>, id: nat, m: int, n: int)
    requires
        0 <= m <= n,
        find_elevator(es, id, m) is Some,
    ensures
        find_elevator(es, id, n) == find_elevator(es, id, m),
    decreases n - m,
{
    if m < n {
        lemma_find_elevator_stable(es, id, m, n - 1);
    }
}

} // verus!

//! Boarding: passengers walk from a floor queue into a cabin that stands at
//! that floor, front of the queue first, as long as they fit.
use vstd::prelude::*;
use crate::direction::Direction;
use crate::elevator::{Elevator, ElevatorView};
use crate::entity::EntityView;
use crate::queue::{Queue, QueueView};

verus! {

/// Whether a passenger on `floor` wants to ride a cabin heading `heading`:
/// on the ground and top floors everyone does; elsewhere nobody rides away
/// from where they want to go.
pub open spec fn heading_accepts(
    floor: nat,
    max_floor: int,
    heading: Option<Direction>,
    e: EntityView,
) -> bool {
    ||| floor == 0
    ||| floor == max_floor
    ||| !((e.destination() > floor && heading == Some(Direction::Down)) || (e.destination() < floor
        && heading == Some(Direction::Up)))
}

/// Who is asked to board: everyone, or only those who want to ride a cabin
/// heading `heading`.
pub open spec fn accepts(
    check_heading: bool,
    floor: nat,
    max_floor: int,
    heading: Option<Direction>,
    e: EntityView,
) -> bool {
    !check_heading || heading_accepts(floor, max_floor, heading, e)
}

/// The cabin after the queue `q` was offered to it front first, and the
/// passengers who stayed in the queue, in their order: each passenger who is
/// asked and fits boards.
pub open spec fn boarding(
    e: ElevatorView,
    q: Seq<EntityView>,
    check_heading: bool,
    floor: nat,
    max_floor: int,
    heading: Option<Direction>,
) -> (ElevatorView, Seq<EntityView>)
    decreases q.len(),
{
    if q.len() == 0 {
        (e, q)
    } else {
        let x = q[0];
        if accepts(check_heading, floor, max_floor, heading, x) && e.fits(x) {
            boarding(e.loaded(x), q.drop_first(), check_heading, floor, max_floor, heading)
        } else {
            let r = boarding(e, q.drop_first(), check_heading, floor, max_floor, heading);
            (r.0, seq![x] + r.1)
        }
    }
}

/// Queue waiting times of boarding passengers, as the queue records them.
pub open spec fn waits_of(s: Seq<EntityView>) -> Seq<u64> {
    s.map_values(|x: EntityView| x.queue_wait() as u64)
}

/// Offers the queue of `floor` to the cabin, front first: each passenger who
/// is asked and fits leaves the queue, has their waiting time recorded, and
/// boards.
pub fn board_from_floor(
    elevator: &mut Elevator,
    queue: &mut Queue,
    floor: usize,
    check_heading: bool,
    heading: Option<Direction>,
)
    requires
        old(elevator)@.wf(),
        floor < old(queue)@.floors.len(),
    ensures
        ({
            let r = boarding(
                old(elevator)@,
                old(queue)@.floors[floor as int],
                check_heading,
                floor as nat,
                old(queue)@.floors.len() - 1,
                heading,
            );
            &&& final(elevator)@ == r.0
            &&& final(elevator)@.wf()
            &&& final(elevator)@.floors == old(elevator)@.floors
            &&& final(elevator)@.target == old(elevator)@.target
            &&& final(elevator)@.docked_floor == old(elevator)@.docked_floor
            &&& final(queue)@.floors == old(queue)@.floors.update(floor as int, r.1)
            &&& final(queue)@.wait_times == old(queue)@.wait_times + waits_of(
                r.0.entities.skip(old(elevator)@.entities.len() as int),
            )
        }),
{
    let ghost e0 = elevator@;
    let ghost q0 = queue@.floors[floor as int];
    let ghost floors0 = queue@.floors;
    let ghost w0 = queue@.wait_times;
    let ghost n0 = elevator@.entities.len();
    let ghost max_floor = queue@.floors.len() - 1;
    let ghost fin = boarding(e0, q0, check_heading, floor as nat, max_floor, heading);
    let ghost mut kept: Seq<EntityView> = Seq::empty();
    let ghost mut k: int = 0;
    let mut idx: usize = 0;
    proof {
        assert(q0.skip(0) =~= q0);
        assert(elevator@.entities.skip(n0 as int) =~= Seq::<EntityView>::empty());
        assert(w0 + waits_of(Seq::<EntityView>::empty()) =~= w0);
    }
    while idx < queue.floor_len(floor)
        invariant
            0 <= k <= q0.len(),
            floor < queue@.floors.len(),
            queue@.floors.len() == floors0.len(),
            max_floor == queue@.floors.len() - 1,
            queue@.floors == floors0.update(floor as int, kept + q0.skip(k)),
            idx == kept.len(),
            elevator@.wf(),
            elevator@.floors == e0.floors,
            elevator@.target == e0.target,
            elevator@.docked_floor == e0.docked_floor,
            elevator@.entities.len() >= n0,
            elevator@.entities.take(n0 as int) == e0.entities,
            queue@.wait_times == w0 + waits_of(elevator@.entities.skip(n0 as int)),
            fin.0 == boarding(
                elevator@,
                q0.skip(k),
                check_heading,
                floor as nat,
                max_floor,
                heading,
            ).0,
            fin.1 == kept + boarding(
                elevator@,
                q0.skip(k),
                check_heading,
                floor as nat,
                max_floor,
                heading,
            ).1,
        decreases q0.len() - k,
    {
        let max_floor_exec = queue.get_floor_count() - 1;
        let entity = queue.get(floor, idx);
        let ghost x = entity@;
        proof {
            assert(queue@.floors[floor as int] == kept + q0.skip(k));
            assert(k < q0.len());
            assert(x == q0[k]);
            assert(q0.skip(k)[0] == q0[k]);
            assert(q0.skip(k).drop_first() =~= q0.skip(k + 1));
        }
        let mut asked = true;
        if check_heading && floor != 0 && floor != max_floor_exec {
            let destination = entity.get_destination();
            if (destination > floor && heading == Some(Direction::Down)) || (destination < floor
                && heading == Some(Direction::Up)) {
                asked = false;
            }
        }
        assert(asked == accepts(check_heading, floor as nat, max_floor, heading, x));
        if asked && elevator.can_fit(entity) {
            let ghost e_before = elevator@;
            let ghost w_before = queue@.wait_times;
            let removed = queue.remove(floor, idx);
            match removed {
                Some(boarder) => {
                    elevator.load(boarder);
                },
                None => {},
            }
            proof {
                assert((kept + q0.skip(k)).remove(idx as int) =~= kept + q0.skip(k + 1));
                assert(elevator@.entities == e_before.entities.push(x));
                assert(elevator@.entities.take(n0 as int) =~= e0.entities);
                assert(elevator@.entities.skip(n0 as int) =~= e_before.entities.skip(
                    n0 as int,
                ).push(x));
                assert(waits_of(elevator@.entities.skip(n0 as int)) =~= waits_of(
                    e_before.entities.skip(n0 as int),
                ).push(x.queue_wait() as u64));
                assert(queue@.wait_times =~= w0 + waits_of(elevator@.entities.skip(n0 as int)));
                k = k + 1;
            }
        } else {
            proof {
                assert(kept + q0.skip(k) =~= kept.push(x) + q0.skip(k + 1));
                assert(kept.push(x) + boarding(
                    elevator@,
                    q0.skip(k + 1),
                    check_heading,
                    floor as nat,
                    max_floor,
                    heading,
                ).1 =~= kept + (seq![x] + boarding(
                    elevator@,
                    q0.skip(k + 1),
                    check_heading,
                    floor as nat,
                    max_floor,
                    heading,
                ).1));
                kept = kept.push(x);
                k = k + 1;
            }
            idx = idx + 1;
        }
    }
    proof {
        assert(q0.skip(k).len() == 0);
        assert(kept + q0.skip(k) =~= kept);
    }
}

/// A cabin that stands at its floor takes on everyone waiting there who
/// fits, or, when `check_heading` holds, who also wants to go the cabin's
/// way `heading`.
pub open spec fn load_at_floor(
    e: ElevatorView,
    check_heading: bool,
    heading: Option<Direction>,
    q: QueueView,
) -> (ElevatorView, QueueView) {
    if !e.can_board() || q.floors[e.target as int].len() == 0 {
        (e, q)
    } else {
        let r = boarding(e, q.floors[e.target as int], check_heading, e.target, q.floors.len() - 1, heading);
        (
            r.0,
            QueueView {
                floors: q.floors.update(e.target as int, r.1),
                wait_times: q.wait_times + waits_of(r.0.entities.skip(e.entities.len() as int)),
            },
        )
    }
}

/// Lets everyone who waits at the floor where the cabin stands and fits
/// board, front of the queue first (or, with `check_heading`, only those who
/// also want to go the cabin's way `heading`).
pub fn load_at_current_floor(
    elevator: &mut Elevator,
    queue: &mut Queue,
    check_heading: bool,
    heading: Option<Direction>,
)
    requires
        old(elevator)@.wf(),
        old(elevator)@.target < old(queue)@.floors.len(),
    ensures
        ({
            let r = load_at_floor(old(elevator)@, check_heading, heading, old(queue)@);
            final(elevator)@ == r.0 && final(queue)@ == r.1
        }),
        final(elevator)@.wf(),
        final(elevator)@.floors == old(elevator)@.floors,
        final(elevator)@.target == old(elevator)@.target,
        final(queue)@.floors.len() == old(queue)@.floors.len(),
{
    if !elevator.can_board() {
        return;
    }
    if let Some(floor) = elevator.get_current_floor() {
        if queue.is_floor_empty(floor) {
            return;
        }
        let ghost q_before = queue@;
        board_from_floor(elevator, queue, floor, check_heading, heading);
        proof {
            let r = boarding(
                old(elevator)@,
                q_before.floors[floor as int],
                check_heading,
                floor as nat,
                q_before.floors.len() - 1,
                heading,
            );
            assert(queue@ == QueueView {
                floors: q_before.floors.update(floor as int, r.1),
                wait_times: q_before.wait_times + waits_of(
                    r.0.entities.skip(old(elevator)@.entities.len() as int),
                ),
            });
        }
    }
}

} // verus!

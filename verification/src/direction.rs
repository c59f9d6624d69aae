//! Hall calls: the direction that the call buttons of a floor ask for.
use vstd::prelude::*;

verus! {

/// What the call buttons of one floor ask for.
#[derive(Debug, Clone, Copy, PartialEq, Eq, Structural)]
pub enum Direction {
    Up,
    Down,
    Both,
    NoCall,
}

/// The number by which a call is reported to Python: up is `1`, down `-1`,
/// both `0`, and no call is no number.
pub open spec fn call_code_spec(d: Direction) -> Option<i32> {
    match d {
        Direction::Up => Option::Some(1i32),
        Direction::Down => Option::Some(-1i32),
        Direction::Both => Option::Some(0i32),
        Direction::NoCall => Option::None,
    }
}

pub fn call_code(d: Direction) -> (r: Option<i32>)
    ensures
        r == call_code_spec(d),
{
    match d {
        Direction::Up => Option::Some(1),
        Direction::Down => Option::Some(-1),
        Direction::Both => Option::Some(0),
        Direction::NoCall => Option::None,
    }
}

/// The report of each floor's call, floor by floor.
pub fn call_codes(calls: &Vec<Direction>) -> (r: Vec<Option<i32>>)
    ensures
        r@ == calls@.map_values(|d: Direction| call_code_spec(d)),
{
    let mut result: Vec<Option<i32>> = Vec::new();
    let n = calls.len();
    let mut i: usize = 0;
    while i < n
        invariant
            n == calls@.len(),
            0 <= i <= n,
            result@ == calls@.take(i as int).map_values(|d: Direction| call_code_spec(d)),
        decreases n - i,
    {
        result.push(call_code(calls[i]));
        proof {
            assert(calls@.take(i + 1) =~= calls@.take(i as int).push(calls@[i as int]));
        }
        i = i + 1;
        assert(result@ =~= calls@.take(i as int).map_values(|d: Direction| call_code_spec(d)));
    }
    assert(calls@.take(n as int) =~= calls@);
    result
}

/// Whether a call asks to go up.
pub open spec fn calls_up(d: Direction) -> bool {
    d == Direction::Up || d == Direction::Both
}

/// Whether a call asks to go down.
pub open spec fn calls_down(d: Direction) -> bool {
    d == Direction::Down || d == Direction::Both
}

} // verus!

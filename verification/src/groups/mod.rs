//! Groups of series that are sampled together, and what a chart of such a
//! group needs to know of its values.

use vstd::prelude::*;

pub mod generic;
pub mod memory;
pub mod pipeline;

verus! {

/// The series of a group as they are plotted: each key with its values.
pub type Plotted = Seq<(String, Vec<u64>)>;

/// Whether `value` is one of the values of `map`.
pub open spec fn holds(map: Plotted, value: u64) -> bool {
    exists|i: int, j: int|
        0 <= i < map.len() && 0 <= j < map[i].1@.len() && #[trigger] map[i].1@[j] == value
}

/// Whether `map` holds no value at all.
pub open spec fn is_bare(map: Plotted) -> bool {
    forall|i: int| 0 <= i < map.len() ==> (#[trigger] map[i]).1@.len() == 0
}

/// Whether `value` is the largest value of `map`.
pub open spec fn is_greatest(map: Plotted, value: u64) -> bool {
    &&& holds(map, value)
    &&& forall|i: int, j: int|
        0 <= i < map.len() && 0 <= j < map[i].1@.len() ==> #[trigger] map[i].1@[j] <= value
}

/// Whether `value` is the smallest value of `map`.
pub open spec fn is_least(map: Plotted, value: u64) -> bool {
    &&& holds(map, value)
    &&& forall|i: int, j: int|
        0 <= i < map.len() && 0 <= j < map[i].1@.len() ==> #[trigger] map[i].1@[j] >= value
}

/// Whether `value` stands at place `at.1` of series `at.0` of `map`.
spec fn found_at(map: Plotted, at: (int, int), value: u64) -> bool {
    &&& 0 <= at.0 < map.len()
    &&& 0 <= at.1 < map[at.0].1@.len()
    &&& map[at.0].1@[at.1] == value
}

/// Why a range could not be given.
#[derive(Clone, Copy, Debug, PartialEq, Eq, Structural)]
pub enum RangeError {
    /// There is no value to take a range of.
    NoValues,
}

impl RangeError {
    /// The error in words.
    pub fn message(&self) -> (text: String)
        ensures
            text@ == "data does not have any values"@,
    {
        String::from_str("data does not have any values")
    }
}

/// The range of the vertical axis for `map`: from its smallest value to its
/// largest, or from zero where the two are the same. There is no range
/// where there is no value.
pub fn get_min_max_uint(map: &Vec<(String, Vec<u64>)>) -> (range: Result<(u64, u64), RangeError>)
    ensures
        match range {
            Ok((min, max)) => {
                &&& is_greatest(map@, max)
                &&& if is_least(map@, max) {
                    min == 0
                } else {
                    is_least(map@, min)
                }
            },
            Err(error) => is_bare(map@) && error == RangeError::NoValues,
        },
{
    let mut any = false;
    let mut low: u64 = 0;
    let mut high: u64 = 0;
    let ghost mut low_at: (int, int) = (0, 0);
    let ghost mut high_at: (int, int) = (0, 0);
    let mut i: usize = 0;
    while i < map.len()
        invariant
            i <= map@.len(),
            any ==> found_at(map@, low_at, low) && found_at(map@, high_at, high),
            any ==> forall|a: int, b: int|
                0 <= a < i && 0 <= b < map@[a].1@.len() ==> low <= #[trigger] map@[a].1@[b] <= high,
            !any ==> forall|a: int| 0 <= a < i ==> (#[trigger] map@[a]).1@.len() == 0,
        decreases map@.len() - i,
    {
        let values = &map[i].1;
        let mut j: usize = 0;
        while j < values.len()
            invariant
                i < map@.len(),
                j <= values@.len(),
                values@ == map@[i as int].1@,
                any ==> found_at(map@, low_at, low) && found_at(map@, high_at, high),
                any ==> forall|a: int, b: int|
                    0 <= a < i && 0 <= b < map@[a].1@.len() ==> low <= #[trigger] map@[a].1@[b]
                        <= high,
                any ==> forall|b: int|
                    0 <= b < j ==> low <= #[trigger] map@[i as int].1@[b] <= high,
                !any ==> j == 0,
                !any ==> forall|a: int| 0 <= a < i ==> (#[trigger] map@[a]).1@.len() == 0,
            decreases values@.len() - j,
        {
            let value = values[j];
            if !any || value < low {
                low = value;
                proof {
                    low_at = (i as int, j as int);
                }
            }
            if !any || value > high {
                high = value;
                proof {
                    high_at = (i as int, j as int);
                }
            }
            any = true;
            j += 1;
        }
        i += 1;
    }
    if any {
        Ok((if low == high { 0 } else { low }, high))
    } else {
        Err(RangeError::NoValues)
    }
}

} // verus!

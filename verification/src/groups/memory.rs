//! The memory statistics: which of their series are charted.

use vstd::prelude::*;

verus! {

/// The key of the counter that sums up all memory ever allocated. It only
/// grows, and soon dwarfs every other series.
pub const MEMORY_TOTAL: &'static str = "beat.memstats.memory_total";

/// The series to chart: all but the total, in order.
pub fn without_total<T>(series: Vec<(String, Vec<T>)>) -> (charted: Vec<(String, Vec<T>)>)
    ensures
        charted@ == series@.filter(|one: (String, Vec<T>)| one.0@ != MEMORY_TOTAL@),
{
    let ghost wanted = |one: (String, Vec<T>)| one.0@ != MEMORY_TOTAL@;
    let ghost given = series@;
    let total = String::from_str(MEMORY_TOTAL);
    let mut charted: Vec<(String, Vec<T>)> = Vec::new();
    for one in it: series
        invariant
            it.seq() == given,
            total@ == MEMORY_TOTAL@,
            wanted == |one: (String, Vec<T>)| one.0@ != MEMORY_TOTAL@,
            charted@ == given.take(it.index() as int).filter(wanted),
    {
        assert(given.take(it.index() + 1).filter(wanted) == if wanted(one) {
            given.take(it.index() as int).filter(wanted).push(one)
        } else {
            given.take(it.index() as int).filter(wanted)
        }) by {
            reveal(Seq::filter);
            assert(given.take(it.index() + 1).drop_last() =~= given.take(it.index() as int));
        }
        if !(one.0 == total) {
            charted.push(one);
        }
    }
    assert(given.take(given.len() as int) =~= given);
    charted
}

} // verus!

//! The pipeline's queue: which of its series count events.

use vstd::prelude::*;

verus! {

/// Whether `needle` stands somewhere in `text`.
pub open spec fn occurs(text: Seq<char>, needle: Seq<char>) -> bool {
    exists|i: int|
        0 <= i <= text.len() - needle.len() && #[trigger] text.subrange(i, i + needle.len())
            == needle
}

/// Whether the series under `key` counts events: the queue also reports
/// sizes in bytes and percentages, which do not.
pub open spec fn counts_events(key: Seq<char>) -> bool {
    !occurs(key, "bytes"@) && !occurs(key, "pct"@)
}

/// The characters of `text`.
fn chars_of(text: &str) -> (chars: Vec<char>)
    ensures
        chars@ == text@,
{
    let mut chars: Vec<char> = Vec::new();
    for c in it: text.chars()
        invariant
            it.seq() == text@,
            chars@ == text@.take(it.index() as int),
    {
        chars.push(c);
    }
    chars
}

/// Whether `needle` stands somewhere in `text`.
pub fn contains(text: &str, needle: &str) -> (found: bool)
    ensures
        found == occurs(text@, needle@),
{
    let hay = chars_of(text);
    let pin = chars_of(needle);
    if pin.len() > hay.len() {
        return false;
    }
    let last = hay.len() - pin.len();
    let mut i: usize = 0;
    loop
        invariant
            hay@ == text@,
            pin@ == needle@,
            pin@.len() <= hay@.len() <= usize::MAX,
            last == hay@.len() - pin@.len(),
            i <= last,
            forall|k: int| 0 <= k < i ==> #[trigger] hay@.subrange(k, k + pin@.len()) != pin@,
        decreases last - i,
    {
        let mut j: usize = 0;
        while j < pin.len() && hay[i + j] == pin[j]
            invariant
                i <= last,
                pin@.len() <= hay@.len() <= usize::MAX,
                last == hay@.len() - pin@.len(),
                j <= pin@.len(),
                forall|m: int| 0 <= m < j ==> hay@[i + m] == pin@[m],
            decreases pin@.len() - j,
        {
            j += 1;
        }
        if j == pin.len() {
            assert(hay@.subrange(i as int, i + pin@.len()) =~= pin@);
            return true;
        }
        if i == last {
            return false;
        }
        i += 1;
    }
}

/// Whether the series under `key` counts events.
pub fn is_count(key: &str) -> (counts: bool)
    ensures
        counts == counts_events(key@),
{
    !contains(key, "bytes") && !contains(key, "pct")
}

/// Those series of the queue that count events, in order.
pub fn queue_counts(queue: Vec<(String, Vec<u64>)>) -> (counts: Vec<(String, Vec<u64>)>)
    ensures
        counts@ == queue@.filter(|series: (String, Vec<u64>)| counts_events(series.0@)),
{
    let ghost wanted = |series: (String, Vec<u64>)| counts_events(series.0@);
    let ghost given = queue@;
    let mut counts: Vec<(String, Vec<u64>)> = Vec::new();
    for series in it: queue
        invariant
            it.seq() == given,
            wanted == |series: (String, Vec<u64>)| counts_events(series.0@),
            counts@ == given.take(it.index() as int).filter(wanted),
    {
        assert(given.take(it.index() + 1).filter(wanted) == if wanted(series) {
            given.take(it.index() as int).filter(wanted).push(series)
        } else {
            given.take(it.index() as int).filter(wanted)
        }) by {
            reveal(Seq::filter);
            assert(given.take(it.index() + 1).drop_last() =~= given.take(it.index() as int));
        }
        if is_count(series.0.as_str()) {
            counts.push(series);
        }
    }
    assert(given.take(given.len() as int) =~= given);
    counts
}

} // verus!

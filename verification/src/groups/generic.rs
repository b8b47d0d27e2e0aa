//! A group of series of one numeric type, found in the first snapshot that
//! holds any of them and extended by every snapshot after it.

use crate::json::{as_number, as_object, decoded_u64, members, number_to_u64, Members, Node};
use crate::path::{
    below, extend_below, flatten, flatten_map, get_root_elem, is_plain, keyed, law_leaves_resolve,
    law_resolve_composes, lemma_plain_below, resolve, Leaves, Object,
};
use serde_json::Number;
use std::marker::PhantomData;
use vstd::prelude::*;

verus! {

/// A raw value that can be decoded from a JSON number.
pub trait FromNumber: Sized {
    /// What decoding `number` gives: the raw value, or nothing where the
    /// number does not fit the type.
    spec fn decoded(number: Number) -> Option<Self>;

    fn decode(number: &Number) -> (raw: Option<Self>)
        ensures
            raw == Self::decoded(*number),
    ;
}

impl FromNumber for u64 {
    open spec fn decoded(number: Number) -> Option<u64> {
        decoded_u64(number)
    }

    fn decode(number: &Number) -> (raw: Option<u64>) {
        number_to_u64(number)
    }
}

/// A conversion applied to every raw value before it is stored, for example
/// from bytes to kilobytes. It has no state: the same raw value always gives
/// the same stored value.
pub trait Processor: Sized {
    /// The type of the raw value, as decoded from the snapshot.
    type InValue;

    /// The type of the stored value.
    type OutValue;

    /// The stored value for `raw`.
    spec fn processed(raw: Self::InValue) -> Self::OutValue;

    fn new() -> Self;

    fn process(&self, raw: Self::InValue) -> (out: Self::OutValue)
        ensures
            out == Self::processed(raw),
    ;
}

/// The conversion that stores every raw value as it is.
pub struct NoOpProcess<T> {
    data_type: PhantomData<T>,
}

impl<T> Processor for NoOpProcess<T> {
    type InValue = T;

    type OutValue = T;

    open spec fn processed(raw: T) -> T {
        raw
    }

    fn new() -> Self {
        Self { data_type: PhantomData }
    }

    fn process(&self, raw: T) -> (out: T) {
        raw
    }
}

/// One series as a contract sees it: the path it is stored under and the
/// values appended to it so far, oldest first.
pub struct Series<T> {
    pub key: Seq<char>,
    pub values: Seq<T>,
}

/// The numbers that a requested path stands for in a snapshot with these
/// members: the number it leads to, under the path itself; or every numeric
/// leaf of the object it leads to, each below the path; or none.
pub open spec fn found(members: Members, path: Seq<char>) -> Leaves {
    match resolve(members, path) {
        Some(Node::Number(number)) => seq![(path, number)],
        Some(Node::Object(inner)) => below(path, flatten(inner)),
        _ => Seq::empty(),
    }
}

/// The series that the first `n` of `leaves` start: one for each leaf whose
/// number decodes, holding the processed value.
pub open spec fn seeded<P: Processor>(
    leaves: Leaves,
    n: nat,
) -> Seq<Series<P::OutValue>> where P::InValue: FromNumber
    decreases n,
{
    if n == 0 || n > leaves.len() {
        Seq::empty()
    } else {
        let (key, number) = leaves[n - 1];
        seeded::<P>(leaves, (n - 1) as nat) + match P::InValue::decoded(number) {
            Some(raw) => seq![Series { key, values: seq![P::processed(raw)] }],
            None => Seq::empty(),
        }
    }
}

/// The series that the first `n` requested paths start in a snapshot with
/// these members, in the order of the requests.
pub open spec fn discovered<P: Processor>(
    members: Members,
    requested: Seq<Seq<char>>,
    n: nat,
) -> Seq<Series<P::OutValue>> where P::InValue: FromNumber
    decreases n,
{
    if n == 0 || n > requested.len() {
        Seq::empty()
    } else {
        let leaves = found(members, requested[n - 1]);
        discovered::<P>(members, requested, (n - 1) as nat) + seeded::<P>(leaves, leaves.len())
    }
}

/// The value that a snapshot with these members adds to the series stored
/// under `key`: the processed number at that path, if there is a number and
/// it decodes.
pub open spec fn sample<P: Processor>(
    members: Members,
    key: Seq<char>,
) -> Option<P::OutValue> where P::InValue: FromNumber {
    match resolve(members, key) {
        Some(Node::Number(number)) => match P::InValue::decoded(number) {
            Some(raw) => Some(P::processed(raw)),
            None => None,
        },
        _ => None,
    }
}

/// `series` after a snapshot with these members: each one longer by its
/// sample, or unchanged where the snapshot has none for it.
pub open spec fn appended<P: Processor>(
    members: Members,
    series: Seq<Series<P::OutValue>>,
) -> Seq<Series<P::OutValue>> where P::InValue: FromNumber {
    Seq::new(
        series.len(),
        |i: int|
            Series {
                key: series[i].key,
                values: match sample::<P>(members, series[i].key) {
                    Some(value) => series[i].values.push(value),
                    None => series[i].values,
                },
            },
    )
}

/// `copy` has a clone of each value of `source`, in the same order.
pub open spec fn copy_of<T: Clone>(source: Seq<T>, copy: Seq<T>) -> bool {
    &&& copy.len() == source.len()
    &&& forall|j: int| 0 <= j < source.len() ==> cloned(#[trigger] source[j], copy[j])
}

/// Once series have been found, an update neither adds a series nor drops
/// or renames one: each keeps its key, and gains its sample and nothing more.
pub proof fn law_series_are_final<P: Processor>(
    members: Members,
    series: Seq<Series<P::OutValue>>,
) where P::InValue: FromNumber
    ensures
        appended::<P>(members, series).len() == series.len(),
        forall|i: int|
            0 <= i < series.len() ==> {
                let after = #[trigger] appended::<P>(members, series)[i];
                &&& after.key == series[i].key
                &&& after.values == series[i].values || (after.values.len()
                    == series[i].values.len() + 1 && after.values.drop_last()
                    == series[i].values)
            },
{
}

/// Every series among those that the first `n` leaves start was started by
/// one of them, whose number decodes.
proof fn lemma_seed_owner<P: Processor>(
    leaves: Leaves,
    n: nat,
    k: int,
) -> (j: int) where P::InValue: FromNumber
    requires
        n <= leaves.len(),
        0 <= k < seeded::<P>(leaves, n).len(),
    ensures
        0 <= j < n,
        P::InValue::decoded(leaves[j].1) matches Some(raw) && seeded::<P>(leaves, n)[k] == (Series {
            key: leaves[j].0,
            values: seq![P::processed(raw)],
        }),
    decreases n,
{
    let fewer = (n - 1) as nat;
    if k < seeded::<P>(leaves, fewer).len() {
        lemma_seed_owner::<P>(leaves, fewer, k)
    } else {
        n - 1
    }
}

/// Every series among those that the first `n` requests start was started
/// by a leaf of one of them.
proof fn lemma_discovery_owner<P: Processor>(
    members: Members,
    requested: Seq<Seq<char>>,
    n: nat,
    k: int,
) -> (at: (int, int)) where P::InValue: FromNumber
    requires
        n <= requested.len(),
        0 <= k < discovered::<P>(members, requested, n).len(),
    ensures
        0 <= at.0 < n,
        0 <= at.1 < found(members, requested[at.0]).len(),
        P::InValue::decoded(found(members, requested[at.0])[at.1].1) matches Some(raw)
            && discovered::<P>(members, requested, n)[k] == (Series {
            key: found(members, requested[at.0])[at.1].0,
            values: seq![P::processed(raw)],
        }),
    decreases n,
{
    let fewer = (n - 1) as nat;
    let earlier = discovered::<P>(members, requested, fewer);
    if k < earlier.len() {
        lemma_discovery_owner::<P>(members, requested, fewer, k)
    } else {
        let leaves = found(members, requested[n - 1]);
        let j = lemma_seed_owner::<P>(leaves, leaves.len(), k - earlier.len());
        (n - 1, j)
    }
}

/// In a snapshot whose keys are plain, every series that discovery starts
/// holds one value, and that is the sample the snapshot has for the series:
/// a series gets from the snapshot that starts it what it would have got
/// from it had it existed before.
pub proof fn law_discovery_takes_the_sample<P: Processor>(
    members: Members,
    requested: Seq<Seq<char>>,
    k: int,
) where P::InValue: FromNumber
    requires
        is_plain(members),
        0 <= k < discovered::<P>(members, requested, requested.len()).len(),
    ensures
        ({
            let series = discovered::<P>(members, requested, requested.len())[k];
            &&& series.values.len() == 1
            &&& sample::<P>(members, series.key) == Some(series.values[0])
        }),
{
    let (i, j) = lemma_discovery_owner::<P>(members, requested, requested.len(), k);
    let path = requested[i];
    match resolve(members, path) {
        Some(Node::Object(inner)) => {
            lemma_plain_below(members, path);
            law_leaves_resolve(inner, j);
            law_resolve_composes(members, path, flatten(inner)[j].0);
        },
        _ => {},
    }
}

/// An individual series: the path it was found under and its values.
struct MetricField<T> {
    key: String,
    values: Vec<T>,
}

/// A group of series of one type. The paths it is asked for are fixed when
/// it is made; the series themselves are found in the first snapshot that
/// holds any of them.
pub struct Generic<T, Proc: Processor> {
    user_key: Vec<String>,
    data: Vec<MetricField<T>>,
    datapoints: usize,
    processor: Proc,
}

impl<T, Proc> Generic<T, Proc> where Proc: Processor<OutValue = T>, Proc::InValue: FromNumber {
    /// The paths the group was asked for.
    pub closed spec fn requested(&self) -> Seq<Seq<char>> {
        Seq::new(self.user_key@.len(), |i: int| self.user_key@[i]@)
    }

    /// The series found so far.
    pub closed spec fn series(&self) -> Seq<Series<T>> {
        Seq::new(
            self.data@.len(),
            |i: int| Series { key: self.data@[i].key@, values: self.data@[i].values@ },
        )
    }

    /// The number of snapshots the group has been updated with.
    pub closed spec fn updates(&self) -> nat {
        self.datapoints as nat
    }

    /// The series after an update with a snapshot that has these members.
    ///
    /// While no series has been found, the snapshot is searched for the
    /// requested paths, and each series it starts holds its first value. From
    /// then on the set of series is fixed and each is extended on its own.
    pub open spec fn series_after(&self, members: Members) -> Seq<Series<T>> {
        if self.series().len() == 0 {
            discovered::<Proc>(members, self.requested(), self.requested().len())
        } else {
            appended::<Proc>(members, self.series())
        }
    }

    /// A group for the paths in `group`, each in dot notation. A path may
    /// lead to a single number or to an object, which stands for all the
    /// numbers below it. No series exists before the first update.
    pub fn new(group: Vec<String>, processor: Proc) -> (made: Generic<T, Proc>)
        ensures
            made.requested() == Seq::new(group@.len(), |i: int| group@[i]@),
            made.series() == Seq::<Series<T>>::empty(),
            made.updates() == 0,
    {
        Generic { user_key: group, data: Vec::new(), datapoints: 0, processor }
    }

    /// The number of snapshots the group has been updated with.
    pub fn datapoints(&self) -> (count: usize)
        ensures
            count == self.updates(),
    {
        self.datapoints
    }

    /// The series found so far, in the order in which they were found, each
    /// with a copy of its values.
    pub fn plot(&self) -> (plotted: Vec<(String, Vec<T>)>) where T: Clone
        ensures
            plotted@.len() == self.series().len(),
            forall|i: int|
                0 <= i < plotted@.len() ==> (#[trigger] plotted@[i]).0@ == self.series()[i].key
                    && copy_of(self.series()[i].values, plotted@[i].1@),
    {
        let mut acc: Vec<(String, Vec<T>)> = Vec::new();
        let mut i: usize = 0;
        while i < self.data.len()
            invariant
                i <= self.data@.len(),
                acc@.len() == i,
                forall|k: int|
                    0 <= k < i ==> (#[trigger] acc@[k]).0@ == self.data@[k].key@ && copy_of(
                        self.data@[k].values@,
                        acc@[k].1@,
                    ),
            decreases self.data@.len() - i,
        {
            acc.push((self.data[i].key.clone(), self.data[i].values.clone()));
            i += 1;
        }
        acc
    }

    /// Takes one snapshot in and counts it.
    ///
    /// While the group has no series, it looks for them: each requested path
    /// that leads to a number starts one series, each that leads to an object
    /// starts one for every number below it, and each series starts with the
    /// value found. A number that does not decode starts none. Once the group
    /// has series, each gets the value at its own key, or nothing where the
    /// snapshot has no number there that decodes.
    pub fn update(&mut self, root: &Object)
        requires
            old(self).updates() < usize::MAX,
        ensures
            final(self).requested() == old(self).requested(),
            final(self).updates() == old(self).updates() + 1,
            final(self).series() == old(self).series_after(members(*root)),
    {
        if self.data.len() == 0 {
            self.init_metrics(root);
        } else {
            let mut i: usize = 0;
            while i < self.data.len()
                invariant
                    i <= self.data@.len(),
                    self.data@.len() == old(self).data@.len(),
                    self.user_key == old(self).user_key,
                    self.datapoints == old(self).datapoints,
                    forall|k: int|
                        0 <= k < i ==> (#[trigger] self.data@[k]).key == old(self).data@[k].key
                            && self.data@[k].values@ == match sample::<Proc>(
                            members(*root),
                            self.data@[k].key@,
                        ) {
                            Some(value) => old(self).data@[k].values@.push(value),
                            None => old(self).data@[k].values@,
                        },
                    forall|k: int|
                        i <= k < self.data@.len() ==> (#[trigger] self.data@[k]) == old(
                            self,
                        ).data@[k],
                decreases self.data@.len() - i,
            {
                match get_root_elem(root, self.data[i].key.as_str()) {
                    Some(val) => match as_number(val) {
                        Some(number) => match Proc::InValue::decode(number) {
                            Some(raw) => {
                                let value = self.processor.process(raw);
                                self.data[i].values.push(value);
                            },
                            None => {},
                        },
                        None => {},
                    },
                    None => {},
                }
                i += 1;
            }
        }
        self.datapoints += 1;
    }

    /// Searches `root` for the requested paths and starts a series for every
    /// number found under them that decodes.
    fn init_metrics(&mut self, root: &Object)
        requires
            old(self).data@.len() == 0,
        ensures
            final(self).user_key == old(self).user_key,
            final(self).datapoints == old(self).datapoints,
            final(self).series() == discovered::<Proc>(
                members(*root),
                old(self).requested(),
                old(self).requested().len(),
            ),
    {
        let mut i: usize = 0;
        while i < self.user_key.len()
            invariant
                i <= self.user_key@.len(),
                self.user_key == old(self).user_key,
                self.datapoints == old(self).datapoints,
                self.series() == discovered::<Proc>(members(*root), self.requested(), i as nat),
            decreases self.user_key@.len() - i,
        {
            let raw_fields = raw_fields(root, self.user_key[i].as_str());
            let ghost before = self.series();
            let mut j: usize = 0;
            while j < raw_fields.len()
                invariant
                    j <= raw_fields@.len(),
                    self.user_key == old(self).user_key,
                    self.datapoints == old(self).datapoints,
                    self.series() == before + seeded::<Proc>(keyed(raw_fields@), j as nat),
                decreases raw_fields@.len() - j,
            {
                let ghost held = self.series();
                match Proc::InValue::decode(&raw_fields[j].1) {
                    Some(raw) => {
                        let mut values = Vec::new();
                        values.push(self.processor.process(raw));
                        self.data.push(MetricField { key: raw_fields[j].0.clone(), values });
                        assert(self.series() =~= held.push(
                            Series {
                                key: raw_fields@[j as int].0@,
                                values: seq![Proc::processed(raw)],
                            },
                        ));
                    },
                    None => {},
                }
                j += 1;
            }
            i += 1;
        }
    }
}

impl<T, Proc> From<Vec<String>> for Generic<T, Proc> where
    Proc: Processor<OutValue = T>,
    Proc::InValue: FromNumber,
 {
    /// A group for the paths in `value`, with a new processor.
    fn from(value: Vec<String>) -> (made: Self)
        ensures
            made.requested() == Seq::new(value@.len(), |i: int| value@[i]@),
            made.series() == Seq::<Series<T>>::empty(),
            made.updates() == 0,
    {
        Generic::new(value, Proc::new())
    }
}

impl<T, Proc> vstd::std_specs::convert::FromSpecImpl<Vec<String>> for Generic<T, Proc> where
    Proc: Processor<OutValue = T>,
    Proc::InValue: FromNumber,
 {
    /// The conversion is specified on `from` itself, over what the group
    /// is asked for and holds.
    open spec fn obeys_from_spec() -> bool {
        false
    }

    open spec fn from_spec(value: Vec<String>) -> Self {
        arbitrary()
    }
}

impl<'a, T, Proc> From<Vec<&'a str>> for Generic<T, Proc> where
    Proc: Processor<OutValue = T>,
    Proc::InValue: FromNumber,
 {
    /// A group for the paths in `value`, with a new processor.
    fn from(value: Vec<&'a str>) -> (made: Self)
        ensures
            made.requested() == Seq::new(value@.len(), |i: int| value@[i]@),
            made.series() == Seq::<Series<T>>::empty(),
            made.updates() == 0,
    {
        let mut group: Vec<String> = Vec::new();
        let mut i: usize = 0;
        while i < value.len()
            invariant
                i <= value@.len(),
                group@.len() == i,
                forall|k: int| 0 <= k < i ==> (#[trigger] group@[k])@ == value@[k]@,
            decreases value@.len() - i,
        {
            group.push(String::from_str(value[i]));
            i += 1;
        }
        let made = Generic::new(group, Proc::new());
        made
    }
}

impl<'a, T, Proc> vstd::std_specs::convert::FromSpecImpl<Vec<&'a str>> for Generic<T, Proc> where
    Proc: Processor<OutValue = T>,
    Proc::InValue: FromNumber,
 {
    /// The conversion is specified on `from` itself, over what the group
    /// is asked for and holds.
    open spec fn obeys_from_spec() -> bool {
        false
    }

    open spec fn from_spec(value: Vec<&'a str>) -> Self {
        arbitrary()
    }
}

/// The numbers that `metric_field` stands for in `root`, each with the path
/// it will be stored under.
fn raw_fields(root: &Object, metric_field: &str) -> (fields: Vec<(String, Number)>)
    ensures
        keyed(fields@) == found(members(*root), metric_field@),
{
    let mut fields: Vec<(String, Number)> = Vec::new();
    match get_root_elem(root, metric_field) {
        Some(val) => match as_number(val) {
            Some(number) => {
                fields.push((String::from_str(metric_field), number.clone()));
            },
            None => match as_object(val) {
                Some(inner) => {
                    let flat_values = flatten_map(inner);
                    extend_below(&mut fields, metric_field, flat_values);
                },
                None => {},
            },
        },
        None => {},
    }
    fields
}

} // verus!

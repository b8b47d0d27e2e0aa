//! Metric fields, and groups of fields that are updated together and shown
//! as one chart.

use crate::config::Settings;
use crate::fields::{GenericMetricFields, KbMetricFields};
use crate::json::{as_number, members, Members, Node};
use crate::path::{get_root_elem, resolve, Object};
use serde_json::Number;
use vstd::prelude::*;

verus! {

/// A metric field as a contract sees it.
pub struct FieldView {
    /// The dotted path of the metric, which is also its name.
    pub key: Seq<char>,
    /// The numbers pushed so far, oldest first, as they arrived.
    pub samples: Seq<Number>,
    /// Whether the field is left out of what is shown.
    pub hidden: bool,
    /// What a number is divided by when it is shown.
    pub divisor: nat,
}

/// What every kind of metric field can do, whatever it does to its numbers
/// when they are shown.
pub trait MetricField: View<V = FieldView> {
    /// The number pushed last, if any was pushed.
    fn last(&self) -> (last: Option<&Number>)
        ensures
            last == if self@.samples.len() == 0 {
                None
            } else {
                Some(&self@.samples.last())
            },
    ;

    /// The key of the metric.
    fn name(&self) -> (name: String)
        ensures
            name@ == self@.key,
    ;

    /// Adds a number as the newest.
    fn push(&mut self, value: Number)
        ensures
            final(self)@ == (FieldView { samples: old(self)@.samples.push(value), ..old(self)@ }),
    ;

    /// Whether the metric is left out of what is shown.
    fn hidden(&self) -> (hidden: bool)
        ensures
            hidden == self@.hidden,
    ;

    /// The numbers pushed so far, oldest first, as they arrived.
    fn samples(&self) -> (samples: &Vec<Number>)
        ensures
            samples@ == self@.samples,
    ;

    /// What a number of this field is divided by when it is shown.
    fn divisor(&self) -> (divisor: u64)
        ensures
            divisor == self@.divisor,
            divisor > 0,
    ;
}

/// A metric field of either kind.
#[derive(Clone, Debug)]
pub enum Field {
    Kb(KbMetricFields),
    Generic(GenericMetricFields),
}

impl View for Field {
    type V = FieldView;

    open spec fn view(&self) -> FieldView {
        match self {
            Field::Kb(field) => field@,
            Field::Generic(field) => field@,
        }
    }
}

impl MetricField for Field {
    fn last(&self) -> (last: Option<&Number>) {
        match self {
            Field::Kb(field) => field.last(),
            Field::Generic(field) => field.last(),
        }
    }

    fn name(&self) -> (name: String) {
        match self {
            Field::Kb(field) => field.name(),
            Field::Generic(field) => field.name(),
        }
    }

    fn push(&mut self, value: Number) {
        match self {
            Field::Kb(field) => field.push(value),
            Field::Generic(field) => field.push(value),
        }
    }

    fn hidden(&self) -> (hidden: bool) {
        match self {
            Field::Kb(field) => field.hidden(),
            Field::Generic(field) => field.hidden(),
        }
    }

    fn samples(&self) -> (samples: &Vec<Number>) {
        match self {
            Field::Kb(field) => field.samples(),
            Field::Generic(field) => field.samples(),
        }
    }

    fn divisor(&self) -> (divisor: u64) {
        match self {
            Field::Kb(field) => field.divisor(),
            Field::Generic(field) => field.divisor(),
        }
    }
}

/// `field` after a snapshot with these members: longer by the number at its
/// key, or unchanged where the snapshot has no number there.
pub open spec fn pushed(field: FieldView, members: Members) -> FieldView {
    match resolve(members, field.key) {
        Some(Node::Number(number)) => FieldView { samples: field.samples.push(number), ..field },
        _ => field,
    }
}

/// `fields` after a snapshot with these members, each field on its own.
pub open spec fn updated(fields: Seq<FieldView>, members: Members) -> Seq<FieldView> {
    Seq::new(fields.len(), |i: int| pushed(fields[i], members))
}

/// Those of `fields` that are not hidden, in order.
pub open spec fn visible(fields: Seq<FieldView>) -> Seq<FieldView> {
    fields.filter(|field: FieldView| !field.hidden)
}

/// One line for each of the first `n` of `fields`: a tab and the key.
pub open spec fn field_lines(fields: Seq<FieldView>, n: nat) -> Seq<char>
    decreases n,
{
    if n == 0 || n > fields.len() {
        Seq::empty()
    } else {
        field_lines(fields, (n - 1) as nat) + "\t"@ + fields[n - 1].key + "\n"@
    }
}

/// A group in words: its tag, a colon, and a line for each field.
pub open spec fn described(group: GroupView) -> Seq<char> {
    group.file_tag + ":\n"@ + field_lines(group.fields, group.fields.len())
}

/// The first `n` of `groups` in words, one after the other.
pub open spec fn all_described(groups: Seq<GroupView>, n: nat) -> Seq<char>
    decreases n,
{
    if n == 0 || n > groups.len() {
        Seq::empty()
    } else {
        all_described(groups, (n - 1) as nat) + described(groups[n - 1])
    }
}

/// A group of metrics as a contract sees it.
pub struct GroupView {
    /// The fields, in the order in which the group was given them.
    pub fields: Seq<FieldView>,
    /// The number of snapshots the group has been updated with.
    pub updates: nat,
    /// The tag of the file that the group's chart is written to.
    pub file_tag: Seq<char>,
}

/// `group` after a snapshot with these members: every field on its own, and
/// one snapshot more counted.
pub open spec fn group_updated(group: GroupView, members: Members) -> GroupView {
    GroupView { fields: updated(group.fields, members), updates: group.updates + 1, ..group }
}

/// A group of metrics that map to a single chart. Its fields are fixed when
/// it is made.
pub struct StatsGroup {
    fields: Vec<Field>,
    updates: usize,
    /// Charts of different groups go to different files, told apart by this.
    pub file_tag: String,
}

impl View for StatsGroup {
    type V = GroupView;

    closed spec fn view(&self) -> GroupView {
        GroupView {
            fields: Seq::new(self.fields@.len(), |i: int| self.fields@[i]@),
            updates: self.updates as nat,
            file_tag: self.file_tag@,
        }
    }
}

impl StatsGroup {
    /// A group of `fields` that has seen no snapshot, with an empty tag.
    pub fn new(fields: Vec<Field>) -> (group: Self)
        ensures
            group@ == (GroupView {
                fields: Seq::new(fields@.len(), |i: int| fields@[i]@),
                updates: 0,
                file_tag: Seq::empty(),
            }),
    {
        StatsGroup { fields, updates: 0, file_tag: String::new() }
    }

    /// Takes one snapshot in: every field whose key leads to a number in
    /// `root` gets that number, hidden or not; every other field stays as it
    /// is. The snapshot is counted either way.
    pub fn update(&mut self, root: &Object)
        requires
            old(self)@.updates < usize::MAX,
        ensures
            final(self)@ == group_updated(old(self)@, members(*root)),
    {
        self.updates += 1;
        let mut i: usize = 0;
        while i < self.fields.len()
            invariant
                i <= self.fields@.len(),
                self.fields@.len() == old(self).fields@.len(),
                self.updates == old(self).updates + 1,
                self.file_tag == old(self).file_tag,
                forall|k: int|
                    0 <= k < i ==> (#[trigger] self.fields@[k])@ == pushed(
                        old(self).fields@[k]@,
                        members(*root),
                    ),
                forall|k: int|
                    i <= k < self.fields@.len() ==> (#[trigger] self.fields@[k]) == old(
                        self,
                    ).fields@[k],
            decreases self.fields@.len() - i,
        {
            let name = self.fields[i].name();
            match get_root_elem(root, name.as_str()) {
                Some(val) => match as_number(val) {
                    Some(number) => {
                        self.fields[i].push(number.clone());
                    },
                    None => {},
                },
                None => {},
            }
            i += 1;
        }
        assert(self@.fields =~= updated(old(self)@.fields, members(*root)));
    }

    /// The number of snapshots the group has been updated with.
    pub fn len(&self) -> (updates: usize)
        ensures
            updates == self@.updates,
    {
        self.updates
    }

    /// All fields of the group, hidden ones too, in order.
    pub fn fields(&self) -> (fields: &Vec<Field>)
        ensures
            fields@.len() == self@.fields.len(),
            forall|i: int| 0 <= i < fields@.len() ==> (#[trigger] fields@[i])@ == self@.fields[i],
    {
        &self.fields
    }

    /// The group in words: its tag and, below it, the names of its fields.
    pub fn describe(&self) -> (text: String)
        ensures
            text@ == described(self@),
    {
        let mut text = self.file_tag.clone();
        text.append(":\n");
        let mut i: usize = 0;
        while i < self.fields.len()
            invariant
                i <= self.fields@.len(),
                text@ == self@.file_tag + ":\n"@ + field_lines(self@.fields, i as nat),
            decreases self.fields@.len() - i,
        {
            let name = self.fields[i].name();
            text.append("\t");
            text.append(name.as_str());
            text.append("\n");
            i += 1;
        }
        text
    }

    /// The fields to show: those that are not hidden, in order.
    pub fn plot(&self) -> (shown: Vec<&Field>)
        ensures
            Seq::new(shown@.len(), |i: int| shown@[i]@) == visible(self@.fields),
    {
        let ghost fields = self@.fields;
        let ghost wanted = |field: FieldView| !field.hidden;
        let mut shown: Vec<&Field> = Vec::new();
        let mut i: usize = 0;
        while i < self.fields.len()
            invariant
                i <= self.fields@.len(),
                fields == self@.fields,
                wanted == |field: FieldView| !field.hidden,
                Seq::new(shown@.len(), |k: int| shown@[k]@) == fields.take(i as int).filter(wanted),
            decreases self.fields@.len() - i,
        {
            let ghost before = Seq::new(shown@.len(), |k: int| shown@[k]@);
            assert(fields.take(i + 1).filter(wanted) == if wanted(fields[i as int]) {
                before.push(fields[i as int])
            } else {
                before
            }) by {
                reveal(Seq::filter);
                assert(fields.take(i + 1).drop_last() =~= fields.take(i as int));
            }
            if !self.fields[i].hidden() {
                shown.push(&self.fields[i]);
            }
            i += 1;
        }
        assert(fields.take(i as int) =~= fields);
        shown
    }
}

impl From<Vec<Field>> for StatsGroup {
    /// A group of the given fields that has seen no snapshot.
    fn from(value: Vec<Field>) -> (group: Self)
        ensures
            group@ == (GroupView {
                fields: Seq::new(value@.len(), |i: int| value@[i]@),
                updates: 0,
                file_tag: Seq::empty(),
            }),
    {
        StatsGroup::new(value)
    }
}

impl vstd::std_specs::convert::FromSpecImpl<Vec<Field>> for StatsGroup {
    /// The conversion is specified on `from` itself, over the view.
    open spec fn obeys_from_spec() -> bool {
        false
    }

    open spec fn from_spec(value: Vec<Field>) -> Self {
        arbitrary()
    }
}

impl From<Vec<KbMetricFields>> for StatsGroup {
    /// A group of the given fields that has seen no snapshot.
    fn from(value: Vec<KbMetricFields>) -> (group: Self)
        ensures
            group@ == (GroupView {
                fields: Seq::new(value@.len(), |i: int| value@[i]@),
                updates: 0,
                file_tag: Seq::empty(),
            }),
    {
        let ghost given = value@;
        let mut gen_list: Vec<Field> = Vec::new();
        for field in it: value
            invariant
                it.seq() == given,
                gen_list@.len() == it.index(),
                forall|k: int| 0 <= k < gen_list@.len() ==> (#[trigger] gen_list@[k])@ == given[k]@,
        {
            gen_list.push(Field::Kb(field));
        }
        let group = StatsGroup::new(gen_list);
        assert(group@.fields =~= Seq::new(given.len(), |i: int| given[i]@));
        group
    }
}

impl vstd::std_specs::convert::FromSpecImpl<Vec<KbMetricFields>> for StatsGroup {
    /// The conversion is specified on `from` itself, over the view.
    open spec fn obeys_from_spec() -> bool {
        false
    }

    open spec fn from_spec(value: Vec<KbMetricFields>) -> Self {
        arbitrary()
    }
}

impl From<Vec<GenericMetricFields>> for StatsGroup {
    /// A group of the given fields that has seen no snapshot.
    fn from(value: Vec<GenericMetricFields>) -> (group: Self)
        ensures
            group@ == (GroupView {
                fields: Seq::new(value@.len(), |i: int| value@[i]@),
                updates: 0,
                file_tag: Seq::empty(),
            }),
    {
        let ghost given = value@;
        let mut gen_list: Vec<Field> = Vec::new();
        for field in it: value
            invariant
                it.seq() == given,
                gen_list@.len() == it.index(),
                forall|k: int| 0 <= k < gen_list@.len() ==> (#[trigger] gen_list@[k])@ == given[k]@,
        {
            gen_list.push(Field::Generic(field));
        }
        let group = StatsGroup::new(gen_list);
        assert(group@.fields =~= Seq::new(given.len(), |i: int| given[i]@));
        group
    }
}

impl vstd::std_specs::convert::FromSpecImpl<Vec<GenericMetricFields>> for StatsGroup {
    /// The conversion is specified on `from` itself, over the view.
    open spec fn obeys_from_spec() -> bool {
        false
    }

    open spec fn from_spec(value: Vec<GenericMetricFields>) -> Self {
        arbitrary()
    }
}

/// `group` after `snapshots`, oldest first, each given by its members.
pub open spec fn after_all(group: GroupView, snapshots: Seq<Members>) -> GroupView
    decreases snapshots.len(),
{
    if snapshots.len() == 0 {
        group
    } else {
        group_updated(after_all(group, snapshots.drop_last()), snapshots.last())
    }
}

/// The keys of `fields`, in order.
pub open spec fn keys(fields: Seq<FieldView>) -> Seq<Seq<char>> {
    Seq::new(fields.len(), |i: int| fields[i].key)
}

/// One update counts one snapshot, whatever the snapshot holds, and treats
/// each field on its own: a field whose key leads to a number grows by one
/// value, and a field whose key leads nowhere, or to anything else, keeps
/// the length it had.
pub proof fn law_absent_field_is_skipped(group: GroupView, members: Members, i: int)
    requires
        0 <= i < group.fields.len(),
    ensures
        group_updated(group, members).updates == group.updates + 1,
        group_updated(group, members).fields.len() == group.fields.len(),
        resolve(members, group.fields[i].key) matches Some(Node::Number(number))
            ==> group_updated(group, members).fields[i].samples == group.fields[i].samples.push(
            number,
        ),
        !(resolve(members, group.fields[i].key) matches Some(Node::Number(_))) ==> group_updated(
            group,
            members,
        ).fields[i].samples == group.fields[i].samples,
{
}

/// However many snapshots a group takes in, the fields it shows stay the
/// same: a hidden field is never among them. Hidden or not, every field
/// keeps what it held and goes on growing.
pub proof fn law_hidden_never_shown(group: GroupView, snapshots: Seq<Members>)
    ensures
        after_all(group, snapshots).updates == group.updates + snapshots.len(),
        after_all(group, snapshots).fields.len() == group.fields.len(),
        forall|i: int|
            0 <= i < group.fields.len() ==> {
                let after = #[trigger] after_all(group, snapshots).fields[i];
                &&& after.key == group.fields[i].key
                &&& after.hidden == group.fields[i].hidden
                &&& after.divisor == group.fields[i].divisor
                &&& group.fields[i].samples.is_prefix_of(after.samples)
            },
        keys(visible(after_all(group, snapshots).fields)) == keys(visible(group.fields)),
        forall|k: int|
            0 <= k < visible(after_all(group, snapshots).fields).len() ==> !(#[trigger] visible(
                after_all(group, snapshots).fields,
            )[k]).hidden,
    decreases snapshots.len(),
{
    if snapshots.len() > 0 {
        law_hidden_never_shown(group, snapshots.drop_last());
    }
    lemma_visible_alike(group.fields, after_all(group, snapshots).fields);
}

/// Fields that agree on keys and on what is hidden show the same keys.
proof fn lemma_visible_alike(one: Seq<FieldView>, other: Seq<FieldView>)
    requires
        one.len() == other.len(),
        forall|i: int|
            0 <= i < one.len() ==> (#[trigger] other[i]).key == one[i].key && other[i].hidden
                == one[i].hidden,
    ensures
        visible(other).len() == visible(one).len(),
        keys(visible(other)) == keys(visible(one)),
        forall|k: int| 0 <= k < visible(other).len() ==> !(#[trigger] visible(other)[k]).hidden,
    decreases one.len(),
{
    reveal(Seq::filter);
    if one.len() > 0 {
        let n = one.len() as int;
        lemma_visible_alike(one.drop_last(), other.drop_last());
        if !one[n - 1].hidden {
            assert(keys(visible(other)) =~= keys(visible(other.drop_last())).push(
                other[n - 1].key,
            ));
        }
    }
}

/// The fields that a table of metric names stands for: one field without
/// values for each name, its key made of `prefix`, the name and `suffix`.
pub open spec fn listed(
    prefix: Seq<char>,
    names: Seq<(&'static str, bool)>,
    suffix: Seq<char>,
    divisor: nat,
) -> Seq<FieldView> {
    Seq::new(
        names.len(),
        |i: int|
            FieldView {
                key: prefix + names[i].0@ + suffix,
                samples: Seq::empty(),
                hidden: names[i].1,
                divisor,
            },
    )
}

/// The memory metrics, each with whether it is hidden. The total is a
/// counter of all memory ever allocated, which would dwarf the others.
pub open spec fn mem_names() -> Seq<(&'static str, bool)> {
    seq![
        ("gc_next", false),
        ("memory_alloc", false),
        ("memory_sys", false),
        ("memory_total", true),
        ("rss", false),
    ]
}

/// The CPU metrics, each with whether it is hidden.
pub open spec fn cpu_names() -> Seq<(&'static str, bool)> {
    seq![("system", false), ("user", false), ("total", false)]
}

/// The metrics of the process database, each with whether it is hidden.
pub open spec fn processdb_names() -> Seq<(&'static str, bool)> {
    seq![
        ("entry_leader_lookup_fail", true),
        ("entry_leader_relationships_gauge", false),
        ("entry_leaders_gauge", false),
        ("exit_events_gauge", false),
        ("failed_process_lookup_count", true),
        ("processes_gauge", false),
        ("procfs_lookup_fail", false),
        ("reaped_orphan_exits", false),
        ("reaped_orphan_processes", false),
        ("reaped_processes", false),
        ("resolved_orphan_exits", false),
        ("served_process_count", true),
    ]
}

/// A group that has seen no snapshot.
pub open spec fn fresh(fields: Seq<FieldView>, file_tag: Seq<char>) -> GroupView {
    GroupView { fields, updates: 0, file_tag }
}

/// The group of memory metrics, shown in kilobytes.
pub open spec fn memory_group() -> GroupView {
    fresh(listed("beat.memstats."@, mem_names(), ""@, 1000), "memstat"@)
}

/// The group of CPU metrics.
pub open spec fn cpu_group() -> GroupView {
    fresh(listed("beat.cpu."@, cpu_names(), ".time.ms"@, 1), "cpu"@)
}

/// The group of metrics of the process database.
pub open spec fn processdb_group() -> GroupView {
    fresh(
        listed("processor.add_session_metadata.processdb."@, processdb_names(), ""@, 1),
        "processdb"@,
    )
}

/// The group of the metrics that the user named, all of them shown.
pub open spec fn custom_group(paths: Seq<String>) -> GroupView {
    fresh(
        Seq::new(
            paths.len(),
            |i: int| FieldView { key: paths[i]@, samples: Seq::empty(), hidden: false, divisor: 1 },
        ),
        "metrics"@,
    )
}

/// One group if `wanted`, none otherwise.
pub open spec fn when(wanted: bool, group: GroupView) -> Seq<GroupView> {
    if wanted {
        seq![group]
    } else {
        Seq::empty()
    }
}

/// The groups that `settings` asks for: memory, CPU, process database and
/// custom metrics, in this order, each only where it is asked for.
pub open spec fn configured(settings: Settings) -> Seq<GroupView> {
    when(settings.memory, memory_group()) + when(settings.cpu, cpu_group()) + when(
        settings.processdb,
        processdb_group(),
    ) + match settings.metrics {
        Some(paths) => seq![custom_group(paths@)],
        None => Seq::empty(),
    }
}

/// Builds the fields that `names` stands for, of the kind that is shown in
/// kilobytes where `kilobytes` holds.
fn list_fields(
    prefix: &str,
    names: Vec<(&'static str, bool)>,
    suffix: &str,
    kilobytes: bool,
) -> (fields: Vec<Field>)
    ensures
        Seq::new(fields@.len(), |i: int| fields@[i]@) == listed(
            prefix@,
            names@,
            suffix@,
            if kilobytes {
                1000
            } else {
                1
            },
        ),
{
    let mut fields: Vec<Field> = Vec::new();
    let mut i: usize = 0;
    while i < names.len()
        invariant
            i <= names@.len(),
            fields@.len() == i,
            forall|k: int|
                0 <= k < i ==> (#[trigger] fields@[k])@ == listed(
                    prefix@,
                    names@,
                    suffix@,
                    if kilobytes {
                        1000
                    } else {
                        1
                    },
                )[k],
        decreases names@.len() - i,
    {
        let mut key = String::from_str(prefix);
        key.append(names[i].0);
        key.append(suffix);
        if kilobytes {
            fields.push(Field::Kb(KbMetricFields::new(key, names[i].1)));
        } else {
            fields.push(Field::Generic(GenericMetricFields::new(key, names[i].1)));
        }
        i += 1;
    }
    fields
}

fn mem_fields() -> (group: StatsGroup)
    ensures
        group@ == fresh(listed("beat.memstats."@, mem_names(), ""@, 1000), Seq::empty()),
{
    let names = vec![
        ("gc_next", false),
        ("memory_alloc", false),
        ("memory_sys", false),
        ("memory_total", true),
        ("rss", false),
    ];
    StatsGroup::new(list_fields("beat.memstats.", names, "", true))
}

fn cpu_fields() -> (group: StatsGroup)
    ensures
        group@ == fresh(listed("beat.cpu."@, cpu_names(), ".time.ms"@, 1), Seq::empty()),
{
    let names = vec![("system", false), ("user", false), ("total", false)];
    StatsGroup::new(list_fields("beat.cpu.", names, ".time.ms", false))
}

fn processdb_fields() -> (group: StatsGroup)
    ensures
        group@ == fresh(
            listed("processor.add_session_metadata.processdb."@, processdb_names(), ""@, 1),
            Seq::empty(),
        ),
{
    let names = vec![
        ("entry_leader_lookup_fail", true),
        ("entry_leader_relationships_gauge", false),
        ("entry_leaders_gauge", false),
        ("exit_events_gauge", false),
        ("failed_process_lookup_count", true),
        ("processes_gauge", false),
        ("procfs_lookup_fail", false),
        ("reaped_orphan_exits", false),
        ("reaped_orphan_processes", false),
        ("reaped_processes", false),
        ("resolved_orphan_exits", false),
        ("served_process_count", true),
    ];
    StatsGroup::new(list_fields("processor.add_session_metadata.processdb.", names, "", false))
}

fn custom_fields(fields: Vec<String>) -> (group: StatsGroup)
    ensures
        group@ == (GroupView { file_tag: Seq::empty(), ..custom_group(fields@) }),
{
    let ghost given = fields@;
    let mut gen_list: Vec<Field> = Vec::new();
    for field in it: fields
        invariant
            it.seq() == given,
            gen_list@.len() == it.index(),
            forall|k: int|
                0 <= k < gen_list@.len() ==> (#[trigger] gen_list@[k])@ == custom_group(
                    given,
                ).fields[k],
    {
        gen_list.push(Field::Generic(GenericMetricFields::new(field, false)));
    }
    let group = StatsGroup::new(gen_list);
    assert(group@.fields =~= custom_group(given).fields);
    group
}

/// Why no set of groups could be made.
#[derive(Clone, Copy, Debug, PartialEq, Eq, Structural)]
pub enum ConfigError {
    /// The settings ask for no group at all.
    NoMetrics,
}

impl ConfigError {
    /// The error in words.
    pub fn message(&self) -> (text: String)
        ensures
            text@ == "no metrics configured!"@,
    {
        String::from_str("no metrics configured!")
    }
}

/// All the groups of one run.
pub struct Multistat {
    fields: Vec<StatsGroup>,
}

impl View for Multistat {
    type V = Seq<GroupView>;

    closed spec fn view(&self) -> Seq<GroupView> {
        Seq::new(self.fields@.len(), |i: int| self.fields@[i]@)
    }
}

impl Multistat {
    /// The groups, in order.
    pub fn groups(&self) -> (groups: &Vec<StatsGroup>)
        ensures
            groups@.len() == self@.len(),
            forall|i: int| 0 <= i < groups@.len() ==> (#[trigger] groups@[i])@ == self@[i],
    {
        &self.fields
    }

    /// All groups in words, one after the other.
    pub fn describe(&self) -> (text: String)
        ensures
            text@ == all_described(self@, self@.len()),
    {
        let mut text = String::new();
        let mut i: usize = 0;
        while i < self.fields.len()
            invariant
                i <= self.fields@.len(),
                text@ == all_described(self@, i as nat),
            decreases self.fields@.len() - i,
        {
            let group = self.fields[i].describe();
            text.append(group.as_str());
            i += 1;
        }
        text
    }

    /// Takes one snapshot into every group.
    pub fn update(&mut self, root: Object)
        requires
            forall|i: int|
                0 <= i < old(self)@.len() ==> (#[trigger] old(self)@[i]).updates < usize::MAX,
        ensures
            final(self)@ == Seq::new(
                old(self)@.len(),
                |i: int| group_updated(old(self)@[i], members(root)),
            ),
    {
        let mut i: usize = 0;
        while i < self.fields.len()
            invariant
                i <= self.fields@.len(),
                self.fields@.len() == old(self).fields@.len(),
                forall|k: int|
                    0 <= k < i ==> (#[trigger] self.fields@[k])@ == group_updated(
                        old(self).fields@[k]@,
                        members(root),
                    ),
                forall|k: int|
                    i <= k < self.fields@.len() ==> (#[trigger] self.fields@[k]) == old(
                        self,
                    ).fields@[k],
                forall|k: int|
                    0 <= k < old(self)@.len() ==> (#[trigger] old(self)@[k]).updates
                        < usize::MAX,
            decreases self.fields@.len() - i,
        {
            assert(old(self)@[i as int].updates < usize::MAX);
            self.fields[i].update(&root);
            i += 1;
        }
    }
}

impl TryFrom<Settings> for Multistat {
    type Error = ConfigError;

    /// The groups that `value` asks for, or an error where it asks for none.
    fn try_from(value: Settings) -> (made: Result<Self, ConfigError>)
        ensures
            match made {
                Ok(stats) => stats@ == configured(value) && stats@.len() > 0,
                Err(error) => configured(value).len() == 0 && error == ConfigError::NoMetrics,
            },
    {
        let mut metric_types: Vec<StatsGroup> = Vec::new();
        if value.memory {
            let mut memstat = mem_fields();
            memstat.file_tag = String::from_str("memstat");
            metric_types.push(memstat);
        }
        if value.cpu {
            let mut cpustat = cpu_fields();
            cpustat.file_tag = String::from_str("cpu");
            metric_types.push(cpustat);
        }
        if value.processdb {
            let mut procdbstat = processdb_fields();
            procdbstat.file_tag = String::from_str("processdb");
            metric_types.push(procdbstat);
        }
        if let Some(custom) = value.metrics {
            let mut custom_stats = custom_fields(custom);
            custom_stats.file_tag = String::from_str("metrics");
            metric_types.push(custom_stats);
        }
        if metric_types.is_empty() {
            Err(ConfigError::NoMetrics)
        } else {
            Ok(Multistat { fields: metric_types })
        }
    }
}

impl vstd::std_specs::convert::TryFromSpecImpl<Settings> for Multistat {
    /// The conversion is specified on `try_from` itself, over the view.
    open spec fn obeys_try_from_spec() -> bool {
        false
    }

    open spec fn try_from_spec(value: Settings) -> Result<Self, ConfigError> {
        arbitrary()
    }
}

} // verus!

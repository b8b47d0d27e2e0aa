//! The two kinds of metric field: one whose numbers are shown as they are,
//! and one whose numbers are bytes and are shown as kilobytes.

use crate::stat::{FieldView, MetricField};
use serde_json::Number;
use vstd::prelude::*;

verus! {

/// A metric that arrives in bytes and is shown in kilobytes. The numbers are
/// kept as they arrived; whoever shows them divides by `divisor()`.
#[derive(Clone, Debug)]
pub struct KbMetricFields {
    pub key: String,
    pub data: Vec<Number>,
    pub hidden: bool,
}

impl View for KbMetricFields {
    type V = FieldView;

    open spec fn view(&self) -> FieldView {
        FieldView { key: self.key@, samples: self.data@, hidden: self.hidden, divisor: 1000 }
    }
}

impl KbMetricFields {
    /// A field without values for the metric at `key`.
    pub fn new(key: String, hidden: bool) -> (field: Self)
        ensures
            field@ == (FieldView { key: key@, samples: Seq::empty(), hidden, divisor: 1000 }),
    {
        KbMetricFields { key, data: Vec::new(), hidden }
    }
}

impl Default for KbMetricFields {
    fn default() -> (field: Self)
        ensures
            field@ == (FieldView {
                key: Seq::empty(),
                samples: Seq::empty(),
                hidden: false,
                divisor: 1000,
            }),
    {
        KbMetricFields::new(String::new(), false)
    }
}

impl MetricField for KbMetricFields {
    fn last(&self) -> (last: Option<&Number>) {
        if self.data.len() == 0 {
            None
        } else {
            Some(&self.data[self.data.len() - 1])
        }
    }

    fn name(&self) -> (name: String) {
        self.key.clone()
    }

    fn push(&mut self, value: Number) {
        self.data.push(value);
    }

    fn hidden(&self) -> (hidden: bool) {
        self.hidden
    }

    fn samples(&self) -> (samples: &Vec<Number>) {
        &self.data
    }

    fn divisor(&self) -> (divisor: u64) {
        1000
    }
}

impl From<(String, bool)> for KbMetricFields {
    /// A field without values for the metric at the given key, hidden or not
    /// as the flag says.
    fn from(value: (String, bool)) -> (field: Self)
        ensures
            field@ == (FieldView {
                key: value.0@,
                samples: Seq::empty(),
                hidden: value.1,
                divisor: 1000,
            }),
    {
        KbMetricFields::new(value.0, value.1)
    }
}

impl vstd::std_specs::convert::FromSpecImpl<(String, bool)> for KbMetricFields {
    /// The conversion is specified on `from` itself, over the view.
    open spec fn obeys_from_spec() -> bool {
        false
    }

    open spec fn from_spec(value: (String, bool)) -> Self {
        arbitrary()
    }
}

impl From<String> for KbMetricFields {
    /// A visible field without values for the metric at `value`.
    fn from(value: String) -> (field: Self)
        ensures
            field@ == (FieldView {
                key: value@,
                samples: Seq::empty(),
                hidden: false,
                divisor: 1000,
            }),
    {
        KbMetricFields::new(value, false)
    }
}

impl vstd::std_specs::convert::FromSpecImpl<String> for KbMetricFields {
    /// The conversion is specified on `from` itself, over the view.
    open spec fn obeys_from_spec() -> bool {
        false
    }

    open spec fn from_spec(value: String) -> Self {
        arbitrary()
    }
}

/// A single metric whose numbers are shown as they are.
#[derive(Clone, Debug)]
pub struct GenericMetricFields {
    pub key: String,
    pub data: Vec<Number>,
    pub hidden: bool,
}

impl View for GenericMetricFields {
    type V = FieldView;

    open spec fn view(&self) -> FieldView {
        FieldView { key: self.key@, samples: self.data@, hidden: self.hidden, divisor: 1 }
    }
}

impl GenericMetricFields {
    /// A field without values for the metric at `key`.
    pub fn new(key: String, hidden: bool) -> (field: Self)
        ensures
            field@ == (FieldView { key: key@, samples: Seq::empty(), hidden, divisor: 1 }),
    {
        GenericMetricFields { key, data: Vec::new(), hidden }
    }
}

impl Default for GenericMetricFields {
    fn default() -> (field: Self)
        ensures
            field@ == (FieldView {
                key: Seq::empty(),
                samples: Seq::empty(),
                hidden: false,
                divisor: 1,
            }),
    {
        GenericMetricFields::new(String::new(), false)
    }
}

impl<'a> From<(&'a str, bool)> for GenericMetricFields {
    /// A field without values for the metric at the given key, hidden or not
    /// as the flag says.
    fn from(value: (&'a str, bool)) -> (field: Self)
        ensures
            field@ == (FieldView {
                key: value.0@,
                samples: Seq::empty(),
                hidden: value.1,
                divisor: 1,
            }),
    {
        GenericMetricFields::new(String::from_str(value.0), value.1)
    }
}

impl<'a> vstd::std_specs::convert::FromSpecImpl<(&'a str, bool)> for GenericMetricFields {
    /// The conversion is specified on `from` itself, over the view.
    open spec fn obeys_from_spec() -> bool {
        false
    }

    open spec fn from_spec(value: (&'a str, bool)) -> Self {
        arbitrary()
    }
}

impl From<(String, bool)> for GenericMetricFields {
    /// A field without values for the metric at the given key, hidden or not
    /// as the flag says.
    fn from(value: (String, bool)) -> (field: Self)
        ensures
            field@ == (FieldView {
                key: value.0@,
                samples: Seq::empty(),
                hidden: value.1,
                divisor: 1,
            }),
    {
        GenericMetricFields::new(value.0, value.1)
    }
}

impl vstd::std_specs::convert::FromSpecImpl<(String, bool)> for GenericMetricFields {
    /// The conversion is specified on `from` itself, over the view.
    open spec fn obeys_from_spec() -> bool {
        false
    }

    open spec fn from_spec(value: (String, bool)) -> Self {
        arbitrary()
    }
}

impl MetricField for GenericMetricFields {
    fn last(&self) -> (last: Option<&Number>) {
        if self.data.len() == 0 {
            None
        } else {
            Some(&self.data[self.data.len() - 1])
        }
    }

    fn name(&self) -> (name: String) {
        self.key.clone()
    }

    fn push(&mut self, value: Number) {
        self.data.push(value);
    }

    fn hidden(&self) -> (hidden: bool) {
        self.hidden
    }

    fn samples(&self) -> (samples: &Vec<Number>) {
        &self.data
    }

    fn divisor(&self) -> (divisor: u64) {
        1
    }
}

} // verus!

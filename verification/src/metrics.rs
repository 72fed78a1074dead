//! Renderable metric entries.
//!
//! The renderer produces a sequence of labelled entries; the
//! exposition server formats and serves them outside this crate.
//! Every numeric value is already a decimal digit string here, so no
//! further numeric conversion (and no rounding) can happen downstream.

use vstd::prelude::*;
use vstd::string::*;

verus! {

/// One label of a metric entry.
pub struct MetricLabel {
    pub key: String,
    pub value: String,
}

/// The mathematical image of a label.
#[verifier::ext_equal]
pub struct LabelV {
    pub key: Seq<char>,
    pub value: Seq<char>,
}

impl View for MetricLabel {
    type V = LabelV;

    open spec fn view(&self) -> LabelV {
        LabelV { key: self.key@, value: self.value@ }
    }
}

/// One metric entry: a name, its labels in order, and a value rendered
/// as text.
pub struct MetricEntry {
    pub name: String,
    pub labels: Vec<MetricLabel>,
    pub value: String,
}

/// The mathematical image of a metric entry.
#[verifier::ext_equal]
pub struct EntryV {
    pub name: Seq<char>,
    pub labels: Seq<LabelV>,
    pub value: Seq<char>,
}

impl View for MetricEntry {
    type V = EntryV;

    open spec fn view(&self) -> EntryV {
        EntryV { name: self.name@, labels: labels_view(self.labels@), value: self.value@ }
    }
}

/// The image of a label list.
pub open spec fn labels_view(s: Seq<MetricLabel>) -> Seq<LabelV> {
    s.map_values(|l: MetricLabel| l@)
}

/// The image of an entry list.
pub open spec fn entries_view(s: Seq<MetricEntry>) -> Seq<EntryV> {
    s.map_values(|e: MetricEntry| e@)
}

/// Builds one label.
pub fn mk_label(key: &str, value: String) -> (r: MetricLabel)
    ensures
        r@ == (LabelV { key: key@, value: value@ }),
{
    MetricLabel { key: key.to_owned(), value }
}

/// Builds one entry.
pub fn mk_entry(name: &str, labels: Vec<MetricLabel>, value: String) -> (r: MetricEntry)
    ensures
        r@ == (EntryV { name: name@, labels: labels_view(labels@), value: value@ }),
{
    MetricEntry { name: name.to_owned(), labels, value }
}

impl MetricLabel {
    /// An owned copy of the label.
    pub fn duplicate(&self) -> (r: MetricLabel)
        ensures
            r@ == self@,
    {
        MetricLabel { key: self.key.clone(), value: self.value.clone() }
    }
}

impl MetricEntry {
    /// An owned copy of the entry.
    #[verifier::loop_isolation(false)]
    pub fn duplicate(&self) -> (r: MetricEntry)
        ensures
            r@ == self@,
    {
        let mut labels: Vec<MetricLabel> = Vec::new();
        let n = self.labels.len();
        let mut i: usize = 0;
        proof {
            assert(labels_view(labels@) =~= labels_view(self.labels@).take(0));
        }
        while i < n
            invariant
                0 <= i <= n == self.labels@.len(),
                labels_view(labels@) == labels_view(self.labels@).take(i as int),
            decreases n - i,
        {
            labels.push(self.labels[i].duplicate());
            proof {
                assert(labels_view(labels@) =~= labels_view(self.labels@).take(i as int + 1));
            }
            i = i + 1;
        }
        proof {
            assert(labels_view(self.labels@).take(n as int) =~= labels_view(self.labels@));
        }
        let r = MetricEntry { name: self.name.clone(), labels, value: self.value.clone() };
        proof {
            assert(r@ =~~= self@);
        }
        r
    }
}

} // verus!

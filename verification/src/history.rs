//! Histories of samples, one bounded buffer for each metric label.

use crate::ring_buffer::{keep_last, lemma_keep_last_push, RingBuf};
use vstd::hash_map::StringHashMap;
use vstd::prelude::*;

verus! {

/// The samples held under `label`, oldest first; none where the label is
/// unknown.
pub open spec fn samples_of<T>(series: Map<Seq<char>, Seq<T>>, label: Seq<char>) -> Seq<T> {
    if series.contains_key(label) {
        series[label]
    } else {
        Seq::empty()
    }
}

/// The capacity that the history of `label` has once a sample is recorded
/// with `default_capacity`: the one it was made with, or `default_capacity`
/// where this sample makes it.
pub open spec fn capacity_of(
    capacities: Map<Seq<char>, nat>,
    label: Seq<char>,
    default_capacity: nat,
) -> nat {
    if capacities.contains_key(label) {
        capacities[label]
    } else {
        default_capacity
    }
}

/// The series after one sample is recorded.
pub open spec fn record_series<T>(
    series: Map<Seq<char>, Seq<T>>,
    capacities: Map<Seq<char>, nat>,
    label: Seq<char>,
    value: T,
    default_capacity: nat,
) -> Map<Seq<char>, Seq<T>> {
    series.insert(
        label,
        keep_last(
            samples_of(series, label).push(value),
            capacity_of(capacities, label, default_capacity),
        ),
    )
}

/// The capacities after one sample is recorded.
pub open spec fn record_capacities(
    capacities: Map<Seq<char>, nat>,
    label: Seq<char>,
    default_capacity: nat,
) -> Map<Seq<char>, nat> {
    capacities.insert(label, capacity_of(capacities, label, default_capacity))
}

/// The series after each sample of `samples` is recorded in turn, each as a
/// pair of label and value.
pub open spec fn record_all_series<T>(
    series: Map<Seq<char>, Seq<T>>,
    capacities: Map<Seq<char>, nat>,
    samples: Seq<(Seq<char>, T)>,
    default_capacity: nat,
) -> Map<Seq<char>, Seq<T>>
    decreases samples.len(),
{
    if samples.len() == 0 {
        series
    } else {
        record_series(
            record_all_series(series, capacities, samples.drop_last(), default_capacity),
            record_all_capacities(capacities, samples.drop_last(), default_capacity),
            samples.last().0,
            samples.last().1,
            default_capacity,
        )
    }
}

/// The capacities after each sample of `samples` is recorded in turn.
pub open spec fn record_all_capacities<T>(
    capacities: Map<Seq<char>, nat>,
    samples: Seq<(Seq<char>, T)>,
    default_capacity: nat,
) -> Map<Seq<char>, nat>
    decreases samples.len(),
{
    if samples.len() == 0 {
        capacities
    } else {
        record_capacities(
            record_all_capacities(capacities, samples.drop_last(), default_capacity),
            samples.last().0,
            default_capacity,
        )
    }
}

/// The values that `samples` holds for `label`, in their order.
pub open spec fn values_for<T>(samples: Seq<(Seq<char>, T)>, label: Seq<char>) -> Seq<T>
    decreases samples.len(),
{
    if samples.len() == 0 {
        Seq::empty()
    } else if samples.last().0 == label {
        values_for(samples.drop_last(), label).push(samples.last().1)
    } else {
        values_for(samples.drop_last(), label)
    }
}

/// Whether some sample of `samples` is for `label`.
pub open spec fn mentions<T>(samples: Seq<(Seq<char>, T)>, label: Seq<char>) -> bool {
    exists|i: int| 0 <= i < samples.len() && (#[trigger] samples[i]).0 == label
}

/// A map from metric label to the bounded history of that metric. A history
/// is made when its label is first recorded, and is never removed.
pub struct HistoryStore<T> {
    index: StringHashMap<usize>,
    series: Vec<RingBuf<T>>,
}

impl<T> View for HistoryStore<T> {
    type V = Map<Seq<char>, Seq<T>>;

    /// For each label recorded so far, its samples, oldest first.
    closed spec fn view(&self) -> Map<Seq<char>, Seq<T>> {
        Map::new(
            |label: Seq<char>| self.index@.contains_key(label),
            |label: Seq<char>| self.series@[self.index@[label] as int]@,
        )
    }
}

impl<T> HistoryStore<T> {
    /// Every label owns one well-formed history, and no two labels share one.
    pub closed spec fn wf(&self) -> bool {
        &&& forall|label: Seq<char>| #[trigger]
            self.index@.contains_key(label) ==> self.index@[label] < self.series@.len()
        &&& forall|a: Seq<char>, b: Seq<char>|
            #![trigger self.index@[a], self.index@[b]]
            self.index@.contains_key(a) && self.index@.contains_key(b) && self.index@[a]
                == self.index@[b] ==> a == b
        &&& forall|i: int| 0 <= i < self.series@.len() ==> (#[trigger] self.series@[i]).wf()
    }

    /// For each label recorded so far, the capacity of its history.
    pub closed spec fn capacities(&self) -> Map<Seq<char>, nat> {
        Map::new(
            |label: Seq<char>| self.index@.contains_key(label),
            |label: Seq<char>| self.series@[self.index@[label] as int].spec_capacity(),
        )
    }

    /// The series and the capacities speak of the same labels, and no series
    /// is longer than its capacity.
    pub proof fn lemma_within_capacity(&self)
        requires
            self.wf(),
        ensures
            self@.dom() == self.capacities().dom(),
            forall|label: Seq<char>| #[trigger]
                self@.contains_key(label) ==> self@[label].len() <= self.capacities()[label],
    {
        assert(self@.dom() =~= self.capacities().dom());
        assert forall|label: Seq<char>| #[trigger] self@.contains_key(label) implies self@[label].len()
            <= self.capacities()[label] by {
            assert(self.series@[self.index@[label] as int].wf());
            self.series@[self.index@[label] as int].lemma_within_capacity();
        }
    }

    /// A store without any label.
    pub fn new() -> (store: Self)
        ensures
            store.wf(),
            store@ == Map::<Seq<char>, Seq<T>>::empty(),
            store.capacities() == Map::<Seq<char>, nat>::empty(),
    {
        let store = HistoryStore { index: StringHashMap::new(), series: Vec::new() };
        assert(store@ =~= Map::<Seq<char>, Seq<T>>::empty());
        assert(store.capacities() =~= Map::<Seq<char>, nat>::empty());
        store
    }

    /// Appends `value` to the history of `label`. A label seen for the first
    /// time gets a history of capacity `default_capacity`; a known label
    /// keeps the capacity it has. No other label's history changes.
    pub fn record(&mut self, label: String, value: T, default_capacity: usize)
        requires
            old(self).wf(),
        ensures
            final(self).wf(),
            final(self)@ == record_series(
                old(self)@,
                old(self).capacities(),
                label@,
                value,
                default_capacity as nat,
            ),
            final(self).capacities() == record_capacities(
                old(self).capacities(),
                label@,
                default_capacity as nat,
            ),
    {
        let found = match self.index.get(label.as_str()) {
            Some(slot) => Some(*slot),
            None => None,
        };
        match found {
            Some(slot) => {
                self.series[slot].put(value);
            },
            None => {
                let mut ring = RingBuf::new(default_capacity);
                ring.put(value);
                let slot = self.series.len();
                self.series.push(ring);
                self.index.insert(label, slot);
            },
        }
        assert(self@ =~= record_series(
            old(self)@,
            old(self).capacities(),
            label@,
            value,
            default_capacity as nat,
        ));
        assert(self.capacities() =~= record_capacities(
            old(self).capacities(),
            label@,
            default_capacity as nat,
        ));
    }

    /// The history of `label`, if a sample was ever recorded under it.
    pub fn series_for(&self, label: &str) -> (found: Option<&RingBuf<T>>)
        requires
            self.wf(),
        ensures
            found.is_some() == self@.contains_key(label@),
            found.is_some() ==> {
                &&& found.unwrap().wf()
                &&& found.unwrap()@ == self@[label@]
                &&& found.unwrap().spec_capacity() == self.capacities()[label@]
            },
    {
        match self.index.get(label) {
            Some(slot) => Some(&self.series[*slot]),
            None => None,
        }
    }
}

/// What a run of `record` calls does to one label. The label is known
/// afterwards just where it was known before or a sample names it. Its
/// capacity is the one it had, or `default_capacity` where the run made its
/// history. Its history holds the newest values, up to that capacity, of what
/// it held followed by the values recorded for it, oldest first.
pub proof fn lemma_record_all<T>(
    series: Map<Seq<char>, Seq<T>>,
    capacities: Map<Seq<char>, nat>,
    samples: Seq<(Seq<char>, T)>,
    default_capacity: nat,
    label: Seq<char>,
)
    requires
        series.dom() == capacities.dom(),
        series.contains_key(label) ==> series[label].len() <= capacities[label],
    ensures
        record_all_series(series, capacities, samples, default_capacity).dom()
            == record_all_capacities(capacities, samples, default_capacity).dom(),
        record_all_series(series, capacities, samples, default_capacity).contains_key(label) <==> (
        series.contains_key(label) || mentions(samples, label)),
        record_all_series(series, capacities, samples, default_capacity).contains_key(label) ==> {
            &&& record_all_capacities(capacities, samples, default_capacity)[label] == capacity_of(
                capacities,
                label,
                default_capacity,
            )
            &&& record_all_series(series, capacities, samples, default_capacity)[label]
                == keep_last(
                samples_of(series, label) + values_for(samples, label),
                capacity_of(capacities, label, default_capacity),
            )
        },
    decreases samples.len(),
{
    let after = record_all_series(series, capacities, samples, default_capacity);
    if samples.len() == 0 {
        assert(samples_of(series, label) + values_for(samples, label) =~= samples_of(
            series,
            label,
        ));
    } else {
        let earlier = samples.drop_last();
        let last = samples.last();
        lemma_record_all(series, capacities, earlier, default_capacity, label);
        let before = record_all_series(series, capacities, earlier, default_capacity);
        let caps_before = record_all_capacities(capacities, earlier, default_capacity);
        assert(after.dom() =~= record_all_capacities(capacities, samples, default_capacity).dom());
        if mentions(earlier, label) {
            let i = choose|i: int| 0 <= i < earlier.len() && (#[trigger] earlier[i]).0 == label;
            assert(samples[i].0 == label);
        }
        if mentions(samples, label) && last.0 != label {
            let i = choose|i: int| 0 <= i < samples.len() && (#[trigger] samples[i]).0 == label;
            assert(earlier[i].0 == label);
        }
        if last.0 == label {
            assert(samples[samples.len() - 1].0 == label);
            let capacity = capacity_of(capacities, label, default_capacity);
            let held = samples_of(series, label) + values_for(earlier, label);
            if before.contains_key(label) {
                lemma_keep_last_push(held, capacity, last.1);
            } else {
                assert(!mentions(earlier, label));
                lemma_values_for_unmentioned(earlier, label);
                assert(held =~= Seq::<T>::empty());
            }
            assert(held.push(last.1) =~= samples_of(series, label) + values_for(samples, label));
        }
    }
}

/// Samples that do not name a label hold no value for it.
pub proof fn lemma_values_for_unmentioned<T>(samples: Seq<(Seq<char>, T)>, label: Seq<char>)
    requires
        !mentions(samples, label),
    ensures
        values_for(samples, label) == Seq::<T>::empty(),
    decreases samples.len(),
{
    if samples.len() > 0 {
        assert(samples[samples.len() - 1].0 != label);
        assert forall|i: int| 0 <= i < samples.drop_last().len() implies (
        #[trigger] samples.drop_last()[i]).0 != label by {
            assert(samples[i].0 != label);
        }
        lemma_values_for_unmentioned(samples.drop_last(), label);
    }
}

/// From an empty store: a label is unknown until a sample is recorded for
/// it, and from then on its history holds the values recorded for it, oldest
/// first, cut back to the newest `default_capacity` of them.
pub proof fn lemma_record_all_from_empty<T>(
    samples: Seq<(Seq<char>, T)>,
    default_capacity: nat,
    label: Seq<char>,
)
    ensures
        record_all_series(
            Map::<Seq<char>, Seq<T>>::empty(),
            Map::<Seq<char>, nat>::empty(),
            samples,
            default_capacity,
        ).contains_key(label) <==> mentions(samples, label),
        mentions(samples, label) ==> record_all_series(
            Map::<Seq<char>, Seq<T>>::empty(),
            Map::<Seq<char>, nat>::empty(),
            samples,
            default_capacity,
        )[label] == keep_last(values_for(samples, label), default_capacity),
        mentions(samples, label) && values_for(samples, label).len() <= default_capacity
            ==> record_all_series(
            Map::<Seq<char>, Seq<T>>::empty(),
            Map::<Seq<char>, nat>::empty(),
            samples,
            default_capacity,
        )[label] == values_for(samples, label),
{
    lemma_record_all(
        Map::<Seq<char>, Seq<T>>::empty(),
        Map::<Seq<char>, nat>::empty(),
        samples,
        default_capacity,
        label,
    );
    assert(Seq::<T>::empty() + values_for(samples, label) =~= values_for(samples, label));
}

} // verus!

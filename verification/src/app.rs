//! The application state: which chip is selected, which is pinned, and the
//! histories of the temperatures sampled so far.
//!
//! Chips are held by identity only. Every operation takes the chips as the
//! backend enumerates them at that moment and resolves the identities
//! against that list, so a chip that has gone is never handed out.

use crate::history::{
    capacity_of, lemma_record_all, mentions, record_all_capacities, record_all_series, samples_of,
    values_for, HistoryStore,
};
use crate::navigation::{
    clamp_index, current_index, lemma_find_chip, lemma_find_chip_first, pinned_after_toggle,
    pinned_index, selected_after_step,
};
use crate::ring_buffer::{keep_last, RingBuf};
use crate::sensors::{
    get_temperature, labelled, temperature_samples, ChipIdentity, ChipSnapshot, Reading,
};
use vstd::prelude::*;

verus! {

/// The capacity of the history that a label gets when it is first sampled.
pub const DEFAULT_CAPACITY: usize = 100;

/// Why a chip could not be resolved.
#[derive(Clone, Copy, Debug, PartialEq, Eq, Structural)]
pub enum NavError {
    /// The backend enumerates no chip at all.
    NoChipsAvailable,
}

/// The samples of one tick: those of each chip, in the order of the chips.
pub open spec fn all_samples(chips: Seq<ChipSnapshot>) -> Seq<(Seq<char>, Reading)>
    decreases chips.len(),
{
    if chips.len() == 0 {
        Seq::empty()
    } else {
        all_samples(chips.drop_last()) + temperature_samples(chips.last())
    }
}

/// The selection, the pin and the sample histories of the dashboard.
pub struct AppState {
    selected_chip: Option<ChipIdentity>,
    pinned_chip: Option<ChipIdentity>,
    historical_data: HistoryStore<Reading>,
}

impl Default for AppState {
    /// Nothing selected, nothing pinned, no history.
    fn default() -> (state: Self)
        ensures
            state.wf(),
            state.selected().is_none(),
            state.pinned().is_none(),
            state.history() == Map::<Seq<char>, Seq<Reading>>::empty(),
            state.capacities() == Map::<Seq<char>, nat>::empty(),
    {
        AppState { selected_chip: None, pinned_chip: None, historical_data: HistoryStore::new() }
    }
}

impl AppState {
    /// The histories are well formed.
    pub closed spec fn wf(&self) -> bool {
        self.historical_data.wf()
    }

    /// The identity selected; `None` stands for the first chip enumerated.
    pub closed spec fn selected(&self) -> Option<ChipIdentity> {
        self.selected_chip
    }

    /// The identity pinned, if any.
    pub closed spec fn pinned(&self) -> Option<ChipIdentity> {
        self.pinned_chip
    }

    /// For each label sampled so far, its samples, oldest first.
    pub closed spec fn history(&self) -> Map<Seq<char>, Seq<Reading>> {
        self.historical_data@
    }

    /// For each label sampled so far, the capacity of its history.
    pub closed spec fn capacities(&self) -> Map<Seq<char>, nat> {
        self.historical_data.capacities()
    }

    /// The series and the capacities speak of the same labels, and no series
    /// is longer than its capacity.
    pub proof fn lemma_within_capacity(&self)
        requires
            self.wf(),
        ensures
            self.history().dom() == self.capacities().dom(),
            forall|label: Seq<char>| #[trigger]
                self.history().contains_key(label) ==> self.history()[label].len()
                    <= self.capacities()[label],
    {
        self.historical_data.lemma_within_capacity();
    }

    /// The index of the current chip among `chips`.
    fn get_current_chip_index(&self, chips: &Vec<ChipSnapshot>) -> (index: usize)
        requires
            chips@.len() > 0,
        ensures
            index == current_index(chips@, self.selected()),
            index < chips@.len(),
    {
        match self.selected_chip {
            Some(identity) => {
                let mut i: usize = 0;
                while i < chips.len()
                    invariant
                        i <= chips@.len(),
                        self.selected() == Some(identity),
                        forall|j: int| 0 <= j < i ==> (#[trigger] chips@[j]).identity != identity,
                    decreases chips@.len() - i,
                {
                    if chips[i].identity == identity {
                        proof {
                            lemma_find_chip_first(chips@, identity, i as int);
                        }
                        return i;
                    }
                    i += 1;
                }
                proof {
                    lemma_find_chip(chips@, identity);
                }
                0
            },
            None => 0,
        }
    }

    /// The chip at index `n`, with `n` held to the last index.
    fn get_nth_chip(chips: &Vec<ChipSnapshot>, n: usize) -> (chip: &ChipSnapshot)
        requires
            chips@.len() > 0,
        ensures
            *chip == chips@[clamp_index(n as int, chips@.len() as int)],
    {
        let last = chips.len() - 1;
        if n > last {
            &chips[last]
        } else {
            &chips[n]
        }
    }

    /// The current chip: the first of `chips` with the selected identity, or
    /// the first chip of all where nothing is selected or the selected chip
    /// is no longer enumerated. Fails just where `chips` is empty.
    pub fn get_selected_chip<'a>(&self, chips: &'a Vec<ChipSnapshot>) -> (current: Result<
        &'a ChipSnapshot,
        NavError,
    >)
        ensures
            current.is_err() <==> chips@.len() == 0,
            current.is_err() ==> current == Err::<&ChipSnapshot, NavError>(
                NavError::NoChipsAvailable,
            ),
            current.is_ok() ==> *current.unwrap() == chips@[current_index(
                chips@,
                self.selected(),
            )],
    {
        if chips.len() == 0 {
            return Err(NavError::NoChipsAvailable);
        }
        let index = self.get_current_chip_index(chips);
        Ok(&chips[index])
    }

    /// The pinned chip: the first of `chips` with the pinned identity.
    /// `None` where nothing is pinned or the pinned chip is no longer
    /// enumerated.
    pub fn get_pinned_chip<'a>(&self, chips: &'a Vec<ChipSnapshot>) -> (found: Option<
        &'a ChipSnapshot,
    >)
        ensures
            found.is_some() == pinned_index(chips@, self.pinned()).is_some(),
            found.is_some() ==> *found.unwrap() == chips@[pinned_index(
                chips@,
                self.pinned(),
            ).unwrap()],
            found.is_none() <==> self.pinned().is_none() || forall|i: int|
                0 <= i < chips@.len() ==> (#[trigger] chips@[i]).identity != self.pinned().unwrap(),
    {
        match self.pinned_chip {
            Some(identity) => {
                let mut i: usize = 0;
                while i < chips.len()
                    invariant
                        i <= chips@.len(),
                        self.pinned() == Some(identity),
                        forall|j: int| 0 <= j < i ==> (#[trigger] chips@[j]).identity != identity,
                    decreases chips@.len() - i,
                {
                    if chips[i].identity == identity {
                        proof {
                            lemma_find_chip_first(chips@, identity, i as int);
                        }
                        return Some(&chips[i]);
                    }
                    i += 1;
                }
                proof {
                    lemma_find_chip(chips@, identity);
                }
                None
            },
            None => None,
        }
    }

    /// Selects the chip after the current one; at the last chip the
    /// selection stays there. Neither the pin nor the histories change.
    /// With no chip enumerated nothing changes.
    pub fn select_next_chip(&mut self, chips: &Vec<ChipSnapshot>)
        ensures
            final(self).selected() == selected_after_step(chips@, old(self).selected(), 1),
            final(self).pinned() == old(self).pinned(),
            final(self).history() == old(self).history(),
            final(self).capacities() == old(self).capacities(),
            old(self).wf() ==> final(self).wf(),
    {
        if chips.len() == 0 {
            return ;
        }
        let current_chip_index = self.get_current_chip_index(chips);
        self.selected_chip = Some(Self::get_nth_chip(chips, current_chip_index + 1).identity);
    }

    /// Selects the chip before the current one; at the first chip the
    /// selection stays there. Neither the pin nor the histories change.
    /// With no chip enumerated nothing changes.
    pub fn select_previous_chip(&mut self, chips: &Vec<ChipSnapshot>)
        ensures
            final(self).selected() == selected_after_step(chips@, old(self).selected(), -1),
            final(self).pinned() == old(self).pinned(),
            final(self).history() == old(self).history(),
            final(self).capacities() == old(self).capacities(),
            old(self).wf() ==> final(self).wf(),
    {
        if chips.len() == 0 {
            return ;
        }
        let current_chip_index = self.get_current_chip_index(chips);
        let previous = if current_chip_index == 0 {
            0
        } else {
            current_chip_index - 1
        };
        self.selected_chip = Some(Self::get_nth_chip(chips, previous).identity);
    }

    /// Clears the pin where one is set; else pins the current chip. The
    /// selection and the histories do not change. With nothing pinned and no
    /// chip enumerated nothing changes.
    pub fn set_pinned_chip(&mut self, chips: &Vec<ChipSnapshot>)
        ensures
            final(self).pinned() == pinned_after_toggle(
                chips@,
                old(self).selected(),
                old(self).pinned(),
            ),
            final(self).selected() == old(self).selected(),
            final(self).history() == old(self).history(),
            final(self).capacities() == old(self).capacities(),
            old(self).wf() ==> final(self).wf(),
    {
        if self.pinned_chip.is_some() {
            self.pinned_chip = None;
        } else if chips.len() > 0 {
            let index = self.get_current_chip_index(chips);
            self.pinned_chip = Some(chips[index].identity);
        }
    }

    /// The history of `label`, if it was ever sampled.
    pub fn get_historical_data(&self, label: &str) -> (found: Option<&RingBuf<Reading>>)
        requires
            self.wf(),
        ensures
            found.is_some() == self.history().contains_key(label@),
            found.is_some() ==> {
                &&& found.unwrap().wf()
                &&& found.unwrap()@ == self.history()[label@]
                &&& found.unwrap().spec_capacity() == self.capacities()[label@]
            },
    {
        self.historical_data.series_for(label)
    }

    /// What a chart of `label` plots: the history of the label, oldest
    /// first, followed by the value read just now.
    pub fn plotted_values(&self, label: &str, current: Reading) -> (values: Vec<Reading>)
        requires
            self.wf(),
        ensures
            values@ == samples_of(self.history(), label@).push(current),
    {
        let mut values: Vec<Reading> = Vec::new();
        if let Some(ring) = self.get_historical_data(label) {
            let held = ring.get();
            let mut i: usize = 0;
            while i < held.len()
                invariant
                    i <= held@.len(),
                    values@ == held@.take(i as int),
                decreases held@.len() - i,
            {
                values.push(held[i]);
                assert(held@.take(i as int + 1) =~= held@.take(i as int).push(held@[i as int]));
                i += 1;
            }
            assert(held@.take(i as int) =~= held@);
        }
        values.push(current);
        values
    }
}

/// The dashboard's state with the step that samples it.
pub struct App {
    pub state: AppState,
}

impl App {
    /// An application with nothing selected, nothing pinned and no history.
    pub fn new() -> (app: Self)
        ensures
            app.state.wf(),
            app.state.selected().is_none(),
            app.state.pinned().is_none(),
            app.state.history() == Map::<Seq<char>, Seq<Reading>>::empty(),
            app.state.capacities() == Map::<Seq<char>, nat>::empty(),
    {
        App { state: AppState::default() }
    }

    /// One tick: samples the temperatures of `chips` into the histories.
    pub fn tick(&mut self, chips: &Vec<ChipSnapshot>)
        requires
            old(self).state.wf(),
        ensures
            final(self).state.wf(),
            final(self).state.selected() == old(self).state.selected(),
            final(self).state.pinned() == old(self).state.pinned(),
            final(self).state.history() == record_all_series(
                old(self).state.history(),
                old(self).state.capacities(),
                all_samples(chips@),
                DEFAULT_CAPACITY as nat,
            ),
            final(self).state.capacities() == record_all_capacities(
                old(self).state.capacities(),
                all_samples(chips@),
                DEFAULT_CAPACITY as nat,
            ),
    {
        self.append_historical_data(chips);
    }

    /// Records the current value of every temperature feature of every chip
    /// under the feature's label, chip by chip and feature by feature. A
    /// label seen for the first time gets a history of `DEFAULT_CAPACITY`
    /// samples. Features of different chips that share a label share a
    /// history.
    pub fn append_historical_data(&mut self, chips: &Vec<ChipSnapshot>)
        requires
            old(self).state.wf(),
        ensures
            final(self).state.wf(),
            final(self).state.selected() == old(self).state.selected(),
            final(self).state.pinned() == old(self).state.pinned(),
            final(self).state.history() == record_all_series(
                old(self).state.history(),
                old(self).state.capacities(),
                all_samples(chips@),
                DEFAULT_CAPACITY as nat,
            ),
            final(self).state.capacities() == record_all_capacities(
                old(self).state.capacities(),
                all_samples(chips@),
                DEFAULT_CAPACITY as nat,
            ),
    {
        let ghost series = self.state.history();
        let ghost capacities = self.state.capacities();
        let ghost selected = self.state.selected();
        let ghost pinned = self.state.pinned();
        let mut i: usize = 0;
        while i < chips.len()
            invariant
                i <= chips@.len(),
                self.state.wf(),
                self.state.selected() == selected,
                self.state.pinned() == pinned,
                self.state.history() == record_all_series(
                    series,
                    capacities,
                    all_samples(chips@.take(i as int)),
                    DEFAULT_CAPACITY as nat,
                ),
                self.state.capacities() == record_all_capacities(
                    capacities,
                    all_samples(chips@.take(i as int)),
                    DEFAULT_CAPACITY as nat,
                ),
            decreases chips@.len() - i,
        {
            let samples = get_temperature(&chips[i]);
            let ghost earlier = all_samples(chips@.take(i as int));
            let ghost fresh = labelled(samples@);
            let mut j: usize = 0;
            assert(earlier + fresh.take(0) =~= earlier);
            while j < samples.len()
                invariant
                    j <= samples@.len(),
                    fresh == labelled(samples@),
                    self.state.wf(),
                    self.state.selected() == selected,
                    self.state.pinned() == pinned,
                    self.state.history() == record_all_series(
                        series,
                        capacities,
                        earlier + fresh.take(j as int),
                        DEFAULT_CAPACITY as nat,
                    ),
                    self.state.capacities() == record_all_capacities(
                        capacities,
                        earlier + fresh.take(j as int),
                        DEFAULT_CAPACITY as nat,
                    ),
                decreases samples@.len() - j,
            {
                let label = samples[j].0.clone();
                let value = samples[j].1;
                self.state.historical_data.record(label, value, DEFAULT_CAPACITY);
                proof {
                    let done = earlier + fresh.take(j as int);
                    let now = earlier + fresh.take(j as int + 1);
                    assert(now.drop_last() =~= done);
                    assert(now.last() == (label@, value));
                }
                j += 1;
            }
            proof {
                assert(fresh.take(j as int) =~= fresh);
                assert(chips@.take(i as int + 1).drop_last() =~= chips@.take(i as int));
                assert(chips@.take(i as int + 1).last() == chips@[i as int]);
            }
            i += 1;
        }
        assert(chips@.take(i as int) =~= chips@);
    }
}

/// What a tick does to the history of one label. The label is known after
/// the tick just where it was known before or a temperature feature of some
/// chip bears it. Its history then holds what it held followed by the values
/// sampled for it, chip by chip, cut back to its newest samples: as many as
/// its capacity, which is `DEFAULT_CAPACITY` where this tick made the history.
pub proof fn lemma_tick_label(before: AppState, chips: Seq<ChipSnapshot>, label: Seq<char>)
    requires
        before.wf(),
    ensures
        record_all_series(
            before.history(),
            before.capacities(),
            all_samples(chips),
            DEFAULT_CAPACITY as nat,
        ).contains_key(label) <==> (before.history().contains_key(label) || mentions(
            all_samples(chips),
            label,
        )),
        record_all_series(
            before.history(),
            before.capacities(),
            all_samples(chips),
            DEFAULT_CAPACITY as nat,
        ).contains_key(label) ==> record_all_series(
            before.history(),
            before.capacities(),
            all_samples(chips),
            DEFAULT_CAPACITY as nat,
        )[label] == keep_last(
            samples_of(before.history(), label) + values_for(all_samples(chips), label),
            capacity_of(before.capacities(), label, DEFAULT_CAPACITY as nat),
        ),
{
    before.lemma_within_capacity();
    lemma_record_all(
        before.history(),
        before.capacities(),
        all_samples(chips),
        DEFAULT_CAPACITY as nat,
        label,
    );
}

} // verus!

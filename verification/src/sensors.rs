//! What the sensor backend reports, as plain values: chips, their features
//! and the readings of each feature.

use vstd::prelude::*;

verus! {

/// The identity of a sensor chip: its address, stable for as long as the
/// sensor backend's session lasts.
pub type ChipIdentity = i32;

/// A value read from a sensor, held as the bit pattern of the double that the
/// backend reported. The value is stored and handed on, never computed with.
#[derive(Clone, Copy, Debug, PartialEq, Eq, Structural)]
pub struct Reading {
    pub bits: u64,
}

impl Reading {
    /// The reading with the given bit pattern.
    pub fn from_bits(bits: u64) -> (reading: Reading)
        ensures
            reading.bits == bits,
    {
        Reading { bits }
    }

    /// The bit pattern of the reading.
    pub fn to_bits(&self) -> (bits: u64)
        ensures
            bits == self.bits,
    {
        self.bits
    }

    /// Positive zero, whose bits are all clear: what stands in for a value
    /// that could not be read.
    pub fn zero() -> (reading: Reading)
        ensures
            reading == Reading::spec_zero(),
    {
        Reading { bits: 0 }
    }

    /// Positive zero.
    pub open spec fn spec_zero() -> Reading {
        Reading { bits: 0 }
    }
}

/// What a feature measures. Only temperatures are sampled.
#[derive(Clone, Copy, Debug, PartialEq, Eq, Structural)]
pub enum FeatureKind {
    Temperature,
    Other,
}

/// Which value of a feature a reading is.
#[derive(Clone, Copy, Debug, PartialEq, Eq, Structural)]
pub enum ReadingKind {
    /// The current value.
    Input,
    /// The critical value, the upper end of the feature's scale.
    Critical,
    Other,
}

/// One readable value under a feature.
#[derive(Debug)]
pub struct SubReading {
    pub name: String,
    pub kind: ReadingKind,
    pub value: Reading,
}

/// A named metric of a chip with the values that could be read of it.
#[derive(Debug)]
pub struct Feature {
    pub kind: FeatureKind,
    pub label: String,
    pub readings: Vec<SubReading>,
}

/// One chip as the backend enumerated it at one moment.
#[derive(Debug)]
pub struct ChipSnapshot {
    pub identity: ChipIdentity,
    pub name: String,
    pub prefix: String,
    pub features: Vec<Feature>,
}

/// Whether `readings[i]` is the first reading of kind `kind`.
pub open spec fn is_first_of_kind(readings: Seq<SubReading>, kind: ReadingKind, i: int) -> bool {
    &&& 0 <= i < readings.len()
    &&& readings[i].kind == kind
    &&& forall|j: int| 0 <= j < i ==> (#[trigger] readings[j]).kind != kind
}

/// The value of the first reading of kind `kind`, if there is one.
pub open spec fn sub_reading(readings: Seq<SubReading>, kind: ReadingKind) -> Option<Reading> {
    if exists|i: int| is_first_of_kind(readings, kind, i) {
        Some(readings[choose|i: int| is_first_of_kind(readings, kind, i)].value)
    } else {
        None
    }
}

/// The current temperature of a feature: its input reading, or zero where
/// none could be read.
pub open spec fn current_temperature(feature: Feature) -> Reading {
    match sub_reading(feature.readings@, ReadingKind::Input) {
        Some(value) => value,
        None => Reading::spec_zero(),
    }
}

/// The sample that a feature gives: its label with its current temperature
/// if it is a temperature, nothing otherwise.
pub open spec fn temperature_sample(feature: Feature) -> Option<(Seq<char>, Reading)> {
    if feature.kind == FeatureKind::Temperature {
        Some((feature.label@, current_temperature(feature)))
    } else {
        None
    }
}

/// The samples that a chip gives: one for each of its temperature features,
/// in the order of the features.
pub open spec fn temperature_samples(chip: ChipSnapshot) -> Seq<(Seq<char>, Reading)> {
    chip.features@.filter_map(|feature: Feature| temperature_sample(feature))
}

/// Labelled values with each label taken by its view.
pub open spec fn labelled(pairs: Seq<(String, Reading)>) -> Seq<(Seq<char>, Reading)> {
    pairs.map_values(|pair: (String, Reading)| (pair.0@, pair.1))
}

/// The first reading of kind `kind` is the only index that `is_first_of_kind`
/// holds of, so `sub_reading` gives its value.
pub proof fn lemma_sub_reading_found(readings: Seq<SubReading>, kind: ReadingKind, i: int)
    requires
        is_first_of_kind(readings, kind, i),
    ensures
        sub_reading(readings, kind) == Some(readings[i].value),
{
    let chosen = choose|k: int| is_first_of_kind(readings, kind, k);
    assert(is_first_of_kind(readings, kind, chosen));
    if chosen < i {
        assert(readings[chosen].kind != kind);
    }
    if i < chosen {
        assert(readings[i].kind != kind);
    }
}

/// The value of the first reading of kind `kind` under `feature`; `None`
/// where the feature has no reading of that kind.
pub fn get_sub_feature(feature: &Feature, kind: ReadingKind) -> (found: Option<Reading>)
    ensures
        found == sub_reading(feature.readings@, kind),
        found.is_none() <==> forall|i: int|
            0 <= i < feature.readings@.len() ==> (#[trigger] feature.readings@[i]).kind != kind,
{
    let mut i: usize = 0;
    while i < feature.readings.len()
        invariant
            i <= feature.readings@.len(),
            forall|j: int| 0 <= j < i ==> (#[trigger] feature.readings@[j]).kind != kind,
        decreases feature.readings@.len() - i,
    {
        if feature.readings[i].kind == kind {
            proof {
                lemma_sub_reading_found(feature.readings@, kind, i as int);
            }
            return Some(feature.readings[i].value);
        }
        i += 1;
    }
    assert forall|k: int| !is_first_of_kind(feature.readings@, kind, k) by {
        if 0 <= k < feature.readings@.len() {
            assert(feature.readings@[k].kind != kind);
        }
    }
    None
}

/// The temperature samples of `chip`: for each temperature feature, in the
/// order of the features, its label and its current value, zero standing in
/// for a value that could not be read.
pub fn get_temperature(chip: &ChipSnapshot) -> (samples: Vec<(String, Reading)>)
    ensures
        labelled(samples@) == temperature_samples(*chip),
{
    let mut samples: Vec<(String, Reading)> = Vec::new();
    let mut i: usize = 0;
    let ghost sample_of = |feature: Feature| temperature_sample(feature);
    while i < chip.features.len()
        invariant
            i <= chip.features@.len(),
            sample_of == |feature: Feature| temperature_sample(feature),
            labelled(samples@) == chip.features@.take(i as int).filter_map(sample_of),
        decreases chip.features@.len() - i,
    {
        let feature = &chip.features[i];
        proof {
            chip.features@.lemma_filter_map_take_succ(sample_of, i as int);
        }
        let ghost before = samples@;
        if feature.kind == FeatureKind::Temperature {
            let value = match get_sub_feature(feature, ReadingKind::Input) {
                Some(value) => value,
                None => Reading::zero(),
            };
            samples.push((feature.label.clone(), value));
            assert(labelled(samples@) =~= labelled(before) + seq![
                (feature.label@, current_temperature(*feature)),
            ]);
        } else {
            assert(labelled(before) + Seq::<(Seq<char>, Reading)>::empty() =~= labelled(before));
        }
        i += 1;
    }
    assert(chip.features@.take(i as int) =~= chip.features@);
    samples
}

} // verus!

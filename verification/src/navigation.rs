//! Where a selection stands in a list of chips, and where a step or a pin
//! toggle takes it: the definitions that the application state's contracts
//! are stated in, and what follows from them.

use crate::sensors::{ChipIdentity, ChipSnapshot};
use vstd::prelude::*;

verus! {

/// Whether `chips[i]` is the first chip with identity `identity`.
pub open spec fn is_first_with(chips: Seq<ChipSnapshot>, identity: ChipIdentity, i: int) -> bool {
    &&& 0 <= i < chips.len()
    &&& chips[i].identity == identity
    &&& forall|j: int| 0 <= j < i ==> (#[trigger] chips[j]).identity != identity
}

/// The index of the first chip with identity `identity`, if the list holds
/// one.
pub open spec fn find_chip(chips: Seq<ChipSnapshot>, identity: ChipIdentity) -> Option<int> {
    if exists|i: int| is_first_with(chips, identity, i) {
        Some(choose|i: int| is_first_with(chips, identity, i))
    } else {
        None
    }
}

/// The index of the current chip: that of the selected chip where one is
/// selected and still enumerated, else 0.
pub open spec fn current_index(chips: Seq<ChipSnapshot>, selected: Option<ChipIdentity>) -> int {
    match selected {
        Some(identity) => match find_chip(chips, identity) {
            Some(i) => i,
            None => 0,
        },
        None => 0,
    }
}

/// The index of the pinned chip, if a chip is pinned and still enumerated.
pub open spec fn pinned_index(chips: Seq<ChipSnapshot>, pinned: Option<ChipIdentity>) -> Option<
    int,
> {
    match pinned {
        Some(identity) => find_chip(chips, identity),
        None => None,
    }
}

/// `n` held to the indices of a list of `len` chips, `len` at least 1.
pub open spec fn clamp_index(n: int, len: int) -> int {
    if n < 0 {
        0
    } else if n >= len {
        len - 1
    } else {
        n
    }
}

/// The selection after a step of `step` places from the current chip, held
/// to the ends of the list. An empty list leaves the selection as it is.
pub open spec fn selected_after_step(
    chips: Seq<ChipSnapshot>,
    selected: Option<ChipIdentity>,
    step: int,
) -> Option<ChipIdentity> {
    if chips.len() == 0 {
        selected
    } else {
        Some(chips[clamp_index(current_index(chips, selected) + step, chips.len() as int)].identity)
    }
}

/// The pin after a toggle: none where one was set; else the identity of the
/// current chip, or none where no chip is enumerated.
pub open spec fn pinned_after_toggle(
    chips: Seq<ChipSnapshot>,
    selected: Option<ChipIdentity>,
    pinned: Option<ChipIdentity>,
) -> Option<ChipIdentity> {
    if pinned.is_some() || chips.len() == 0 {
        None
    } else {
        Some(chips[current_index(chips, selected)].identity)
    }
}

/// The first chip with a given identity is the only index that
/// `is_first_with` holds of, so `find_chip` gives it.
pub proof fn lemma_find_chip_first(chips: Seq<ChipSnapshot>, identity: ChipIdentity, i: int)
    requires
        is_first_with(chips, identity, i),
    ensures
        find_chip(chips, identity) == Some(i),
{
    let chosen = choose|k: int| is_first_with(chips, identity, k);
    assert(is_first_with(chips, identity, chosen));
    if chosen < i {
        assert(chips[chosen].identity != identity);
    }
    if i < chosen {
        assert(chips[i].identity != identity);
    }
}

/// `find_chip` finds a chip exactly where the list holds the identity, and
/// then the first one that has it.
pub proof fn lemma_find_chip(chips: Seq<ChipSnapshot>, identity: ChipIdentity)
    ensures
        find_chip(chips, identity).is_none() <==> forall|i: int|
            0 <= i < chips.len() ==> (#[trigger] chips[i]).identity != identity,
        find_chip(chips, identity).is_some() ==> is_first_with(
            chips,
            identity,
            find_chip(chips, identity).unwrap(),
        ),
{
    if find_chip(chips, identity).is_none() {
        assert forall|i: int| 0 <= i < chips.len() implies (#[trigger] chips[i]).identity
            != identity by {
            lemma_first_exists(chips, identity, i);
        }
    } else {
        let i = find_chip(chips, identity).unwrap();
        assert(is_first_with(chips, identity, i));
        assert(chips[i].identity == identity);
    }
}

/// Where some chip up to index `i` has the identity, a first one has it.
proof fn lemma_first_exists(chips: Seq<ChipSnapshot>, identity: ChipIdentity, i: int)
    requires
        0 <= i < chips.len(),
        find_chip(chips, identity).is_none(),
    ensures
        chips[i].identity != identity,
    decreases i,
{
    if chips[i].identity == identity {
        if forall|j: int| 0 <= j < i ==> (#[trigger] chips[j]).identity != identity {
            assert(is_first_with(chips, identity, i));
        } else {
            let j = choose|j: int| 0 <= j < i && (#[trigger] chips[j]).identity == identity;
            lemma_first_exists(chips, identity, j);
        }
    }
}

/// The current index is an index of the list, whatever is selected.
pub proof fn lemma_current_index_in_range(
    chips: Seq<ChipSnapshot>,
    selected: Option<ChipIdentity>,
)
    requires
        chips.len() > 0,
    ensures
        0 <= current_index(chips, selected) < chips.len(),
{
    if selected.is_some() {
        lemma_find_chip(chips, selected.unwrap());
    }
}

/// The selection after `count` steps of `step` places each.
pub open spec fn selected_after_steps(
    chips: Seq<ChipSnapshot>,
    selected: Option<ChipIdentity>,
    step: int,
    count: nat,
) -> Option<ChipIdentity>
    decreases count,
{
    if count == 0 {
        selected
    } else {
        selected_after_step(
            chips,
            selected_after_steps(chips, selected, step, (count - 1) as nat),
            step,
        )
    }
}

/// No two chips of the list have the same identity.
pub open spec fn distinct_identities(chips: Seq<ChipSnapshot>) -> bool {
    forall|i: int, j: int|
        0 <= i < j < chips.len() ==> (#[trigger] chips[i]).identity != (#[trigger] chips[j]).identity
}

/// In a list of distinct identities every chip is the first with its
/// identity.
pub proof fn lemma_distinct_found(chips: Seq<ChipSnapshot>, i: int)
    requires
        distinct_identities(chips),
        0 <= i < chips.len(),
    ensures
        find_chip(chips, chips[i].identity) == Some(i),
{
    assert(is_first_with(chips, chips[i].identity, i));
    lemma_find_chip_first(chips, chips[i].identity, i);
}

/// A step moves the current index by `step` places, held to the ends of the
/// list, where the identities are distinct.
pub proof fn lemma_step_moves_index(
    chips: Seq<ChipSnapshot>,
    selected: Option<ChipIdentity>,
    step: int,
)
    requires
        chips.len() > 0,
        distinct_identities(chips),
    ensures
        current_index(chips, selected_after_step(chips, selected, step)) == clamp_index(
            current_index(chips, selected) + step,
            chips.len() as int,
        ),
{
    lemma_current_index_in_range(chips, selected);
    lemma_distinct_found(
        chips,
        clamp_index(current_index(chips, selected) + step, chips.len() as int),
    );
}

/// However often the next chip is selected, the current index never passes
/// the last index of the list. Where the identities are distinct it is the
/// starting index plus the number of steps, or the last index where that is
/// less.
pub proof fn lemma_select_next_repeated(
    chips: Seq<ChipSnapshot>,
    selected: Option<ChipIdentity>,
    count: nat,
)
    requires
        chips.len() > 0,
    ensures
        0 <= current_index(chips, selected_after_steps(chips, selected, 1, count)) <= chips.len()
            - 1,
        distinct_identities(chips) ==> current_index(
            chips,
            selected_after_steps(chips, selected, 1, count),
        ) == if current_index(chips, selected) + count <= chips.len() - 1 {
            current_index(chips, selected) + count
        } else {
            chips.len() - 1
        },
    decreases count,
{
    lemma_current_index_in_range(chips, selected_after_steps(chips, selected, 1, count));
    lemma_current_index_in_range(chips, selected);
    if count > 0 && distinct_identities(chips) {
        let before = selected_after_steps(chips, selected, 1, (count - 1) as nat);
        lemma_select_next_repeated(chips, selected, (count - 1) as nat);
        lemma_step_moves_index(chips, before, 1);
    }
}

/// However often the previous chip is selected, the current index never
/// falls below 0. Where the identities are distinct it is the starting index
/// less the number of steps, or 0 where that is more.
pub proof fn lemma_select_previous_repeated(
    chips: Seq<ChipSnapshot>,
    selected: Option<ChipIdentity>,
    count: nat,
)
    requires
        chips.len() > 0,
    ensures
        0 <= current_index(chips, selected_after_steps(chips, selected, -1, count)) <= chips.len()
            - 1,
        distinct_identities(chips) ==> current_index(
            chips,
            selected_after_steps(chips, selected, -1, count),
        ) == if current_index(chips, selected) - count >= 0 {
            current_index(chips, selected) - count
        } else {
            0
        },
    decreases count,
{
    lemma_current_index_in_range(chips, selected_after_steps(chips, selected, -1, count));
    lemma_current_index_in_range(chips, selected);
    if count > 0 && distinct_identities(chips) {
        let before = selected_after_steps(chips, selected, -1, (count - 1) as nat);
        lemma_select_previous_repeated(chips, selected, (count - 1) as nat);
        lemma_step_moves_index(chips, before, -1);
    }
}

/// A pin set by a toggle resolves to the chip that was the current one when
/// it was set.
pub proof fn lemma_pin_holds_current_chip(
    chips: Seq<ChipSnapshot>,
    selected: Option<ChipIdentity>,
)
    requires
        chips.len() > 0,
    ensures
        pinned_after_toggle(chips, selected, None) == Some(
            chips[current_index(chips, selected)].identity,
        ),
        pinned_index(chips, pinned_after_toggle(chips, selected, None)) == Some(
            current_index(chips, selected),
        ),
{
    let index = current_index(chips, selected);
    lemma_current_index_in_range(chips, selected);
    if selected.is_some() && find_chip(chips, selected.unwrap()).is_some() {
        lemma_find_chip(chips, selected.unwrap());
    }
    assert(is_first_with(chips, chips[index].identity, index));
    lemma_find_chip_first(chips, chips[index].identity, index);
}

/// Two toggles in a row, against the same chips and the same selection,
/// restore the pin, where the pin was unset or held the current chip. (A pin
/// on another chip is cleared by the first toggle, and the second then pins
/// the current chip.)
pub proof fn lemma_toggle_pin_twice(
    chips: Seq<ChipSnapshot>,
    selected: Option<ChipIdentity>,
    pinned: Option<ChipIdentity>,
)
    requires
        pinned.is_none() || (chips.len() > 0 && pinned == Some(
            chips[current_index(chips, selected)].identity,
        )),
    ensures
        pinned_after_toggle(chips, selected, pinned_after_toggle(chips, selected, pinned))
            == pinned,
{
}

} // verus!

//! What the panels of the dashboard are told to show.

use crate::app::AppState;
use crate::navigation::{current_index, pinned_index};
use crate::sensors::ChipSnapshot;
use vstd::prelude::*;
use vstd::string::StringExecFns;

verus! {

/// Which chip a panel shows: the pinned chip or the current one.
#[derive(Clone, Copy, Debug, PartialEq, Eq, Structural)]
pub struct ChipListProps {
    pub is_pinned_chip_view: bool,
}

/// The index of the chip that a panel with `props` shows, if there is such a
/// chip: the pinned chip for a pinned view, the current chip otherwise.
pub open spec fn viewed_index(
    chips: Seq<ChipSnapshot>,
    state: AppState,
    props: ChipListProps,
) -> Option<int> {
    if props.is_pinned_chip_view {
        pinned_index(chips, state.pinned())
    } else if chips.len() == 0 {
        None
    } else {
        Some(current_index(chips, state.selected()))
    }
}

/// The chip that a panel with `props` shows. A pinned view has none where
/// nothing is pinned or the pinned chip is gone; the other view has none
/// where no chip is enumerated.
pub fn viewed_chip<'a>(
    state: &AppState,
    chips: &'a Vec<ChipSnapshot>,
    props: &ChipListProps,
) -> (found: Option<&'a ChipSnapshot>)
    ensures
        found.is_some() == viewed_index(chips@, *state, *props).is_some(),
        found.is_some() ==> *found.unwrap() == chips@[viewed_index(
            chips@,
            *state,
            *props,
        ).unwrap()],
{
    if props.is_pinned_chip_view {
        state.get_pinned_chip(chips)
    } else {
        match state.get_selected_chip(chips) {
            Ok(chip) => Some(chip),
            Err(_) => None,
        }
    }
}

/// The text of a chip's row in the list: its prefix, a slash, its name.
pub fn chip_list_label(chip: &ChipSnapshot) -> (label: String)
    ensures
        label@ == chip.prefix@ + seq!['/'] + chip.name@,
{
    proof {
        reveal_strlit("/");
        assert("/"@ =~= seq!['/']);
    }
    chip.prefix.clone().concat("/").concat(chip.name.as_str())
}

/// Whether the row of `chips[i]` is highlighted in a list with `props`: it
/// is where the chip has the identity of the chip that the list shows.
pub open spec fn is_highlighted(
    chips: Seq<ChipSnapshot>,
    state: AppState,
    props: ChipListProps,
    i: int,
) -> bool {
    match viewed_index(chips, state, props) {
        Some(viewed) => chips[i].identity == chips[viewed].identity,
        None => false,
    }
}

/// For each chip, in order, whether its row is highlighted.
pub fn highlighted_rows(state: &AppState, chips: &Vec<ChipSnapshot>, props: &ChipListProps) -> (rows:
    Vec<bool>)
    ensures
        rows@.len() == chips@.len(),
        forall|i: int|
            0 <= i < chips@.len() ==> #[trigger] rows@[i] == is_highlighted(
                chips@,
                *state,
                *props,
                i,
            ),
{
    let viewed = viewed_chip(state, chips, props);
    let mut rows: Vec<bool> = Vec::new();
    let mut i: usize = 0;
    while i < chips.len()
        invariant
            i <= chips@.len(),
            rows@.len() == i,
            viewed.is_some() == viewed_index(chips@, *state, *props).is_some(),
            viewed.is_some() ==> *viewed.unwrap() == chips@[viewed_index(
                chips@,
                *state,
                *props,
            ).unwrap()],
            forall|k: int|
                0 <= k < i ==> #[trigger] rows@[k] == is_highlighted(chips@, *state, *props, k),
        decreases chips@.len() - i,
    {
        let highlighted = match viewed {
            Some(chip) => chips[i].identity == chip.identity,
            None => false,
        };
        rows.push(highlighted);
        i += 1;
    }
    rows
}

} // verus!

use senso::app::AppState;
use senso::components::{chip_list_label, highlighted_rows, viewed_chip, ChipListProps};
use senso::sensors::ChipSnapshot;

fn chip(identity: i32) -> ChipSnapshot {
    ChipSnapshot {
        identity,
        name: format!("chip-{}", identity),
        prefix: String::from("chip"),
        features: Vec::new(),
    }
}

const CURRENT: ChipListProps = ChipListProps { is_pinned_chip_view: false };
const PINNED: ChipListProps = ChipListProps { is_pinned_chip_view: true };

fn viewed(state: &AppState, chips: &Vec<ChipSnapshot>, props: &ChipListProps) -> Option<i32> {
    viewed_chip(state, chips, props).map(|chip| chip.identity)
}

#[test]
fn current_view_shows_the_current_chip() {
    let chips = vec![chip(1), chip(2), chip(3)];
    let mut state = AppState::default();
    assert_eq!(viewed(&state, &chips, &CURRENT), Some(1));
    state.select_next_chip(&chips);
    assert_eq!(viewed(&state, &chips, &CURRENT), Some(2));
    assert_eq!(highlighted_rows(&state, &chips, &CURRENT), vec![false, true, false]);
}

#[test]
fn pinned_view_shows_the_pinned_chip() {
    let chips = vec![chip(1), chip(2), chip(3)];
    let mut state = AppState::default();
    assert_eq!(viewed(&state, &chips, &PINNED), None);
    assert_eq!(highlighted_rows(&state, &chips, &PINNED), vec![false, false, false]);
    state.set_pinned_chip(&chips);
    state.select_next_chip(&chips);
    state.select_next_chip(&chips);
    assert_eq!(viewed(&state, &chips, &PINNED), Some(1));
    assert_eq!(viewed(&state, &chips, &CURRENT), Some(3));
    assert_eq!(highlighted_rows(&state, &chips, &PINNED), vec![true, false, false]);
    assert_eq!(highlighted_rows(&state, &chips, &CURRENT), vec![false, false, true]);
}

#[test]
fn pinned_view_is_empty_once_the_pinned_chip_is_gone() {
    let chips = vec![chip(1), chip(2), chip(3)];
    let mut state = AppState::default();
    state.select_next_chip(&chips);
    state.set_pinned_chip(&chips);
    let fewer = vec![chip(1), chip(3)];
    assert_eq!(viewed(&state, &fewer, &PINNED), None);
    assert_eq!(highlighted_rows(&state, &fewer, &PINNED), vec![false, false]);
    assert_eq!(viewed(&state, &fewer, &CURRENT), Some(1));
}

#[test]
fn views_of_no_chips_are_empty() {
    let none: Vec<ChipSnapshot> = Vec::new();
    let state = AppState::default();
    assert_eq!(viewed(&state, &none, &CURRENT), None);
    assert_eq!(viewed(&state, &none, &PINNED), None);
    assert!(highlighted_rows(&state, &none, &CURRENT).is_empty());
}

#[test]
fn chips_that_share_the_identity_are_highlighted_together() {
    let chips = vec![chip(1), chip(2), chip(2)];
    let mut state = AppState::default();
    state.select_next_chip(&chips);
    assert_eq!(highlighted_rows(&state, &chips, &CURRENT), vec![false, true, true]);
}

#[test]
fn row_label_is_prefix_slash_name() {
    let chip = ChipSnapshot {
        identity: 0,
        name: String::from("coretemp-isa-0000"),
        prefix: String::from("coretemp"),
        features: Vec::new(),
    };
    assert_eq!(chip_list_label(&chip), "coretemp/coretemp-isa-0000");
    let bare = ChipSnapshot {
        identity: 0,
        name: String::new(),
        prefix: String::new(),
        features: Vec::new(),
    };
    assert_eq!(chip_list_label(&bare), "/");
}

use kbd::state::{Mods, State};

#[test]
fn pressed_means_press_without_repeat() {
    assert!(State(0b0000_0001).pressed());
    assert!(!State(0b0000_0011).pressed());
    assert!(!State(0b0000_0000).pressed());
    assert!(!State(0b0000_0010).pressed());
}

#[test]
fn repeated_reads_the_repeat_bit() {
    assert!(State(0b0000_0010).repeated());
    assert!(State(0b0000_0011).repeated());
    assert!(!State(0b0000_0001).repeated());
}

#[test]
fn inputted_means_pressed_or_repeated() {
    assert!(State(0b0000_0001).inputted());
    assert!(State(0b0000_0010).inputted());
    assert!(State(0b0000_0011).inputted());
    assert!(!State(0b0000_0000).inputted());
    assert!(!State(0b1110_0000).inputted());
}

#[test]
fn pressed_with_matches_exact_modifier_combination() {
    // Shift-press: shift bits high, press bit set.
    assert!(State(0b1000_0001).pressed_with(Mods::Shift));
    assert!(!State(0b1000_0001).pressed_with(Mods::Plain));
    assert!(!State(0b1000_0000).pressed_with(Mods::Shift));
    assert!(State(0b0000_0001).pressed_with(Mods::Plain));
    assert!(State(0b1100_0001).pressed_with(Mods::Alt));
    assert!(State(0b0100_0001).pressed_with(Mods::Ctrl));
    assert!(State(0b0010_0001).pressed_with(Mods::Opt));
    assert!(State(0b1010_0001).pressed_with(Mods::ShiftOpt));
    // Bits outside the modifier mask and the press bit are ignored.
    assert!(State(0b1000_1001).pressed_with(Mods::Shift));
}

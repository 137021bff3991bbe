use dartman::throwing::{darts_to_throw, ButtonEvent, PointerButton, PressState};

fn event(button: PointerButton, state: PressState) -> ButtonEvent {
    ButtonEvent { button, state }
}

#[test]
fn only_left_presses_throw() {
    assert!(event(PointerButton::Left, PressState::Pressed).throws_dart());
    assert!(!event(PointerButton::Left, PressState::Released).throws_dart());
    assert!(!event(PointerButton::Right, PressState::Pressed).throws_dart());
    assert!(!event(PointerButton::Middle, PressState::Pressed).throws_dart());
    assert!(!event(PointerButton::Other(3), PressState::Pressed).throws_dart());
}

#[test]
fn counting_throws() {
    assert_eq!(darts_to_throw(&vec![]), 0);
    let events = vec![
        event(PointerButton::Left, PressState::Pressed),
        event(PointerButton::Left, PressState::Released),
        event(PointerButton::Right, PressState::Pressed),
        event(PointerButton::Left, PressState::Pressed),
        event(PointerButton::Back, PressState::Released),
        event(PointerButton::Forward, PressState::Pressed),
    ];
    assert_eq!(darts_to_throw(&events), 2);
}

#[test]
fn throws_of_two_batches_add_up() {
    let first = vec![event(PointerButton::Left, PressState::Pressed); 3];
    let second = vec![
        event(PointerButton::Left, PressState::Pressed),
        event(PointerButton::Right, PressState::Released),
    ];
    let mut both = first.clone();
    both.extend(second.iter().copied());
    assert_eq!(darts_to_throw(&both), darts_to_throw(&first) + darts_to_throw(&second));
    assert_eq!(darts_to_throw(&both), 4);
}

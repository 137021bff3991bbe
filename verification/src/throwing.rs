//! Which mouse presses throw a dart.

use vstd::prelude::*;

verus! {

/// The mouse buttons that the game tells apart.
#[derive(Clone, Copy, Debug, PartialEq, Eq, Structural)]
pub enum PointerButton {
    Left,
    Right,
    Middle,
    Back,
    Forward,
    Other(u16),
}

/// Whether a button went down or came up.
#[derive(Clone, Copy, Debug, PartialEq, Eq, Structural)]
pub enum PressState {
    Pressed,
    Released,
}

/// One mouse button event of a frame.
#[derive(Clone, Copy, Debug, PartialEq, Eq, Structural)]
pub struct ButtonEvent {
    pub button: PointerButton,
    pub state: PressState,
}

/// The event is a press of the left button.
pub open spec fn is_throw(event: ButtonEvent) -> bool {
    event.state is Pressed && event.button is Left
}

/// The number of left-button presses among `events`.
pub open spec fn throw_count(events: Seq<ButtonEvent>) -> nat
    decreases events.len(),
{
    if events.len() == 0 {
        0
    } else {
        throw_count(events.drop_last()) + if is_throw(events.last()) {
            1nat
        } else {
            0nat
        }
    }
}

impl ButtonEvent {
    /// A dart leaves the player's hand on each press of the left button.
    pub fn throws_dart(&self) -> (throws: bool)
        ensures
            throws == is_throw(*self),
    {
        let pressed = match self.state {
            PressState::Pressed => true,
            PressState::Released => false,
        };
        let left = match self.button {
            PointerButton::Left => true,
            _ => false,
        };
        pressed && left
    }
}

/// The number of darts that a frame's mouse events throw: one for each press
/// of the left button.
pub fn darts_to_throw(events: &Vec<ButtonEvent>) -> (count: usize)
    ensures
        count == throw_count(events@),
{
    let mut count: usize = 0;
    let mut i: usize = 0;
    while i < events.len()
        invariant
            i <= events@.len(),
            count == throw_count(events@.take(i as int)),
            count <= i,
        decreases events.len() - i,
    {
        proof {
            assert(events@.take(i + 1).drop_last() =~= events@.take(i as int));
        }
        if events[i].throws_dart() {
            count = count + 1;
        }
        i = i + 1;
    }
    proof {
        assert(events@.take(events@.len() as int) =~= events@);
    }
    count
}

/// A frame never throws more darts than it has mouse events.
pub proof fn law_throws_bounded(events: Seq<ButtonEvent>)
    ensures
        throw_count(events) <= events.len(),
    decreases events.len(),
{
    if events.len() > 0 {
        law_throws_bounded(events.drop_last());
    }
}

/// The darts thrown by two batches of events, one after the other, are those
/// of each batch added up.
pub proof fn law_throws_add_up(first: Seq<ButtonEvent>, second: Seq<ButtonEvent>)
    ensures
        throw_count(first + second) == throw_count(first) + throw_count(second),
    decreases second.len(),
{
    if second.len() == 0 {
        assert(first + second =~= first);
    } else {
        law_throws_add_up(first, second.drop_last());
        assert((first + second).drop_last() =~= first + second.drop_last());
    }
}

/// Adding one event to a frame throws one more dart exactly when the event is
/// a press of the left button; no other button, and no release, throws.
pub proof fn law_only_left_presses_throw(events: Seq<ButtonEvent>, event: ButtonEvent)
    ensures
        throw_count(Seq::<ButtonEvent>::empty()) == 0,
        event == (ButtonEvent { button: PointerButton::Left, state: PressState::Pressed })
            ==> throw_count(events.push(event)) == throw_count(events) + 1,
        event != (ButtonEvent { button: PointerButton::Left, state: PressState::Pressed })
            ==> throw_count(events.push(event)) == throw_count(events),
        event.button != PointerButton::Left ==> throw_count(seq![event]) == 0,
        event.state != PressState::Pressed ==> throw_count(seq![event]) == 0,
{
    assert(events.push(event).drop_last() =~= events);
    assert(seq![event].drop_last() =~= Seq::<ButtonEvent>::empty());
}

} // verus!

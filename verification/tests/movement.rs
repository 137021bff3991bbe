use dartman::movement::{movement_direction, MovementKeys, StepDirection};

fn keys(w: bool, a: bool, s: bool, d: bool) -> MovementKeys {
    MovementKeys { w, a, s, d }
}

#[test]
fn no_keys_no_step() {
    assert_eq!(movement_direction(keys(false, false, false, false)), StepDirection { x: 0, z: 0 });
}

#[test]
fn single_keys() {
    assert_eq!(movement_direction(keys(true, false, false, false)), StepDirection { x: -1, z: 0 });
    assert_eq!(movement_direction(keys(false, true, false, false)), StepDirection { x: 0, z: 1 });
    assert_eq!(movement_direction(keys(false, false, true, false)), StepDirection { x: 1, z: 0 });
    assert_eq!(movement_direction(keys(false, false, false, true)), StepDirection { x: 0, z: -1 });
}

#[test]
fn diagonal_keys() {
    assert_eq!(movement_direction(keys(true, true, false, false)), StepDirection { x: -1, z: 1 });
    assert_eq!(movement_direction(keys(false, false, true, true)), StepDirection { x: 1, z: -1 });
}

#[test]
fn opposite_keys_cancel() {
    assert_eq!(movement_direction(keys(true, false, true, false)), StepDirection { x: 0, z: 0 });
    assert_eq!(movement_direction(keys(false, true, false, true)), StepDirection { x: 0, z: 0 });
    assert_eq!(movement_direction(keys(true, true, true, true)), StepDirection { x: 0, z: 0 });
    assert_eq!(movement_direction(keys(true, true, true, false)), StepDirection { x: 0, z: 1 });
}

#[test]
fn every_combination_follows_the_keys() {
    for bits in 0u8..16 {
        let k = keys(bits & 1 != 0, bits & 2 != 0, bits & 4 != 0, bits & 8 != 0);
        let step = movement_direction(k);
        assert_eq!(step.x, k.s as i8 - k.w as i8);
        assert_eq!(step.z, k.a as i8 - k.d as i8);
    }
}

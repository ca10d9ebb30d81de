use keypad_chain::keypad::{Cell, Keypad, PadError, PadType, Transition};

fn dir_pad() -> Keypad {
    Keypad::new(PadType::Dir, String::from("dir"))
}

fn num_pad() -> Keypad {
    Keypad::new(PadType::Num, String::from("num"))
}

#[test]
fn new_directional_starts_at_home() {
    let k = dir_pad();
    assert_eq!(k.pad_type, PadType::Dir);
    assert_eq!(k.cursor, Cell { x: 2, y: 0 });
    assert_eq!(k.error, None);
    assert_eq!(k.transition, Transition::Idle);
}

#[test]
fn new_numeric_starts_at_home() {
    let k = num_pad();
    assert_eq!(k.pad_type, PadType::Num);
    assert_eq!(k.cursor, Cell { x: 2, y: 3 });
    assert_eq!(k.error, None);
    assert_eq!(k.transition, Transition::Idle);
}

#[test]
fn directional_layout_mapping() {
    let pt = PadType::Dir;
    assert_eq!(pt.width(), 3);
    assert_eq!(pt.height(), 2);
    assert_eq!(pt.gap_cell(), Cell { x: 0, y: 0 });
    assert_eq!(pt.home_cell(), Cell { x: 2, y: 0 });
    assert_eq!(pt.button_at(Cell { x: 1, y: 0 }), Some('U'));
    assert_eq!(pt.button_at(Cell { x: 2, y: 0 }), Some('A'));
    assert_eq!(pt.button_at(Cell { x: 0, y: 1 }), Some('L'));
    assert_eq!(pt.button_at(Cell { x: 1, y: 1 }), Some('D'));
    assert_eq!(pt.button_at(Cell { x: 2, y: 1 }), Some('R'));
    assert_eq!(pt.button_at(Cell { x: 0, y: 0 }), None);
    assert_eq!(pt.button_at(Cell { x: 3, y: 0 }), None);
    assert_eq!(pt.button_at(Cell { x: 0, y: -1 }), None);
}

#[test]
fn numeric_layout_mapping() {
    let pt = PadType::Num;
    assert_eq!(pt.width(), 3);
    assert_eq!(pt.height(), 4);
    assert_eq!(pt.gap_cell(), Cell { x: 0, y: 3 });
    assert_eq!(pt.home_cell(), Cell { x: 2, y: 3 });
    let expected = [
        (0, 0, '7'),
        (1, 0, '8'),
        (2, 0, '9'),
        (0, 1, '4'),
        (1, 1, '5'),
        (2, 1, '6'),
        (0, 2, '1'),
        (1, 2, '2'),
        (2, 2, '3'),
        (1, 3, '0'),
        (2, 3, 'A'),
    ];
    for (x, y, c) in expected {
        assert_eq!(pt.button_at(Cell { x, y }), Some(c));
    }
    assert_eq!(pt.button_at(Cell { x: 0, y: 3 }), None);
}

#[test]
fn cell_of_inverts_button_at() {
    for pt in [PadType::Dir, PadType::Num] {
        let (w, h) = (pt.width(), pt.height());
        for x in 0..w {
            for y in 0..h {
                let c = Cell { x, y };
                match pt.button_at(c) {
                    Some(s) => assert_eq!(pt.cell_of(s), Some(c)),
                    None => assert_eq!(c, pt.gap_cell()),
                }
            }
        }
    }
    assert_eq!(PadType::Dir.cell_of('7'), None);
    assert_eq!(PadType::Num.cell_of('U'), None);
    assert_eq!(PadType::Dir.cell_of('x'), None);
}

#[test]
fn movement_shifts_cursor_and_records_transition() {
    let mut k = num_pad();
    let emit = k.send_signal(Some('U'));
    assert_eq!(emit, None);
    assert_eq!(k.cursor, Cell { x: 2, y: 2 });
    assert_eq!(k.transition, Transition::MovedFrom(Cell { x: 2, y: 3 }));
    assert_eq!(k.error, None);
}

#[test]
fn activation_emits_button_under_cursor() {
    let mut k = num_pad();
    assert_eq!(k.send_signal(Some('U')), None);
    assert_eq!(k.send_signal(Some('A')), Some('3'));
    assert_eq!(k.transition, Transition::Pressed);
    assert_eq!(k.cursor, Cell { x: 2, y: 2 });
    assert_eq!(k.error, None);
}

#[test]
fn idle_signal_only_clears_transition() {
    let mut k = dir_pad();
    k.send_signal(Some('L'));
    assert_eq!(k.transition, Transition::MovedFrom(Cell { x: 2, y: 0 }));
    let emit = k.send_signal(None);
    assert_eq!(emit, None);
    assert_eq!(k.transition, Transition::Idle);
    assert_eq!(k.cursor, Cell { x: 1, y: 0 });
}

#[test]
fn left_from_home_then_left_again_hits_gap() {
    // Boundary scenario on the directional pad: the first Left is legal and
    // lands on the Up button; the second would land on the gap and must
    // fail, leaving the cursor where it was.
    let mut k = dir_pad();
    let emit = k.send_signal(Some('L'));
    assert_eq!(emit, None);
    assert_eq!(k.cursor, Cell { x: 1, y: 0 });
    assert_eq!(k.error, None);

    let emit = k.send_signal(Some('L'));
    assert_eq!(emit, None);
    assert_eq!(k.error, Some(PadError::LandedOnGap));
    assert_eq!(k.cursor, Cell { x: 1, y: 0 });
    assert!(k.has_error());
}

#[test]
fn moving_off_grid_is_out_of_bounds() {
    let mut k = dir_pad();
    k.send_signal(Some('U'));
    assert_eq!(k.error, Some(PadError::OutOfBounds));
    assert_eq!(k.cursor, Cell { x: 2, y: 0 });

    let mut k = num_pad();
    k.send_signal(Some('R'));
    assert_eq!(k.error, Some(PadError::OutOfBounds));
    assert_eq!(k.cursor, Cell { x: 2, y: 3 });

    let mut k = num_pad();
    k.send_signal(Some('D'));
    assert_eq!(k.error, Some(PadError::OutOfBounds));
}

#[test]
fn unknown_signal_is_malformed() {
    let mut k = dir_pad();
    let emit = k.send_signal(Some('x'));
    assert_eq!(emit, None);
    assert_eq!(k.error, Some(PadError::MalformedSignal));
    assert_eq!(k.cursor, Cell { x: 2, y: 0 });
}

#[test]
fn error_is_sticky_until_reset() {
    // Sticky error: once the flag is set, no further signal changes the
    // cursor or anything else, until a reset.
    let mut k = dir_pad();
    k.send_signal(Some('U'));
    assert_eq!(k.error, Some(PadError::OutOfBounds));
    for sig in ['L', 'R', 'U', 'D', 'A', 'x'] {
        let emit = k.send_signal(Some(sig));
        assert_eq!(emit, None);
        assert_eq!(k.cursor, Cell { x: 2, y: 0 });
        assert_eq!(k.error, Some(PadError::OutOfBounds));
    }
    k.reset();
    assert_eq!(k.error, None);
    assert_eq!(k.cursor, Cell { x: 2, y: 0 });
    assert_eq!(k.transition, Transition::Idle);
}

#[test]
fn reset_is_idempotent_and_equals_fresh_state() {
    let mut k = num_pad();
    k.send_signal(Some('L'));
    k.send_signal(Some('U'));
    k.reset();
    let fresh = num_pad();
    assert_eq!(k.cursor, fresh.cursor);
    assert_eq!(k.error, fresh.error);
    assert_eq!(k.transition, fresh.transition);
    assert_eq!(k.pad_type, fresh.pad_type);
    k.reset();
    assert_eq!(k.cursor, fresh.cursor);
    assert_eq!(k.error, fresh.error);
    assert_eq!(k.transition, fresh.transition);
}

#[test]
fn moves_add_up_as_vector_sum() {
    // A gap-free, in-grid walk ends at home plus the 2D vector sum of the
    // individual moves, each taken independently.
    let moves = ['U', 'L', 'L', 'U', 'D', 'R', 'U'];
    let mut k = num_pad();
    let (mut dx, mut dy) = (0i32, 0i32);
    for m in moves {
        k.send_signal(Some(m));
        assert_eq!(k.error, None);
        match m {
            'L' => dx -= 1,
            'R' => dx += 1,
            'U' => dy -= 1,
            'D' => dy += 1,
            _ => {}
        }
    }
    let home = PadType::Num.home_cell();
    assert_eq!(k.cursor, Cell { x: home.x + dx, y: home.y + dy });
}

#[test]
fn press_jumps_to_button_and_forwards_label() {
    let mut k = dir_pad();
    let emit = k.press('L');
    assert_eq!(emit, Some('L'));
    assert_eq!(k.cursor, Cell { x: 0, y: 1 });
    assert_eq!(k.transition, Transition::Pressed);
    assert_eq!(k.error, None);
}

#[test]
fn press_of_unknown_button_is_malformed() {
    let mut k = dir_pad();
    let emit = k.press('7');
    assert_eq!(emit, None);
    assert_eq!(k.error, Some(PadError::MalformedSignal));
    assert_eq!(k.cursor, Cell { x: 2, y: 0 });
}

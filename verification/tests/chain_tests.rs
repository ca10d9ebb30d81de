use keypad_chain::chain::{Device, Display, SignalChain};
use keypad_chain::command::normalize_command;
use keypad_chain::keypad::{Cell, Keypad, PadError, PadType, Transition};
use keypad_chain::sim::{ChainSimulator, SimStatus};

fn chars(s: &str) -> Vec<char> {
    s.chars().collect()
}

fn simulator(kinds: &[PadType]) -> ChainSimulator {
    let kinds: Vec<PadType> = kinds.to_vec();
    let chain = SignalChain::new(&kinds, String::from("display"));
    ChainSimulator::new(chain)
}

#[test]
fn display_collects_emitted_characters() {
    let mut d = Display::new(String::from("out"));
    assert_eq!(d.text, Vec::<char>::new());
    d.send_signal(Some('4'));
    d.send_signal(None);
    d.send_signal(Some('2'));
    assert_eq!(d.text, vec!['4', '2']);
    assert_eq!(d.name, "out");
}

#[test]
fn device_dispatches_to_keypad_or_display() {
    let mut dev = Device::Keypad(Keypad::new(PadType::Dir, String::from("pad")));
    assert_eq!(dev.send_signal(Some('A')), Some('A'));

    let mut dev = Device::Display(Display::new(String::from("out")));
    assert_eq!(dev.send_signal(Some('9')), None);
    match dev {
        Device::Display(d) => assert_eq!(d.text, vec!['9']),
        Device::Keypad(_) => panic!("display device turned into a keypad"),
    }
}

#[test]
fn chain_new_builds_reset_links() {
    let kinds = vec![PadType::Dir, PadType::Dir, PadType::Dir, PadType::Num];
    let ch = SignalChain::new(&kinds, String::from("display"));
    assert_eq!(ch.links.len(), 4);
    for (i, k) in ch.links.iter().enumerate() {
        assert_eq!(k.pad_type, kinds[i]);
        assert_eq!(k.cursor, kinds[i].home_cell());
        assert_eq!(k.error, None);
        assert_eq!(k.transition, Transition::Idle);
    }
    assert_eq!(ch.sink.text, Vec::<char>::new());
}

#[test]
fn propagate_forwards_press_to_next_link() {
    let kinds = vec![PadType::Dir, PadType::Num];
    let mut ch = SignalChain::new(&kinds, String::from("display"));
    ch.propagate(Some('L'));
    assert_eq!(ch.links[0].cursor, Cell { x: 0, y: 1 });
    assert_eq!(ch.links[0].transition, Transition::Pressed);
    assert_eq!(ch.links[1].cursor, Cell { x: 1, y: 3 });
    assert_eq!(
        ch.links[1].transition,
        Transition::MovedFrom(Cell { x: 2, y: 3 })
    );
    assert_eq!(ch.sink.text, Vec::<char>::new());

    ch.propagate(Some('A'));
    assert_eq!(ch.links[0].cursor, Cell { x: 2, y: 0 });
    assert_eq!(ch.links[1].cursor, Cell { x: 1, y: 3 });
    assert_eq!(ch.links[1].transition, Transition::Pressed);
    assert_eq!(ch.sink.text, vec!['0']);
}

#[test]
fn two_link_chain_types_029() {
    // End-to-end scenario: one directional pad feeding one numeric pad.
    // The arrow-glyph command "<A^A>^^AvvvA", normalized to the signal
    // alphabet, must make the numeric pad type out exactly "029A".
    let cmd = normalize_command(&chars("<A^A>^^AvvvA")).expect("command should normalize");
    assert_eq!(cmd, chars("LAUARUUADDDA"));
    let mut sim = simulator(&[PadType::Dir, PadType::Num]);
    let up_to = cmd.len();
    sim.replay(&cmd, up_to);
    assert_eq!(sim.chain.sink.text, chars("029A"));
    assert_eq!(sim.status, SimStatus::Complete);
    assert_eq!(sim.failure, None);
    assert_eq!(sim.cursor_into_command, up_to);
    for k in sim.chain.links.iter() {
        assert_eq!(k.error, None);
    }
}

#[test]
fn four_link_chain_types_179() {
    // Three directional pads feeding one numeric pad. The command was
    // built by planning the numeric walk 1-7-9-A and twice expanding each
    // step into directional-pad presses, so by construction it must
    // produce "179A" with no link left in error.
    let cmd = chars("DLLARRUALDALARRUAADAALUARADLLARRUAADAUALDARUAALARADLLARARUAAADALUARA");
    let mut sim = simulator(&[PadType::Dir, PadType::Dir, PadType::Dir, PadType::Num]);
    let up_to = cmd.len();
    sim.replay(&cmd, up_to);
    assert_eq!(sim.chain.sink.text, chars("179A"));
    assert_eq!(sim.status, SimStatus::Complete);
    assert_eq!(sim.failure, None);
    for k in sim.chain.links.iter() {
        assert_eq!(k.error, None);
    }
}

#[test]
fn partial_scrub_replays_prefix_only() {
    let cmd = chars("LAUARUUADDDA");
    let mut sim = simulator(&[PadType::Dir, PadType::Num]);
    sim.replay(&cmd, 4);
    assert_eq!(sim.chain.sink.text, chars("02"));
    assert_eq!(sim.status, SimStatus::Complete);
    assert_eq!(sim.cursor_into_command, 4);
    sim.replay(&cmd, 0);
    assert_eq!(sim.chain.sink.text, Vec::<char>::new());
    assert_eq!(sim.status, SimStatus::Complete);
    assert_eq!(sim.cursor_into_command, 0);
}

#[test]
fn replay_halts_at_first_link_error() {
    // Pressing L twice walks the numeric pad from A over 0 onto the gap:
    // the second step must halt the replay with the numeric link in error.
    let cmd = chars("LL");
    let mut sim = simulator(&[PadType::Dir, PadType::Num]);
    sim.replay(&cmd, 2);
    let failure = sim.failure.expect("replay should have halted");
    assert_eq!(failure.link_index, 1);
    assert_eq!(failure.command_index, 1);
    assert_eq!(failure.kind, PadError::LandedOnGap);
    assert_eq!(sim.status, SimStatus::Halted(1));
    assert_eq!(sim.cursor_into_command, 2);
    assert_eq!(sim.chain.sink.text, Vec::<char>::new());
    assert_eq!(sim.chain.links[1].error, Some(PadError::LandedOnGap));
    assert_eq!(sim.chain.links[1].cursor, Cell { x: 1, y: 3 });
    assert_eq!(sim.chain.links[0].error, None);
}

#[test]
fn replay_halts_on_malformed_manual_character() {
    let cmd = chars("x");
    let mut sim = simulator(&[PadType::Dir, PadType::Num]);
    sim.replay(&cmd, 1);
    let failure = sim.failure.expect("replay should have halted");
    assert_eq!(failure.link_index, 0);
    assert_eq!(failure.command_index, 0);
    assert_eq!(failure.kind, PadError::MalformedSignal);
    assert_eq!(sim.status, SimStatus::Halted(0));
}

#[test]
fn replay_is_restartable_after_a_halt() {
    let mut sim = simulator(&[PadType::Dir, PadType::Num]);
    sim.replay(&chars("LL"), 2);
    assert!(sim.failure.is_some());
    let cmd = chars("LAUARUUADDDA");
    sim.replay(&cmd, 12);
    assert_eq!(sim.failure, None);
    assert_eq!(sim.chain.sink.text, chars("029A"));
    assert_eq!(sim.status, SimStatus::Complete);
}

#[test]
fn trace_has_one_row_per_step_plus_flush() {
    let cmd = chars("LA");
    let mut sim = simulator(&[PadType::Dir, PadType::Num]);
    sim.replay(&cmd, 2);
    assert_eq!(sim.trace.len(), 3);
    for row in sim.trace.iter() {
        assert_eq!(row.len(), 2);
    }

    let row = &sim.trace[0];
    assert_eq!(row[0].cursor, Cell { x: 0, y: 1 });
    assert_eq!(row[0].transition, Transition::Pressed);
    assert_eq!(row[1].cursor, Cell { x: 1, y: 3 });
    assert_eq!(row[1].transition, Transition::MovedFrom(Cell { x: 2, y: 3 }));

    let row = &sim.trace[1];
    assert_eq!(row[0].cursor, Cell { x: 2, y: 0 });
    assert_eq!(row[0].transition, Transition::Pressed);
    assert_eq!(row[1].transition, Transition::Pressed);

    // The flush row carries no stale movement or press markers.
    let row = &sim.trace[2];
    assert_eq!(row[0].transition, Transition::Idle);
    assert_eq!(row[1].transition, Transition::Idle);
    assert_eq!(row[0].error, None);
    assert_eq!(row[1].error, None);
}

#[test]
fn halted_trace_stops_at_failing_step() {
    let mut sim = simulator(&[PadType::Dir, PadType::Num]);
    sim.replay(&chars("LLAA"), 4);
    // Two executed steps (the second fails), then the flush row.
    assert_eq!(sim.trace.len(), 3);
    assert_eq!(sim.trace[1][1].error, Some(PadError::LandedOnGap));
    // The failed link keeps its error through the flush.
    assert_eq!(sim.trace[2][1].error, Some(PadError::LandedOnGap));
    assert_eq!(sim.trace[2][0].transition, Transition::Idle);
}

#[test]
fn scrubbing_twice_is_deterministic() {
    // Replaying the same prefix twice with no mutation in between must
    // produce identical sink output and an identical trace.
    let cmd = chars("LAUARUUADDDA");
    let mut sim = simulator(&[PadType::Dir, PadType::Num]);
    sim.replay(&cmd, 7);
    let sink_first = sim.chain.sink.text.clone();
    let trace_first = sim.trace.clone();
    let failure_first = sim.failure;
    let status_first = sim.status;
    sim.replay(&cmd, 7);
    assert_eq!(sim.chain.sink.text, sink_first);
    assert_eq!(sim.trace, trace_first);
    assert_eq!(sim.failure, failure_first);
    assert_eq!(sim.status, status_first);
}

#[test]
fn normalize_maps_arrow_glyphs() {
    assert_eq!(
        normalize_command(&chars("<>^vA")),
        Some(chars("LRUDA"))
    );
    assert_eq!(normalize_command(&chars("LRUDA")), Some(chars("LRUDA")));
    assert_eq!(normalize_command(&chars("")), Some(chars("")));
    assert_eq!(normalize_command(&chars("<U")), None);
    assert_eq!(normalize_command(&chars("xyz")), None);
    assert_eq!(normalize_command(&chars("012")), None);
}

use apogee::output::{BufferGate, BufferState, OutputFormat};

#[test]
fn output_format_frame_conversion() {
    let format = OutputFormat::new(48_000, 2);
    assert_eq!(format.frames_for_millis(500), 24_000);
    assert_eq!(format.frames_for_millis(2000), 96_000);
}

#[test]
fn hysteresis_prevents_oscillation_at_a_single_threshold() {
    let mut gate = BufferGate::new(1000, 200);
    assert_eq!(gate.state(), BufferState::Buffering);

    assert!(!gate.update(500));
    assert_eq!(gate.state(), BufferState::Buffering);
    assert!(gate.update(1000));
    assert_eq!(gate.state(), BufferState::Playing);

    for occupancy in [999, 1001, 998, 1002, 950, 1050] {
        let changed = gate.update(occupancy);
        assert!(!changed, "unexpected flip at occupancy {occupancy}");
        assert_eq!(gate.state(), BufferState::Playing);
    }

    assert!(gate.update(200));
    assert_eq!(gate.state(), BufferState::Buffering);
}

#[test]
fn hysteresis_requires_climbing_all_the_way_back_to_start_after_a_rebuffer() {
    let mut gate = BufferGate::new(1000, 200);
    gate.update(1000);
    assert_eq!(gate.state(), BufferState::Playing);
    gate.update(200);
    assert_eq!(gate.state(), BufferState::Buffering);

    assert!(!gate.update(999));
    assert_eq!(gate.state(), BufferState::Buffering);
    assert!(gate.update(1000));
    assert_eq!(gate.state(), BufferState::Playing);
}

#[test]
fn frame_conversion_rounds_down() {
    let format = OutputFormat::new(44_100, 2);
    assert_eq!(format.frames_for_millis(1), 44);
    assert_eq!(format.frames_for_millis(0), 0);
}

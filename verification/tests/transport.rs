use tunelock::transport::{TransportCommand, TransportState};

#[test]
fn transport_starts_stopped() {
    let t = TransportState::new();
    assert!(!t.is_playing());
    assert!(!t.is_drift_measuring());
}

#[test]
fn play_pause_stop_drive_the_transport() {
    let mut t = TransportState::new();
    t.handle_command(&TransportCommand::Play);
    assert!(t.is_playing());
    t.handle_command(&TransportCommand::SetCrossfade(0.5f32.to_bits()));
    assert!(t.is_playing());
    t.handle_command(&TransportCommand::Seek(12.0f64.to_bits()));
    assert!(t.is_playing());
    t.handle_command(&TransportCommand::Pause);
    assert!(!t.is_playing());
    t.handle_command(&TransportCommand::SetTempoA(1.02f32.to_bits()));
    assert!(!t.is_playing());
    t.handle_command(&TransportCommand::Play);
    t.handle_command(&TransportCommand::Stop);
    assert!(!t.is_playing());
}

#[test]
fn drift_measurement_flag_and_start_time() {
    let mut t = TransportState::new();
    t.start_drift_measurement();
    assert!(t.is_drift_measuring());
    t.set_start_time(std::time::Instant::now());
    assert!(t.is_drift_measuring());
    assert!(!t.is_playing());
    t.stop_drift_measurement();
    assert!(!t.is_drift_measuring());
}

use tunelock::meter::{MeterSnapshot, CROSSFADE_CENTER_BITS};

#[test]
fn new_snapshot_is_silent_and_centred() {
    let m = MeterSnapshot::new();
    assert!(!m.is_playing());
    assert_eq!(m.current_frame(), 0);
    assert_eq!(m.underruns(), 0);
    assert_eq!(m.commands_dropped(), 0);
    let all = m.read_all();
    assert_eq!(all.players.len(), 8);
    assert!(all.players.iter().all(|p| !p.playing && p.rms_bits == 0 && !p.clip));
    assert_eq!(all.mix.crossfade_position_bits, CROSSFADE_CENTER_BITS);
    assert_eq!(f64::from_bits(all.mix.crossfade_position_bits), 0.5);
}

#[test]
fn player_meters_read_back_what_was_written() {
    let mut m = MeterSnapshot::new();
    m.write_player(3, true, 12.5f64.to_bits(), 0.25f64.to_bits(), 0.9f64.to_bits(), true);
    let p = m.read_player(3);
    assert!(p.playing);
    assert_eq!(f64::from_bits(p.position_sec_bits), 12.5);
    assert_eq!(f64::from_bits(p.rms_bits), 0.25);
    assert_eq!(f64::from_bits(p.peak_bits), 0.9);
    assert!(p.clip);
    // Other slots are untouched; an index past the slots is ignored.
    assert!(!m.read_player(2).playing);
    m.write_player(8, true, 0, 0, 0, false);
    assert!(!m.read_player(8).playing);
}

#[test]
fn frame_and_mix_meters() {
    let mut m = MeterSnapshot::new();
    m.write_frame(48000);
    assert_eq!(m.current_frame(), 48000);
    m.write_buses(1, 2, 3, 4);
    m.write_master(5, 6, 7, true);
    m.write_crossfade(0.75f64.to_bits());
    let all = m.read_all();
    assert_eq!(all.current_frame, 48000);
    assert_eq!(all.mix.bus_a_rms_bits, 1);
    assert_eq!(all.mix.bus_b_peak_bits, 4);
    assert_eq!(all.mix.master_true_peak_bits, 7);
    assert!(all.mix.master_clip);
    assert_eq!(f64::from_bits(all.mix.crossfade_position_bits), 0.75);
}

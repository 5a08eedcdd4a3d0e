use tunelock::command::{
    engine_default_bus, filter_mode_for, player_in_range, player_initial_bus, processor_mode_code,
    processor_mode_for, BusId, FilterMode, FilterModeParam, PlayerFlags, PlayerId, ProcessorMode,
    ProcessorType, MAX_PLAYERS,
};
use tunelock::control::{ControlCommand, PlayerBank};

#[test]
fn player_id_index() {
    assert_eq!(PlayerId(0).as_index(), 0);
    assert_eq!(PlayerId(7).as_index(), 7);
}

#[test]
fn filter_and_processor_modes_map_one_to_one() {
    assert_eq!(filter_mode_for(FilterModeParam::Bypass), FilterMode::Bypass);
    assert_eq!(filter_mode_for(FilterModeParam::Lowpass), FilterMode::Lowpass);
    assert_eq!(filter_mode_for(FilterModeParam::Bandpass), FilterMode::Bandpass);
    assert_eq!(filter_mode_for(FilterModeParam::Highpass), FilterMode::Highpass);
    assert_eq!(processor_mode_for(ProcessorType::Bypass), ProcessorMode::Bypass);
    assert_eq!(processor_mode_for(ProcessorType::Varispeed), ProcessorMode::Varispeed);
    assert_eq!(processor_mode_for(ProcessorType::Signalsmith), ProcessorMode::Signalsmith);
    assert_eq!(processor_mode_code(ProcessorMode::Bypass), 0);
    assert_eq!(processor_mode_code(ProcessorMode::Varispeed), 1);
    assert_eq!(processor_mode_code(ProcessorMode::Signalsmith), 2);
}

#[test]
fn bus_assignment_by_slot() {
    assert_eq!(player_initial_bus(PlayerId(0)), BusId::A);
    assert_eq!(player_initial_bus(PlayerId(3)), BusId::B);
    assert_eq!(engine_default_bus(0), BusId::A);
    assert_eq!(engine_default_bus(1), BusId::B);
    assert_eq!(engine_default_bus(6), BusId::A);
    assert!(player_in_range(PlayerId(7)));
    assert!(!player_in_range(PlayerId(8)));
}

#[test]
fn audibility_respects_mute_and_solo() {
    let mut f = PlayerFlags::new(PlayerId(1));
    assert!(!f.is_audible(false));
    f.playing = true;
    assert!(f.is_audible(false));
    assert!(!f.is_audible(true));
    f.soloed = true;
    assert!(f.is_audible(true));
    f.muted = true;
    assert!(!f.is_audible(true));
}

#[test]
fn player_bank_starts_stopped_on_alternating_buses() {
    let bank = PlayerBank::new();
    for i in 0..MAX_PLAYERS {
        let f = bank.flags(i);
        assert!(!f.playing && !f.muted && !f.soloed);
        assert_eq!(f.bus, if i % 2 == 0 { BusId::A } else { BusId::B });
    }
    assert!(!bank.any_soloed());
}

#[test]
fn solo_isolates_the_soloed_player() {
    let mut bank = PlayerBank::new();
    bank.apply(ControlCommand::Resume { player: PlayerId(0) });
    bank.apply(ControlCommand::Resume { player: PlayerId(1) });
    assert!(bank.is_audible(0) && bank.is_audible(1));
    bank.apply(ControlCommand::SetSolo { player: PlayerId(1), soloed: true });
    assert!(bank.any_soloed());
    assert!(!bank.is_audible(0));
    assert!(bank.is_audible(1));
    bank.apply(ControlCommand::SetSolo { player: PlayerId(1), soloed: false });
    assert!(!bank.any_soloed());
    assert!(bank.is_audible(0));
}

#[test]
fn commands_for_missing_slots_are_ignored() {
    let mut bank = PlayerBank::new();
    bank.apply(ControlCommand::SetSolo { player: PlayerId(8), soloed: true });
    assert!(!bank.any_soloed());
    bank.apply(ControlCommand::Resume { player: PlayerId(200) });
    for i in 0..MAX_PLAYERS {
        assert!(!bank.flags(i).playing);
    }
}

#[test]
fn stop_pause_mute_and_bus_commands() {
    let mut bank = PlayerBank::new();
    bank.apply(ControlCommand::Resume { player: PlayerId(2) });
    assert!(bank.flags(2).playing);
    bank.apply(ControlCommand::Pause { player: PlayerId(2) });
    assert!(!bank.flags(2).playing);
    bank.apply(ControlCommand::Resume { player: PlayerId(2) });
    bank.apply(ControlCommand::Stop { player: PlayerId(2) });
    assert!(!bank.flags(2).playing);
    bank.apply(ControlCommand::SetMute { player: PlayerId(2), muted: true });
    assert!(bank.flags(2).muted);
    bank.apply(ControlCommand::SetBus { player: PlayerId(2), bus: BusId::Master });
    assert_eq!(bank.flags(2).bus, BusId::Master);
}

#[test]
fn shutdown_stops_every_player() {
    let mut bank = PlayerBank::new();
    for i in 0..MAX_PLAYERS as u8 {
        bank.apply(ControlCommand::Resume { player: PlayerId(i) });
    }
    bank.apply(ControlCommand::SetSolo { player: PlayerId(4), soloed: true });
    bank.apply(ControlCommand::Shutdown);
    for i in 0..MAX_PLAYERS {
        assert!(!bank.flags(i).playing);
    }
    assert!(bank.flags(4).soloed);
    assert!(bank.any_soloed());
}

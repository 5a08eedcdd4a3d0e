//! Transport state of the two-deck player: whether the transport plays,
//! when playback was started, and whether a drift measurement runs.
use vstd::prelude::*;
use std::time::Instant;

verus! {

/// `std::time::Instant`, carried opaquely as the playback start time.
#[verifier::external_type_specification]
#[verifier::external_body]
pub struct ExInstant(Instant);

/// A transport command. Numeric payloads travel as the bit patterns of the
/// floating-point values the user entered (`f64` for a seek position in
/// seconds, `f32` for the others); the transport reads only the variant.
#[derive(Debug, Clone, Copy, PartialEq, Eq, Structural)]
pub enum TransportCommand {
    Play,
    Pause,
    Stop,
    Seek(u64),
    SetCrossfade(u32),
    SetTempoA(u32),
    SetTempoB(u32),
    SetGainA(u32),
    SetGainB(u32),
}

/// Whether the transport plays after `cmd`, given whether it played before.
pub open spec fn playing_after(playing: bool, cmd: TransportCommand) -> bool {
    match cmd {
        TransportCommand::Play => true,
        TransportCommand::Pause | TransportCommand::Stop => false,
        _ => playing,
    }
}

/// Shared transport state.
pub struct TransportState {
    playing: bool,
    start_time: Option<Instant>,
    drift_measuring: bool,
}

impl TransportState {
    /// Whether the transport plays.
    pub closed spec fn playing_spec(&self) -> bool {
        self.playing
    }

    /// The recorded playback start time.
    pub closed spec fn start_time_spec(&self) -> Option<Instant> {
        self.start_time
    }

    /// Whether a drift measurement is running.
    pub closed spec fn drift_measuring_spec(&self) -> bool {
        self.drift_measuring
    }

    /// A stopped transport with no start time and no measurement running.
    pub fn new() -> (t: Self)
        ensures
            !t.playing_spec(),
            t.start_time_spec() is None,
            !t.drift_measuring_spec(),
    {
        TransportState { playing: false, start_time: None, drift_measuring: false }
    }

    /// Follows a transport command: `Play` starts the transport, `Pause` and
    /// `Stop` halt it, the other commands leave it as it was.
    pub fn handle_command(&mut self, cmd: &TransportCommand)
        ensures
            final(self).playing_spec() == playing_after(old(self).playing_spec(), *cmd),
            final(self).start_time_spec() == old(self).start_time_spec(),
            final(self).drift_measuring_spec() == old(self).drift_measuring_spec(),
    {
        match cmd {
            TransportCommand::Play => {
                self.playing = true;
            },
            TransportCommand::Pause | TransportCommand::Stop => {
                self.playing = false;
            },
            _ => {},
        }
    }

    /// Records the time at which playback started.
    pub fn set_start_time(&mut self, time: Instant)
        ensures
            final(self).start_time_spec() == Some(time),
            final(self).playing_spec() == old(self).playing_spec(),
            final(self).drift_measuring_spec() == old(self).drift_measuring_spec(),
    {
        self.start_time = Some(time);
    }

    /// Whether the transport plays.
    pub fn is_playing(&self) -> (r: bool)
        ensures
            r == self.playing_spec(),
    {
        self.playing
    }

    /// Marks a drift measurement as running.
    pub fn start_drift_measurement(&mut self)
        ensures
            final(self).drift_measuring_spec(),
            final(self).playing_spec() == old(self).playing_spec(),
            final(self).start_time_spec() == old(self).start_time_spec(),
    {
        self.drift_measuring = true;
    }

    /// Marks the drift measurement as finished.
    pub fn stop_drift_measurement(&mut self)
        ensures
            !final(self).drift_measuring_spec(),
            final(self).playing_spec() == old(self).playing_spec(),
            final(self).start_time_spec() == old(self).start_time_spec(),
    {
        self.drift_measuring = false;
    }

    /// Whether a drift measurement is running.
    pub fn is_drift_measuring(&self) -> (r: bool)
        ensures
            r == self.drift_measuring_spec(),
    {
        self.drift_measuring
    }
}

/// The transport's state after a run of commands depends only on the last
/// `Play`, `Pause` or `Stop` among them: a command that is none of these
/// leaves it as it was.
pub proof fn law_parameter_commands_keep_transport(playing: bool, cmd: TransportCommand)
    requires
        !(cmd is Play || cmd is Pause || cmd is Stop),
    ensures
        playing_after(playing, cmd) == playing,
{
}

/// Pausing or stopping after playing halts the transport; playing again
/// resumes it, whatever came before.
pub proof fn law_play_pause_play(playing: bool)
    ensures
        !playing_after(playing_after(playing, TransportCommand::Play), TransportCommand::Pause),
        !playing_after(playing_after(playing, TransportCommand::Play), TransportCommand::Stop),
        playing_after(playing_after(playing, TransportCommand::Pause), TransportCommand::Play),
{
}

} // verus!

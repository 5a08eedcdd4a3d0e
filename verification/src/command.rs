//! Command vocabulary shared by the UI and the audio engine: player and bus
//! identities, handles, and the enumerations commands carry.
use vstd::prelude::*;

verus! {

/// Maximum number of player slots in the engine.
/// Eight slots are available; the UI recommends 2-4 active layers.
pub const MAX_PLAYERS: usize = 8;

/// Identifier for a player slot (0..MAX_PLAYERS-1).
#[derive(Debug, Clone, Copy, PartialEq, Eq, Hash, Structural)]
pub struct PlayerId(pub u8);

impl PlayerId {
    /// The slot index of this player.
    pub fn as_index(&self) -> (i: usize)
        ensures
            i == self.0,
    {
        self.0 as usize
    }
}

/// Identifier for a mix bus. The engine has Bus A, Bus B, and direct-to-master.
#[derive(Debug, Clone, Copy, PartialEq, Eq, Hash, Structural)]
pub enum BusId {
    A,
    B,
    /// Direct to master, bypasses the crossfader.
    Master,
}

/// Handle to a decoded audio source stored in the engine's source registry.
#[derive(Debug, Clone, Copy, PartialEq, Eq, Structural)]
pub struct SourceHandle(pub u64);

/// Monotonic server-side identity for an asynchronous player load.
#[derive(Debug, Clone, Copy, PartialEq, Eq, Structural)]
pub struct LoadGeneration(pub u64);

/// Monotonic identity for a command accepted by one engine generation.
#[derive(Debug, Clone, Copy, PartialEq, Eq, Hash, Structural)]
pub struct CommandId(pub u64);

/// Confirmation emitted after the realtime callback applies a tracked command.
#[derive(Debug, Clone, Copy, PartialEq, Eq, Structural)]
pub struct CommandAcknowledgement {
    pub command_id: CommandId,
    pub applied_frame: u64,
}

/// Quantization point for launching a player.
#[derive(Debug, Clone, Copy, PartialEq, Eq, Structural)]
pub enum Quantize {
    /// Launch immediately at the requested frame.
    Immediate,
    /// Launch at the next beat boundary.
    NextBeat,
    /// Launch at the next bar boundary.
    NextBar,
    /// Launch at the next phrase boundary (typically 8 bars).
    NextPhrase,
}

/// Processor type for the Listening Lab's reference comparison.
#[derive(Debug, Clone, Copy, PartialEq, Eq, Structural)]
pub enum ProcessorType {
    /// True bypass: reads directly from the source, no processing.
    Bypass,
    /// Varispeed: tempo and pitch coupled, cubic interpolation.
    Varispeed,
    /// Signalsmith Stretch: independent tempo and pitch.
    Signalsmith,
}

/// The time/pitch processor a player runs.
#[derive(Debug, Clone, Copy, PartialEq, Eq, Structural)]
pub enum ProcessorMode {
    Bypass,
    Varispeed,
    Signalsmith,
}

/// EQ band of the three-band isolator.
#[derive(Debug, Clone, Copy, PartialEq, Eq, Structural)]
pub enum EqBand {
    Low,
    Mid,
    High,
}

/// Filter mode parameter (carried across the command queue).
#[derive(Debug, Clone, Copy, PartialEq, Eq, Structural)]
pub enum FilterModeParam {
    Bypass,
    Lowpass,
    Bandpass,
    Highpass,
}

/// Mode of a bus's TuneLock filter.
#[derive(Debug, Clone, Copy, PartialEq, Eq, Structural)]
pub enum FilterMode {
    Bypass,
    Lowpass,
    Bandpass,
    Highpass,
}

/// The filter mode a filter-mode command selects.
pub fn filter_mode_for(p: FilterModeParam) -> (m: FilterMode)
    ensures
        m == match p {
            FilterModeParam::Bypass => FilterMode::Bypass,
            FilterModeParam::Lowpass => FilterMode::Lowpass,
            FilterModeParam::Bandpass => FilterMode::Bandpass,
            FilterModeParam::Highpass => FilterMode::Highpass,
        },
{
    match p {
        FilterModeParam::Bypass => FilterMode::Bypass,
        FilterModeParam::Lowpass => FilterMode::Lowpass,
        FilterModeParam::Bandpass => FilterMode::Bandpass,
        FilterModeParam::Highpass => FilterMode::Highpass,
    }
}

/// The processor mode a processor-type command selects.
pub fn processor_mode_for(t: ProcessorType) -> (m: ProcessorMode)
    ensures
        m == match t {
            ProcessorType::Bypass => ProcessorMode::Bypass,
            ProcessorType::Varispeed => ProcessorMode::Varispeed,
            ProcessorType::Signalsmith => ProcessorMode::Signalsmith,
        },
{
    match t {
        ProcessorType::Bypass => ProcessorMode::Bypass,
        ProcessorType::Varispeed => ProcessorMode::Varispeed,
        ProcessorType::Signalsmith => ProcessorMode::Signalsmith,
    }
}

/// The telemetry code of a processor mode: 0 bypass, 1 varispeed,
/// 2 signalsmith.
pub fn processor_mode_code(m: ProcessorMode) -> (c: i32)
    ensures
        c == match m {
            ProcessorMode::Bypass => 0i32,
            ProcessorMode::Varispeed => 1i32,
            ProcessorMode::Signalsmith => 2i32,
        },
{
    match m {
        ProcessorMode::Bypass => 0,
        ProcessorMode::Varispeed => 1,
        ProcessorMode::Signalsmith => 2,
    }
}

/// Bus a freshly constructed player is assigned to: player 0 feeds Bus A,
/// every other player Bus B.
pub fn player_initial_bus(id: PlayerId) -> (b: BusId)
    ensures
        b == (if id.0 == 0 { BusId::A } else { BusId::B }),
{
    if id.0 == 0 {
        BusId::A
    } else {
        BusId::B
    }
}

/// Bus the engine assigns to player slot `slot` at start-up: even slots
/// feed Bus A, odd slots Bus B.
pub fn engine_default_bus(slot: usize) -> (b: BusId)
    ensures
        b == (if slot % 2 == 0 { BusId::A } else { BusId::B }),
{
    if slot % 2 == 0 {
        BusId::A
    } else {
        BusId::B
    }
}

/// Whether a command addressed to `player` has a slot to act on.
pub fn player_in_range(player: PlayerId) -> (r: bool)
    ensures
        r == (player.0 < MAX_PLAYERS),
{
    player.as_index() < MAX_PLAYERS
}

/// Transport flags of one player slot.
#[derive(Debug, Clone, Copy, PartialEq, Eq, Structural)]
pub struct PlayerFlags {
    pub playing: bool,
    pub muted: bool,
    pub soloed: bool,
    pub bus: BusId,
}

impl PlayerFlags {
    /// Flags of a new player: stopped, not muted or soloed, on its initial bus.
    pub fn new(id: PlayerId) -> (f: Self)
        ensures
            !f.playing && !f.muted && !f.soloed,
            f.bus == (if id.0 == 0 { BusId::A } else { BusId::B }),
    {
        PlayerFlags { playing: false, muted: false, soloed: false, bus: player_initial_bus(id) }
    }

    /// Whether the player is heard: playing, not muted, and soloed whenever
    /// any player is soloed.
    pub fn is_audible(&self, any_soloed: bool) -> (r: bool)
        ensures
            r == (self.playing && !self.muted && (!any_soloed || self.soloed)),
    {
        self.playing && !self.muted && (!any_soloed || self.soloed)
    }
}

/// Whether any of the flags is soloed.
pub fn any_soloed(players: &Vec<PlayerFlags>) -> (r: bool)
    ensures
        r == exists|i: int| 0 <= i < players@.len() && #[trigger] players@[i].soloed,
{
    let mut i: usize = 0;
    while i < players.len()
        invariant
            i <= players@.len(),
            forall|j: int| 0 <= j < i ==> !#[trigger] players@[j].soloed,
        decreases players@.len() - i,
    {
        if players[i].soloed {
            return true;
        }
        i = i + 1;
    }
    false
}

} // verus!

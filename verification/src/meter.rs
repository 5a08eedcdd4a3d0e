//! Meter snapshot written by the audio callback and read by the UI.
//!
//! Floating-point meter values are stored as their IEEE-754 bit patterns
//! (`f64::to_bits`), so the snapshot itself holds only integers and flags;
//! the caller converts with `f64::from_bits` when it displays them.
use vstd::prelude::*;
use crate::command::MAX_PLAYERS;

verus! {

/// Bit pattern of `0.5f64`: the centred crossfader.
pub const CROSSFADE_CENTER_BITS: u64 = 0x3FE0_0000_0000_0000;

/// One player's meters.
#[derive(Clone, Copy)]
pub struct PlayerMeterBits {
    pub playing: bool,
    pub position_sec_bits: u64,
    pub rms_bits: u64,
    pub peak_bits: u64,
    pub clip: bool,
}

/// The readout of a player slot that does not exist, or was never written:
/// not playing, every value `0.0`, no clip.
pub open spec fn silent_player() -> PlayerMeterBits {
    PlayerMeterBits { playing: false, position_sec_bits: 0, rms_bits: 0, peak_bits: 0, clip: false }
}

/// The slot table after writing `v` at `index`; an index past the table
/// changes nothing.
pub open spec fn after_write_player(slots: Seq<PlayerMeterBits>, index: int, v: PlayerMeterBits) -> Seq<
    PlayerMeterBits,
> {
    if 0 <= index < slots.len() {
        slots.update(index, v)
    } else {
        slots
    }
}

/// What reading slot `index` of the table gives.
pub open spec fn read_slot(slots: Seq<PlayerMeterBits>, index: int) -> PlayerMeterBits {
    if 0 <= index < slots.len() {
        slots[index]
    } else {
        silent_player()
    }
}

/// Bus, master and crossfader meters.
#[derive(Clone, Copy)]
pub struct MixMeterBits {
    pub bus_a_rms_bits: u64,
    pub bus_a_peak_bits: u64,
    pub bus_b_rms_bits: u64,
    pub bus_b_peak_bits: u64,
    pub master_rms_bits: u64,
    pub master_peak_bits: u64,
    pub master_true_peak_bits: u64,
    pub master_clip: bool,
    pub crossfade_position_bits: u64,
}

/// Everything the UI reads at once.
pub struct MeterReadoutBits {
    pub playing: bool,
    pub current_frame: u64,
    pub players: Vec<PlayerMeterBits>,
    pub mix: MixMeterBits,
    pub underruns: u64,
    pub commands_dropped: u64,
}

/// Snapshot of the engine state for UI display, one slot per player.
pub struct MeterSnapshot {
    playing: bool,
    current_frame: u64,
    players: Vec<PlayerMeterBits>,
    mix: MixMeterBits,
    underruns: u64,
    commands_dropped: u64,
}

impl MeterSnapshot {
    /// The per-player slots.
    pub closed spec fn slots(&self) -> Seq<PlayerMeterBits> {
        self.players@
    }

    /// The bus, master and crossfader meters.
    pub closed spec fn mix_meters(&self) -> MixMeterBits {
        self.mix
    }

    /// Whether the transport is playing.
    pub closed spec fn transport_playing(&self) -> bool {
        self.playing
    }

    /// The last output frame written.
    pub closed spec fn frame(&self) -> u64 {
        self.current_frame
    }

    /// Number of output underruns counted.
    pub closed spec fn underrun_count(&self) -> u64 {
        self.underruns
    }

    /// Number of commands dropped because the queue was full.
    pub closed spec fn dropped_count(&self) -> u64 {
        self.commands_dropped
    }

    pub open spec fn wf(&self) -> bool {
        self.slots().len() == MAX_PLAYERS
    }

    /// Whether the transport is playing.
    pub fn is_playing(&self) -> (r: bool)
        ensures
            r == self.transport_playing(),
    {
        self.playing
    }

    /// The last output frame written.
    pub fn current_frame(&self) -> (r: u64)
        ensures
            r == self.frame(),
    {
        self.current_frame
    }

    /// Number of output underruns counted.
    pub fn underruns(&self) -> (r: u64)
        ensures
            r == self.underrun_count(),
    {
        self.underruns
    }

    /// Number of commands dropped because the queue was full.
    pub fn commands_dropped(&self) -> (r: u64)
        ensures
            r == self.dropped_count(),
    {
        self.commands_dropped
    }

    /// A snapshot with every meter at zero, nothing playing, frame 0 and
    /// the crossfader centred.
    pub fn new() -> (s: Self)
        ensures
            s.wf(),
            !s.transport_playing(),
            s.frame() == 0,
            forall|i: int| 0 <= i < MAX_PLAYERS ==> #[trigger] s.slots()[i] == silent_player(),
            s.mix_meters() == (MixMeterBits {
                bus_a_rms_bits: 0,
                bus_a_peak_bits: 0,
                bus_b_rms_bits: 0,
                bus_b_peak_bits: 0,
                master_rms_bits: 0,
                master_peak_bits: 0,
                master_true_peak_bits: 0,
                master_clip: false,
                crossfade_position_bits: CROSSFADE_CENTER_BITS,
            }),
            s.underrun_count() == 0,
            s.dropped_count() == 0,
    {
        let mut players: Vec<PlayerMeterBits> = Vec::new();
        let mut i: usize = 0;
        while i < MAX_PLAYERS
            invariant
                i <= MAX_PLAYERS,
                players@.len() == i,
                forall|j: int| 0 <= j < i ==> #[trigger] players@[j] == silent_player(),
            decreases MAX_PLAYERS - i,
        {
            players.push(
                PlayerMeterBits {
                    playing: false,
                    position_sec_bits: 0,
                    rms_bits: 0,
                    peak_bits: 0,
                    clip: false,
                },
            );
            i = i + 1;
        }
        MeterSnapshot {
            playing: false,
            current_frame: 0,
            players,
            mix: MixMeterBits {
                bus_a_rms_bits: 0,
                bus_a_peak_bits: 0,
                bus_b_rms_bits: 0,
                bus_b_peak_bits: 0,
                master_rms_bits: 0,
                master_peak_bits: 0,
                master_true_peak_bits: 0,
                master_clip: false,
                crossfade_position_bits: CROSSFADE_CENTER_BITS,
            },
            underruns: 0,
            commands_dropped: 0,
        }
    }

    /// Write one player's meters; an index past the player slots is ignored.
    pub fn write_player(
        &mut self,
        index: usize,
        playing: bool,
        position_sec_bits: u64,
        rms_bits: u64,
        peak_bits: u64,
        clip: bool,
    )
        requires
            old(self).wf(),
        ensures
            final(self).wf(),
            final(self).slots() == after_write_player(
                old(self).slots(),
                index as int,
                PlayerMeterBits { playing, position_sec_bits, rms_bits, peak_bits, clip },
            ),
            final(self).mix_meters() == old(self).mix_meters(),
            final(self).transport_playing() == old(self).transport_playing(),
            final(self).frame() == old(self).frame(),
            final(self).underrun_count() == old(self).underrun_count(),
            final(self).dropped_count() == old(self).dropped_count(),
    {
        if index < MAX_PLAYERS {
            self.players.set(index, PlayerMeterBits { playing, position_sec_bits, rms_bits, peak_bits, clip });
        }
    }

    /// Write the bus meters.
    pub fn write_buses(&mut self, a_rms_bits: u64, a_peak_bits: u64, b_rms_bits: u64, b_peak_bits: u64)
        requires
            old(self).wf(),
        ensures
            final(self).wf(),
            final(self).slots() == old(self).slots(),
            final(self).mix_meters() == (MixMeterBits {
                bus_a_rms_bits: a_rms_bits,
                bus_a_peak_bits: a_peak_bits,
                bus_b_rms_bits: b_rms_bits,
                bus_b_peak_bits: b_peak_bits,
                ..old(self).mix_meters()
            }),
            final(self).transport_playing() == old(self).transport_playing(),
            final(self).frame() == old(self).frame(),
            final(self).underrun_count() == old(self).underrun_count(),
            final(self).dropped_count() == old(self).dropped_count(),
    {
        self.mix.bus_a_rms_bits = a_rms_bits;
        self.mix.bus_a_peak_bits = a_peak_bits;
        self.mix.bus_b_rms_bits = b_rms_bits;
        self.mix.bus_b_peak_bits = b_peak_bits;
    }

    /// Write the master meters.
    pub fn write_master(&mut self, rms_bits: u64, peak_bits: u64, true_peak_bits: u64, clip: bool)
        requires
            old(self).wf(),
        ensures
            final(self).wf(),
            final(self).slots() == old(self).slots(),
            final(self).mix_meters() == (MixMeterBits {
                master_rms_bits: rms_bits,
                master_peak_bits: peak_bits,
                master_true_peak_bits: true_peak_bits,
                master_clip: clip,
                ..old(self).mix_meters()
            }),
            final(self).transport_playing() == old(self).transport_playing(),
            final(self).frame() == old(self).frame(),
            final(self).underrun_count() == old(self).underrun_count(),
            final(self).dropped_count() == old(self).dropped_count(),
    {
        self.mix.master_rms_bits = rms_bits;
        self.mix.master_peak_bits = peak_bits;
        self.mix.master_true_peak_bits = true_peak_bits;
        self.mix.master_clip = clip;
    }

    /// Write the crossfader position.
    pub fn write_crossfade(&mut self, position_bits: u64)
        requires
            old(self).wf(),
        ensures
            final(self).wf(),
            final(self).slots() == old(self).slots(),
            final(self).mix_meters() == (MixMeterBits {
                crossfade_position_bits: position_bits,
                ..old(self).mix_meters()
            }),
            final(self).transport_playing() == old(self).transport_playing(),
            final(self).frame() == old(self).frame(),
            final(self).underrun_count() == old(self).underrun_count(),
            final(self).dropped_count() == old(self).dropped_count(),
    {
        self.mix.crossfade_position_bits = position_bits;
    }

    /// Write the current output frame.
    pub fn write_frame(&mut self, frame: u64)
        requires
            old(self).wf(),
        ensures
            final(self).wf(),
            final(self).frame() == frame,
            final(self).slots() == old(self).slots(),
            final(self).mix_meters() == old(self).mix_meters(),
            final(self).transport_playing() == old(self).transport_playing(),
            final(self).underrun_count() == old(self).underrun_count(),
            final(self).dropped_count() == old(self).dropped_count(),
    {
        self.current_frame = frame;
    }

    /// Read one player's meters; an index past the player slots reads as
    /// a silent player.
    pub fn read_player(&self, index: usize) -> (r: PlayerMeterBits)
        requires
            self.wf(),
        ensures
            r == read_slot(self.slots(), index as int),
    {
        if index < MAX_PLAYERS {
            self.players[index]
        } else {
            PlayerMeterBits { playing: false, position_sec_bits: 0, rms_bits: 0, peak_bits: 0, clip: false }
        }
    }

    /// Read every meter at once.
    pub fn read_all(&self) -> (r: MeterReadoutBits)
        requires
            self.wf(),
        ensures
            r.playing == self.transport_playing(),
            r.current_frame == self.frame(),
            r.players@ == self.slots(),
            r.mix == self.mix_meters(),
            r.underruns == self.underrun_count(),
            r.commands_dropped == self.dropped_count(),
    {
        let mut players: Vec<PlayerMeterBits> = Vec::new();
        let mut i: usize = 0;
        while i < MAX_PLAYERS
            invariant
                self.wf(),
                i <= MAX_PLAYERS,
                players@ == self.slots().subrange(0, i as int),
            decreases MAX_PLAYERS - i,
        {
            players.push(self.read_player(i));
            i = i + 1;
            assert(players@ =~= self.slots().subrange(0, i as int));
        }
        assert(self.slots().subrange(0, MAX_PLAYERS as int) =~= self.slots());
        MeterReadoutBits {
            playing: self.playing,
            current_frame: self.current_frame,
            players,
            mix: self.mix,
            underruns: self.underruns,
            commands_dropped: self.commands_dropped,
        }
    }
}

/// A read of a player slot gives back the last write to it; writes to
/// other slots leave it unchanged; an index past the slots reads as a
/// silent player whatever was written.
pub proof fn law_player_read_after_write(
    slots: Seq<PlayerMeterBits>,
    written: int,
    read: int,
    v: PlayerMeterBits,
)
    requires
        slots.len() == MAX_PLAYERS,
    ensures
        0 <= written < MAX_PLAYERS ==> read_slot(after_write_player(slots, written, v), written) == v,
        read != written ==> read_slot(after_write_player(slots, written, v), read) == read_slot(slots, read),
        !(0 <= read < MAX_PLAYERS) ==> read_slot(after_write_player(slots, written, v), read)
            == silent_player(),
{
}

} // verus!

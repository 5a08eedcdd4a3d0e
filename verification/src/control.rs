//! Transport, routing and solo state of the engine's player slots, and the
//! commands that change it.
use vstd::prelude::*;
use crate::command::{any_soloed, engine_default_bus, BusId, PlayerFlags, PlayerId, MAX_PLAYERS};

verus! {

/// The part of an engine command that changes a player's transport,
/// mute, solo or bus flags.
#[derive(Debug, Clone, Copy, PartialEq, Eq, Structural)]
pub enum ControlCommand {
    Stop { player: PlayerId },
    Pause { player: PlayerId },
    Resume { player: PlayerId },
    SetMute { player: PlayerId, muted: bool },
    SetSolo { player: PlayerId, soloed: bool },
    SetBus { player: PlayerId, bus: BusId },
    /// Stops every player.
    Shutdown,
}

/// Whether some flag in `s` is soloed.
pub open spec fn some_soloed(s: Seq<PlayerFlags>) -> bool {
    exists|i: int| 0 <= i < s.len() && #[trigger] s[i].soloed
}

/// The flags of one slot after `cmd`, for a command addressed to that slot.
pub open spec fn flags_after(f: PlayerFlags, cmd: ControlCommand) -> PlayerFlags {
    match cmd {
        ControlCommand::Stop { .. } => PlayerFlags { playing: false, ..f },
        ControlCommand::Pause { .. } => PlayerFlags { playing: false, ..f },
        ControlCommand::Resume { .. } => PlayerFlags { playing: true, ..f },
        ControlCommand::SetMute { muted, .. } => PlayerFlags { muted, ..f },
        ControlCommand::SetSolo { soloed, .. } => PlayerFlags { soloed, ..f },
        ControlCommand::SetBus { bus, .. } => PlayerFlags { bus, ..f },
        ControlCommand::Shutdown => PlayerFlags { playing: false, ..f },
    }
}

/// The slot a command is addressed to, if it names one.
pub open spec fn target_of(cmd: ControlCommand) -> Option<int> {
    match cmd {
        ControlCommand::Stop { player } => Some(player.0 as int),
        ControlCommand::Pause { player } => Some(player.0 as int),
        ControlCommand::Resume { player } => Some(player.0 as int),
        ControlCommand::SetMute { player, .. } => Some(player.0 as int),
        ControlCommand::SetSolo { player, .. } => Some(player.0 as int),
        ControlCommand::SetBus { player, .. } => Some(player.0 as int),
        ControlCommand::Shutdown => None,
    }
}

/// The slot flags after `cmd`: a command for a slot that does not exist
/// changes nothing, `Shutdown` stops every slot.
pub open spec fn apply_spec(s: Seq<PlayerFlags>, cmd: ControlCommand) -> Seq<PlayerFlags> {
    match target_of(cmd) {
        Some(i) => if 0 <= i < s.len() {
            s.update(i, flags_after(s[i], cmd))
        } else {
            s
        },
        None => Seq::new(s.len(), |j: int| flags_after(s[j], cmd)),
    }
}

/// The flags of every player slot, with the cached "any slot soloed" flag
/// the render loop reads once per sample.
pub struct PlayerBank {
    players: Vec<PlayerFlags>,
    soloed_cache: bool,
}

impl View for PlayerBank {
    type V = Seq<PlayerFlags>;

    closed spec fn view(&self) -> Seq<PlayerFlags> {
        self.players@
    }
}

impl PlayerBank {
    /// The cached solo flag.
    pub closed spec fn cached_any_soloed(&self) -> bool {
        self.soloed_cache
    }

    /// The bank holds one entry per slot and its cached solo flag agrees
    /// with the slots.
    pub open spec fn wf(&self) -> bool {
        &&& self@.len() == MAX_PLAYERS
        &&& self.cached_any_soloed() == some_soloed(self@)
    }

    /// Slots as the engine starts them: stopped, unmuted, not soloed, even
    /// slots on Bus A and odd slots on Bus B.
    pub fn new() -> (b: Self)
        ensures
            b.wf(),
            forall|i: int| 0 <= i < MAX_PLAYERS ==> {
                &&& !(#[trigger] b@[i]).playing
                &&& !b@[i].muted
                &&& !b@[i].soloed
                &&& b@[i].bus == (if i % 2 == 0 { BusId::A } else { BusId::B })
            },
    {
        let mut players: Vec<PlayerFlags> = Vec::new();
        let mut i: usize = 0;
        while i < MAX_PLAYERS
            invariant
                i <= MAX_PLAYERS,
                players@.len() == i,
                forall|j: int| 0 <= j < i ==> {
                    &&& !(#[trigger] players@[j]).playing
                    &&& !players@[j].muted
                    &&& !players@[j].soloed
                    &&& players@[j].bus == (if j % 2 == 0 { BusId::A } else { BusId::B })
                },
            decreases MAX_PLAYERS - i,
        {
            let mut f = PlayerFlags::new(PlayerId(i as u8));
            f.bus = engine_default_bus(i);
            players.push(f);
            i = i + 1;
        }
        PlayerBank { players, soloed_cache: false }
    }

    /// Whether any slot is soloed.
    pub fn any_soloed(&self) -> (r: bool)
        requires
            self.wf(),
        ensures
            r == some_soloed(self@),
    {
        self.soloed_cache
    }

    /// The flags of slot `i`.
    pub fn flags(&self, i: usize) -> (f: PlayerFlags)
        requires
            i < self@.len(),
        ensures
            f == self@[i as int],
    {
        self.players[i]
    }

    /// Whether slot `i` is heard.
    pub fn is_audible(&self, i: usize) -> (r: bool)
        requires
            self.wf(),
            i < self@.len(),
        ensures
            r == (self@[i as int].playing && !self@[i as int].muted && (!some_soloed(self@)
                || self@[i as int].soloed)),
    {
        self.players[i].is_audible(self.soloed_cache)
    }

    /// Applies a control command. A command for a slot outside the bank is
    /// ignored.
    pub fn apply(&mut self, cmd: ControlCommand)
        requires
            old(self).wf(),
        ensures
            final(self).wf(),
            final(self)@ == apply_spec(old(self)@, cmd),
    {
        match cmd {
            ControlCommand::Shutdown => {
                let mut i: usize = 0;
                while i < self.players.len()
                    invariant
                        i <= self.players@.len(),
                        self.players@.len() == old(self).players@.len(),
                        self.soloed_cache == old(self).soloed_cache,
                        forall|j: int|
                            0 <= j < i ==> #[trigger] self.players@[j] == flags_after(
                                old(self).players@[j],
                                cmd,
                            ),
                        forall|j: int|
                            i <= j < self.players@.len() ==> #[trigger] self.players@[j]
                                == old(self).players@[j],
                        cmd == ControlCommand::Shutdown,
                    decreases self.players@.len() - i,
                {
                    let mut f = self.players[i];
                    f.playing = false;
                    self.players.set(i, f);
                    i = i + 1;
                }
                proof {
                    assert(self.players@ =~= apply_spec(old(self)@, cmd));
                    assert forall|j: int|
                        0 <= j < self.players@.len() implies (#[trigger] self.players@[j]).soloed
                        == old(self).players@[j].soloed by {}
                    if some_soloed(old(self)@) {
                        let k = choose|k: int|
                            0 <= k < old(self)@.len() && #[trigger] old(self)@[k].soloed;
                        assert(self.players@[k].soloed);
                    }
                    if some_soloed(self.players@) {
                        let k = choose|k: int|
                            0 <= k < self.players@.len() && #[trigger] self.players@[k].soloed;
                        assert(old(self)@[k].soloed);
                    }
                }
            },
            _ => {
                let player = match cmd {
                    ControlCommand::Stop { player } => player,
                    ControlCommand::Pause { player } => player,
                    ControlCommand::Resume { player } => player,
                    ControlCommand::SetMute { player, .. } => player,
                    ControlCommand::SetSolo { player, .. } => player,
                    ControlCommand::SetBus { player, .. } => player,
                    ControlCommand::Shutdown => PlayerId(0),
                };
                let idx = player.as_index();
                if idx < self.players.len() {
                    let mut f = self.players[idx];
                    match cmd {
                        ControlCommand::Stop { .. } => {
                            f.playing = false;
                        },
                        ControlCommand::Pause { .. } => {
                            f.playing = false;
                        },
                        ControlCommand::Resume { .. } => {
                            f.playing = true;
                        },
                        ControlCommand::SetMute { muted, .. } => {
                            f.muted = muted;
                        },
                        ControlCommand::SetSolo { soloed, .. } => {
                            f.soloed = soloed;
                        },
                        ControlCommand::SetBus { bus, .. } => {
                            f.bus = bus;
                        },
                        ControlCommand::Shutdown => {},
                    }
                    self.players.set(idx, f);
                    let cached = any_soloed(&self.players);
                    self.soloed_cache = cached;
                }
                proof {
                    assert(self.players@ =~= apply_spec(old(self)@, cmd));
                }
            },
        }
    }
}

/// A command addressed to a slot changes that slot alone; a command for a
/// slot outside the bank changes nothing.
pub proof fn law_command_touches_only_its_slot(
    before: Seq<PlayerFlags>,
    cmd: ControlCommand,
    j: int,
)
    requires
        target_of(cmd) is Some,
        0 <= j < before.len(),
        j != target_of(cmd)->0,
    ensures
        apply_spec(before, cmd)[j] == before[j],
        apply_spec(before, cmd).len() == before.len(),
{
}

/// `Shutdown` stops every slot and leaves its mute, solo and bus flags.
pub proof fn law_shutdown_stops_every_slot(before: Seq<PlayerFlags>, j: int)
    requires
        0 <= j < before.len(),
    ensures
        !apply_spec(before, ControlCommand::Shutdown)[j].playing,
        apply_spec(before, ControlCommand::Shutdown)[j].muted == before[j].muted,
        apply_spec(before, ControlCommand::Shutdown)[j].soloed == before[j].soloed,
        apply_spec(before, ControlCommand::Shutdown)[j].bus == before[j].bus,
        apply_spec(before, ControlCommand::Shutdown).len() == before.len(),
{
}

/// A command addressed to an existing slot sets the flag it names to the
/// value it carries, whatever the flag was before: `SetMute`, `SetSolo` and
/// `SetBus` write their argument, `Stop` and `Pause` stop the slot and
/// `Resume` starts it; the slot's other flags stay as they were.
pub proof fn law_command_sets_its_flag(before: Seq<PlayerFlags>, cmd: ControlCommand, i: int)
    requires
        target_of(cmd) == Some(i),
        0 <= i < before.len(),
    ensures
        apply_spec(before, cmd).len() == before.len(),
        match cmd {
            ControlCommand::SetMute { muted, .. } => apply_spec(before, cmd)[i] == PlayerFlags {
                playing: before[i].playing,
                muted: muted,
                soloed: before[i].soloed,
                bus: before[i].bus,
            },
            ControlCommand::SetSolo { soloed, .. } => apply_spec(before, cmd)[i] == PlayerFlags {
                playing: before[i].playing,
                muted: before[i].muted,
                soloed: soloed,
                bus: before[i].bus,
            },
            ControlCommand::SetBus { bus, .. } => apply_spec(before, cmd)[i] == PlayerFlags {
                playing: before[i].playing,
                muted: before[i].muted,
                soloed: before[i].soloed,
                bus: bus,
            },
            ControlCommand::Resume { .. } => apply_spec(before, cmd)[i] == PlayerFlags {
                playing: true,
                muted: before[i].muted,
                soloed: before[i].soloed,
                bus: before[i].bus,
            },
            _ => apply_spec(before, cmd)[i] == PlayerFlags {
                playing: false,
                muted: before[i].muted,
                soloed: before[i].soloed,
                bus: before[i].bus,
            },
        },
{
}

/// Muting and then unmuting a slot leaves its mute flag clear, and the
/// two commands in the other order leave it set: the last `SetMute` wins.
pub proof fn law_last_mute_wins(before: Seq<PlayerFlags>, player: PlayerId, first: bool, last: bool)
    requires
        0 <= player.0 < before.len(),
    ensures
        apply_spec(
            apply_spec(before, ControlCommand::SetMute { player, muted: first }),
            ControlCommand::SetMute { player, muted: last },
        )[player.0 as int].muted == last,
{
    let mid = apply_spec(before, ControlCommand::SetMute { player, muted: first });
    law_command_sets_its_flag(before, ControlCommand::SetMute { player, muted: first }, player.0 as int);
    law_command_sets_its_flag(mid, ControlCommand::SetMute { player, muted: last }, player.0 as int);
}

} // verus!

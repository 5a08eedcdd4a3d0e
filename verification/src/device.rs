//! Audio output devices: what a device offers, the user's choice of device,
//! sample rate, channel count and buffer size, and how that choice resolves
//! against a device's defaults.
use vstd::prelude::*;

verus! {

/// A description of one available audio output device.
#[derive(Debug, Clone)]
pub struct AudioDevice {
    /// Device name (human-readable).
    pub name: String,
    /// Supported sample rates (sorted ascending).
    pub sample_rates: Vec<u32>,
    /// Supported channel counts (sorted ascending).
    pub channel_counts: Vec<u16>,
    /// Default sample rate for this device.
    pub default_sample_rate: u32,
    /// Default channel count.
    pub default_channels: u16,
    /// Whether this is the system default output device.
    pub is_default: bool,
}

/// A list of available audio output devices.
#[derive(Debug, Clone)]
pub struct AudioDeviceList {
    pub devices: Vec<AudioDevice>,
    pub default_device_index: Option<usize>,
}

/// Buffer size preference.
#[derive(Debug, Clone, Copy, PartialEq, Eq, Structural)]
pub enum BufferSizePreference {
    /// Let the system choose (typically 256-1024 frames).
    Default,
    /// Lowest latency the device supports.
    Minimal,
    /// A specific frame count.
    Fixed(u32),
}

/// The user's chosen audio configuration. Used to build the engine stream.
#[derive(Debug, Clone)]
pub struct AudioDeviceConfig {
    /// Device name to select (must match a name from AudioDeviceList).
    /// If None, uses the system default.
    pub device_name: Option<String>,
    /// Requested sample rate in Hz. If None, uses the device default.
    pub sample_rate: Option<u32>,
    /// Requested channel count. If None, uses the device default.
    pub channels: Option<u16>,
    /// Requested buffer size. If None, uses the device default.
    pub buffer_size: Option<BufferSizePreference>,
}

impl Default for AudioDeviceConfig {
    fn default() -> (c: Self)
        ensures
            c.device_name is None,
            c.sample_rate is None,
            c.channels is None,
            c.buffer_size is None,
    {
        AudioDeviceConfig { device_name: None, sample_rate: None, channels: None, buffer_size: None }
    }
}

/// Sample rate assumed for a device that reports no default configuration.
pub const FALLBACK_SAMPLE_RATE: u32 = 44100;

/// Channel count assumed for a device that reports no default configuration.
pub const FALLBACK_CHANNELS: u16 = 2;

/// Frames per buffer requested for the minimal-latency preference.
pub const MINIMAL_BUFFER_FRAMES: u32 = 64;

/// The sample rates offered to the user, ascending.
pub open spec fn common_rates() -> Seq<u32> {
    seq![22050u32, 32000u32, 44100u32, 48000u32, 88200u32, 96000u32, 176400u32, 192000u32]
}

/// The `i`-th common sample rate.
fn common_rate(i: usize) -> (r: u32)
    requires
        i < common_rates().len(),
    ensures
        r == common_rates()[i as int],
{
    match i {
        0 => 22050,
        1 => 32000,
        2 => 44100,
        3 => 48000,
        4 => 88200,
        5 => 96000,
        6 => 176400,
        _ => 192000,
    }
}

/// Whether one of the supported `(min, max)` ranges contains `rate`.
pub open spec fn rate_covered(ranges: Seq<(u32, u32)>, rate: u32) -> bool {
    exists|k: int| 0 <= k < ranges.len() && #[trigger] ranges[k].0 <= rate <= ranges[k].1
}

/// The covered rates among the first `n` common rates, in their order.
pub open spec fn covered_rates(ranges: Seq<(u32, u32)>, n: nat) -> Seq<u32>
    decreases n,
{
    if n == 0 {
        Seq::empty()
    } else {
        let prev = covered_rates(ranges, (n - 1) as nat);
        let rate = common_rates()[n - 1];
        if rate_covered(ranges, rate) {
            prev.push(rate)
        } else {
            prev
        }
    }
}

/// Whether `s` of `u32` is strictly ascending.
pub open spec fn ascending_u32(s: Seq<u32>) -> bool {
    forall|i: int, j: int| 0 <= i < j < s.len() ==> s[i] < s[j]
}

/// Whether `s` of `u16` is strictly ascending.
pub open spec fn ascending_u16(s: Seq<u16>) -> bool {
    forall|i: int, j: int| 0 <= i < j < s.len() ==> s[i] < s[j]
}

/// Whether a supported range covers `rate`.
fn range_covers(ranges: &Vec<(u32, u32)>, rate: u32) -> (r: bool)
    ensures
        r == rate_covered(ranges@, rate),
{
    let mut k: usize = 0;
    while k < ranges.len()
        invariant
            k <= ranges@.len(),
            forall|j: int| 0 <= j < k ==> !(#[trigger] ranges@[j].0 <= rate <= ranges@[j].1),
        decreases ranges@.len() - k,
    {
        let (lo, hi) = ranges[k];
        if lo <= rate && rate <= hi {
            return true;
        }
        k = k + 1;
    }
    false
}

/// The common sample rates that one of the device's supported
/// `(min, max)` ranges contains, ascending and without repeats.
pub fn common_rates_in_ranges(ranges: &Vec<(u32, u32)>) -> (rates: Vec<u32>)
    ensures
        rates@ == covered_rates(ranges@, 8),
{
    let mut rates: Vec<u32> = Vec::new();
    let mut i: usize = 0;
    while i < 8
        invariant
            i <= 8,
            rates@ == covered_rates(ranges@, i as nat),
        decreases 8 - i,
    {
        let rate = common_rate(i);
        if range_covers(ranges, rate) {
            rates.push(rate);
        }
        i = i + 1;
    }
    rates
}

/// The covered rates are ascending without repeats, and are exactly the
/// common rates that some range contains.
pub proof fn law_covered_rates_ascending(ranges: Seq<(u32, u32)>, n: nat)
    requires
        n <= 8,
    ensures
        ascending_u32(covered_rates(ranges, n)),
        forall|r: u32|
            covered_rates(ranges, n).contains(r) <==> (exists|i: int|
                0 <= i < n && #[trigger] common_rates()[i] == r && rate_covered(ranges, r)),
        forall|k: int|
            0 <= k < covered_rates(ranges, n).len() ==> exists|i: int|
                0 <= i < n && common_rates()[i] == #[trigger] covered_rates(ranges, n)[k],
    decreases n,
{
    if n > 0 {
        law_covered_rates_ascending(ranges, (n - 1) as nat);
        let prev = covered_rates(ranges, (n - 1) as nat);
        let rate = common_rates()[n - 1];
        assert(forall|a: int, b: int| 0 <= a < b < 8 ==> common_rates()[a] < common_rates()[b]);
        assert forall|k: int| 0 <= k < prev.len() implies #[trigger] prev[k] < rate by {
            let i = choose|i: int| 0 <= i < n - 1 && common_rates()[i] == prev[k];
        }
        let cur = covered_rates(ranges, n);
        assert forall|r: u32| cur.contains(r) <==> (exists|i: int|
            0 <= i < n && #[trigger] common_rates()[i] == r && rate_covered(ranges, r)) by {
            if cur.contains(r) {
                let k = choose|k: int| 0 <= k < cur.len() && cur[k] == r;
                if k < prev.len() {
                    assert(prev.contains(r));
                } else {
                    assert(common_rates()[n - 1] == r);
                }
            }
            if exists|i: int| 0 <= i < n && #[trigger] common_rates()[i] == r && rate_covered(ranges, r) {
                let i = choose|i: int| 0 <= i < n && #[trigger] common_rates()[i] == r && rate_covered(ranges, r);
                if i < n - 1 {
                    assert(prev.contains(r));
                    let k = choose|k: int| 0 <= k < prev.len() && prev[k] == r;
                    assert(cur[k] == r);
                } else {
                    assert(cur[cur.len() - 1] == r);
                }
            }
        }
        assert forall|k: int| 0 <= k < cur.len() implies exists|i: int|
            0 <= i < n && common_rates()[i] == #[trigger] cur[k] by {
            if k < prev.len() {
                assert(cur[k] == prev[k]);
                let i = choose|i: int| 0 <= i < n - 1 && common_rates()[i] == prev[k];
            } else {
                assert(common_rates()[n - 1] == cur[k]);
            }
        }
    }
}

/// Inserts `ch` into the strictly ascending `v`, unless it is there.
fn insert_distinct_sorted(v: &mut Vec<u16>, ch: u16)
    requires
        ascending_u16(old(v)@),
    ensures
        ascending_u16(final(v)@),
        forall|x: u16| final(v)@.contains(x) <==> (old(v)@.contains(x) || x == ch),
{
    let mut k: usize = 0;
    while k < v.len() && v[k] < ch
        invariant
            k <= v@.len(),
            v@ == old(v)@,
            ascending_u16(v@),
            forall|j: int| 0 <= j < k ==> #[trigger] v@[j] < ch,
        decreases v@.len() - k,
    {
        k = k + 1;
    }
    if k < v.len() && v[k] == ch {
        proof {
            assert forall|x: u16| v@.contains(x) <==> (old(v)@.contains(x) || x == ch) by {
                if x == ch {
                    assert(v@[k as int] == x);
                }
            }
        }
        return;
    }
    proof {
        assert forall|j: int| k <= j < v@.len() implies #[trigger] v@[j] > ch by {
            assert(v@[k as int] >= ch);
        }
    }
    let ghost before = v@;
    assert(before == old(v)@);
    v.insert(k, ch);
    proof {
        assert(v@ =~= before.subrange(0, k as int).push(ch) + before.subrange(k as int, before.len() as int));
        assert forall|x: u16| v@.contains(x) <==> (before.contains(x) || x == ch) by {
            if v@.contains(x) {
                let i = choose|i: int| 0 <= i < v@.len() && v@[i] == x;
                if i < k {
                    assert(before[i] == x);
                } else if i > k {
                    assert(before[i - 1] == x);
                }
            }
            if before.contains(x) {
                let i = choose|i: int| 0 <= i < before.len() && before[i] == x;
                if i < k {
                    assert(v@[i] == x);
                } else {
                    assert(v@[i + 1] == x);
                }
            }
            if x == ch {
                assert(v@[k as int] == x);
            }
        }
        assert(forall|x: u16| v@.contains(x) <==> (old(v)@.contains(x) || x == ch));
    }
}

/// The distinct channel counts among `chs`, ascending.
pub fn distinct_sorted_channels(chs: &Vec<u16>) -> (r: Vec<u16>)
    ensures
        ascending_u16(r@),
        forall|x: u16| r@.contains(x) <==> chs@.contains(x),
{
    let mut r: Vec<u16> = Vec::new();
    let mut i: usize = 0;
    while i < chs.len()
        invariant
            i <= chs@.len(),
            ascending_u16(r@),
            forall|x: u16| r@.contains(x) <==> chs@.subrange(0, i as int).contains(x),
        decreases chs@.len() - i,
    {
        let ghost prev = r@;
        insert_distinct_sorted(&mut r, chs[i]);
        proof {
            assert forall|x: u16| r@.contains(x) <==> chs@.subrange(0, i + 1).contains(x) by {
                if chs@.subrange(0, i + 1).contains(x) {
                    let j = choose|j: int| 0 <= j < i + 1 && #[trigger] chs@.subrange(0, i + 1)[j] == x;
                    if j < i {
                        assert(chs@.subrange(0, i as int)[j] == x);
                    }
                }
                if chs@.subrange(0, i as int).contains(x) {
                    let j = choose|j: int| 0 <= j < i && #[trigger] chs@.subrange(0, i as int)[j] == x;
                    assert(chs@.subrange(0, i + 1)[j] == x);
                }
                if x == chs@[i as int] {
                    assert(chs@.subrange(0, i + 1)[i as int] == x);
                }
            }
        }
        i = i + 1;
    }
    assert(chs@.subrange(0, chs@.len() as int) =~= chs@);
    r
}

/// Describes a device from what it reports: its name, the `(min, max)`
/// sample-rate ranges and channel counts of its supported configurations,
/// its default `(sample rate, channels)` if it reports one, and whether it
/// is the system default.
pub fn describe_device(
    name: String,
    ranges: &Vec<(u32, u32)>,
    channels: &Vec<u16>,
    default_config: Option<(u32, u16)>,
    is_default: bool,
) -> (d: AudioDevice)
    ensures
        d.name == name,
        d.sample_rates@ == covered_rates(ranges@, 8),
        ascending_u16(d.channel_counts@),
        forall|x: u16| d.channel_counts@.contains(x) <==> channels@.contains(x),
        d.default_sample_rate == (match default_config {
            Some(c) => c.0,
            None => FALLBACK_SAMPLE_RATE,
        }),
        d.default_channels == (match default_config {
            Some(c) => c.1,
            None => FALLBACK_CHANNELS,
        }),
        d.is_default == is_default,
{
    let sample_rates = common_rates_in_ranges(ranges);
    let channel_counts = distinct_sorted_channels(channels);
    let (default_sample_rate, default_channels) = match default_config {
        Some(c) => c,
        None => (FALLBACK_SAMPLE_RATE, FALLBACK_CHANNELS),
    };
    AudioDevice {
        name,
        sample_rates,
        channel_counts,
        default_sample_rate,
        default_channels,
        is_default,
    }
}

/// The last index below `n` whose device is the system default.
pub open spec fn last_default(devices: Seq<AudioDevice>, n: nat) -> Option<int>
    decreases n,
{
    if n == 0 {
        None
    } else if devices[n - 1].is_default {
        Some(n - 1)
    } else {
        last_default(devices, (n - 1) as nat)
    }
}

/// Gathers enumerated devices into a list whose default index points at the
/// (last) device marked as the system default.
pub fn device_list(devices: Vec<AudioDevice>) -> (l: AudioDeviceList)
    ensures
        l.devices@ == devices@,
        l.default_device_index == (match last_default(devices@, devices@.len()) {
            Some(i) => Some(i as usize),
            None => None,
        }),
{
    let mut default_device_index: Option<usize> = None;
    let mut i: usize = 0;
    while i < devices.len()
        invariant
            i <= devices@.len(),
            default_device_index == (match last_default(devices@, i as nat) {
                Some(j) => Some(j as usize),
                None => None,
            }),
            match last_default(devices@, i as nat) {
                Some(j) => 0 <= j < i,
                None => true,
            },
        decreases devices@.len() - i,
    {
        if devices[i].is_default {
            default_device_index = Some(i);
        }
        i = i + 1;
    }
    AudioDeviceList { devices, default_device_index }
}

/// The default index of a device list built from enumerated devices points
/// at a device marked as the system default.
pub proof fn law_default_index_is_default(devices: Seq<AudioDevice>, n: nat)
    requires
        n <= devices.len(),
    ensures
        match last_default(devices, n) {
            Some(i) => 0 <= i < n && devices[i].is_default,
            None => forall|j: int| 0 <= j < n ==> !(#[trigger] devices[j]).is_default,
        },
    decreases n,
{
    if n > 0 {
        law_default_index_is_default(devices, (n - 1) as nat);
    }
}

/// The buffer size a stream asks for.
#[derive(Debug, Clone, Copy, PartialEq, Eq, Structural)]
pub enum StreamBufferSize {
    /// The device's default buffer size.
    Default,
    /// A fixed number of frames.
    Fixed(u32),
}

/// The buffer size a preference asks for: the minimal preference asks for
/// `MINIMAL_BUFFER_FRAMES` frames.
pub fn stream_buffer_size(pref: BufferSizePreference) -> (b: StreamBufferSize)
    ensures
        b == match pref {
            BufferSizePreference::Default => StreamBufferSize::Default,
            BufferSizePreference::Minimal => StreamBufferSize::Fixed(MINIMAL_BUFFER_FRAMES),
            BufferSizePreference::Fixed(n) => StreamBufferSize::Fixed(n),
        },
{
    match pref {
        BufferSizePreference::Default => StreamBufferSize::Default,
        BufferSizePreference::Minimal => StreamBufferSize::Fixed(MINIMAL_BUFFER_FRAMES),
        BufferSizePreference::Fixed(n) => StreamBufferSize::Fixed(n),
    }
}

/// Stream parameters resolved from the user's configuration and the
/// device's default configuration.
#[derive(Debug, Clone, Copy, PartialEq, Eq, Structural)]
pub struct StreamSettings {
    pub sample_rate: u32,
    pub channels: u16,
    /// `None` keeps the buffer size of the device's default configuration.
    pub buffer_size: Option<StreamBufferSize>,
}

/// Resolves the requested sample rate, channel count and buffer size,
/// falling back to the device's default configuration for what the user
/// left open.
pub fn resolve_stream_settings(
    config: &AudioDeviceConfig,
    default_sample_rate: u32,
    default_channels: u16,
) -> (s: StreamSettings)
    ensures
        s.sample_rate == (match config.sample_rate {
            Some(r) => r,
            None => default_sample_rate,
        }),
        s.channels == (match config.channels {
            Some(c) => c,
            None => default_channels,
        }),
        s.buffer_size == (match config.buffer_size {
            Some(p) => Some(
                match p {
                    BufferSizePreference::Default => StreamBufferSize::Default,
                    BufferSizePreference::Minimal => StreamBufferSize::Fixed(MINIMAL_BUFFER_FRAMES),
                    BufferSizePreference::Fixed(n) => StreamBufferSize::Fixed(n),
                },
            ),
            None => None,
        }),
{
    let sample_rate = match config.sample_rate {
        Some(r) => r,
        None => default_sample_rate,
    };
    let channels = match config.channels {
        Some(c) => c,
        None => default_channels,
    };
    let buffer_size = match config.buffer_size {
        Some(p) => Some(stream_buffer_size(p)),
        None => None,
    };
    StreamSettings { sample_rate, channels, buffer_size }
}

/// The first device whose name is `wanted`.
pub open spec fn first_named(names: Seq<Seq<char>>, wanted: Seq<char>, from: int) -> Option<int>
    decreases names.len() - from,
{
    if from < 0 || from >= names.len() {
        None
    } else if names[from] == wanted {
        Some(from)
    } else {
        first_named(names, wanted, from + 1)
    }
}

/// The views of a list of names.
pub open spec fn name_views(names: Seq<String>) -> Seq<Seq<char>> {
    names.map_values(|s: String| s@)
}

/// The index of the first device named `wanted`, if any.
pub fn find_device_by_name(names: &Vec<String>, wanted: &String) -> (r: Option<usize>)
    ensures
        r == (match first_named(name_views(names@), wanted@, 0) {
            Some(i) => Some(i as usize),
            None => None,
        }),
{
    let ghost views = name_views(names@);
    let mut i: usize = 0;
    while i < names.len()
        invariant
            i <= names@.len(),
            views == name_views(names@),
            first_named(views, wanted@, 0) == first_named(views, wanted@, i as int),
        decreases names@.len() - i,
    {
        if names[i] == *wanted {
            return Some(i);
        }
        i = i + 1;
    }
    None
}

} // verus!

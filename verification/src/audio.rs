//! The microphone: which devices are offered, which one is opened, and whether
//! it can deliver what is needed.

use vstd::prelude::*;

use crate::decimal;
use crate::text;

verus! {

/// Whether one of the ranges (channels, lowest rate, highest rate) holds the
/// wanted rate at the wanted channels.
pub open spec fn is_supported(
    configs: Seq<(u16, u32, u32)>,
    wanted_rate: u32,
    wanted_channels: u16,
) -> bool {
    exists|i: int|
        0 <= i < configs.len() && (#[trigger] configs[i]).0 == wanted_channels && configs[i].1
            <= wanted_rate <= configs[i].2
}

/// Whether `wanted_rate` Hz at `wanted_channels` channels is in any of the
/// ranges (channels, lowest rate, highest rate) that a device supports.
pub fn rate_supported(configs: &[(u16, u32, u32)], wanted_rate: u32, wanted_channels: u16) -> (r:
    bool)
    ensures
        r == is_supported(configs@, wanted_rate, wanted_channels),
{
    for i in 0..configs.len()
        invariant
            forall|j: int|
                0 <= j < i ==> !((#[trigger] configs@[j]).0 == wanted_channels && configs@[j].1
                    <= wanted_rate <= configs@[j].2),
    {
        let (channels, min_rate, max_rate): (u16, u32, u32) = configs[i];
        if channels == wanted_channels && min_rate <= wanted_rate && wanted_rate <= max_rate {
            assert(configs@[i as int].0 == wanted_channels);
            return true;
        }
    }
    false
}

/// Whether a name is one of the many virtual, converter and raw devices that
/// only clutter a list.
pub open spec fn is_clutter(name: Seq<char>) -> bool {
    ||| "null"@.is_prefix_of(name)
    ||| "samplerate"@.is_prefix_of(name)
    ||| "speexrate"@.is_prefix_of(name)
    ||| "upmix"@.is_prefix_of(name)
    ||| "vdownmix"@.is_prefix_of(name)
    ||| "dmix:"@.is_prefix_of(name)
    ||| "dsnoop:"@.is_prefix_of(name)
    ||| "surround"@.is_prefix_of(name)
    ||| "hdmi:"@.is_prefix_of(name)
    ||| "modem:"@.is_prefix_of(name)
    ||| "front:"@.is_prefix_of(name)
    ||| "rear:"@.is_prefix_of(name)
    ||| "center_lfe:"@.is_prefix_of(name)
    ||| "side:"@.is_prefix_of(name)
    ||| "iec958:"@.is_prefix_of(name)
    ||| "hw:"@.is_prefix_of(name)
    ||| "plughw:"@.is_prefix_of(name)
    ||| name == "front"@
    ||| name == "sysdefault"@
    ||| name == "rear"@
    ||| name == "center_lfe"@
    ||| name == "side"@
    ||| name == "iec958"@
}

/// Whether an input device is worth showing, judged by its name.
pub fn is_useful_input_name(name: &str) -> (r: bool)
    ensures
        r == !is_clutter(name@),
{
    let rejected_prefix = text::starts_with(name, "null") || text::starts_with(name, "samplerate")
        || text::starts_with(name, "speexrate") || text::starts_with(name, "upmix")
        || text::starts_with(name, "vdownmix") || text::starts_with(name, "dmix:")
        || text::starts_with(name, "dsnoop:") || text::starts_with(name, "surround")
        || text::starts_with(name, "hdmi:") || text::starts_with(name, "modem:")
        || text::starts_with(name, "front:") || text::starts_with(name, "rear:")
        || text::starts_with(name, "center_lfe:") || text::starts_with(name, "side:")
        || text::starts_with(name, "iec958:") || text::starts_with(name, "hw:")
        || text::starts_with(name, "plughw:");
    if rejected_prefix {
        return false;
    }
    !(text::same(name, "front") || text::same(name, "sysdefault") || text::same(name, "rear")
        || text::same(name, "center_lfe") || text::same(name, "side") || text::same(
        name,
        "iec958",
    ))
}

/// One input device to choose from.
#[derive(Debug, Clone)]
pub struct InputDeviceInfo {
    /// The name by which the audio system knows the device.
    pub name: String,
    /// Whether the device is the system's default.
    pub is_system_default: bool,
}

/// The devices worth showing: those that have a name, and a useful one; each
/// with whether it is the default.
pub open spec fn offered(
    names: Seq<Option<String>>,
    default_name: Option<Seq<char>>,
) -> Seq<(Seq<char>, bool)>
    decreases names.len(),
{
    if names.len() == 0 {
        Seq::empty()
    } else {
        let front = offered(names.drop_last(), default_name);
        match names.last() {
            Some(name) => if is_clutter(name@) {
                front
            } else {
                front.push((name@, default_name == Some(name@)))
            },
            None => front,
        }
    }
}

/// A list of devices by what it says.
pub open spec fn devices_view(devices: Seq<InputDeviceInfo>) -> Seq<(Seq<char>, bool)> {
    devices.map_values(|d: InputDeviceInfo| (d.name@, d.is_system_default))
}

/// Whether two optional texts are both there and equal.
fn is_named(name: Option<&str>, other: &str) -> (r: bool)
    ensures
        r == (text::seen(name) == Some(other@)),
{
    match name {
        Some(n) => text::same(n, other),
        None => false,
    }
}

/// The input devices worth showing, from the names of all devices (those that
/// do not tell their name have none) and that of the default one.
pub fn list_input_devices(names: &Vec<Option<String>>, default_name: Option<&str>) -> (r: Vec<
    InputDeviceInfo,
>)
    ensures
        devices_view(r@) == offered(names@, text::seen(default_name)),
{
    let mut out: Vec<InputDeviceInfo> = Vec::new();
    assert(devices_view(out@) =~= offered(names@.take(0), text::seen(default_name)));
    for i in 0..names.len()
        invariant
            devices_view(out@) == offered(names@.take(i as int), text::seen(default_name)),
    {
        assert(names@.take(i + 1).drop_last() == names@.take(i as int));
        assert(names@.take(i + 1).last() == names@[i as int]);
        match &names[i] {
            Some(name) => {
                if is_useful_input_name(name.as_str()) {
                    let ghost before = out@;
                    let is_system_default = is_named(default_name, name.as_str());
                    out.push(InputDeviceInfo { name: name.clone(), is_system_default });
                    assert(devices_view(out@) =~= devices_view(before).push(
                        (name@, is_system_default),
                    ));
                }
            },
            None => {},
        }
    }
    assert(names@.take(names@.len() as int) == names@);
    out
}

/// Why there is no audio.
#[derive(Debug)]
pub enum AudioError {
    /// There is no default input device.
    NoDefaultDevice,
    /// The device cannot deliver what is needed.
    Unsupported {
        device: String,
        sample_rate: u32,
        channels: u16,
        /// What the device would rather deliver.
        default: Option<(u32, u16)>,
    },
}

/// A device's default configuration in words.
pub open spec fn default_text(default: Option<(u32, u16)>) -> Seq<char> {
    match default {
        Some((rate, channels)) => decimal::numeral(rate as nat) + " Hz @ "@ + decimal::numeral(
            channels as nat,
        ) + " channels"@,
        None => "<unavailable>"@,
    }
}

impl AudioError {
    /// The message for this error.
    pub open spec fn text(self) -> Seq<char> {
        match self {
            AudioError::NoDefaultDevice =>
                "no default audio input device — check `pactl list sources short`"@,
            AudioError::Unsupported { device, sample_rate, channels, default } =>
                "audio device `"@ + device@ + "` does not support "@ + decimal::numeral(
                sample_rate as nat,
            ) + " Hz @ "@ + decimal::numeral(channels as nat) + " channel(s). Device default: "@
                + default_text(default)
                + ". Whisper requires 16 kHz mono — try selecting a different input device (e.g. `pactl set-default-source <name>` on PulseAudio/PipeWire, or picking a different device with `arecord -L` on ALSA-only systems)."@,
        }
    }

    /// The message for this error.
    pub fn message(&self) -> (r: String)
        ensures
            r@ == self.text(),
    {
        match self {
            AudioError::NoDefaultDevice =>
                "no default audio input device — check `pactl list sources short`".to_owned(),
            AudioError::Unsupported { device, sample_rate, channels, default } => {
                let mut usual: String = String::new();
                match default {
                    Some((rate, count)) => {
                        decimal::push_numeral(&mut usual, *rate as u64);
                        usual.append(" Hz @ ");
                        decimal::push_numeral(&mut usual, *count as u64);
                        usual.append(" channels");
                    },
                    None => {
                        usual.append("<unavailable>");
                    },
                }
                assert(usual@ =~= default_text(*default));
                let mut out: String = "audio device `".to_owned();
                out.append(device.as_str());
                out.append("` does not support ");
                decimal::push_numeral(&mut out, *sample_rate as u64);
                out.append(" Hz @ ");
                decimal::push_numeral(&mut out, *channels as u64);
                out.append(" channel(s). Device default: ");
                out.append(usual.as_str());
                out.append(
                    ". Whisper requires 16 kHz mono — try selecting a different input device (e.g. `pactl set-default-source <name>` on PulseAudio/PipeWire, or picking a different device with `arecord -L` on ALSA-only systems).",
                );
                out
            },
        }
    }
}

/// The device to open.
#[derive(Debug, Clone, Copy, PartialEq, Eq)]
pub enum DevicePick {
    /// The listed device with this index.
    Listed(usize),
    /// The system's default, because nothing else was asked for.
    Default,
    /// The system's default, because what was asked for is not there.
    FallBack,
}

/// Whether device `i` is the first with the given name.
pub open spec fn is_first_named(names: Seq<Option<String>>, name: Seq<char>, i: int) -> bool {
    &&& 0 <= i < names.len()
    &&& text::held(names[i]) == Some(name)
    &&& forall|j: int| 0 <= j < i ==> text::held(#[trigger] names[j]) != Some(name)
}

/// Whether some device has the given name.
pub open spec fn is_there(names: Seq<Option<String>>, name: Seq<char>) -> bool {
    exists|i: int| 0 <= i < names.len() && text::held(#[trigger] names[i]) == Some(name)
}

/// Pick the device to open: the first with the configured name; the default
/// one where none is configured, or where the configured one is gone.
pub fn pick_device(
    requested: Option<&str>,
    names: &Vec<Option<String>>,
    has_default: bool,
) -> (r: Result<DevicePick, AudioError>)
    ensures
        match r {
            Ok(DevicePick::Listed(i)) => requested is Some && is_first_named(
                names@,
                requested->0@,
                i as int,
            ),
            Ok(DevicePick::Default) => requested is None && has_default,
            Ok(DevicePick::FallBack) => {
                &&& requested is Some
                &&& has_default
                &&& !is_there(names@, requested->0@)
            },
            Err(e) => {
                &&& e is NoDefaultDevice
                &&& !has_default
                &&& requested matches Some(name) ==> !is_there(names@, name@)
            },
        },
{
    match requested {
        Some(wanted) => {
            for i in 0..names.len()
                invariant
                    requested == Some(wanted),
                    forall|j: int| 0 <= j < i ==> text::held(#[trigger] names@[j]) != Some(wanted@),
            {
                match &names[i] {
                    Some(name) => {
                        if text::same(name.as_str(), wanted) {
                            return Ok(DevicePick::Listed(i));
                        }
                    },
                    None => {},
                }
            }
            if has_default {
                Ok(DevicePick::FallBack)
            } else {
                Err(AudioError::NoDefaultDevice)
            }
        },
        None => {
            if has_default {
                Ok(DevicePick::Default)
            } else {
                Err(AudioError::NoDefaultDevice)
            }
        },
    }
}

/// Judge whether a device can deliver what is needed. A device that does not
/// tell its name goes by `<unknown>`.
pub fn check_capture(
    device: Option<String>,
    supported: &[(u16, u32, u32)],
    sample_rate: u32,
    channels: u16,
    default: Option<(u32, u16)>,
) -> (r: Result<(), AudioError>)
    ensures
        match r {
            Ok(_) => is_supported(supported@, sample_rate, channels),
            Err(AudioError::Unsupported { device: d, sample_rate: s, channels: c, default: u }) => {
                &&& !is_supported(supported@, sample_rate, channels)
                &&& d@ == match device {
                    Some(name) => name@,
                    None => "<unknown>"@,
                }
                &&& (s, c, u) == (sample_rate, channels, default)
            },
            Err(AudioError::NoDefaultDevice) => false,
        },
{
    if rate_supported(supported, sample_rate, channels) {
        return Ok(());
    }
    let device = match device {
        Some(name) => name,
        None => "<unknown>".to_owned(),
    };
    Err(AudioError::Unsupported { device, sample_rate, channels, default })
}

// ---------------------------------------------------------------------------
// Laws
// ---------------------------------------------------------------------------

/// A device supports a rate exactly where one of its ranges does, the ends of the
/// range included: one range is judged by itself, and of two lists one is enough.
pub proof fn ranges_are_judged_one_by_one(
    range: (u16, u32, u32),
    a: Seq<(u16, u32, u32)>,
    b: Seq<(u16, u32, u32)>,
    rate: u32,
    channels: u16,
)
    ensures
        is_supported(seq![range], rate, channels) <==> range.0 == channels && range.1 <= rate
            && rate <= range.2,
        is_supported(a + b, rate, channels) <==> is_supported(a, rate, channels) || is_supported(
            b,
            rate,
            channels,
        ),
        !is_supported(Seq::empty(), rate, channels),
{
    let one = seq![range];
    assert(one[0] == range);
    let all = a + b;
    if is_supported(all, rate, channels) {
        let i = choose|i: int|
            0 <= i < all.len() && (#[trigger] all[i]).0 == channels && all[i].1 <= rate
                <= all[i].2;
        if i < a.len() {
            assert(a[i] == all[i]);
        } else {
            assert(b[i - a.len()] == all[i]);
        }
    }
    if is_supported(a, rate, channels) {
        let i = choose|i: int|
            0 <= i < a.len() && (#[trigger] a[i]).0 == channels && a[i].1 <= rate <= a[i].2;
        assert(all[i] == a[i]);
    }
    if is_supported(b, rate, channels) {
        let i = choose|i: int|
            0 <= i < b.len() && (#[trigger] b[i]).0 == channels && b[i].1 <= rate <= b[i].2;
        assert(all[a.len() + i] == b[i]);
    }
}

proof fn starts_with_itself(front: Seq<char>, rest: Seq<char>)
    ensures
        front.is_prefix_of(front + rest),
{
    assert((front + rest).subrange(0, front.len() as int) =~= front);
}

/// Names of virtual, converter and raw devices are clutter, whatever follows.
pub proof fn clutter_is_hidden(rest: Seq<char>)
    ensures
        is_clutter("null"@ + rest),
        is_clutter("samplerate"@ + rest),
        is_clutter("speexrate"@ + rest),
        is_clutter("upmix"@ + rest),
        is_clutter("vdownmix"@ + rest),
        is_clutter("dmix:"@ + rest),
        is_clutter("dsnoop:"@ + rest),
        is_clutter("surround"@ + rest),
        is_clutter("hdmi:"@ + rest),
        is_clutter("modem:"@ + rest),
        is_clutter("front:"@ + rest),
        is_clutter("rear:"@ + rest),
        is_clutter("center_lfe:"@ + rest),
        is_clutter("side:"@ + rest),
        is_clutter("iec958:"@ + rest),
        is_clutter("hw:"@ + rest),
        is_clutter("plughw:"@ + rest),
        is_clutter("front"@),
        is_clutter("sysdefault"@),
        is_clutter("rear"@),
        is_clutter("center_lfe"@),
        is_clutter("side"@),
        is_clutter("iec958"@),
{
    starts_with_itself("null"@, rest);
    starts_with_itself("samplerate"@, rest);
    starts_with_itself("speexrate"@, rest);
    starts_with_itself("upmix"@, rest);
    starts_with_itself("vdownmix"@, rest);
    starts_with_itself("dmix:"@, rest);
    starts_with_itself("dsnoop:"@, rest);
    starts_with_itself("surround"@, rest);
    starts_with_itself("hdmi:"@, rest);
    starts_with_itself("modem:"@, rest);
    starts_with_itself("front:"@, rest);
    starts_with_itself("rear:"@, rest);
    starts_with_itself("center_lfe:"@, rest);
    starts_with_itself("side:"@, rest);
    starts_with_itself("iec958:"@, rest);
    starts_with_itself("hw:"@, rest);
    starts_with_itself("plughw:"@, rest);
}

/// The first two letters of clutter.
pub open spec fn starts_like_clutter(a: char, b: char) -> bool {
    ||| a == 'n' && b == 'u'
    ||| a == 's' && (b == 'a' || b == 'p' || b == 'u' || b == 'i' || b == 'y')
    ||| a == 'u' && b == 'p'
    ||| a == 'v' && b == 'd'
    ||| a == 'd' && (b == 'm' || b == 's')
    ||| a == 'h' && (b == 'd' || b == 'w')
    ||| a == 'm' && b == 'o'
    ||| a == 'f' && b == 'r'
    ||| a == 'r' && b == 'e'
    ||| a == 'c' && b == 'e'
    ||| a == 'i' && b == 'e'
    ||| a == 'p' && b == 'l'
}

proof fn prefix_shows(front: Seq<char>, name: Seq<char>)
    requires
        front.is_prefix_of(name),
        front.len() >= 2,
    ensures
        name.len() >= 2,
        name[0] == front[0],
        name[1] == front[1],
{
    let start = name.subrange(0, front.len() as int);
    assert(start[0] == name[0] && start[1] == name[1]);
}

/// No other name is clutter: one that starts otherwise is shown, such as those of
/// sound servers (`alsa_input…`, `bluez…`, `default`, `pulse`, `pipewire`,
/// `usbstream:…`); and so are `sysdefault:` with a card behind it, and a name that
/// only starts like one that is hidden by itself.
pub proof fn other_devices_are_shown(name: Seq<char>, rest: Seq<char>)
    ensures
        name.len() < 2 ==> !is_clutter(name),
        !starts_like_clutter(name[0], name[1]) ==> !is_clutter(name),
        !is_clutter("default"@ + rest),
        !is_clutter("pulse"@ + rest),
        !is_clutter("pipewire"@ + rest),
        !is_clutter("alsa_input."@ + rest),
        !is_clutter("usbstream:"@ + rest),
        rest.len() > 0 ==> !is_clutter("sysdefault"@ + rest),
{
    reveal_strlit("null");
    reveal_strlit("samplerate");
    reveal_strlit("speexrate");
    reveal_strlit("upmix");
    reveal_strlit("vdownmix");
    reveal_strlit("dmix:");
    reveal_strlit("dsnoop:");
    reveal_strlit("surround");
    reveal_strlit("hdmi:");
    reveal_strlit("modem:");
    reveal_strlit("front:");
    reveal_strlit("rear:");
    reveal_strlit("center_lfe:");
    reveal_strlit("side:");
    reveal_strlit("iec958:");
    reveal_strlit("hw:");
    reveal_strlit("plughw:");
    reveal_strlit("front");
    reveal_strlit("sysdefault");
    reveal_strlit("rear");
    reveal_strlit("center_lfe");
    reveal_strlit("side");
    reveal_strlit("iec958");
    reveal_strlit("default");
    reveal_strlit("pulse");
    reveal_strlit("pipewire");
    reveal_strlit("alsa_input.");
    reveal_strlit("usbstream:");
    clutter_starts_so(name);
    clutter_starts_so("default"@ + rest);
    clutter_starts_so("pulse"@ + rest);
    clutter_starts_so("pipewire"@ + rest);
    clutter_starts_so("alsa_input."@ + rest);
    clutter_starts_so("usbstream:"@ + rest);
    let card = "sysdefault"@ + rest;
    if rest.len() > 0 && is_clutter(card) {
        assert(card[0] == 's' && card[1] == 'y');
        sy_is_sysdefault(card);
    }
}

proof fn sy_is_sysdefault(name: Seq<char>)
    requires
        is_clutter(name),
        name.len() >= 2,
        name[0] == 's',
        name[1] == 'y',
    ensures
        name == "sysdefault"@,
{
    reveal_strlit("null");
    reveal_strlit("samplerate");
    reveal_strlit("speexrate");
    reveal_strlit("upmix");
    reveal_strlit("vdownmix");
    reveal_strlit("dmix:");
    reveal_strlit("dsnoop:");
    reveal_strlit("surround");
    reveal_strlit("hdmi:");
    reveal_strlit("modem:");
    reveal_strlit("front:");
    reveal_strlit("rear:");
    reveal_strlit("center_lfe:");
    reveal_strlit("side:");
    reveal_strlit("iec958:");
    reveal_strlit("hw:");
    reveal_strlit("plughw:");
    reveal_strlit("front");
    reveal_strlit("rear");
    reveal_strlit("center_lfe");
    reveal_strlit("side");
    reveal_strlit("iec958");
    if name != "sysdefault"@ {
        clutter_has_a_prefix(name);
    }
}

proof fn clutter_has_a_prefix(name: Seq<char>)
    requires
        is_clutter(name),
        name != "sysdefault"@,
    ensures
        name.len() >= 2,
        starts_like_clutter(name[0], name[1]),
        !(name[0] == 's' && name[1] == 'y'),
{
    reveal_strlit("null");
    reveal_strlit("samplerate");
    reveal_strlit("speexrate");
    reveal_strlit("upmix");
    reveal_strlit("vdownmix");
    reveal_strlit("dmix:");
    reveal_strlit("dsnoop:");
    reveal_strlit("surround");
    reveal_strlit("hdmi:");
    reveal_strlit("modem:");
    reveal_strlit("front:");
    reveal_strlit("rear:");
    reveal_strlit("center_lfe:");
    reveal_strlit("side:");
    reveal_strlit("iec958:");
    reveal_strlit("hw:");
    reveal_strlit("plughw:");
    reveal_strlit("front");
    reveal_strlit("rear");
    reveal_strlit("center_lfe");
    reveal_strlit("side");
    reveal_strlit("iec958");
    if "null"@.is_prefix_of(name) {
        prefix_shows("null"@, name);
    } else if "samplerate"@.is_prefix_of(name) {
        prefix_shows("samplerate"@, name);
    } else if "speexrate"@.is_prefix_of(name) {
        prefix_shows("speexrate"@, name);
    } else if "upmix"@.is_prefix_of(name) {
        prefix_shows("upmix"@, name);
    } else if "vdownmix"@.is_prefix_of(name) {
        prefix_shows("vdownmix"@, name);
    } else if "dmix:"@.is_prefix_of(name) {
        prefix_shows("dmix:"@, name);
    } else if "dsnoop:"@.is_prefix_of(name) {
        prefix_shows("dsnoop:"@, name);
    } else if "surround"@.is_prefix_of(name) {
        prefix_shows("surround"@, name);
    } else if "hdmi:"@.is_prefix_of(name) {
        prefix_shows("hdmi:"@, name);
    } else if "modem:"@.is_prefix_of(name) {
        prefix_shows("modem:"@, name);
    } else if "front:"@.is_prefix_of(name) {
        prefix_shows("front:"@, name);
    } else if "rear:"@.is_prefix_of(name) {
        prefix_shows("rear:"@, name);
    } else if "center_lfe:"@.is_prefix_of(name) {
        prefix_shows("center_lfe:"@, name);
    } else if "side:"@.is_prefix_of(name) {
        prefix_shows("side:"@, name);
    } else if "iec958:"@.is_prefix_of(name) {
        prefix_shows("iec958:"@, name);
    } else if "hw:"@.is_prefix_of(name) {
        prefix_shows("hw:"@, name);
    } else if "plughw:"@.is_prefix_of(name) {
        prefix_shows("plughw:"@, name);
    }
}

proof fn clutter_starts_so(name: Seq<char>)
    ensures
        is_clutter(name) ==> name.len() >= 2 && starts_like_clutter(name[0], name[1]),
{
    reveal_strlit("sysdefault");
    if is_clutter(name) && name != "sysdefault"@ {
        clutter_has_a_prefix(name);
    }
}

/// The list is made device by device, in order: one that does not tell its name, or
/// tells one that is clutter, adds nothing; any other adds itself, marked where it
/// is the default.
pub proof fn devices_are_listed_in_order(
    a: Seq<Option<String>>,
    b: Seq<Option<String>>,
    name: String,
    default_name: Option<Seq<char>>,
)
    ensures
        offered(a + b, default_name) == offered(a, default_name) + offered(b, default_name),
        offered(seq![None], default_name).len() == 0,
        is_clutter(name@) ==> offered(seq![Some(name)], default_name).len() == 0,
        !is_clutter(name@) ==> offered(seq![Some(name)], default_name) == seq![
            (name@, default_name is Some && default_name->0 == name@),
        ],
    decreases b.len(),
{
    let nobody = seq![None::<String>];
    let one = seq![Some(name)];
    reveal_with_fuel(offered, 2);
    assert(nobody.drop_last() =~= Seq::<Option<String>>::empty());
    assert(one.drop_last() =~= Seq::<Option<String>>::empty());
    if b.len() == 0 {
        assert(a + b =~= a);
        assert(offered(a, default_name) + offered(b, default_name) =~= offered(a, default_name));
    } else {
        devices_are_listed_in_order(a, b.drop_last(), name, default_name);
        assert((a + b).drop_last() =~= a + b.drop_last());
        assert((a + b).last() == b.last());
        assert(offered(a + b, default_name) =~= offered(a, default_name) + offered(
            b,
            default_name,
        ));
    }
}

/// The device that was asked for is opened wherever it is listed, the first of its
/// name; else the default, and only without a default is there an error.
pub proof fn devices_are_picked_by_name(
    wanted: &str,
    names: Vec<Option<String>>,
    has_default: bool,
    r: Result<DevicePick, AudioError>,
    i: int,
)
    requires
        call_ensures(pick_device, (Some(wanted), &names, has_default), r),
    ensures
        0 <= i < names@.len() && text::held(names@[i]) == Some(wanted@) ==> (
        r matches Ok(DevicePick::Listed(k)) && k <= i && text::held(names@[k as int]) == Some(
            wanted@,
        )),
        r matches Ok(DevicePick::Listed(k)) ==> k < names@.len() && text::held(names@[k as int])
            == Some(wanted@),
        !(r matches Ok(DevicePick::Default)),
        r is Err ==> !has_default,
{
}

/// Without a device asked for, the default is opened, or there is an error.
pub proof fn the_default_is_picked(
    names: Vec<Option<String>>,
    has_default: bool,
    r: Result<DevicePick, AudioError>,
)
    requires
        call_ensures(pick_device, (None::<&str>, &names, has_default), r),
    ensures
        has_default ==> (r matches Ok(DevicePick::Default)),
        !has_default ==> (r matches Err(AudioError::NoDefaultDevice)),
{
}

/// What is said of a device that cannot deliver: its name, what was needed, and what
/// it would rather deliver, the rate before the channels.
pub proof fn the_message_names_what_was_needed(
    device: String,
    sample_rate: u32,
    channels: u16,
    rate: u32,
    count: u16,
)
    ensures
        ("audio device `"@ + device@ + "` does not support "@ + decimal::numeral(sample_rate as nat)
            + " Hz @ "@ + decimal::numeral(channels as nat) + " channel(s). Device default: "@
            + decimal::numeral(rate as nat) + " Hz @ "@ + decimal::numeral(count as nat)
            + " channels. Whisper requires 16 kHz mono"@).is_prefix_of(
            (AudioError::Unsupported {
                device,
                sample_rate,
                channels,
                default: Some((rate, count)),
            }).text(),
        ),
        ("audio device `"@ + device@ + "` does not support "@ + decimal::numeral(sample_rate as nat)
            + " Hz @ "@ + decimal::numeral(channels as nat)
            + " channel(s). Device default: <unavailable>. Whisper requires 16 kHz mono"@).is_prefix_of(
            (AudioError::Unsupported { device, sample_rate, channels, default: None }).text(),
        ),
{
    reveal_strlit(" channels");
    reveal_strlit("<unavailable>");
    reveal_strlit(" channel(s). Device default: ");
    reveal_strlit(" channels. Whisper requires 16 kHz mono");
    reveal_strlit(" channel(s). Device default: <unavailable>. Whisper requires 16 kHz mono");
    reveal_strlit(
        ". Whisper requires 16 kHz mono — try selecting a different input device (e.g. `pactl set-default-source <name>` on PulseAudio/PipeWire, or picking a different device with `arecord -L` on ALSA-only systems).",
    );
    let start = "audio device `"@ + device@ + "` does not support "@ + decimal::numeral(
        sample_rate as nat,
    ) + " Hz @ "@ + decimal::numeral(channels as nat);
    let told = (AudioError::Unsupported {
        device,
        sample_rate,
        channels,
        default: Some((rate, count)),
    }).text();
    let front = start + " channel(s). Device default: "@ + decimal::numeral(rate as nat)
        + " Hz @ "@ + decimal::numeral(count as nat);
    let long = front + " channels. Whisper requires 16 kHz mono"@;
    assert(told.subrange(0, long.len() as int) =~= long);
    let bare = (AudioError::Unsupported { device, sample_rate, channels, default: None }).text();
    let short = start
        + " channel(s). Device default: <unavailable>. Whisper requires 16 kHz mono"@;
    assert(bare.subrange(0, short.len() as int) =~= short);
}

/// A device is taken exactly where it supports what is needed; the complaint names
/// the device, or that its name is unknown.
pub proof fn devices_must_deliver(
    device: String,
    supported: &[(u16, u32, u32)],
    rate: u32,
    channels: u16,
    default: Option<(u32, u16)>,
    r: Result<(), AudioError>,
    unnamed: Result<(), AudioError>,
)
    requires
        call_ensures(check_capture, (Some(device), supported, rate, channels, default), r),
        call_ensures(
            check_capture,
            (None::<String>, supported, rate, channels, default),
            unnamed,
        ),
    ensures
        r is Ok <==> exists|i: int|
            0 <= i < supported@.len() && (#[trigger] supported@[i]).0 == channels
                && supported@[i].1 <= rate <= supported@[i].2,
        unnamed is Ok <==> r is Ok,
        r matches Err(e) ==> e.text() == (AudioError::Unsupported {
            device,
            sample_rate: rate,
            channels,
            default,
        }).text(),
        r matches Err(e) ==> ("audio device `"@ + device@ + "` does not support "@).is_prefix_of(
            e.text(),
        ),
        unnamed matches Err(e) ==> "audio device `<unknown>` does not support "@.is_prefix_of(
            e.text(),
        ),
{
    reveal_strlit("audio device `");
    reveal_strlit("<unknown>");
    reveal_strlit("` does not support ");
    reveal_strlit("audio device `<unknown>` does not support ");
    if r is Err {
        let e = r->Err_0;
        let front = "audio device `"@ + device@ + "` does not support "@;
        assert(e.text().subrange(0, front.len() as int) =~= front);
    }
    if unnamed is Err {
        let e = unnamed->Err_0;
        let front = "audio device `<unknown>` does not support "@;
        assert(e.text().subrange(0, front.len() as int) =~= front);
    }
}

/// Which names are shown, which devices listed and which rates taken, from end to end.
pub proof fn devices_are_shown_and_listed(
    name: String,
    label: &str,
    default_name: &str,
    shown: bool,
    names: Vec<Option<String>>,
    listed: Vec<InputDeviceInfo>,
    range: (u16, u32, u32),
    ranges: &[(u16, u32, u32)],
    rate: u32,
    channels: u16,
    taken: bool,
    i: int,
)
    requires
        label@ == name@,
        call_ensures(is_useful_input_name, (label,), shown),
        call_ensures(list_input_devices, (&names, Some(default_name)), listed),
        call_ensures(rate_supported, (ranges, rate, channels), taken),
    ensures
        shown <==> !is_clutter(name@),
        names@ == seq![Some(name)] && shown ==> listed@.len() == 1 && listed@[0].name@ == name@
            && (listed@[0].is_system_default <==> name@ == default_name@),
        names@ == seq![Some(name)] && !shown ==> listed@.len() == 0,
        0 <= i < listed@.len() ==> !is_clutter(listed@[i].name@) && (listed@[i].is_system_default
            <==> listed@[i].name@ == default_name@),
        ranges@ == seq![range] ==> (taken <==> range.0 == channels && range.1 <= rate && rate
            <= range.2),
        ranges@.len() == 0 ==> !taken,
{
    let seen = devices_view(listed@);
    assert(seen.len() == listed@.len());
    devices_are_listed_in_order(Seq::empty(), Seq::empty(), name, Some(default_name@));
    ranges_are_judged_one_by_one(range, Seq::empty(), Seq::empty(), rate, channels);
    if names@ == seq![Some(name)] && shown {
        assert(seen[0] == (listed@[0].name@, listed@[0].is_system_default));
    }
    if 0 <= i < listed@.len() {
        assert(seen[i] == (listed@[i].name@, listed@[i].is_system_default));
        listed_devices_are_useful(names@, Some(default_name@), i);
    }
    if ranges@.len() == 0 {
        assert(ranges@ =~= Seq::<(u16, u32, u32)>::empty());
    }
}

proof fn listed_devices_are_useful(
    names: Seq<Option<String>>,
    default_name: Option<Seq<char>>,
    i: int,
)
    requires
        0 <= i < offered(names, default_name).len(),
    ensures
        !is_clutter(offered(names, default_name)[i].0),
        offered(names, default_name)[i].1 == (default_name == Some(
            offered(names, default_name)[i].0,
        )),
    decreases names.len(),
{
    if names.len() > 0 {
        let front = offered(names.drop_last(), default_name);
        if i < front.len() {
            listed_devices_are_useful(names.drop_last(), default_name, i);
        }
    }
}

/// What is said where there is no device at all.
pub proof fn no_device_is_told()
    ensures
        AudioError::NoDefaultDevice.text()
            == "no default audio input device — check `pactl list sources short`"@,
{
}

/// The message of an error is its text, and two errors with the same text give the
/// same message.
pub proof fn messages_are_their_text(a: AudioError, b: AudioError, one: String, other: String)
    requires
        call_ensures(AudioError::message, (&a,), one),
        call_ensures(AudioError::message, (&b,), other),
    ensures
        one@ == a.text(),
        a.text() == b.text() <==> one@ == other@,
{
}

} // verus!

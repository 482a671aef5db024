//! PulseAudio and what is compatible with it, through the command line tool
//! `pactl`.

use vstd::prelude::*;

use crate::audio::{
    denotes_float, is_float, switch_word, tool_output, tool_text, AudioDevice, AudioDeviceType,
    AudioState, AudioView, DeviceView, ToolOutcome, Volume, VolumeView,
};
use crate::text::{
    after_prefix, begins, before_suffix, cat, chars_of, contains, cut, cut_text, debug_of,
    debug_text, dec, dec_of, has_prefix, has_text, is_white, lines, lines_of, lower_all, opt_text,
    owned, piece, same, same_ignoring_case, split, split_at_char, split_once, split_text, strip_prefix,
    strip_suffix, texts, trim, trimmed, white,
};
use crate::types::{
    lemma_views_push, unit_view, views, AgentShellError, ComponentHealth, ErrorView, HealthView,
};

verus! {

/// The server's name on the message bus.
pub const PULSE_DBUS_SERVICE: &'static str = "org.pulseaudio.Server";

/// The server's object.
pub const PULSE_DBUS_PATH: &'static str = "/org/pulseaudio/server_lookup1";

/// The tool's name for the default sink.
pub const DEFAULT_SINK: &'static str = "@DEFAULT_SINK@";

/// What is known of the channels to the server.
#[derive(Debug)]
pub struct PulseAudioAudioServer {
    /// The tool was found.
    pactl: bool,
    /// Whether the server is on the message bus.
    dbus: Option<bool>,
}

/// What is known of the channels to the server.
pub struct ChannelsView {
    pub pactl: bool,
    pub dbus: Option<bool>,
}

impl View for PulseAudioAudioServer {
    type V = ChannelsView;

    closed spec fn view(&self) -> ChannelsView {
        ChannelsView { pactl: self.pactl, dbus: self.dbus }
    }
}

// ---------------------------------------------------------------------------
// The default sink
// ---------------------------------------------------------------------------
/// The value of a line such as `Default Sink: name`.
pub open spec fn sink_in_line(line: Seq<char>) -> Option<Seq<char>> {
    match split_once(line, ':') {
        Some(p) => if trim(p.0) == "Default Sink"@ && trim(p.1).len() > 0 {
            Some(trim(p.1))
        } else {
            None
        },
        None => None,
    }
}

/// The default sink in the first line that names one.
pub open spec fn default_sink_in(ls: Seq<Seq<char>>) -> Option<Seq<char>>
    decreases ls.len(),
{
    if ls.len() == 0 {
        None
    } else {
        match sink_in_line(ls[0]) {
            Some(s) => Some(s),
            None => default_sink_in(ls.skip(1)),
        }
    }
}

/// What follows the label in the first line that begins with it.
pub open spec fn labelled_sink(ls: Seq<Seq<char>>) -> Option<Seq<char>>
    decreases ls.len(),
{
    if ls.len() == 0 {
        None
    } else {
        match strip_prefix(ls[0], "Default Sink: "@) {
            Some(s) => Some(s),
            None => labelled_sink(ls.skip(1)),
        }
    }
}

// ---------------------------------------------------------------------------
// The devices
// ---------------------------------------------------------------------------
/// The line with which the description of a device begins.
pub open spec fn header(kind: AudioDeviceType) -> Seq<char> {
    match kind {
        AudioDeviceType::Sink => "Sink #"@,
        AudioDeviceType::Source => "Source #"@,
    }
}

/// A device of which nothing is known yet.
pub open spec fn blank(kind: AudioDeviceType) -> DeviceView {
    DeviceView {
        name: Seq::empty(),
        description: Seq::empty(),
        volume: VolumeView::Unknown,
        muted: false,
        is_default: false,
        device_type: kind,
    }
}

/// `s` without any trailing colons.
pub open spec fn without_colons(s: Seq<char>) -> Seq<char>
    decreases s.len(),
{
    if s.len() > 0 && s.last() == ':' {
        without_colons(s.drop_last())
    } else {
        s
    }
}

/// The first percentage behind a volume label, if it is a number.
pub open spec fn percentage(rest: Seq<char>) -> Option<Seq<char>> {
    let parts = split(rest, '/');
    if parts.len() < 2 {
        None
    } else {
        match strip_suffix(trim(parts[1]), "%"@) {
            Some(v) => if is_float(v) {
                Some(v)
            } else {
                None
            },
            None => None,
        }
    }
}

/// The line marks the default device, as `* index: 0` does.
pub open spec fn marks_default(t: Seq<char>) -> bool {
    begins(t, "*"@) && contains(t, "index:"@)
}

/// The device after one more line of its description.
pub open spec fn described(d: DeviceView, t: Seq<char>) -> DeviceView {
    match strip_prefix(t, "Volume:"@) {
        Some(rest) => match percentage(rest) {
            Some(v) => DeviceView { volume: VolumeView::Percent(v), ..d },
            None => d,
        },
        None => if marks_default(t) {
            DeviceView { is_default: true, ..d }
        } else {
            match split_text(t, ": "@) {
                Some(p) => {
                    let key = without_colons(p.0);
                    let value = trim(p.1);
                    if key == "Name"@ {
                        DeviceView { name: value, ..d }
                    } else if key == "Description"@ {
                        DeviceView { description: value, ..d }
                    } else if key == "Mute"@ {
                        DeviceView { muted: lower_all(value) == "yes"@, ..d }
                    } else {
                        d
                    }
                },
                None => d,
            }
        },
    }
}

/// The devices that have a name.
pub open spec fn with_device(ds: Seq<DeviceView>, o: Option<DeviceView>) -> Seq<DeviceView> {
    match o {
        Some(d) => if d.name.len() > 0 {
            ds.push(d)
        } else {
            ds
        },
        None => ds,
    }
}

/// The devices whose descriptions have ended, and the one being described.
pub open spec fn devices_so_far(ls: Seq<Seq<char>>, kind: AudioDeviceType) -> (
    Seq<DeviceView>,
    Option<DeviceView>,
)
    decreases ls.len(),
{
    if ls.len() == 0 {
        (Seq::empty(), None)
    } else {
        let (done, current) = devices_so_far(ls.drop_last(), kind);
        let t = trim(ls.last());
        if begins(t, header(kind)) {
            (with_device(done, current), Some(blank(kind)))
        } else {
            match current {
                None => (done, None),
                Some(d) => (done, Some(described(d, t))),
            }
        }
    }
}

/// The devices that a list describes; those without a name are passed over.
pub open spec fn devices_in(text: Seq<char>, kind: AudioDeviceType) -> Seq<DeviceView> {
    let (done, current) = devices_so_far(lines(text), kind);
    with_device(done, current)
}

fn drop_colons(s: &str) -> (r: String)
    ensures
        r@ == without_colons(s@),
{
    let v = chars_of(s);
    let mut b: usize = v.len();
    assert(s@.take(b as int) =~= s@);
    while b > 0 && v[b - 1] == ':'
        invariant
            b <= v.len(),
            v@ == s@,
            without_colons(s@) == without_colons(s@.take(b as int)),
        decreases b,
    {
        assert(s@.take(b as int).drop_last() =~= s@.take(b - 1));
        b = b - 1;
    }
    assert(without_colons(s@) == s@.take(b as int));
    assert(s@.take(b as int) =~= v@.subrange(0, b as int));
    piece(&v, 0, b)
}

fn read_percentage(rest: &str) -> (r: Option<String>)
    ensures
        opt_text(r) == percentage(rest@),
{
    let parts = split_at_char(rest, '/');
    assert(texts(parts@).len() == parts@.len());
    if parts.len() < 2 {
        return None;
    }
    assert(texts(parts@)[1] == parts@[1]@);
    let t = trimmed(parts[1].as_str());
    match before_suffix(t.as_str(), "%") {
        Some(v) => if denotes_float(v.as_str()) {
            Some(v)
        } else {
            None
        },
        None => None,
    }
}

fn describe(d: &mut AudioDevice, t: &str)
    ensures
        final(d)@ == described(old(d)@, t@),
{
    proof {
        reveal_strlit("yes");
        assert(lower_all("yes"@) =~= "yes"@);
    }
    if let Some(rest) = after_prefix(t, "Volume:") {
        if let Some(v) = read_percentage(rest.as_str()) {
            d.volume = Volume::Percent(v);
        }
        return ;
    }
    if has_prefix(t, "*") && has_text(t, "index:") {
        d.is_default = true;
        return ;
    }
    if let Some(p) = cut_text(t, ": ") {
        let key = drop_colons(p.0.as_str());
        let value = trimmed(p.1.as_str());
        if same(key.as_str(), "Name") {
            d.name = value;
        } else if same(key.as_str(), "Description") {
            d.description = value;
        } else if same(key.as_str(), "Mute") {
            d.muted = same_ignoring_case(value.as_str(), "yes");
        }
    }
}

fn keep(devices: &mut Vec<AudioDevice>, current: Option<AudioDevice>)
    ensures
        views(final(devices)@) == with_device(
            views(old(devices)@),
            crate::types::opt_view(current),
        ),
{
    broadcast use lemma_views_push;

    if let Some(d) = current {
        if !d.name.as_str().is_empty() {
            devices.push(d);
        }
    }
}

/// The first device called `name`.
pub open spec fn device_called(ds: Seq<DeviceView>, name: Seq<char>) -> Option<DeviceView>
    decreases ds.len(),
{
    if ds.len() == 0 {
        None
    } else if ds[0].name == name {
        Some(ds[0])
    } else {
        device_called(ds.skip(1), name)
    }
}

/// How loud it is: what is known of the default sink, which is named in the
/// information on the server and described in the list of sinks.
pub open spec fn state_in(info: Seq<char>, sinks: Seq<char>) -> AudioView {
    let ds = devices_in(sinks, AudioDeviceType::Sink);
    let found = match labelled_sink(lines(info)) {
        Some(name) => device_called(ds, trim(name)),
        None => None,
    };
    match found {
        Some(d) => AudioView { volume: d.volume, muted: d.muted, default_sink: d.name },
        None => AudioView {
            volume: VolumeView::Unknown,
            muted: false,
            default_sink: match default_sink_in(lines(info)) {
                Some(s) => s,
                None => Seq::empty(),
            },
        },
    }
}

/// The name holds white space.
pub open spec fn has_white(s: Seq<char>) -> bool {
    exists|i: int| 0 <= i < s.len() && is_white(#[trigger] s[i])
}

fn holds_white(s: &str) -> (r: bool)
    ensures
        r == has_white(s@),
{
    let v = chars_of(s);
    let mut i: usize = 0;
    while i < v.len()
        invariant
            i <= v.len(),
            v@ == s@,
            forall|j: int| 0 <= j < i ==> !is_white(#[trigger] s@[j]),
        decreases v.len() - i,
    {
        if white(v[i]) {
            assert(is_white(s@[i as int]));
            return true;
        }
        i = i + 1;
    }
    false
}

/// The names of the channels that work.
pub open spec fn report(c: ChannelsView) -> Seq<char> {
    match (c.pactl, c.dbus) {
        (true, Some(true)) => "pactl-cli+org.pulseaudio.Server"@,
        (true, _) => "pactl-cli"@,
        (false, Some(true)) => "org.pulseaudio.Server"@,
        (false, _) => "unavailable"@,
    }
}

impl PulseAudioAudioServer {
    /// Nothing is known of the channels yet.
    pub fn new() -> (r: PulseAudioAudioServer)
        ensures
            r@ == (ChannelsView { pactl: false, dbus: None }),
    {
        PulseAudioAudioServer { pactl: false, dbus: None }
    }

    /// Whether the tool has to be looked for.
    pub fn pactl_wanted(&self) -> (r: bool)
        ensures
            r == !self@.pactl,
    {
        !self.pactl
    }

    /// Whether the tool is there. `found` is what looking for it gave; once found
    /// it stays.
    pub fn pactl_available(&mut self, found: bool) -> (r: bool)
        ensures
            final(self)@ == (ChannelsView { pactl: old(self)@.pactl || found, ..old(self)@ }),
            r == final(self)@.pactl,
    {
        if found {
            self.pactl = true;
        }
        self.pactl
    }

    /// Whether the server has to be looked for on the message bus.
    pub fn dbus_wanted(&self) -> (r: bool)
        ensures
            r == (self@.dbus is None),
    {
        self.dbus.is_none()
    }

    /// Whether the server is on the message bus. `found` is what looking for it
    /// gave; only the first time counts, whatever it gave.
    pub fn dbus_service_exists(&mut self, found: bool) -> (r: bool)
        ensures
            final(self)@ == (ChannelsView {
                dbus: match old(self)@.dbus {
                    Some(b) => Some(b),
                    None => Some(found),
                },
                ..old(self)@
            }),
            final(self)@.dbus == Some(r),
    {
        match self.dbus {
            Some(b) => b,
            None => {
                self.dbus = Some(found);
                found
            },
        }
    }

    /// The names of the channels that work.
    pub fn channel_report(&self) -> (r: &'static str)
        ensures
            r@ == report(self@),
    {
        match (self.pactl, self.dbus) {
            (true, Some(true)) => "pactl-cli+org.pulseaudio.Server",
            (true, _) => "pactl-cli",
            (false, Some(true)) => "org.pulseaudio.Server",
            (false, _) => "unavailable",
        }
    }

    /// Whether the tool was found.
    pub fn is_available(&self) -> (r: bool)
        ensures
            r == self@.pactl,
    {
        self.pactl
    }

    /// How well the component works, once the tool has been looked for.
    pub fn health(&self) -> (r: ComponentHealth)
        ensures
            r@ == (if self@.pactl {
                HealthView::Healthy
            } else {
                HealthView::Unavailable
            }),
    {
        if self.pactl {
            ComponentHealth::Healthy
        } else {
            ComponentHealth::Unavailable
        }
    }

    /// Whether the tool can be run at all: it must be there, and it must know
    /// where the server is.
    pub fn check(&self, runtime_dir_set: bool) -> (r: Result<(), AgentShellError>)
        ensures
            unit_view(r) == (if !self@.pactl {
                Err::<(), ErrorView>(
                    ErrorView::BackendUnavailable(
                        "pactl not found (no PulseAudio/pipewire-pulse server)"@,
                    ),
                )
            } else if !runtime_dir_set {
                Err::<(), ErrorView>(
                    ErrorView::BackendUnavailable(
                        "XDG_RUNTIME_DIR unset: cannot locate PulseAudio runtime socket"@,
                    ),
                )
            } else {
                Ok::<(), ErrorView>(())
            }),
    {
        if !self.pactl {
            return Err(
                AgentShellError::BackendUnavailable(
                    owned("pactl not found (no PulseAudio/pipewire-pulse server)"),
                ),
            );
        }
        if !runtime_dir_set {
            return Err(
                AgentShellError::BackendUnavailable(
                    owned("XDG_RUNTIME_DIR unset: cannot locate PulseAudio runtime socket"),
                ),
            );
        }
        Ok(())
    }

    /// What the tool wrote, or what went wrong.
    pub fn run_pactl(verb: &str, o: &ToolOutcome) -> (r: Result<String, AgentShellError>)
        ensures
            match r {
                Ok(s) => tool_text("pactl"@, verb@, *o) == Ok::<Seq<char>, ErrorView>(s@),
                Err(e) => tool_text("pactl"@, verb@, *o) == Err::<Seq<char>, ErrorView>(e@),
            },
    {
        tool_output("pactl", verb, o)
    }

    /// The default sink in the information on the server.
    pub fn parse_default_sink(info: &str) -> (r: Option<String>)
        ensures
            opt_text(r) == default_sink_in(lines(info@)),
    {
        let all = lines_of(info);
        let ghost ls = lines(info@);
        let mut i: usize = 0;
        assert(ls.skip(0) =~= ls);
        while i < all.len()
            invariant
                i <= all.len(),
                texts(all@) == ls,
                ls == lines(info@),
                default_sink_in(ls) == default_sink_in(ls.skip(i as int)),
            decreases all.len() - i,
        {
            assert(ls[i as int] == all@[i as int]@);
            if let Some(p) = cut(all[i].as_str(), ':') {
                let key = trimmed(p.0.as_str());
                let value = trimmed(p.1.as_str());
                if same(key.as_str(), "Default Sink") && !value.as_str().is_empty() {
                    return Some(value);
                }
            }
            assert(ls.skip(i as int).skip(1) =~= ls.skip(i as int + 1));
            i = i + 1;
        }
        None
    }

    /// The devices that a list describes.
    pub fn parse_devices(output: &str, device_type: AudioDeviceType) -> (r: Vec<AudioDevice>)
        ensures
            views(r@) == devices_in(output@, device_type),
    {
        let all = lines_of(output);
        let ghost ls = lines(output@);
        let head = match device_type {
            AudioDeviceType::Sink => "Sink #",
            AudioDeviceType::Source => "Source #",
        };
        let mut devices: Vec<AudioDevice> = Vec::new();
        let mut current: Option<AudioDevice> = None;
        let mut i: usize = 0;
        assert(views(devices@) =~= Seq::<DeviceView>::empty());
        while i < all.len()
            invariant
                i <= all.len(),
                texts(all@) == ls,
                head@ == header(device_type),
                (views(devices@), crate::types::opt_view(current)) == devices_so_far(
                    ls.take(i as int),
                    device_type,
                ),
            decreases all.len() - i,
        {
            let ghost now = ls.take(i as int + 1);
            assert(now.drop_last() =~= ls.take(i as int));
            assert(now.last() == all@[i as int]@);
            let t = trimmed(all[i].as_str());
            if has_prefix(t.as_str(), head) {
                keep(&mut devices, current);
                let fresh = AudioDevice {
                    name: String::new(),
                    description: String::new(),
                    volume: Volume::Unknown,
                    muted: false,
                    is_default: false,
                    device_type,
                };
                assert(fresh@ =~= blank(device_type));
                current = Some(fresh);
            } else if let Some(d) = current {
                let mut d = d;
                describe(&mut d, t.as_str());
                current = Some(d);
            }
            i = i + 1;
        }
        assert(ls.take(i as int) =~= ls);
        keep(&mut devices, current);
        devices
    }

    /// How loud it is, by the information on the server and the list of sinks.
    pub fn get_volume(info: &str, sinks: &str) -> (r: AudioState)
        ensures
            r@ == state_in(info@, sinks@),
    {
        let devices = PulseAudioAudioServer::parse_devices(sinks, AudioDeviceType::Sink);
        let ghost ds = views(devices@);
        let name = labelled(info);
        if let Some(name) = name {
            let name = trimmed(name.as_str());
            let mut i: usize = 0;
            assert(ds.skip(0) =~= ds);
            while i < devices.len()
                invariant
                    i <= devices.len(),
                    ds == views(devices@),
                    device_called(ds, name@) == device_called(ds.skip(i as int), name@),
                    ds == devices_in(sinks@, AudioDeviceType::Sink),
                    labelled_sink(lines(info@)) matches Some(n) && trim(n) == name@,
                decreases devices.len() - i,
            {
                let d = &devices[i];
                assert(ds[i as int] == d@);
                if same(d.name.as_str(), name.as_str()) {
                    return AudioState {
                        volume: d.volume.clone(),
                        muted: d.muted,
                        default_sink: d.name.clone(),
                    };
                }
                assert(ds.skip(i as int).skip(1) =~= ds.skip(i as int + 1));
                i = i + 1;
            }
        }
        let default_sink = match PulseAudioAudioServer::parse_default_sink(info) {
            Some(s) => s,
            None => String::new(),
        };
        AudioState { volume: Volume::Unknown, muted: false, default_sink }
    }

    /// The devices of both kinds, the sinks first.
    pub fn list_audio_devices(sinks: &str, sources: &str) -> (r: Vec<AudioDevice>)
        ensures
            views(r@) == devices_in(sinks@, AudioDeviceType::Sink) + devices_in(
                sources@,
                AudioDeviceType::Source,
            ),
    {
        let mut out = PulseAudioAudioServer::parse_devices(sinks, AudioDeviceType::Sink);
        let mut more = PulseAudioAudioServer::parse_devices(sources, AudioDeviceType::Source);
        let ghost a = out@;
        let ghost b = more@;
        out.append(&mut more);
        assert(views(a + b) =~= views(a) + views(b));
        out
    }

    /// The arguments for a volume in percent.
    pub fn set_volume(percent: u32) -> (r: Vec<String>)
        ensures
            texts(r@) == seq![
                "set-sink-volume"@,
                DEFAULT_SINK@,
                dec(percent as nat) + "%"@,
            ],
    {
        let level = dec_of(percent as u64);
        let mut args: Vec<String> = Vec::new();
        args.push(owned("set-sink-volume"));
        args.push(owned(DEFAULT_SINK));
        args.push(cat(level.as_str(), "%"));
        assert(texts(args@) =~= seq![
            "set-sink-volume"@,
            DEFAULT_SINK@,
            dec(percent as nat) + "%"@,
        ]);
        args
    }

    /// The arguments for switching the sound off or on.
    pub fn set_mute(muted: bool) -> (r: Vec<String>)
        ensures
            texts(r@) == seq![
                "set-sink-mute"@,
                DEFAULT_SINK@,
                if muted {
                    "1"@
                } else {
                    "0"@
                },
            ],
    {
        let mut args: Vec<String> = Vec::new();
        args.push(owned("set-sink-mute"));
        args.push(owned(DEFAULT_SINK));
        args.push(owned(switch_word(muted)));
        assert(texts(args@) =~= seq![
            "set-sink-mute"@,
            DEFAULT_SINK@,
            if muted {
                "1"@
            } else {
                "0"@
            },
        ]);
        args
    }

    /// The arguments for another default sink; its name must be one word.
    pub fn set_default_sink(sink_name: &str) -> (r: Result<Vec<String>, AgentShellError>)
        ensures
            if sink_name@.len() == 0 || has_white(sink_name@) {
                r matches Err(e) && e@ == ErrorView::DBus(
                    "invalid sink name: "@ + debug_text(sink_name@),
                )
            } else {
                r matches Ok(v) && texts(v@) == seq!["set-default-sink"@, sink_name@]
            },
    {
        if sink_name.is_empty() || holds_white(sink_name) {
            let shown = debug_of(sink_name);
            return Err(AgentShellError::DBus(cat("invalid sink name: ", shown.as_str())));
        }
        let mut args: Vec<String> = Vec::new();
        args.push(owned("set-default-sink"));
        args.push(owned(sink_name));
        assert(texts(args@) =~= seq!["set-default-sink"@, sink_name@]);
        Ok(args)
    }
}

fn labelled(info: &str) -> (r: Option<String>)
    ensures
        opt_text(r) == labelled_sink(lines(info@)),
{
    let all = lines_of(info);
    let ghost ls = lines(info@);
    let mut i: usize = 0;
    assert(ls.skip(0) =~= ls);
    while i < all.len()
        invariant
            i <= all.len(),
            texts(all@) == ls,
            ls == lines(info@),
            labelled_sink(ls) == labelled_sink(ls.skip(i as int)),
        decreases all.len() - i,
    {
        assert(ls[i as int] == all@[i as int]@);
        if let Some(s) = after_prefix(all[i].as_str(), "Default Sink: ") {
            return Some(s);
        }
        assert(ls.skip(i as int).skip(1) =~= ls.skip(i as int + 1));
        i = i + 1;
    }
    None
}

/// No device without a name is ever listed.
pub proof fn law_listed_devices_have_names(text: Seq<char>, kind: AudioDeviceType)
    ensures
        forall|i: int|
            0 <= i < devices_in(text, kind).len() ==> (#[trigger] devices_in(text, kind)[i]).name.len()
                > 0,
        forall|i: int|
            0 <= i < devices_in(text, kind).len() ==> (#[trigger] devices_in(
                text,
                kind,
            )[i]).device_type == kind,
{
    lemma_devices(lines(text), kind);
}

proof fn lemma_devices(ls: Seq<Seq<char>>, kind: AudioDeviceType)
    ensures
        forall|i: int|
            0 <= i < devices_so_far(ls, kind).0.len() ==> {
                let d = #[trigger] devices_so_far(ls, kind).0[i];
                d.name.len() > 0 && d.device_type == kind
            },
        devices_so_far(ls, kind).1 matches Some(d) ==> d.device_type == kind,
    decreases ls.len(),
{
    if ls.len() > 0 {
        lemma_devices(ls.drop_last(), kind);
    }
}

} // verus!

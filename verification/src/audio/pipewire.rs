//! PipeWire, through the command line tool `wpctl`.

use vstd::prelude::*;

use crate::audio::{
    denotes_float, is_float, switch_word, tool_output, tool_text, AudioDevice, AudioDeviceType,
    AudioState, AudioView, DeviceView, ToolOutcome, Volume, VolumeView,
};
use crate::text::{
    after_prefix, begins, cat, chars_of, contains, cut, drop_leading, has_prefix, has_text,
    is_digit, is_white, lines, lines_of, lower_all, opt_text, owned, piece, same_ignoring_case,
    split, split_at_char, split_once, strip_prefix, texts, trim, trim_end, trim_start, trimmed,
    trimmed_start, white, without_leading, words, words_of,
};
use crate::types::{
    lemma_views_push, opt_view, unit_view, views, AgentShellError, ComponentHealth, ErrorView,
    HealthView,
};

verus! {

/// The tool's name for the default sink.
pub const DEFAULT_SINK: &'static str = "@DEFAULT_AUDIO_SINK@";

/// The tool's name for the default source.
pub const DEFAULT_SOURCE: &'static str = "@DEFAULT_AUDIO_SOURCE@";

/// Whether the tool is there.
#[derive(Clone, Copy, Debug, PartialEq, Eq, Structural)]
pub enum Probe {
    Unknown,
    Available,
    Missing,
}

impl Probe {
    pub fn is_available(self) -> (r: bool)
        ensures
            r == (self == Probe::Available),
    {
        self == Probe::Available
    }
}

/// The sound server PipeWire.
#[derive(Debug)]
pub struct PipeWireAudioServer {
    probe: Probe,
}

// ---------------------------------------------------------------------------
// The volume
// ---------------------------------------------------------------------------
/// `s` without any square brackets at either end.
pub open spec fn unbracketed(s: Seq<char>) -> Seq<char>
    decreases s.len(),
{
    if s.len() > 0 && (s[0] == '[' || s[0] == ']') {
        unbracketed(s.skip(1))
    } else if s.len() > 0 && (s.last() == '[' || s.last() == ']') {
        unbracketed(s.drop_last())
    } else {
        s
    }
}

/// The word says that the sound is off.
pub open spec fn says_muted(word: Seq<char>) -> bool {
    lower_all(unbracketed(word)) == "muted"@
}

/// The last of the words that denotes a number.
pub open spec fn last_number(ws: Seq<Seq<char>>) -> Option<Seq<char>>
    decreases ws.len(),
{
    if ws.len() == 0 {
        None
    } else if is_float(ws.last()) {
        Some(ws.last())
    } else {
        last_number(ws.drop_last())
    }
}

/// The volume and whether the sound is off, in what the tool prints of a volume.
pub open spec fn volume_in(output: Seq<char>) -> Option<(Seq<char>, bool)> {
    let ws = words(output);
    match last_number(ws) {
        None => None,
        Some(v) => Some(
            (v, exists|i: int| 0 <= i < ws.len() && !is_float(ws[i]) && says_muted(#[trigger] ws[i])),
        ),
    }
}

fn strip_brackets(s: &str) -> (r: String)
    ensures
        r@ == unbracketed(s@),
{
    let v = chars_of(s);
    let mut a: usize = 0;
    let mut b: usize = v.len();
    assert(v@.subrange(0, b as int) =~= s@);
    while a < b && (v[a] == '[' || v[a] == ']')
        invariant
            a <= b == v.len(),
            v@ == s@,
            unbracketed(s@) == unbracketed(v@.subrange(a as int, b as int)),
        decreases b - a,
    {
        assert(v@.subrange(a as int, b as int).skip(1) =~= v@.subrange(a + 1, b as int));
        a = a + 1;
    }
    while a < b && (v[b - 1] == '[' || v[b - 1] == ']')
        invariant
            a <= b <= v.len(),
            v@ == s@,
            a < b ==> v@[a as int] != '[' && v@[a as int] != ']',
            unbracketed(s@) == unbracketed(v@.subrange(a as int, b as int)),
        decreases b - a,
    {
        assert(v@.subrange(a as int, b as int).drop_last() =~= v@.subrange(a as int, b - 1));
        b = b - 1;
    }
    assert(unbracketed(s@) == v@.subrange(a as int, b as int));
    piece(&v, a, b)
}

fn is_muted_word(word: &str) -> (r: bool)
    ensures
        r == says_muted(word@),
{
    let t = strip_brackets(word);
    proof {
        reveal_strlit("muted");
        assert(lower_all("muted"@) =~= "muted"@);
    }
    same_ignoring_case(t.as_str(), "muted")
}

// ---------------------------------------------------------------------------
// The tree of objects
// ---------------------------------------------------------------------------
/// `c` draws a branch of the tree.
pub open spec fn is_branch(c: char) -> bool {
    c == '│' || c == '├' || c == '└' || c == '─'
}

/// `line` without leading white space and branches of the tree.
pub open spec fn without_branches(line: Seq<char>) -> Seq<char>
    decreases line.len(),
{
    if line.len() > 0 && (is_white(line[0]) || is_branch(line[0])) {
        without_branches(line.skip(1))
    } else {
        line
    }
}

/// The line begins like an entry of a list: with its mark, its number, or a
/// branch that goes on below it.
pub open spec fn is_entry(t: Seq<char>) -> bool {
    t.len() > 0 && (t[0] == '*' || is_digit(t[0]) || t[0] == '│')
}

/// The line ends the list of sinks: it is the title of another list. An entry is
/// no title, whatever its tags hold.
pub open spec fn ends_sinks(line: Seq<char>) -> bool {
    let t = trim_start(line);
    ||| begins(t, "Sources:"@)
    ||| !is_entry(t) && ends_in_colon(trim(t))
}

/// The last character is a colon.
pub open spec fn ends_in_colon(t: Seq<char>) -> bool {
    t.len() > 0 && t.last() == ':'
}

/// `s` without leading blanks and points.
pub open spec fn without_blanks_and_points(s: Seq<char>) -> Seq<char>
    decreases s.len(),
{
    if s.len() > 0 && (s[0] == ' ' || s[0] == '.') {
        without_blanks_and_points(s.skip(1))
    } else {
        s
    }
}

/// The name in a line such as `* 42. Name [vol: 0.50]`, with or without branches
/// of the tree in front.
pub open spec fn starred_name(line: Seq<char>) -> Option<Seq<char>> {
    match strip_prefix(without_branches(line), "*"@) {
        None => None,
        Some(rest) => {
            let rest = without_blanks_and_points(rest);
            let tail = match split_once(rest, '.') {
                Some(p) => p.1,
                None => rest,
            };
            Some(trim(split(tail, '[')[0]))
        },
    }
}

/// The default sink in the lines of the list of sinks, or the empty text.
pub open spec fn sink_among(ls: Seq<Seq<char>>) -> Seq<char>
    decreases ls.len(),
{
    if ls.len() == 0 {
        Seq::empty()
    } else if contains(ls[0], "Sinks:"@) {
        sink_among(ls.skip(1))
    } else if ends_sinks(ls[0]) {
        Seq::empty()
    } else {
        match starred_name(ls[0]) {
            Some(name) => if name.len() > 0 {
                name
            } else {
                sink_among(ls.skip(1))
            },
            None => sink_among(ls.skip(1)),
        }
    }
}

/// The default sink: the marked line of the first list of sinks, wherever it stands
/// in the list.
pub open spec fn default_sink_in(ls: Seq<Seq<char>>) -> Seq<char>
    decreases ls.len(),
{
    if ls.len() == 0 {
        Seq::empty()
    } else if contains(ls[0], "Sinks:"@) {
        sink_among(ls.skip(1))
    } else {
        default_sink_in(ls.skip(1))
    }
}

fn drop_blanks_and_points(s: &str) -> (r: String)
    ensures
        r@ == without_blanks_and_points(s@),
{
    let v = chars_of(s);
    let mut a: usize = 0;
    assert(s@.skip(0) =~= s@);
    while a < v.len() && (v[a] == ' ' || v[a] == '.')
        invariant
            a <= v.len(),
            v@ == s@,
            without_blanks_and_points(s@) == without_blanks_and_points(s@.skip(a as int)),
        decreases v.len() - a,
    {
        assert(s@.skip(a as int).skip(1) =~= s@.skip(a as int + 1));
        a = a + 1;
    }
    assert(without_blanks_and_points(s@) == s@.skip(a as int));
    assert(s@.skip(a as int) =~= v@.subrange(a as int, v.len() as int));
    piece(&v, a, v.len())
}

fn drop_branches(line: &str) -> (r: String)
    ensures
        r@ == without_branches(line@),
{
    let v = chars_of(line);
    let mut a: usize = 0;
    assert(line@.skip(0) =~= line@);
    while a < v.len() && (white(v[a]) || v[a] == '│' || v[a] == '├' || v[a] == '└' || v[a] == '─')
        invariant
            a <= v.len(),
            v@ == line@,
            without_branches(line@) == without_branches(line@.skip(a as int)),
        decreases v.len() - a,
    {
        assert(line@.skip(a as int).skip(1) =~= line@.skip(a as int + 1));
        a = a + 1;
    }
    assert(without_branches(line@) == line@.skip(a as int));
    assert(line@.skip(a as int) =~= v@.subrange(a as int, v.len() as int));
    piece(&v, a, v.len())
}

fn is_end_of_sinks(line: &str) -> (r: bool)
    ensures
        r == ends_sinks(line@),
{
    let t = trimmed_start(line);
    if has_prefix(t.as_str(), "Sources:") {
        return true;
    }
    let v = chars_of(t.as_str());
    if v.len() > 0 && (v[0] == '*' || ('0' <= v[0] && v[0] <= '9') || v[0] == '│') {
        return false;
    }
    let whole = trimmed(t.as_str());
    let w = chars_of(whole.as_str());
    w.len() > 0 && w[w.len() - 1] == ':'
}

fn name_in_starred(line: &str) -> (r: Option<String>)
    ensures
        opt_text(r) == starred_name(line@),
{
    let t = drop_branches(line);
    let rest = match after_prefix(t.as_str(), "*") {
        Some(rest) => drop_blanks_and_points(rest.as_str()),
        None => return None,
    };
    let tail = match cut(rest.as_str(), '.') {
        Some(p) => p.1,
        None => rest,
    };
    let parts = split_at_char(tail.as_str(), '[');
    assert(texts(parts@)[0] == parts@[0]@);
    Some(trimmed(parts[0].as_str()))
}

/// A tag such as `vol: 0.52` or `MUTED`: what stands behind the last opening
/// bracket.
pub open spec fn tag_in(part: Seq<char>) -> Seq<char> {
    trim(behind_bracket(trim_end(part)))
}

/// What stands behind the last opening bracket, or all of it.
pub open spec fn behind_bracket(s: Seq<char>) -> Seq<char>
    decreases s.len(),
{
    if s.len() == 0 {
        s
    } else if s.last() == '[' {
        Seq::empty()
    } else {
        behind_bracket(s.drop_last()).push(s.last())
    }
}

/// The volume in the last tag with one.
pub open spec fn tagged_volume(parts: Seq<Seq<char>>) -> Option<Seq<char>>
    decreases parts.len(),
{
    if parts.len() == 0 {
        None
    } else {
        match strip_prefix(tag_in(parts.last()), "vol:"@) {
            Some(v) => Some(trim(v)),
            None => tagged_volume(parts.drop_last()),
        }
    }
}

/// One of the tags says that the sound is off.
pub open spec fn tagged_muted(parts: Seq<Seq<char>>) -> bool {
    exists|i: int| 0 <= i < parts.len() && lower_all(tag_in(#[trigger] parts[i])) == "muted"@
}

fn tag_of(part: &str) -> (r: String)
    ensures
        r@ == tag_in(part@),
{
    let v = chars_of(part);
    let mut b: usize = v.len();
    assert(part@.take(b as int) =~= part@);
    while b > 0 && white(v[b - 1])
        invariant
            b <= v.len(),
            v@ == part@,
            trim_end(part@) == trim_end(part@.take(b as int)),
        decreases b,
    {
        assert(part@.take(b as int).drop_last() =~= part@.take(b - 1));
        b = b - 1;
    }
    let ghost s = part@.take(b as int);
    assert(trim_end(part@) == s);
    let mut a: usize = b;
    assert(s.take(b as int) =~= s);
    assert(behind_bracket(s) =~= behind_bracket(s.take(b as int)) + s.skip(b as int));
    while a > 0 && v[a - 1] != '['
        invariant
            a <= b <= v.len(),
            v@ == part@,
            s == part@.take(b as int),
            behind_bracket(s) == behind_bracket(s.take(a as int)) + s.skip(a as int),
        decreases a,
    {
        let ghost now = s.take(a as int);
        assert(now.drop_last() =~= s.take(a - 1));
        assert(now.last() == v@[a - 1]);
        assert(behind_bracket(now.drop_last()).push(now.last()) + s.skip(a as int)
            =~= behind_bracket(s.take(a - 1)) + s.skip(a - 1));
        a = a - 1;
    }
    assert(behind_bracket(s.take(a as int)) =~= Seq::<char>::empty());
    assert(behind_bracket(s) =~= v@.subrange(a as int, b as int));
    let t = piece(&v, a, b);
    trimmed(t.as_str())
}

/// The volume and whether the sound is off, in the tags of an entry. A volume
/// that is no number counts as silence.
pub fn parse_status_tags(bracket: &str) -> (r: (Option<String>, bool))
    ensures
        opt_text(r.0) == tagged_volume(split(bracket@, ']')),
        r.1 == tagged_muted(split(bracket@, ']')),
{
    proof {
        reveal_strlit("muted");
        assert(lower_all("muted"@) =~= "muted"@);
    }
    let parts = split_at_char(bracket, ']');
    let ghost all = split(bracket@, ']');
    let mut volume: Option<String> = None;
    let mut muted = false;
    let mut i: usize = 0;
    while i < parts.len()
        invariant
            i <= parts.len(),
            texts(parts@) == all,
            lower_all("muted"@) == "muted"@,
            opt_text(volume) == tagged_volume(all.take(i as int)),
            muted == tagged_muted(all.take(i as int)),
        decreases parts.len() - i,
    {
        let ghost had = all.take(i as int);
        let ghost now = all.take(i as int + 1);
        assert(now.drop_last() =~= had);
        assert(now.last() == parts@[i as int]@);
        let tag = tag_of(parts[i].as_str());
        if let Some(v) = after_prefix(tag.as_str(), "vol:") {
            volume = Some(trimmed(v.as_str()));
        }
        let is_muted = same_ignoring_case(tag.as_str(), "muted");
        proof {
            if tagged_muted(had) {
                let k = choose|k: int|
                    0 <= k < had.len() && lower_all(tag_in(#[trigger] had[k])) == "muted"@;
                assert(now[k] == had[k]);
            }
            if tagged_muted(now) && !is_muted {
                let k = choose|k: int|
                    0 <= k < now.len() && lower_all(tag_in(#[trigger] now[k])) == "muted"@;
                assert(k < had.len());
                assert(had[k] == now[k]);
            }
            if is_muted {
                assert(lower_all(tag_in(now[i as int])) == "muted"@);
            }
        }
        if is_muted {
            muted = true;
        }
        i = i + 1;
    }
    assert(all.take(i as int) =~= all);
    (volume, muted)
}

/// The view of a volume in a tag.
pub open spec fn tag_volume(o: Option<Seq<char>>) -> VolumeView {
    match o {
        Some(t) => VolumeView::Fraction(t),
        None => VolumeView::Unknown,
    }
}

/// The device that an entry of the list describes, without the branches in front
/// of it.
pub open spec fn entry_in(bare: Seq<char>, kind: AudioDeviceType) -> Option<DeviceView> {
    let entry = trim_start(without_leading(bare, '*'));
    match split_once(entry, '.') {
        None => None,
        Some(p) => {
            let meta = p.1;
            let (name, bracket) = match split_once(meta, '[') {
                Some(q) => (trim(q.0), q.1),
                None => (trim(meta), Seq::empty()),
            };
            if name.len() == 0 {
                None
            } else {
                Some(
                    DeviceView {
                        name,
                        description: name,
                        volume: tag_volume(tagged_volume(split(bracket, ']'))),
                        muted: tagged_muted(split(bracket, ']')),
                        is_default: begins(bare, "*"@),
                        device_type: kind,
                    },
                )
            }
        },
    }
}

/// The line belongs to no list of devices.
pub open spec fn outside_list(trimmed: Seq<char>) -> bool {
    ||| trimmed.len() == 0
    ||| !contains(trimmed, "│"@) && !begins(trimmed, "*"@) && !is_digit(trimmed[0])
}

/// Which list of devices the last line stands in, and the devices of all lines.
pub open spec fn devices_in(ls: Seq<Seq<char>>) -> (Option<AudioDeviceType>, Seq<DeviceView>)
    decreases ls.len(),
{
    if ls.len() == 0 {
        (None, Seq::empty())
    } else {
        let (section, devices) = devices_in(ls.drop_last());
        let bare = without_branches(ls.last());
        if begins(bare, "Sinks:"@) {
            (Some(AudioDeviceType::Sink), devices)
        } else if begins(bare, "Sources:"@) {
            (Some(AudioDeviceType::Source), devices)
        } else {
            match section {
                None => (None, devices),
                Some(kind) => if outside_list(trim_start(ls.last())) {
                    (None, devices)
                } else {
                    match entry_in(bare, kind) {
                        Some(d) => (section, devices.push(d)),
                        None => (section, devices),
                    }
                },
            }
        }
    }
}

fn read_entry(bare: &str, kind: AudioDeviceType) -> (r: Option<AudioDevice>)
    ensures
        opt_view(r) == entry_in(bare@, kind),
{
    let unstarred = drop_leading(bare, '*');
    let entry = trimmed_start(unstarred.as_str());
    let meta = match cut(entry.as_str(), '.') {
        Some(p) => p.1,
        None => return None,
    };
    let (name, bracket) = match cut(meta.as_str(), '[') {
        Some(q) => (trimmed(q.0.as_str()), q.1),
        None => (trimmed(meta.as_str()), String::new()),
    };
    assert(bracket@ =~= (match split_once(meta@, '[') {
        Some(q) => q.1,
        None => Seq::empty(),
    }));
    if name.as_str().is_empty() {
        return None;
    }
    let (volume, muted) = parse_status_tags(bracket.as_str());
    Some(
        AudioDevice {
            description: name.clone(),
            name,
            volume: match volume {
                Some(t) => Volume::Fraction(t),
                None => Volume::Unknown,
            },
            muted,
            is_default: has_prefix(bare, "*"),
            device_type: kind,
        },
    )
}

fn is_outside_list(t: &str) -> (r: bool)
    ensures
        r == outside_list(t@),
{
    let v = chars_of(t);
    v.len() == 0 || (!has_text(t, "│") && !has_prefix(t, "*") && !('0' <= v[0] && v[0] <= '9'))
}

/// How loud it is, by what the tool prints of the volume and of its objects. The
/// latter only gives the sink its name; without it the tool's own name stands.
pub open spec fn state_in(volume: Seq<char>, status: Option<Seq<char>>) -> Result<
    AudioView,
    ErrorView,
> {
    let named = match status {
        Some(s) => default_sink_in(lines(s)),
        None => Seq::empty(),
    };
    match volume_in(volume) {
        None => Err(ErrorView::DBus("wpctl get-volume unparseable: "@ + volume)),
        Some(v) => Ok(
            AudioView {
                volume: VolumeView::Fraction(v.0),
                muted: v.1,
                default_sink: if named.len() == 0 {
                    DEFAULT_SINK@
                } else {
                    named
                },
            },
        ),
    }
}

impl PipeWireAudioServer {
    /// Whether the tool is there, as far as it is known.
    pub closed spec fn known(self) -> Probe {
        self.probe
    }

    /// Nothing is known of the tool yet.
    pub fn new() -> (r: PipeWireAudioServer)
        ensures
            r.known() == Probe::Unknown,
    {
        PipeWireAudioServer { probe: Probe::Unknown }
    }

    /// Whether the tool has to be looked for.
    pub fn probe_wanted(&self) -> (r: bool)
        ensures
            r == (self.known() == Probe::Unknown),
    {
        self.probe == Probe::Unknown
    }

    /// Whether the tool is there. `found` is what looking for it gave; only the
    /// first time counts.
    pub fn available(&mut self, found: bool) -> (r: bool)
        ensures
            old(self).known() != Probe::Unknown ==> final(self).known() == old(self).known(),
            old(self).known() == Probe::Unknown ==> final(self).known() == (if found {
                Probe::Available
            } else {
                Probe::Missing
            }),
            r == (final(self).known() == Probe::Available),
    {
        if self.probe == Probe::Unknown {
            self.probe = if found {
                Probe::Available
            } else {
                Probe::Missing
            };
        }
        self.probe.is_available()
    }

    /// Whether the tool was found to be there.
    pub fn is_available(&self) -> (r: bool)
        ensures
            r == (self.known() == Probe::Available),
    {
        self.probe.is_available()
    }

    /// How well the component works, once the tool has been looked for.
    pub fn health(&self) -> (r: ComponentHealth)
        ensures
            r@ == (if self.known() == Probe::Available {
                HealthView::Healthy
            } else {
                HealthView::Unavailable
            }),
    {
        if self.probe.is_available() {
            ComponentHealth::Healthy
        } else {
            ComponentHealth::Unavailable
        }
    }

    /// Whether the tool can be run at all: it must be there, and it must know
    /// where the server is.
    pub fn check(&self, runtime_dir_set: bool) -> (r: Result<(), AgentShellError>)
        ensures
            unit_view(r) == (if self.known() != Probe::Available {
                Err::<(), ErrorView>(
                    ErrorView::BackendUnavailable(
                        "wpctl not found (PipeWire/WirePlumber stack absent?)"@,
                    ),
                )
            } else if !runtime_dir_set {
                Err::<(), ErrorView>(
                    ErrorView::BackendUnavailable(
                        "XDG_RUNTIME_DIR unset: cannot locate PipeWire runtime socket"@,
                    ),
                )
            } else {
                Ok::<(), ErrorView>(())
            }),
    {
        if !self.probe.is_available() {
            return Err(
                AgentShellError::BackendUnavailable(
                    owned("wpctl not found (PipeWire/WirePlumber stack absent?)"),
                ),
            );
        }
        if !runtime_dir_set {
            return Err(
                AgentShellError::BackendUnavailable(
                    owned("XDG_RUNTIME_DIR unset: cannot locate PipeWire runtime socket"),
                ),
            );
        }
        Ok(())
    }

    /// What the tool wrote, without white space around it, or what went wrong.
    pub fn run_wpctl(verb: &str, o: &ToolOutcome) -> (r: Result<String, AgentShellError>)
        ensures
            match tool_text("wpctl"@, verb@, *o) {
                Ok(s) => r matches Ok(x) && x@ == trim(s),
                Err(e) => r matches Err(x) && x@ == e,
            },
    {
        match tool_output("wpctl", verb, o) {
            Ok(s) => Ok(trimmed(s.as_str())),
            Err(e) => Err(e),
        }
    }

    /// The volume and whether the sound is off, in what the tool prints of a
    /// volume.
    pub fn parse_get_volume(output: &str) -> (r: Option<(String, bool)>)
        ensures
            match r {
                Some(p) => volume_in(output@) == Some((p.0@, p.1)),
                None => volume_in(output@) is None,
            },
    {
        let all = words_of(output);
        let ghost ws = words(output@);
        let mut volume: Option<String> = None;
        let mut muted = false;
        let mut i: usize = 0;
        while i < all.len()
            invariant
                i <= all.len(),
                texts(all@) == ws,
                opt_text(volume) == last_number(ws.take(i as int)),
                muted == exists|j: int|
                    0 <= j < i && !is_float(ws[j]) && says_muted(#[trigger] ws[j]),
            decreases all.len() - i,
        {
            assert(ws.take(i as int + 1).drop_last() =~= ws.take(i as int));
            assert(ws[i as int] == all@[i as int]@);
            let word = all[i].as_str();
            if denotes_float(word) {
                volume = Some(owned(word));
            } else if is_muted_word(word) {
                muted = true;
                assert(says_muted(ws[i as int]));
            }
            i = i + 1;
        }
        assert(ws.take(i as int) =~= ws);
        match volume {
            Some(v) => Some((v, muted)),
            None => None,
        }
    }

    /// The name of the default sink in what the tool prints of its objects, or
    /// the empty text.
    pub fn parse_default_sink(status: &str) -> (r: String)
        ensures
            r@ == default_sink_in(lines(status@)),
    {
        let all = lines_of(status);
        let ghost ls = lines(status@);
        let mut i: usize = 0;
        let mut in_sinks = false;
        assert(ls.skip(0) =~= ls);
        while i < all.len()
            invariant
                i <= all.len(),
                texts(all@) == ls,
                ls == lines(status@),
                !in_sinks ==> default_sink_in(ls) == default_sink_in(ls.skip(i as int)),
                in_sinks ==> default_sink_in(ls) == sink_among(ls.skip(i as int)),
            decreases all.len() - i,
        {
            assert(ls[i as int] == all@[i as int]@);
            assert(ls.skip(i as int).skip(1) =~= ls.skip(i as int + 1));
            let line = all[i].as_str();
            if has_text(line, "Sinks:") {
                in_sinks = true;
            } else if in_sinks {
                if is_end_of_sinks(line) {
                    return String::new();
                }
                if let Some(name) = name_in_starred(line) {
                    if !name.as_str().is_empty() {
                        return name;
                    }
                }
            }
            i = i + 1;
        }
        String::new()
    }

    /// How loud it is, by what the tool prints of the volume and of its objects.
    pub fn get_volume(volume: &str, status: Result<String, AgentShellError>) -> (r: Result<
        AudioState,
        AgentShellError,
    >)
        ensures
            match r {
                Ok(s) => state_in(
                    volume@,
                    match status {
                        Ok(t) => Some(t@),
                        Err(_) => None,
                    },
                ) == Ok::<AudioView, ErrorView>(s@),
                Err(e) => state_in(
                    volume@,
                    match status {
                        Ok(t) => Some(t@),
                        Err(_) => None,
                    },
                ) == Err::<AudioView, ErrorView>(e@),
            },
    {
        let (v, muted) = match PipeWireAudioServer::parse_get_volume(volume) {
            Some(p) => p,
            None => return Err(
                AgentShellError::DBus(cat("wpctl get-volume unparseable: ", volume)),
            ),
        };
        let named = match status {
            Ok(s) => PipeWireAudioServer::parse_default_sink(s.as_str()),
            Err(_) => String::new(),
        };
        let default_sink = if named.as_str().is_empty() {
            owned(DEFAULT_SINK)
        } else {
            named
        };
        Ok(AudioState { volume: Volume::Fraction(v), muted, default_sink })
    }

    /// The devices in what the tool prints of its objects.
    pub fn list_audio_devices(status: &str) -> (r: Vec<AudioDevice>)
        ensures
            views(r@) == devices_in(lines(status@)).1,
    {
        broadcast use lemma_views_push;

        let all = lines_of(status);
        let ghost ls = lines(status@);
        let mut devices: Vec<AudioDevice> = Vec::new();
        let mut section: Option<AudioDeviceType> = None;
        let mut i: usize = 0;
        assert(views(devices@) =~= Seq::<DeviceView>::empty());
        while i < all.len()
            invariant
                i <= all.len(),
                texts(all@) == ls,
                (section, views(devices@)) == devices_in(ls.take(i as int)),
            decreases all.len() - i,
        {
            let ghost now = ls.take(i as int + 1);
            assert(now.drop_last() =~= ls.take(i as int));
            assert(now.last() == all@[i as int]@);
            let t = trimmed_start(all[i].as_str());
            let bare = drop_branches(all[i].as_str());
            if has_prefix(bare.as_str(), "Sinks:") {
                section = Some(AudioDeviceType::Sink);
            } else if has_prefix(bare.as_str(), "Sources:") {
                section = Some(AudioDeviceType::Source);
            } else if let Some(kind) = section {
                if is_outside_list(t.as_str()) {
                    section = None;
                } else if let Some(d) = read_entry(bare.as_str(), kind) {
                    devices.push(d);
                }
            }
            i = i + 1;
        }
        assert(ls.take(i as int) =~= ls);
        devices
    }

    /// The arguments for a volume, which is given as the decimal text of a fraction.
    pub fn set_volume(level: &str) -> (r: Vec<String>)
        ensures
            texts(r@) == seq!["set-volume"@, DEFAULT_SINK@, level@],
    {
        let mut args: Vec<String> = Vec::new();
        args.push(owned("set-volume"));
        args.push(owned(DEFAULT_SINK));
        args.push(owned(level));
        assert(texts(args@) =~= seq!["set-volume"@, DEFAULT_SINK@, level@]);
        args
    }

    /// The arguments for switching the sound off or on.
    pub fn set_mute(muted: bool) -> (r: Vec<String>)
        ensures
            texts(r@) == seq![
                "set-mute"@,
                DEFAULT_SINK@,
                if muted {
                    "1"@
                } else {
                    "0"@
                },
            ],
    {
        let mut args: Vec<String> = Vec::new();
        args.push(owned("set-mute"));
        args.push(owned(DEFAULT_SINK));
        args.push(owned(switch_word(muted)));
        assert(texts(args@) =~= seq![
            "set-mute"@,
            DEFAULT_SINK@,
            if muted {
                "1"@
            } else {
                "0"@
            },
        ]);
        args
    }

    /// The arguments for another default sink; it must have a name.
    pub fn set_default_sink(sink_name: &str) -> (r: Result<Vec<String>, AgentShellError>)
        ensures
            sink_name@.len() == 0 ==> (r matches Err(e) && e@ == ErrorView::DBus(
                "empty sink name"@,
            )),
            sink_name@.len() > 0 ==> (r matches Ok(v) && texts(v@) == seq![
                "set-default"@,
                sink_name@,
            ]),
    {
        if sink_name.is_empty() {
            return Err(AgentShellError::DBus(owned("empty sink name")));
        }
        let mut args: Vec<String> = Vec::new();
        args.push(owned("set-default"));
        args.push(owned(sink_name));
        assert(texts(args@) =~= seq!["set-default"@, sink_name@]);
        Ok(args)
    }
}

/// An entry never ends the list of sinks.
proof fn lemma_entry_is_no_title(line: Seq<char>)
    requires
        is_entry(trim_start(line)),
    ensures
        !ends_sinks(line),
{
    reveal_strlit("Sources:");
    let t = trim_start(line);
    if begins(t, "Sources:"@) {
        assert(t.take("Sources:"@.len() as int)[0] == t[0]);
    }
}

proof fn lemma_marked_among(ls: Seq<Seq<char>>, i: int)
    requires
        0 <= i < ls.len(),
        forall|j: int|
            0 <= j <= i ==> is_entry(trim_start(#[trigger] ls[j])) && !contains(ls[j], "Sinks:"@),
        forall|j: int| 0 <= j < i ==> starred_name(#[trigger] ls[j]) is None,
        starred_name(ls[i]) matches Some(name) && name.len() > 0,
    ensures
        Some(sink_among(ls)) == starred_name(ls[i]),
    decreases i,
{
    lemma_entry_is_no_title(ls[0]);
    if i > 0 {
        let rest = ls.skip(1);
        assert(starred_name(ls[0]) is None);
        assert(rest[i - 1] == ls[i]);
        lemma_marked_among(rest, i - 1);
    }
}

/// The marked entry names the sink wherever it stands among the sinks: whatever
/// entries come before it.
pub proof fn law_marked_entry_names_the_sink(ls: Seq<Seq<char>>, i: int)
    requires
        0 < i < ls.len(),
        contains(ls[0], "Sinks:"@),
        forall|j: int|
            0 < j <= i ==> is_entry(trim_start(#[trigger] ls[j])) && !contains(ls[j], "Sinks:"@),
        forall|j: int| 0 < j < i ==> starred_name(#[trigger] ls[j]) is None,
        starred_name(ls[i]) matches Some(name) && name.len() > 0,
    ensures
        Some(default_sink_in(ls)) == starred_name(ls[i]),
{
    let rest = ls.skip(1);
    assert forall|j: int| 0 <= j <= i - 1 implies is_entry(trim_start(#[trigger] rest[j]))
        && !contains(rest[j], "Sinks:"@) by {
        assert(rest[j] == ls[j + 1]);
    }
    assert forall|j: int| 0 <= j < i - 1 implies starred_name(#[trigger] rest[j]) is None by {
        assert(rest[j] == ls[j + 1]);
    }
    assert(rest[i - 1] == ls[i]);
    lemma_marked_among(rest, i - 1);
}

/// The name of the sink is only an ornament: without it the volume is read all
/// the same, and the sink always has some name.
pub proof fn law_sink_name_never_fails(volume: Seq<char>, status: Option<Seq<char>>)
    ensures
        state_in(volume, status) is Ok <==> state_in(volume, None) is Ok,
        state_in(volume, status) matches Ok(a) ==> a.default_sink.len() > 0,
{
    reveal_strlit("@DEFAULT_AUDIO_SINK@");
}

} // verus!

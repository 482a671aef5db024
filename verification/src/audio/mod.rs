//! The audio component: what the command line tools of the two sound servers say,
//! and which of the channels to the sound is used.
//!
//! Volumes are kept as the decimal texts in which the tools report them.

use vstd::prelude::*;

use crate::text::{
    cat3, chars_of, is_digit, lossy_text, lower_all, piece, same_ignoring_case, text_from_lossy,
    trim, trimmed,
};
use crate::types::{AgentShellError, ErrorView};

pub mod laws;
pub mod pipewire;
pub mod pulseaudio;
pub mod router;

verus! {

/// The name of the component.
pub const COMPONENT_NAME: &'static str = "audio";

/// Where sound goes to or comes from.
#[derive(Clone, Copy, Debug, PartialEq, Eq, Structural)]
pub enum AudioDeviceType {
    Sink,
    Source,
}

/// A reported volume.
#[derive(Debug, PartialEq, Eq)]
pub enum Volume {
    /// None was reported.
    Unknown,
    /// A fraction of the full volume, as it was reported.
    Fraction(String),
    /// A percentage of the full volume, as it was reported.
    Percent(String),
}

/// A reported volume.
#[verifier::ext_equal]
pub enum VolumeView {
    Unknown,
    Fraction(Seq<char>),
    Percent(Seq<char>),
}

impl View for Volume {
    type V = VolumeView;

    open spec fn view(&self) -> VolumeView {
        match *self {
            Volume::Unknown => VolumeView::Unknown,
            Volume::Fraction(t) => VolumeView::Fraction(t@),
            Volume::Percent(t) => VolumeView::Percent(t@),
        }
    }
}

impl Clone for Volume {
    fn clone(&self) -> (r: Volume)
        ensures
            r@ == self@,
    {
        match self {
            Volume::Unknown => Volume::Unknown,
            Volume::Fraction(t) => Volume::Fraction(t.clone()),
            Volume::Percent(t) => Volume::Percent(t.clone()),
        }
    }
}

/// A device for sound.
#[derive(Debug, PartialEq, Eq)]
pub struct AudioDevice {
    pub name: String,
    pub description: String,
    pub volume: Volume,
    pub muted: bool,
    pub is_default: bool,
    pub device_type: AudioDeviceType,
}

/// What is known of a device.
#[verifier::ext_equal]
pub struct DeviceView {
    pub name: Seq<char>,
    pub description: Seq<char>,
    pub volume: VolumeView,
    pub muted: bool,
    pub is_default: bool,
    pub device_type: AudioDeviceType,
}

impl View for AudioDevice {
    type V = DeviceView;

    open spec fn view(&self) -> DeviceView {
        DeviceView {
            name: self.name@,
            description: self.description@,
            volume: self.volume@,
            muted: self.muted,
            is_default: self.is_default,
            device_type: self.device_type,
        }
    }
}

/// How loud it is, and where the sound goes.
#[derive(Debug, PartialEq, Eq)]
pub struct AudioState {
    pub volume: Volume,
    pub muted: bool,
    pub default_sink: String,
}

/// What is known of the sound.
#[verifier::ext_equal]
pub struct AudioView {
    pub volume: VolumeView,
    pub muted: bool,
    pub default_sink: Seq<char>,
}

impl View for AudioState {
    type V = AudioView;

    open spec fn view(&self) -> AudioView {
        AudioView { volume: self.volume@, muted: self.muted, default_sink: self.default_sink@ }
    }
}

// ---------------------------------------------------------------------------
// Decimal fractions
// ---------------------------------------------------------------------------
/// The number of digits at the start.
pub open spec fn leading_digits(s: Seq<char>) -> nat
    decreases s.len(),
{
    if s.len() > 0 && is_digit(s[0]) {
        1 + leading_digits(s.skip(1))
    } else {
        0
    }
}

/// `s` without one leading sign.
pub open spec fn unsigned(s: Seq<char>) -> Seq<char> {
    if s.len() > 0 && (s[0] == '+' || s[0] == '-') {
        s.skip(1)
    } else {
        s
    }
}

/// Digits with at most one point among them, and at least one digit.
pub open spec fn is_plain_decimal(s: Seq<char>) -> bool {
    let n = leading_digits(s);
    let rest = s.skip(n as int);
    ||| n > 0 && rest.len() == 0
    ||| rest.len() > 0 && rest[0] == '.' && {
        let m = leading_digits(rest.skip(1));
        n + m > 0 && m == rest.len() - 1
    }
}

/// The first `e` or `E`, or the length.
pub open spec fn exponent_at(s: Seq<char>) -> nat
    decreases s.len(),
{
    if s.len() == 0 || s[0] == 'e' || s[0] == 'E' {
        0
    } else {
        1 + exponent_at(s.skip(1))
    }
}

/// A decimal number, with or without an exponent.
pub open spec fn is_decimal(s: Seq<char>) -> bool {
    let at = exponent_at(s);
    if at == s.len() {
        is_plain_decimal(s)
    } else {
        let exponent = unsigned(s.skip(at as int + 1));
        &&& is_plain_decimal(s.take(at as int))
        &&& exponent.len() > 0
        &&& leading_digits(exponent) == exponent.len()
    }
}

/// A text that denotes a floating-point number: a decimal number, infinity or not
/// a number, with or without a sign.
pub open spec fn is_float(s: Seq<char>) -> bool {
    let t = unsigned(s);
    ||| is_decimal(t)
    ||| lower_all(t) == "inf"@
    ||| lower_all(t) == "infinity"@
    ||| lower_all(t) == "nan"@
}

fn count_digits(v: &Vec<char>, from: usize, to: usize) -> (r: usize)
    requires
        from <= to <= v@.len(),
    ensures
        r == leading_digits(v@.subrange(from as int, to as int)),
        r <= to - from,
{
    let ghost s = v@.subrange(from as int, to as int);
    let mut i: usize = from;
    assert(s.skip(0) =~= s);
    while i < to && '0' <= v[i] && v[i] <= '9'
        invariant
            from <= i <= to <= v@.len(),
            s == v@.subrange(from as int, to as int),
            leading_digits(s) == (i - from) + leading_digits(s.skip(i - from)),
        decreases to - i,
    {
        assert(s.skip(i - from)[0] == v@[i as int]);
        assert(s.skip(i - from).skip(1) =~= s.skip(i - from + 1));
        i = i + 1;
    }
    assert(i < to ==> s.skip(i - from)[0] == v@[i as int]);
    i - from
}

fn plain_decimal(v: &Vec<char>, from: usize, to: usize) -> (r: bool)
    requires
        from <= to <= v@.len(),
    ensures
        r == is_plain_decimal(v@.subrange(from as int, to as int)),
{
    let ghost s = v@.subrange(from as int, to as int);
    let n: usize = count_digits(v, from, to);
    let ghost rest = s.skip(n as int);
    let at: usize = from + n;
    assert(rest =~= v@.subrange(at as int, to as int));
    if at == to {
        return n > 0;
    }
    if v[at] != '.' {
        assert(rest[0] == v@[at as int]);
        return false;
    }
    let m: usize = count_digits(v, at + 1, to);
    assert(rest.skip(1) =~= v@.subrange(at + 1, to as int));
    n + m > 0 && m == to - at - 1
}

fn decimal(v: &Vec<char>, from: usize) -> (r: bool)
    requires
        from <= v@.len(),
    ensures
        r == is_decimal(v@.skip(from as int)),
{
    let ghost s = v@.skip(from as int);
    let n: usize = v.len();
    let mut at: usize = from;
    assert(s.skip(0) =~= s);
    while at < n && v[at] != 'e' && v[at] != 'E'
        invariant
            from <= at <= n == v@.len(),
            s == v@.skip(from as int),
            exponent_at(s) == (at - from) + exponent_at(s.skip(at - from)),
        decreases n - at,
    {
        assert(s.skip(at - from)[0] == v@[at as int]);
        assert(s.skip(at - from).skip(1) =~= s.skip(at - from + 1));
        at = at + 1;
    }
    assert(at < n ==> s.skip(at - from)[0] == v@[at as int]);
    assert(exponent_at(s) == at - from);
    if at == n {
        assert(s =~= v@.subrange(from as int, n as int));
        return plain_decimal(v, from, n);
    }
    let mut begin: usize = at + 1;
    let ghost tail = s.skip(at - from + 1);
    assert(tail =~= v@.subrange(begin as int, n as int));
    if begin < n && (v[begin] == '+' || v[begin] == '-') {
        assert(tail[0] == v@[begin as int]);
        begin = begin + 1;
        assert(tail.skip(1) =~= v@.subrange(begin as int, n as int));
    } else {
        assert(begin < n ==> tail[0] == v@[begin as int]);
    }
    assert(unsigned(tail) =~= v@.subrange(begin as int, n as int));
    let d: usize = count_digits(v, begin, n);
    assert(s.take(at - from) =~= v@.subrange(from as int, at as int));
    plain_decimal(v, from, at) && begin < n && d == n - begin
}

/// Whether the text denotes a floating-point number.
pub fn denotes_float(s: &str) -> (r: bool)
    ensures
        r == is_float(s@),
{
    let v = chars_of(s);
    let from: usize = if v.len() > 0 && (v[0] == '+' || v[0] == '-') {
        1
    } else {
        0
    };
    let ghost t = unsigned(s@);
    assert(t =~= v@.skip(from as int));
    if decimal(&v, from) {
        return true;
    }
    assert(v@.skip(from as int) =~= v@.subrange(from as int, v.len() as int));
    let word = piece(&v, from, v.len());
    proof {
        reveal_strlit("inf");
        reveal_strlit("infinity");
        reveal_strlit("nan");
        assert(lower_all("inf"@) =~= "inf"@);
        assert(lower_all("infinity"@) =~= "infinity"@);
        assert(lower_all("nan"@) =~= "nan"@);
    }
    same_ignoring_case(word.as_str(), "inf") || same_ignoring_case(word.as_str(), "infinity")
        || same_ignoring_case(word.as_str(), "nan")
}

// ---------------------------------------------------------------------------
// Running a tool
// ---------------------------------------------------------------------------
/// What came of running a tool.
pub enum ToolOutcome {
    /// It could not be started.
    NotStarted(String),
    /// It failed, and said this.
    Failed(Vec<u8>),
    /// It succeeded, and wrote this.
    Output(Vec<u8>),
}

/// What a tool wrote, or what went wrong. `verb` is its first argument.
pub open spec fn tool_text(tool: Seq<char>, verb: Seq<char>, o: ToolOutcome) -> Result<
    Seq<char>,
    ErrorView,
> {
    match o {
        ToolOutcome::NotStarted(e) => Err(ErrorView::DBus(tool + " spawn: "@ + e@)),
        ToolOutcome::Failed(errors) => Err(
            ErrorView::DBus(
                tool + " "@ + verb + " failed: "@ + trim(lossy_text(errors@)),
            ),
        ),
        ToolOutcome::Output(bytes) => Ok(lossy_text(bytes@)),
    }
}

/// What a tool wrote, or what went wrong. `verb` is its first argument.
pub fn tool_output(tool: &str, verb: &str, o: &ToolOutcome) -> (r: Result<String, AgentShellError>)
    ensures
        match r {
            Ok(s) => tool_text(tool@, verb@, *o) == Ok::<Seq<char>, ErrorView>(s@),
            Err(e) => tool_text(tool@, verb@, *o) == Err::<Seq<char>, ErrorView>(e@),
        },
{
    match o {
        ToolOutcome::NotStarted(e) => Err(
            AgentShellError::DBus(cat3(tool, " spawn: ", e.as_str())),
        ),
        ToolOutcome::Failed(errors) => {
            let t = text_from_lossy(errors);
            let t = trimmed(t.as_str());
            let head = cat3(tool, " ", verb);
            Err(AgentShellError::DBus(cat3(head.as_str(), " failed: ", t.as_str())))
        },
        ToolOutcome::Output(bytes) => Ok(text_from_lossy(bytes)),
    }
}

/// The word for switching on or off.
pub fn switch_word(on: bool) -> (r: &'static str)
    ensures
        r@ == (if on {
            "1"@
        } else {
            "0"@
        }),
{
    if on {
        "1"
    } else {
        "0"
    }
}

} // verus!

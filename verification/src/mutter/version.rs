//! Which GNOME Shell is running.

use vstd::prelude::*;

use crate::mutter::error::{gnome_result, MutterError, MutterErrorView};
use crate::text::{
    cat, cat3, leading_number, opt_text, owned, read_leading, texts, words, words_of,
};
use crate::types::opt_view;

verus! {

/// The versions that differ in which window channel works.
#[derive(Clone, Copy, Debug, PartialEq, Eq, Structural)]
pub enum GnomeMajor {
    /// Before GNOME 47: scripts can be evaluated.
    Pre47,
    /// GNOME 47 and later: evaluation is off, the extension is the way.
    V47Plus,
}

/// The version of the running GNOME Shell.
#[derive(Debug)]
pub struct GnomeVersion {
    /// The full version, such as "47.0", or "unknown".
    pub full: String,
    /// On which side of GNOME 47 it lies.
    pub major: GnomeMajor,
}

/// What is known of the version.
#[verifier::ext_equal]
pub struct GnomeVersionView {
    pub full: Seq<char>,
    pub major: GnomeMajor,
}

impl View for GnomeVersion {
    type V = GnomeVersionView;

    open spec fn view(&self) -> GnomeVersionView {
        GnomeVersionView { full: self.full@, major: self.major }
    }
}

impl Clone for GnomeVersion {
    fn clone(&self) -> (r: GnomeVersion)
        ensures
            r@ == self@,
    {
        GnomeVersion { full: self.full.clone(), major: self.major }
    }
}

impl GnomeVersion {
    /// Whether this is GNOME 47 or later.
    pub fn is_47_plus(&self) -> (r: bool)
        ensures
            r == (self@.major == GnomeMajor::V47Plus),
    {
        matches!(self.major, GnomeMajor::V47Plus)
    }

    /// The side of GNOME 47 that decides which channel is tried first.
    pub fn preferred_path(&self) -> (r: GnomeMajor)
        ensures
            r == self@.major,
    {
        self.major
    }
}

/// The side of GNOME 47 on which a main version lies.
pub open spec fn gnome_major(n: nat) -> GnomeMajor {
    if n >= 47 {
        GnomeMajor::V47Plus
    } else {
        GnomeMajor::Pre47
    }
}

/// The version that a text states: its first word, if a number stands in front
/// of that word's first dot.
pub open spec fn shell_version(raw: Seq<char>) -> Option<GnomeVersionView> {
    if words(raw).len() == 0 {
        None
    } else {
        match leading_number(words(raw)[0]) {
            None => None,
            Some(n) => Some(GnomeVersionView { full: words(raw)[0], major: gnome_major(n) }),
        }
    }
}

/// The version that a text such as "45.2" or "48.beta" states.
pub fn parse_shell_version(raw: &str) -> (r: Option<GnomeVersion>)
    ensures
        opt_view(r) == shell_version(raw@),
{
    let parts = words_of(raw);
    if parts.len() == 0 {
        return None;
    }
    assert(parts@[0]@ == texts(parts@)[0]);
    let token = parts[0].as_str();
    match read_leading(token) {
        Some(n) => Some(
            GnomeVersion {
                full: owned(token),
                major: if n >= 47 {
                    GnomeMajor::V47Plus
                } else {
                    GnomeMajor::Pre47
                },
            },
        ),
        None => None,
    }
}

/// What reading the shell's version property gave.
pub enum VersionReading {
    /// The shell is not on the bus.
    Unreachable(String),
    /// The property could not be read.
    Failed(String),
    /// The property is no text.
    NotText(String),
    /// The property's text.
    Text(String),
}

/// The version in `raw`, or the error that names what was not recognised.
pub open spec fn recognised(label: Seq<char>, raw: Seq<char>) -> Result<
    GnomeVersionView,
    MutterErrorView,
> {
    match shell_version(raw) {
        Some(v) => Ok(v),
        None => Err(MutterErrorView::Version("unrecognized "@ + label + " `"@ + raw + "`"@)),
    }
}

/// The version behind a reading of the property. The environment counts only
/// where the property could not be read.
pub open spec fn detected(reading: VersionReading, env: Option<Seq<char>>) -> Result<
    GnomeVersionView,
    MutterErrorView,
> {
    match reading {
        VersionReading::Unreachable(e) => Err(
            MutterErrorView::Version("org.gnome.Shell unreachable: "@ + e@),
        ),
        VersionReading::NotText(e) => Err(
            MutterErrorView::Version("ShellVersion not a string: "@ + e@),
        ),
        VersionReading::Text(raw) => recognised("ShellVersion"@, raw@),
        VersionReading::Failed(e) => match env {
            Some(raw) => recognised("GNOME_SHELL_VERSION"@, raw),
            None => Err(
                MutterErrorView::Version("/org/gnome/Shell ShellVersion read failed: "@ + e@),
            ),
        },
    }
}

fn recognise(label: &str, raw: &str) -> (r: Result<GnomeVersion, MutterError>)
    ensures
        gnome_result(r) == recognised(label@, raw@),
{
    match parse_shell_version(raw) {
        Some(v) => Ok(v),
        None => {
            let head = cat3("unrecognized ", label, " `");
            Err(MutterError::Version(cat3(head.as_str(), raw, "`")))
        },
    }
}

/// The version behind a reading of the property, with the environment variable
/// `GNOME_SHELL_VERSION` as the fallback for a failed reading.
pub fn detect_version(reading: &VersionReading, env: Option<String>) -> (r: Result<
    GnomeVersion,
    MutterError,
>)
    ensures
        gnome_result(r) == detected(*reading, opt_text(env)),
{
    match reading {
        VersionReading::Unreachable(e) => Err(
            MutterError::Version(cat("org.gnome.Shell unreachable: ", e.as_str())),
        ),
        VersionReading::NotText(e) => Err(
            MutterError::Version(cat("ShellVersion not a string: ", e.as_str())),
        ),
        VersionReading::Text(raw) => recognise("ShellVersion", raw.as_str()),
        VersionReading::Failed(e) => match env {
            Some(raw) => recognise("GNOME_SHELL_VERSION", raw.as_str()),
            None => Err(
                MutterError::Version(
                    cat("/org/gnome/Shell ShellVersion read failed: ", e.as_str()),
                ),
            ),
        },
    }
}

/// The version to work with: the detected one, or else GNOME 47 and later under
/// the name "unknown".
pub fn resolve_version(found: Result<GnomeVersion, MutterError>) -> (r: GnomeVersion)
    ensures
        r@ == (match found {
            Ok(v) => v@,
            Err(_) => (GnomeVersionView { full: "unknown"@, major: GnomeMajor::V47Plus }),
        }),
{
    match found {
        Ok(v) => v,
        Err(_) => GnomeVersion { full: owned("unknown"), major: GnomeMajor::V47Plus },
    }
}

} // verus!

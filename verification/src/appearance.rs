//! The appearance component: wallpaper and colour scheme through the desktop
//! portal and the settings of the desktop.

use vstd::prelude::*;

use crate::text::{cat, cat3, contains, has_text, lossy_text, text_from_lossy, trim, trimmed};
use crate::types::{AgentShellError, ComponentHealth, ErrorView, HealthView};

verus! {

/// The portal's name on the message bus.
pub const BUS_NAME: &'static str = "org.freedesktop.portal.Desktop";

/// The portal's object.
pub const PORTAL_PATH: &'static str = "/org/freedesktop/portal/desktop";

/// The token of requests to the portal.
pub const HANDLE_TOKEN: &'static str = "agent-shell";

/// Which colours are wished for.
#[derive(Clone, Copy, Debug, PartialEq, Eq, Structural)]
pub enum ColorScheme {
    NoPreference,
    Dark,
    Light,
}

/// The scheme behind the portal's number.
pub open spec fn scheme_of(code: u32) -> ColorScheme {
    if code == 1 {
        ColorScheme::Dark
    } else if code == 2 {
        ColorScheme::Light
    } else {
        ColorScheme::NoPreference
    }
}

/// The setting that stands for a scheme.
pub open spec fn setting_of(scheme: ColorScheme) -> Seq<char> {
    match scheme {
        ColorScheme::Dark => "prefer-dark"@,
        ColorScheme::Light => "prefer-light"@,
        ColorScheme::NoPreference => "default"@,
    }
}

/// The portal's number for a setting.
pub open spec fn portal_code(setting: Seq<char>) -> u32 {
    if setting == "prefer-dark"@ {
        1
    } else if setting == "prefer-light"@ {
        2
    } else {
        0
    }
}

/// The scheme behind the portal's number.
pub fn color_scheme(code: u32) -> (r: ColorScheme)
    ensures
        r == scheme_of(code),
{
    match code {
        1 => ColorScheme::Dark,
        2 => ColorScheme::Light,
        _ => ColorScheme::NoPreference,
    }
}

/// What came of reading the colour scheme.
pub enum SchemeReading {
    /// The portal could not be reached through this interface.
    NoPortal { iface: String, error: String },
    /// The call failed.
    Failed(String),
    /// The answer is no number.
    NotANumber(String),
    /// The portal's number.
    Code(u32),
}

/// The scheme in a reading, or what went wrong.
pub open spec fn scheme_in(reading: SchemeReading) -> Result<ColorScheme, ErrorView> {
    match reading {
        SchemeReading::NoPortal { iface, error } => Err(
            ErrorView::DBus("portal proxy "@ + iface@ + ": "@ + error@),
        ),
        SchemeReading::Failed(e) => Err(ErrorView::DBus("Settings.ReadOne: "@ + e@)),
        SchemeReading::NotANumber(e) => Err(ErrorView::DBus("color-scheme decode: "@ + e@)),
        SchemeReading::Code(c) => Ok(scheme_of(c)),
    }
}

/// The error of a portal that cannot be reached.
pub fn portal_error(iface: &str, e: &str) -> (r: AgentShellError)
    ensures
        r@ == ErrorView::DBus("portal proxy "@ + iface@ + ": "@ + e@),
{
    let head = cat3("portal proxy ", iface, ": ");
    AgentShellError::DBus(cat(head.as_str(), e))
}

/// The appearance component: settings are read, and wallpapers set, through the
/// desktop portal.
#[derive(Debug)]
pub struct PortalAppearance {}

impl PortalAppearance {
    /// The scheme in a reading, or what went wrong.
    pub fn read_color_scheme(reading: &SchemeReading) -> (r: Result<ColorScheme, AgentShellError>)
        ensures
            match r {
                Ok(s) => scheme_in(*reading) == Ok::<ColorScheme, ErrorView>(s),
                Err(e) => scheme_in(*reading) == Err::<ColorScheme, ErrorView>(e@),
            },
    {
        match reading {
            SchemeReading::NoPortal { iface, error } => Err(
                portal_error(iface.as_str(), error.as_str()),
            ),
            SchemeReading::Failed(e) => Err(
                AgentShellError::DBus(cat("Settings.ReadOne: ", e.as_str())),
            ),
            SchemeReading::NotANumber(e) => Err(
                AgentShellError::DBus(cat("color-scheme decode: ", e.as_str())),
            ),
            SchemeReading::Code(c) => Ok(color_scheme(*c)),
        }
    }

    /// How well the component works: by whether the portal has an owner on the bus,
    /// and by a reading of the colour scheme.
    pub fn health(owner: Result<bool, String>, reading: Result<ColorScheme, AgentShellError>) -> (r:
        ComponentHealth)
        ensures
            r@ == (match owner {
                Err(e) => HealthView::Degraded(e@),
                Ok(false) => HealthView::Unavailable,
                Ok(true) => match reading {
                    Ok(_) => HealthView::Healthy,
                    Err(e) => HealthView::Degraded("Settings.ReadOne failed: "@ + e@.message()),
                },
            }),
    {
        match owner {
            Err(e) => ComponentHealth::Degraded(e),
            Ok(false) => ComponentHealth::Unavailable,
            Ok(true) => match reading {
                Ok(_) => ComponentHealth::Healthy,
                Err(e) => {
                    let m = e.message();
                    ComponentHealth::Degraded(cat("Settings.ReadOne failed: ", m.as_str()))
                },
            },
        }
    }
}

/// A text that names a scheme is an address already.
pub open spec fn is_address(path: Seq<char>) -> bool {
    contains(path, "://"@)
}

/// Whether the text is an address already; otherwise it is a file, whose absolute
/// path has to be found first.
pub fn is_uri(path: &str) -> (r: bool)
    ensures
        r == is_address(path@),
{
    has_text(path, "://")
}

/// The address of a wallpaper. A file is named by its absolute path.
pub fn wallpaper_uri(path: &str, absolute: Result<String, String>) -> (r: Result<
    String,
    AgentShellError,
>)
    ensures
        is_address(path@) ==> (r matches Ok(u) && u@ == path@),
        !is_address(path@) ==> match absolute {
            Ok(abs) => r matches Ok(u) && u@ == "file://"@ + abs@,
            Err(e) => r matches Err(x) && x@ == ErrorView::Other(path@ + ": "@ + e@),
        },
{
    if is_uri(path) {
        return Ok(crate::text::owned(path));
    }
    match absolute {
        Ok(abs) => Ok(cat("file://", abs.as_str())),
        Err(e) => Err(AgentShellError::Other(cat3(path, ": ", e.as_str()))),
    }
}

impl PortalAppearance {
    /// The outcome of setting the wallpaper.
    pub fn set_wallpaper(outcome: Result<(), String>) -> (r: Result<(), AgentShellError>)
        ensures
            match outcome {
                Ok(_) => r is Ok,
                Err(e) => r matches Err(x) && x@ == ErrorView::DBus("SetWallpaperURI: "@ + e@),
            },
    {
        match outcome {
            Ok(_) => Ok(()),
            Err(e) => Err(AgentShellError::DBus(cat("SetWallpaperURI: ", e.as_str()))),
        }
    }
}

/// The setting to write for a scheme.
pub fn color_setting(scheme: ColorScheme) -> (r: &'static str)
    ensures
        r@ == setting_of(scheme),
{
    match scheme {
        ColorScheme::Dark => "prefer-dark",
        ColorScheme::Light => "prefer-light",
        ColorScheme::NoPreference => "default",
    }
}

/// What came of writing the setting.
pub enum WriteOutcome {
    /// The tool could not be started.
    NotStarted(String),
    /// The tool failed, and said this.
    Failed(Vec<u8>),
    /// The setting is written.
    Written,
}

impl PortalAppearance {
    /// The outcome of setting the colour scheme.
    pub fn set_color_scheme(outcome: &WriteOutcome) -> (r: Result<(), AgentShellError>)
        ensures
            match *outcome {
                WriteOutcome::Written => r is Ok,
                WriteOutcome::Failed(errors) => r matches Err(x) && x@ == ErrorView::BackendUnavailable(
                    "gsettings color-scheme write failed (non-GNOME DE should route to its backend wrapper): "@
                        + trim(lossy_text(errors@)),
                ),
                WriteOutcome::NotStarted(e) => r matches Err(x) && x@ == ErrorView::BackendUnavailable(
                    "gsettings unavailable: "@ + e@,
                ),
            },
    {
        match outcome {
            WriteOutcome::Written => Ok(()),
            WriteOutcome::Failed(errors) => {
                let t = text_from_lossy(errors);
                let t = trimmed(t.as_str());
                Err(
                    AgentShellError::BackendUnavailable(
                        cat(
                            "gsettings color-scheme write failed (non-GNOME DE should route to its backend wrapper): ",
                            t.as_str(),
                        ),
                    ),
                )
            },
            WriteOutcome::NotStarted(e) => Err(
                AgentShellError::BackendUnavailable(cat("gsettings unavailable: ", e.as_str())),
            ),
        }
    }
}

/// What is read is what was written: the number that the portal has for the
/// setting of a scheme stands for that scheme.
pub proof fn law_scheme_survives_writing(scheme: ColorScheme)
    ensures
        scheme_of(portal_code(setting_of(scheme))) == scheme,
{
    reveal_strlit("prefer-dark");
    reveal_strlit("prefer-light");
    reveal_strlit("default");
    assert("prefer-dark"@.len() != "prefer-light"@.len());
    assert("prefer-dark"@.len() != "default"@.len());
    assert("prefer-light"@.len() != "default"@.len());
}

/// The portal's numbers: one stands for dark and two for light; every other number
/// stands for no preference.
pub proof fn law_portal_numbers_are_schemes(code: u32)
    ensures
        scheme_of(code) == ColorScheme::Dark <==> code == 1,
        scheme_of(code) == ColorScheme::Light <==> code == 2,
        scheme_of(code) == ColorScheme::NoPreference <==> code != 1 && code != 2,
        scheme_in(SchemeReading::Code(code)) == Ok::<ColorScheme, ErrorView>(scheme_of(code)),
{
}

/// The settings are written under their names.
pub proof fn law_schemes_are_written_by_name()
    ensures
        setting_of(ColorScheme::Dark) == "prefer-dark"@,
        setting_of(ColorScheme::Light) == "prefer-light"@,
        setting_of(ColorScheme::NoPreference) == "default"@,
{
}

/// A failed reading gives no scheme, but the reason.
pub proof fn law_failed_reading_gives_no_scheme(reading: SchemeReading)
    ensures
        scheme_in(reading) is Ok <==> reading is Code,
        reading matches SchemeReading::NoPortal { iface, error } ==> scheme_in(reading) == Err::<
            ColorScheme,
            ErrorView,
        >(ErrorView::DBus("portal proxy "@ + iface@ + ": "@ + error@)),
        reading matches SchemeReading::Failed(e) ==> scheme_in(reading) == Err::<
            ColorScheme,
            ErrorView,
        >(ErrorView::DBus("Settings.ReadOne: "@ + e@)),
        reading matches SchemeReading::NotANumber(e) ==> scheme_in(reading) == Err::<
            ColorScheme,
            ErrorView,
        >(ErrorView::DBus("color-scheme decode: "@ + e@)),
{
}

/// A text is an address if and only if it holds the mark behind a scheme.
pub proof fn law_address_has_a_scheme(a: Seq<char>, b: Seq<char>, path: Seq<char>)
    ensures
        is_address(a + "://"@ + b),
        !path.contains(':') ==> !is_address(path),
{
    let s = a + "://"@ + b;
    assert(s.subrange(a.len() as int, a.len() as int + "://"@.len()) =~= "://"@);
    assert(crate::text::occurs_at(s, "://"@, a.len() as int));
    if is_address(path) {
        reveal_strlit("://");
        let i = choose|i: int| crate::text::occurs_at(path, "://"@, i);
        assert(path.subrange(i, i + 3)[0] == "://"@[0]);
        assert(path[i] == ':');
        assert(path.contains(path[i]));
    }
}

} // verus!

//! Which channel serves the sound: the desktop's own service where it is there,
//! or else one of the command line tools.

use vstd::prelude::*;

use crate::types::{ComponentHealth, HealthView};

verus! {

/// The desktops that the component can be part of.
#[derive(Clone, Copy, Debug, PartialEq, Eq, Structural)]
pub enum BackendKind {
    Kde,
    Gnome,
    Dde,
    Hyprland,
    Sway,
    X11Generic,
    Tty,
}

/// A channel to the sound.
#[derive(Clone, Copy, Debug, PartialEq, Eq)]
pub enum AudioChannel {
    /// The desktop's own service, by its name.
    DeWrapper(&'static str),
    /// PipeWire's command line tool.
    PipeWireCli,
    /// PulseAudio's command line tool.
    PulseAudioCli,
}

/// A channel to the sound.
#[verifier::ext_equal]
pub enum ChannelView {
    DeWrapper(Seq<char>),
    PipeWireCli,
    PulseAudioCli,
}

impl View for AudioChannel {
    type V = ChannelView;

    open spec fn view(&self) -> ChannelView {
        match *self {
            AudioChannel::DeWrapper(s) => ChannelView::DeWrapper(s@),
            AudioChannel::PipeWireCli => ChannelView::PipeWireCli,
            AudioChannel::PulseAudioCli => ChannelView::PulseAudioCli,
        }
    }
}

impl ChannelView {
    /// The channel's name in reports.
    pub open spec fn label(self) -> Seq<char> {
        match self {
            ChannelView::DeWrapper(_) => "de-wrapper"@,
            ChannelView::PipeWireCli => "pipewire-cli"@,
            ChannelView::PulseAudioCli => "pulseaudio-cli"@,
        }
    }

    /// The channel as one of the tools; anything but PulseAudio's stands for
    /// PipeWire's.
    pub open spec fn as_tool(self) -> ChannelView {
        match self {
            ChannelView::PulseAudioCli => ChannelView::PulseAudioCli,
            _ => ChannelView::PipeWireCli,
        }
    }
}

impl AudioChannel {
    /// The channel's name in reports.
    pub fn as_str(self) -> (r: &'static str)
        ensures
            r@ == self@.label(),
    {
        match self {
            AudioChannel::DeWrapper(_) => "de-wrapper",
            AudioChannel::PipeWireCli => "pipewire-cli",
            AudioChannel::PulseAudioCli => "pulseaudio-cli",
        }
    }
}

/// Chooses the channel, and remembers which was used last.
#[derive(Debug)]
pub struct DePriorityRouter {
    de: BackendKind,
    fallback: AudioChannel,
    de_wrapper: Option<&'static str>,
    last: AudioChannel,
}

/// What the router knows.
#[verifier::ext_equal]
pub struct RouterView {
    pub de: BackendKind,
    /// The tool that serves where the desktop does not.
    pub fallback: ChannelView,
    /// The desktop's own service, if it has one.
    pub de_wrapper: Option<Seq<char>>,
    /// The channel of the last call that succeeded.
    pub last: ChannelView,
}

impl View for DePriorityRouter {
    type V = RouterView;

    closed spec fn view(&self) -> RouterView {
        RouterView {
            de: self.de,
            fallback: self.fallback@,
            de_wrapper: match self.de_wrapper {
                Some(s) => Some(s@),
                None => None,
            },
            last: self.last@,
        }
    }
}

impl RouterView {
    /// The channel that serves now: the desktop's own service where it is there.
    pub open spec fn route(self, service_exists: bool) -> ChannelView {
        match self.de_wrapper {
            Some(s) => if service_exists {
                ChannelView::DeWrapper(s)
            } else {
                self.fallback
            },
            None => self.fallback,
        }
    }
}

impl DePriorityRouter {
    /// A router for a desktop, with the tool to fall back on and the desktop's
    /// own service, if it has one.
    pub fn new(
        de: BackendKind,
        fallback_channel: AudioChannel,
        de_wrapper: Option<&'static str>,
    ) -> (r: DePriorityRouter)
        ensures
            r@ == (RouterView {
                de,
                fallback: fallback_channel@.as_tool(),
                de_wrapper: match de_wrapper {
                    Some(s) => Some(s@),
                    None => None,
                },
                last: fallback_channel@.as_tool(),
            }),
    {
        let tool = match fallback_channel {
            AudioChannel::PulseAudioCli => AudioChannel::PulseAudioCli,
            _ => AudioChannel::PipeWireCli,
        };
        DePriorityRouter { de, fallback: tool, de_wrapper, last: tool }
    }

    /// The desktop.
    pub fn backend(&self) -> (r: BackendKind)
        ensures
            r == self@.de,
    {
        self.de
    }

    /// The channel of the last call that succeeded; before any, the tool.
    pub fn last_channel(&self) -> (r: AudioChannel)
        ensures
            r@ == self@.last,
    {
        self.last
    }

    /// Whether it matters if the desktop's own service is there.
    pub fn probe_wanted(&self) -> (r: bool)
        ensures
            r == (self@.de_wrapper is Some),
    {
        self.de_wrapper.is_some()
    }

    /// The channel that serves a call.
    pub fn resolve(&self, service_exists: bool) -> (r: AudioChannel)
        ensures
            r@ == self@.route(service_exists),
    {
        match self.de_wrapper {
            Some(s) => if service_exists {
                AudioChannel::DeWrapper(s)
            } else {
                self.fallback
            },
            None => self.fallback,
        }
    }

    /// Takes in whether a call on a channel succeeded.
    pub fn record(&mut self, channel: AudioChannel, succeeded: bool)
        ensures
            final(self)@ == (if succeeded {
                RouterView { last: channel@, ..old(self)@ }
            } else {
                old(self)@
            }),
    {
        if succeeded {
            self.last = channel;
        }
    }

    /// Whether there is any channel.
    pub fn is_available(&self, fallback_available: bool) -> (r: bool)
        ensures
            r == (fallback_available || self@.de_wrapper is Some),
    {
        fallback_available || self.de_wrapper.is_some()
    }

    /// How well the component works: the desktop's own service is all it takes,
    /// otherwise it works as well as the tool.
    pub fn health(&self, service_exists: bool, fallback: ComponentHealth) -> (r: ComponentHealth)
        ensures
            r@ == (if self@.de_wrapper is Some && service_exists {
                HealthView::Healthy
            } else {
                fallback@
            }),
    {
        if self.de_wrapper.is_some() && service_exists {
            ComponentHealth::Healthy
        } else {
            fallback
        }
    }
}

/// The router for the tools that are there: PipeWire's first. Without any there is
/// none, rather than one that always fails.
pub fn assemble_audio_router(de: BackendKind, wpctl: bool, pactl: bool) -> (r: Option<
    DePriorityRouter,
>)
    ensures
        match r {
            Some(x) => (wpctl || pactl) && x@ == (RouterView {
                de,
                fallback: if wpctl {
                    ChannelView::PipeWireCli
                } else {
                    ChannelView::PulseAudioCli
                },
                de_wrapper: None,
                last: if wpctl {
                    ChannelView::PipeWireCli
                } else {
                    ChannelView::PulseAudioCli
                },
            }),
            None => !wpctl && !pactl,
        },
{
    if wpctl {
        return Some(DePriorityRouter::new(de, AudioChannel::PipeWireCli, None));
    }
    if pactl {
        return Some(DePriorityRouter::new(de, AudioChannel::PulseAudioCli, None));
    }
    None
}

/// Without a service of the desktop everything goes to the tool, whatever is on
/// the bus.
pub proof fn law_no_service_means_tool(r: RouterView, service_exists: bool)
    requires
        r.de_wrapper is None,
    ensures
        r.route(service_exists) == r.fallback,
{
}

} // verus!

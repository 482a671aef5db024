use agent_shell::audio::pipewire::{parse_status_tags, PipeWireAudioServer};
use agent_shell::audio::pulseaudio::PulseAudioAudioServer;
use agent_shell::audio::router::{
    assemble_audio_router, AudioChannel, BackendKind, DePriorityRouter,
};
use agent_shell::audio::{AudioDeviceType, ToolOutcome, Volume};
use agent_shell::types::{AgentShellError, ComponentHealth};

/// The reading of a volume tag, from 0 to 1.
fn level(tag: Option<String>) -> f64 {
    match tag {
        Some(text) => text.parse::<f64>().expect("a number").clamp(0.0, 1.0),
        None => 0.0,
    }
}

fn tags(bracket: &str) -> (f64, bool) {
    let (volume, muted) = parse_status_tags(bracket);
    (level(volume), muted)
}

#[test]
fn parses_plain_volume_output() {
    let (v, m) = PipeWireAudioServer::parse_get_volume("Volume: 0.53").unwrap();
    assert_eq!(v.parse::<f64>().unwrap(), 0.53);
    assert!(!m);
}

#[test]
fn parses_muted_volume_output() {
    let (v, m) = PipeWireAudioServer::parse_get_volume("Volume: 0.00 [MUTED]").unwrap();
    assert_eq!(v.parse::<f64>().unwrap(), 0.0);
    assert!(m);
}

#[test]
fn rejects_unparseable_output() {
    assert!(PipeWireAudioServer::parse_get_volume("error: no such object").is_none());
}

const STATUS: &str = "\
Info on utility objects:
Set default devices via e.g. `wpctl set-default 42`.

Audio
 ├─ Devices:
 │      47. Built-in Audio                    [alsa]
 │
 └─ Sinks:
         * 42. Family 17h/19h HD Audio Controller [vol: 0.52]
           43. Monitor of Family 17h             [vol: 1.00]
 │
 ├─ Sources:
 │  ├─ Streams:";

#[test]
fn extracts_default_sink_from_status_tree() {
    assert_eq!(
        PipeWireAudioServer::parse_default_sink(STATUS),
        "Family 17h/19h HD Audio Controller"
    );
}

#[test]
fn the_marked_sink_is_found_behind_unmarked_ones() {
    let status = "Audio
 └─ Sinks:
           43. Monitor of Family 17h [vol: 1.00]
         * 42. HD Audio Controller [vol: 0.52]
 ├─ Sources:";
    assert_eq!(
        PipeWireAudioServer::parse_default_sink(status),
        "HD Audio Controller"
    );
    let drawn = "Audio
 ├─ Sinks:
 │      43. Monitor of Family 17h [vol: 1.00]
 │  *   42. HD Audio Controller [vol: 0.52]
 │
 ├─ Sources:
 │  *   44. Microphone [vol: 0.30]";
    assert_eq!(
        PipeWireAudioServer::parse_default_sink(drawn),
        "HD Audio Controller"
    );
}

#[test]
fn the_next_title_ends_the_sinks() {
    let status = "Sinks:
    43. Monitor [vol: 1.00]
 ├─ Sink endpoints:
  * 42. Endpoint [vol: 0.52]";
    assert_eq!(PipeWireAudioServer::parse_default_sink(status), "");
}

#[test]
fn lists_below_branches_are_read() {
    let devices = PipeWireAudioServer::list_audio_devices(STATUS);
    let names: Vec<&str> = devices.iter().map(|d| d.name.as_str()).collect();
    assert_eq!(
        names,
        ["Family 17h/19h HD Audio Controller", "Monitor of Family 17h"]
    );
    assert!(devices[0].is_default);
    assert!(!devices[1].is_default);
    let drawn = " ├─ Sinks:
 │  *   42. Speaker [vol: 0.52]
 │
 ├─ Sources:
 │      44. Microphone [vol: 0.30 MUTED]
 ├─ Filters:
        50. Echo";
    let devices = PipeWireAudioServer::list_audio_devices(drawn);
    assert_eq!(devices.len(), 2);
    assert!(devices[0].is_default);
    assert_eq!(devices[0].device_type, AudioDeviceType::Sink);
    assert_eq!(devices[1].name, "Microphone");
    assert_eq!(devices[1].device_type, AudioDeviceType::Source);
}

#[test]
fn empty_status_yields_empty_default() {
    assert_eq!(PipeWireAudioServer::parse_default_sink("garbage"), "");
}

#[test]
fn status_tags_vol_tag() {
    assert_eq!(tags("[vol: 0.52]"), (0.52, false));
}

#[test]
fn status_tags_muted_only() {
    assert_eq!(tags("[MUTED]"), (0.0, true));
}

#[test]
fn status_tags_no_tags() {
    assert_eq!(tags(""), (0.0, false));
    assert_eq!(tags("[alsa]"), (0.0, false));
}

#[test]
fn status_tags_combined_and_out_of_range() {
    assert_eq!(tags("Family 17h [vol: 1.50] [MUTED]"), (1.0, true));
}

#[test]
fn status_entry_with_dotted_name() {
    let line = "* 42. 17h/19h v2.1 Controller [vol: 0.30]";
    let entry = line.trim_start_matches('*').trim_start();
    let (id_rest, meta) = entry.split_once('.').unwrap();
    assert!(id_rest.trim().parse::<u32>().is_ok());
    let (name, bracket) = meta.split_once('[').unwrap();
    assert_eq!(name.trim(), "17h/19h v2.1 Controller");
    assert_eq!(tags(bracket), (0.30, false));
}

#[test]
fn methods_fail_structurally_without_wpctl() {
    let mut srv = PipeWireAudioServer::new();
    assert!(srv.probe_wanted());
    assert!(!srv.available(false));
    let err = srv.check(true).unwrap_err();
    assert!(
        matches!(err, AgentShellError::BackendUnavailable(_)),
        "{err:?}"
    );
    assert_eq!(srv.health(), ComponentHealth::Unavailable);
}

#[test]
fn pipewire_devices_are_listed() {
    let status = "\
Sinks:
  * 42. Controller v2.1 [vol: 0.52]
    43. Monitor [vol: 1.00 MUTED]
    44. [alsa]

Sources:
    45. Mic [vol: 0.30] [MUTED]
Filters:
    46. None";
    let devices = PipeWireAudioServer::list_audio_devices(status);
    assert_eq!(devices.len(), 3);
    assert_eq!(devices[0].name, "Controller v2.1");
    assert_eq!(devices[0].volume, Volume::Fraction("0.52".to_string()));
    assert!(devices[0].is_default);
    assert_eq!(devices[1].description, "Monitor");
    assert!(!devices[1].is_default);
    assert_eq!(devices[2].device_type, AudioDeviceType::Source);
    assert!(devices[2].muted);
}

#[test]
fn pipewire_volume_and_outcomes() {
    let state = PipeWireAudioServer::get_volume("Volume: 0.40", Ok(STATUS.to_string())).unwrap();
    assert_eq!(state.volume, Volume::Fraction("0.40".to_string()));
    assert_eq!(state.default_sink, "Family 17h/19h HD Audio Controller");
    // A status that cannot be read only costs the name of the sink.
    let state = PipeWireAudioServer::get_volume(
        "Volume: 0.40",
        Err(AgentShellError::DBus("x".to_string())),
    )
    .unwrap();
    assert_eq!(state.default_sink, "@DEFAULT_AUDIO_SINK@");
    assert!(PipeWireAudioServer::get_volume("nonsense", Ok(String::new())).is_err());
    assert_eq!(
        PipeWireAudioServer::run_wpctl("status", &ToolOutcome::Output(b"hi".to_vec())),
        Ok("hi".to_string())
    );
    let failed = ToolOutcome::Failed(b"no".to_vec());
    assert!(PipeWireAudioServer::run_wpctl("status", &failed).is_err());
    assert!(
        PipeWireAudioServer::run_wpctl("status", &ToolOutcome::NotStarted("no".to_string())).is_err()
    );
}

#[test]
fn parses_default_sink_from_info() {
    let info = "\
Server String: /run/user/1000/pulse/native
Default Sink: alsa_output.pci-0000_00_1f.3.analog-stereo
Default Source: alsa_input.pci-0000_00_1f.3.analog-stereo";
    assert_eq!(
        PulseAudioAudioServer::parse_default_sink(info),
        Some("alsa_output.pci-0000_00_1f.3.analog-stereo".into())
    );
}

/// The volume of a device, from 0 to 1.
fn fraction(volume: &Volume) -> f64 {
    match volume {
        Volume::Percent(p) => p.parse::<f64>().expect("a number") / 100.0,
        Volume::Fraction(f) => f.parse::<f64>().expect("a number"),
        Volume::Unknown => 0.0,
    }
}

const SINKS: &str = "\
Sink #48
	State: RUNNING
	Name: alsa_output.pci-0000_00_1f.3.analog-stereo
	Description: Built-in Audio Analog Stereo
	Mute: no
	Volume: front-left: 49152 /  75% / -7.50 dB,   front-right: 49152 /  75%
	    balance 0.00
	Default Sample Specification: s16le 2ch 44100Hz

Sink #49
	State: SUSPENDED
	Name: auto_null
	Description: Dummy Output
	Mute: yes
	Volume: front-left: 65536 / 100%";

#[test]
fn parses_sink_block_fields() {
    let devices = PulseAudioAudioServer::parse_devices(SINKS, AudioDeviceType::Sink);
    assert_eq!(devices.len(), 2);
    assert_eq!(
        devices[0].name,
        "alsa_output.pci-0000_00_1f.3.analog-stereo"
    );
    assert_eq!(devices[0].description, "Built-in Audio Analog Stereo");
    assert!(!devices[0].muted);
    assert!((fraction(&devices[0].volume) - 0.75).abs() < 1e-9);
    assert_eq!(devices[1].name, "auto_null");
    assert!(devices[1].muted);
    assert!((fraction(&devices[1].volume) - 1.0).abs() < 1e-9);
}

#[test]
fn an_index_line_marks_the_default_device() {
    let list = "Sink #0\n\tName: a\nSink #1\n\t* index: 1\n\tName: b";
    let devices = PulseAudioAudioServer::parse_devices(list, AudioDeviceType::Sink);
    assert_eq!(devices.len(), 2);
    assert!(!devices[0].is_default);
    assert!(devices[1].is_default);
}

#[test]
fn empty_names_are_dropped() {
    let out = "Sink #1\n\tState: IDLE\n";
    assert!(PulseAudioAudioServer::parse_devices(out, AudioDeviceType::Sink).is_empty());
}

#[test]
fn methods_fail_structurally_without_pactl() {
    let mut srv = PulseAudioAudioServer::new();
    assert!(srv.pactl_wanted());
    assert!(!srv.pactl_available(false));
    let err = srv.check(true).unwrap_err();
    assert!(
        matches!(err, AgentShellError::BackendUnavailable(_)),
        "{err:?}"
    );
}

#[test]
fn pulse_state_is_that_of_the_default_sink() {
    let state = PulseAudioAudioServer::get_volume("Default Sink: auto_null\n", SINKS);
    assert_eq!(state.default_sink, "auto_null");
    assert!(state.muted);
    assert!((fraction(&state.volume) - 1.0).abs() < 1e-9);
    let all = PulseAudioAudioServer::list_audio_devices(SINKS, "Source #1\n\tName: mic\n");
    assert_eq!(all.len(), 3);
    assert_eq!(all[2].device_type, AudioDeviceType::Source);
    assert!(PulseAudioAudioServer::run_pactl("info", &ToolOutcome::Failed(vec![])).is_err());
    assert!(PulseAudioAudioServer::set_default_sink("auto_null").is_ok());
}

#[test]
fn settings_become_tool_arguments() {
    assert_eq!(
        PipeWireAudioServer::set_volume("0.5"),
        ["set-volume", "@DEFAULT_AUDIO_SINK@", "0.5"]
    );
    assert_eq!(
        PipeWireAudioServer::set_mute(true),
        ["set-mute", "@DEFAULT_AUDIO_SINK@", "1"]
    );
    assert_eq!(
        PulseAudioAudioServer::set_volume(42),
        ["set-sink-volume", "@DEFAULT_SINK@", "42%"]
    );
    assert_eq!(
        PulseAudioAudioServer::set_mute(false),
        ["set-sink-mute", "@DEFAULT_SINK@", "0"]
    );
}

// --- router ----------------------------------------------------------------

#[test]
fn de_wrapper_hit_routes_to_wrapper() {
    let mut router = DePriorityRouter::new(
        BackendKind::Dde,
        AudioChannel::PipeWireCli,
        Some("org.deepin.dde.Audio1"),
    );
    assert!(router.probe_wanted());
    let channel = router.resolve(true);
    assert_eq!(channel, AudioChannel::DeWrapper("org.deepin.dde.Audio1"));
    router.record(channel, true);
    assert_eq!(
        router.last_channel(),
        AudioChannel::DeWrapper("org.deepin.dde.Audio1")
    );
}

#[test]
fn missing_de_service_falls_back_to_common() {
    let mut router = DePriorityRouter::new(
        BackendKind::Dde,
        AudioChannel::PipeWireCli,
        Some("org.deepin.dde.Audio1"),
    );
    let channel = router.resolve(false);
    assert_eq!(channel, AudioChannel::PipeWireCli);
    router.record(channel, true);
    assert_eq!(router.last_channel(), AudioChannel::PipeWireCli);
}

#[test]
fn gnome_without_wrapper_always_uses_common() {
    let mut router = DePriorityRouter::new(BackendKind::Gnome, AudioChannel::PipeWireCli, None);
    assert!(!router.probe_wanted());
    let channel = router.resolve(false);
    router.record(channel, true);
    let channel = router.resolve(false);
    assert_eq!(channel, AudioChannel::PipeWireCli);
    router.record(channel, true);
    assert_eq!(router.last_channel(), AudioChannel::PipeWireCli);
}

#[test]
fn health_reflects_fallback_when_no_wrapper() {
    let router = DePriorityRouter::new(BackendKind::Tty, AudioChannel::PipeWireCli, None);
    assert_eq!(
        router.health(false, ComponentHealth::Unavailable),
        ComponentHealth::Unavailable
    );
}

#[test]
fn a_failed_call_is_not_the_last_channel() {
    let mut router = DePriorityRouter::new(
        BackendKind::Dde,
        AudioChannel::PulseAudioCli,
        Some("org.deepin.dde.Audio1"),
    );
    let channel = router.resolve(true);
    router.record(channel, false);
    assert_eq!(router.last_channel(), AudioChannel::PulseAudioCli);
}

#[test]
fn the_router_takes_the_tool_at_hand() {
    let r = assemble_audio_router(BackendKind::Gnome, true, true).unwrap();
    assert_eq!(r.last_channel(), AudioChannel::PipeWireCli);
    assert_eq!(r.backend(), BackendKind::Gnome);
    let r = assemble_audio_router(BackendKind::Gnome, false, true).unwrap();
    assert_eq!(r.last_channel(), AudioChannel::PulseAudioCli);
    assert!(assemble_audio_router(BackendKind::Gnome, false, false).is_none());
}

use agent_shell::appearance::{
    color_scheme, color_setting, is_uri, wallpaper_uri, ColorScheme, PortalAppearance,
    SchemeReading, WriteOutcome,
};
use agent_shell::types::{AgentShellError, ComponentHealth};

#[test]
fn scheme_codes_follow_the_portal() {
    assert_eq!(color_scheme(0), ColorScheme::NoPreference);
    assert_eq!(color_scheme(1), ColorScheme::Dark);
    assert_eq!(color_scheme(2), ColorScheme::Light);
    assert_eq!(color_scheme(9), ColorScheme::NoPreference);
    assert_eq!(PortalAppearance::read_color_scheme(&SchemeReading::Code(1)), Ok(ColorScheme::Dark));
}

#[test]
fn scheme_readings_that_fail() {
    for reading in [
        SchemeReading::NoPortal {
            iface: "Settings".to_string(),
            error: "down".to_string(),
        },
        SchemeReading::Failed("down".to_string()),
        SchemeReading::NotANumber("down".to_string()),
    ] {
        let e = PortalAppearance::read_color_scheme(&reading).unwrap_err();
        assert!(e.message().contains("down"), "{e:?}");
    }
}

#[test]
fn portal_health() {
    assert_eq!(PortalAppearance::health(Ok(true), Ok(ColorScheme::Dark)), ComponentHealth::Healthy);
    assert!(matches!(
        PortalAppearance::health(Ok(true), Err(AgentShellError::DBus("x".to_string()))),
        ComponentHealth::Degraded(_)
    ));
    assert_eq!(
        PortalAppearance::health(Ok(false), Ok(ColorScheme::Dark)),
        ComponentHealth::Unavailable
    );
}

#[test]
fn wallpapers_are_handed_over_as_uris() {
    assert!(is_uri("https://x/y.png"));
    assert!(is_uri("file:///y.png"));
    assert!(!is_uri("/y.png"));
    assert_eq!(
        wallpaper_uri("file:///y.png", Err("unused".to_string())),
        Ok("file:///y.png".to_string())
    );
    assert_eq!(
        wallpaper_uri("y.png", Ok("/home/u/y.png".to_string())),
        Ok("file:///home/u/y.png".to_string())
    );
    assert!(wallpaper_uri("y.png", Err("no such file".to_string())).is_err());
    assert!(PortalAppearance::set_wallpaper(Ok(())).is_ok());
    assert!(PortalAppearance::set_wallpaper(Err("denied".to_string())).is_err());
}

#[test]
fn schemes_are_written_as_settings() {
    assert_eq!(color_setting(ColorScheme::Dark), "prefer-dark");
    assert_eq!(color_setting(ColorScheme::Light), "prefer-light");
    assert_eq!(color_setting(ColorScheme::NoPreference), "default");
    assert!(PortalAppearance::set_color_scheme(&WriteOutcome::Written).is_ok());
    assert!(matches!(
        PortalAppearance::set_color_scheme(&WriteOutcome::Failed(b"no key".to_vec())),
        Err(e) if e.message().contains("no key")
    ));
    let absent = WriteOutcome::NotStarted("absent".to_string());
    assert!(PortalAppearance::set_color_scheme(&absent).is_err());
}

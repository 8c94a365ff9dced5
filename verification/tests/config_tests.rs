use emtk::config::{default_theme, theme_from, theme_label, Config, Root, ThemeName};
use emtk::log::{LogEvent, LogLevel};

const ALL: [ThemeName; 22] = [
    ThemeName::Light,
    ThemeName::Dark,
    ThemeName::Dracula,
    ThemeName::Nord,
    ThemeName::SolarizedLight,
    ThemeName::SolarizedDark,
    ThemeName::GruvboxLight,
    ThemeName::GruvboxDark,
    ThemeName::CatppuccinLatte,
    ThemeName::CatppuccinFrappe,
    ThemeName::CatppuccinMacchiato,
    ThemeName::CatppuccinMocha,
    ThemeName::TokyoNight,
    ThemeName::TokyoNightStorm,
    ThemeName::TokyoNightLight,
    ThemeName::KanagawaWave,
    ThemeName::KanagawaDragon,
    ThemeName::KanagawaLotus,
    ThemeName::Moonfly,
    ThemeName::Nightfly,
    ThemeName::Oxocarbon,
    ThemeName::Ferra,
];

#[test]
fn theme_names_round_trip() {
    for t in ALL {
        assert_eq!(theme_from(theme_label(t)), Some(t));
    }
}

#[test]
fn theme_from_known_names() {
    assert_eq!(theme_from("Light"), Some(ThemeName::Light));
    assert_eq!(theme_from("Catppuccin Frappé"), Some(ThemeName::CatppuccinFrappe));
    assert_eq!(theme_from("Tokyo Night Storm"), Some(ThemeName::TokyoNightStorm));
    assert_eq!(theme_from("Ferra"), Some(ThemeName::Ferra));
}

#[test]
fn theme_from_unknown_names() {
    assert_eq!(theme_from(""), None);
    assert_eq!(theme_from("light"), None);
    assert_eq!(theme_from("Catppuccin Frappe"), None);
    assert_eq!(theme_from("Ferra "), None);
}

#[test]
fn default_theme_is_ferra() {
    assert_eq!(default_theme(), ThemeName::Ferra);
    assert_eq!(theme_label(default_theme()), "Ferra");
}

#[test]
fn default_config_names_default_theme() {
    let c = Config::default();
    assert_eq!(c.theme(), "Ferra");
    assert_eq!(theme_from(c.theme()), Some(default_theme()));
}

#[test]
fn config_with_theme_replaces_name() {
    let c = Config::default().with_theme("Nord".to_string());
    assert_eq!(c.theme(), "Nord");
}

#[test]
fn root_starts_loading_in_default_theme() {
    let r = Root::default();
    assert!(r.is_loading());
    assert_eq!(r.theme(), ThemeName::Ferra);
    assert_eq!(r.config().theme(), "Ferra");
}

#[test]
fn root_refresh_config_known_theme() {
    let mut r = Root::default();
    r.refresh_config(Config::with_theme_name("Dracula".to_string()));
    assert_eq!(r.theme(), ThemeName::Dracula);
    assert_eq!(r.config().theme(), "Dracula");
    assert!(r.is_loading());
}

#[test]
fn root_refresh_config_unknown_theme_keeps_theme() {
    let mut r = Root::default();
    r.refresh_config(Config::with_theme_name("Dark".to_string()));
    r.refresh_config(Config::with_theme_name("No Such Theme".to_string()));
    assert_eq!(r.theme(), ThemeName::Dark);
    assert_eq!(r.config().theme(), "No Such Theme");
}

#[test]
fn root_finish_loading() {
    let mut r = Root::default();
    r.finish_loading();
    assert!(!r.is_loading());
    assert_eq!(r.theme(), ThemeName::Ferra);
}

#[test]
fn root_with_config_keeps_theme() {
    let r = Root::default().with_config(Config::with_theme_name("Nord".to_string()));
    assert_eq!(r.config().theme(), "Nord");
    assert_eq!(r.theme(), ThemeName::Ferra);
}

#[test]
fn root_keeps_log_events_in_order() {
    let mut r = Root::default();
    assert!(r.logs().is_empty());
    r.record_log(LogEvent { lines: vec![("first".to_string(), Some(LogLevel::Warn))] });
    r.record_log(LogEvent { lines: vec![("second".to_string(), None)] });
    assert_eq!(r.logs().len(), 2);
    assert_eq!(r.logs()[0].lines[0].0, "first");
    assert_eq!(r.logs()[1].lines[0].0, "second");
    assert!(r.is_loading());
    assert_eq!(r.theme(), ThemeName::Ferra);
}

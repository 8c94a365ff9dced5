//! Launcher appearance settings: the colour themes and the GUI configuration.

use vstd::prelude::*;

use crate::text::text_is;
use crate::log::LogEvent;

verus! {

/// The colour themes that the launcher can be displayed in.
#[derive(Debug, Clone, Copy, PartialEq, Eq, Structural)]
pub enum ThemeName {
    Light,
    Dark,
    Dracula,
    Nord,
    SolarizedLight,
    SolarizedDark,
    GruvboxLight,
    GruvboxDark,
    CatppuccinLatte,
    CatppuccinFrappe,
    CatppuccinMacchiato,
    CatppuccinMocha,
    TokyoNight,
    TokyoNightStorm,
    TokyoNightLight,
    KanagawaWave,
    KanagawaDragon,
    KanagawaLotus,
    Moonfly,
    Nightfly,
    Oxocarbon,
    Ferra,
}

/// The name under which a theme is written in the configuration file.
pub open spec fn spec_theme_label(t: ThemeName) -> Seq<char> {
    match t {
        ThemeName::Light => "Light"@,
        ThemeName::Dark => "Dark"@,
        ThemeName::Dracula => "Dracula"@,
        ThemeName::Nord => "Nord"@,
        ThemeName::SolarizedLight => "Solarized Light"@,
        ThemeName::SolarizedDark => "Solarized Dark"@,
        ThemeName::GruvboxLight => "Gruvbox Light"@,
        ThemeName::GruvboxDark => "Gruvbox Dark"@,
        ThemeName::CatppuccinLatte => "Catppuccin Latte"@,
        ThemeName::CatppuccinFrappe => "Catppuccin Frappé"@,
        ThemeName::CatppuccinMacchiato => "Catppuccin Macchiato"@,
        ThemeName::CatppuccinMocha => "Catppuccin Mocha"@,
        ThemeName::TokyoNight => "Tokyo Night"@,
        ThemeName::TokyoNightStorm => "Tokyo Night Storm"@,
        ThemeName::TokyoNightLight => "Tokyo Night Light"@,
        ThemeName::KanagawaWave => "Kanagawa Wave"@,
        ThemeName::KanagawaDragon => "Kanagawa Dragon"@,
        ThemeName::KanagawaLotus => "Kanagawa Lotus"@,
        ThemeName::Moonfly => "Moonfly"@,
        ThemeName::Nightfly => "Nightfly"@,
        ThemeName::Oxocarbon => "Oxocarbon"@,
        ThemeName::Ferra => "Ferra"@,
    }
}

/// The theme whose name is `s`, if there is one.
pub open spec fn spec_theme_from(s: Seq<char>) -> Option<ThemeName> {
    if s == "Light"@ { Some(ThemeName::Light) }
    else if s == "Dark"@ { Some(ThemeName::Dark) }
    else if s == "Dracula"@ { Some(ThemeName::Dracula) }
    else if s == "Nord"@ { Some(ThemeName::Nord) }
    else if s == "Solarized Light"@ { Some(ThemeName::SolarizedLight) }
    else if s == "Solarized Dark"@ { Some(ThemeName::SolarizedDark) }
    else if s == "Gruvbox Light"@ { Some(ThemeName::GruvboxLight) }
    else if s == "Gruvbox Dark"@ { Some(ThemeName::GruvboxDark) }
    else if s == "Catppuccin Latte"@ { Some(ThemeName::CatppuccinLatte) }
    else if s == "Catppuccin Frappé"@ { Some(ThemeName::CatppuccinFrappe) }
    else if s == "Catppuccin Macchiato"@ { Some(ThemeName::CatppuccinMacchiato) }
    else if s == "Catppuccin Mocha"@ { Some(ThemeName::CatppuccinMocha) }
    else if s == "Tokyo Night"@ { Some(ThemeName::TokyoNight) }
    else if s == "Tokyo Night Storm"@ { Some(ThemeName::TokyoNightStorm) }
    else if s == "Tokyo Night Light"@ { Some(ThemeName::TokyoNightLight) }
    else if s == "Kanagawa Wave"@ { Some(ThemeName::KanagawaWave) }
    else if s == "Kanagawa Dragon"@ { Some(ThemeName::KanagawaDragon) }
    else if s == "Kanagawa Lotus"@ { Some(ThemeName::KanagawaLotus) }
    else if s == "Moonfly"@ { Some(ThemeName::Moonfly) }
    else if s == "Nightfly"@ { Some(ThemeName::Nightfly) }
    else if s == "Oxocarbon"@ { Some(ThemeName::Oxocarbon) }
    else if s == "Ferra"@ { Some(ThemeName::Ferra) }
    else { None }
}

/// The theme the launcher starts in.
pub fn default_theme() -> (t: ThemeName)
    ensures
        t == ThemeName::Ferra,
{
    ThemeName::Ferra
}

/// Looks up a theme by the name it is written under; unknown names give `None`.
pub fn theme_from(val: &str) -> (r: Option<ThemeName>)
    ensures
        r == spec_theme_from(val@),
{
    if text_is(val, "Light") { Some(ThemeName::Light) }
    else if text_is(val, "Dark") { Some(ThemeName::Dark) }
    else if text_is(val, "Dracula") { Some(ThemeName::Dracula) }
    else if text_is(val, "Nord") { Some(ThemeName::Nord) }
    else if text_is(val, "Solarized Light") { Some(ThemeName::SolarizedLight) }
    else if text_is(val, "Solarized Dark") { Some(ThemeName::SolarizedDark) }
    else if text_is(val, "Gruvbox Light") { Some(ThemeName::GruvboxLight) }
    else if text_is(val, "Gruvbox Dark") { Some(ThemeName::GruvboxDark) }
    else if text_is(val, "Catppuccin Latte") { Some(ThemeName::CatppuccinLatte) }
    else if text_is(val, "Catppuccin Frappé") { Some(ThemeName::CatppuccinFrappe) }
    else if text_is(val, "Catppuccin Macchiato") { Some(ThemeName::CatppuccinMacchiato) }
    else if text_is(val, "Catppuccin Mocha") { Some(ThemeName::CatppuccinMocha) }
    else if text_is(val, "Tokyo Night") { Some(ThemeName::TokyoNight) }
    else if text_is(val, "Tokyo Night Storm") { Some(ThemeName::TokyoNightStorm) }
    else if text_is(val, "Tokyo Night Light") { Some(ThemeName::TokyoNightLight) }
    else if text_is(val, "Kanagawa Wave") { Some(ThemeName::KanagawaWave) }
    else if text_is(val, "Kanagawa Dragon") { Some(ThemeName::KanagawaDragon) }
    else if text_is(val, "Kanagawa Lotus") { Some(ThemeName::KanagawaLotus) }
    else if text_is(val, "Moonfly") { Some(ThemeName::Moonfly) }
    else if text_is(val, "Nightfly") { Some(ThemeName::Nightfly) }
    else if text_is(val, "Oxocarbon") { Some(ThemeName::Oxocarbon) }
    else if text_is(val, "Ferra") { Some(ThemeName::Ferra) }
    else { None }
}

/// The name under which a theme is written in the configuration file; the
/// inverse of [`theme_from`].
pub fn theme_label(t: ThemeName) -> (s: &'static str)
    ensures
        s@ == spec_theme_label(t),
{
    match t {
        ThemeName::Light => "Light",
        ThemeName::Dark => "Dark",
        ThemeName::Dracula => "Dracula",
        ThemeName::Nord => "Nord",
        ThemeName::SolarizedLight => "Solarized Light",
        ThemeName::SolarizedDark => "Solarized Dark",
        ThemeName::GruvboxLight => "Gruvbox Light",
        ThemeName::GruvboxDark => "Gruvbox Dark",
        ThemeName::CatppuccinLatte => "Catppuccin Latte",
        ThemeName::CatppuccinFrappe => "Catppuccin Frappé",
        ThemeName::CatppuccinMacchiato => "Catppuccin Macchiato",
        ThemeName::CatppuccinMocha => "Catppuccin Mocha",
        ThemeName::TokyoNight => "Tokyo Night",
        ThemeName::TokyoNightStorm => "Tokyo Night Storm",
        ThemeName::TokyoNightLight => "Tokyo Night Light",
        ThemeName::KanagawaWave => "Kanagawa Wave",
        ThemeName::KanagawaDragon => "Kanagawa Dragon",
        ThemeName::KanagawaLotus => "Kanagawa Lotus",
        ThemeName::Moonfly => "Moonfly",
        ThemeName::Nightfly => "Nightfly",
        ThemeName::Oxocarbon => "Oxocarbon",
        ThemeName::Ferra => "Ferra",
    }
}

/// Writing a theme under its name and looking the name up again gives the
/// same theme back.
pub proof fn lemma_theme_label_round_trip(t: ThemeName)
    ensures
        spec_theme_from(spec_theme_label(t)) == Some(t),
{
    reveal_strlit("Light");
    reveal_strlit("Dark");
    reveal_strlit("Dracula");
    reveal_strlit("Nord");
    reveal_strlit("Solarized Light");
    reveal_strlit("Solarized Dark");
    reveal_strlit("Gruvbox Light");
    reveal_strlit("Gruvbox Dark");
    reveal_strlit("Catppuccin Latte");
    reveal_strlit("Catppuccin Frappé");
    reveal_strlit("Catppuccin Macchiato");
    reveal_strlit("Catppuccin Mocha");
    reveal_strlit("Tokyo Night");
    reveal_strlit("Tokyo Night Storm");
    reveal_strlit("Tokyo Night Light");
    reveal_strlit("Kanagawa Wave");
    reveal_strlit("Kanagawa Dragon");
    reveal_strlit("Kanagawa Lotus");
    reveal_strlit("Moonfly");
    reveal_strlit("Nightfly");
    reveal_strlit("Oxocarbon");
    reveal_strlit("Ferra");
    // The names differ in length, first character or thirteenth character.
    assert("Light"@.len() == 5 && "Light"@[0] == 'L');
    assert("Dark"@.len() == 4 && "Dark"@[0] == 'D');
    assert("Dracula"@.len() == 7 && "Dracula"@[0] == 'D');
    assert("Nord"@.len() == 4 && "Nord"@[0] == 'N');
    assert("Solarized Light"@.len() == 15 && "Solarized Light"@[0] == 'S' && "Solarized Light"@[12] == 'g');
    assert("Solarized Dark"@.len() == 14 && "Solarized Dark"@[0] == 'S' && "Solarized Dark"@[12] == 'r');
    assert("Gruvbox Light"@.len() == 13 && "Gruvbox Light"@[0] == 'G' && "Gruvbox Light"@[12] == 't');
    assert("Gruvbox Dark"@.len() == 12 && "Gruvbox Dark"@[0] == 'G');
    assert("Catppuccin Latte"@.len() == 16 && "Catppuccin Latte"@[0] == 'C' && "Catppuccin Latte"@[12] == 'a');
    assert("Catppuccin Frappé"@.len() == 17 && "Catppuccin Frappé"@[0] == 'C' && "Catppuccin Frappé"@[12] == 'r');
    assert("Catppuccin Macchiato"@.len() == 20 && "Catppuccin Macchiato"@[0] == 'C' && "Catppuccin Macchiato"@[12] == 'a');
    assert("Catppuccin Mocha"@.len() == 16 && "Catppuccin Mocha"@[0] == 'C' && "Catppuccin Mocha"@[12] == 'o');
    assert("Tokyo Night"@.len() == 11 && "Tokyo Night"@[0] == 'T');
    assert("Tokyo Night Storm"@.len() == 17 && "Tokyo Night Storm"@[0] == 'T' && "Tokyo Night Storm"@[12] == 'S');
    assert("Tokyo Night Light"@.len() == 17 && "Tokyo Night Light"@[0] == 'T' && "Tokyo Night Light"@[12] == 'L');
    assert("Kanagawa Wave"@.len() == 13 && "Kanagawa Wave"@[0] == 'K' && "Kanagawa Wave"@[12] == 'e');
    assert("Kanagawa Dragon"@.len() == 15 && "Kanagawa Dragon"@[0] == 'K' && "Kanagawa Dragon"@[12] == 'g');
    assert("Kanagawa Lotus"@.len() == 14 && "Kanagawa Lotus"@[0] == 'K' && "Kanagawa Lotus"@[12] == 'u');
    assert("Moonfly"@.len() == 7 && "Moonfly"@[0] == 'M');
    assert("Nightfly"@.len() == 8 && "Nightfly"@[0] == 'N');
    assert("Oxocarbon"@.len() == 9 && "Oxocarbon"@[0] == 'O');
    assert("Ferra"@.len() == 5 && "Ferra"@[0] == 'F');
}

/// The launcher's GUI settings, stored in the launcher's own settings file.
#[derive(Debug, Clone)]
pub struct Config {
    theme: String,
}

impl Config {
    /// The name of the theme the launcher is displayed in.
    pub fn theme(&self) -> (r: &str)
        ensures
            r@ == self.spec_theme(),
    {
        self.theme.as_str()
    }

    /// The same settings with the theme name replaced.
    pub fn with_theme(self, theme: String) -> (r: Config)
        ensures
            r.spec_theme() == theme@,
    {
        Config { theme }
    }

    /// Settings that use the given theme name.
    pub fn with_theme_name(theme: String) -> (r: Config)
        ensures
            r.spec_theme() == theme@,
    {
        Config { theme }
    }

    /// The theme name that these settings hold.
    pub closed spec fn spec_theme(&self) -> Seq<char> {
        self.theme@
    }
}

impl Default for Config {
    /// Settings that name the default theme.
    fn default() -> (r: Config)
        ensures
            r.spec_theme() == spec_theme_label(ThemeName::Ferra),
    {
        let t = default_theme();
        Config { theme: theme_label(t).to_owned() }
    }
}

/// Each theme is written under its own name, as the configuration file
/// spells it, and that name reads back as the same theme: "Solarized Dark" is
/// the Solarized Dark theme, "Gruvbox Dark" the Gruvbox Dark theme, and so on
/// for every theme.
pub proof fn lemma_theme_names()
    ensures
        spec_theme_label(ThemeName::Light) == "Light"@ && spec_theme_from("Light"@) == Some(ThemeName::Light),
        spec_theme_label(ThemeName::Dark) == "Dark"@ && spec_theme_from("Dark"@) == Some(ThemeName::Dark),
        spec_theme_label(ThemeName::Dracula) == "Dracula"@ && spec_theme_from("Dracula"@) == Some(ThemeName::Dracula),
        spec_theme_label(ThemeName::Nord) == "Nord"@ && spec_theme_from("Nord"@) == Some(ThemeName::Nord),
        spec_theme_label(ThemeName::SolarizedLight) == "Solarized Light"@ && spec_theme_from("Solarized Light"@) == Some(ThemeName::SolarizedLight),
        spec_theme_label(ThemeName::SolarizedDark) == "Solarized Dark"@ && spec_theme_from("Solarized Dark"@) == Some(ThemeName::SolarizedDark),
        spec_theme_label(ThemeName::GruvboxLight) == "Gruvbox Light"@ && spec_theme_from("Gruvbox Light"@) == Some(ThemeName::GruvboxLight),
        spec_theme_label(ThemeName::GruvboxDark) == "Gruvbox Dark"@ && spec_theme_from("Gruvbox Dark"@) == Some(ThemeName::GruvboxDark),
        spec_theme_label(ThemeName::CatppuccinLatte) == "Catppuccin Latte"@ && spec_theme_from("Catppuccin Latte"@) == Some(ThemeName::CatppuccinLatte),
        spec_theme_label(ThemeName::CatppuccinFrappe) == "Catppuccin Frappé"@ && spec_theme_from("Catppuccin Frappé"@) == Some(ThemeName::CatppuccinFrappe),
        spec_theme_label(ThemeName::CatppuccinMacchiato) == "Catppuccin Macchiato"@ && spec_theme_from("Catppuccin Macchiato"@) == Some(ThemeName::CatppuccinMacchiato),
        spec_theme_label(ThemeName::CatppuccinMocha) == "Catppuccin Mocha"@ && spec_theme_from("Catppuccin Mocha"@) == Some(ThemeName::CatppuccinMocha),
        spec_theme_label(ThemeName::TokyoNight) == "Tokyo Night"@ && spec_theme_from("Tokyo Night"@) == Some(ThemeName::TokyoNight),
        spec_theme_label(ThemeName::TokyoNightStorm) == "Tokyo Night Storm"@ && spec_theme_from("Tokyo Night Storm"@) == Some(ThemeName::TokyoNightStorm),
        spec_theme_label(ThemeName::TokyoNightLight) == "Tokyo Night Light"@ && spec_theme_from("Tokyo Night Light"@) == Some(ThemeName::TokyoNightLight),
        spec_theme_label(ThemeName::KanagawaWave) == "Kanagawa Wave"@ && spec_theme_from("Kanagawa Wave"@) == Some(ThemeName::KanagawaWave),
        spec_theme_label(ThemeName::KanagawaDragon) == "Kanagawa Dragon"@ && spec_theme_from("Kanagawa Dragon"@) == Some(ThemeName::KanagawaDragon),
        spec_theme_label(ThemeName::KanagawaLotus) == "Kanagawa Lotus"@ && spec_theme_from("Kanagawa Lotus"@) == Some(ThemeName::KanagawaLotus),
        spec_theme_label(ThemeName::Moonfly) == "Moonfly"@ && spec_theme_from("Moonfly"@) == Some(ThemeName::Moonfly),
        spec_theme_label(ThemeName::Nightfly) == "Nightfly"@ && spec_theme_from("Nightfly"@) == Some(ThemeName::Nightfly),
        spec_theme_label(ThemeName::Oxocarbon) == "Oxocarbon"@ && spec_theme_from("Oxocarbon"@) == Some(ThemeName::Oxocarbon),
        spec_theme_label(ThemeName::Ferra) == "Ferra"@ && spec_theme_from("Ferra"@) == Some(ThemeName::Ferra),
{
    lemma_theme_label_round_trip(ThemeName::Light);
    lemma_theme_label_round_trip(ThemeName::Dark);
    lemma_theme_label_round_trip(ThemeName::Dracula);
    lemma_theme_label_round_trip(ThemeName::Nord);
    lemma_theme_label_round_trip(ThemeName::SolarizedLight);
    lemma_theme_label_round_trip(ThemeName::SolarizedDark);
    lemma_theme_label_round_trip(ThemeName::GruvboxLight);
    lemma_theme_label_round_trip(ThemeName::GruvboxDark);
    lemma_theme_label_round_trip(ThemeName::CatppuccinLatte);
    lemma_theme_label_round_trip(ThemeName::CatppuccinFrappe);
    lemma_theme_label_round_trip(ThemeName::CatppuccinMacchiato);
    lemma_theme_label_round_trip(ThemeName::CatppuccinMocha);
    lemma_theme_label_round_trip(ThemeName::TokyoNight);
    lemma_theme_label_round_trip(ThemeName::TokyoNightStorm);
    lemma_theme_label_round_trip(ThemeName::TokyoNightLight);
    lemma_theme_label_round_trip(ThemeName::KanagawaWave);
    lemma_theme_label_round_trip(ThemeName::KanagawaDragon);
    lemma_theme_label_round_trip(ThemeName::KanagawaLotus);
    lemma_theme_label_round_trip(ThemeName::Moonfly);
    lemma_theme_label_round_trip(ThemeName::Nightfly);
    lemma_theme_label_round_trip(ThemeName::Oxocarbon);
    lemma_theme_label_round_trip(ThemeName::Ferra);
}

/// A text reads as a theme only when it is exactly that theme's name.
pub proof fn lemma_theme_from_reads_only_names(s: Seq<char>)
    ensures
        spec_theme_from(s) matches Some(t) ==> s == spec_theme_label(t),
{
}

/// The default settings name a theme that is known, and it is the default theme.
pub proof fn lemma_default_config_theme_is_known()
    ensures
        spec_theme_from(spec_theme_label(ThemeName::Ferra)) == Some(ThemeName::Ferra),
{
    lemma_theme_label_round_trip(ThemeName::Ferra);
}

/// The launcher-wide state shared by every tab: settings, loading flag, the
/// log events received so far and the theme in use.
#[derive(Debug, Clone)]
pub struct Root {
    config: Config,
    loading: bool,
    logs: Vec<LogEvent>,
    theme: ThemeName,
}

impl Root {
    pub closed spec fn spec_config(&self) -> Config {
        self.config
    }

    pub closed spec fn spec_loading(&self) -> bool {
        self.loading
    }

    pub closed spec fn spec_theme(&self) -> ThemeName {
        self.theme
    }

    pub closed spec fn spec_logs(&self) -> Seq<LogEvent> {
        self.logs@
    }

    /// The current settings.
    pub fn config(&self) -> (r: &Config)
        ensures
            *r == self.spec_config(),
    {
        &self.config
    }

    /// The theme in use.
    pub fn theme(&self) -> (r: ThemeName)
        ensures
            r == self.spec_theme(),
    {
        self.theme
    }

    /// The log events received so far, oldest first.
    pub fn logs(&self) -> (r: &Vec<LogEvent>)
        ensures
            r@ == self.spec_logs(),
    {
        &self.logs
    }

    /// A log event arrived: it is kept after the others.
    pub fn record_log(&mut self, event: LogEvent)
        ensures
            final(self).spec_logs() == old(self).spec_logs().push(event),
            final(self).spec_config() == old(self).spec_config(),
            final(self).spec_loading() == old(self).spec_loading(),
            final(self).spec_theme() == old(self).spec_theme(),
    {
        self.logs.push(event);
    }

    /// Whether the launcher is still loading its settings.
    pub fn is_loading(&self) -> (r: bool)
        ensures
            r == self.spec_loading(),
    {
        self.loading
    }

    /// The same state with the settings replaced; the theme in use is kept.
    pub fn with_config(self, config: Config) -> (r: Root)
        ensures
            r.spec_config() == config,
            r.spec_loading() == self.spec_loading(),
            r.spec_logs() == self.spec_logs(),
            r.spec_theme() == self.spec_theme(),
    {
        Root { config, ..self }
    }

    /// Loading has finished.
    pub fn finish_loading(&mut self)
        ensures
            !final(self).spec_loading(),
            final(self).spec_config() == old(self).spec_config(),
            final(self).spec_logs() == old(self).spec_logs(),
            final(self).spec_theme() == old(self).spec_theme(),
    {
        self.loading = false;
    }

    /// Takes freshly read settings: they replace the old ones, and their theme
    /// becomes the theme in use when it names a known theme; otherwise the
    /// theme in use stays.
    pub fn refresh_config(&mut self, config: Config)
        ensures
            final(self).spec_config() == config,
            final(self).spec_loading() == old(self).spec_loading(),
            final(self).spec_logs() == old(self).spec_logs(),
            final(self).spec_theme() == (match spec_theme_from(config.spec_theme()) {
                Some(t) => t,
                None => old(self).spec_theme(),
            }),
    {
        let found = theme_from(config.theme());
        self.config = config;
        if let Some(t) = found {
            self.theme = t;
        }
    }
}

impl Default for Root {
    /// Default settings, still loading, no log events, in the default theme.
    fn default() -> (r: Root)
        ensures
            r.spec_config().spec_theme() == spec_theme_label(ThemeName::Ferra),
            r.spec_loading(),
            r.spec_logs().len() == 0,
            r.spec_theme() == ThemeName::Ferra,
    {
        Root { config: Config::default(), loading: true, logs: Vec::new(), theme: default_theme() }
    }
}

} // verus!

//! The settings of the wrapper and their defaults.

use vstd::prelude::*;

verus! {

#[derive(Debug, Clone)]
pub struct Config {
    pub border: BorderConfig,
    pub behavior: BehaviorConfig,
}

#[derive(Debug, Clone)]
pub struct BorderConfig {
    pub style: BorderStyle,
    /// The colour of the border while the pane has the focus.
    pub active_color: String,
    /// The colour of the border while it has not.
    pub inactive_color: String,
}

#[derive(Debug, Clone)]
pub struct BehaviorConfig {
    /// Dim the content of a pane without the focus.
    pub dim_inactive: bool,
}

#[derive(Debug, Clone, Copy, PartialEq, Eq, Structural)]
pub enum BorderStyle {
    Rounded,
    Heavy,
    Double,
    Single,
    Ascii,
}

/// What a configuration file sets; every option may be missing.
#[derive(Debug, Clone)]
pub struct Settings {
    pub style: Option<BorderStyle>,
    pub active_color: Option<String>,
    pub inactive_color: Option<String>,
    pub dim_inactive: Option<bool>,
}

/// The border colour of a focused pane where none is set.
pub open spec fn default_active_color() -> Seq<char> {
    "#61afef"@
}

/// The border colour of an unfocused pane where none is set.
pub open spec fn default_inactive_color() -> Seq<char> {
    "#5c6370"@
}

/// The option's text, or else the given one.
pub open spec fn text_or(option: Option<String>, default: Seq<char>) -> Seq<char> {
    match option {
        Some(s) => s@,
        None => default,
    }
}

/// A text that is set counts, and otherwise the default; blue with the focus and
/// grey without it.
pub proof fn law_defaults(set: String)
    ensures
        text_or(Some(set), default_active_color()) == set@,
        text_or(None, default_active_color()) == "#61afef"@,
        text_or(Some(set), default_inactive_color()) == set@,
        text_or(None, default_inactive_color()) == "#5c6370"@,
{
}

impl Default for BorderConfig {
    fn default() -> (c: Self)
        ensures
            c.style == BorderStyle::Rounded,
            c.active_color@ == default_active_color(),
            c.inactive_color@ == default_inactive_color(),
    {
        BorderConfig {
            style: BorderStyle::Rounded,
            active_color: "#61afef".to_owned(),
            inactive_color: "#5c6370".to_owned(),
        }
    }
}

impl Default for BehaviorConfig {
    fn default() -> (c: Self)
        ensures
            !c.dim_inactive,
    {
        BehaviorConfig { dim_inactive: false }
    }
}

impl Default for Config {
    fn default() -> (c: Self)
        ensures
            c.border.style == BorderStyle::Rounded,
            c.border.active_color@ == default_active_color(),
            c.border.inactive_color@ == default_inactive_color(),
            !c.behavior.dim_inactive,
    {
        Config { border: BorderConfig::default(), behavior: BehaviorConfig::default() }
    }
}

impl Config {
    /// The configuration in force: what the file sets, and the defaults for
    /// all that it leaves out. `settings` is `None` where there is no file
    /// that could be read and understood.
    pub fn load(settings: Option<Settings>) -> (c: Config)
        ensures
            match settings {
                Some(s) => {
                    &&& c.border.style == (match s.style {
                        Some(style) => style,
                        None => BorderStyle::Rounded,
                    })
                    &&& c.border.active_color@ == text_or(s.active_color, default_active_color())
                    &&& c.border.inactive_color@ == text_or(
                        s.inactive_color,
                        default_inactive_color(),
                    )
                    &&& c.behavior.dim_inactive == (s.dim_inactive == Some(true))
                },
                None => {
                    &&& c.border.style == BorderStyle::Rounded
                    &&& c.border.active_color@ == default_active_color()
                    &&& c.border.inactive_color@ == default_inactive_color()
                    &&& !c.behavior.dim_inactive
                },
            },
    {
        let mut config: Config = Config::default();
        if let Some(s) = settings {
            if let Some(style) = s.style {
                config.border.style = style;
            }
            if let Some(color) = s.active_color {
                config.border.active_color = color;
            }
            if let Some(color) = s.inactive_color {
                config.border.inactive_color = color;
            }
            if let Some(dim) = s.dim_inactive {
                config.behavior.dim_inactive = dim;
            }
        }
        config
    }
}

} // verus!

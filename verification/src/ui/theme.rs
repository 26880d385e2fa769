//! The two colour themes and the colour of each part of the dashboard.
use vstd::prelude::*;

use crate::score::Severity;

verus! {

/// A colour given by its red, green and blue components.
#[derive(Debug, Clone, Copy, PartialEq, Eq, Structural)]
pub struct Rgb {
    pub r: u8,
    pub g: u8,
    pub b: u8,
}

/// The colour with the given components.
pub open spec fn rgb(r: u8, g: u8, b: u8) -> Rgb {
    Rgb { r, g, b }
}

/// The dark or the light colour theme.
#[derive(Debug, Clone, Copy, PartialEq, Eq, Structural)]
pub enum Theme {
    Dark,
    Light,
}

/// The colour of a repository or profile score: green from 90 to 100, a
/// lighter green from 70, the warning colour from 50, orange from 30, and
/// the danger colour below 30 (and above 100).
pub open spec fn score_color_of(theme: Theme, score: u8) -> Rgb {
    if 90 <= score <= 100 {
        theme_highlight(theme)
    } else if 70 <= score <= 89 {
        rgb(63, 185, 80)
    } else if 50 <= score <= 69 {
        rgb(255, 193, 7)
    } else if 30 <= score <= 49 {
        rgb(255, 140, 0)
    } else {
        rgb(220, 53, 69)
    }
}

/// The highlight colour of a theme.
pub open spec fn theme_highlight(theme: Theme) -> Rgb {
    match theme {
        Theme::Dark => rgb(35, 134, 54),
        Theme::Light => rgb(40, 167, 69),
    }
}

/// The five heatmap colours of a theme, from no activity to the most.
pub open spec fn heatmap_palette(theme: Theme) -> Seq<Rgb> {
    match theme {
        Theme::Dark => seq![
            rgb(22, 27, 34),
            rgb(14, 68, 41),
            rgb(0, 109, 50),
            rgb(38, 166, 65),
            rgb(63, 185, 80),
        ],
        Theme::Light => seq![
            rgb(235, 237, 240),
            rgb(155, 233, 168),
            rgb(64, 196, 99),
            rgb(48, 161, 78),
            rgb(33, 110, 57),
        ],
    }
}

/// The other theme.
pub open spec fn toggled(t: Theme) -> Theme {
    match t {
        Theme::Dark => Theme::Light,
        Theme::Light => Theme::Dark,
    }
}

impl Theme {
    /// The other theme.
    pub fn toggle(self) -> (t: Theme)
        ensures
            t == toggled(self),
    {
        match self {
            Theme::Dark => Theme::Light,
            Theme::Light => Theme::Dark,
        }
    }

    /// The background colour.
    pub fn bg(self) -> (c: Rgb)
        ensures
            c == (match self {
                Theme::Dark => rgb(13, 17, 23),
                Theme::Light => rgb(255, 255, 255),
            }),
    {
        match self {
            Theme::Dark => Rgb { r: 13, g: 17, b: 23 },
            Theme::Light => Rgb { r: 255, g: 255, b: 255 },
        }
    }

    /// The text colour.
    pub fn fg(self) -> (c: Rgb)
        ensures
            c == (match self {
                Theme::Dark => rgb(201, 209, 217),
                Theme::Light => rgb(36, 41, 47),
            }),
    {
        match self {
            Theme::Dark => Rgb { r: 201, g: 209, b: 217 },
            Theme::Light => Rgb { r: 36, g: 41, b: 47 },
        }
    }

    /// The accent colour (titles, selection).
    pub fn accent(self) -> (c: Rgb)
        ensures
            c == (match self {
                Theme::Dark => rgb(88, 166, 255),
                Theme::Light => rgb(3, 102, 214),
            }),
    {
        match self {
            Theme::Dark => Rgb { r: 88, g: 166, b: 255 },
            Theme::Light => Rgb { r: 3, g: 102, b: 214 },
        }
    }

    /// The highlight colour (passed checks, top scores).
    pub fn highlight(self) -> (c: Rgb)
        ensures
            c == theme_highlight(self),
    {
        match self {
            Theme::Dark => Rgb { r: 35, g: 134, b: 54 },
            Theme::Light => Rgb { r: 40, g: 167, b: 69 },
        }
    }

    /// The warning colour, the same in both themes.
    pub fn warn(self) -> (c: Rgb)
        ensures
            c == rgb(255, 193, 7),
    {
        Rgb { r: 255, g: 193, b: 7 }
    }

    /// The danger colour, the same in both themes.
    pub fn danger(self) -> (c: Rgb)
        ensures
            c == rgb(220, 53, 69),
    {
        Rgb { r: 220, g: 53, b: 69 }
    }

    /// The colour of secondary text.
    pub fn muted(self) -> (c: Rgb)
        ensures
            c == (match self {
                Theme::Dark => rgb(110, 118, 129),
                Theme::Light => rgb(140, 149, 159),
            }),
    {
        match self {
            Theme::Dark => Rgb { r: 110, g: 118, b: 129 },
            Theme::Light => Rgb { r: 140, g: 149, b: 159 },
        }
    }

    /// The colour of borders.
    pub fn border(self) -> (c: Rgb)
        ensures
            c == (match self {
                Theme::Dark => rgb(48, 54, 61),
                Theme::Light => rgb(209, 217, 224),
            }),
    {
        match self {
            Theme::Dark => Rgb { r: 48, g: 54, b: 61 },
            Theme::Light => Rgb { r: 209, g: 217, b: 224 },
        }
    }

    /// The background of panels.
    pub fn panel_bg(self) -> (c: Rgb)
        ensures
            c == (match self {
                Theme::Dark => rgb(22, 27, 34),
                Theme::Light => rgb(246, 248, 250),
            }),
    {
        match self {
            Theme::Dark => Rgb { r: 22, g: 27, b: 34 },
            Theme::Light => Rgb { r: 246, g: 248, b: 250 },
        }
    }

    /// The background of the selected row.
    pub fn selected_bg(self) -> (c: Rgb)
        ensures
            c == (match self {
                Theme::Dark => rgb(33, 38, 45),
                Theme::Light => rgb(225, 235, 245),
            }),
    {
        match self {
            Theme::Dark => Rgb { r: 33, g: 38, b: 45 },
            Theme::Light => Rgb { r: 225, g: 235, b: 245 },
        }
    }

    /// The colour that shows a score.
    pub fn score_color(self, score: u8) -> (c: Rgb)
        ensures
            c == score_color_of(self, score),
    {
        if 90 <= score && score <= 100 {
            self.highlight()
        } else if 70 <= score && score <= 89 {
            Rgb { r: 63, g: 185, b: 80 }
        } else if 50 <= score && score <= 69 {
            self.warn()
        } else if 30 <= score && score <= 49 {
            Rgb { r: 255, g: 140, b: 0 }
        } else {
            self.danger()
        }
    }

    /// The colour of advice of a severity: danger for critical advice, the
    /// warning colour for warnings, the accent for information, the highlight
    /// for praise.
    pub fn severity_color(self, severity: Severity) -> (c: Rgb)
        ensures
            c == (match severity {
                Severity::Critical => rgb(220, 53, 69),
                Severity::Warning => rgb(255, 193, 7),
                Severity::Info => match self {
                    Theme::Dark => rgb(88, 166, 255),
                    Theme::Light => rgb(3, 102, 214),
                },
                Severity::Good => theme_highlight(self),
            }),
    {
        match severity {
            Severity::Critical => self.danger(),
            Severity::Warning => self.warn(),
            Severity::Info => self.accent(),
            Severity::Good => self.highlight(),
        }
    }

    /// The heatmap colours, from no activity to the most.
    pub fn heatmap_colors(self) -> (c: [Rgb; 5])
        ensures
            c@ == heatmap_palette(self),
    {
        let c = match self {
            Theme::Dark => [
                Rgb { r: 22, g: 27, b: 34 },
                Rgb { r: 14, g: 68, b: 41 },
                Rgb { r: 0, g: 109, b: 50 },
                Rgb { r: 38, g: 166, b: 65 },
                Rgb { r: 63, g: 185, b: 80 },
            ],
            Theme::Light => [
                Rgb { r: 235, g: 237, b: 240 },
                Rgb { r: 155, g: 233, b: 168 },
                Rgb { r: 64, g: 196, b: 99 },
                Rgb { r: 48, g: 161, b: 78 },
                Rgb { r: 33, g: 110, b: 57 },
            ],
        };
        assert(c@ =~= heatmap_palette(self));
        c
    }
}

/// Toggling the theme twice gives the theme back, and toggling always
/// changes it.
pub proof fn law_toggle_twice(t: Theme)
    ensures
        toggled(toggled(t)) == t,
        toggled(t) != t,
{
}

} // verus!

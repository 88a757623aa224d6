//! Card themes, the built-in presets, and the 256-color ANSI palette.
use vstd::prelude::*;
use crate::text::{hex2, push_char, push_hex2, str_eq};

verus! {

/// Card theme: plain parameters read by both the preview and the exporter.
#[derive(Debug, Clone, PartialEq)]
pub struct Theme {
    pub preset: String,
    /// Outer backdrop of the card (behind the window).
    pub backdrop: String,
    /// Terminal window background.
    pub background: String,
    /// Default foreground color of the text.
    pub foreground: String,
    /// Accent color (prompt, active title).
    pub accent: String,
    pub title: String,
    pub show_traffic_lights: bool,
    pub show_shadow: bool,
    pub corner_radius: u32,
    /// Window inner padding (around the text).
    pub padding: u32,
    /// Transparent outer margin around the card.
    pub outer_margin: u32,
    /// Font size in px (base render unit; the export multiplies it).
    pub font_size: u32,
    /// Fixed card (terminal window) width in px; `None` fits the width to the
    /// longest line.
    pub card_width: Option<u32>,
    pub prompt_symbol: String,
}

/// Abstract value of a `Theme`.
pub struct ThemeView {
    pub preset: Seq<char>,
    pub backdrop: Seq<char>,
    pub background: Seq<char>,
    pub foreground: Seq<char>,
    pub accent: Seq<char>,
    pub title: Seq<char>,
    pub show_traffic_lights: bool,
    pub show_shadow: bool,
    pub corner_radius: u32,
    pub padding: u32,
    pub outer_margin: u32,
    pub font_size: u32,
    pub card_width: Option<u32>,
    pub prompt_symbol: Seq<char>,
}

impl View for Theme {
    type V = ThemeView;

    open spec fn view(&self) -> ThemeView {
        ThemeView {
            preset: self.preset@,
            backdrop: self.backdrop@,
            background: self.background@,
            foreground: self.foreground@,
            accent: self.accent@,
            title: self.title@,
            show_traffic_lights: self.show_traffic_lights,
            show_shadow: self.show_shadow,
            corner_radius: self.corner_radius,
            padding: self.padding,
            outer_margin: self.outer_margin,
            font_size: self.font_size,
            card_width: self.card_width,
            prompt_symbol: self.prompt_symbol@,
        }
    }
}

/// The default theme (the "mac-dark" preset).
pub open spec fn default_theme() -> ThemeView {
    ThemeView {
        preset: "mac-dark"@,
        backdrop: "transparent"@,
        background: "#1e1e2e"@,
        foreground: "#cdd6f4"@,
        accent: "#cba6f7"@,
        title: "user@localhost: ~"@,
        show_traffic_lights: true,
        show_shadow: true,
        corner_radius: 12,
        padding: 24,
        outer_margin: 8,
        font_size: 14,
        card_width: None,
        prompt_symbol: "❯"@,
    }
}

impl Default for Theme {
    fn default() -> (t: Theme)
        ensures
            t@ == default_theme(),
    {
        Theme {
            preset: String::from_str("mac-dark"),
            backdrop: String::from_str("transparent"),
            background: String::from_str("#1e1e2e"),
            foreground: String::from_str("#cdd6f4"),
            accent: String::from_str("#cba6f7"),
            title: String::from_str("user@localhost: ~"),
            show_traffic_lights: true,
            show_shadow: true,
            corner_radius: 12,
            outer_margin: 8,
            padding: 24,
            font_size: 14,
            card_width: None,
            prompt_symbol: String::from_str("❯"),
        }
    }
}

#[derive(Debug, Clone, Copy, PartialEq, Eq, Structural)]
pub enum Preset {
    // Dark presets.
    MacDark,
    TokyoNight,
    Dracula,
    GruvboxDark,
    Nord,
    Solarized,
    // Light presets.
    MacLight,
    Latte,
    SolarizedLight,
    GruvboxLight,
    NordLight,
}

/// Stable identifier of a preset (the `preset` field of its theme).
pub open spec fn preset_id(p: Preset) -> Seq<char> {
    match p {
        Preset::MacDark => "mac-dark"@,
        Preset::TokyoNight => "tokyo-night"@,
        Preset::Dracula => "dracula"@,
        Preset::GruvboxDark => "gruvbox-dark"@,
        Preset::Nord => "nord"@,
        Preset::Solarized => "solarized"@,
        Preset::MacLight => "mac-light"@,
        Preset::Latte => "catppuccin-latte"@,
        Preset::SolarizedLight => "solarized-light"@,
        Preset::GruvboxLight => "gruvbox-light"@,
        Preset::NordLight => "nord-light"@,
    }
}

/// Window background, default foreground and accent of a preset.
pub open spec fn preset_colors(p: Preset) -> (Seq<char>, Seq<char>, Seq<char>) {
    match p {
        Preset::MacDark => ("#1e1e2e"@, "#cdd6f4"@, "#cba6f7"@),
        Preset::TokyoNight => ("#1a1b26"@, "#a9b1d6"@, "#7aa2f7"@),
        Preset::Dracula => ("#282a36"@, "#f8f8f2"@, "#bd93f9"@),
        Preset::GruvboxDark => ("#282828"@, "#ebdbb2"@, "#fe8019"@),
        Preset::Nord => ("#2e3440"@, "#d8dee9"@, "#88c0d0"@),
        Preset::Solarized => ("#002b36"@, "#93a1a1"@, "#b58900"@),
        Preset::MacLight => ("#f5f5f4"@, "#3f3f46"@, "#d20f39"@),
        Preset::Latte => ("#eff1f5"@, "#4c4f69"@, "#8839ef"@),
        Preset::SolarizedLight => ("#fdf6e3"@, "#586e75"@, "#268bd2"@),
        Preset::GruvboxLight => ("#fbf1c7"@, "#3c3836"@, "#b57614"@),
        Preset::NordLight => ("#eceff4"@, "#2e3440"@, "#5e81ac"@),
    }
}

/// Full theme of a preset: the default theme with the preset's identifier
/// and colors.
pub open spec fn preset_theme_view(p: Preset) -> ThemeView {
    let (bg, fg, accent) = preset_colors(p);
    ThemeView {
        preset: preset_id(p),
        background: bg,
        foreground: fg,
        accent: accent,
        ..default_theme()
    }
}

/// The presets in UI order.
pub open spec fn all_presets() -> Seq<Preset> {
    seq![
        Preset::MacDark,
        Preset::TokyoNight,
        Preset::Dracula,
        Preset::GruvboxDark,
        Preset::Nord,
        Preset::Solarized,
        Preset::MacLight,
        Preset::Latte,
        Preset::SolarizedLight,
        Preset::GruvboxLight,
        Preset::NordLight,
    ]
}

impl Preset {
    /// All presets, in UI order.
    pub const ALL: [Preset; 11] = [
        Preset::MacDark,
        Preset::TokyoNight,
        Preset::Dracula,
        Preset::GruvboxDark,
        Preset::Nord,
        Preset::Solarized,
        Preset::MacLight,
        Preset::Latte,
        Preset::SolarizedLight,
        Preset::GruvboxLight,
        Preset::NordLight,
    ];

    /// Stable identifier of the preset (matches `theme.preset`).
    pub fn id(self) -> (s: &'static str)
        ensures
            s@ == preset_id(self),
    {
        match self {
            Preset::MacDark => "mac-dark",
            Preset::TokyoNight => "tokyo-night",
            Preset::Dracula => "dracula",
            Preset::GruvboxDark => "gruvbox-dark",
            Preset::Nord => "nord",
            Preset::Solarized => "solarized",
            Preset::MacLight => "mac-light",
            Preset::Latte => "catppuccin-latte",
            Preset::SolarizedLight => "solarized-light",
            Preset::GruvboxLight => "gruvbox-light",
            Preset::NordLight => "nord-light",
        }
    }
}


proof fn preset_id_shape(p: Preset)
    ensures
        preset_id(p).len() == match p {
            Preset::MacDark => 8int,
            Preset::TokyoNight => 11,
            Preset::Dracula => 7,
            Preset::GruvboxDark => 12,
            Preset::Nord => 4,
            Preset::Solarized => 9,
            Preset::MacLight => 9,
            Preset::Latte => 16,
            Preset::SolarizedLight => 15,
            Preset::GruvboxLight => 13,
            Preset::NordLight => 10,
        },
        p == Preset::Solarized ==> preset_id(p)[0] == 's',
        p == Preset::MacLight ==> preset_id(p)[0] == 'm',
{
    match p {
        Preset::MacDark => { reveal_strlit("mac-dark"); },
        Preset::TokyoNight => { reveal_strlit("tokyo-night"); },
        Preset::Dracula => { reveal_strlit("dracula"); },
        Preset::GruvboxDark => { reveal_strlit("gruvbox-dark"); },
        Preset::Nord => { reveal_strlit("nord"); },
        Preset::Solarized => { reveal_strlit("solarized"); },
        Preset::MacLight => { reveal_strlit("mac-light"); },
        Preset::Latte => { reveal_strlit("catppuccin-latte"); },
        Preset::SolarizedLight => { reveal_strlit("solarized-light"); },
        Preset::GruvboxLight => { reveal_strlit("gruvbox-light"); },
        Preset::NordLight => { reveal_strlit("nord-light"); },
    }
}

/// Every preset has its own identifier.
pub proof fn preset_ids_distinct(p: Preset, q: Preset)
    requires
        preset_id(p) == preset_id(q),
    ensures
        p == q,
{
    preset_id_shape(p);
    preset_id_shape(q);
}

impl Preset {
    /// Preset from its theme identifier (`preset` in the theme).
    pub fn from_id(id: &str) -> (r: Option<Preset>)
        ensures
            match r {
                Some(p) => preset_id(p) == id@,
                None => forall|p: Preset| preset_id(p) != id@,
            },
    {
        let all = Preset::ALL;
        assert(all@ =~= all_presets());
        let mut i: usize = 0;
        while i < 11
            invariant
                i <= 11,
                all@ == all_presets(),
                forall|j: int| 0 <= j < i ==> preset_id(#[trigger] all_presets()[j]) != id@,
            decreases 11 - i,
        {
            let p = all[i];
            if str_eq(p.id(), id) {
                return Some(p);
            }
            i = i + 1;
        }
        proof {
            assert forall|p: Preset| preset_id(p) != id@ by {
                let j: int = match p {
                    Preset::MacDark => 0,
                    Preset::TokyoNight => 1,
                    Preset::Dracula => 2,
                    Preset::GruvboxDark => 3,
                    Preset::Nord => 4,
                    Preset::Solarized => 5,
                    Preset::MacLight => 6,
                    Preset::Latte => 7,
                    Preset::SolarizedLight => 8,
                    Preset::GruvboxLight => 9,
                    Preset::NordLight => 10,
                };
                assert(all_presets()[j] == p);
            }
        }
        None
    }

    /// Full theme of each preset: the default theme with the preset's
    /// identifier, window background, foreground and accent.
    pub fn theme(self) -> (t: Theme)
        ensures
            t@ == preset_theme_view(self),
    {
        let base = Theme::default();
        match self {
            Preset::MacDark => base,
            Preset::TokyoNight => Theme {
                preset: String::from_str("tokyo-night"),
                background: String::from_str("#1a1b26"),
                foreground: String::from_str("#a9b1d6"),
                accent: String::from_str("#7aa2f7"),
                ..base
            },
            Preset::Dracula => Theme {
                preset: String::from_str("dracula"),
                background: String::from_str("#282a36"),
                foreground: String::from_str("#f8f8f2"),
                accent: String::from_str("#bd93f9"),
                ..base
            },
            Preset::GruvboxDark => Theme {
                preset: String::from_str("gruvbox-dark"),
                background: String::from_str("#282828"),
                foreground: String::from_str("#ebdbb2"),
                accent: String::from_str("#fe8019"),
                ..base
            },
            Preset::Nord => Theme {
                preset: String::from_str("nord"),
                background: String::from_str("#2e3440"),
                foreground: String::from_str("#d8dee9"),
                accent: String::from_str("#88c0d0"),
                ..base
            },
            Preset::Solarized => Theme {
                preset: String::from_str("solarized"),
                background: String::from_str("#002b36"),
                foreground: String::from_str("#93a1a1"),
                accent: String::from_str("#b58900"),
                ..base
            },
            Preset::MacLight => Theme {
                preset: String::from_str("mac-light"),
                background: String::from_str("#f5f5f4"),
                foreground: String::from_str("#3f3f46"),
                accent: String::from_str("#d20f39"),
                ..base
            },
            Preset::Latte => Theme {
                preset: String::from_str("catppuccin-latte"),
                background: String::from_str("#eff1f5"),
                foreground: String::from_str("#4c4f69"),
                accent: String::from_str("#8839ef"),
                ..base
            },
            Preset::SolarizedLight => Theme {
                preset: String::from_str("solarized-light"),
                background: String::from_str("#fdf6e3"),
                foreground: String::from_str("#586e75"),
                accent: String::from_str("#268bd2"),
                ..base
            },
            Preset::GruvboxLight => Theme {
                preset: String::from_str("gruvbox-light"),
                background: String::from_str("#fbf1c7"),
                foreground: String::from_str("#3c3836"),
                accent: String::from_str("#b57614"),
                ..base
            },
            Preset::NordLight => Theme {
                preset: String::from_str("nord-light"),
                background: String::from_str("#eceff4"),
                foreground: String::from_str("#2e3440"),
                accent: String::from_str("#5e81ac"),
                ..base
            },
        }
    }
}


/// Whether `r` is what `Preset::from_id` answers for the identifier `id`.
pub open spec fn from_id_answer(r: Option<Preset>, id: Seq<char>) -> bool {
    match r {
        Some(p) => preset_id(p) == id,
        None => forall|p: Preset| preset_id(p) != id,
    }
}

/// Looking a preset up by its own identifier finds that preset.
pub proof fn preset_id_roundtrip(p: Preset, r: Option<Preset>)
    requires
        from_id_answer(r, preset_id(p)),
    ensures
        r == Some(p),
{
    match r {
        Some(q) => preset_ids_distinct(p, q),
        None => {},
    }
}

/// All presets share one layout geometry; only colors differ between them.
pub proof fn presets_share_layout(p: Preset)
    ensures
        preset_theme_view(p).font_size == 14,
        preset_theme_view(p).corner_radius == 12,
        preset_theme_view(p).padding == 24,
        preset_theme_view(p).outer_margin == 8,
        preset_theme_view(p).backdrop == "transparent"@,
        preset_theme_view(p).show_shadow,
        preset_theme_view(p).show_traffic_lights,
        preset_theme_view(p).card_width is None,
        preset_theme_view(p).title == default_theme().title,
        preset_theme_view(p).prompt_symbol == default_theme().prompt_symbol,
{
}

/// Palette of the 16 base ANSI colors; indices 16 to 255 follow the
/// standard 6x6x6 cube and grayscale ramp.
#[derive(Debug, Clone, PartialEq)]
pub struct Palette {
    pub normal: [String; 8],
    pub bright: [String; 8],
}

/// Abstract value of a `Palette`.
pub struct PaletteView {
    pub normal: Seq<Seq<char>>,
    pub bright: Seq<Seq<char>>,
}

impl View for Palette {
    type V = PaletteView;

    open spec fn view(&self) -> PaletteView {
        PaletteView {
            normal: self.normal@.map_values(|c: String| c@),
            bright: self.bright@.map_values(|c: String| c@),
        }
    }
}

/// The default palette (Catppuccin Mocha).
pub open spec fn default_palette() -> PaletteView {
    PaletteView {
        normal: seq![
            "#45475a"@, "#f38ba8"@, "#a6e3a1"@, "#f9e2af"@,
            "#89b4fa"@, "#f5c2e7"@, "#94e2d5"@, "#bac2de"@,
        ],
        bright: seq![
            "#585b70"@, "#f38ba8"@, "#a6e3a1"@, "#f9e2af"@,
            "#89b4fa"@, "#f5c2e7"@, "#94e2d5"@, "#a6adc8"@,
        ],
    }
}

impl Default for Palette {
    fn default() -> (p: Palette)
        ensures
            p@ == default_palette(),
    {
        // ANSI-256 indexed colors are resolved against this palette everywhere;
        // per-preset palettes are not wired yet.
        let p = Palette {
            normal: [
                String::from_str("#45475a"), // black
                String::from_str("#f38ba8"), // red
                String::from_str("#a6e3a1"), // green
                String::from_str("#f9e2af"), // yellow
                String::from_str("#89b4fa"), // blue
                String::from_str("#f5c2e7"), // magenta
                String::from_str("#94e2d5"), // cyan
                String::from_str("#bac2de"), // white
            ],
            bright: [
                String::from_str("#585b70"),
                String::from_str("#f38ba8"),
                String::from_str("#a6e3a1"),
                String::from_str("#f9e2af"),
                String::from_str("#89b4fa"),
                String::from_str("#f5c2e7"),
                String::from_str("#94e2d5"),
                String::from_str("#a6adc8"),
            ],
        };
        assert(p@.normal =~= default_palette().normal);
        assert(p@.bright =~= default_palette().bright);
        p
    }
}

/// Channel level of the 6x6x6 color cube: 0, 95, 135, 175, 215, 255.
pub open spec fn cube_level(v: int) -> u8 {
    if v == 0 { 0 } else { (55 + v * 40) as u8 }
}

/// `#rrggbb` notation of three channels.
pub open spec fn rgb_text(r: u8, g: u8, b: u8) -> Seq<char> {
    seq!['#'] + hex2(r) + hex2(g) + hex2(b)
}

/// CSS color of an ANSI index: the palette for 0-15, the color cube for
/// 16-231 and the grayscale ramp for 232-255.
pub open spec fn palette_color(p: PaletteView, index: u8) -> Seq<char> {
    if index < 8 {
        p.normal[index as int]
    } else if index < 16 {
        p.bright[index - 8]
    } else if index < 232 {
        let i = index - 16;
        rgb_text(cube_level(i / 36), cube_level((i % 36) / 6), cube_level(i % 6))
    } else {
        let v = (8 + (index - 232) * 10) as u8;
        rgb_text(v, v, v)
    }
}

fn cube_channel(v: u32) -> (c: u8)
    requires
        v < 6,
    ensures
        c == cube_level(v as int),
{
    if v == 0 { 0 } else { (55 + v * 40) as u8 }
}

/// Appends the `#rrggbb` notation of three channels.
pub fn push_rgb(out: &mut String, r: u8, g: u8, b: u8)
    ensures
        final(out)@ == old(out)@ + rgb_text(r, g, b),
{
    let ghost start = out@;
    push_char(out, '#');
    push_hex2(out, r);
    push_hex2(out, g);
    push_hex2(out, b);
    assert(out@ =~= start + rgb_text(r, g, b));
}

impl Palette {
    /// Resolves an ANSI index 0-255 to a CSS color.
    pub fn resolve(&self, index: u8) -> (c: String)
        ensures
            c@ == palette_color(self@, index),
    {
        if index < 8 {
            self.normal[index as usize].clone()
        } else if index < 16 {
            self.bright[(index - 8) as usize].clone()
        } else if index < 232 {
            let i = (index - 16) as u32;
            let mut out = String::new();
            push_rgb(&mut out, cube_channel(i / 36), cube_channel((i % 36) / 6), cube_channel(i % 6));
            out
        } else {
            let v = (8 + (index as u32 - 232) * 10) as u8;
            let mut out = String::new();
            push_rgb(&mut out, v, v, v);
            out
        }
    }
}

/// Indices 16 to 231 are the 6x6x6 color cube: index `16 + 36r + 6g + b`
/// (each of `r`, `g`, `b` in 0..6) is `#rrggbb` with the red, green and blue
/// levels of `r`, `g` and `b`, a level `v` being 0 for `v == 0` and
/// `55 + 40v` otherwise (0, 95, 135, 175, 215, 255).
pub proof fn palette_cube_channels(p: PaletteView, r: int, g: int, b: int)
    requires
        0 <= r < 6,
        0 <= g < 6,
        0 <= b < 6,
    ensures
        palette_color(p, (16 + 36 * r + 6 * g + b) as u8) == seq!['#']
            + hex2((if r == 0 { 0 } else { 55 + 40 * r }) as u8)
            + hex2((if g == 0 { 0 } else { 55 + 40 * g }) as u8)
            + hex2((if b == 0 { 0 } else { 55 + 40 * b }) as u8),
{
    let i = 36 * r + 6 * g + b;
    assert(i / 36 == r);
    assert((i % 36) / 6 == g);
    assert(i % 6 == b);
}

/// Indices 232 to 255 are the grayscale ramp: index `232 + k` is the gray
/// `8 + 10k` on all three channels (from `#080808` to `#eeeeee`).
pub proof fn palette_gray_ramp(p: PaletteView, k: int)
    requires
        0 <= k < 24,
    ensures
        palette_color(p, (232 + k) as u8) == seq!['#'] + hex2((8 + 10 * k) as u8) + hex2((8 + 10 * k) as u8)
            + hex2((8 + 10 * k) as u8),
{
}

/// Indices 0 to 15 are the palette's own colors: 0 to 7 the normal ones and
/// 8 to 15 the bright ones, in order.
pub proof fn palette_base_colors(p: PaletteView, k: int)
    requires
        0 <= k < 8,
    ensures
        palette_color(p, k as u8) == p.normal[k],
        palette_color(p, (8 + k) as u8) == p.bright[k],
{
}

/// Each preset has its scheme's published colors: window background,
/// default foreground and accent (Solarized is the dark variant, Solarized
/// Light the light one).
pub proof fn preset_scheme_colors(p: Preset)
    ensures
        p == Preset::MacDark ==> preset_theme_view(p).background == "#1e1e2e"@ && preset_theme_view(p).foreground
            == "#cdd6f4"@ && preset_theme_view(p).accent == "#cba6f7"@,
        p == Preset::TokyoNight ==> preset_theme_view(p).background == "#1a1b26"@ && preset_theme_view(p).foreground
            == "#a9b1d6"@ && preset_theme_view(p).accent == "#7aa2f7"@,
        p == Preset::Dracula ==> preset_theme_view(p).background == "#282a36"@ && preset_theme_view(p).foreground
            == "#f8f8f2"@ && preset_theme_view(p).accent == "#bd93f9"@,
        p == Preset::GruvboxDark ==> preset_theme_view(p).background == "#282828"@ && preset_theme_view(p).foreground
            == "#ebdbb2"@ && preset_theme_view(p).accent == "#fe8019"@,
        p == Preset::Nord ==> preset_theme_view(p).background == "#2e3440"@ && preset_theme_view(p).foreground
            == "#d8dee9"@ && preset_theme_view(p).accent == "#88c0d0"@,
        p == Preset::Solarized ==> preset_theme_view(p).background == "#002b36"@ && preset_theme_view(p).foreground
            == "#93a1a1"@ && preset_theme_view(p).accent == "#b58900"@,
        p == Preset::MacLight ==> preset_theme_view(p).background == "#f5f5f4"@ && preset_theme_view(p).foreground
            == "#3f3f46"@ && preset_theme_view(p).accent == "#d20f39"@,
        p == Preset::Latte ==> preset_theme_view(p).background == "#eff1f5"@ && preset_theme_view(p).foreground
            == "#4c4f69"@ && preset_theme_view(p).accent == "#8839ef"@,
        p == Preset::SolarizedLight ==> preset_theme_view(p).background == "#fdf6e3"@ && preset_theme_view(p).foreground
            == "#586e75"@ && preset_theme_view(p).accent == "#268bd2"@,
        p == Preset::GruvboxLight ==> preset_theme_view(p).background == "#fbf1c7"@ && preset_theme_view(p).foreground
            == "#3c3836"@ && preset_theme_view(p).accent == "#b57614"@,
        p == Preset::NordLight ==> preset_theme_view(p).background == "#eceff4"@ && preset_theme_view(p).foreground
            == "#2e3440"@ && preset_theme_view(p).accent == "#5e81ac"@,
{
}

/// Distinct presets give distinct cards: no two presets share a window
/// background.
pub proof fn preset_backgrounds_distinct(p: Preset, q: Preset)
    requires
        p != q,
    ensures
        preset_theme_view(p).background != preset_theme_view(q).background,
{
    reveal_strlit("#1e1e2e");
    reveal_strlit("#1a1b26");
    reveal_strlit("#282a36");
    reveal_strlit("#282828");
    reveal_strlit("#2e3440");
    reveal_strlit("#002b36");
    reveal_strlit("#f5f5f4");
    reveal_strlit("#eff1f5");
    reveal_strlit("#fdf6e3");
    reveal_strlit("#fbf1c7");
    reveal_strlit("#eceff4");
    let a = preset_theme_view(p).background;
    let b = preset_theme_view(q).background;
    if a == b {
        assert(a[1] == b[1] && a[2] == b[2] && a[4] == b[4]);
    }
}

} // verus!

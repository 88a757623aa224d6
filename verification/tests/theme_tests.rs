use termcard::theme::{Palette, Preset};

#[test]
fn preset_mac_light_overrides_colors() {
    let t = Preset::MacLight.theme();
    assert_eq!(t.background, "#f5f5f4");
    assert!(t.show_traffic_lights);
}

/// New presets use their official scheme colors.
#[test]
fn presets_use_official_palette() {
    let cases: &[(&str, &str, &str, &str)] = &[
        ("tokyo-night", "#1a1b26", "#a9b1d6", "#7aa2f7"),
        ("dracula", "#282a36", "#f8f8f2", "#bd93f9"),
        ("gruvbox-dark", "#282828", "#ebdbb2", "#fe8019"),
        ("nord", "#2e3440", "#d8dee9", "#88c0d0"),
        ("catppuccin-latte", "#eff1f5", "#4c4f69", "#8839ef"),
        ("solarized-light", "#fdf6e3", "#586e75", "#268bd2"),
        ("gruvbox-light", "#fbf1c7", "#3c3836", "#b57614"),
        ("nord-light", "#eceff4", "#2e3440", "#5e81ac"),
    ];
    for (id, bg, fg, accent) in cases {
        let preset = Preset::from_id(id).unwrap();
        let t = preset.theme();
        assert_eq!(t.background, *bg, "{}", id);
        assert_eq!(t.foreground, *fg, "{}", id);
        assert_eq!(t.accent, *accent, "{}", id);
    }
}

/// All presets share the normalized layout geometry; only colors and
/// chrome differ between them.
#[test]
fn presets_share_normalized_layout() {
    for preset in Preset::ALL {
        let t = preset.theme();
        assert_eq!(t.font_size, 14, "{}", preset.id());
        assert_eq!(t.corner_radius, 12, "{}", preset.id());
        assert_eq!(t.padding, 24, "{}", preset.id());
        assert_eq!(t.outer_margin, 8, "{}", preset.id());
        assert_eq!(t.backdrop, "transparent", "{}", preset.id());
        assert!(t.show_shadow, "{}", preset.id());
    }
}

#[test]
fn palette_256_cube() {
    let p = Palette::default();
    assert_eq!(p.resolve(16), "#000000");
    assert_eq!(p.resolve(231), "#ffffff");
    assert_eq!(p.resolve(196), "#ff0000");
}

#[test]
fn palette_grayscale_ramp() {
    let p = Palette::default();
    assert_eq!(p.resolve(232), "#080808");
    assert_eq!(p.resolve(255), "#eeeeee");
}

#[test]
fn palette_base_uses_theme_colors() {
    let p = Palette::default();
    assert_eq!(p.resolve(0), "#45475a");
    assert_eq!(p.resolve(9), "#f38ba8");
}

use lightcode::tui::theme::{is_dark, Color, Theme};

#[test]
fn themes_resolve_by_name() {
    assert_eq!(Theme::by_name("default").unwrap().name, "default");
    assert_eq!(Theme::by_name("nord").unwrap().name, "nord");
    assert_eq!(Theme::by_name("dracula").unwrap().name, "dracula");
    assert!(Theme::by_name("nope").is_none());
}

#[test]
fn palettes_are_distinct() {
    let t = Theme::all();
    assert_eq!(t.len(), 3);
    // nord and dracula differ from default on the accent color.
    assert_ne!(Theme::nord().accent, Theme::default_theme().accent);
    assert_ne!(Theme::dracula().accent, Theme::default_theme().accent);
}

#[test]
fn default_palette_colors() {
    let d = Theme::default_theme();
    assert_eq!(d.hover_bg, Color::Indexed(236));
    assert_eq!(d.bg, Color::Rgb(30, 41, 59));
    assert_eq!(Theme::all()[2].name, "dracula");
}

#[test]
fn dark_colors() {
    assert!(is_dark(&Color::DarkGray));
    assert!(is_dark(&Color::Rgb(30, 41, 59)));
    assert!(!is_dark(&Color::Rgb(216, 222, 233)));
    assert!(!is_dark(&Color::Cyan));
}

use drift::builtin::{builtin_named, builtin_style};
use drift::color::{parse_color, parse_style, Color, Palette, Style};
use drift::config::{config_candidates, config_format, parse_bool, Colors, Config, Format};
use drift::theme::Theme;

#[test]
fn colors_parse() {
    assert!(matches!(parse_color("#ff8800"), Some(Color::Rgb(255, 136, 0))));
    assert!(matches!(parse_color("52"), Some(Color::Indexed(52))));
    assert!(matches!(parse_color("green"), Some(Color::Green)));
    assert!(parse_color("default").is_none());
}

#[test]
fn builtin_style_is_theme_aware() {
    // Shared default for all themes...
    assert_eq!(builtin_style("onedark", "help-desc"), "muted faint");
    assert_eq!(builtin_style("dracula", "help-desc"), "muted faint");
    // ...except ansi, whose muted is too dim for help text.
    assert_eq!(builtin_style("ansi", "help-desc"), "default");
    // Non-help styles are shared even under ansi.
    assert_eq!(builtin_style("ansi", "help-key"), "muted bold");
}

#[test]
fn palette_falls_back_to_theme_defaults() {
    // Unset color -> the theme's built-in value; set color -> the user's.
    let cols = Colors { add: "#123456".into(), ..Colors::default() };
    let pal = Palette::new(&cols, "onedark");
    assert!(matches!(pal.color("add"), Some(Color::Rgb(0x12, 0x34, 0x56))));
    assert_eq!(pal.color("remove"), parse_color("#e06c75")); // onedark red
}

#[test]
fn style_spec_parses() {
    let cols = Colors {
        foreground: "white".into(),
        surface: "brightblack".into(),
        primary: "cyan".into(),
        ..Colors::default()
    };
    let pal = Palette::new(&cols, "onedark");
    let s = parse_style("foreground surface bold", &pal);
    assert_eq!(s.fg, Some(Color::White));
    assert_eq!(s.bg, Some(Color::BrightBlack));
    assert!(!s.attrs.is_empty()); // bold set
    // `-` skips the fg slot; bg still applies.
    let s2 = parse_style("- primary", &pal);
    assert_eq!(s2.fg, None);
    assert_eq!(s2.bg, Some(Color::Cyan));
    // `default`/`none` request the terminal's own color for either slot.
    let s3 = parse_style("default primary", &pal);
    assert_eq!(s3.fg, None);
    assert_eq!(s3.bg, Some(Color::Cyan));
    let s4 = parse_style("foreground none", &pal);
    assert_eq!(s4.fg, Some(Color::White));
    assert_eq!(s4.bg, None);
}

#[test]
fn colors_that_are_not_colors() {
    assert_eq!(parse_color(""), None);
    assert_eq!(parse_color("none"), None);
    assert_eq!(parse_color("256"), None);
    assert_eq!(parse_color("#12345"), None);
    assert_eq!(parse_color("#gg0000"), None);
    assert_eq!(parse_color("no-such-color"), None);
    // Names and hex digits may be in any case.
    assert_eq!(parse_color("GREEN"), Some(Color::Green));
    assert_eq!(parse_color("#FF8800"), Some(Color::Rgb(255, 136, 0)));
    // Six bytes behind the sign that are not six digits.
    assert_eq!(parse_color("#\u{4e16}\u{754c}"), None);
    assert_eq!(parse_color("#a\u{4e16}bc"), None);
}

#[test]
fn a_third_color_has_no_place() {
    let cols = Colors {
        foreground: "white".into(),
        surface: "brightblack".into(),
        primary: "cyan".into(),
        ..Colors::default()
    };
    let pal = Palette::new(&cols, "onedark");
    let s = parse_style("foreground surface primary bold", &pal);
    assert_eq!(s.fg, Some(Color::White));
    assert_eq!(s.bg, Some(Color::BrightBlack));
    assert!(s.attrs.bold);
    // A skipped slot counts as one of the two.
    let s = parse_style("- surface primary", &pal);
    assert_eq!(s.fg, None);
    assert_eq!(s.bg, Some(Color::BrightBlack));
}

#[test]
fn unknown_theme_falls_back_to_ansi() {
    let cols = Colors::default();
    let known = Palette::new(&cols, "ansi");
    let other = Palette::new(&cols, "no-such-theme");
    assert_eq!(known.color("add"), other.color("add"));
    assert_eq!(known.color("primary"), other.color("primary"));
    assert!(builtin_named("no-such-theme").is_none());
    assert!(builtin_named("onedark").is_some());
}

#[test]
fn defaults_are_the_documented_ones() {
    let c = Config::default();
    assert!(c.syntax);
    assert!(c.line_numbers);
    assert_eq!(c.tab_width, 4);
    assert_eq!(c.sidebar, "auto");
    assert_eq!(c.sidebar_side, "left");
    assert_eq!(c.sidebar_width, 30);
}

#[test]
fn loading_normalizes_the_theme() {
    assert_eq!(Config::load(None, None).theme, "ansi");
    let mut c = Config::default();
    c.theme = "onedark".into();
    assert_eq!(Config::load(Some(c), None).theme, "onedark");
}

#[test]
fn git_settings_override_the_file() {
    let mut c = Config::default();
    c.theme = "dracula".into();
    c.tab_width = 2;
    let git = "drift.theme onedark\ndrift.Colors.add #123456\ndrift.styles.statusbar  bold \ndrift.syntax off\ndrift.sidebar\n";
    let c = Config::load(Some(c), Some(git));
    assert_eq!(c.theme, "onedark");
    assert_eq!(c.colors.add, "#123456");
    assert_eq!(c.styles.get("statusbar"), Some("bold"));
    assert!(!c.syntax);
    // What git does not mention stays.
    assert_eq!(c.tab_width, 2);
}

#[test]
fn editor_comes_from_config_then_environment() {
    let mut c = Config::default();
    assert_eq!(c.editor_cmd(None, None), "vi");
    assert_eq!(c.editor_cmd(None, Some("nano".into())), "nano");
    assert_eq!(c.editor_cmd(Some("code -w".into()), Some("nano".into())), "code -w");
    c.editor = "hx".into();
    assert_eq!(c.editor_cmd(Some("code -w".into()), Some("nano".into())), "hx");
}

#[test]
fn ansi_theme_stays_plain() {
    let mut c = Config::load(None, None);
    assert!(!c.syntax_enabled());
    c.theme = "onedark".into();
    assert!(c.syntax_enabled());
    c.syntax = false;
    assert!(!c.syntax_enabled());
}

#[test]
fn theme_resolves_styles() {
    let mut c = Config::load(None, None);
    c.theme = "onedark".into();
    c.styles.insert("add", "red - bold");
    let t = Theme::from_config(&c);
    assert_eq!(t.add.fg, Some(Color::Red));
    assert_eq!(t.add.bg, None);
    assert!(t.add.attrs.bold);
    assert_eq!(t.remove.fg, parse_color("#e06c75"));
    assert_ne!(t.statusbar, Style::default());
}

#[test]
fn config_files_are_looked_for_in_order() {
    let found = config_candidates(Some("/x"), Some("/h"));
    assert_eq!(found.len(), 9);
    assert_eq!(found[0], ("/x".to_string(), "drift/config.toml"));
    assert_eq!(found[3], ("/x".to_string(), "drift/config.json"));
    assert_eq!(found[4], ("/h".to_string(), ".config/drift/config.toml"));
    assert_eq!(found[8], ("/h".to_string(), ".drift.toml"));
    assert!(config_candidates(None, None).is_empty());
    assert!(matches!(config_format("toml"), Format::Toml));
    assert!(matches!(config_format("yaml"), Format::Yaml));
    assert!(matches!(config_format("yml"), Format::Yaml));
    assert!(matches!(config_format("json"), Format::Json));
}

#[test]
fn switches_and_numbers_that_cannot_be_read_stay() {
    let git = "drift.line-numbers maybe\ndrift.tab-width eight\ndrift.sidebar-width 40\n";
    let c = Config::load(None, Some(git));
    assert!(c.line_numbers);
    assert_eq!(c.tab_width, 4);
    assert_eq!(c.sidebar_width, 40);
    assert!(parse_bool("YES", false));
    assert!(!parse_bool("0", true));
    assert!(parse_bool("perhaps", true));
}

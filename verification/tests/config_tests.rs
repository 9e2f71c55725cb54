use console_core::config::{
    merge_config_file, parse_palette, parse_retain_for, parse_true_color, CharsetConfig,
    ColorToggles, ColorsConfig, ColorsEnable, ConfigFile, Palette, ViewOptions,
};

fn plain_options() -> ViewOptions {
    ViewOptions {
        no_colors: None,
        lang: None,
        ascii_only: None,
        truecolor: None,
        palette: None,
        toggles: ColorToggles { color_durations: None, color_terminated: None },
    }
}

#[test]
fn palette_tokens_parse() {
    assert_eq!(parse_palette("8"), Some(Palette::Ansi8));
    assert_eq!(parse_palette("16"), Some(Palette::Ansi16));
    assert_eq!(parse_palette("256"), Some(Palette::Ansi256));
    assert_eq!(parse_palette("all"), Some(Palette::All));
    assert_eq!(parse_palette("off"), Some(Palette::NoColors));
    assert_eq!(parse_palette(" 256\n"), Some(Palette::Ansi256));
    assert_eq!(parse_palette("257"), None);
    assert_eq!(parse_palette(""), None);
}

#[test]
fn true_color_tokens_parse() {
    assert!(parse_true_color("truecolor"));
    assert!(parse_true_color("TRUECOLOR"));
    assert!(parse_true_color(" 24bit "));
    assert!(!parse_true_color("16bit"));
    assert!(!parse_true_color(""));
}

#[test]
fn retain_for_parses_durations_and_none() {
    assert_eq!(parse_retain_for("none").unwrap().0, None);
    assert_eq!(parse_retain_for("NONE").unwrap().0, None);
    assert_eq!(parse_retain_for("6s").unwrap().0, Some(6_000_000_000));
    assert_eq!(parse_retain_for("5days 2min 2s").unwrap().0, Some(432_122_000_000_000));
    assert_eq!(parse_retain_for("12ms").unwrap().0, Some(12_000_000));
    assert!(parse_retain_for("six seconds").is_err());
    // Fifteen digits are accepted; more are rejected outright.
    assert_eq!(parse_retain_for("999999999999999s").unwrap().0, Some(999_999_999_999_999_000_000_000));
    assert!(parse_retain_for("9999999999999999s").is_err());
    assert!(parse_retain_for("18446744073709551615s 1000000000ns").is_err());
}

#[test]
fn utf8_needs_lang_and_explicit_ascii_off() {
    let mut v = plain_options();
    assert!(!v.is_utf8());
    v.lang = Some(String::from("en_US.UTF-8"));
    assert!(!v.is_utf8());
    v.ascii_only = Some(false);
    assert!(v.is_utf8());
    v.lang = Some(String::from("en_US.ISO-8859-1"));
    assert!(!v.is_utf8());
}

#[test]
fn palette_determination_order() {
    let mut v = plain_options();
    // No stated preference at all disables colors.
    assert_eq!(v.determine_palette_from(Some("256")), Palette::NoColors);
    v.no_colors = Some(false);
    v.palette = Some(Palette::Ansi8);
    assert_eq!(v.determine_palette_from(Some("256")), Palette::Ansi8);
    v.palette = None;
    v.truecolor = Some(true);
    assert_eq!(v.determine_palette_from(None), Palette::All);
    v.truecolor = None;
    assert_eq!(v.determine_palette_from(Some("256")), Palette::Ansi256);
    assert_eq!(v.determine_palette_from(Some("garbage")), Palette::NoColors);
    assert_eq!(v.determine_palette_from(None), Palette::NoColors);
}

#[test]
fn command_line_options_override_file_options() {
    let mut base = plain_options();
    base.lang = Some(String::from("en_US.UTF-8"));
    base.ascii_only = Some(true);
    let mut cli = plain_options();
    cli.ascii_only = Some(false);
    cli.palette = Some(Palette::Ansi16);
    base.merge_with(cli);
    assert_eq!(base.lang.as_deref(), Some("en_US.UTF-8"));
    assert_eq!(base.ascii_only, Some(false));
    assert_eq!(base.palette, Some(Palette::Ansi16));
    assert_eq!(base.no_colors, None);
}

#[test]
fn config_file_becomes_view_options() {
    let file = ConfigFile {
        charset: Some(CharsetConfig { lang: String::from("C.UTF-8"), ascii_only: false }),
        colors: Some(ColorsConfig {
            enabled: true,
            truecolor: false,
            palette: Palette::Ansi256,
            enable: ColorsEnable { durations: true, terminated: false },
        }),
    };
    let v = file.into_view_options();
    assert_eq!(v.no_colors, Some(false));
    assert_eq!(v.lang.as_deref(), Some("C.UTF-8"));
    assert_eq!(v.ascii_only, Some(false));
    assert_eq!(v.truecolor, Some(false));
    assert_eq!(v.palette, Some(Palette::Ansi256));
    assert_eq!(v.toggles.color_durations, Some(false));
    assert_eq!(v.toggles.color_terminated, Some(true));
}

#[test]
fn later_config_file_sections_win() {
    let base = ConfigFile {
        charset: Some(CharsetConfig { lang: String::from("C"), ascii_only: true }),
        colors: None,
    };
    let current = ConfigFile {
        charset: Some(CharsetConfig { lang: String::from("C.UTF-8"), ascii_only: false }),
        colors: None,
    };
    let merged = merge_config_file(Some(base), Some(current)).expect("merged");
    assert_eq!(merged.charset.as_ref().unwrap().lang, "C.UTF-8");
    assert!(merged.colors.is_none());
    assert!(merge_config_file(None, None).is_none());
}

#[test]
fn color_toggles_default_on_and_are_independent() {
    let t = ColorToggles { color_durations: None, color_terminated: None };
    assert!(t.color_durations());
    assert!(t.color_terminated());
    let t = ColorToggles { color_durations: Some(true), color_terminated: None };
    assert!(!t.color_durations());
    assert!(t.color_terminated());
    let t = ColorToggles { color_durations: None, color_terminated: Some(true) };
    assert!(t.color_durations());
    assert!(!t.color_terminated());
}

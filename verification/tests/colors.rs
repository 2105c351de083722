use tuiplay::path::FilePath;
use tuiplay::theme::{color_can_be_cut, home_theme_path, parse_hex_color, theme_path, Color, Theme, ThemeFile};

fn text(p: &FilePath) -> String {
    String::from_utf8(p.bytes.clone()).unwrap()
}

#[test]
fn six_digits_name_a_color() {
    assert_eq!(parse_hex_color("#12ab0f"), Color::Rgb(0x12, 0xab, 0x0f));
    assert_eq!(parse_hex_color("12AB0F"), Color::Rgb(0x12, 0xab, 0x0f));
    assert_eq!(parse_hex_color("##ffffff"), Color::Rgb(255, 255, 255));
    assert_eq!(parse_hex_color("#000000"), Color::Rgb(0, 0, 0));
}

#[test]
fn plus_sign_counts_as_a_sign() {
    assert_eq!(parse_hex_color("#+1+2+3"), Color::Rgb(1, 2, 3));
    assert_eq!(parse_hex_color("#1+2233"), Color::Reset);
    assert_eq!(parse_hex_color("#-12233"), Color::Reset);
}

#[test]
fn other_texts_name_no_color() {
    assert_eq!(parse_hex_color(""), Color::Reset);
    assert_eq!(parse_hex_color("#"), Color::Reset);
    assert_eq!(parse_hex_color("#fff"), Color::Reset);
    assert_eq!(parse_hex_color("#12345g"), Color::Reset);
    assert_eq!(parse_hex_color("#1234567"), Color::Reset);
    assert_eq!(parse_hex_color(" #123456"), Color::Reset);
    assert_eq!(parse_hex_color("123456#"), Color::Reset);
}

#[test]
fn characters_across_the_cuts_are_told_apart() {
    assert!(color_can_be_cut("#123456"));
    assert!(color_can_be_cut("red"));
    assert!(color_can_be_cut("éüö"));
    assert!(!color_can_be_cut("1é345"));
    assert!(!color_can_be_cut("#€€"));
    assert!(!color_can_be_cut("123é6"));
    assert!(color_can_be_cut("12é56"));
    assert_eq!(parse_hex_color("éüö"), Color::Reset);
}

#[test]
fn default_theme_has_these_colors() {
    let t = Theme::default();
    assert_eq!(t.border, Color::Rgb(0x00, 0x80, 0x80));
    assert_eq!(t.title, Color::Rgb(0x70, 0xec, 0xeb));
    assert_eq!(t.dir, Color::Rgb(0x20, 0xb2, 0xaa));
    assert_eq!(t.playing, Color::Rgb(0x00, 0xf5, 0xd4));
    assert_eq!(t.text, Color::Rgb(0xcf, 0xed, 0xf0));
    assert_eq!(t.highlight_bg, Color::Rgb(0x13, 0x2e, 0x38));
    assert_eq!(t.highlight_fg, Color::Rgb(0x80, 0xf3, 0xe6));
    assert_eq!(t.volume, Color::Rgb(0x5b, 0xc0, 0xbe));
}

#[test]
fn missing_theme_file_gives_the_default() {
    let (theme, note) = Theme::load_or_default(&ThemeFile::Missing).unwrap();
    assert_eq!(theme, Theme::default());
    assert_eq!(note, None);
}

#[test]
fn unreadable_theme_file_is_reported() {
    let file = ThemeFile::Unreadable("permission denied".to_string());
    let (theme, note) = Theme::load_or_default(&file).unwrap();
    assert_eq!(theme, Theme::default());
    assert_eq!(note.unwrap(), "Could not read theme.json: permission denied");
}

#[test]
fn theme_file_that_is_no_json_is_reported() {
    let file = ThemeFile::Text("{".to_string());
    let (theme, note) = Theme::load_or_default(&file).unwrap();
    assert_eq!(theme, Theme::default());
    assert_eq!(
        note.unwrap(),
        "theme.json invalid: EOF while parsing an object at line 1 column 1; using defaults"
    );
}

#[test]
fn theme_file_sets_the_colors_it_names() {
    let text = "{\"border\": \"#010203\", \"title\": \"nothing\", \"dir\": 7, \"volume\": \"0a0b0c\"}";
    let (theme, note) = Theme::load_or_default(&ThemeFile::Text(text.to_string())).unwrap();
    assert_eq!(note, None);
    assert_eq!(theme.border, Color::Rgb(1, 2, 3));
    assert_eq!(theme.title, Color::Reset);
    assert_eq!(theme.dir, Theme::default().dir);
    assert_eq!(theme.volume, Color::Rgb(10, 11, 12));
    assert_eq!(theme.playing, Theme::default().playing);
}

#[test]
fn theme_file_with_a_color_that_cannot_be_cut_gives_none() {
    let text = "{\"border\": \"1é345\"}";
    assert!(Theme::load_or_default(&ThemeFile::Text(text.to_string())).is_none());
}

#[test]
fn empty_theme_files_leave_the_default() {
    for text in ["{}", "[]", "7", "null"] {
        let (theme, note) = Theme::load_or_default(&ThemeFile::Text(text.to_string())).unwrap();
        assert_eq!(theme, Theme::default());
        assert_eq!(note, None);
    }
}

#[test]
fn theme_values_are_read() {
    let mut fields = serde_json::Map::new();
    fields.insert("text".to_string(), serde_json::Value::from("#ffffff"));
    let value = serde_json::Value::from(fields);
    assert!(Theme::can_read(&value));
    assert_eq!(Theme::from_json(&value).text, Color::Rgb(255, 255, 255));
    let mut bad = serde_json::Map::new();
    bad.insert("volume".to_string(), serde_json::Value::from("#€€"));
    assert!(!Theme::can_read(&serde_json::Value::from(bad)));
}

#[test]
fn theme_file_of_the_home_directory_comes_first() {
    assert_eq!(text(&home_theme_path("/home/u")), "/home/u/.config/tuiplay/theme.json");
    assert_eq!(text(&theme_path(Some("/home/u"), true)), "/home/u/.config/tuiplay/theme.json");
    assert_eq!(text(&theme_path(Some("/home/u"), false)), "theme.json");
    assert_eq!(text(&theme_path(None, true)), "theme.json");
    assert_eq!(text(&theme_path(None, false)), "theme.json");
}

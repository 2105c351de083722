//! The colors of the player, and the file that sets them.
use crate::json::{field, json, json_read, read_json, text_field, text_of, Json};
use crate::path::{joined, FilePath};
use vstd::prelude::*;
use vstd::string::*;
use vstd::utf8::*;

verus! {

/// A color of the terminal: its own, or one mixed from red, green and blue.
#[derive(Clone, Copy, PartialEq, Eq, Structural, Debug)]
pub enum Color {
    Reset,
    Rgb(u8, u8, u8),
}

// ---------------------------------------------------------------------------
// Colors in hexadecimal notation
// ---------------------------------------------------------------------------

/// The value of a hexadecimal digit.
pub open spec fn hex_digit(b: u8) -> Option<int> {
    if 48 <= b <= 57 {
        Some(b - 48)
    } else if 97 <= b <= 102 {
        Some(b - 87)
    } else if 65 <= b <= 70 {
        Some(b - 55)
    } else {
        None
    }
}

/// The value of two characters that are hexadecimal digits, or a plus sign and one.
pub open spec fn hex_pair(a: u8, b: u8) -> Option<int> {
    match (hex_digit(a), hex_digit(b)) {
        (Some(x), Some(y)) => Some(16 * x + y),
        (None, Some(y)) => if a == 43 {
            Some(y)
        } else {
            None
        },
        _ => None,
    }
}

/// What is left of bytes behind the number signs they begin with.
pub open spec fn without_hashes(s: Seq<u8>) -> Seq<u8>
    decreases s.len(),
{
    if s.len() > 0 && s[0] == 35 {
        without_hashes(s.drop_first())
    } else {
        s
    }
}

/// The color that six bytes name, two for each part; other bytes name none.
pub open spec fn color_of_digits(s: Seq<u8>) -> Color {
    if s.len() == 6 {
        match (hex_pair(s[0], s[1]), hex_pair(s[2], s[3]), hex_pair(s[4], s[5])) {
            (Some(r), Some(g), Some(b)) => Color::Rgb(r as u8, g as u8, b as u8),
            _ => Color::Reset,
        }
    } else {
        Color::Reset
    }
}

/// The color that a text names, number signs before it or not.
pub open spec fn color_of(text: Seq<char>) -> Color {
    color_of_digits(without_hashes(encode_utf8(text)))
}

/// Whether a text can be cut into the parts of a color: where six bytes follow its number
/// signs, no character reaches across the cuts.
pub open spec fn can_cut(text: Seq<char>) -> bool {
    let s = without_hashes(encode_utf8(text));
    s.len() == 6 ==> !is_continuation_byte(s[2]) && !is_continuation_byte(s[4])
}

fn digit_value(b: u8) -> (r: Option<u8>)
    ensures
        r is Some <==> hex_digit(b) is Some,
        r matches Some(x) ==> x < 16 && Some(x as int) == hex_digit(b),
{
    if 48 <= b && b <= 57 {
        Some(b - 48)
    } else if 97 <= b && b <= 102 {
        Some(b - 87)
    } else if 65 <= b && b <= 70 {
        Some(b - 55)
    } else {
        None
    }
}

fn pair_value(a: u8, b: u8) -> (r: Option<u8>)
    ensures
        r is Some <==> hex_pair(a, b) is Some,
        r matches Some(x) ==> Some(x as int) == hex_pair(a, b),
{
    match digit_value(b) {
        Some(y) => match digit_value(a) {
            Some(x) => Some(16 * x + y),
            None => if a == 43 {
                Some(y)
            } else {
                None
            },
        },
        None => None,
    }
}

/// How many number signs a text begins with.
fn leading_hashes(bytes: &[u8]) -> (r: usize)
    ensures
        r <= bytes@.len(),
        without_hashes(bytes@) == bytes@.skip(r as int),
{
    let mut i: usize = 0;
    assert(bytes@.skip(0) =~= bytes@);
    while i < bytes.len() && bytes[i] == 35
        invariant
            i <= bytes@.len(),
            without_hashes(bytes@) == without_hashes(bytes@.skip(i as int)),
        decreases bytes@.len() - i,
    {
        assert(bytes@.skip(i as int).drop_first() =~= bytes@.skip(i + 1));
        i = i + 1;
    }
    i
}

/// Whether a text can be cut into the parts of a color.
pub fn color_can_be_cut(hex: &str) -> (r: bool)
    ensures
        r == can_cut(hex@),
{
    let bytes: &[u8] = hex.as_bytes();
    let at: usize = leading_hashes(bytes);
    if bytes.len() - at != 6 {
        return true;
    }
    let (x, y): (u8, u8) = (bytes[at + 2], bytes[at + 4]);
    !(128 <= x && x <= 191) && !(128 <= y && y <= 191)
}

/// The color that a text names.
pub fn parse_hex_color(hex: &str) -> (r: Color)
    requires
        can_cut(hex@),
    ensures
        r == color_of(hex@),
{
    let bytes: &[u8] = hex.as_bytes();
    let at: usize = leading_hashes(bytes);
    if bytes.len() - at == 6 {
        let red: Option<u8> = pair_value(bytes[at], bytes[at + 1]);
        let green: Option<u8> = pair_value(bytes[at + 2], bytes[at + 3]);
        let blue: Option<u8> = pair_value(bytes[at + 4], bytes[at + 5]);
        if let (Some(r), Some(g), Some(b)) = (red, green, blue) {
            return Color::Rgb(r, g, b);
        }
    }
    Color::Reset
}

/// A text of one number sign and six hexadecimal digits names the color with these parts.
pub proof fn digits_name_a_color(text: Seq<char>)
    requires
        text.len() == 7,
        text[0] == '#',
        is_ascii_chars(text),
        forall|i: int| 1 <= i < 7 ==> hex_digit(#[trigger] text[i] as u8) is Some,
    ensures
        can_cut(text),
        color_of(text) == Color::Rgb(
            (16 * hex_digit(text[1] as u8)->0 + hex_digit(text[2] as u8)->0) as u8,
            (16 * hex_digit(text[3] as u8)->0 + hex_digit(text[4] as u8)->0) as u8,
            (16 * hex_digit(text[5] as u8)->0 + hex_digit(text[6] as u8)->0) as u8,
        ),
{
    is_ascii_chars_encode_utf8(text);
    let bytes = encode_utf8(text);
    assert(bytes[0] == text[0] as u8);
    assert(forall|i: int| 1 <= i < 7 ==> hex_digit(bytes[i]) == hex_digit(#[trigger] text[i] as u8));
    reveal_with_fuel(without_hashes, 2);
    assert(hex_digit(bytes[1]) is Some);
    assert(without_hashes(bytes) =~= bytes.drop_first());
}

/// A number sign before a text does not change the color that it names.
pub proof fn number_sign_does_not_matter(text: Seq<char>)
    ensures
        color_of(seq!['#'] + text) == color_of(text),
        can_cut(seq!['#'] + text) == can_cut(text),
{
    let longer = seq!['#'] + text;
    reveal_with_fuel(without_hashes, 2);
    assert(longer.drop_first() =~= text);
    assert(encode_utf8(longer) =~= seq![35u8] + encode_utf8(text)) by {
        reveal_with_fuel(encode_utf8, 2);
        assert(longer[0] == '#');
        is_ascii_chars_encode_utf8(seq!['#']);
    }
    assert((seq![35u8] + encode_utf8(text)).drop_first() =~= encode_utf8(text));
}

// ---------------------------------------------------------------------------
// Themes
// ---------------------------------------------------------------------------

/// The colors of the parts of the player.
#[derive(Clone, Copy, PartialEq, Eq, Structural, Debug)]
pub struct Theme {
    pub border: Color,
    pub title: Color,
    pub dir: Color,
    pub playing: Color,
    pub text: Color,
    pub highlight_bg: Color,
    pub highlight_fg: Color,
    pub volume: Color,
}

/// The theme where no file sets one.
pub open spec fn default_theme() -> Theme {
    Theme {
        border: Color::Rgb(0x00, 0x80, 0x80),
        title: Color::Rgb(0x70, 0xec, 0xeb),
        dir: Color::Rgb(0x20, 0xb2, 0xaa),
        playing: Color::Rgb(0x00, 0xf5, 0xd4),
        text: Color::Rgb(0xcf, 0xed, 0xf0),
        highlight_bg: Color::Rgb(0x13, 0x2e, 0x38),
        highlight_fg: Color::Rgb(0x80, 0xf3, 0xe6),
        volume: Color::Rgb(0x5b, 0xc0, 0xbe),
    }
}

/// The color that a theme file sets for a key: that of its text, or else the default.
pub open spec fn color_at(v: Json, key: Seq<char>, default: Color) -> Color {
    match text_of(field(v, key)) {
        Some(text) => color_of(text),
        None => default,
    }
}

/// The theme that the value of a theme file sets.
pub open spec fn theme_of(v: Json) -> Theme {
    let d = default_theme();
    Theme {
        border: color_at(v, "border"@, d.border),
        title: color_at(v, "title"@, d.title),
        dir: color_at(v, "dir"@, d.dir),
        playing: color_at(v, "playing"@, d.playing),
        text: color_at(v, "text"@, d.text),
        highlight_bg: color_at(v, "highlight_bg"@, d.highlight_bg),
        highlight_fg: color_at(v, "highlight_fg"@, d.highlight_fg),
        volume: color_at(v, "volume"@, d.volume),
    }
}

/// Whether the text that a theme file has for a key, if any, can be cut into the parts of a
/// color.
pub open spec fn can_cut_at(v: Json, key: Seq<char>) -> bool {
    text_of(field(v, key)) matches Some(text) ==> can_cut(text)
}

/// Whether all colors of a theme file can be read.
pub open spec fn is_readable(v: Json) -> bool {
    &&& can_cut_at(v, "border"@)
    &&& can_cut_at(v, "title"@)
    &&& can_cut_at(v, "dir"@)
    &&& can_cut_at(v, "playing"@)
    &&& can_cut_at(v, "text"@)
    &&& can_cut_at(v, "highlight_bg"@)
    &&& can_cut_at(v, "highlight_fg"@)
    &&& can_cut_at(v, "volume"@)
}

/// What was found where the theme file should be.
pub enum ThemeFile {
    /// There is no such file.
    Missing,
    /// It could not be read, for this reason.
    Unreadable(String),
    /// It holds this text.
    Text(String),
}

/// The theme that a file sets, and what to tell the user about it. `None` stands for a file
/// with a color that cannot be cut into its parts.
pub open spec fn loaded_theme(file: ThemeFile) -> Option<(Theme, Option<Seq<char>>)> {
    match file {
        ThemeFile::Missing => Some((default_theme(), None)),
        ThemeFile::Unreadable(e) => Some((default_theme(), Some("Could not read theme.json: "@ + e@))),
        ThemeFile::Text(content) => match json_read(content@) {
            Ok(v) => if is_readable(v) {
                Some((theme_of(v), None))
            } else {
                None
            },
            Err(e) => Some(
                (default_theme(), Some("theme.json invalid: "@ + e + "; using defaults"@)),
            ),
        },
    }
}

/// Whether the text that a theme file has for a key can be cut into the parts of a color.
fn key_can_be_cut(v: &serde_json::Value, key: &str) -> (r: bool)
    ensures
        r == can_cut_at(json(*v), key@),
{
    match text_field(v, key) {
        Some(text) => color_can_be_cut(text.as_str()),
        None => true,
    }
}

/// The color that a theme file sets for a key.
fn color_for(v: &serde_json::Value, key: &str, default: Color) -> (r: Color)
    requires
        can_cut_at(json(*v), key@),
    ensures
        r == color_at(json(*v), key@, default),
{
    match text_field(v, key) {
        Some(text) => parse_hex_color(text.as_str()),
        None => default,
    }
}

impl Theme {
    /// The theme where no file sets one.
    pub fn default() -> (r: Theme)
        ensures
            r == default_theme(),
    {
        proof {
            reveal_strlit("#008080");
            reveal_strlit("#70eceb");
            reveal_strlit("#20b2aa");
            reveal_strlit("#00f5d4");
            reveal_strlit("#cfedf0");
            reveal_strlit("#132e38");
            reveal_strlit("#80f3e6");
            reveal_strlit("#5bc0be");
            digits_name_a_color("#008080"@);
            digits_name_a_color("#70eceb"@);
            digits_name_a_color("#20b2aa"@);
            digits_name_a_color("#00f5d4"@);
            digits_name_a_color("#cfedf0"@);
            digits_name_a_color("#132e38"@);
            digits_name_a_color("#80f3e6"@);
            digits_name_a_color("#5bc0be"@);
        }
        Theme {
            border: parse_hex_color("#008080"),
            title: parse_hex_color("#70eceb"),
            dir: parse_hex_color("#20b2aa"),
            playing: parse_hex_color("#00f5d4"),
            text: parse_hex_color("#cfedf0"),
            highlight_bg: parse_hex_color("#132e38"),
            highlight_fg: parse_hex_color("#80f3e6"),
            volume: parse_hex_color("#5bc0be"),
        }
    }

    /// Whether all colors of a theme file can be read.
    pub fn can_read(v: &serde_json::Value) -> (r: bool)
        ensures
            r == is_readable(json(*v)),
    {
        key_can_be_cut(v, "border") && key_can_be_cut(v, "title") && key_can_be_cut(v, "dir")
            && key_can_be_cut(v, "playing") && key_can_be_cut(v, "text") && key_can_be_cut(
            v,
            "highlight_bg",
        ) && key_can_be_cut(v, "highlight_fg") && key_can_be_cut(v, "volume")
    }

    /// The theme that the value of a theme file sets.
    pub fn from_json(v: &serde_json::Value) -> (r: Theme)
        requires
            is_readable(json(*v)),
        ensures
            r == theme_of(json(*v)),
    {
        let d: Theme = Theme::default();
        Theme {
            border: color_for(v, "border", d.border),
            title: color_for(v, "title", d.title),
            dir: color_for(v, "dir", d.dir),
            playing: color_for(v, "playing", d.playing),
            text: color_for(v, "text", d.text),
            highlight_bg: color_for(v, "highlight_bg", d.highlight_bg),
            highlight_fg: color_for(v, "highlight_fg", d.highlight_fg),
            volume: color_for(v, "volume", d.volume),
        }
    }

    /// The theme that a file sets, and what to tell the user about it. `None` stands for a
    /// file with a color that cannot be cut into its parts.
    pub fn load_or_default(file: &ThemeFile) -> (r: Option<(Theme, Option<String>)>)
        ensures
            loaded_theme(*file) == (match r {
                Some((theme, Some(note))) => Some((theme, Some(note@))),
                Some((theme, None)) => Some((theme, None)),
                None => None,
            }),
    {
        match file {
            ThemeFile::Missing => Some((Theme::default(), None)),
            ThemeFile::Unreadable(e) => {
                let mut note: String = "Could not read theme.json: ".to_owned();
                note.append(e.as_str());
                Some((Theme::default(), Some(note)))
            },
            ThemeFile::Text(content) => match read_json(content.as_str()) {
                Ok(v) => if Theme::can_read(&v) {
                    Some((Theme::from_json(&v), None))
                } else {
                    None
                },
                Err(e) => {
                    let mut note: String = "theme.json invalid: ".to_owned();
                    note.append(e.as_str());
                    note.append("; using defaults");
                    Some((Theme::default(), Some(note)))
                },
            },
        }
    }
}

/// Where the theme file is looked for: below the home directory if it is there, and else in
/// the current directory.
pub open spec fn theme_path_of(home: Option<Seq<char>>, in_home: bool) -> Seq<u8> {
    match home {
        Some(h) => if in_home {
            joined(encode_utf8(h), encode_utf8(".config/tuiplay/theme.json"@))
        } else {
            encode_utf8("theme.json"@)
        },
        None => encode_utf8("theme.json"@),
    }
}

/// The theme file below the home directory.
pub fn home_theme_path(home: &str) -> (r: FilePath)
    ensures
        r@ == theme_path_of(Some(home@), true),
{
    FilePath::from_text(home).join(&FilePath::from_text(".config/tuiplay/theme.json"))
}

/// The theme file to read, when `in_home` says whether there is one below the home directory.
pub fn theme_path(home: Option<&str>, in_home: bool) -> (r: FilePath)
    ensures
        r@ == theme_path_of(
            (match home {
                Some(h) => Some(h@),
                None => None,
            }),
            in_home,
        ),
{
    match home {
        Some(h) => if in_home {
            home_theme_path(h)
        } else {
            FilePath::from_text("theme.json")
        },
        None => FilePath::from_text("theme.json"),
    }
}

/// A theme file that sets no color leaves the theme as it is by default.
pub proof fn empty_theme_is_the_default(v: Json)
    requires
        !(v is Object) || v->Object_0 == Map::<Seq<char>, Json>::empty(),
    ensures
        is_readable(v),
        theme_of(v) == default_theme(),
{
}

// ---------------------------------------------------------------------------
// What each key comes to
// ---------------------------------------------------------------------------

/// Whatever else a theme file sets, a text under a key sets the color of the part with that name,
/// and of no other.
pub proof fn each_key_sets_its_own_part(m: Map<Seq<char>, Json>, text: Seq<char>)
    ensures
        ({
            let t = theme_of(Json::Object(m));
            let c = color_of(text);
            let x = Json::Text(text);
            &&& theme_of(Json::Object(m.insert("border"@, x))) == Theme { border: c, ..t }
            &&& theme_of(Json::Object(m.insert("title"@, x))) == Theme { title: c, ..t }
            &&& theme_of(Json::Object(m.insert("dir"@, x))) == Theme { dir: c, ..t }
            &&& theme_of(Json::Object(m.insert("playing"@, x))) == Theme { playing: c, ..t }
            &&& theme_of(Json::Object(m.insert("text"@, x))) == Theme { text: c, ..t }
            &&& theme_of(Json::Object(m.insert("highlight_bg"@, x))) == Theme { highlight_bg: c, ..t }
            &&& theme_of(Json::Object(m.insert("highlight_fg"@, x))) == Theme { highlight_fg: c, ..t }
            &&& theme_of(Json::Object(m.insert("volume"@, x))) == Theme { volume: c, ..t }
        }),
{
    lemma_keys_differ();
}

/// What is no text under a key leaves the part with that name as it is by default, and all others
/// as they are.
pub proof fn what_is_no_text_sets_nothing(m: Map<Seq<char>, Json>, x: Json)
    requires
        !(x is Text),
    ensures
        ({
            let t = theme_of(Json::Object(m));
            let d = default_theme();
            &&& theme_of(Json::Object(m.insert("border"@, x))) == Theme { border: d.border, ..t }
            &&& theme_of(Json::Object(m.insert("title"@, x))) == Theme { title: d.title, ..t }
            &&& theme_of(Json::Object(m.insert("dir"@, x))) == Theme { dir: d.dir, ..t }
            &&& theme_of(Json::Object(m.insert("playing"@, x))) == Theme { playing: d.playing, ..t }
            &&& theme_of(Json::Object(m.insert("text"@, x))) == Theme { text: d.text, ..t }
            &&& theme_of(Json::Object(m.insert("highlight_bg"@, x))) == Theme {
                highlight_bg: d.highlight_bg,
                ..t
            }
            &&& theme_of(Json::Object(m.insert("highlight_fg"@, x))) == Theme {
                highlight_fg: d.highlight_fg,
                ..t
            }
            &&& theme_of(Json::Object(m.insert("volume"@, x))) == Theme { volume: d.volume, ..t }
        }),
{
    lemma_keys_differ();
}

/// A key that names no part sets nothing.
pub proof fn other_keys_set_nothing(m: Map<Seq<char>, Json>, key: Seq<char>, x: Json)
    requires
        key != "border"@ && key != "title"@ && key != "dir"@ && key != "playing"@,
        key != "text"@ && key != "highlight_bg"@ && key != "highlight_fg"@ && key != "volume"@,
    ensures
        theme_of(Json::Object(m.insert(key, x))) == theme_of(Json::Object(m)),
        is_readable(Json::Object(m.insert(key, x))) == is_readable(Json::Object(m)),
{
}

proof fn lemma_keys_differ()
    ensures
        "border"@ != "title"@ && "border"@ != "dir"@ && "border"@ != "playing"@ && "border"@ != "text"@,
        "border"@ != "highlight_bg"@ && "border"@ != "highlight_fg"@ && "border"@ != "volume"@,
        "title"@ != "dir"@ && "title"@ != "playing"@ && "title"@ != "text"@,
        "title"@ != "highlight_bg"@ && "title"@ != "highlight_fg"@ && "title"@ != "volume"@,
        "dir"@ != "playing"@ && "dir"@ != "text"@ && "dir"@ != "highlight_bg"@,
        "dir"@ != "highlight_fg"@ && "dir"@ != "volume"@,
        "playing"@ != "text"@ && "playing"@ != "highlight_bg"@,
        "playing"@ != "highlight_fg"@ && "playing"@ != "volume"@,
        "text"@ != "highlight_bg"@ && "text"@ != "highlight_fg"@ && "text"@ != "volume"@,
        "highlight_bg"@ != "highlight_fg"@ && "highlight_bg"@ != "volume"@,
        "highlight_fg"@ != "volume"@,
{
    reveal_strlit("border");
    reveal_strlit("title");
    reveal_strlit("dir");
    reveal_strlit("playing");
    reveal_strlit("text");
    reveal_strlit("highlight_bg");
    reveal_strlit("highlight_fg");
    reveal_strlit("volume");
    assert("border"@[0] == 'b');
    assert("title"@[0] == 't' && "title"@.len() == 5);
    assert("text"@[0] == 't' && "text"@.len() == 4);
    assert("dir"@[0] == 'd');
    assert("playing"@[0] == 'p');
    assert("highlight_bg"@[0] == 'h' && "highlight_bg"@[10] == 'b');
    assert("highlight_fg"@[0] == 'h' && "highlight_fg"@[10] == 'f');
    assert("volume"@[0] == 'v');
}

/// A theme file with one key, set to a number sign and six hexadecimal digits, gives the default
/// theme with the color of these digits for the part of that name.
pub proof fn one_key_changes_one_color(text: Seq<char>, red: int, green: int, blue: int)
    requires
        text.len() == 7,
        text[0] == '#',
        is_ascii_chars(text),
        is_hex(text[1], red / 16) && is_hex(text[2], red % 16),
        is_hex(text[3], green / 16) && is_hex(text[4], green % 16),
        is_hex(text[5], blue / 16) && is_hex(text[6], blue % 16),
    ensures
        ({
            let d = default_theme();
            let c = Color::Rgb(red as u8, green as u8, blue as u8);
            let x = Json::Text(text);
            let none = Map::<Seq<char>, Json>::empty();
            &&& theme_of(Json::Object(none.insert("border"@, x))) == Theme { border: c, ..d }
            &&& theme_of(Json::Object(none.insert("title"@, x))) == Theme { title: c, ..d }
            &&& theme_of(Json::Object(none.insert("dir"@, x))) == Theme { dir: c, ..d }
            &&& theme_of(Json::Object(none.insert("playing"@, x))) == Theme { playing: c, ..d }
            &&& theme_of(Json::Object(none.insert("text"@, x))) == Theme { text: c, ..d }
            &&& theme_of(Json::Object(none.insert("highlight_bg"@, x))) == Theme { highlight_bg: c, ..d }
            &&& theme_of(Json::Object(none.insert("highlight_fg"@, x))) == Theme { highlight_fg: c, ..d }
            &&& theme_of(Json::Object(none.insert("volume"@, x))) == Theme { volume: c, ..d }
        }),
{
    let none = Map::<Seq<char>, Json>::empty();
    empty_theme_is_the_default(Json::Object(none));
    each_key_sets_its_own_part(none, text);
    digits_are_worth_what_they_show(text[1], red / 16);
    digits_are_worth_what_they_show(text[2], red % 16);
    digits_are_worth_what_they_show(text[3], green / 16);
    digits_are_worth_what_they_show(text[4], green % 16);
    digits_are_worth_what_they_show(text[5], blue / 16);
    digits_are_worth_what_they_show(text[6], blue % 16);
    digits_name_a_color(text);
}

/// Whether a character is the hexadecimal digit of a number.
pub open spec fn is_hex(c: char, value: int) -> bool {
    ||| 0 <= value <= 9 && c as int == '0' as int + value
    ||| 10 <= value <= 15 && c as int == 'a' as int + value - 10
    ||| 10 <= value <= 15 && c as int == 'A' as int + value - 10
}

/// A hexadecimal digit, of either case, is worth what it shows.
pub proof fn digits_are_worth_what_they_show(c: char, value: int)
    requires
        is_hex(c, value),
    ensures
        hex_digit(c as u8) == Some(value),
{
}

/// A text in which something else stands than hexadecimal digits, or another number of them, names
/// no color. (A plus sign may stand for the first of two digits.)
pub proof fn other_texts_name_no_color(text: Seq<char>, i: int)
    requires
        is_ascii_chars(text),
        text.len() > 0 ==> text[0] != '#',
        text.len() != 6 || {
            &&& 0 <= i < 6
            &&& forall|value: int| !is_hex(text[i], value)
            &&& text[i] != '+' || i % 2 == 1
        },
    ensures
        color_of(text) == Color::Reset,
{
    is_ascii_chars_encode_utf8(text);
    let bytes = encode_utf8(text);
    reveal_with_fuel(without_hashes, 2);
    if text.len() > 0 {
        assert(bytes[0] == text[0] as u8);
    }
    assert(without_hashes(bytes) == bytes);
    if text.len() == 6 {
        let c = text[i];
        assert(bytes[i] == c as u8);
        assert(!is_hex(c, c as int - '0' as int));
        assert(!is_hex(c, c as int - 'a' as int + 10));
        assert(!is_hex(c, c as int - 'A' as int + 10));
        assert(hex_digit(bytes[i]) is None);
        assert(i == 0 || i == 1 || i == 2 || i == 3 || i == 4 || i == 5);
    }
}

/// Without a theme file, with one that cannot be read and with one that is no JSON the theme is the
/// default one; only in the first of these cases is there nothing to tell the user.
pub proof fn default_theme_stands_in(e: String, content: String)
    ensures
        loaded_theme(ThemeFile::Missing) == Some((default_theme(), None::<Seq<char>>)),
        loaded_theme(ThemeFile::Unreadable(e)) == Some(
            (default_theme(), Some("Could not read theme.json: "@ + e@)),
        ),
        json_read(content@) matches Err(reason) ==> loaded_theme(ThemeFile::Text(content)) == Some(
            (default_theme(), Some("theme.json invalid: "@ + reason + "; using defaults"@)),
        ),
        json_read(content@) matches Ok(v) ==> is_readable(v) ==> loaded_theme(ThemeFile::Text(content))
            == Some((theme_of(v), None::<Seq<char>>)),
        json_read(content@) matches Ok(v) ==> !is_readable(v) ==> loaded_theme(ThemeFile::Text(content)) is None,
{
}

/// The theme file below the home directory is taken only if it is there.
pub proof fn theme_file_is_looked_for_at_home_first(home: Seq<char>)
    ensures
        theme_path_of(Some(home), true) == joined(encode_utf8(home), encode_utf8(".config/tuiplay/theme.json"@)),
        theme_path_of(Some(home), false) == encode_utf8("theme.json"@),
        theme_path_of(None, true) == encode_utf8("theme.json"@),
        theme_path_of(None, false) == encode_utf8("theme.json"@),
{
}

}

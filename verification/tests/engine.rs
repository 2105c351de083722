use tuiplay::double::Double;
use tuiplay::mpv::{
    first_existing, observe_properties, plugin_candidates, seek_command, socket_path, spawn_arguments, volume_command, Command, Connecting, MpvState,
    Property, CONNECT_TRIES, CONNECT_WAIT,
};
use tuiplay::path::FilePath;

fn double(x: f64) -> Double {
    Double { bits: x.to_bits() }
}

fn number(d: Double) -> f64 {
    f64::from_bits(d.bits)
}

fn path(s: &str) -> FilePath {
    FilePath::from_text(s)
}

fn text(p: &FilePath) -> String {
    String::from_utf8(p.bytes.clone()).unwrap()
}

#[test]
fn fresh_engine_is_idle_at_full_volume() {
    let s = MpvState::new();
    assert_eq!(number(s.time_pos), 0.0);
    assert_eq!(number(s.duration), 0.0);
    assert_eq!(number(s.volume), 100.0);
    assert!(!s.paused);
    assert!(s.idle);
}

#[test]
fn reports_of_the_engine_are_noted() {
    let mut s = MpvState::new();
    s.apply_line("{\"event\":\"property-change\",\"id\":1,\"name\":\"time-pos\",\"data\":12.25}\n");
    s.apply_line("{\"event\":\"property-change\",\"id\":2,\"name\":\"duration\",\"data\":180}\n");
    s.apply_line("  {\"event\":\"property-change\",\"name\":\"volume\",\"data\":-1}  \r\n");
    s.apply_line("{\"event\":\"property-change\",\"name\":\"pause\",\"data\":true}");
    s.apply_line("{\"event\":\"property-change\",\"name\":\"idle-active\",\"data\":false}");
    assert_eq!(number(s.time_pos), 12.25);
    assert_eq!(number(s.duration), 180.0);
    assert_eq!(number(s.volume), -1.0);
    assert!(s.paused);
    assert!(!s.idle);
}

#[test]
fn other_lines_change_nothing() {
    let lines = [
        "",
        "   \n",
        "no json",
        "{\"event\":\"property-change\",\"name\":\"time-pos\",\"data\":12.25",
        "{\"event\":\"file-loaded\",\"name\":\"time-pos\",\"data\":12.25}",
        "{\"name\":\"time-pos\",\"data\":12.25}",
        "{\"event\":\"property-change\",\"data\":12.25}",
        "{\"event\":\"property-change\",\"name\":7,\"data\":12.25}",
        "{\"event\":\"property-change\",\"name\":\"speed\",\"data\":12.25}",
        "{\"event\":\"property-change\",\"name\":\"time-pos\"}",
        "{\"event\":\"property-change\",\"name\":\"time-pos\",\"data\":null}",
        "{\"event\":\"property-change\",\"name\":\"time-pos\",\"data\":\"12\"}",
        "{\"event\":\"property-change\",\"name\":\"time-pos\",\"data\":true}",
        "{\"event\":\"property-change\",\"name\":\"pause\",\"data\":1}",
        "[\"event\"]",
        "{\"error\":\"success\"}",
    ];
    for line in lines {
        let mut s = MpvState::new();
        s.apply_line(line);
        assert!(s == MpvState::new(), "{}", line);
    }
}

#[test]
fn order_of_two_reports_does_not_matter() {
    let x = "{\"event\":\"property-change\",\"name\":\"time-pos\",\"data\":3.5}";
    let y = "{\"event\":\"property-change\",\"name\":\"pause\",\"data\":true}";
    let mut a = MpvState::new();
    a.apply_line(x);
    a.apply_line(y);
    let mut b = MpvState::new();
    b.apply_line(y);
    b.apply_line(x);
    assert!(a == b);
    assert!(a.paused);
}

#[test]
fn properties_take_values_of_their_kind() {
    let mut s = MpvState::new();
    s.set_property(Property::Volume, Some(55.0f64.to_bits()), None);
    s.set_property(Property::Pause, None, Some(true));
    s.set_property(Property::TimePos, None, Some(true));
    assert_eq!(number(s.volume), 55.0);
    assert!(s.paused);
    assert_eq!(number(s.time_pos), 0.0);
}

#[test]
fn properties_have_names() {
    for p in [Property::TimePos, Property::Duration, Property::Volume, Property::Pause, Property::IdleActive] {
        assert!(Property::named(p.name()) == Some(p));
    }
    assert_eq!(Property::IdleActive.name(), "idle-active");
    assert!(Property::named("pausE").is_none());
}

#[test]
fn volume_stays_in_bounds() {
    let mut s = MpvState::new();
    assert_eq!(number(s.set_volume(double(110.0))), 100.0);
    assert_eq!(number(s.volume), 100.0);
    assert_eq!(number(s.set_volume(double(-10.0))), 0.0);
    assert_eq!(number(s.set_volume(double(42.5))), 42.5);
    assert_eq!(number(s.volume), 42.5);
    assert!(s.idle);
}

#[test]
fn commands_are_lines_of_json() {
    assert_eq!(Command::CyclePause.line(), "{\"command\":[\"cycle\",\"pause\"]}\n");
    assert_eq!(Command::Stop.line(), "{\"command\":[\"stop\"]}\n");
    assert_eq!(Command::Quit.line(), "{\"command\":[\"quit\"]}\n");
    assert_eq!(
        Command::SetVolume("42.5".to_string()).line(),
        "{\"command\":[\"set_property\",\"volume\",42.5]}\n"
    );
    assert_eq!(Command::Seek("-5.0".to_string()).line(), "{\"command\":[\"seek\",-5.0,\"relative\"]}\n");
    assert_eq!(
        Command::LoadFile(path("/m/a \"b\"\n.mp3")).line(),
        "{\"command\":[\"loadfile\",\"/m/a \\\"b\\\"\\n.mp3\",\"replace\"]}\n"
    );
    assert_eq!(
        Command::LoadFile(FilePath { bytes: vec![b'a', 0xff] }).line(),
        "{\"command\":[\"loadfile\",\"a\u{fffd}\",\"replace\"]}\n"
    );
}

#[test]
fn commands_are_read_back() {
    let line = Command::LoadFile(path("/m/\u{1}\té.mp3")).line();
    assert!(line.trim_end_matches('\n').chars().all(|c| c >= ' '));
    let value: serde_json::Value = serde_json::from_str(&line).unwrap();
    let words = value.get("command").unwrap().as_array().unwrap();
    assert_eq!(words.len(), 3);
    assert_eq!(words[0].as_str(), Some("loadfile"));
    assert_eq!(words[1].as_str(), Some("/m/\u{1}\té.mp3"));
    assert_eq!(words[2].as_str(), Some("replace"));
}

#[test]
fn number_that_is_no_json_becomes_null() {
    assert_eq!(Command::Seek("soon".to_string()).line(), "{\"command\":[\"seek\",null,\"relative\"]}\n");
    assert_eq!(Command::SetVolume("null".to_string()).line(), "{\"command\":[\"set_property\",\"volume\",null]}\n");
}

#[test]
fn all_properties_are_watched() {
    let lines: Vec<String> = observe_properties().iter().map(|c| c.line()).collect();
    assert_eq!(
        lines,
        [
            "{\"command\":[\"observe_property\",1,\"time-pos\"]}\n",
            "{\"command\":[\"observe_property\",2,\"duration\"]}\n",
            "{\"command\":[\"observe_property\",3,\"volume\"]}\n",
            "{\"command\":[\"observe_property\",4,\"pause\"]}\n",
            "{\"command\":[\"observe_property\",5,\"idle-active\"]}\n",
        ]
    );
}

#[test]
fn socket_has_the_number_of_the_process() {
    assert_eq!(text(&socket_path(&path("/tmp"), 4711)), "/tmp/tuiplay-mpv-4711.sock");
    assert_eq!(text(&socket_path(&path("/tmp/"), 0)), "/tmp/tuiplay-mpv-0.sock");
}

#[test]
fn plugin_is_looked_for_in_four_places() {
    let with_home: Vec<String> = plugin_candidates(Some("/home/u")).iter().map(text).collect();
    assert_eq!(
        with_home,
        [
            "/usr/lib/mpv/mpris.so",
            "/usr/lib64/mpv/mpris.so",
            "/usr/local/lib/mpv/mpris.so",
            "/home/u/.config/mpv/scripts/mpris.so",
        ]
    );
    assert_eq!(text(&plugin_candidates(None)[3]), "");
}

#[test]
fn first_path_that_exists_is_taken() {
    let paths = vec![path("/a"), path("/b"), path("/c")];
    assert_eq!(text(&first_existing(&paths, &vec![false, true, true]).unwrap()), "/b");
    assert!(first_existing(&paths, &vec![false, false, false]).is_none());
}

#[test]
fn engine_is_started_with_these_arguments() {
    let plain = spawn_arguments(&path("/tmp/s"), None);
    assert_eq!(
        plain,
        [
            "--idle=yes",
            "--no-video",
            "--no-terminal",
            "--no-config",
            "--loop-file=no",
            "--loop-playlist=no",
            "--really-quiet",
            "--input-ipc-server=/tmp/s",
        ]
    );
    let more = spawn_arguments(&path("/tmp/s"), Some(&path("/usr/lib/mpv/mpris.so")));
    assert_eq!(more.len(), 9);
    assert_eq!(more[8], "--script=/usr/lib/mpv/mpris.so");
}

#[test]
fn connecting_is_tried_fifty_times() {
    let mut c = Connecting::new();
    let mut tries = 0;
    while c.may_try() {
        tries += 1;
        assert_eq!(c.try_failed(), CONNECT_WAIT);
    }
    assert_eq!(tries, 50);
    assert_eq!(CONNECT_TRIES, 50);
    assert_eq!(CONNECT_WAIT, 50);
}

#[test]
fn white_space_around_a_line_does_not_count() {
    let event = "{\"event\":\"property-change\",\"name\":\"pause\",\"data\":true}";
    for code in 0..=0x3001u32 {
        if let Some(c) = char::from_u32(code) {
            let mut s = MpvState::new();
            s.apply_line(&format!("{}{}{}{}", c, c, event, c));
            let white = matches!(code, 9..=13 | 32 | 0x85 | 0xa0 | 0x1680 | 0x2000..=0x200a | 0x2028 | 0x2029 | 0x202f | 0x205f | 0x3000);
            assert_eq!(s.paused, white, "{}", code);
            assert_eq!(c.is_whitespace(), white, "{}", code);
        }
    }
    assert!((0x3001..=0x10ffff).filter_map(char::from_u32).all(|c| !c.is_whitespace()));
}

#[test]
fn whole_numbers_of_the_engine_are_exact() {
    let mut s = MpvState::new();
    s.apply_line("{\"event\":\"property-change\",\"name\":\"duration\",\"data\":9007199254740992}");
    assert_eq!(s.duration.bits, 9007199254740992.0f64.to_bits());
    assert_eq!(s.duration.whole_part(), 9007199254740992);
}

#[test]
fn commands_say_the_number_that_was_meant() {
    for x in [0.0, -0.0, 42.5, 100.0, 0.1, -3.25, 1e16, 5e-324, f64::MAX] {
        let text = serde_json::Value::from(x).to_string();
        let volume = volume_command(double(x), &text).unwrap().line();
        assert_eq!(volume, format!("{{\"command\":[\"set_property\",\"volume\",{}]}}\n", text));
        let seek = seek_command(double(x), &text).unwrap().line();
        assert_eq!(seek, format!("{{\"command\":[\"seek\",{},\"relative\"]}}\n", text));
    }
    for x in [f64::NAN, f64::INFINITY, f64::NEG_INFINITY] {
        let text = serde_json::Value::from(x).to_string();
        let volume = volume_command(double(x), &text).unwrap().line();
        assert_eq!(volume, "{\"command\":[\"set_property\",\"volume\",null]}\n");
        assert!(seek_command(double(x), &text).is_some());
        assert!(seek_command(double(x), "1.0").is_none());
    }
}

#[test]
fn text_that_says_another_number_makes_no_command() {
    for text in ["7.5", "null", "", "rubbish", "[42.5]", "\"42.5\"", "true"] {
        assert!(volume_command(double(42.5), text).is_none());
        assert!(seek_command(double(42.5), text).is_none());
    }
}

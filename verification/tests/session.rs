use tuiplay::app::{App, Effect};
use tuiplay::double::Double;
use tuiplay::entries::Entry;
use tuiplay::model::ViewMode;
use tuiplay::path::FilePath;
use tuiplay::state::{config_dir, music_dir, start_dir, state_path, SavedState};
use tuiplay::theme::Theme;

fn path(s: &str) -> FilePath {
    FilePath::from_text(s)
}

fn text(p: &FilePath) -> String {
    String::from_utf8(p.bytes.clone()).unwrap()
}

fn player(dir: &str) -> App {
    App::new(path(dir), Theme::default(), None)
}

fn volume_text(app: &App) -> String {
    serde_json::Value::from(f64::from_bits(app.mpv.volume.bits)).to_string()
}

#[test]
fn state_is_written_as_json() {
    let mut app = player("/m");
    app.queue = vec![path("/m/a \"1\".mp3"), path("/m/ü.ogg")];
    app.mode = ViewMode::Queue;
    app.set_volume(Double { bits: 42.5f64.to_bits() });
    assert_eq!(
        app.save_state("42.5").unwrap(),
        "{\"current_dir\":\"/m\",\"mode\":2,\"queue\":[\"/m/a \\\"1\\\".mp3\",\"/m/ü.ogg\"],\"volume\":42.5}"
    );
    app.mode = ViewMode::Zen;
    assert!(app.save_state("1.0").unwrap().contains("\"mode\":3"));
    app.mode = ViewMode::Files;
    assert!(app.save_state("1.0").unwrap().contains("\"mode\":1"));
    app.set_volume(Double { bits: 0.1f64.to_bits() });
    assert!(app.save_state("0.1").unwrap().contains("\"volume\":0.1}"));
    assert!(app.save_state("rubbish").unwrap().contains("\"volume\":null"));
    assert!(app.save_state("0.2").unwrap().contains("\"volume\":null"));
}

#[test]
fn path_that_is_no_text_cannot_be_saved() {
    let mut app = player("/m");
    app.queue = vec![FilePath { bytes: vec![b'/', 0xff] }];
    assert!(app.save_state("1.0").is_none());
    app.queue = Vec::new();
    app.current_dir = FilePath { bytes: vec![0xc3] };
    assert!(app.save_state("1.0").is_none());
}

#[test]
fn saved_session_goes_on() {
    for volume in [0.0, 0.1, 33.333333333333336, 70.0, 99.99999999999999, 100.0] {
        let mut app = player("/m/\u{1}ü");
        app.queue = vec![path("/m/1.mp3"), path("/m/1.mp3"), path("relative")];
        app.mode = ViewMode::Zen;
        app.set_volume(Double { bits: f64::to_bits(volume) });
        let saved = SavedState::read(&app.save_state(&volume_text(&app)).unwrap()).unwrap();
        let mut next = player("/");
        let found = vec![Entry { path: path("/m/\u{1}ü/x.mp3"), is_dir: false }];
        let effects = next.load_state(saved, Some(&found));
        assert!(next.current_dir.same(&app.current_dir));
        assert_eq!(next.entries.len(), 1);
        let queue: Vec<String> = next.queue.iter().map(text).collect();
        assert_eq!(queue, ["/m/1.mp3", "/m/1.mp3", "relative"]);
        assert_eq!(next.mode, ViewMode::Zen);
        assert_eq!(f64::from_bits(next.mpv.volume.bits), volume);
        assert_eq!(effects.len(), 1);
        assert!(matches!(effects[0], Effect::SetVolume(v) if f64::from_bits(v.bits) == volume));
    }
}

#[test]
fn state_that_is_no_json_is_left_out() {
    assert!(SavedState::read("").is_none());
    assert!(SavedState::read("{\"volume\":").is_none());
}

#[test]
fn parts_of_the_state_may_be_missing() {
    let saved = SavedState::read("{\"queue\":[\"/a\",7,null,\"/b\",[\"/c\"]],\"mode\":9,\"volume\":250}").unwrap();
    assert!(saved.current_dir.is_none());
    let queue: Vec<String> = saved.queue.as_ref().unwrap().iter().map(text).collect();
    assert_eq!(queue, ["/a", "/b"]);
    assert_eq!(saved.mode, Some(ViewMode::Files));
    assert_eq!(saved.volume.map(f64::from_bits), Some(250.0));
    let mut app = player("/m");
    let effects = app.load_state(saved, None);
    assert!(app.current_dir.same(&path("/m")));
    assert_eq!(f64::from_bits(app.mpv.volume.bits), 100.0);
    assert!(matches!(effects[0], Effect::SetVolume(v) if f64::from_bits(v.bits) == 100.0));
    assert_eq!(app.queue.len(), 2);
}

#[test]
fn wrong_kinds_are_missing() {
    for line in ["[]", "7", "{}", "{\"current_dir\":7,\"queue\":{},\"volume\":\"loud\",\"mode\":-1}", "{\"mode\":2.0}"] {
        let saved = SavedState::read(line).unwrap();
        assert!(saved.current_dir.is_none());
        assert!(saved.queue.is_none());
        assert!(saved.volume.is_none());
        assert!(saved.mode.is_none());
        let mut app = player("/m");
        assert_eq!(app.load_state(saved, None).len(), 0);
        assert_eq!(f64::from_bits(app.mpv.volume.bits), 100.0);
        assert_eq!(app.mode, ViewMode::Files);
    }
}

#[test]
fn lost_directory_is_not_gone_to() {
    let saved = SavedState::read("{\"current_dir\":\"/gone\",\"mode\":2,\"volume\":-3.5}").unwrap();
    assert_eq!(text(saved.current_dir.as_ref().unwrap()), "/gone");
    let mut app = player("/m");
    app.load_state(saved, None);
    assert!(app.current_dir.same(&path("/m")));
    assert_eq!(app.mode, ViewMode::Queue);
    assert_eq!(f64::from_bits(app.mpv.volume.bits), 0.0);
}

#[test]
fn saved_values_are_read() {
    let mut fields = serde_json::Map::new();
    fields.insert("volume".to_string(), serde_json::Value::from(55u64));
    fields.insert("mode".to_string(), serde_json::Value::from(3u64));
    let saved = SavedState::from_json(&serde_json::Value::from(fields));
    assert_eq!(saved.volume, Some(55.0f64.to_bits()));
    assert_eq!(saved.mode, Some(ViewMode::Zen));
}

#[test]
fn files_of_the_player() {
    assert_eq!(text(&config_dir("/home/u")), "/home/u/.config/tuiplay");
    assert_eq!(text(&state_path("/home/u")), "/home/u/.config/tuiplay/state.json");
    assert_eq!(text(&music_dir("/home/u")), "/home/u/Music");
}

#[test]
fn directory_to_start_in() {
    let p = |s: &str| Some(path(s));
    assert_eq!(text(&start_dir(p("/asked"), p("/music"), p("/here"))), "/asked");
    assert_eq!(text(&start_dir(None, p("/music"), p("/here"))), "/music");
    assert_eq!(text(&start_dir(None, None, p("/here"))), "/here");
    assert_eq!(text(&start_dir(None, None, None)), ".");
}

#[test]
fn whole_volumes_are_saved_whatever_the_text() {
    for percent in 0..=100u32 {
        let mut app = player("/m");
        app.set_volume(Double { bits: f64::from(percent).to_bits() });
        for text in ["", "null", "7.5", "[]"] {
            let saved = app.save_state(text).unwrap();
            assert!(saved.contains(&format!("\"volume\":{}.0}}", percent)));
            let mut next = player("/");
            next.load_state(SavedState::read(&saved).unwrap(), None);
            assert_eq!(next.mpv.volume.bits, app.mpv.volume.bits);
        }
    }
}

#[test]
fn negative_zero_is_no_whole_volume() {
    let mut app = player("/m");
    app.mpv.volume = Double { bits: (-0.0f64).to_bits() };
    assert!(app.save_state("-0.0").unwrap().contains("\"volume\":-0.0}"));
    app.mpv.volume = Double { bits: f64::NAN.to_bits() };
    assert!(app.save_state("null").unwrap().contains("\"volume\":null"));
}

#[test]
fn deep_text_for_the_volume_counts_for_nothing() {
    for depth in [1usize, 127, 128, 500] {
        let text = format!("{}1{}", "{\"a\":".repeat(depth), "}".repeat(depth));
        let mut app = player("/m");
        app.set_volume(Double { bits: 0.5f64.to_bits() });
        let saved = app.save_state(&text).unwrap();
        assert!(saved.contains("\"volume\":null"));
        let back = SavedState::read(&saved).unwrap();
        assert!(back.volume.is_none());
        assert_eq!(back.mode, Some(ViewMode::Files));
    }
}

#[test]
fn whole_numbers_become_the_nearest_doubles() {
    let numbers = [
        0u64, 1, 3, 100, (1 << 53) - 1, 1 << 53, (1 << 53) + 1, (1 << 53) + 2, (1 << 53) + 3, (1 << 54) - 1,
        (1 << 54) - 3, u64::MAX, u64::MAX - 1024, u64::MAX - 1025,
    ];
    for n in numbers {
        let saved = SavedState::read(&format!("{{\"volume\":{}}}", n)).unwrap();
        assert_eq!(saved.volume, Some((n as f64).to_bits()));
    }
    for n in [-1i64, -100, i64::MIN, -(1 << 53) - 1] {
        let saved = SavedState::read(&format!("{{\"volume\":{}}}", n)).unwrap();
        assert_eq!(saved.volume, Some((n as f64).to_bits()));
    }
    for n in [0u32, 1, 50, u32::MAX] {
        let saved = SavedState::read(&format!("{{\"volume\":{}.0}}", n)).unwrap();
        assert_eq!(saved.volume, Some(f64::from(n).to_bits()));
        let saved = SavedState::read(&format!("{{\"volume\":-{}.0}}", n)).unwrap();
        assert_eq!(saved.volume, Some((-f64::from(n)).to_bits()));
    }
}

#[test]
fn selection_in_the_queue_stays_when_a_state_is_loaded() {
    let mut app = player("/m");
    app.queue = vec![path("/a"), path("/b"), path("/c")];
    app.selected_queue = 1;
    app.load_state(SavedState::read("{\"queue\":[\"/x\",\"/y\"]}").unwrap(), None);
    assert_eq!(app.selected_queue, 1);
    assert_eq!(app.queue.len(), 2);
}

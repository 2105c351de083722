use tuiplay::app::{album_name, media_metadata, App, Effect};
use tuiplay::double::Double;
use tuiplay::entries::Entry;
use tuiplay::model::{Playback, ViewMode};
use tuiplay::mpv::{Command, MpvState};
use tuiplay::path::FilePath;
use tuiplay::theme::Theme;

fn path(s: &str) -> FilePath {
    FilePath::from_text(s)
}

fn text(p: &FilePath) -> String {
    String::from_utf8(p.bytes.clone()).unwrap()
}

fn double(x: f64) -> Double {
    Double { bits: x.to_bits() }
}

fn entry(s: &str, is_dir: bool) -> Entry {
    Entry { path: path(s), is_dir }
}

/// A directory `b`, and the files `1.mp3`, `2.mp3` and `3.mp3` in `/m`.
fn player() -> App {
    let mut app = App::new(path("/m"), Theme::default(), None);
    app.refresh_entries(&vec![
        entry("/m/2.mp3", false),
        entry("/m/1.mp3", false),
        entry("/m/b", true),
        entry("/m/3.mp3", false),
    ]);
    app
}

fn queued(tracks: &[&str]) -> App {
    let mut app = player();
    app.mode = ViewMode::Queue;
    app.queue = tracks.iter().map(|t| path(t)).collect();
    app
}

fn queue(app: &App) -> Vec<String> {
    app.queue.iter().map(text).collect()
}

/// The effects in a form that can be compared.
fn told(effects: &Vec<Effect>) -> Vec<String> {
    effects
        .iter()
        .map(|e| match e {
            Effect::Send(c) => format!("send {}", c.line().trim_end()),
            Effect::Play(p) => format!("play {}", text(p)),
            Effect::Resume(p) => format!("resume {}", text(p)),
            Effect::List(Some(p)) => format!("list {}", text(p)),
            Effect::List(None) => "list".to_string(),
            Effect::ChangeVolume(by) => format!("volume by {}", by),
            Effect::SetVolume(v) => format!("volume {}", f64::from_bits(v.bits)),
            Effect::SeekBy(s) => format!("seek {}", f64::from_bits(s.bits)),
            Effect::Announce(m) => format!("announce {} of {:?}", m.title, m.album),
            Effect::Report(Playback::Stopped) => "stopped".to_string(),
            Effect::Report(Playback::Paused(p)) => format!("paused at {}", f64::from_bits(p.bits)),
            Effect::Report(Playback::Playing(p)) => format!("playing at {}", f64::from_bits(p.bits)),
            Effect::ShowArtwork(p) => format!("artwork {}", text(p)),
            Effect::ClearArtwork => "no artwork".to_string(),
        })
        .collect()
}

/// The track is played, and the engine takes it.
fn start(app: &mut App, track: &str) {
    app.play_outcome(&path(track), Ok(()));
}

fn current(app: &App) -> Option<String> {
    app.current.as_ref().map(text)
}

#[test]
fn player_starts_with_nothing() {
    let app = App::new(path("/m"), Theme::default(), Some("look here".to_string()));
    assert_eq!(text(&app.current_dir), "/m");
    assert_eq!(app.entries.len(), 0);
    assert_eq!(app.selected_file, 0);
    assert_eq!(app.queue.len(), 0);
    assert_eq!(app.mode, ViewMode::Files);
    assert!(app.mpv == MpvState::new());
    assert!(app.current.is_none());
    assert_eq!(app.status, "look here");
    assert!(!app.should_quit && !app.show_quit_popup && !app.is_searching);
    assert_eq!(app.search_query, "");
    assert_eq!(app.pending_seek, 0);
    assert_eq!(App::new(path("/m"), Theme::default(), None).status, "");
}

#[test]
fn listing_shows_the_directory_and_selects_the_first() {
    let mut app = player();
    let names: Vec<String> = app.entries.iter().map(|e| e.name()).collect();
    assert_eq!(names, ["b", "1.mp3", "2.mp3", "3.mp3"]);
    app.selected_file = 2;
    app.refresh_entries(&vec![entry("/m/1.mp3", false)]);
    assert_eq!(app.selected_file, 0);
    assert_eq!(app.entries.len(), 1);
}

#[test]
fn moving_stops_at_both_ends() {
    let mut app = player();
    app.move_up();
    assert_eq!(app.selected_file, 0);
    for _ in 0..9 {
        app.move_down();
    }
    assert_eq!(app.selected_file, 3);
    app.move_up();
    assert_eq!(app.selected_file, 2);
    let mut empty = App::new(path("/m"), Theme::default(), None);
    empty.move_down();
    assert_eq!(empty.selected_file, 0);
}

#[test]
fn moving_in_the_queue_leaves_the_files() {
    let mut app = queued(&["/x", "/y"]);
    app.move_down();
    assert_eq!((app.selected_queue, app.selected_file), (1, 0));
    app.move_down();
    assert_eq!(app.selected_queue, 1);
    app.move_up();
    app.move_up();
    assert_eq!(app.selected_queue, 0);
    app.mode = ViewMode::Zen;
    app.move_down();
    assert_eq!((app.selected_queue, app.selected_file), (0, 0));
}

#[test]
fn moving_down_and_up_selects_the_same() {
    let mut app = player();
    app.selected_file = 1;
    app.move_down();
    app.move_up();
    assert_eq!(app.selected_file, 1);
    app.move_up();
    app.move_down();
    assert_eq!(app.selected_file, 1);
}

#[test]
fn tracks_move_in_the_queue() {
    let mut app = queued(&["/x", "/y", "/z"]);
    app.queue_move_up();
    assert_eq!(queue(&app), ["/x", "/y", "/z"]);
    app.queue_move_down();
    assert_eq!((queue(&app).join(" "), app.selected_queue), ("/y /x /z".to_string(), 1));
    app.queue_move_down();
    assert_eq!((queue(&app).join(" "), app.selected_queue), ("/y /z /x".to_string(), 2));
    app.queue_move_down();
    assert_eq!((queue(&app).join(" "), app.selected_queue), ("/y /z /x".to_string(), 2));
    app.queue_move_up();
    assert_eq!((queue(&app).join(" "), app.selected_queue), ("/y /x /z".to_string(), 1));
    app.mode = ViewMode::Files;
    app.queue_move_up();
    app.queue_move_down();
    assert_eq!((queue(&app).join(" "), app.selected_queue), ("/y /x /z".to_string(), 1));
}

#[test]
fn selected_file_is_queued() {
    let mut app = player();
    app.add_selected_to_queue();
    assert_eq!(queue(&app).len(), 0);
    assert_eq!(app.status, "");
    app.move_down();
    app.add_selected_to_queue();
    assert_eq!(queue(&app), ["/m/1.mp3"]);
    assert_eq!(app.status, "Added to queue: 1.mp3");
    assert_eq!(app.selected_file, 2);
    app.selected_file = 3;
    app.add_selected_to_queue();
    app.add_selected_to_queue();
    assert_eq!(queue(&app), ["/m/1.mp3", "/m/3.mp3", "/m/3.mp3"]);
    assert_eq!(app.selected_file, 3);
    app.mode = ViewMode::Zen;
    app.add_selected_to_queue();
    assert_eq!(queue(&app).len(), 3);
    let mut empty = App::new(path("/m"), Theme::default(), None);
    empty.add_selected_to_queue();
    assert_eq!(empty.queue.len(), 0);
}

#[test]
fn selected_track_leaves_the_queue() {
    let mut app = queued(&["/x", "/y", "/"]);
    app.selected_queue = 1;
    app.remove_from_queue();
    assert_eq!(queue(&app), ["/x", "/"]);
    assert_eq!((app.selected_queue, app.status.as_str()), (1, "Removed from queue: y"));
    app.remove_from_queue();
    assert_eq!(queue(&app), ["/x"]);
    assert_eq!((app.selected_queue, app.status.as_str()), (0, "Removed from queue: y"));
    app.remove_from_queue();
    assert_eq!(queue(&app).len(), 0);
    assert_eq!((app.selected_queue, app.status.as_str()), (0, "Removed from queue: x"));
    app.status = String::new();
    app.remove_from_queue();
    assert_eq!(app.status, "");
    let mut files = queued(&["/x"]);
    files.mode = ViewMode::Files;
    files.remove_from_queue();
    assert_eq!(queue(&files), ["/x"]);
}

#[test]
fn added_track_can_be_taken_out_again() {
    let mut app = queued(&["/x", "/y"]);
    app.mode = ViewMode::Files;
    app.selected_file = 1;
    app.add_selected_to_queue();
    app.mode = ViewMode::Queue;
    app.selected_queue = 2;
    app.remove_from_queue();
    assert_eq!(queue(&app), ["/x", "/y"]);
}

#[test]
fn directories_are_entered_and_files_are_played() {
    let mut app = player();
    assert_eq!(told(&app.enter_selected()), ["list"]);
    assert_eq!(text(&app.current_dir), "/m/b");
    let mut app = player();
    app.selected_file = 2;
    assert_eq!(told(&app.enter_selected()), ["play /m/2.mp3"]);
    assert!(app.current.is_none());
    let mut app = queued(&["/x", "/y"]);
    app.selected_queue = 1;
    assert_eq!(told(&app.enter_selected()), ["play /y"]);
    assert_eq!(queue(&app), ["/x", "/y"]);
    app.mode = ViewMode::Zen;
    assert_eq!(app.enter_selected().len(), 0);
    let mut empty = App::new(path("/m"), Theme::default(), None);
    assert_eq!(empty.enter_selected().len(), 0);
    empty.mode = ViewMode::Queue;
    assert_eq!(empty.enter_selected().len(), 0);
}

#[test]
fn parent_directory_selects_the_one_that_was_left() {
    let mut app = App::new(path("/m/b"), Theme::default(), None);
    assert_eq!(told(&app.go_parent()), ["list /m/b"]);
    assert_eq!(text(&app.current_dir), "/m");
    app.refresh_entries(&vec![entry("/m/a", true), entry("/m/b", true), entry("/m/c", true)]);
    app.select_path(&path("/m/b"));
    assert_eq!(app.selected_file, 1);
    assert_eq!(told(&app.enter_selected()), ["list"]);
    assert_eq!(text(&app.current_dir), "/m/b");
}

#[test]
fn root_has_no_parent_and_other_views_stay() {
    let mut root = App::new(path("/"), Theme::default(), None);
    assert_eq!(root.go_parent().len(), 0);
    assert_eq!(text(&root.current_dir), "/");
    let mut zen = App::new(path("/m"), Theme::default(), None);
    zen.mode = ViewMode::Zen;
    assert_eq!(zen.go_parent().len(), 0);
    assert_eq!(text(&zen.current_dir), "/m");
    let mut single = App::new(path("m"), Theme::default(), None);
    assert_eq!(told(&single.go_parent()), ["list m"]);
    assert_eq!(text(&single.current_dir), "");
}

#[test]
fn path_that_is_not_listed_is_not_selected() {
    let mut app = player();
    app.selected_file = 2;
    app.select_path(&path("/elsewhere"));
    assert_eq!(app.selected_file, 2);
    app.select_path(&path("/m//3.mp3"));
    assert_eq!(app.selected_file, 3);
}

#[test]
fn track_that_the_engine_takes_is_announced() {
    let mut app = player();
    app.status = "old".to_string();
    let effects = app.play_outcome(&path("/m/b/song.x.mp3"), Ok(()));
    assert_eq!(
        told(&effects),
        ["announce song.x of Some(\"b\")", "playing at 0", "artwork /m/b/song.x.mp3"]
    );
    assert_eq!(current(&app), Some("/m/b/song.x.mp3".to_string()));
    assert_eq!(app.status, "");
    assert!(!app.mpv.idle);
}

#[test]
fn track_that_fails_is_reported() {
    let mut app = player();
    start(&mut app, "/m/1.mp3");
    let effects = app.play_outcome(&path("/m/2.mp3"), Err("Broken pipe (os error 32)".to_string()));
    assert_eq!(effects.len(), 0);
    assert_eq!(app.status, "Error: Broken pipe (os error 32)");
    assert_eq!(current(&app), Some("/m/1.mp3".to_string()));
}

#[test]
fn metadata_of_tracks() {
    let m = media_metadata(&path("/artist/album/01 song.flac"));
    assert_eq!((m.title.as_str(), m.album.as_deref()), ("01 song", Some("album")));
    let m = media_metadata(&path("/"));
    assert_eq!((m.title.as_str(), m.album.as_deref()), ("Unknown Track", None));
    assert_eq!(album_name(&path("/song.mp3")), None);
    assert_eq!(album_name(&path("song.mp3")), None);
    assert_eq!(album_name(&path("a/song.mp3")), Some("a".to_string()));
}

#[test]
fn queue_is_played_before_the_directory() {
    let mut app = queued(&["/x", "/y"]);
    app.selected_queue = 1;
    start(&mut app, "/m/1.mp3");
    assert_eq!(told(&app.play_next()), ["play /x"]);
    assert_eq!(queue(&app), ["/y"]);
    assert_eq!(app.selected_queue, 0);
    assert_eq!(told(&app.play_next()), ["play /y"]);
    assert_eq!(queue(&app).len(), 0);
    assert_eq!(told(&app.play_next()), ["play /m/2.mp3"]);
}

#[test]
fn next_file_of_the_directory_is_selected_and_played() {
    let mut app = player();
    start(&mut app, "/m/1.mp3");
    assert_eq!(told(&app.play_next()), ["play /m/2.mp3"]);
    assert_eq!(app.selected_file, 2);
    assert_eq!(current(&app), Some("/m/1.mp3".to_string()));
}

#[test]
fn playback_ends_behind_the_last_file() {
    let mut app = player();
    start(&mut app, "/m/3.mp3");
    assert_eq!(told(&app.play_next()), ["no artwork", "stopped"]);
    assert!(app.current.is_none());
    assert_eq!(app.status, "Playback finished");
    let mut other = player();
    start(&mut other, "/elsewhere.mp3");
    assert_eq!(told(&other.play_next()), ["no artwork", "stopped"]);
    let mut none = player();
    assert_eq!(told(&none.play_next()), ["no artwork", "stopped"]);
}

#[test]
fn going_back_plays_the_file_before() {
    let mut app = player();
    start(&mut app, "/m/2.mp3");
    app.mpv.time_pos = double(3.0);
    assert_eq!(told(&app.play_prev()), ["play /m/1.mp3"]);
    assert_eq!(app.selected_file, 1);
    start(&mut app, "/m/1.mp3");
    app.status = String::new();
    assert_eq!(app.play_prev().len(), 0);
    assert_eq!(app.status, "Top of list");
    let mut none = player();
    assert_eq!(none.play_prev().len(), 0);
    assert_eq!(none.status, "Top of list");
}

#[test]
fn going_back_after_three_seconds_starts_again() {
    let mut app = player();
    start(&mut app, "/m/2.mp3");
    app.mpv.time_pos = double(3.25);
    assert_eq!(told(&app.play_prev()), ["seek -3.25"]);
    assert_eq!(app.status, "");
    assert_eq!(current(&app), Some("/m/2.mp3".to_string()));
}

#[test]
fn next_and_back_gives_the_same_track() {
    let mut app = player();
    start(&mut app, "/m/1.mp3");
    app.play_next();
    start(&mut app, "/m/2.mp3");
    assert_eq!(told(&app.play_prev()), ["play /m/1.mp3"]);
    assert_eq!(app.selected_file, 1);
}

#[test]
fn pausing_reports_what_the_engine_said_last() {
    let mut app = player();
    app.mpv.time_pos = double(7.5);
    assert_eq!(told(&app.toggle_pause()), ["send {\"command\":[\"cycle\",\"pause\"]}", "playing at 7.5"]);
    app.mpv.paused = true;
    assert_eq!(told(&app.toggle_pause()), ["send {\"command\":[\"cycle\",\"pause\"]}", "paused at 7.5"]);
    assert!(app.mpv.paused);
}

#[test]
fn stopping_ends_the_playback() {
    let mut app = queued(&["/x"]);
    start(&mut app, "/m/1.mp3");
    assert_eq!(told(&app.stop()), ["send {\"command\":[\"stop\"]}", "no artwork", "stopped"]);
    assert!(app.current.is_none());
    assert!(app.mpv.idle);
    assert_eq!(app.advance().len(), 0);
    assert_eq!(queue(&app), ["/x"]);
}

#[test]
fn ended_track_is_followed_by_the_next() {
    let mut app = queued(&["/x"]);
    start(&mut app, "/m/1.mp3");
    assert_eq!(app.advance().len(), 0);
    app.mpv_line("{\"event\":\"property-change\",\"name\":\"idle-active\",\"data\":true}");
    assert_eq!(told(&app.advance()), ["play /x"]);
    assert_eq!(queue(&app).len(), 0);
}

#[test]
fn volume_changes_by_ten() {
    let mut app = player();
    assert_eq!(told(&app.volume_up()), ["volume by 10"]);
    assert_eq!(told(&app.volume_down()), ["volume by -10"]);
    assert_eq!(f64::from_bits(app.set_volume(double(90.0)).bits), 90.0);
    assert_eq!(f64::from_bits(app.mpv.volume.bits), 90.0);
    assert_eq!(f64::from_bits(app.set_volume(double(1000.0)).bits), 100.0);
}

#[test]
fn seeking_adds_up_and_is_done_once() {
    let mut app = player();
    app.seek_forward();
    assert_eq!(app.pending_seek, 0);
    start(&mut app, "/m/1.mp3");
    app.seek_forward();
    app.seek_forward();
    app.seek_backward();
    app.seek_forward();
    assert_eq!(app.pending_seek, 10);
    assert_eq!(told(&app.process_pending_seek()), ["seek 10"]);
    assert_eq!(app.pending_seek, 0);
    assert_eq!(app.process_pending_seek().len(), 0);
    app.seek_backward();
    assert_eq!(told(&app.process_pending_seek()), ["seek -5"]);
    app.seek_backward();
    app.seek_forward();
    assert_eq!(app.process_pending_seek().len(), 0);
}

#[test]
fn seeking_is_dropped_when_nothing_plays() {
    let mut app = player();
    start(&mut app, "/m/1.mp3");
    app.seek_forward();
    app.stop();
    assert_eq!(app.process_pending_seek().len(), 0);
    assert_eq!(app.pending_seek, 0);
}

#[test]
fn lost_engine_is_replaced() {
    let mut app = queued(&["/x"]);
    start(&mut app, "/m/1.mp3");
    app.mpv.volume = double(30.0);
    app.mpv.paused = true;
    app.mpv_died();
    assert_eq!(app.status, "MPV died! Respawning process...");
    assert_eq!(told(&app.mpv_respawned()), ["volume 30", "resume /m/1.mp3"]);
    assert_eq!(app.status, "MPV process respawned.");
    assert_eq!(f64::from_bits(app.mpv.volume.bits), 30.0);
    assert!(!app.mpv.paused);
    assert!(app.mpv.idle);
    app.mpv_resumed();
    assert!(!app.mpv.idle);
    assert_eq!(queue(&app), ["/x"]);
    let mut quiet = player();
    quiet.mpv.volume = double(130.0);
    assert_eq!(told(&quiet.mpv_respawned()), ["volume 100"]);
}

#[test]
fn lines_of_the_engine_reach_the_player() {
    let mut app = player();
    app.mpv_line("{\"event\":\"property-change\",\"name\":\"time-pos\",\"data\":1.5}\n");
    assert_eq!(f64::from_bits(app.mpv.time_pos.bits), 1.5);
    app.mpv_line("rubbish");
    assert_eq!(f64::from_bits(app.mpv.time_pos.bits), 1.5);
}

#[test]
fn search_selects_the_first_match_in_any_case() {
    let mut app = App::new(path("/m"), Theme::default(), None);
    app.refresh_entries(&vec![
        entry("/m/Blue.mp3", false),
        entry("/m/ÄPFEL blue.mp3", false),
        entry("/m/Blues", true),
    ]);
    app.selected_file = 1;
    app.update_search_selection();
    assert_eq!(app.selected_file, 1);
    app.search_query = "BLUE.".to_string();
    app.update_search_selection();
    assert_eq!(app.selected_file, 1);
    app.search_query = "blue".to_string();
    app.update_search_selection();
    assert_eq!(app.selected_file, 0);
    app.search_query = "äpf".to_string();
    app.update_search_selection();
    assert_eq!(app.selected_file, 2);
    app.search_query = "none such".to_string();
    app.update_search_selection();
    assert_eq!(app.selected_file, 2);
}

#[test]
fn commands_for_the_engine_are_lines() {
    let mut app = player();
    match &app.stop()[0] {
        Effect::Send(Command::Stop) => {}
        _ => panic!("another effect"),
    }
}

#[test]
fn opening_and_going_back_leads_to_the_same_directory() {
    let mut app = player();
    app.enter_selected();
    app.refresh_entries(&vec![entry("/m/b/x.mp3", false)]);
    assert_eq!(told(&app.go_parent()), ["list /m/b"]);
    assert!(app.current_dir.same(&path("/m")));
}

#[test]
fn pending_seconds_are_counted_as_a_double_counts_them() {
    let starts = [
        0i64,
        9007199254740985,
        9007199254740990,
        9007199254740992,
        (1 << 54) - 4,
        (1 << 55) - 8,
        (1 << 56) - 24,
        -9007199254740990,
        -(1 << 56) + 16,
    ];
    for first in starts {
        let mut app = player();
        start(&mut app, "/m/1.mp3");
        app.pending_seek = first;
        let mut expected = first as f64;
        for step in 0..40 {
            if step % 9 == 8 || first < 0 {
                app.seek_backward();
                expected -= 5.0;
            } else {
                app.seek_forward();
                expected += 5.0;
            }
            assert_eq!(app.pending_seek as f64, expected);
            assert_eq!(app.pending_seek, expected as i64);
        }
        let effects = app.process_pending_seek();
        assert!(matches!(effects[0], Effect::SeekBy(s) if s.bits == expected.to_bits()));
    }
    let mut app = player();
    start(&mut app, "/m/1.mp3");
    app.pending_seek = 9007199254740990;
    app.seek_forward();
    assert_eq!(app.pending_seek, 9007199254740996);
}

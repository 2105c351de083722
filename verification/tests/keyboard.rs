use tuiplay::app::{App, Effect};
use tuiplay::entries::Entry;
use tuiplay::keys::{action_of, AppAction, KeyCode, KeyEvent, MediaEvent, MediaKey};
use tuiplay::model::ViewMode;
use tuiplay::path::FilePath;
use tuiplay::theme::Theme;

fn path(s: &str) -> FilePath {
    FilePath::from_text(s)
}

fn player() -> App {
    let mut app = App::new(path("/m"), Theme::default(), None);
    app.refresh_entries(&vec![
        Entry { path: path("/m/1.mp3"), is_dir: false },
        Entry { path: path("/m/2.mp3"), is_dir: false },
        Entry { path: path("/m/b"), is_dir: true },
    ]);
    app
}

fn press(app: &mut App, code: KeyCode) -> Vec<Effect> {
    app.handle_key(KeyEvent { code, shift: false })
}

fn key(app: &mut App, c: char) -> Vec<Effect> {
    press(app, KeyCode::Char(c))
}

fn plays(effects: &Vec<Effect>, track: &str) -> bool {
    effects.len() == 1 && matches!(&effects[0], Effect::Play(p) if p.same(&path(track)))
}

#[test]
fn quitting_needs_a_yes() {
    for ask in [KeyCode::Char('q'), KeyCode::Esc] {
        for yes in ['y', 'Y'] {
            let mut app = player();
            assert_eq!(press(&mut app, ask).len(), 0);
            assert!(app.show_quit_popup && !app.should_quit);
            key(&mut app, yes);
            assert!(app.should_quit);
        }
    }
    let mut app = player();
    key(&mut app, 'y');
    assert!(!app.should_quit);
}

#[test]
fn quitting_is_taken_back() {
    for no in [KeyCode::Char('n'), KeyCode::Char('N'), KeyCode::Char('q'), KeyCode::Esc] {
        let mut app = player();
        key(&mut app, 'q');
        assert_eq!(press(&mut app, no).len(), 0);
        assert!(!app.show_quit_popup && !app.should_quit);
    }
}

#[test]
fn question_swallows_other_keys() {
    let mut app = player();
    key(&mut app, 'q');
    assert_eq!(key(&mut app, 'j').len(), 0);
    assert_eq!(press(&mut app, KeyCode::Enter).len(), 0);
    assert_eq!(press(&mut app, KeyCode::Media(MediaKey::Stop)).len(), 0);
    assert_eq!(app.selected_file, 0);
    assert!(app.show_quit_popup);
}

#[test]
fn views_have_numbers() {
    let mut app = player();
    key(&mut app, '2');
    assert_eq!(app.mode, ViewMode::Queue);
    key(&mut app, '3');
    assert_eq!(app.mode, ViewMode::Zen);
    key(&mut app, '1');
    assert_eq!(app.mode, ViewMode::Files);
}

#[test]
fn search_is_typed() {
    let mut app = player();
    key(&mut app, '/');
    assert!(app.is_searching);
    key(&mut app, '2');
    assert_eq!(app.mode, ViewMode::Files);
    assert_eq!((app.search_query.as_str(), app.selected_file), ("2", 2));
    key(&mut app, 'q');
    assert!(!app.show_quit_popup);
    assert_eq!((app.search_query.as_str(), app.selected_file), ("2q", 2));
    press(&mut app, KeyCode::Backspace);
    press(&mut app, KeyCode::Backspace);
    press(&mut app, KeyCode::Backspace);
    assert_eq!((app.search_query.as_str(), app.selected_file), ("", 2));
    key(&mut app, '.');
    assert_eq!(app.selected_file, 1);
    press(&mut app, KeyCode::Down);
    assert_eq!(app.selected_file, 1);
    press(&mut app, KeyCode::Enter);
    assert!(!app.is_searching);
    assert_eq!(app.search_query, ".");
}

#[test]
fn search_is_given_up() {
    let mut app = player();
    app.search_query = "old".to_string();
    key(&mut app, '/');
    assert_eq!(app.search_query, "");
    key(&mut app, '2');
    press(&mut app, KeyCode::Esc);
    assert!(!app.is_searching && !app.show_quit_popup);
    assert_eq!((app.search_query.as_str(), app.selected_file), ("", 2));
}

#[test]
fn search_is_for_files_only() {
    for view in ['2', '3'] {
        let mut app = player();
        key(&mut app, view);
        key(&mut app, '/');
        assert!(!app.is_searching);
    }
}

#[test]
fn keys_move_the_selection() {
    let mut app = player();
    key(&mut app, 'j');
    press(&mut app, KeyCode::Down);
    assert_eq!(app.selected_file, 2);
    key(&mut app, 'k');
    assert_eq!(app.selected_file, 1);
    press(&mut app, KeyCode::Up);
    assert_eq!(app.selected_file, 0);
}

#[test]
fn keys_open_and_leave_directories() {
    for open in [KeyCode::Char('l'), KeyCode::Enter] {
        let mut app = player();
        assert!(matches!(press(&mut app, open)[0], Effect::List(None)));
        assert!(app.current_dir.same(&path("/m/b")));
        assert!(matches!(&key(&mut app, 'h')[0], Effect::List(Some(p)) if p.same(&path("/m/b"))));
        assert!(app.current_dir.same(&path("/m")));
    }
}

#[test]
fn keys_manage_the_queue() {
    let mut app = player();
    key(&mut app, 'j');
    key(&mut app, 'a');
    key(&mut app, 'a');
    assert_eq!(app.queue.len(), 2);
    key(&mut app, '2');
    key(&mut app, 'J');
    assert_eq!(app.selected_queue, 1);
    assert!(app.queue[1].same(&path("/m/1.mp3")));
    key(&mut app, 'K');
    assert_eq!(app.selected_queue, 0);
    assert!(app.queue[0].same(&path("/m/1.mp3")));
    key(&mut app, 'd');
    assert_eq!(app.queue.len(), 1);
    assert!(app.queue[0].same(&path("/m/2.mp3")));
}

#[test]
fn keys_play_the_next_and_the_previous_track() {
    let next = [
        KeyEvent { code: KeyCode::Char('n'), shift: false },
        KeyEvent { code: KeyCode::Right, shift: true },
        KeyEvent { code: KeyCode::Media(MediaKey::TrackNext), shift: false },
    ];
    for k in next {
        let mut app = player();
        app.play_outcome(&path("/m/1.mp3"), Ok(()));
        assert!(plays(&app.handle_key(k), "/m/2.mp3"));
    }
    let previous = [
        KeyEvent { code: KeyCode::Char('p'), shift: false },
        KeyEvent { code: KeyCode::Left, shift: true },
        KeyEvent { code: KeyCode::Media(MediaKey::TrackPrevious), shift: false },
    ];
    for k in previous {
        let mut app = player();
        app.play_outcome(&path("/m/2.mp3"), Ok(()));
        assert!(plays(&app.handle_key(k), "/m/1.mp3"));
    }
}

#[test]
fn arrow_keys_seek() {
    let mut app = player();
    app.play_outcome(&path("/m/1.mp3"), Ok(()));
    press(&mut app, KeyCode::Right);
    press(&mut app, KeyCode::Right);
    press(&mut app, KeyCode::Left);
    assert_eq!(app.pending_seek, 5);
}

#[test]
fn keys_pause_and_stop() {
    let pausing = [
        KeyCode::Char(' '),
        KeyCode::Media(MediaKey::Play),
        KeyCode::Media(MediaKey::Pause),
        KeyCode::Media(MediaKey::PlayPause),
    ];
    for k in pausing {
        let mut app = player();
        let effects = press(&mut app, k);
        assert!(matches!(&effects[0], Effect::Send(c) if c.line().contains("cycle")));
    }
    for k in [KeyCode::Char('s'), KeyCode::Media(MediaKey::Stop)] {
        let mut app = player();
        app.play_outcome(&path("/m/1.mp3"), Ok(()));
        let effects = press(&mut app, k);
        assert!(matches!(&effects[0], Effect::Send(c) if c.line().contains("stop")));
        assert!(app.current.is_none());
    }
}

#[test]
fn keys_change_the_volume() {
    for (c, by) in [('+', 10), ('=', 10), ('-', -10), ('_', -10)] {
        let mut app = player();
        let effects = key(&mut app, c);
        assert_eq!(effects.len(), 1);
        assert!(matches!(effects[0], Effect::ChangeVolume(n) if n == by));
    }
}

#[test]
fn other_keys_do_nothing() {
    let mut app = player();
    for k in [
        KeyCode::Char('x'),
        KeyCode::Char('Q'),
        KeyCode::Backspace,
        KeyCode::Other,
        KeyCode::Media(MediaKey::Other),
    ] {
        assert_eq!(press(&mut app, k).len(), 0);
    }
    assert_eq!(app.selected_file, 0);
    assert!(!app.show_quit_popup && !app.should_quit && !app.is_searching);
}

#[test]
fn desktop_events_have_actions() {
    assert!(action_of(MediaEvent::Play) == Some(AppAction::TogglePause));
    assert!(action_of(MediaEvent::Pause) == Some(AppAction::TogglePause));
    assert!(action_of(MediaEvent::Toggle) == Some(AppAction::TogglePause));
    assert!(action_of(MediaEvent::Next) == Some(AppAction::Next));
    assert!(action_of(MediaEvent::Previous) == Some(AppAction::Prev));
    assert!(action_of(MediaEvent::Stop) == Some(AppAction::Stop));
    assert!(action_of(MediaEvent::Other).is_none());
}

#[test]
fn desktop_actions_are_done() {
    let mut app = player();
    app.play_outcome(&path("/m/1.mp3"), Ok(()));
    assert!(plays(&app.process_external_action(AppAction::Next), "/m/2.mp3"));
    assert_eq!(app.process_external_action(AppAction::Prev).len(), 0);
    assert_eq!(app.status, "Top of list");
    assert_eq!(app.process_external_action(AppAction::TogglePause).len(), 2);
    assert_eq!(app.process_external_action(AppAction::Stop).len(), 3);
    assert!(app.current.is_none());
    assert!(!app.should_quit && !app.show_quit_popup);
}

#[test]
fn selections_stay_in_range() {
    let keys: Vec<char> = "jjakkdJKa2dJK1nphl3jka2ddd1/12".chars().collect();
    let mut app = player();
    let mut n: u32 = 1;
    for _ in 0..3000 {
        n = n.wrapping_mul(1664525).wrapping_add(1013904223);
        let c = keys[(n >> 16) as usize % keys.len()];
        key(&mut app, c);
        if n % 7 == 0 {
            press(&mut app, KeyCode::Enter);
            app.play_outcome(&path("/m/1.mp3"), Ok(()));
        }
        assert!(app.selected_file < app.entries.len());
        assert!(app.selected_queue < app.queue.len() || app.selected_queue == 0);
    }
}

#[test]
fn desktop_actions_are_done_in_their_order() {
    let mut app = player();
    app.play_outcome(&path("/m/1.mp3"), Ok(()));
    let mut pending = vec![AppAction::Next, AppAction::Prev, AppAction::Stop];
    assert!(plays(&app.process_external_actions(&mut pending).unwrap(), "/m/2.mp3"));
    app.play_outcome(&path("/m/2.mp3"), Ok(()));
    assert_eq!(pending.len(), 2);
    assert!(plays(&app.process_external_actions(&mut pending).unwrap(), "/m/1.mp3"));
    app.play_outcome(&path("/m/1.mp3"), Err("gone".to_string()));
    assert_eq!(app.process_external_actions(&mut pending).unwrap().len(), 3);
    assert!(app.current.is_none());
    assert!(app.process_external_actions(&mut pending).is_none());
    assert_eq!(app.status, "Error: gone");
}

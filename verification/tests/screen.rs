use tuiplay::app::App;
use tuiplay::double::Double;
use tuiplay::entries::Entry;
use tuiplay::layout::{
    centered_rect, popup_area, rows_of, screen_rows, scrollbar_area, zen_columns, Area,
};
use tuiplay::model::ViewMode;
use tuiplay::path::FilePath;
use tuiplay::theme::{Color, Theme};
use tuiplay::view::{
    bar_cells, bold_span, border_style, colored_span, control_line, file_list, format_time, frame_title, header_line,
    highlight_style, make_progress_bar, parts_shown, placeholder_art, player_bar_width, player_lines, popup_lines,
    queue_list, raw_span, zen_art, zen_bar_width, zen_lines, Frame, Part, Progress, Span, Style,
};

fn path(s: &str) -> FilePath {
    FilePath::from_text(s)
}

fn double(x: f64) -> Double {
    Double { bits: x.to_bits() }
}

fn area(x: u16, y: u16, width: u16, height: u16) -> Area {
    Area { x, y, width, height }
}

fn player() -> App {
    let mut app = App::new(path("/m"), Theme::default(), None);
    app.refresh_entries(&vec![
        Entry { path: path("/m/1.mp3"), is_dir: false },
        Entry { path: path("/m/2.mp3"), is_dir: false },
        Entry { path: path("/m/b"), is_dir: true },
    ]);
    app
}

fn plain(color: Color) -> Style {
    Style { fg: Some(color), bg: None, bold: false }
}

fn strong(color: Color) -> Style {
    Style { fg: Some(color), bg: None, bold: true }
}

fn unstyled() -> Style {
    Style { fg: None, bg: None, bold: false }
}

fn texts(line: &Vec<Span>) -> Vec<&str> {
    line.iter().map(|s| s.text.as_str()).collect()
}

fn styles(line: &Vec<Span>) -> Vec<Style> {
    line.iter().map(|s| s.style).collect()
}

#[test]
fn screen_has_four_rows() {
    let rows = screen_rows(area(0, 0, 80, 24));
    assert_eq!(rows.header, area(0, 0, 80, 3));
    assert_eq!(rows.body, area(0, 3, 80, 14));
    assert_eq!(rows.player, area(0, 17, 80, 4));
    assert_eq!(rows.controls, area(0, 21, 80, 3));
}

#[test]
fn small_screens_have_rows_too() {
    for height in [0u16, 1, 5, 12] {
        let rows = screen_rows(area(2, 1, 7, height));
        for r in [rows.header, rows.body, rows.player, rows.controls] {
            assert_eq!((r.x, r.width), (2, 7));
            assert!(r.y >= 1 && r.y + r.height <= 1 + height);
        }
    }
}

#[test]
fn rows_are_taken_in_order() {
    let parts = vec![area(0, 0, 1, 1), area(0, 1, 1, 2), area(0, 3, 1, 3), area(0, 6, 1, 4)];
    let rows = rows_of(&parts);
    assert_eq!(rows.header, parts[0]);
    assert_eq!(rows.body, parts[1]);
    assert_eq!(rows.player, parts[2]);
    assert_eq!(rows.controls, parts[3]);
}

#[test]
fn zen_view_has_two_columns() {
    let (art, track) = zen_columns(area(0, 3, 100, 20));
    assert_eq!(art, area(0, 3, 45, 20));
    assert_eq!(track, area(45, 3, 55, 20));
}

#[test]
fn windows_are_centered() {
    assert_eq!(centered_rect(10, 4, area(0, 0, 20, 10)), area(5, 3, 10, 4));
    assert_eq!(popup_area(area(0, 0, 80, 25)), area(18, 9, 44, 7));
}

#[test]
fn scrollbar_is_inside_the_border() {
    assert_eq!(scrollbar_area(area(0, 3, 80, 14)), area(0, 4, 80, 12));
    assert_eq!(scrollbar_area(area(5, 3, 80, 2)), area(5, 4, 80, 0));
    assert_eq!(scrollbar_area(area(5, 3, 80, 1)), area(0, 0, 0, 0));
}

#[test]
fn times_have_minutes_and_seconds() {
    assert_eq!(format_time(double(0.0)), "00:00");
    assert_eq!(format_time(double(59.999)), "00:59");
    assert_eq!(format_time(double(60.0)), "01:00");
    assert_eq!(format_time(double(754.2)), "12:34");
    assert_eq!(format_time(double(360000.0)), "6000:00");
    assert_eq!(format_time(double(-5.0)), "00:00");
    assert_eq!(format_time(double(f64::NAN)), "00:00");
    assert_eq!(format_time(double(f64::INFINITY)), "307445734561825860:15");
}

#[test]
fn bars_are_filled() {
    assert_eq!(make_progress_bar(double(0.0), 10), "[────────]");
    assert_eq!(make_progress_bar(double(3.5), 10), "[━━━━────]");
    assert_eq!(make_progress_bar(double(3.49), 10), "[━━━─────]");
    assert_eq!(make_progress_bar(double(8.0), 10), "[━━━━━━━━]");
    assert_eq!(make_progress_bar(double(1e9), 10), "[━━━━━━━━]");
    assert_eq!(make_progress_bar(double(-1.0), 10), "[────────]");
    assert_eq!(make_progress_bar(double(f64::NAN), 4), "[──]");
    assert_eq!(make_progress_bar(double(1.0), 2), "[]");
    assert_eq!(make_progress_bar(double(1.0), 0), "[]");
}

#[test]
fn bars_are_as_wide_as_asked() {
    for width in 2..40 {
        assert_eq!(make_progress_bar(double(7.3), width).chars().count(), width);
        assert_eq!(bar_cells(width), width - 2);
    }
    assert_eq!(bar_cells(1), 0);
}

#[test]
fn bars_leave_room_for_the_times() {
    assert_eq!(zen_bar_width(100), 82);
    assert_eq!(zen_bar_width(28), 10);
    assert_eq!(zen_bar_width(29), 11);
    assert_eq!(zen_bar_width(0), 10);
    assert_eq!(player_bar_width(100), 80);
    assert_eq!(player_bar_width(31), 11);
    assert_eq!(player_bar_width(5), 10);
}

#[test]
fn header_tells_the_view_and_the_directory() {
    let mut app = player();
    let t = app.theme;
    let line = header_line(&app);
    assert_eq!(texts(&line), [" View: ", "[1: Files]", " | ", "/m"]);
    assert_eq!(styles(&line), [plain(t.title), strong(t.playing), unstyled(), plain(t.text)]);
    app.mode = ViewMode::Queue;
    assert_eq!(header_line(&app)[1].text, "[2: Queue]");
    app.mode = ViewMode::Zen;
    assert_eq!(header_line(&app)[1].text, "[3: Zen]");
}

#[test]
fn files_are_listed() {
    let mut app = player();
    let t = app.theme;
    app.play_outcome(&path("/m/2.mp3"), Ok(()));
    app.move_down();
    let list = file_list(&app);
    assert_eq!(list.title, " Directory Files (Press '/' to search | 'a' to queue) ");
    assert_eq!(texts(&list.items), ["  📁 b/", "     1.mp3", "  ▶  2.mp3"]);
    assert_eq!(styles(&list.items), [plain(t.dir), plain(t.text), strong(t.playing)]);
    assert_eq!(list.selected, Some(1));
    assert_eq!(list.scrollbar, Some((2, 1)));
    app.is_searching = true;
    app.search_query = "blue".to_string();
    assert_eq!(file_list(&app).title, " Directory Files (Search: blue_) [Esc: Cancel] ");
}

#[test]
fn directory_that_is_playing_is_bold() {
    let mut app = player();
    app.play_outcome(&path("/m/b"), Ok(()));
    let list = file_list(&app);
    assert_eq!(list.items[0].text, "  📁 b/");
    assert_eq!(list.items[0].style, strong(app.theme.playing));
}

#[test]
fn empty_lists_have_no_selection() {
    let app = App::new(path("/m"), Theme::default(), None);
    let files = file_list(&app);
    assert_eq!((files.selected, files.scrollbar), (None, None));
    let queue = queue_list(&app);
    assert_eq!((queue.selected, queue.scrollbar), (None, None));
    assert_eq!(queue.title, " Queue (0) [Shift+J/K: move | d: remove] ");
}

#[test]
fn queue_is_listed() {
    let mut app = player();
    app.queue = (0..10).map(|_| path("/m/1.mp3")).collect();
    app.queue[1] = path("/");
    app.queue[2] = path("/m/2.mp3");
    app.play_outcome(&path("/m/2.mp3"), Ok(()));
    app.selected_queue = 2;
    let list = queue_list(&app);
    assert_eq!(list.title, " Queue (10) [Shift+J/K: move | d: remove] ");
    assert_eq!(list.items[0].text, "  1.   1.mp3");
    assert_eq!(list.items[1].text, "  2.   /");
    assert_eq!(list.items[2].text, "  3. ▶ 2.mp3");
    assert_eq!(list.items[9].text, " 10.   1.mp3");
    assert_eq!(list.items[0].style, plain(app.theme.text));
    assert_eq!(list.items[2].style, strong(app.theme.playing));
    assert_eq!(list.selected, Some(2));
    assert_eq!(list.scrollbar, Some((9, 2)));
}

#[test]
fn zen_view_without_a_track() {
    let app = player();
    let lines = zen_lines(&app, &Progress { filled: double(0.0), width: 4 });
    let all: Vec<Vec<&str>> = lines.iter().map(texts).collect();
    assert_eq!(
        all,
        [
            vec![""],
            vec![" Track:  ", "No Track Playing"],
            vec![" Album:  ", "Unknown Album"],
            vec![" Status: ", "⏹ STOPPED", "   [Vol: 100%]"],
            vec![""],
            vec![" Timeline:"],
            vec![" 00:00 ", "[──]", " 00:00"],
        ]
    );
}

#[test]
fn zen_view_with_a_track() {
    let mut app = player();
    let t = app.theme;
    app.play_outcome(&path("/artist/album/song.mp3"), Ok(()));
    app.mpv.time_pos = double(61.0);
    app.mpv.duration = double(122.0);
    app.mpv.volume = double(49.5);
    let progress = Progress { filled: double(1.0), width: 4 };
    let lines = zen_lines(&app, &progress);
    assert_eq!(texts(&lines[1]), [" Track:  ", "song.mp3"]);
    assert_eq!(texts(&lines[2]), [" Album:  ", "album"]);
    assert_eq!(texts(&lines[3]), [" Status: ", "▶ PLAYING", "   [Vol: 50%]"]);
    assert_eq!(texts(&lines[6]), [" 01:01 ", "[━─]", " 02:02"]);
    assert_eq!(styles(&lines[1]), [plain(t.title), strong(t.playing)]);
    assert_eq!(styles(&lines[2]), [plain(t.title), plain(t.text)]);
    assert_eq!(styles(&lines[3]), [plain(t.title), strong(t.dir), plain(t.volume)]);
    assert_eq!(styles(&lines[5]), [plain(t.title)]);
    assert_eq!(styles(&lines[6]), [plain(t.text), plain(t.playing), plain(t.text)]);
    assert_eq!(styles(&lines[0]), [unstyled()]);
    app.mpv.paused = true;
    assert_eq!(zen_lines(&app, &progress)[3][1].text, "⏸ PAUSED");
}

#[test]
fn player_line_without_a_track() {
    let app = player();
    let lines = player_lines(&app, &Progress { filled: double(0.0), width: 10 });
    assert_eq!(lines.len(), 1);
    assert_eq!(texts(&lines[0]), [" No track selected"]);
}

#[test]
fn player_lines_with_a_track() {
    let mut app = player();
    let t = app.theme;
    app.play_outcome(&path("/m/song.mp3"), Ok(()));
    app.mpv.time_pos = double(5.0);
    app.mpv.duration = double(10.0);
    let lines = player_lines(&app, &Progress { filled: double(2.0), width: 6 });
    assert_eq!(texts(&lines[0]), [" ♪ song.mp3", "   [Vol: 100%]"]);
    assert_eq!(styles(&lines[0]), [strong(t.playing), plain(t.volume)]);
    assert_eq!(texts(&lines[1]), [" 00:05 [━━──] 00:10"]);
    assert_eq!(styles(&lines[1]), [unstyled()]);
    app.current = Some(path("/"));
    let lines = player_lines(&app, &Progress { filled: double(2.0), width: 6 });
    assert_eq!(lines[0][0].text, " ♪ Unknown");
}

#[test]
fn names_on_the_screen() {
    let mut app = player();
    assert_eq!(app.track_name("none"), "none");
    assert_eq!(app.folder_name(), "Unknown Album");
    app.mpv.volume = double(-0.5);
    assert_eq!(app.volume_text(), "   [Vol: -1%]");
    app.current = Some(path("/x/y.mp3"));
    assert_eq!(app.track_name("none"), "y.mp3");
    assert_eq!(app.folder_name(), "x");
}

#[test]
fn controls_tell_the_state_and_the_keys() {
    let mut app = player();
    let t = app.theme;
    let line = control_line(&app);
    assert_eq!(
        texts(&line),
        [
            "[STOPPED]  ", "[1/2/3]", " Views  |  ", "[/]", " Search  |  ", "[j/k]", " Nav  |  ", "[space]",
            " Toggle  |  ", "[←/→]", " Seek  |  ", "[Shift+←/→]", " Skip  |  ", "[q]", " Quit",
        ]
    );
    assert_eq!(line[0].style, plain(t.playing));
    for i in 1..15 {
        assert_eq!(line[i].style, if i % 2 == 1 { strong(t.title) } else { plain(t.text) });
    }
    app.play_outcome(&path("/m/1.mp3"), Ok(()));
    app.status = "hello".to_string();
    assert_eq!(control_line(&app)[0].text, "[PLAYING] | hello  ");
    app.mpv.paused = true;
    assert_eq!(control_line(&app)[0].text, "[PAUSED] | hello  ");
}

#[test]
fn question_has_two_answers() {
    let t = Theme::default();
    let lines = popup_lines(t);
    let all: Vec<Vec<&str>> = lines.iter().map(texts).collect();
    assert_eq!(
        all,
        [vec![""], vec!["Are you sure you want to quit?"], vec![""], vec![" [Y] Yes ", "    ", " [N] No "]]
    );
    assert_eq!(styles(&lines[1]), [strong(t.text)]);
    assert_eq!(styles(&lines[3]), [strong(t.playing), unstyled(), strong(t.title)]);
}

#[test]
fn each_view_has_its_parts() {
    let mut app = player();
    assert_eq!(parts_shown(&app), [Part::Header, Part::Files, Part::Player, Part::Controls]);
    app.mode = ViewMode::Queue;
    assert_eq!(parts_shown(&app), [Part::Header, Part::Queue, Part::Player, Part::Controls]);
    app.mode = ViewMode::Zen;
    app.show_quit_popup = true;
    assert_eq!(parts_shown(&app), [Part::Header, Part::Zen, Part::Controls, Part::Popup]);
}

#[test]
fn frames_have_titles() {
    let t = Theme::default();
    let title = |f: Frame| frame_title(f, t).text;
    assert_eq!(title(Frame::Header), " tuiplay ");
    assert_eq!(title(Frame::Artwork), " Artwork ");
    assert_eq!(title(Frame::Track), " Now Playing (Zen Mode) ");
    assert_eq!(title(Frame::Player), " Now Playing ");
    assert_eq!(title(Frame::Controls), " Controls ");
    assert_eq!(title(Frame::Popup), " Quit Confirmation ");
    assert_eq!(frame_title(Frame::Popup, t).style, plain(t.title));
    assert_eq!(border_style(t), plain(t.border));
    assert_eq!(highlight_style(t), Style { fg: Some(t.highlight_fg), bg: Some(t.highlight_bg), bold: true });
}

#[test]
fn texts_have_styles() {
    assert_eq!(raw_span("a").style, unstyled());
    assert_eq!(colored_span("a", Color::Reset).style, plain(Color::Reset));
    assert_eq!(bold_span("a", Color::Rgb(1, 2, 3)).style, strong(Color::Rgb(1, 2, 3)));
    assert_eq!(bold_span("aé", Color::Reset).text, "aé");
}

#[test]
fn record_is_drawn_without_artwork() {
    let t = Theme::default();
    let art = placeholder_art(t);
    assert_eq!(art.len(), 11);
    assert_eq!(art[5].text, " █  ████   ⊙   ████    █ ");
    assert!(art.iter().all(|s| s.style == plain(t.title)));
}

#[test]
fn drawing_gives_way_to_artwork() {
    let t = Theme::default();
    assert!(zen_art(true, t).is_none());
    assert_eq!(texts(&zen_art(false, t).unwrap()), texts(&placeholder_art(t)));
}

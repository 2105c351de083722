//! What the player shows: the texts on the screen and their styles.
use crate::app::{album_name, App};
use crate::double::{
    is_whole_number, nearest_count, nearest_integer, whole_number_is_not_rounded, whole_part, Double,
};
use crate::model::{album_of, AppModel, ViewMode};
use crate::path::{
    display_name, file_name, is_plain_name, joined, joined_path_is_in_the_directory, parent, same_path,
    same_paths_have_the_same_name, FilePath,
};
use crate::text::{
    decimal, decimal_value, lossy, lossy_text, padded, padded_decimal_reads_back, push_decimal,
    push_signed_decimal, push_two_digits, signed_decimal,
};
use crate::theme::{Color, Theme};
use vstd::prelude::*;
use vstd::string::*;

verus! {

/// The style of a text. Where no color is given it is what it was.
#[derive(Clone, Copy, PartialEq, Eq, Structural, Debug)]
pub struct Style {
    pub fg: Option<Color>,
    pub bg: Option<Color>,
    pub bold: bool,
}

/// A text in a style.
pub struct Span {
    pub text: String,
    pub style: Style,
}

/// A text in a style.
#[verifier::ext_equal]
pub struct SpanModel {
    pub text: Seq<char>,
    pub style: Style,
}

impl View for Span {
    type V = SpanModel;

    open spec fn view(&self) -> SpanModel {
        SpanModel { text: self.text@, style: self.style }
    }
}

/// What a line of texts stands for.
pub open spec fn line_model(s: Seq<Span>) -> Seq<SpanModel> {
    s.map_values(|p: Span| p@)
}

/// What lines of texts stand for.
pub open spec fn line_models(s: Seq<Vec<Span>>) -> Seq<Seq<SpanModel>> {
    s.map_values(|l: Vec<Span>| line_model(l@))
}

/// A text in no style.
pub open spec fn raw(text: Seq<char>) -> SpanModel {
    SpanModel { text, style: Style { fg: None, bg: None, bold: false } }
}

/// A text in a color.
pub open spec fn colored(text: Seq<char>, color: Color) -> SpanModel {
    SpanModel { text, style: Style { fg: Some(color), bg: None, bold: false } }
}

/// A bold text in a color.
pub open spec fn bold(text: Seq<char>, color: Color) -> SpanModel {
    SpanModel { text, style: Style { fg: Some(color), bg: None, bold: true } }
}

/// A text in no style.
pub fn raw_span(text: &str) -> (r: Span)
    ensures
        r@ == raw(text@),
{
    Span { text: text.to_owned(), style: Style { fg: None, bg: None, bold: false } }
}

/// A text in a color.
pub fn colored_span(text: &str, color: Color) -> (r: Span)
    ensures
        r@ == colored(text@, color),
{
    Span { text: text.to_owned(), style: Style { fg: Some(color), bg: None, bold: false } }
}

/// A bold text in a color.
pub fn bold_span(text: &str, color: Color) -> (r: Span)
    ensures
        r@ == bold(text@, color),
{
    Span { text: text.to_owned(), style: Style { fg: Some(color), bg: None, bold: true } }
}

/// Two texts, one behind the other.
fn joined_text(a: &str, b: &str) -> (r: String)
    ensures
        r@ == a@ + b@,
{
    let mut out: String = a.to_owned();
    out.append(b);
    out
}

// ---------------------------------------------------------------------------
// Times and bars
// ---------------------------------------------------------------------------

/// A number of seconds as minutes and seconds, each with at least two digits.
pub open spec fn time_text(total: u64) -> Seq<char> {
    padded(decimal(total as nat / 60), '0', 2) + seq![':'] + padded(decimal(total as nat % 60), '0', 2)
}

/// A time in seconds as minutes and seconds; what is negative counts as zero.
pub fn format_time(secs: Double) -> (r: String)
    ensures
        r@ == time_text(whole_part(secs)),
{
    let total: u64 = secs.whole_part();
    let mut out: String = String::new();
    push_two_digits(&mut out, total / 60, '0');
    out.push(':');
    push_two_digits(&mut out, total % 60, '0');
    assert(out@ =~= time_text(total));
    out
}

/// The number of cells of a bar between its brackets.
pub open spec fn bar_cells_of(width: int) -> int {
    if width < 2 {
        0
    } else {
        width - 2
    }
}

/// `n` times a character.
pub open spec fn repeated(c: char, n: nat) -> Seq<char> {
    Seq::new(n, |i: int| c)
}

/// A bar between brackets of which so many cells are filled.
pub open spec fn bar_text(filled: int, width: int) -> Seq<char> {
    let cells = bar_cells_of(width);
    let full = if filled > cells {
        cells
    } else {
        filled
    };
    seq!['['] + repeated('━', full as nat) + repeated('─', (cells - full) as nat) + seq![']']
}

/// The number of cells of a bar between its brackets.
pub fn bar_cells(width: usize) -> (r: usize)
    ensures
        r == bar_cells_of(width as int),
{
    if width < 2 {
        0
    } else {
        width - 2
    }
}

fn push_repeated(out: &mut String, c: char, n: usize)
    ensures
        final(out)@ == old(out)@ + repeated(c, n as nat),
{
    let mut i: usize = 0;
    assert(out@ =~= old(out)@ + repeated(c, 0));
    while i < n
        invariant
            i <= n,
            out@ == old(out)@ + repeated(c, i as nat),
        decreases n - i,
    {
        out.push(c);
        i = i + 1;
        assert(out@ =~= old(out)@ + repeated(c, i as nat));
    }
}

/// A bar between brackets of which so many cells are filled, rounded to whole ones.
pub fn make_progress_bar(filled: Double, width: usize) -> (r: String)
    ensures
        r@ == bar_text(nearest_count(filled) as int, width as int),
{
    let cells: usize = bar_cells(width);
    let count: u64 = filled.nearest_count();
    let full: usize = if count > cells as u64 {
        cells
    } else {
        count as usize
    };
    let mut out: String = String::new();
    out.push('[');
    push_repeated(&mut out, '━', full);
    push_repeated(&mut out, '─', cells - full);
    out.push(']');
    assert(out@ =~= bar_text(count as int, width as int));
    out
}

/// `n` less `by`, but at least ten.
pub open spec fn at_least_ten(n: int, by: int) -> int {
    if n - by < 10 {
        10
    } else {
        n - by
    }
}

/// The width of the bar in the zen view, in a column of a width.
pub fn zen_bar_width(column: u16) -> (r: usize)
    ensures
        r == at_least_ten(column as int, 18),
{
    if column < 28 {
        10
    } else {
        (column - 18) as usize
    }
}

/// The width of the bar below the list, in an area of a width.
pub fn player_bar_width(area: u16) -> (r: usize)
    ensures
        r == at_least_ten(area as int, 20),
{
    if area < 30 {
        10
    } else {
        (area - 20) as usize
    }
}

/// A bar is as wide as it should be, but has room for its brackets in any case.
pub proof fn bar_is_as_wide_as_asked(filled: nat, width: nat)
    ensures
        bar_text(filled as int, width as int).len() == (if width < 2 { 2nat } else { width }),
{
}

/// What is left of the colon of a time reads as its minutes, and what is right of it, two
/// digits, as the seconds of a minute that are left.
pub proof fn time_text_tells_the_time(total: u64)
    ensures
        ({
            let minutes = padded(decimal(total as nat / 60), '0', 2);
            let seconds = padded(decimal(total as nat % 60), '0', 2);
            &&& time_text(total) == minutes + seq![':'] + seconds
            &&& decimal_value(minutes) * 60 + decimal_value(seconds) == total
            &&& decimal_value(seconds) < 60
            &&& seconds.len() == 2
            &&& minutes.len() >= 2
        }),
{
    padded_decimal_reads_back(total as nat / 60);
    padded_decimal_reads_back(total as nat % 60);
}

// ---------------------------------------------------------------------------
// The header
// ---------------------------------------------------------------------------

/// The name of a view.
pub open spec fn mode_name(mode: ViewMode) -> Seq<char> {
    match mode {
        ViewMode::Files => "1: Files"@,
        ViewMode::Queue => "2: Queue"@,
        ViewMode::Zen => "3: Zen"@,
    }
}

/// The line at the top of the screen.
pub open spec fn header_spans(a: AppModel, t: Theme) -> Seq<SpanModel> {
    seq![
        colored(" View: "@, t.title),
        bold("["@ + mode_name(a.mode) + "]"@, t.playing),
        raw(" | "@),
        colored(lossy(a.current_dir), t.text),
    ]
}

/// The line at the top of the screen.
pub fn header_line(app: &App) -> (r: Vec<Span>)
    ensures
        line_model(r@) == header_spans(app@, app.theme),
{
    let name: &str = match app.mode {
        ViewMode::Files => "1: Files",
        ViewMode::Queue => "2: Queue",
        ViewMode::Zen => "3: Zen",
    };
    let open: String = joined_text("[", name);
    let mode: String = joined_text(open.as_str(), "]");
    let dir: String = app.current_dir.display();
    let mut out: Vec<Span> = Vec::new();
    out.push(colored_span(" View: ", app.theme.title));
    out.push(bold_span(mode.as_str(), app.theme.playing));
    out.push(raw_span(" | "));
    out.push(colored_span(dir.as_str(), app.theme.text));
    assert(line_model(out@) =~= header_spans(app@, app.theme));
    out
}

// ---------------------------------------------------------------------------
// Lists
// ---------------------------------------------------------------------------

/// A list of texts with one selected.
pub struct ListView {
    pub title: String,
    pub items: Vec<Span>,
    pub selected: Option<usize>,
    /// The greatest position of the scrollbar and its position, where there is one.
    pub scrollbar: Option<(usize, usize)>,
}

/// A list of texts with one selected.
#[verifier::ext_equal]
pub struct ListModel {
    pub title: Seq<char>,
    pub items: Seq<SpanModel>,
    pub selected: Option<int>,
    pub scrollbar: Option<(int, int)>,
}

impl View for ListView {
    type V = ListModel;

    open spec fn view(&self) -> ListModel {
        ListModel {
            title: self.title@,
            items: line_model(self.items@),
            selected: match self.selected {
                Some(i) => Some(i as int),
                None => None,
            },
            scrollbar: match self.scrollbar {
                Some((n, i)) => Some((n as int, i as int)),
                None => None,
            },
        }
    }
}

/// A list with a selection. An empty one has none, and no scrollbar.
pub open spec fn list_model(title: Seq<char>, items: Seq<SpanModel>, selected: int) -> ListModel {
    if items.len() == 0 {
        ListModel { title, items, selected: None, scrollbar: None }
    } else {
        ListModel { title, items, selected: Some(selected), scrollbar: Some((items.len() - 1, selected)) }
    }
}

fn list_view(title: String, items: Vec<Span>, selected: usize) -> (r: ListView)
    ensures
        r@ == list_model(title@, line_model(items@), selected as int),
{
    let n: usize = items.len();
    if n == 0 {
        ListView { title, items, selected: None, scrollbar: None }
    } else {
        ListView { title, items, selected: Some(selected), scrollbar: Some((n - 1, selected)) }
    }
}

impl AppModel {
    /// Whether a path is that of the track that is playing.
    pub open spec fn plays(self, path: Seq<u8>) -> bool {
        self.current matches Some(c) && same_path(c, path)
    }

    /// The text of an entry in the list of files.
    pub open spec fn file_span(self, t: Theme, i: int) -> SpanModel {
        let e = self.entries[i];
        let name = display_name(e.path);
        let text = if e.is_dir {
            "  📁 "@ + name + "/"@
        } else if self.plays(e.path) {
            "  ▶  "@ + name
        } else {
            "     "@ + name
        };
        if self.plays(e.path) {
            bold(text, t.playing)
        } else if e.is_dir {
            colored(text, t.dir)
        } else {
            colored(text, t.text)
        }
    }

    /// The title of the list of files.
    pub open spec fn files_title(self) -> Seq<char> {
        if self.is_searching {
            " Directory Files (Search: "@ + self.search_query + "_) [Esc: Cancel] "@
        } else {
            " Directory Files (Press '/' to search | 'a' to queue) "@
        }
    }

    /// The list of files.
    pub open spec fn files_list(self, t: Theme) -> ListModel {
        list_model(
            self.files_title(),
            Seq::new(self.entries.len(), |i: int| self.file_span(t, i)),
            self.selected_file,
        )
    }

    /// The text of a track in the list of the queue.
    pub open spec fn queue_span(self, t: Theme, i: int) -> SpanModel {
        let path = self.queue[i];
        let number = " "@ + padded(decimal((i + 1) as nat), ' ', 2);
        if self.plays(path) {
            bold(number + ". ▶ "@ + display_name(path), t.playing)
        } else {
            colored(number + ".   "@ + display_name(path), t.text)
        }
    }

    /// The title of the list of the queue.
    pub open spec fn queue_title(self) -> Seq<char> {
        " Queue ("@ + decimal(self.queue.len()) + ") [Shift+J/K: move | d: remove] "@
    }

    /// The list of the queue.
    pub open spec fn queue_list(self, t: Theme) -> ListModel {
        list_model(
            self.queue_title(),
            Seq::new(self.queue.len(), |i: int| self.queue_span(t, i)),
            self.selected_queue,
        )
    }
}

impl App {
    /// Whether a path is that of the track that is playing.
    fn plays(&self, path: &FilePath) -> (r: bool)
        ensures
            r == self@.plays(path@),
    {
        match &self.current {
            Some(c) => c.same(path),
            None => false,
        }
    }
}

/// The list of files.
pub fn file_list(app: &App) -> (r: ListView)
    ensures
        r@ == app@.files_list(app.theme),
{
    let ghost want = Seq::new(app@.entries.len(), |i: int| app@.file_span(app.theme, i));
    let mut items: Vec<Span> = Vec::new();
    let mut i: usize = 0;
    while i < app.entries.len()
        invariant
            want == Seq::new(app@.entries.len(), |i: int| app@.file_span(app.theme, i)),
            i <= app.entries@.len(),
            items@.len() == i,
            forall|k: int| 0 <= k < i ==> (#[trigger] items@[k])@ == want[k],
        decreases app.entries@.len() - i,
    {
        assert(app@.entries[i as int] == app.entries@[i as int]@);
        let playing: bool = app.plays(&app.entries[i].path);
        let name: String = app.entries[i].name();
        let text: String = if app.entries[i].is_dir {
            let open: String = joined_text("  📁 ", name.as_str());
            joined_text(open.as_str(), "/")
        } else if playing {
            joined_text("  ▶  ", name.as_str())
        } else {
            joined_text("     ", name.as_str())
        };
        let span: Span = if playing {
            bold_span(text.as_str(), app.theme.playing)
        } else if app.entries[i].is_dir {
            colored_span(text.as_str(), app.theme.dir)
        } else {
            colored_span(text.as_str(), app.theme.text)
        };
        items.push(span);
        i = i + 1;
    }
    assert(line_model(items@) =~= want);
    let title: String = if app.is_searching {
        let open: String = joined_text(" Directory Files (Search: ", app.search_query.as_str());
        joined_text(open.as_str(), "_) [Esc: Cancel] ")
    } else {
        " Directory Files (Press '/' to search | 'a' to queue) ".to_owned()
    };
    list_view(title, items, app.selected_file)
}

/// The list of the queue.
pub fn queue_list(app: &App) -> (r: ListView)
    ensures
        r@ == app@.queue_list(app.theme),
{
    let ghost want = Seq::new(app@.queue.len(), |i: int| app@.queue_span(app.theme, i));
    let mut items: Vec<Span> = Vec::new();
    let n: usize = app.queue.len();
    let mut i: usize = 0;
    while i < n
        invariant
            want == Seq::new(app@.queue.len(), |i: int| app@.queue_span(app.theme, i)),
            n == app.queue@.len(),
            i <= n,
            items@.len() == i,
            forall|k: int| 0 <= k < i ==> (#[trigger] items@[k])@ == want[k],
        decreases n - i,
    {
        assert(app@.queue[i as int] == app.queue@[i as int]@);
        let playing: bool = app.plays(&app.queue[i]);
        let name: String = app.queue[i].display_name();
        let mut text: String = " ".to_owned();
        push_two_digits(&mut text, (i + 1) as u64, ' ');
        if playing {
            text.append(". ▶ ");
        } else {
            text.append(".   ");
        }
        text.append(name.as_str());
        let span: Span = if playing {
            bold_span(text.as_str(), app.theme.playing)
        } else {
            colored_span(text.as_str(), app.theme.text)
        };
        items.push(span);
        i = i + 1;
    }
    assert(line_model(items@) =~= want);
    let mut title: String = " Queue (".to_owned();
    push_decimal(&mut title, n as u64);
    title.append(") [Shift+J/K: move | d: remove] ");
    list_view(title, items, app.selected_queue)
}

// ---------------------------------------------------------------------------
// The track that is playing
// ---------------------------------------------------------------------------

/// How much of a track has been played, as a bar shows it.
pub struct Progress {
    /// The share of the bar's cells that is filled, in cells.
    pub filled: Double,
    /// The width of the bar, brackets included.
    pub width: usize,
}

impl Progress {
    /// The bar.
    pub open spec fn text(self) -> Seq<char> {
        bar_text(nearest_count(self.filled) as int, self.width as int)
    }
}

impl AppModel {
    /// The file name of the track that is playing, or else another text.
    pub open spec fn track_name(self, other: Seq<char>) -> Seq<char> {
        match self.current {
            Some(path) => match file_name(path) {
                Some(name) => lossy(name),
                None => other,
            },
            None => other,
        }
    }

    /// The name of the directory of the track that is playing.
    pub open spec fn folder_name(self) -> Seq<char> {
        match self.current {
            Some(path) => match album_of(path) {
                Some(name) => name,
                None => "Unknown Album"@,
            },
            None => "Unknown Album"@,
        }
    }

    /// The volume, in percent.
    pub open spec fn volume_text(self) -> Seq<char> {
        "   [Vol: "@ + signed_decimal(nearest_integer(self.mpv.volume) as int) + "%]"@
    }

    /// Whether the track is playing, for the zen view.
    pub open spec fn zen_state(self) -> Seq<char> {
        if self.current is None {
            "⏹ STOPPED"@
        } else if self.mpv.paused {
            "⏸ PAUSED"@
        } else {
            "▶ PLAYING"@
        }
    }

    /// Whether the track is playing, for the bar of controls.
    pub open spec fn control_state(self) -> Seq<char> {
        if self.current is None {
            "STOPPED"@
        } else if self.mpv.paused {
            "PAUSED"@
        } else {
            "PLAYING"@
        }
    }

    /// The lines of the zen view beside the artwork.
    pub open spec fn zen_lines(self, t: Theme, p: Progress) -> Seq<Seq<SpanModel>> {
        seq![
            seq![raw(""@)],
            seq![
                colored(" Track:  "@, t.title),
                bold(self.track_name("No Track Playing"@), t.playing),
            ],
            seq![colored(" Album:  "@, t.title), colored(self.folder_name(), t.text)],
            seq![
                colored(" Status: "@, t.title),
                bold(self.zen_state(), t.dir),
                colored(self.volume_text(), t.volume),
            ],
            seq![raw(""@)],
            seq![colored(" Timeline:"@, t.title)],
            seq![
                colored(" "@ + time_text(whole_part(self.mpv.time_pos)) + " "@, t.text),
                colored(p.text(), t.playing),
                colored(" "@ + time_text(whole_part(self.mpv.duration)), t.text),
            ],
        ]
    }

    /// The lines below the list.
    pub open spec fn player_lines(self, t: Theme, p: Progress) -> Seq<Seq<SpanModel>> {
        if self.current is None {
            seq![seq![raw(" No track selected"@)]]
        } else {
            seq![
                seq![
                    bold(" ♪ "@ + self.track_name("Unknown"@), t.playing),
                    colored(self.volume_text(), t.volume),
                ],
                seq![
                    raw(
                        " "@ + time_text(whole_part(self.mpv.time_pos)) + " "@ + p.text() + " "@
                            + time_text(whole_part(self.mpv.duration)),
                    ),
                ],
            ]
        }
    }

    /// The line at the bottom of the screen.
    pub open spec fn control_spans(self, t: Theme) -> Seq<SpanModel> {
        let note = if self.status.len() == 0 {
            Seq::empty()
        } else {
            " | "@ + self.status
        };
        seq![
            colored("["@ + self.control_state() + "]"@ + note + "  "@, t.playing),
            bold("[1/2/3]"@, t.title),
            colored(" Views  |  "@, t.text),
            bold("[/]"@, t.title),
            colored(" Search  |  "@, t.text),
            bold("[j/k]"@, t.title),
            colored(" Nav  |  "@, t.text),
            bold("[space]"@, t.title),
            colored(" Toggle  |  "@, t.text),
            bold("[←/→]"@, t.title),
            colored(" Seek  |  "@, t.text),
            bold("[Shift+←/→]"@, t.title),
            colored(" Skip  |  "@, t.text),
            bold("[q]"@, t.title),
            colored(" Quit"@, t.text),
        ]
    }
}

impl App {
    /// The file name of the track that is playing, or else another text.
    pub fn track_name(&self, other: &str) -> (r: String)
        ensures
            r@ == self@.track_name(other@),
    {
        match &self.current {
            Some(path) => match path.file_name() {
                Some(name) => lossy_text(name.as_slice()),
                None => other.to_owned(),
            },
            None => other.to_owned(),
        }
    }

    /// The name of the directory of the track that is playing.
    pub fn folder_name(&self) -> (r: String)
        ensures
            r@ == self@.folder_name(),
    {
        match &self.current {
            Some(path) => match album_name(path) {
                Some(name) => name,
                None => "Unknown Album".to_owned(),
            },
            None => "Unknown Album".to_owned(),
        }
    }

    /// The volume, in percent.
    pub fn volume_text(&self) -> (r: String)
        ensures
            r@ == self@.volume_text(),
    {
        let mut out: String = "   [Vol: ".to_owned();
        push_signed_decimal(&mut out, self.mpv.volume.nearest_integer() as i64);
        out.append("%]");
        out
    }
}

/// The lines of the zen view beside the artwork.
pub fn zen_lines(app: &App, p: &Progress) -> (r: Vec<Vec<Span>>)
    ensures
        line_models(r@) == app@.zen_lines(app.theme, *p),
{
    let t: Theme = app.theme;
    let ghost want = app@.zen_lines(t, *p);

    let mut first: Vec<Span> = Vec::new();
    first.push(raw_span(""));
    assert(line_model(first@) =~= want[0]);

    let mut track: Vec<Span> = Vec::new();
    track.push(colored_span(" Track:  ", t.title));
    let name: String = app.track_name("No Track Playing");
    track.push(bold_span(name.as_str(), t.playing));
    assert(line_model(track@) =~= want[1]);

    let mut album: Vec<Span> = Vec::new();
    album.push(colored_span(" Album:  ", t.title));
    let folder: String = app.folder_name();
    album.push(colored_span(folder.as_str(), t.text));
    assert(line_model(album@) =~= want[2]);

    let mut status: Vec<Span> = Vec::new();
    status.push(colored_span(" Status: ", t.title));
    let state: &str = if app.current.is_none() {
        "⏹ STOPPED"
    } else if app.mpv.paused {
        "⏸ PAUSED"
    } else {
        "▶ PLAYING"
    };
    status.push(bold_span(state, t.dir));
    let volume: String = app.volume_text();
    status.push(colored_span(volume.as_str(), t.volume));
    assert(line_model(status@) =~= want[3]);

    let mut blank: Vec<Span> = Vec::new();
    blank.push(raw_span(""));
    assert(line_model(blank@) =~= want[4]);

    let mut label: Vec<Span> = Vec::new();
    label.push(colored_span(" Timeline:", t.title));
    assert(line_model(label@) =~= want[5]);

    let mut line: Vec<Span> = Vec::new();
    let position: String = format_time(app.mpv.time_pos);
    let before: String = joined_text(" ", position.as_str());
    let spaced: String = joined_text(before.as_str(), " ");
    line.push(colored_span(spaced.as_str(), t.text));
    let bar: String = make_progress_bar(p.filled, p.width);
    line.push(colored_span(bar.as_str(), t.playing));
    let duration: String = format_time(app.mpv.duration);
    let after: String = joined_text(" ", duration.as_str());
    line.push(colored_span(after.as_str(), t.text));
    assert(line_model(line@) =~= want[6]);

    let mut out: Vec<Vec<Span>> = Vec::new();
    out.push(first);
    out.push(track);
    out.push(album);
    out.push(status);
    out.push(blank);
    out.push(label);
    out.push(line);
    assert(line_models(out@) =~= want);
    out
}

/// The lines below the list.
pub fn player_lines(app: &App, p: &Progress) -> (r: Vec<Vec<Span>>)
    ensures
        line_models(r@) == app@.player_lines(app.theme, *p),
{
    let t: Theme = app.theme;
    let ghost want = app@.player_lines(t, *p);
    let mut out: Vec<Vec<Span>> = Vec::new();
    if app.current.is_none() {
        let mut line: Vec<Span> = Vec::new();
        line.push(raw_span(" No track selected"));
        assert(line_model(line@) =~= want[0]);
        out.push(line);
        assert(line_models(out@) =~= want);
        return out;
    }
    let mut first: Vec<Span> = Vec::new();
    let name: String = app.track_name("Unknown");
    let note: String = joined_text(" ♪ ", name.as_str());
    first.push(bold_span(note.as_str(), t.playing));
    let volume: String = app.volume_text();
    first.push(colored_span(volume.as_str(), t.volume));
    assert(line_model(first@) =~= want[0]);

    let mut second: Vec<Span> = Vec::new();
    let position: String = format_time(app.mpv.time_pos);
    let bar: String = make_progress_bar(p.filled, p.width);
    let duration: String = format_time(app.mpv.duration);
    let mut text: String = joined_text(" ", position.as_str());
    text.append(" ");
    text.append(bar.as_str());
    text.append(" ");
    text.append(duration.as_str());
    second.push(raw_span(text.as_str()));
    assert(line_model(second@) =~= want[1]);

    out.push(first);
    out.push(second);
    assert(line_models(out@) =~= want);
    out
}

/// The line at the bottom of the screen.
pub fn control_line(app: &App) -> (r: Vec<Span>)
    ensures
        line_model(r@) == app@.control_spans(app.theme),
{
    let t: Theme = app.theme;
    let state: &str = if app.current.is_none() {
        "STOPPED"
    } else if app.mpv.paused {
        "PAUSED"
    } else {
        "PLAYING"
    };
    let note: String = if app.status.as_str().is_empty() {
        String::new()
    } else {
        joined_text(" | ", app.status.as_str())
    };
    let mut text: String = joined_text("[", state);
    text.append("]");
    text.append(note.as_str());
    text.append("  ");
    let mut out: Vec<Span> = Vec::new();
    out.push(colored_span(text.as_str(), t.playing));
    out.push(bold_span("[1/2/3]", t.title));
    out.push(colored_span(" Views  |  ", t.text));
    out.push(bold_span("[/]", t.title));
    out.push(colored_span(" Search  |  ", t.text));
    out.push(bold_span("[j/k]", t.title));
    out.push(colored_span(" Nav  |  ", t.text));
    out.push(bold_span("[space]", t.title));
    out.push(colored_span(" Toggle  |  ", t.text));
    out.push(bold_span("[←/→]", t.title));
    out.push(colored_span(" Seek  |  ", t.text));
    out.push(bold_span("[Shift+←/→]", t.title));
    out.push(colored_span(" Skip  |  ", t.text));
    out.push(bold_span("[q]", t.title));
    out.push(colored_span(" Quit", t.text));
    assert(line_model(out@) =~= app@.control_spans(t));
    out
}

// ---------------------------------------------------------------------------
// The window that asks whether to quit
// ---------------------------------------------------------------------------

/// The lines of the window that asks whether to quit.
pub open spec fn popup_spans(t: Theme) -> Seq<Seq<SpanModel>> {
    seq![
        seq![raw(""@)],
        seq![bold("Are you sure you want to quit?"@, t.text)],
        seq![raw(""@)],
        seq![bold(" [Y] Yes "@, t.playing), raw("    "@), bold(" [N] No "@, t.title)],
    ]
}

/// The lines of the window that asks whether to quit.
pub fn popup_lines(t: Theme) -> (r: Vec<Vec<Span>>)
    ensures
        line_models(r@) == popup_spans(t),
{
    let ghost want = popup_spans(t);
    let mut first: Vec<Span> = Vec::new();
    first.push(raw_span(""));
    assert(line_model(first@) =~= want[0]);
    let mut second: Vec<Span> = Vec::new();
    second.push(bold_span("Are you sure you want to quit?", t.text));
    assert(line_model(second@) =~= want[1]);
    let mut third: Vec<Span> = Vec::new();
    third.push(raw_span(""));
    assert(line_model(third@) =~= want[2]);
    let mut fourth: Vec<Span> = Vec::new();
    fourth.push(bold_span(" [Y] Yes ", t.playing));
    fourth.push(raw_span("    "));
    fourth.push(bold_span(" [N] No ", t.title));
    assert(line_model(fourth@) =~= want[3]);
    let mut out: Vec<Vec<Span>> = Vec::new();
    out.push(first);
    out.push(second);
    out.push(third);
    out.push(fourth);
    assert(line_models(out@) =~= want);
    out
}

// ---------------------------------------------------------------------------
// The parts of the screen
// ---------------------------------------------------------------------------

/// A part of the screen.
#[derive(Clone, Copy, PartialEq, Eq, Structural, Debug)]
pub enum Part {
    Header,
    Files,
    Queue,
    Zen,
    Player,
    Controls,
    Popup,
}

impl AppModel {
    /// The parts of the screen that are shown, in the order in which they are drawn.
    pub open spec fn parts(self) -> Seq<Part> {
        let body = match self.mode {
            ViewMode::Files => seq![Part::Files, Part::Player],
            ViewMode::Queue => seq![Part::Queue, Part::Player],
            ViewMode::Zen => seq![Part::Zen],
        };
        let popup = if self.show_quit_popup {
            seq![Part::Popup]
        } else {
            Seq::empty()
        };
        seq![Part::Header] + body + seq![Part::Controls] + popup
    }
}

/// The parts of the screen that are shown, in the order in which they are drawn.
pub fn parts_shown(app: &App) -> (r: Vec<Part>)
    ensures
        r@ == app@.parts(),
{
    let mut out: Vec<Part> = Vec::new();
    out.push(Part::Header);
    match app.mode {
        ViewMode::Files => {
            out.push(Part::Files);
            out.push(Part::Player);
        },
        ViewMode::Queue => {
            out.push(Part::Queue);
            out.push(Part::Player);
        },
        ViewMode::Zen => {
            out.push(Part::Zen);
        },
    }
    out.push(Part::Controls);
    if app.show_quit_popup {
        out.push(Part::Popup);
    }
    assert(out@ =~= app@.parts());
    out
}

/// A frame on the screen whose title is always the same.
#[derive(Clone, Copy, PartialEq, Eq, Structural, Debug)]
pub enum Frame {
    Header,
    Artwork,
    Track,
    Player,
    Controls,
    Popup,
}

/// The title of a frame.
pub open spec fn title_text(frame: Frame) -> Seq<char> {
    match frame {
        Frame::Header => " tuiplay "@,
        Frame::Artwork => " Artwork "@,
        Frame::Track => " Now Playing (Zen Mode) "@,
        Frame::Player => " Now Playing "@,
        Frame::Controls => " Controls "@,
        Frame::Popup => " Quit Confirmation "@,
    }
}

/// The title of a frame.
pub fn frame_title(frame: Frame, t: Theme) -> (r: Span)
    ensures
        r@ == colored(title_text(frame), t.title),
{
    let text: &str = match frame {
        Frame::Header => " tuiplay ",
        Frame::Artwork => " Artwork ",
        Frame::Track => " Now Playing (Zen Mode) ",
        Frame::Player => " Now Playing ",
        Frame::Controls => " Controls ",
        Frame::Popup => " Quit Confirmation ",
    };
    colored_span(text, t.title)
}

/// The style of frames and scrollbars.
pub fn border_style(t: Theme) -> (r: Style)
    ensures
        r == (Style { fg: Some(t.border), bg: None, bold: false }),
{
    Style { fg: Some(t.border), bg: None, bold: false }
}

/// The style of what is selected in a list.
pub fn highlight_style(t: Theme) -> (r: Style)
    ensures
        r == (Style { fg: Some(t.highlight_fg), bg: Some(t.highlight_bg), bold: true }),
{
    Style { fg: Some(t.highlight_fg), bg: Some(t.highlight_bg), bold: true }
}

/// The drawing that is shown where a track has no artwork.
pub open spec fn record_drawing() -> Seq<Seq<char>> {
    seq![
        "  ▄▄▄▄▄▄▄▄▄▄▄▄▄▄▄▄▄▄▄  "@,
        " █                     █ "@,
        " █     ▄▄▄███▄▄▄       █ "@,
        " █   ▄███████████▄     █ "@,
        " █  █████▀▀ ▀▀█████    █ "@,
        " █  ████   ⊙   ████    █ "@,
        " █  █████▄▄ ▄▄█████    █ "@,
        " █   ▀███████████▀     █ "@,
        " █     ▀▀▀███▀▀▀       █ "@,
        " █                     █ "@,
        "  ▀▀▀▀▀▀▀▀▀▀▀▀▀▀▀▀▀▀▀  "@,
    ]
}

/// The drawing that is shown where a track has no artwork.
pub fn placeholder_art(t: Theme) -> (r: Vec<Span>)
    ensures
        line_model(r@) == record_drawing().map_values(|text: Seq<char>| colored(text, t.title)),
{
    let mut out: Vec<Span> = Vec::new();
    out.push(colored_span("  ▄▄▄▄▄▄▄▄▄▄▄▄▄▄▄▄▄▄▄  ", t.title));
    out.push(colored_span(" █                     █ ", t.title));
    out.push(colored_span(" █     ▄▄▄███▄▄▄       █ ", t.title));
    out.push(colored_span(" █   ▄███████████▄     █ ", t.title));
    out.push(colored_span(" █  █████▀▀ ▀▀█████    █ ", t.title));
    out.push(colored_span(" █  ████   ⊙   ████    █ ", t.title));
    out.push(colored_span(" █  █████▄▄ ▄▄█████    █ ", t.title));
    out.push(colored_span(" █   ▀███████████▀     █ ", t.title));
    out.push(colored_span(" █     ▀▀▀███▀▀▀       █ ", t.title));
    out.push(colored_span(" █                     █ ", t.title));
    out.push(colored_span("  ▀▀▀▀▀▀▀▀▀▀▀▀▀▀▀▀▀▀▀  ", t.title));
    assert(line_model(out@) =~= record_drawing().map_values(
        |text: Seq<char>| colored(text, t.title),
    ));
    out
}

/// The drawing for the zen view, where no artwork is shown.
pub fn zen_art(artwork: bool, t: Theme) -> (r: Option<Vec<Span>>)
    ensures
        r is Some <==> !artwork,
        r matches Some(drawing) ==> line_model(drawing@) == record_drawing().map_values(
            |text: Seq<char>| colored(text, t.title),
        ),
{
    if artwork {
        None
    } else {
        Some(placeholder_art(t))
    }
}

/// The selection of a list that is shown is one of its items, and its scrollbar stands there.
pub proof fn selection_is_in_the_list(a: AppModel, t: Theme)
    requires
        a.wf(),
    ensures
        a.files_list(t).items.len() == a.entries.len(),
        a.queue_list(t).items.len() == a.queue.len(),
        a.entries.len() > 0 ==> a.files_list(t).selected == Some(a.selected_file) && a.selected_file
            < a.files_list(t).items.len(),
        a.queue.len() > 0 ==> a.queue_list(t).selected == Some(a.selected_queue) && a.selected_queue
            < a.queue_list(t).items.len(),
{
}

/// The window that asks whether to quit is drawn over all other parts.
pub proof fn question_is_on_top(a: AppModel)
    ensures
        a.show_quit_popup ==> a.parts().last() == Part::Popup,
        !a.show_quit_popup ==> !a.parts().contains(Part::Popup),
{
}

// ---------------------------------------------------------------------------
// What is told by what is shown
// ---------------------------------------------------------------------------

/// The line at the top tells the view by its number and name, and the whole path of the directory.
pub proof fn header_tells_the_view(a: AppModel, t: Theme)
    ensures
        ({
            let line = header_spans(a, t);
            &&& line.len() == 4
            &&& line[0] == colored(" View: "@, t.title)
            &&& a.mode == ViewMode::Files ==> line[1] == bold("["@ + "1: Files"@ + "]"@, t.playing)
            &&& a.mode == ViewMode::Queue ==> line[1] == bold("["@ + "2: Queue"@ + "]"@, t.playing)
            &&& a.mode == ViewMode::Zen ==> line[1] == bold("["@ + "3: Zen"@ + "]"@, t.playing)
            &&& line[2] == raw(" | "@)
            &&& line[3] == colored(lossy(a.current_dir), t.text)
        }),
{
}

/// In the list of files each entry stands in its place under its name. A directory is marked as
/// one; the track that is playing, by whatever spelling of its path, is marked and stands out.
pub proof fn each_file_is_listed_by_its_name(a: AppModel, t: Theme, i: int)
    requires
        0 <= i < a.entries.len(),
    ensures
        ({
            let e = a.entries[i];
            let item = a.files_list(t).items[i];
            let plays = a.current is Some && same_path(a.current->0, e.path);
            &&& e.is_dir ==> item.text == "  📁 "@ + display_name(e.path) + "/"@
            &&& !e.is_dir && plays ==> item.text == "  ▶  "@ + display_name(e.path)
            &&& !e.is_dir && !plays ==> item.text == "     "@ + display_name(e.path)
            &&& plays ==> item.style == Style { fg: Some(t.playing), bg: None, bold: true }
            &&& !plays && e.is_dir ==> item.style == Style { fg: Some(t.dir), bg: None, bold: false }
            &&& !plays && !e.is_dir ==> item.style == Style { fg: Some(t.text), bg: None, bold: false }
        }),
{
}

/// In the list of the queue each track stands in its place under its number, counted from one, and
/// its name; the track that is playing is marked and stands out.
pub proof fn each_track_is_listed_by_its_number(a: AppModel, t: Theme, i: int)
    requires
        0 <= i < a.queue.len(),
    ensures
        ({
            let path = a.queue[i];
            let item = a.queue_list(t).items[i];
            let plays = a.current is Some && same_path(a.current->0, path);
            let number = " "@ + padded(decimal((i + 1) as nat), ' ', 2);
            &&& plays ==> item.text == number + ". ▶ "@ + display_name(path)
            &&& !plays ==> item.text == number + ".   "@ + display_name(path)
            &&& plays ==> item.style == Style { fg: Some(t.playing), bg: None, bold: true }
            &&& !plays ==> item.style == Style { fg: Some(t.text), bg: None, bold: false }
            &&& decimal_value(decimal((i + 1) as nat)) == i + 1
        }),
{
    crate::text::decimal_reads_back((i + 1) as nat);
}

/// The titles of the lists tell the text of a search while it is typed, and the length of the
/// queue.
pub proof fn titles_tell_the_search_and_the_length(a: AppModel, t: Theme)
    ensures
        a.is_searching ==> a.files_list(t).title == " Directory Files (Search: "@ + a.search_query
            + "_) [Esc: Cancel] "@,
        !a.is_searching ==> a.files_list(t).title
            == " Directory Files (Press '/' to search | 'a' to queue) "@,
        a.queue_list(t).title == " Queue ("@ + decimal(a.queue.len()) + ") [Shift+J/K: move | d: remove] "@,
        decimal_value(decimal(a.queue.len())) == a.queue.len(),
        a.entries.len() == 0 ==> a.files_list(t).selected is None && a.files_list(t).scrollbar is None,
        a.queue.len() == 0 ==> a.queue_list(t).selected is None && a.queue_list(t).scrollbar is None,
        a.entries.len() > 0 ==> a.files_list(t).scrollbar == Some((a.entries.len() - 1, a.selected_file)),
        a.queue.len() > 0 ==> a.queue_list(t).scrollbar == Some((a.queue.len() - 1, a.selected_queue)),
{
    crate::text::decimal_reads_back(a.queue.len());
}

/// The track that is playing is told by its file name, and its directory by its own, of a file in a
/// directory in another.
pub proof fn track_is_told_by_its_names(a: AppModel, dir: Seq<u8>, album: Seq<u8>, name: Seq<u8>, other: Seq<char>)
    requires
        is_plain_name(album),
        is_plain_name(name),
        a.current == Some(joined(joined(dir, album), name)),
    ensures
        a.track_name(other) == lossy(name),
        a.folder_name() == lossy(album),
{
    joined_path_is_in_the_directory(dir, album);
    joined_path_is_in_the_directory(joined(dir, album), name);
    same_paths_have_the_same_name(parent(a.current->0)->0, joined(dir, album));
}

/// Without a track, and with one that has no name, other texts stand in.
pub proof fn other_texts_stand_in(a: AppModel, other: Seq<char>)
    ensures
        a.current is None ==> a.track_name(other) == other && a.folder_name() == "Unknown Album"@,
        a.current matches Some(path) ==> file_name(path) is None ==> a.track_name(other) == other,
{
}

/// A volume of a whole number of percent is told as that number.
pub proof fn volume_is_told_in_percent(a: AppModel, percent: int)
    requires
        0 <= percent <= 1000,
        is_whole_number(a.mpv.volume, percent),
    ensures
        a.volume_text() == "   [Vol: "@ + decimal(percent as nat) + "%]"@,
        decimal_value(decimal(percent as nat)) == percent,
{
    whole_number_is_not_rounded(a.mpv.volume, percent);
    crate::text::decimal_reads_back(percent as nat);
}

/// The state of the playback is told alike in both places: stopped without a track, and else paused
/// or playing as the engine said last.
pub proof fn state_of_the_playback_is_told(a: AppModel)
    ensures
        a.current is None ==> a.zen_state() == "⏹ STOPPED"@ && a.control_state() == "STOPPED"@,
        a.current is Some && a.mpv.paused ==> a.zen_state() == "⏸ PAUSED"@ && a.control_state() == "PAUSED"@,
        a.current is Some && !a.mpv.paused ==> a.zen_state() == "▶ PLAYING"@ && a.control_state()
            == "PLAYING"@,
{
}

/// The zen view tells the track, its directory, the state, the volume, the position and the length.
pub proof fn zen_view_tells_all_of_the_track(a: AppModel, t: Theme, p: Progress)
    ensures
        ({
            let lines = a.zen_lines(t, p);
            &&& lines.len() == 7
            &&& lines[1] == seq![
                colored(" Track:  "@, t.title),
                bold(a.track_name("No Track Playing"@), t.playing),
            ]
            &&& lines[2] == seq![colored(" Album:  "@, t.title), colored(a.folder_name(), t.text)]
            &&& lines[3] == seq![
                colored(" Status: "@, t.title),
                bold(a.zen_state(), t.dir),
                colored(a.volume_text(), t.volume),
            ]
            &&& lines[5] == seq![colored(" Timeline:"@, t.title)]
            &&& lines[6] == seq![
                colored(" "@ + time_text(whole_part(a.mpv.time_pos)) + " "@, t.text),
                colored(bar_text(nearest_count(p.filled) as int, p.width as int), t.playing),
                colored(" "@ + time_text(whole_part(a.mpv.duration)), t.text),
            ]
            &&& lines[0] == seq![raw(""@)] && lines[4] == seq![raw(""@)]
        }),
{
}

/// Below the list the track is told with the volume, and its position before the bar and its length
/// behind it; without a track only that there is none.
pub proof fn player_line_tells_the_position(a: AppModel, t: Theme, p: Progress)
    ensures
        ({
            let lines = a.player_lines(t, p);
            &&& a.current is None ==> lines == seq![seq![raw(" No track selected"@)]]
            &&& a.current is Some ==> {
                &&& lines.len() == 2
                &&& lines[0] == seq![
                    bold(" ♪ "@ + a.track_name("Unknown"@), t.playing),
                    colored(a.volume_text(), t.volume),
                ]
                &&& lines[1].len() == 1
                &&& lines[1][0].style == Style { fg: None, bg: None, bold: false }
                &&& lines[1][0].text == " "@ + time_text(whole_part(a.mpv.time_pos)) + " "@ + bar_text(
                    nearest_count(p.filled) as int,
                    p.width as int,
                ) + " "@ + time_text(whole_part(a.mpv.duration))
            }
        }),
{
}

/// The line of controls begins with the state and the note to the user, if there is one, and names
/// each key before what it does.
pub proof fn controls_tell_the_note(a: AppModel, t: Theme, k: int)
    requires
        0 <= k < 7,
    ensures
        ({
            let line = a.control_spans(t);
            &&& line.len() == 15
            &&& a.status.len() == 0 ==> line[0].text == "["@ + a.control_state() + "]"@ + "  "@
            &&& a.status.len() > 0 ==> line[0].text == "["@ + a.control_state() + "]"@ + (" | "@ + a.status)
                + "  "@
            &&& line[0].style == Style { fg: Some(t.playing), bg: None, bold: false }
            &&& line[2 * k + 1].style == Style { fg: Some(t.title), bg: None, bold: true }
            &&& line[2 * k + 2].style == Style { fg: Some(t.text), bg: None, bold: false }
        }),
{
    assert("["@ + a.control_state() + "]"@ + Seq::empty() + "  "@ =~= "["@ + a.control_state() + "]"@ + "  "@);
    assert(k == 0 || k == 1 || k == 2 || k == 3 || k == 4 || k == 5 || k == 6);
}

/// In a bar the filled cells stand on the left, as many as are to be filled but no more than there
/// are, and empty ones take up the rest between the brackets.
pub proof fn bar_is_filled_from_the_left(filled: nat, width: nat, i: int)
    requires
        width >= 2,
        0 <= i < width,
    ensures
        ({
            let c = bar_text(filled as int, width as int)[i];
            &&& i == 0 ==> c == '['
            &&& i == width - 1 ==> c == ']'
            &&& 0 < i < width - 1 && i <= filled ==> c == '━'
            &&& 0 < i < width - 1 && i > filled ==> c == '─'
        }),
{
}

/// Each view has its list or the zen view, and all but that have the player below it; the header
/// comes first, and the controls behind all of these.
pub proof fn each_view_has_its_parts(a: AppModel)
    ensures
        ({
            let parts = a.parts();
            let n = if a.show_quit_popup {
                parts.len() - 1
            } else {
                parts.len() as int
            };
            &&& parts[0] == Part::Header
            &&& parts[n - 1] == Part::Controls
            &&& a.mode == ViewMode::Files ==> n == 4 && parts[1] == Part::Files && parts[2] == Part::Player
            &&& a.mode == ViewMode::Queue ==> n == 4 && parts[1] == Part::Queue && parts[2] == Part::Player
            &&& a.mode == ViewMode::Zen ==> n == 3 && parts[1] == Part::Zen
        }),
{
}

/// The bars leave room for what stands beside them, and have ten cells at least.
pub proof fn bars_leave_room(n: int, by: int)
    ensures
        at_least_ten(n, by) >= 10,
        n - by >= 10 ==> at_least_ten(n, by) + by == n,
        n - by < 10 ==> at_least_ten(n, by) == 10,
{
}

}

//! The player.
use crate::double::{round_whole, Double};
use crate::entries::{entry_models, list_entries, lowered, Entry, EntryModel};
use crate::laws::seeking_stays_in_bounds;
use crate::model::{
    a_file, album_of, at_path, first_where, last_where, metadata_of, named_like,
    AppModel, EffectModel, MetadataModel, Playback, Step, ViewMode, SEEK_STEP,
    VOLUME_STEP,
};
use crate::mpv::{fresh_state, path_views, Command, MpvState, THREE, ZERO};
use crate::path::{file_name, FilePath};
use crate::text::{contains, lossy_text, text_contains, to_lower};
use crate::theme::Theme;
use vstd::prelude::*;
use vstd::string::*;
use vstd::utf8::*;

verus! {

/// What the desktop is told of a track.
pub struct Metadata {
    pub title: String,
    pub album: Option<String>,
}

impl View for Metadata {
    type V = MetadataModel;

    open spec fn view(&self) -> MetadataModel {
        MetadataModel {
            title: self.title@,
            album: match self.album {
                Some(a) => Some(a@),
                None => None,
            },
        }
    }
}

/// Something for the player's surroundings to do.
pub enum Effect {
    /// Give the engine a command; whether that fails does not matter.
    Send(Command),
    /// Have the engine play a file, and report the outcome to `App::play_outcome`.
    Play(FilePath),
    /// Have a new engine play a file, and report to `App::mpv_resumed` if that went well.
    Resume(FilePath),
    /// List the current directory for `App::refresh_entries`, and then hand a path to
    /// `App::select_path`.
    List(Option<FilePath>),
    /// Hand the volume, changed by so many percent, to `App::set_volume`.
    ChangeVolume(i64),
    /// Have the engine set this volume.
    SetVolume(Double),
    /// Have the engine go forward by so many seconds.
    SeekBy(Double),
    /// Tell the desktop what is playing.
    Announce(Metadata),
    /// Tell the desktop whether it is playing.
    Report(Playback),
    /// Show the artwork of a file.
    ShowArtwork(FilePath),
    /// Show no artwork.
    ClearArtwork,
}

impl View for Effect {
    type V = EffectModel;

    open spec fn view(&self) -> EffectModel {
        match self {
            Effect::Send(c) => EffectModel::Send(c@),
            Effect::Play(p) => EffectModel::Play(p@),
            Effect::Resume(p) => EffectModel::Resume(p@),
            Effect::List(Some(p)) => EffectModel::List(Some(p@)),
            Effect::List(None) => EffectModel::List(None),
            Effect::ChangeVolume(by) => EffectModel::ChangeVolume(*by as int),
            Effect::SetVolume(v) => EffectModel::SetVolume(*v),
            Effect::SeekBy(s) => EffectModel::SeekBy(*s),
            Effect::Announce(m) => EffectModel::Announce(m@),
            Effect::Report(p) => EffectModel::Report(*p),
            Effect::ShowArtwork(p) => EffectModel::ShowArtwork(p@),
            Effect::ClearArtwork => EffectModel::ClearArtwork,
        }
    }
}

/// What a sequence of effects stands for.
pub open spec fn effect_models(s: Seq<Effect>) -> Seq<EffectModel> {
    s.map_values(|e: Effect| e@)
}

/// The player.
pub struct App {
    pub current_dir: FilePath,
    pub entries: Vec<Entry>,
    pub selected_file: usize,
    pub queue: Vec<FilePath>,
    pub selected_queue: usize,
    pub mode: ViewMode,
    pub mpv: MpvState,
    pub current: Option<FilePath>,
    pub status: String,
    pub should_quit: bool,
    pub show_quit_popup: bool,
    pub theme: Theme,
    pub search_query: String,
    pub is_searching: bool,
    pub pending_seek: i64,
}

impl View for App {
    type V = AppModel;

    open spec fn view(&self) -> AppModel {
        AppModel {
            current_dir: self.current_dir@,
            entries: entry_models(self.entries@),
            selected_file: self.selected_file as int,
            queue: path_views(self.queue@),
            selected_queue: self.selected_queue as int,
            mode: self.mode,
            mpv: self.mpv,
            current: match self.current {
                Some(p) => Some(p@),
                None => None,
            },
            status: self.status@,
            should_quit: self.should_quit,
            show_quit_popup: self.show_quit_popup,
            search_query: self.search_query@,
            is_searching: self.is_searching,
            pending_seek: self.pending_seek as int,
        }
    }
}

/// Whether an operation on a player did what a step says, and nothing else.
pub open spec fn step_taken(before: App, after: App, effects: Seq<Effect>, step: Step) -> bool {
    &&& after@ == step.app
    &&& effect_models(effects) == step.effects
    &&& after.theme == before.theme
}

/// Whether an operation on a player did what a step says, and nothing else, and left its
/// selections in their lists.
pub open spec fn did(before: App, after: App, effects: Seq<Effect>, step: Step) -> bool {
    step_taken(before, after, effects, step) && after@.wf()
}

/// Whether an operation on a player that has no effects did what it should, and nothing else.
pub open spec fn became(before: App, after: App, app: AppModel) -> bool {
    &&& after@ == app
    &&& after@.wf()
    &&& after.theme == before.theme
}

/// The player as it starts in a directory, with a note to the user about its theme.
pub open spec fn started(dir: Seq<u8>, note: Option<Seq<char>>) -> AppModel {
    AppModel {
        current_dir: dir,
        entries: Seq::empty(),
        selected_file: 0,
        queue: Seq::empty(),
        selected_queue: 0,
        mode: ViewMode::Files,
        mpv: fresh_state(),
        current: None,
        status: match note {
            Some(text) => text,
            None => Seq::empty(),
        },
        should_quit: false,
        show_quit_popup: false,
        search_query: Seq::empty(),
        is_searching: false,
        pending_seek: 0,
    }
}

/// What the desktop is told of a track.
pub fn media_metadata(path: &FilePath) -> (r: Metadata)
    ensures
        r@ == metadata_of(path@),
{
    let title: String = match path.file_stem() {
        Some(stem) => lossy_text(stem.as_slice()),
        None => "Unknown Track".to_owned(),
    };
    Metadata { title, album: album_name(path) }
}

/// The name of the directory that a path is in.
pub fn album_name(path: &FilePath) -> (r: Option<String>)
    ensures
        album_of(path@) == (match r {
            Some(name) => Some(name@),
            None => None,
        }),
{
    match path.parent() {
        Some(dir) => match dir.file_name() {
            Some(name) => Some(lossy_text(name.as_slice())),
            None => None,
        },
        None => None,
    }
}

/// No effects.
pub(crate) fn no_effects() -> (r: Vec<Effect>)
    ensures
        effect_models(r@) == Seq::<EffectModel>::empty(),
{
    let r: Vec<Effect> = Vec::new();
    assert(effect_models(r@) =~= Seq::<EffectModel>::empty());
    r
}

/// One effect.
fn one_effect(e: Effect) -> (r: Vec<Effect>)
    ensures
        effect_models(r@) == seq![e@],
{
    let mut r: Vec<Effect> = Vec::new();
    r.push(e);
    assert(effect_models(r@) =~= seq![e@]);
    r
}

/// The file name of an entry, where it is made of ASCII characters.
pub open spec fn ascii_name(e: EntryModel) -> Option<Seq<char>> {
    match file_name(e.path) {
        Some(name) => if valid_utf8(name) && is_ascii_chars(decode_utf8(name)) {
            Some(decode_utf8(name))
        } else {
            None
        },
        None => None,
    }
}

/// Whether a search for a text of ASCII characters has selected, among entries with such names, the
/// first whose name holds it, with all letters in lower case; and, where there is none, nothing
/// else than what was selected.
pub open spec fn ascii_search_is_right(before: AppModel, after: AppModel) -> bool {
    let query = before.search_query;
    let s = before.entries;
    is_ascii_chars(query) && query.len() > 0 && (forall|k: int|
        0 <= k < s.len() ==> ascii_name(#[trigger] s[k]) is Some) ==> {
        ||| {
            &&& 0 <= after.selected_file < s.len()
            &&& contains(lowered(ascii_name(s[after.selected_file])->0), lowered(query))
            &&& forall|k: int|
                0 <= k < after.selected_file ==> !contains(lowered(ascii_name(#[trigger] s[k])->0), lowered(query))
        }
        ||| {
            &&& after.selected_file == before.selected_file
            &&& forall|k: int|
                0 <= k < s.len() ==> !contains(lowered(ascii_name(#[trigger] s[k])->0), lowered(query))
        }
    }
}

/// The first position at which an entry has a path.
fn find_path(entries: &Vec<Entry>, path: &FilePath) -> (r: Option<usize>)
    ensures
        first_where(entry_models(entries@), at_path(path@), 0) == (match r {
            Some(i) => Some(i as int),
            None => None,
        }),
        r matches Some(i) ==> i < entries@.len(),
{
    let ghost s = entry_models(entries@);
    let mut i: usize = 0;
    while i < entries.len()
        invariant
            s == entry_models(entries@),
            i <= entries@.len(),
            first_where(s, at_path(path@), 0) == first_where(s, at_path(path@), i as int),
        decreases entries@.len() - i,
    {
        assert(s[i as int] == entries@[i as int]@);
        if entries[i].path.same(path) {
            return Some(i);
        }
        i = i + 1;
    }
    None
}

impl App {
    /// The player as it starts in a directory, with a note to the user about its theme.
    pub fn new(start_dir: FilePath, theme: Theme, note: Option<String>) -> (r: App)
        ensures
            r@ == started(
                start_dir@,
                (match note {
                    Some(text) => Some(text@),
                    None => None,
                }),
            ),
            r@.wf(),
            r.theme == theme,
    {
        let status: String = match note {
            Some(text) => text,
            None => String::new(),
        };
        let r = App {
            current_dir: start_dir,
            entries: Vec::new(),
            selected_file: 0,
            queue: Vec::new(),
            selected_queue: 0,
            mode: ViewMode::Files,
            mpv: MpvState::new(),
            current: None,
            status,
            should_quit: false,
            show_quit_popup: false,
            theme,
            search_query: String::new(),
            is_searching: false,
            pending_seek: 0,
        };
        assert(r@.entries =~= Seq::<EntryModel>::empty());
        assert(r@.queue =~= Seq::<Seq<u8>>::empty());
        r
    }

    // -- the list of entries ------------------------------------------------

    /// Shows what was found in the current directory, with the first entry selected.
    pub fn refresh_entries(&mut self, found: &Vec<Entry>)
        requires
            old(self)@.wf(),
        ensures
            became(*old(self), *final(self), old(self)@.refreshed(entry_models(found@))),
    {
        self.entries = list_entries(found);
        self.selected_file = 0;
    }

    /// Selects the first entry with a path, if there is one.
    pub fn select_path(&mut self, path: &FilePath)
        requires
            old(self)@.wf(),
        ensures
            became(*old(self), *final(self), old(self)@.with_path_selected(path@)),
    {
        if let Some(i) = find_path(&self.entries, path) {
            self.selected_file = i;
        }
    }

    /// Selects the first entry that matches the search, if there is one. Among names of ASCII
    /// characters that is the first that holds the text, capital letters being as good as small
    /// ones.
    pub fn update_search_selection(&mut self)
        requires
            old(self)@.wf(),
        ensures
            became(*old(self), *final(self), old(self)@.search_updated()),
            ascii_search_is_right(old(self)@, final(self)@),
    {
        if self.search_query.as_str().is_empty() {
            return;
        }
        let query: String = to_lower(self.search_query.as_str());
        let ghost s = self@.entries;
        let ghost p = named_like(self.search_query@);
        let mut i: usize = 0;
        while i < self.entries.len()
            invariant
                *self == *old(self),
                self@.wf(),
                s == self@.entries,
                p == named_like(self.search_query@),
                query@ == crate::text::lowercase(self.search_query@),
                self.search_query@.len() > 0,
                i <= self.entries@.len(),
                first_where(s, p, 0) == first_where(s, p, i as int),
                is_ascii_chars(self.search_query@) ==> query@ == lowered(self.search_query@),
                forall|k: int|
                    0 <= k < i && is_ascii_chars(self.search_query@) ==> (ascii_name(#[trigger] s[k]) matches Some(
                        name,
                    ) ==> !contains(lowered(name), lowered(self.search_query@))),
            decreases self.entries@.len() - i,
        {
            assert(s[i as int] == self.entries@[i as int]@);
            let name: String = self.entries[i].name();
            let low: String = to_lower(name.as_str());
            if text_contains(low.as_str(), query.as_str()) {
                self.selected_file = i;
                return;
            }
            i = i + 1;
        }
    }

    // -- selecting ----------------------------------------------------------

    /// Selects the entry or track above.
    pub fn move_up(&mut self)
        requires
            old(self)@.wf(),
        ensures
            became(*old(self), *final(self), old(self)@.moved_up()),
    {
        match self.mode {
            ViewMode::Files => {
                if self.selected_file > 0 {
                    self.selected_file = self.selected_file - 1;
                }
            },
            ViewMode::Queue => {
                if self.selected_queue > 0 {
                    self.selected_queue = self.selected_queue - 1;
                }
            },
            ViewMode::Zen => {},
        }
    }

    /// Selects the entry or track below.
    pub fn move_down(&mut self)
        requires
            old(self)@.wf(),
        ensures
            became(*old(self), *final(self), old(self)@.moved_down()),
    {
        match self.mode {
            ViewMode::Files => {
                if self.entries.len() > 0 && self.selected_file < self.entries.len() - 1 {
                    self.selected_file = self.selected_file + 1;
                }
            },
            ViewMode::Queue => {
                if self.queue.len() > 0 && self.selected_queue < self.queue.len() - 1 {
                    self.selected_queue = self.selected_queue + 1;
                }
            },
            ViewMode::Zen => {},
        }
    }

    // -- the queue ----------------------------------------------------------

    /// Moves the selected track of the queue one place up.
    pub fn queue_move_up(&mut self)
        requires
            old(self)@.wf(),
        ensures
            became(*old(self), *final(self), old(self)@.queue_moved_up()),
    {
        if self.mode == ViewMode::Queue && self.selected_queue > 0 {
            let at: usize = self.selected_queue;
            let track: FilePath = self.queue.remove(at);
            self.queue.insert(at - 1, track);
            self.selected_queue = at - 1;
            assert(self@.queue =~= old(self)@.queue_moved_up().queue);
        }
    }

    /// Moves the selected track of the queue one place down.
    pub fn queue_move_down(&mut self)
        requires
            old(self)@.wf(),
        ensures
            became(*old(self), *final(self), old(self)@.queue_moved_down()),
    {
        if self.mode == ViewMode::Queue && self.queue.len() > 0 && self.selected_queue < self.queue.len() - 1 {
            let at: usize = self.selected_queue;
            let track: FilePath = self.queue.remove(at);
            self.queue.insert(at + 1, track);
            self.selected_queue = at + 1;
            assert(self@.queue =~= old(self)@.queue_moved_down().queue);
        }
    }

    /// Puts the selected file at the end of the queue, and selects the next entry.
    pub fn add_selected_to_queue(&mut self)
        requires
            old(self)@.wf(),
        ensures
            became(*old(self), *final(self), old(self)@.selected_added()),
    {
        if self.mode == ViewMode::Files && self.selected_file < self.entries.len() {
            let at: usize = self.selected_file;
            assert(self@.entries[at as int] == self.entries@[at as int]@);
            if !self.entries[at].is_dir {
                let path: FilePath = self.entries[at].path.clone();
                let name: String = self.entries[at].name();
                self.queue.push(path);
                let mut note: String = "Added to queue: ".to_owned();
                note.append(name.as_str());
                self.status = note;
                assert(self@.queue =~= old(self)@.queue.push(old(self)@.entries[at as int].path));
                self.move_down();
            }
        }
    }

    /// Takes the selected track out of the queue.
    pub fn remove_from_queue(&mut self)
        requires
            old(self)@.wf(),
        ensures
            became(*old(self), *final(self), old(self)@.selected_removed()),
    {
        if self.mode == ViewMode::Queue && self.queue.len() > 0 {
            let removed: FilePath = self.queue.remove(self.selected_queue);
            assert(self@.queue =~= old(self)@.queue.remove(old(self)@.selected_queue));
            if self.queue.len() > 0 && self.selected_queue >= self.queue.len() {
                self.selected_queue = self.queue.len() - 1;
            }
            if let Some(name) = removed.file_name() {
                let mut note: String = "Removed from queue: ".to_owned();
                let shown: String = lossy_text(name.as_slice());
                note.append(shown.as_str());
                self.status = note;
            }
        }
    }

    // -- directories --------------------------------------------------------

    /// Opens the selected directory, or plays the selected file.
    pub fn enter_selected(&mut self) -> (r: Vec<Effect>)
        requires
            old(self)@.wf(),
        ensures
            did(*old(self), *final(self), r@, old(self)@.entered()),
    {
        match self.mode {
            ViewMode::Files => {
                if self.selected_file < self.entries.len() {
                    let at: usize = self.selected_file;
                    assert(self@.entries[at as int] == self.entries@[at as int]@);
                    let path: FilePath = self.entries[at].path.clone();
                    if self.entries[at].is_dir {
                        self.current_dir = path;
                        return one_effect(Effect::List(None));
                    } else {
                        return one_effect(Effect::Play(path));
                    }
                }
            },
            ViewMode::Queue => {
                if self.selected_queue < self.queue.len() {
                    let at: usize = self.selected_queue;
                    assert(self@.queue[at as int] == self.queue@[at as int]@);
                    return one_effect(Effect::Play(self.queue[at].clone()));
                }
            },
            ViewMode::Zen => {},
        }
        no_effects()
    }

    /// Goes to the parent of the current directory.
    pub fn go_parent(&mut self) -> (r: Vec<Effect>)
        requires
            old(self)@.wf(),
        ensures
            did(*old(self), *final(self), r@, old(self)@.parent_entered()),
    {
        if self.mode == ViewMode::Files {
            if let Some(dir) = self.current_dir.parent() {
                let left: FilePath = self.current_dir.clone();
                self.current_dir = dir;
                return one_effect(Effect::List(Some(left)));
            }
        }
        no_effects()
    }

    // -- playing ------------------------------------------------------------

    /// Takes note of whether the engine could be told to play a file; an error is given by
    /// its message.
    pub fn play_outcome(&mut self, path: &FilePath, outcome: Result<(), String>) -> (r: Vec<Effect>)
        requires
            old(self)@.wf(),
        ensures
            did(
                *old(self),
                *final(self),
                r@,
                (match outcome {
                    Ok(_) => old(self)@.play_succeeded(path@),
                    Err(reason) => old(self)@.play_failed(reason@),
                }),
            ),
    {
        match outcome {
            Ok(_) => {
                self.mpv.idle = false;
                self.current = Some(path.clone());
                self.status = String::new();
                let mut out: Vec<Effect> = Vec::new();
                out.push(Effect::Announce(media_metadata(path)));
                out.push(Effect::Report(Playback::Playing(Double { bits: ZERO })));
                out.push(Effect::ShowArtwork(path.clone()));
                assert(effect_models(out@) =~= old(self)@.play_succeeded(path@).effects);
                out
            },
            Err(reason) => {
                let mut note: String = "Error: ".to_owned();
                note.append(reason.as_str());
                self.status = note;
                no_effects()
            },
        }
    }

    /// Selects and plays the entry at `i`.
    fn play_entry(&mut self, i: usize) -> (r: Vec<Effect>)
        requires
            old(self)@.wf(),
            i < old(self).entries@.len(),
        ensures
            did(*old(self), *final(self), r@, old(self)@.entry_played(i as int)),
    {
        assert(self@.entries[i as int] == self.entries@[i as int]@);
        let path: FilePath = self.entries[i].path.clone();
        self.select_path(&path);
        one_effect(Effect::Play(path))
    }

    /// The entry that holds the track that is playing.
    fn find_current(&self) -> (r: Option<usize>)
        ensures
            self@.current_entry() == (match r {
                Some(i) => Some(i as int),
                None => None,
            }),
            r matches Some(i) ==> i < self.entries@.len(),
    {
        match &self.current {
            Some(path) => find_path(&self.entries, path),
            None => None,
        }
    }

    /// The file behind the track that is playing.
    fn find_next(&self) -> (r: Option<usize>)
        ensures
            self@.next_entry() == (match r {
                Some(i) => Some(i as int),
                None => None,
            }),
            r matches Some(i) ==> i < self.entries@.len(),
    {
        let ghost s = self@.entries;
        if let Some(at) = self.find_current() {
            let n: usize = self.entries.len();
            let mut i: usize = at + 1;
            while i < n
                invariant
                    s == self@.entries,
                    n == self.entries@.len(),
                    i <= n,
                    self@.current_entry() == Some(at as int),
                    first_where(s, a_file(), at + 1) == first_where(s, a_file(), i as int),
                decreases self.entries@.len() - i,
            {
                assert(s[i as int] == self.entries@[i as int]@);
                if !self.entries[i].is_dir {
                    return Some(i);
                }
                i = i + 1;
            }
        }
        None
    }

    /// The file before the track that is playing.
    fn find_previous(&self) -> (r: Option<usize>)
        ensures
            self@.previous_entry() == (match r {
                Some(i) => Some(i as int),
                None => None,
            }),
            r matches Some(i) ==> i < self.entries@.len(),
    {
        let ghost s = self@.entries;
        if let Some(at) = self.find_current() {
            let mut i: usize = at;
            while i > 0
                invariant
                    s == self@.entries,
                    i <= at < self.entries@.len(),
                    self@.current_entry() == Some(at as int),
                    last_where(s, a_file(), at as int) == last_where(s, a_file(), i as int),
                decreases i,
            {
                assert(s[i - 1] == self.entries@[i - 1]@);
                if !self.entries[i - 1].is_dir {
                    return Some(i - 1);
                }
                i = i - 1;
            }
        }
        None
    }

    /// Plays the next track.
    pub fn play_next(&mut self) -> (r: Vec<Effect>)
        requires
            old(self)@.wf(),
        ensures
            did(*old(self), *final(self), r@, old(self)@.next_played()),
    {
        if self.queue.len() > 0 {
            assert(self@.queue[0] == self.queue@[0]@);
            let track: FilePath = self.queue.remove(0);
            assert(self@.queue =~= old(self)@.queue.remove(0));
            if self.queue.len() > 0 && self.selected_queue >= self.queue.len() {
                self.selected_queue = self.queue.len() - 1;
            }
            return one_effect(Effect::Play(track));
        }
        if let Some(i) = self.find_next() {
            return self.play_entry(i);
        }
        self.current = None;
        self.status = "Playback finished".to_owned();
        let mut out: Vec<Effect> = Vec::new();
        out.push(Effect::ClearArtwork);
        out.push(Effect::Report(Playback::Stopped));
        assert(effect_models(out@) =~= old(self)@.next_played().effects);
        out
    }

    /// Plays the track from its beginning, or the track before it.
    pub fn play_prev(&mut self) -> (r: Vec<Effect>)
        requires
            old(self)@.wf(),
        ensures
            did(*old(self), *final(self), r@, old(self)@.previous_played()),
    {
        let pos: Double = self.mpv.time_pos;
        let three: Double = Double { bits: THREE };
        if three.less_than(pos) {
            return one_effect(Effect::SeekBy(pos.negate()));
        }
        if let Some(i) = self.find_previous() {
            return self.play_entry(i);
        }
        self.status = "Top of list".to_owned();
        no_effects()
    }

    /// Pauses, or goes on.
    pub fn toggle_pause(&mut self) -> (r: Vec<Effect>)
        requires
            old(self)@.wf(),
        ensures
            did(*old(self), *final(self), r@, old(self)@.pause_toggled()),
    {
        let mut out: Vec<Effect> = Vec::new();
        out.push(Effect::Send(Command::CyclePause));
        if self.mpv.paused {
            out.push(Effect::Report(Playback::Paused(self.mpv.time_pos)));
        } else {
            out.push(Effect::Report(Playback::Playing(self.mpv.time_pos)));
        }
        assert(effect_models(out@) =~= old(self)@.pause_toggled().effects);
        out
    }

    /// Stops the playback.
    pub fn stop(&mut self) -> (r: Vec<Effect>)
        requires
            old(self)@.wf(),
        ensures
            did(*old(self), *final(self), r@, old(self)@.stopped()),
    {
        self.mpv.idle = true;
        self.current = None;
        let mut out: Vec<Effect> = Vec::new();
        out.push(Effect::Send(Command::Stop));
        out.push(Effect::ClearArtwork);
        out.push(Effect::Report(Playback::Stopped));
        assert(effect_models(out@) =~= old(self)@.stopped().effects);
        out
    }

    /// Turns the volume up.
    pub fn volume_up(&mut self) -> (r: Vec<Effect>)
        requires
            old(self)@.wf(),
        ensures
            did(*old(self), *final(self), r@, old(self)@.volume_changed(VOLUME_STEP as int)),
    {
        one_effect(Effect::ChangeVolume(VOLUME_STEP))
    }

    /// Turns the volume down.
    pub fn volume_down(&mut self) -> (r: Vec<Effect>)
        requires
            old(self)@.wf(),
        ensures
            did(*old(self), *final(self), r@, old(self)@.volume_changed(-VOLUME_STEP)),
    {
        one_effect(Effect::ChangeVolume(-VOLUME_STEP))
    }

    /// Sets the volume, as far as it is allowed, and gives the volume that was set.
    pub fn set_volume(&mut self, v: Double) -> (r: Double)
        requires
            old(self)@.wf(),
        ensures
            became(*old(self), *final(self), old(self)@.with_volume(v)),
            r == final(self)@.mpv.volume,
    {
        self.mpv.set_volume(v)
    }

    /// Asks to go forward.
    pub fn seek_forward(&mut self)
        requires
            old(self)@.wf(),
        ensures
            became(*old(self), *final(self), old(self)@.seek_asked(SEEK_STEP as int)),
    {
        if self.current.is_some() {
            proof {
                seeking_stays_in_bounds(self.pending_seek + SEEK_STEP);
            }
            self.pending_seek = round_whole(self.pending_seek + SEEK_STEP);
        }
    }

    /// Asks to go back.
    pub fn seek_backward(&mut self)
        requires
            old(self)@.wf(),
        ensures
            became(*old(self), *final(self), old(self)@.seek_asked(-SEEK_STEP)),
    {
        if self.current.is_some() {
            proof {
                seeking_stays_in_bounds(self.pending_seek - SEEK_STEP);
            }
            self.pending_seek = round_whole(self.pending_seek - SEEK_STEP);
        }
    }

    /// Goes as far as was asked since the last time.
    pub fn process_pending_seek(&mut self) -> (r: Vec<Effect>)
        requires
            old(self)@.wf(),
        ensures
            did(*old(self), *final(self), r@, old(self)@.seek_processed()),
    {
        if self.pending_seek != 0 {
            let seconds: i64 = self.pending_seek;
            self.pending_seek = 0;
            if self.current.is_some() {
                return one_effect(Effect::SeekBy(Double::of_whole(seconds)));
            }
        }
        no_effects()
    }

    // -- the engine ---------------------------------------------------------

    /// Takes note of a line that the engine has written.
    pub fn mpv_line(&mut self, line: &str)
        requires
            old(self)@.wf(),
        ensures
            became(
                *old(self),
                *final(self),
                (AppModel { mpv: crate::mpv::after_line(old(self)@.mpv, line@), ..old(self)@ }),
            ),
    {
        self.mpv.apply_line(line);
    }

    /// Takes note that the engine has ended.
    pub fn mpv_died(&mut self)
        requires
            old(self)@.wf(),
        ensures
            became(*old(self), *final(self), old(self)@.engine_lost()),
    {
        self.status = "MPV died! Respawning process...".to_owned();
    }

    /// Takes note that a new engine has been started.
    pub fn mpv_respawned(&mut self) -> (r: Vec<Effect>)
        requires
            old(self)@.wf(),
        ensures
            did(*old(self), *final(self), r@, old(self)@.engine_replaced()),
    {
        let volume: Double = self.mpv.volume;
        self.mpv = MpvState::new();
        let allowed: Double = self.mpv.set_volume(volume);
        self.status = "MPV process respawned.".to_owned();
        let mut out: Vec<Effect> = Vec::new();
        out.push(Effect::SetVolume(allowed));
        if let Some(path) = &self.current {
            out.push(Effect::Resume(path.clone()));
        }
        assert(effect_models(out@) =~= old(self)@.engine_replaced().effects);
        out
    }

    /// Takes note that a new engine plays the track of the last one.
    pub fn mpv_resumed(&mut self)
        requires
            old(self)@.wf(),
        ensures
            became(
                *old(self),
                *final(self),
                (AppModel { mpv: (MpvState { idle: false, ..old(self)@.mpv }), ..old(self)@ }),
            ),
    {
        self.mpv.idle = false;
    }

    /// Plays the next track where one has come to its end.
    pub fn advance(&mut self) -> (r: Vec<Effect>)
        requires
            old(self)@.wf(),
        ensures
            did(*old(self), *final(self), r@, old(self)@.advanced()),
    {
        if self.current.is_some() && self.mpv.idle {
            self.play_next()
        } else {
            no_effects()
        }
    }
}

}

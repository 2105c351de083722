//! What the player is, and what each of its operations does to it.
use crate::double::{less, nearest_double, nearest_whole, negated, Double};
use crate::entries::{shown, EntryModel};
use crate::mpv::{allowed_volume, fresh_state, CommandModel, MpvState, THREE, ZERO};
use crate::path::{display_name, file_name, file_stem, parent, same_path};
use crate::text::{contains, lossy, lowercase};
use vstd::prelude::*;

verus! {

/// What the player shows.
#[derive(Clone, Copy, PartialEq, Eq, Structural, Debug)]
pub enum ViewMode {
    /// The entries of the current directory.
    Files,
    /// The tracks to play next.
    Queue,
    /// The track that is playing, and nothing else.
    Zen,
}

/// What the desktop is told of the playback. Positions are in seconds.
#[derive(Clone, Copy, PartialEq, Eq, Structural)]
pub enum Playback {
    Stopped,
    Paused(Double),
    Playing(Double),
}

/// What the desktop is told of a track.
#[verifier::ext_equal]
pub struct MetadataModel {
    pub title: Seq<char>,
    pub album: Option<Seq<char>>,
}

/// Something for the player's surroundings to do.
#[verifier::ext_equal]
pub enum EffectModel {
    /// Give the engine a command; whether that fails does not matter.
    Send(CommandModel),
    /// Have the engine play a file, and report whether that failed.
    Play(Seq<u8>),
    /// Have a new engine play the file that the last one played.
    Resume(Seq<u8>),
    /// List the current directory, and then select a path in it.
    List(Option<Seq<u8>>),
    /// Change the volume by so many percent.
    ChangeVolume(int),
    /// Have the engine set this volume.
    SetVolume(Double),
    /// Have the engine go forward by so many seconds.
    SeekBy(Double),
    /// Tell the desktop what is playing.
    Announce(MetadataModel),
    /// Tell the desktop whether it is playing.
    Report(Playback),
    /// Show the artwork of a file.
    ShowArtwork(Seq<u8>),
    /// Show no artwork.
    ClearArtwork,
}

/// The player.
#[verifier::ext_equal]
pub struct AppModel {
    pub current_dir: Seq<u8>,
    pub entries: Seq<EntryModel>,
    pub selected_file: int,
    pub queue: Seq<Seq<u8>>,
    pub selected_queue: int,
    pub mode: ViewMode,
    /// What is known of the engine.
    pub mpv: MpvState,
    /// The track that is playing.
    pub current: Option<Seq<u8>>,
    pub status: Seq<char>,
    pub should_quit: bool,
    pub show_quit_popup: bool,
    pub search_query: Seq<char>,
    pub is_searching: bool,
    /// How many seconds forward the user has asked to go since the engine was last told.
    pub pending_seek: int,
}

/// What an operation gives: the player after it, and what is to be done.
pub struct Step {
    pub app: AppModel,
    pub effects: Seq<EffectModel>,
}

/// The number of seconds that one key press goes forward or back.
pub const SEEK_STEP: i64 = 5;

/// The greatest number of seconds that they come to when a double counts them: there a step is
/// too small to be counted.
pub const SEEK_LIMIT: i64 = 0x100_0000_0000_0000;

/// The number of percent that one key press changes the volume by.
pub const VOLUME_STEP: i64 = 10;

/// The first position from `from` on at which an entry meets a condition.
pub open spec fn first_where(s: Seq<EntryModel>, p: spec_fn(EntryModel) -> bool, from: int) -> Option<int>
    decreases s.len() - from,
{
    if from < 0 || from >= s.len() {
        None
    } else if p(s[from]) {
        Some(from)
    } else {
        first_where(s, p, from + 1)
    }
}

/// The last position before `end` at which an entry meets a condition.
pub open spec fn last_where(s: Seq<EntryModel>, p: spec_fn(EntryModel) -> bool, end: int) -> Option<int>
    decreases end,
{
    if end <= 0 || end > s.len() {
        None
    } else if p(s[end - 1]) {
        Some(end - 1)
    } else {
        last_where(s, p, end - 1)
    }
}

/// The entries with a path.
pub open spec fn at_path(path: Seq<u8>) -> spec_fn(EntryModel) -> bool {
    |e: EntryModel| same_path(e.path, path)
}

/// The entries that are files.
pub open spec fn a_file() -> spec_fn(EntryModel) -> bool {
    |e: EntryModel| !e.is_dir
}

/// The entries whose names hold a text, in any case.
pub open spec fn named_like(query: Seq<char>) -> spec_fn(EntryModel) -> bool {
    |e: EntryModel| contains(lowercase(display_name(e.path)), lowercase(query))
}

/// What the desktop is told of a track: the stem of its file name as the title, and the name
/// of its directory as the album.
pub open spec fn metadata_of(path: Seq<u8>) -> MetadataModel {
    MetadataModel {
        title: match file_stem(path) {
            Some(stem) => lossy(stem),
            None => "Unknown Track"@,
        },
        album: album_of(path),
    }
}

/// The name of the directory that a path is in.
pub open spec fn album_of(path: Seq<u8>) -> Option<Seq<char>> {
    match parent(path) {
        Some(dir) => match file_name(dir) {
            Some(name) => Some(lossy(name)),
            None => None,
        },
        None => None,
    }
}

/// `n` kept below the length of a list that is not empty.
pub open spec fn kept_below(n: int, len: nat) -> int {
    if n >= len && len > 0 {
        len - 1
    } else {
        n
    }
}

/// A step that changes the player only.
pub open spec fn quiet(app: AppModel) -> Step {
    Step { app, effects: Seq::empty() }
}

impl AppModel {
    /// The selections are in their lists, or at the beginning where these are empty.
    pub open spec fn wf(self) -> bool {
        &&& 0 <= self.selected_file
        &&& self.selected_file < self.entries.len() || self.selected_file == 0
        &&& 0 <= self.selected_queue
        &&& self.selected_queue < self.queue.len() || self.selected_queue == 0
        &&& -SEEK_LIMIT <= self.pending_seek <= SEEK_LIMIT
    }

    // -- the list of entries ------------------------------------------------

    /// The current directory has been listed: the first entry is selected.
    pub open spec fn refreshed(self, found: Seq<EntryModel>) -> AppModel {
        AppModel { entries: shown(found), selected_file: 0, ..self }
    }

    /// The first entry with a path, if any, is selected.
    pub open spec fn with_path_selected(self, path: Seq<u8>) -> AppModel {
        match first_where(self.entries, at_path(path), 0) {
            Some(i) => AppModel { selected_file: i, ..self },
            None => self,
        }
    }

    /// The first entry that matches the search, if any, is selected.
    pub open spec fn search_updated(self) -> AppModel {
        if self.search_query.len() == 0 {
            self
        } else {
            match first_where(self.entries, named_like(self.search_query), 0) {
                Some(i) => AppModel { selected_file: i, ..self },
                None => self,
            }
        }
    }

    // -- selecting ----------------------------------------------------------

    pub open spec fn moved_up(self) -> AppModel {
        match self.mode {
            ViewMode::Files => if self.selected_file > 0 {
                AppModel { selected_file: self.selected_file - 1, ..self }
            } else {
                self
            },
            ViewMode::Queue => if self.selected_queue > 0 {
                AppModel { selected_queue: self.selected_queue - 1, ..self }
            } else {
                self
            },
            ViewMode::Zen => self,
        }
    }

    pub open spec fn moved_down(self) -> AppModel {
        match self.mode {
            ViewMode::Files => if self.selected_file + 1 < self.entries.len() {
                AppModel { selected_file: self.selected_file + 1, ..self }
            } else {
                self
            },
            ViewMode::Queue => if self.selected_queue + 1 < self.queue.len() {
                AppModel { selected_queue: self.selected_queue + 1, ..self }
            } else {
                self
            },
            ViewMode::Zen => self,
        }
    }

    // -- the queue ----------------------------------------------------------

    /// The queue with two tracks in each other's place.
    pub open spec fn queue_swapped(self, i: int, j: int) -> Seq<Seq<u8>> {
        self.queue.update(i, self.queue[j]).update(j, self.queue[i])
    }

    /// The selected track of the queue has gone one place up, and is still selected.
    pub open spec fn queue_moved_up(self) -> AppModel {
        if self.mode == ViewMode::Queue && self.selected_queue > 0 {
            AppModel {
                queue: self.queue_swapped(self.selected_queue, self.selected_queue - 1),
                selected_queue: self.selected_queue - 1,
                ..self
            }
        } else {
            self
        }
    }

    /// The selected track of the queue has gone one place down, and is still selected.
    pub open spec fn queue_moved_down(self) -> AppModel {
        if self.mode == ViewMode::Queue && self.selected_queue + 1 < self.queue.len() {
            AppModel {
                queue: self.queue_swapped(self.selected_queue, self.selected_queue + 1),
                selected_queue: self.selected_queue + 1,
                ..self
            }
        } else {
            self
        }
    }

    /// The selected file has been put at the end of the queue, and the next entry is selected.
    pub open spec fn selected_added(self) -> AppModel {
        if self.mode == ViewMode::Files && self.selected_file < self.entries.len()
            && !self.entries[self.selected_file].is_dir {
            let path = self.entries[self.selected_file].path;
            (AppModel {
                queue: self.queue.push(path),
                status: "Added to queue: "@ + display_name(path),
                ..self
            }).moved_down()
        } else {
            self
        }
    }

    /// The selected track has been taken out of the queue.
    pub open spec fn selected_removed(self) -> AppModel {
        if self.mode == ViewMode::Queue && self.queue.len() > 0 {
            let rest = self.queue.remove(self.selected_queue);
            AppModel {
                queue: rest,
                selected_queue: kept_below(self.selected_queue, rest.len()),
                status: match file_name(self.queue[self.selected_queue]) {
                    Some(name) => "Removed from queue: "@ + lossy(name),
                    None => self.status,
                },
                ..self
            }
        } else {
            self
        }
    }

    // -- directories --------------------------------------------------------

    /// The selected entry is opened: a directory becomes the current one, a file is played.
    pub open spec fn entered(self) -> Step {
        match self.mode {
            ViewMode::Files => if self.selected_file < self.entries.len() {
                let e = self.entries[self.selected_file];
                if e.is_dir {
                    Step {
                        app: AppModel { current_dir: e.path, ..self },
                        effects: seq![EffectModel::List(None)],
                    }
                } else {
                    Step { app: self, effects: seq![EffectModel::Play(e.path)] }
                }
            } else {
                quiet(self)
            },
            ViewMode::Queue => if self.selected_queue < self.queue.len() {
                Step { app: self, effects: seq![EffectModel::Play(self.queue[self.selected_queue])] }
            } else {
                quiet(self)
            },
            ViewMode::Zen => quiet(self),
        }
    }

    /// The parent of the current directory becomes the current one, in which the directory
    /// that was left is to be selected.
    pub open spec fn parent_entered(self) -> Step {
        match (self.mode, parent(self.current_dir)) {
            (ViewMode::Files, Some(dir)) => Step {
                app: AppModel { current_dir: dir, ..self },
                effects: seq![EffectModel::List(Some(self.current_dir))],
            },
            _ => quiet(self),
        }
    }

    // -- playing ------------------------------------------------------------

    /// The engine has taken a file to play.
    pub open spec fn play_succeeded(self, path: Seq<u8>) -> Step {
        Step {
            app: AppModel {
                mpv: MpvState { idle: false, ..self.mpv },
                current: Some(path),
                status: Seq::empty(),
                ..self
            },
            effects: seq![
                EffectModel::Announce(metadata_of(path)),
                EffectModel::Report(Playback::Playing(Double { bits: ZERO })),
                EffectModel::ShowArtwork(path),
            ],
        }
    }

    /// The engine could not be told to play a file, for a reason.
    pub open spec fn play_failed(self, reason: Seq<char>) -> Step {
        quiet(AppModel { status: "Error: "@ + reason, ..self })
    }

    /// The entry at `i` is to be played: the first entry with its path is selected.
    pub open spec fn entry_played(self, i: int) -> Step {
        let path = self.entries[i].path;
        Step { app: self.with_path_selected(path), effects: seq![EffectModel::Play(path)] }
    }

    /// The entry that holds the track that is playing.
    pub open spec fn current_entry(self) -> Option<int> {
        match self.current {
            Some(path) => first_where(self.entries, at_path(path), 0),
            None => None,
        }
    }

    /// The file behind that entry.
    pub open spec fn next_entry(self) -> Option<int> {
        match self.current_entry() {
            Some(i) => first_where(self.entries, a_file(), i + 1),
            None => None,
        }
    }

    /// The file before that entry.
    pub open spec fn previous_entry(self) -> Option<int> {
        match self.current_entry() {
            Some(i) => last_where(self.entries, a_file(), i),
            None => None,
        }
    }

    /// The next track is to be played: the first of the queue, which leaves it, or else the
    /// file behind the track that is playing. Where there is neither, the playback is over.
    pub open spec fn next_played(self) -> Step {
        if self.queue.len() > 0 {
            let rest = self.queue.remove(0);
            Step {
                app: AppModel {
                    queue: rest,
                    selected_queue: kept_below(self.selected_queue, rest.len()),
                    ..self
                },
                effects: seq![EffectModel::Play(self.queue[0])],
            }
        } else {
            match self.next_entry() {
                Some(i) => self.entry_played(i),
                None => Step {
                    app: AppModel { current: None, status: "Playback finished"@, ..self },
                    effects: seq![EffectModel::ClearArtwork, EffectModel::Report(Playback::Stopped)],
                },
            }
        }
    }

    /// The track is to be played from its beginning where more than three seconds of it have
    /// been played, and else the file before it is.
    pub open spec fn previous_played(self) -> Step {
        if less(Double { bits: THREE }, self.mpv.time_pos) {
            Step { app: self, effects: seq![EffectModel::SeekBy(negated(self.mpv.time_pos))] }
        } else {
            match self.previous_entry() {
                Some(i) => self.entry_played(i),
                None => quiet(AppModel { status: "Top of list"@, ..self }),
            }
        }
    }

    /// The engine is to pause or to go on. The desktop is told what the engine last said.
    pub open spec fn pause_toggled(self) -> Step {
        Step {
            app: self,
            effects: seq![
                EffectModel::Send(CommandModel::CyclePause),
                EffectModel::Report(
                    if self.mpv.paused {
                        Playback::Paused(self.mpv.time_pos)
                    } else {
                        Playback::Playing(self.mpv.time_pos)
                    },
                ),
            ],
        }
    }

    /// The playback is to stop.
    pub open spec fn stopped(self) -> Step {
        Step {
            app: AppModel { mpv: MpvState { idle: true, ..self.mpv }, current: None, ..self },
            effects: seq![
                EffectModel::Send(CommandModel::Stop),
                EffectModel::ClearArtwork,
                EffectModel::Report(Playback::Stopped),
            ],
        }
    }

    /// The volume is to change by so many percent.
    pub open spec fn volume_changed(self, by: int) -> Step {
        Step { app: self, effects: seq![EffectModel::ChangeVolume(by)] }
    }

    /// The engine has a volume, as far as it is allowed.
    pub open spec fn with_volume(self, v: Double) -> AppModel {
        AppModel { mpv: MpvState { volume: allowed_volume(v), ..self.mpv }, ..self }
    }

    /// The user has asked to go forward by so many seconds, which a double counts.
    pub open spec fn seek_asked(self, by: int) -> AppModel {
        if self.current is Some {
            AppModel { pending_seek: nearest_whole(self.pending_seek + by), ..self }
        } else {
            self
        }
    }

    /// The engine is told how far the user has asked to go, where something is playing.
    pub open spec fn seek_processed(self) -> Step {
        Step {
            app: AppModel { pending_seek: 0, ..self },
            effects: if self.pending_seek != 0 && self.current is Some {
                seq![EffectModel::SeekBy(Double { bits: nearest_double(self.pending_seek) })]
            } else {
                Seq::empty()
            },
        }
    }

    // -- the engine ---------------------------------------------------------

    /// The engine has ended, and is to be started again.
    pub open spec fn engine_lost(self) -> AppModel {
        AppModel { status: "MPV died! Respawning process..."@, ..self }
    }

    /// A new engine has been started: it gets the volume and the track of the last one.
    pub open spec fn engine_replaced(self) -> Step {
        let volume = allowed_volume(self.mpv.volume);
        Step {
            app: AppModel {
                mpv: MpvState { volume, ..fresh_state() },
                status: "MPV process respawned."@,
                ..self
            },
            effects: match self.current {
                Some(path) => seq![EffectModel::SetVolume(volume), EffectModel::Resume(path)],
                None => seq![EffectModel::SetVolume(volume)],
            },
        }
    }

    /// Whether the track has come to its end.
    pub open spec fn track_ended(self) -> bool {
        self.current is Some && self.mpv.idle
    }

    /// The next track is to be played where one has come to its end.
    pub open spec fn advanced(self) -> Step {
        if self.track_ended() {
            self.next_played()
        } else {
            quiet(self)
        }
    }
}

}

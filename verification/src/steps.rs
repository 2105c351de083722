//! What each request comes to: the selection, the queue and the track after it, and what is asked
//! of the surroundings.
use crate::double::{is_whole_number, less, small_whole_number_is_exact, Double};
use crate::entries::{shown, EntryModel};
use crate::keys::{AppAction, KeyCode, KeyEvent, MediaEvent, MediaKey};
use crate::laws::{distinct_paths, first_where_is_the_first, is_char, last_where_is_the_last};
use crate::model::{
    a_file, at_path, first_where, last_where, named_like, quiet, AppModel, EffectModel, Playback,
    ViewMode,
};
use crate::mpv::{CommandModel, HUNDRED, THREE, ZERO};
use crate::path::{
    display_name, file_name, is_plain_name, joined, joined_path_is_in_the_directory, parent, same_path,
};
use crate::text::{contains, lossy, lowercase, occurs_at};
use vstd::prelude::*;

verus! {

/// Whether `i` is the first entry with a path.
pub open spec fn is_first_at(s: Seq<EntryModel>, path: Seq<u8>, i: int) -> bool {
    &&& 0 <= i < s.len()
    &&& same_path(s[i].path, path)
    &&& forall|k: int| 0 <= k < i ==> !same_path((#[trigger] s[k]).path, path)
}

/// Whether no entry has a path.
pub open spec fn is_nowhere(s: Seq<EntryModel>, path: Seq<u8>) -> bool {
    forall|k: int| 0 <= k < s.len() ==> !same_path((#[trigger] s[k]).path, path)
}

/// Whether all entries from one place to another are directories.
pub open spec fn only_directories(s: Seq<EntryModel>, from: int, to: int) -> bool {
    forall|k: int| from <= k < to ==> (#[trigger] s[k]).is_dir
}

proof fn lemma_first_at(s: Seq<EntryModel>, path: Seq<u8>, i: int)
    requires
        is_first_at(s, path, i),
    ensures
        first_where(s, at_path(path), 0) == Some(i),
{
    first_where_is_the_first(s, at_path(path), 0);
    assert(at_path(path)(s[i]));
    let k = first_where(s, at_path(path), 0)->0;
    assert(at_path(path)(s[k]));
}

proof fn lemma_nowhere(s: Seq<EntryModel>, path: Seq<u8>)
    requires
        is_nowhere(s, path),
    ensures
        first_where(s, at_path(path), 0) is None,
{
    first_where_is_the_first(s, at_path(path), 0);
}

proof fn lemma_selected_path(a: AppModel, j: int)
    requires
        0 <= j < a.entries.len(),
    ensures
        ({
            let b = a.with_path_selected(a.entries[j].path);
            &&& is_first_at(a.entries, a.entries[j].path, b.selected_file)
            &&& b == AppModel { selected_file: b.selected_file, ..a }
            &&& distinct_paths(a.entries) ==> b.selected_file == j
        }),
{
    let p = at_path(a.entries[j].path);
    first_where_is_the_first(a.entries, p, 0);
    assert(p(a.entries[j]));
    let s = first_where(a.entries, p, 0)->0;
    if s < j && distinct_paths(a.entries) {
        assert(!same_path(a.entries[s].path, a.entries[j].path));
    }
}

// ---------------------------------------------------------------------------
// The next and the previous track
// ---------------------------------------------------------------------------

/// With an empty queue, and the track that is playing at `i`, the next track is the next file of
/// the directory, at `j`. It is asked for and nothing else is, and it is selected: the first entry
/// with its path, which is `j` where no two have one.
pub proof fn next_track_is_the_next_file(a: AppModel, track: Seq<u8>, i: int, j: int)
    requires
        a.queue.len() == 0,
        a.current == Some(track),
        is_first_at(a.entries, track, i),
        i < j < a.entries.len(),
        !a.entries[j].is_dir,
        only_directories(a.entries, i + 1, j),
    ensures
        ({
            let step = a.next_played();
            &&& step.effects == seq![EffectModel::Play(a.entries[j].path)]
            &&& is_first_at(a.entries, a.entries[j].path, step.app.selected_file)
            &&& distinct_paths(a.entries) ==> step.app.selected_file == j
            &&& step.app == AppModel { selected_file: step.app.selected_file, ..a }
        }),
{
    lemma_first_at(a.entries, track, i);
    first_where_is_the_first(a.entries, a_file(), i + 1);
    assert(a_file()(a.entries[j]));
    let k = first_where(a.entries, a_file(), i + 1)->0;
    if k < j {
        assert(a.entries[k].is_dir);
    }
    lemma_selected_path(a, j);
}

/// With an empty queue and no file behind the track that is playing, or with no such track, or
/// with one that is not listed, there is no next track: the playback is over, which the user and
/// the desktop are told.
pub proof fn without_a_next_track_the_playback_is_over(a: AppModel, i: int)
    requires
        a.queue.len() == 0,
        a.current is None || is_nowhere(a.entries, a.current->0) || {
            &&& is_first_at(a.entries, a.current->0, i)
            &&& only_directories(a.entries, i + 1, a.entries.len() as int)
        },
    ensures
        a.next_played().effects == seq![EffectModel::ClearArtwork, EffectModel::Report(Playback::Stopped)],
        a.next_played().app == (AppModel { current: None, status: "Playback finished"@, ..a }),
{
    if let Some(track) = a.current {
        if is_nowhere(a.entries, track) {
            lemma_nowhere(a.entries, track);
        } else {
            lemma_first_at(a.entries, track, i);
            first_where_is_the_first(a.entries, a_file(), i + 1);
            if let Some(k) = first_where(a.entries, a_file(), i + 1) {
                assert(a.entries[k].is_dir);
            }
        }
    }
}

/// A queue that is not empty gives the next track, whatever is playing: its first is asked for,
/// and leaves it. The selection in the queue stays, but not beyond the last that is left.
pub proof fn next_track_is_the_first_of_the_queue(a: AppModel)
    requires
        a.wf(),
        a.queue.len() > 0,
    ensures
        ({
            let step = a.next_played();
            let left = a.queue.len() - 1;
            &&& step.effects == seq![EffectModel::Play(a.queue[0])]
            &&& step.app.queue == a.queue.skip(1)
            &&& a.selected_queue < left ==> step.app.selected_queue == a.selected_queue
            &&& 0 < left <= a.selected_queue ==> step.app.selected_queue == left - 1
            &&& left == 0 ==> step.app.selected_queue == 0
            &&& step.app == AppModel {
                queue: step.app.queue,
                selected_queue: step.app.selected_queue,
                ..a
            }
        }),
{
    assert(a.queue.remove(0) =~= a.queue.skip(1));
}

/// When a track has come to its end, the player does by itself what it does for a request for the
/// next track, be there a queue or not. Otherwise it does nothing by itself.
pub proof fn end_of_a_track_is_a_request_for_the_next(a: AppModel)
    ensures
        a.current is Some && a.mpv.idle ==> a.advanced() == a.next_played(),
        a.current is None || !a.mpv.idle ==> {
            &&& a.advanced().app == a
            &&& a.advanced().effects == Seq::<EffectModel>::empty()
        },
{
}

/// With an empty queue, a track that has come to its end is followed by the next file of the
/// directory, which is selected.
pub proof fn ended_track_is_followed_by_the_next_file(a: AppModel, track: Seq<u8>, i: int, j: int)
    requires
        a.queue.len() == 0,
        a.current == Some(track),
        a.mpv.idle,
        distinct_paths(a.entries),
        is_first_at(a.entries, track, i),
        i < j < a.entries.len(),
        !a.entries[j].is_dir,
        only_directories(a.entries, i + 1, j),
    ensures
        a.advanced().effects == seq![EffectModel::Play(a.entries[j].path)],
        a.advanced().app == (AppModel { selected_file: j, ..a }),
{
    next_track_is_the_next_file(a, track, i, j);
}

/// With an empty queue, the end of the last file of the directory is the end of the playback.
pub proof fn end_of_the_last_file_ends_the_playback(a: AppModel, i: int)
    requires
        a.queue.len() == 0,
        a.current is Some,
        a.mpv.idle,
        is_nowhere(a.entries, a.current->0) || {
            &&& is_first_at(a.entries, a.current->0, i)
            &&& only_directories(a.entries, i + 1, a.entries.len() as int)
        },
    ensures
        a.advanced().app.current is None,
        a.advanced().app.status == "Playback finished"@,
        a.advanced().effects.last() == EffectModel::Report(Playback::Stopped),
        a.advanced().effects.contains(EffectModel::ClearArtwork),
{
    without_a_next_track_the_playback_is_over(a, i);
    assert(a.advanced().effects[0] == EffectModel::ClearArtwork);
}

/// Within its first three seconds, and with the track at `i`, going back asks for the file before
/// it, at `j`, and selects it.
pub proof fn previous_track_is_the_file_before(a: AppModel, track: Seq<u8>, i: int, j: int)
    requires
        !less(Double { bits: THREE }, a.mpv.time_pos),
        a.current == Some(track),
        is_first_at(a.entries, track, i),
        0 <= j < i,
        !a.entries[j].is_dir,
        only_directories(a.entries, j + 1, i),
    ensures
        ({
            let step = a.previous_played();
            &&& step.effects == seq![EffectModel::Play(a.entries[j].path)]
            &&& is_first_at(a.entries, a.entries[j].path, step.app.selected_file)
            &&& distinct_paths(a.entries) ==> step.app.selected_file == j
            &&& step.app == AppModel { selected_file: step.app.selected_file, ..a }
        }),
{
    lemma_first_at(a.entries, track, i);
    last_where_is_the_last(a.entries, a_file(), i);
    assert(a_file()(a.entries[j]));
    let k = last_where(a.entries, a_file(), i)->0;
    if k > j {
        assert(a.entries[k].is_dir);
    }
    lemma_selected_path(a, j);
}

/// Within its first three seconds, and with no file before the track, or with no track that is
/// listed, going back tells the user so and does nothing else.
pub proof fn without_a_previous_track_nothing_is_played(a: AppModel, i: int)
    requires
        !less(Double { bits: THREE }, a.mpv.time_pos),
        a.current is None || is_nowhere(a.entries, a.current->0) || {
            &&& is_first_at(a.entries, a.current->0, i)
            &&& only_directories(a.entries, 0, i)
        },
    ensures
        a.previous_played().effects == Seq::<EffectModel>::empty(),
        a.previous_played().app == (AppModel { status: "Top of list"@, ..a }),
{
    if let Some(track) = a.current {
        if is_nowhere(a.entries, track) {
            lemma_nowhere(a.entries, track);
        } else {
            lemma_first_at(a.entries, track, i);
            last_where_is_the_last(a.entries, a_file(), i);
            if let Some(k) = last_where(a.entries, a_file(), i) {
                assert(a.entries[k].is_dir);
            }
        }
    }
}

/// The bits of the numbers that the player goes by: zero, three seconds and a hundred percent.
pub proof fn numbers_are_what_they_are_called()
    ensures
        is_whole_number(Double { bits: ZERO }, 0),
        is_whole_number(Double { bits: THREE }, 3),
        is_whole_number(Double { bits: HUNDRED }, 100),
        ZERO == 0,
{
    small_whole_number_is_exact(0);
    small_whole_number_is_exact(3);
    small_whole_number_is_exact(100);
    vstd::arithmetic::power2::lemma2_to64();
    vstd::arithmetic::power2::lemma2_to64_rest();
    reveal_with_fuel(crate::double::top_bit, 8);
    assert(crate::double::nearest_double(3) == THREE);
    assert(crate::double::nearest_double(100) == HUNDRED);
}

// ---------------------------------------------------------------------------
// Opening, going up, listing
// ---------------------------------------------------------------------------

/// In the queue, opening the selected track has it played, and changes nothing in the player.
pub proof fn opening_in_the_queue_plays_the_selected_track(a: AppModel)
    requires
        a.mode == ViewMode::Queue,
        0 <= a.selected_queue < a.queue.len(),
    ensures
        a.entered().app == a,
        a.entered().effects == seq![EffectModel::Play(a.queue[a.selected_queue])],
{
}

/// Among the files, opening a file has it played, and changes nothing in the player.
pub proof fn opening_a_file_plays_it(a: AppModel)
    requires
        a.mode == ViewMode::Files,
        0 <= a.selected_file < a.entries.len(),
        !a.entries[a.selected_file].is_dir,
    ensures
        a.entered().app == a,
        a.entered().effects == seq![EffectModel::Play(a.entries[a.selected_file].path)],
{
}

/// Among the files, opening a directory goes to it and has it listed, and plays nothing.
pub proof fn opening_a_directory_goes_there(a: AppModel)
    requires
        a.mode == ViewMode::Files,
        0 <= a.selected_file < a.entries.len(),
        a.entries[a.selected_file].is_dir,
    ensures
        a.entered().app == (AppModel { current_dir: a.entries[a.selected_file].path, ..a }),
        a.entered().effects == seq![EffectModel::List(None)],
{
}

/// Where nothing is selected, and in the zen view, there is nothing to open.
pub proof fn nothing_to_open(a: AppModel)
    requires
        a.mode == ViewMode::Files ==> a.entries.len() <= a.selected_file,
        a.mode == ViewMode::Queue ==> a.queue.len() <= a.selected_queue,
    ensures
        a.entered().app == a,
        a.entered().effects == Seq::<EffectModel>::empty(),
{
}

/// Among the files, going up goes to the parent directory and has it listed, with the directory
/// that was left to be selected there.
pub proof fn going_up_goes_to_the_parent(a: AppModel, dir: Seq<u8>)
    requires
        a.mode == ViewMode::Files,
        parent(a.current_dir) == Some(dir),
    ensures
        a.parent_entered().app == (AppModel { current_dir: dir, ..a }),
        a.parent_entered().effects == seq![EffectModel::List(Some(a.current_dir))],
{
}

/// A listing replaces the entries and selects the first, and changes nothing else.
pub proof fn listing_replaces_the_entries(a: AppModel, found: Seq<EntryModel>)
    ensures
        a.refreshed(found).entries == shown(found),
        a.refreshed(found).selected_file == 0,
        a.refreshed(found) == (AppModel {
            entries: a.refreshed(found).entries,
            selected_file: a.refreshed(found).selected_file,
            ..a
        }),
{
}

/// To select a path selects the first entry that has it, and nothing where none has.
pub proof fn selecting_a_path_selects_its_entry(a: AppModel, path: Seq<u8>, i: int)
    ensures
        is_first_at(a.entries, path, i) ==> a.with_path_selected(path) == (AppModel { selected_file: i, ..a }),
        is_nowhere(a.entries, path) ==> a.with_path_selected(path) == a,
{
    if is_first_at(a.entries, path, i) {
        lemma_first_at(a.entries, path, i);
    }
    if is_nowhere(a.entries, path) {
        lemma_nowhere(a.entries, path);
    }
}

// ---------------------------------------------------------------------------
// Selecting, and the queue
// ---------------------------------------------------------------------------

/// Down selects the next entry or track of the list that is shown, up the one before; neither
/// goes beyond the ends, and nothing else changes.
pub proof fn moving_selects_the_neighbor(a: AppModel)
    requires
        a.wf(),
    ensures
        ({
            let down = a.moved_down();
            let up = a.moved_up();
            &&& down == AppModel { selected_file: down.selected_file, selected_queue: down.selected_queue, ..a }
            &&& up == AppModel { selected_file: up.selected_file, selected_queue: up.selected_queue, ..a }
            &&& a.mode != ViewMode::Files ==> {
                down.selected_file == a.selected_file && up.selected_file == a.selected_file
            }
            &&& a.mode != ViewMode::Queue ==> {
                down.selected_queue == a.selected_queue && up.selected_queue == a.selected_queue
            }
            &&& a.mode == ViewMode::Files && a.entries.len() > 0 ==> {
                &&& down.selected_file - a.selected_file == (if a.selected_file == a.entries.len() - 1 {
                    0int
                } else {
                    1
                })
                &&& a.selected_file - up.selected_file == (if a.selected_file == 0 {
                    0int
                } else {
                    1
                })
            }
            &&& a.mode == ViewMode::Queue && a.queue.len() > 0 ==> {
                &&& down.selected_queue - a.selected_queue == (if a.selected_queue == a.queue.len() - 1 {
                    0int
                } else {
                    1
                })
                &&& a.selected_queue - up.selected_queue == (if a.selected_queue == 0 {
                    0int
                } else {
                    1
                })
            }
            &&& a.entries.len() == 0 ==> down.selected_file == 0 && up.selected_file == 0
            &&& a.queue.len() == 0 ==> down.selected_queue == 0 && up.selected_queue == 0
        }),
{
}

/// In the queue view, moving a track down puts it in the place of the one behind it, and that one
/// in its own; the others stay, and it stays selected.
pub proof fn moving_a_track_down_changes_two_places(a: AppModel, k: int)
    requires
        a.mode == ViewMode::Queue,
        0 <= a.selected_queue,
        a.selected_queue + 1 < a.queue.len(),
        0 <= k < a.queue.len(),
    ensures
        ({
            let b = a.queue_moved_down();
            let at = a.selected_queue;
            &&& b.selected_queue == at + 1
            &&& b.queue.len() == a.queue.len()
            &&& b.queue[at + 1] == a.queue[at]
            &&& b.queue[at] == a.queue[at + 1]
            &&& k != at && k != at + 1 ==> b.queue[k] == a.queue[k]
            &&& b == AppModel { queue: b.queue, selected_queue: b.selected_queue, ..a }
        }),
{
}

/// In the queue view, moving a track up puts it in the place of the one before it, and that one
/// in its own; the others stay, and it stays selected.
pub proof fn moving_a_track_up_changes_two_places(a: AppModel, k: int)
    requires
        a.mode == ViewMode::Queue,
        0 < a.selected_queue < a.queue.len(),
        0 <= k < a.queue.len(),
    ensures
        ({
            let b = a.queue_moved_up();
            let at = a.selected_queue;
            &&& b.selected_queue == at - 1
            &&& b.queue.len() == a.queue.len()
            &&& b.queue[at - 1] == a.queue[at]
            &&& b.queue[at] == a.queue[at - 1]
            &&& k != at && k != at - 1 ==> b.queue[k] == a.queue[k]
            &&& b == AppModel { queue: b.queue, selected_queue: b.selected_queue, ..a }
        }),
{
}

/// At the end that it would go beyond, and in the other views, a track is not moved.
pub proof fn tracks_do_not_move_beyond_the_ends(a: AppModel)
    requires
        a.wf(),
    ensures
        a.mode != ViewMode::Queue || a.selected_queue == 0 ==> a.queue_moved_up() == a,
        a.mode != ViewMode::Queue || a.selected_queue + 1 >= a.queue.len() ==> a.queue_moved_down() == a,
{
}

/// Adding the selected file puts its path behind the queue, says so by its name, and selects the
/// next entry, if there is one.
pub proof fn adding_a_file_queues_it(a: AppModel)
    requires
        a.wf(),
        a.mode == ViewMode::Files,
        a.entries.len() > 0,
        !a.entries[a.selected_file].is_dir,
    ensures
        ({
            let b = a.selected_added();
            let path = a.entries[a.selected_file].path;
            &&& b.queue == a.queue + seq![path]
            &&& b.status == "Added to queue: "@ + display_name(path)
            &&& a.selected_file + 1 < a.entries.len() ==> b.selected_file == a.selected_file + 1
            &&& a.selected_file + 1 == a.entries.len() ==> b.selected_file == a.selected_file
            &&& b == AppModel { queue: b.queue, status: b.status, selected_file: b.selected_file, ..a }
        }),
{
    assert(a.selected_added().queue =~= a.queue + seq![a.entries[a.selected_file].path]);
}

/// A directory is not added, and in the other views nothing is.
pub proof fn only_files_are_added(a: AppModel)
    requires
        a.mode != ViewMode::Files || a.entries.len() <= a.selected_file
            || a.entries[a.selected_file].is_dir,
    ensures
        a.selected_added() == a,
{
}

/// In the queue view, removing takes the selected track out and says so by its name. The
/// selection stays in its place, which the next track has taken, or goes to the last that is left.
pub proof fn removing_takes_the_selected_track_out(a: AppModel, k: int)
    requires
        a.wf(),
        a.mode == ViewMode::Queue,
        a.queue.len() > 0,
        0 <= k < a.queue.len() - 1,
    ensures
        ({
            let b = a.selected_removed();
            &&& b.queue.len() == a.queue.len() - 1
            &&& b.queue[k] == a.queue[if k < a.selected_queue {
                k
            } else {
                k + 1
            }]
            &&& b.selected_queue == (if a.selected_queue == a.queue.len() - 1 {
                a.selected_queue - 1
            } else {
                a.selected_queue
            })
            &&& file_name(a.queue[a.selected_queue]) matches Some(name) ==> b.status
                == "Removed from queue: "@ + lossy(name)
            &&& file_name(a.queue[a.selected_queue]) is None ==> b.status == a.status
            &&& b == AppModel {
                queue: b.queue,
                selected_queue: b.selected_queue,
                status: b.status,
                ..a
            }
        }),
{
}

/// Removing the only track leaves an empty queue.
pub proof fn removing_the_only_track_empties_the_queue(a: AppModel)
    requires
        a.wf(),
        a.mode == ViewMode::Queue,
        a.queue.len() == 1,
    ensures
        a.selected_removed().queue == Seq::<Seq<u8>>::empty(),
        a.selected_removed().selected_queue == 0,
        file_name(a.queue[0]) matches Some(name) ==> a.selected_removed().status == "Removed from queue: "@
            + lossy(name),
{
    assert(a.selected_removed().queue =~= Seq::<Seq<u8>>::empty());
}

/// In the other views, and from an empty queue, nothing is removed.
pub proof fn nothing_to_remove(a: AppModel)
    requires
        a.mode != ViewMode::Queue || a.queue.len() == 0,
    ensures
        a.selected_removed() == a,
{
}

// ---------------------------------------------------------------------------
// The engine
// ---------------------------------------------------------------------------

/// When the engine has taken a track, that is the one that is playing, from its beginning: the
/// engine is busy, old notes are gone, and the desktop is told its title and album.
pub proof fn taken_track_is_the_current_one(a: AppModel, path: Seq<u8>)
    ensures
        ({
            let step = a.play_succeeded(path);
            &&& step.app.current == Some(path)
            &&& !step.app.mpv.idle
            &&& step.app.status == Seq::<char>::empty()
            &&& step.app.mpv.time_pos == a.mpv.time_pos
            &&& step.app.mpv.duration == a.mpv.duration
            &&& step.app.mpv.volume == a.mpv.volume
            &&& step.app.mpv.paused == a.mpv.paused
            &&& step.app == AppModel {
                current: step.app.current,
                mpv: step.app.mpv,
                status: step.app.status,
                ..a
            }
            &&& step.effects.len() == 3
            &&& step.effects[0] is Announce
            &&& step.effects[1] == EffectModel::Report(Playback::Playing(Double { bits: 0 }))
            &&& step.effects[2] == EffectModel::ShowArtwork(path)
        }),
{
}

/// The desktop is told, of a file in a directory in another, its name without the extension as
/// the title, and the name of its directory as the album.
pub proof fn track_is_announced_by_its_names(a: AppModel, dir: Seq<u8>, album: Seq<u8>, stem: Seq<u8>, ext: Seq<u8>)
    requires
        is_plain_name(album),
        is_plain_name(stem),
        is_plain_name(stem + seq![46u8] + ext),
        forall|i: int| 0 <= i < ext.len() ==> #[trigger] ext[i] != 46,
    ensures
        ({
            let path = joined(joined(dir, album), stem + seq![46u8] + ext);
            &&& a.play_succeeded(path).effects[0] matches EffectModel::Announce(m)
            && m.title == lossy(stem) && m.album == Some(lossy(album))
        }),
{
    let name = stem + seq![46u8] + ext;
    let path = joined(joined(dir, album), name);
    joined_path_is_in_the_directory(dir, album);
    joined_path_is_in_the_directory(joined(dir, album), name);
    crate::path::same_paths_have_the_same_name(parent(path)->0, joined(dir, album));
    crate::path::name_is_stem_and_extension(joined(dir, album), stem, ext);
}

/// A track that the engine could not be told to play is reported, with the reason.
pub proof fn failure_is_reported(a: AppModel, reason: Seq<char>)
    ensures
        a.play_failed(reason).app == (AppModel { status: "Error: "@ + reason, ..a }),
        a.play_failed(reason).effects == Seq::<EffectModel>::empty(),
{
}

/// To pause or go on is left to the engine; the desktop is told the state and the position that
/// the engine reported last.
pub proof fn pausing_is_left_to_the_engine(a: AppModel)
    ensures
        a.pause_toggled().app == a,
        a.pause_toggled().effects.len() == 2,
        a.pause_toggled().effects[0] == EffectModel::Send(CommandModel::CyclePause),
        a.mpv.paused ==> a.pause_toggled().effects[1] == EffectModel::Report(Playback::Paused(a.mpv.time_pos)),
        !a.mpv.paused ==> a.pause_toggled().effects[1] == EffectModel::Report(
            Playback::Playing(a.mpv.time_pos),
        ),
{
}

/// To stop has the engine stop, and leaves no track, no artwork and an idle engine; the queue and
/// all else stay.
pub proof fn stopping_leaves_no_track(a: AppModel)
    ensures
        ({
            let step = a.stopped();
            &&& step.app.current is None
            &&& step.app.mpv.idle
            &&& step.app.mpv.time_pos == a.mpv.time_pos
            &&& step.app.mpv.duration == a.mpv.duration
            &&& step.app.mpv.volume == a.mpv.volume
            &&& step.app.mpv.paused == a.mpv.paused
            &&& step.app == AppModel { current: step.app.current, mpv: step.app.mpv, ..a }
            &&& step.effects == seq![
                EffectModel::Send(CommandModel::Stop),
                EffectModel::ClearArtwork,
                EffectModel::Report(Playback::Stopped),
            ]
        }),
{
}

/// A volume that is set is in force at once: itself between zero and a hundred percent, and the
/// nearer of these outside. Nothing else changes.
pub proof fn volume_is_set_within_bounds(a: AppModel, v: Double)
    ensures
        ({
            let b = a.with_volume(v);
            &&& less(v, Double { bits: ZERO }) ==> b.mpv.volume == Double { bits: ZERO }
            &&& less(Double { bits: HUNDRED }, v) ==> b.mpv.volume == Double { bits: HUNDRED }
            &&& !less(v, Double { bits: ZERO }) && !less(Double { bits: HUNDRED }, v) ==> b.mpv.volume == v
            &&& b.mpv.time_pos == a.mpv.time_pos
            &&& b.mpv.duration == a.mpv.duration
            &&& b.mpv.paused == a.mpv.paused
            &&& b.mpv.idle == a.mpv.idle
            &&& b == AppModel { mpv: b.mpv, ..a }
        }),
{
}

/// A change of the volume is asked for and nothing else.
pub proof fn change_of_the_volume_is_asked_for(a: AppModel, by: int)
    ensures
        a.volume_changed(by).app == a,
        a.volume_changed(by).effects == seq![EffectModel::ChangeVolume(by)],
{
}

/// With no track, nothing is asked of the engine, and no seconds are counted.
pub proof fn without_a_track_there_is_no_seeking(a: AppModel, by: int)
    requires
        a.current is None,
    ensures
        a.seek_asked(by) == a,
        a.seek_processed().effects == Seq::<EffectModel>::empty(),
        a.seek_processed().app == (AppModel { pending_seek: 0, ..a }),
{
}

/// Counting seconds changes their count only, and asking the engine for them resets it only.
pub proof fn seeking_changes_the_count_only(a: AppModel, by: int)
    ensures
        a.seek_asked(by) == (AppModel { pending_seek: a.seek_asked(by).pending_seek, ..a }),
        a.seek_processed().app == (AppModel { pending_seek: 0, ..a }),
        a.pending_seek == 0 ==> a.seek_processed().effects == Seq::<EffectModel>::empty(),
{
}

/// An engine that has ended is reported. A new one knows nothing but the volume: it is idle, at
/// the beginning and not paused.
pub proof fn new_engine_starts_afresh(a: AppModel)
    ensures
        a.engine_lost() == (AppModel { status: "MPV died! Respawning process..."@, ..a }),
        ({
            let step = a.engine_replaced();
            &&& step.app.mpv.time_pos == Double { bits: 0 }
            &&& step.app.mpv.duration == Double { bits: 0 }
            &&& !step.app.mpv.paused
            &&& step.app.mpv.idle
            &&& step.app.mpv.volume == a.with_volume(a.mpv.volume).mpv.volume
            &&& step.app.status == "MPV process respawned."@
            &&& step.app.current == a.current
            &&& step.app == AppModel { mpv: step.app.mpv, status: step.app.status, ..a }
            &&& a.current is None ==> step.effects == seq![EffectModel::SetVolume(step.app.mpv.volume)]
            &&& a.current matches Some(path) ==> step.effects == seq![
                EffectModel::SetVolume(step.app.mpv.volume),
                EffectModel::Resume(path),
            ]
        }),
{
}

// ---------------------------------------------------------------------------
// The search
// ---------------------------------------------------------------------------

/// Whether an entry matches a search depends on its file name and not on where it is.
pub proof fn search_goes_by_the_file_name(dir: Seq<u8>, other: Seq<u8>, name: Seq<u8>, query: Seq<char>, b: bool, c: bool)
    requires
        is_plain_name(name),
    ensures
        ({
            let here = EntryModel { path: joined(dir, name), is_dir: b };
            let there = EntryModel { path: joined(other, name), is_dir: c };
            named_like(query)(here) == named_like(query)(there)
        }),
        named_like(lossy(name))(EntryModel { path: joined(dir, name), is_dir: b }),
        named_like(query)(EntryModel { path: joined(dir, name), is_dir: b }) <==> exists|at: int|
            #[trigger] occurs_at(lowercase(lossy(name)), lowercase(query), at),
{
    joined_path_is_in_the_directory(dir, name);
    joined_path_is_in_the_directory(other, name);
    let low = lowercase(lossy(name));
    assert(low.subrange(0, low.len() as int) =~= low);
    assert(occurs_at(low, low, 0));
}

/// A text matches where it stands anywhere in the name, letters of either case being the same.
/// `low` and `part` are the name and the text in lower case.
pub proof fn search_finds_the_text_anywhere(dir: Seq<u8>, name: Seq<u8>, query: Seq<char>, low: Seq<char>, part: Seq<char>)
    requires
        is_plain_name(name),
        lowercase(lossy(name)) == low,
        lowercase(query) == part,
    ensures
        named_like(query)(EntryModel { path: joined(dir, name), is_dir: false }) <==> exists|before: Seq<char>, after: Seq<char>|
            low == #[trigger] (before + part + after),
{
    search_goes_by_the_file_name(dir, dir, name, query, false, false);
    if exists|at: int| #[trigger] occurs_at(low, part, at) {
        let at = choose|at: int| #[trigger] occurs_at(low, part, at);
        let before = low.take(at);
        let after = low.skip(at + part.len());
        assert(low =~= before + part + after);
    }
    if exists|before: Seq<char>, after: Seq<char>| low == #[trigger] (before + part + after) {
        let (before, after) = choose|before: Seq<char>, after: Seq<char>| low == #[trigger] (before + part + after);
        assert(low.subrange(before.len() as int, (before.len() + part.len()) as int) =~= part);
        assert(occurs_at(low, part, before.len() as int));
    }
}

/// An empty search selects nothing else.
pub proof fn empty_search_selects_nothing(a: AppModel)
    requires
        a.search_query.len() == 0,
    ensures
        a.search_updated() == a,
{
}

/// While the user types a search: a character is put behind it, the backspace key takes the last
/// one away, and both select anew; the escape key ends and clears it, and the enter key ends it.
pub proof fn search_is_typed(a: AppModel, key: KeyEvent, c: char)
    requires
        !a.show_quit_popup,
        a.is_searching,
    ensures
        ({
            let b = a.key_pressed(key).app;
            &&& is_char(key, c) ==> b == (AppModel { search_query: a.search_query.push(c), ..a }).search_updated()
            &&& key.code == KeyCode::Backspace && a.search_query.len() > 0 ==> b == (AppModel {
                search_query: a.search_query.take(a.search_query.len() - 1),
                ..a
            }).search_updated()
            &&& key.code == KeyCode::Backspace && a.search_query.len() == 0 ==> b == a
            &&& key.code == KeyCode::Esc ==> b == AppModel {
                is_searching: false,
                search_query: Seq::empty(),
                ..a
            }
            &&& key.code == KeyCode::Enter ==> b == AppModel { is_searching: false, ..a }
            &&& !(key.code is Char) && key.code != KeyCode::Backspace && key.code != KeyCode::Esc && key.code
                != KeyCode::Enter ==> b == a
        }),
{
    if a.search_query.len() > 0 {
        assert(a.search_query.drop_last() =~= a.search_query.take(a.search_query.len() - 1));
    }
}

// ---------------------------------------------------------------------------
// What each key asks for
// ---------------------------------------------------------------------------

/// Whether the keys go to the player itself: it neither asks nor searches.
pub open spec fn takes_keys(a: AppModel) -> bool {
    !a.show_quit_popup && !a.is_searching
}

/// The keys that select, manage the queue and go through directories; letters and arrows that
/// stand for the same do the same.
pub proof fn keys_for_lists(a: AppModel, key: KeyEvent)
    requires
        takes_keys(a),
    ensures
        ({
            let step = a.key_pressed(key);
            &&& is_char(key, 'j') || key.code == KeyCode::Down ==> step == quiet(a.moved_down())
            &&& is_char(key, 'k') || key.code == KeyCode::Up ==> step == quiet(a.moved_up())
            &&& is_char(key, 'J') ==> step == quiet(a.queue_moved_down())
            &&& is_char(key, 'K') ==> step == quiet(a.queue_moved_up())
            &&& is_char(key, 'a') ==> step == quiet(a.selected_added())
            &&& is_char(key, 'd') ==> step == quiet(a.selected_removed())
            &&& is_char(key, 'l') || key.code == KeyCode::Enter ==> step == a.entered()
            &&& is_char(key, 'h') ==> step == a.parent_entered()
        }),
{
}

/// The keys of the playback.
pub proof fn keys_for_the_playback(a: AppModel, key: KeyEvent)
    requires
        takes_keys(a),
    ensures
        ({
            let step = a.key_pressed(key);
            &&& is_char(key, 'n') || key.code == KeyCode::Right && key.shift || key.code == KeyCode::Media(
                MediaKey::TrackNext,
            ) ==> step == a.next_played()
            &&& is_char(key, 'p') || key.code == KeyCode::Left && key.shift || key.code == KeyCode::Media(
                MediaKey::TrackPrevious,
            ) ==> step == a.previous_played()
            &&& is_char(key, ' ') || key.code == KeyCode::Media(MediaKey::Play) || key.code == KeyCode::Media(
                MediaKey::Pause,
            ) || key.code == KeyCode::Media(MediaKey::PlayPause) ==> step == a.pause_toggled()
            &&& is_char(key, 's') || key.code == KeyCode::Media(MediaKey::Stop) ==> step == a.stopped()
            &&& is_char(key, '+') || is_char(key, '=') ==> step == a.volume_changed(10)
            &&& is_char(key, '-') || is_char(key, '_') ==> step == a.volume_changed(-10)
            &&& key.code == KeyCode::Right && !key.shift ==> step == quiet(a.seek_asked(5))
            &&& key.code == KeyCode::Left && !key.shift ==> step == quiet(a.seek_asked(-5))
        }),
{
}

/// The keys of the views and of the search, which begins empty and among the files only.
pub proof fn keys_for_views(a: AppModel, key: KeyEvent)
    requires
        takes_keys(a),
    ensures
        ({
            let step = a.key_pressed(key);
            &&& is_char(key, '1') ==> step == quiet(AppModel { mode: ViewMode::Files, ..a })
            &&& is_char(key, '2') ==> step == quiet(AppModel { mode: ViewMode::Queue, ..a })
            &&& is_char(key, '3') ==> step == quiet(AppModel { mode: ViewMode::Zen, ..a })
            &&& is_char(key, '/') && a.mode == ViewMode::Files ==> step == quiet(
                AppModel { is_searching: true, search_query: Seq::empty(), ..a },
            )
            &&& is_char(key, '/') && a.mode != ViewMode::Files ==> step == quiet(a)
            &&& is_char(key, 'q') || key.code == KeyCode::Esc ==> step == quiet(
                AppModel { show_quit_popup: true, ..a },
            )
        }),
{
}

/// Whether a character is that of a key that asks for something.
pub open spec fn is_command_char(c: char) -> bool {
    ||| c == 'q' || c == '1' || c == '2' || c == '3' || c == '/'
    ||| c == 'J' || c == 'K' || c == 'a' || c == 'd' || c == 'j' || c == 'k' || c == 'l' || c == 'h'
    ||| c == ' ' || c == 's' || c == 'n' || c == 'p' || c == '+' || c == '=' || c == '-' || c == '_'
}

/// Every other key does nothing.
pub proof fn other_keys_do_nothing(a: AppModel, key: KeyEvent)
    requires
        takes_keys(a),
        match key.code {
            KeyCode::Char(c) => !is_command_char(c),
            KeyCode::Media(m) => m == MediaKey::Other,
            KeyCode::Backspace | KeyCode::Other => true,
            _ => false,
        },
    ensures
        a.key_pressed(key).app == a,
        a.key_pressed(key).effects == Seq::<EffectModel>::empty(),
{
}

/// The shift key matters for the arrows to the left and right only.
pub proof fn shift_matters_for_two_keys(a: AppModel, key: KeyEvent, other: KeyEvent)
    requires
        key.code == other.code,
        key.code != KeyCode::Left,
        key.code != KeyCode::Right,
    ensures
        a.key_pressed(key) == a.key_pressed(other),
{
}

/// The answers to the question whether to quit: yes quits, no takes the question back, and any
/// other key leaves it.
pub proof fn question_is_answered(a: AppModel, key: KeyEvent)
    requires
        a.show_quit_popup,
    ensures
        ({
            let b = a.key_pressed(key).app;
            let yes = is_char(key, 'y') || is_char(key, 'Y');
            let no = is_char(key, 'n') || is_char(key, 'N') || is_char(key, 'q') || key.code == KeyCode::Esc;
            &&& yes ==> b == AppModel { should_quit: true, ..a }
            &&& no ==> b == AppModel { show_quit_popup: false, ..a }
            &&& !yes && !no ==> b == a
        }),
{
}

/// What the desktop asks for does what the key for it does.
pub proof fn desktop_asks_as_keys_do(a: AppModel)
    ensures
        a.acted(AppAction::Next) == a.next_played(),
        a.acted(AppAction::Prev) == a.previous_played(),
        a.acted(AppAction::TogglePause) == a.pause_toggled(),
        a.acted(AppAction::Stop) == a.stopped(),
        crate::keys::action_for(MediaEvent::Play) == Some(AppAction::TogglePause),
        crate::keys::action_for(MediaEvent::Pause) == Some(AppAction::TogglePause),
        crate::keys::action_for(MediaEvent::Toggle) == Some(AppAction::TogglePause),
        crate::keys::action_for(MediaEvent::Next) == Some(AppAction::Next),
        crate::keys::action_for(MediaEvent::Previous) == Some(AppAction::Prev),
        crate::keys::action_for(MediaEvent::Stop) == Some(AppAction::Stop),
        crate::keys::action_for(MediaEvent::Other) is None,
{
}

/// The player starts in its directory with nothing listed, queued, selected or playing, an idle
/// engine at full volume, and the note about its theme.
pub proof fn player_starts_with_nothing(dir: Seq<u8>, note: Option<Seq<char>>)
    ensures
        ({
            let a = crate::app::started(dir, note);
            &&& a.current_dir == dir
            &&& a.entries.len() == 0 && a.selected_file == 0
            &&& a.queue.len() == 0 && a.selected_queue == 0
            &&& a.mode == ViewMode::Files
            &&& a.current is None
            &&& note matches Some(text) ==> a.status == text
            &&& note is None ==> a.status.len() == 0
            &&& takes_keys(a) && !a.should_quit
            &&& a.search_query.len() == 0 && a.pending_seek == 0
            &&& a.mpv.idle && !a.mpv.paused
            &&& a.mpv.time_pos == Double { bits: 0 } && a.mpv.duration == Double { bits: 0 }
            &&& is_whole_number(a.mpv.volume, 100)
        }),
{
    numbers_are_what_they_are_called();
}

}

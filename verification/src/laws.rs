//! What holds of the player whatever the user does.
use crate::double::{
    counting_by_fives_stops, is_whole_number, less, nearest_double, nearest_double_is_nearest_whole,
    nearest_whole, negated, small_whole_number_is_nearest, Double, EXACT_LIMIT,
};
use crate::entries::{shown, EntryModel};
use crate::keys::{AppAction, KeyCode, KeyEvent};
use crate::model::{
    a_file, at_path, first_where, last_where, named_like, quiet, AppModel, EffectModel, Playback, Step,
    ViewMode, SEEK_LIMIT, SEEK_STEP,
};
use crate::mpv::{allowed_volume, fresh_state, MpvState, HUNDRED, THREE, ZERO};
use crate::path::{is_plain_name, joined, joined_path_is_in_the_directory, parent, same_path};
use vstd::prelude::*;

verus! {

// ---------------------------------------------------------------------------
// Searching a list of entries
// ---------------------------------------------------------------------------

/// The first position is in range, meets the condition, and no position before it does.
pub proof fn first_where_is_the_first(s: Seq<EntryModel>, p: spec_fn(EntryModel) -> bool, from: int)
    requires
        0 <= from,
    ensures
        first_where(s, p, from) matches Some(i) ==> {
            &&& from <= i < s.len()
            &&& p(s[i])
            &&& forall|k: int| from <= k < i ==> !p(#[trigger] s[k])
        },
        first_where(s, p, from) is None ==> forall|k: int| from <= k < s.len() ==> !p(#[trigger] s[k]),
    decreases s.len() - from,
{
    if from < s.len() && !p(s[from]) {
        first_where_is_the_first(s, p, from + 1);
    }
}

/// The last position is in range, meets the condition, and no position behind it does.
pub proof fn last_where_is_the_last(s: Seq<EntryModel>, p: spec_fn(EntryModel) -> bool, end: int)
    requires
        end <= s.len(),
    ensures
        last_where(s, p, end) matches Some(i) ==> {
            &&& 0 <= i < end
            &&& p(s[i])
            &&& forall|k: int| i < k < end ==> !p(#[trigger] s[k])
        },
        last_where(s, p, end) is None ==> forall|k: int| 0 <= k < end ==> !p(#[trigger] s[k]),
    decreases end,
{
    if 0 < end && !p(s[end - 1]) {
        last_where_is_the_last(s, p, end - 1);
    }
}

// ---------------------------------------------------------------------------
// Selections
// ---------------------------------------------------------------------------

/// Selecting a path or the match of a search keeps the selections in their lists.
proof fn lemma_selecting_keeps_wf(a: AppModel, path: Seq<u8>)
    requires
        a.wf(),
    ensures
        a.with_path_selected(path).wf(),
        a.search_updated().wf(),
{
    first_where_is_the_first(a.entries, at_path(path), 0);
    first_where_is_the_first(a.entries, named_like(a.search_query), 0);
}

/// Playing the next or the previous track keeps the selections in their lists.
proof fn lemma_playing_keeps_wf(a: AppModel)
    requires
        a.wf(),
    ensures
        a.next_played().app.wf(),
        a.previous_played().app.wf(),
{
    if let Some(i) = a.next_entry() {
        lemma_selecting_keeps_wf(a, a.entries[i].path);
    }
    if let Some(i) = a.previous_entry() {
        lemma_selecting_keeps_wf(a, a.entries[i].path);
    }
}

/// Whatever key is pressed, and whatever the desktop asks for, the selections stay in their
/// lists.
pub proof fn selections_stay_in_their_lists(a: AppModel, key: KeyEvent, action: AppAction)
    requires
        a.wf(),
    ensures
        a.key_pressed(key).app.wf(),
        a.acted(action).app.wf(),
{
    lemma_playing_keeps_wf(a);
    seeking_stays_in_bounds(a.pending_seek + SEEK_STEP);
    seeking_stays_in_bounds(a.pending_seek - SEEK_STEP);
    if let KeyCode::Char(c) = key.code {
        lemma_selecting_keeps_wf(AppModel { search_query: a.search_query.push(c), ..a }, Seq::empty());
    }
    if key.code == KeyCode::Backspace {
        let query = if a.search_query.len() > 0 {
            a.search_query.drop_last()
        } else {
            a.search_query
        };
        lemma_selecting_keeps_wf(AppModel { search_query: query, ..a }, Seq::empty());
    }
}

/// Going down and then up selects what was selected, unless that was the last.
pub proof fn down_and_up(a: AppModel)
    requires
        a.wf(),
        a.mode == ViewMode::Files ==> a.selected_file + 1 < a.entries.len(),
        a.mode == ViewMode::Queue ==> a.selected_queue + 1 < a.queue.len(),
    ensures
        a.moved_down().moved_up() == a,
{
}

/// Going up and then down selects what was selected, unless that was the first.
pub proof fn up_and_down(a: AppModel)
    requires
        a.wf(),
        a.mode == ViewMode::Files ==> a.selected_file > 0,
        a.mode == ViewMode::Queue ==> a.selected_queue > 0,
    ensures
        a.moved_up().moved_down() == a,
{
}

// ---------------------------------------------------------------------------
// The queue
// ---------------------------------------------------------------------------

/// Moving a track in the queue neither adds nor loses one, and the track that was selected
/// still is.
pub proof fn moving_keeps_the_tracks(a: AppModel)
    requires
        a.wf(),
    ensures
        a.queue_moved_up().queue.to_multiset() == a.queue.to_multiset(),
        a.queue_moved_down().queue.to_multiset() == a.queue.to_multiset(),
        a.selected_queue < a.queue.len() ==> {
            &&& a.queue_moved_up().queue[a.queue_moved_up().selected_queue] == a.queue[a.selected_queue]
            &&& a.queue_moved_down().queue[a.queue_moved_down().selected_queue]
                == a.queue[a.selected_queue]
        },
{
    let at = a.selected_queue;
    if at > 0 {
        lemma_swap_keeps_all(a.queue, at, at - 1);
    }
    if at + 1 < a.queue.len() {
        lemma_swap_keeps_all(a.queue, at, at + 1);
    }
}

proof fn lemma_swap_keeps_all(s: Seq<Seq<u8>>, i: int, j: int)
    requires
        0 <= i < s.len(),
        0 <= j < s.len(),
    ensures
        s.update(i, s[j]).update(j, s[i]).to_multiset() == s.to_multiset(),
{
    broadcast use vstd::seq_lib::group_to_multiset_ensures;

    let t = s.update(i, s[j]);
    vstd::seq_lib::to_multiset_update(s, i, s[j]);
    vstd::seq_lib::to_multiset_update(t, j, s[i]);
    assert(s.to_multiset().contains(s[i]));
    assert(t.update(j, s[i]).to_multiset() =~= s.to_multiset());
}

/// Moving a track down and then up, or up and then down, leaves the queue as it was, unless
/// there was no place to move to.
pub proof fn moving_there_and_back(a: AppModel)
    requires
        a.wf(),
        a.mode == ViewMode::Queue,
    ensures
        a.selected_queue + 1 < a.queue.len() ==> a.queue_moved_down().queue_moved_up() == a,
        a.selected_queue > 0 ==> a.queue_moved_up().queue_moved_down() == a,
{
    if a.selected_queue + 1 < a.queue.len() {
        assert(a.queue_moved_down().queue_moved_up().queue =~= a.queue);
    }
    if a.selected_queue > 0 {
        assert(a.queue_moved_up().queue_moved_down().queue =~= a.queue);
    }
}

/// A file that is added stands at the end of the queue, behind what was in it, and only the
/// selection and the status change besides.
pub proof fn added_file_is_last(a: AppModel)
    requires
        a.wf(),
        a.mode == ViewMode::Files,
        a.selected_file < a.entries.len(),
        !a.entries[a.selected_file].is_dir,
    ensures
        a.selected_added().queue == a.queue.push(a.entries[a.selected_file].path),
        a.selected_added() == (AppModel {
            queue: a.selected_added().queue,
            status: a.selected_added().status,
            selected_file: a.selected_added().selected_file,
            ..a
        }),
{
}

/// Removing a track takes that one out and leaves the others in their order.
pub proof fn removing_takes_one(a: AppModel)
    requires
        a.wf(),
        a.mode == ViewMode::Queue,
        a.queue.len() > 0,
    ensures
        a.selected_removed().queue == a.queue.take(a.selected_queue) + a.queue.skip(a.selected_queue + 1),
        a.selected_removed().wf(),
{
    assert(a.selected_removed().queue =~= a.queue.take(a.selected_queue) + a.queue.skip(
        a.selected_queue + 1,
    ));
}

/// To add a file, go to the queue, select its last track and remove that leaves the queue as
/// it was.
pub proof fn added_file_can_be_removed(a: AppModel)
    requires
        a.wf(),
        a.mode == ViewMode::Files,
        a.selected_file < a.entries.len(),
        !a.entries[a.selected_file].is_dir,
    ensures
        ({
            let added = a.selected_added();
            let last = AppModel { mode: ViewMode::Queue, selected_queue: added.queue.len() - 1, ..added };
            last.selected_removed().queue == a.queue
        }),
{
    let added = a.selected_added();
    let last = AppModel { mode: ViewMode::Queue, selected_queue: added.queue.len() - 1, ..added };
    assert(last.selected_removed().queue =~= a.queue);
}

/// The player after so many requests for the next track.
pub open spec fn after_nexts(a: AppModel, n: nat) -> AppModel
    decreases n,
{
    if n == 0 {
        a
    } else {
        after_nexts(a, (n - 1) as nat).next_played().app
    }
}

/// A track that has come to its end is followed by the first of the queue.
pub proof fn ended_track_is_followed(a: AppModel)
    requires
        a.current is Some,
        a.mpv.idle,
        a.queue.len() > 0,
    ensures
        a.advanced().effects == seq![EffectModel::Play(a.queue[0])],
        a.advanced().app.queue == a.queue.drop_first(),
{
    assert(a.queue.remove(0) =~= a.queue.drop_first());
}

/// The tracks of the queue are played in their order, each once, before anything else, and
/// the queue is empty after them.
pub proof fn queue_is_played_in_order(a: AppModel, n: nat)
    requires
        n <= a.queue.len(),
    ensures
        after_nexts(a, n).queue == a.queue.skip(n as int),
        n < a.queue.len() ==> after_nexts(a, n).next_played().effects == seq![
            EffectModel::Play(a.queue[n as int]),
        ],
    decreases n,
{
    if n == 0 {
        assert(a.queue.skip(0) =~= a.queue);
    } else {
        queue_is_played_in_order(a, (n - 1) as nat);
        let before = after_nexts(a, (n - 1) as nat);
        assert(before.queue.remove(0) =~= a.queue.skip(n as int));
    }
}

// ---------------------------------------------------------------------------
// Playing
// ---------------------------------------------------------------------------

/// Whether no two entries have one path.
pub open spec fn distinct_paths(s: Seq<EntryModel>) -> bool {
    forall|i: int, j: int|
        #![trigger s[i], s[j]]
        0 <= i < j < s.len() ==> !same_path(s[i].path, s[j].path)
}

proof fn lemma_found_by_path(s: Seq<EntryModel>, i: int)
    requires
        distinct_paths(s),
        0 <= i < s.len(),
    ensures
        first_where(s, at_path(s[i].path), 0) == Some(i),
{
    let p = at_path(s[i].path);
    first_where_is_the_first(s, p, 0);
    assert(p(s[i]));
    let k = first_where(s, p, 0)->0;
    if k < i {
        assert(!same_path(s[k].path, s[i].path));
    }
}

/// With an empty queue the next track is the next file of the directory: it is selected, and
/// nothing between the two is a file.
pub proof fn next_file_follows(a: AppModel, i: int)
    requires
        distinct_paths(a.entries),
        a.queue.len() == 0,
        0 <= i < a.entries.len(),
        a.current == Some(a.entries[i].path),
        a.next_entry() is Some,
    ensures
        ({
            let j = a.next_entry()->0;
            &&& i < j < a.entries.len()
            &&& !a.entries[j].is_dir
            &&& forall|k: int| i < k < j ==> (#[trigger] a.entries[k]).is_dir
            &&& a.next_played().effects == seq![EffectModel::Play(a.entries[j].path)]
            &&& a.next_played().app == AppModel { selected_file: j, ..a }
        }),
{
    lemma_found_by_path(a.entries, i);
    first_where_is_the_first(a.entries, a_file(), i + 1);
    let j = a.next_entry()->0;
    lemma_found_by_path(a.entries, j);
    assert forall|k: int| i < k < j implies (#[trigger] a.entries[k]).is_dir by {
        assert(!a_file()(a.entries[k]));
    }
}

/// With an empty queue and no file behind the track that is playing the playback ends.
pub proof fn last_track_ends_the_playback(a: AppModel)
    requires
        a.queue.len() == 0,
        a.next_entry() is None,
    ensures
        a.next_played().app.current is None,
        a.next_played().effects == seq![EffectModel::ClearArtwork, EffectModel::Report(Playback::Stopped)],
        a.next_played().app.advanced() == quiet(a.next_played().app),
{
}

/// Going on to the next file and then back, within its first three seconds, plays and selects
/// the file that was playing.
pub proof fn next_and_back(a: AppModel, i: int)
    requires
        distinct_paths(a.entries),
        a.queue.len() == 0,
        0 <= i < a.entries.len(),
        !a.entries[i].is_dir,
        a.current == Some(a.entries[i].path),
        a.next_entry() is Some,
        !less(Double { bits: THREE }, a.mpv.time_pos),
    ensures
        ({
            let j = a.next_entry()->0;
            let b = a.next_played().app.play_succeeded(a.entries[j].path).app;
            &&& b.previous_played().effects == seq![EffectModel::Play(a.entries[i].path)]
            &&& b.previous_played().app.selected_file == i
        }),
{
    next_file_follows(a, i);
    let j = a.next_entry()->0;
    let b = a.next_played().app.play_succeeded(a.entries[j].path).app;
    lemma_found_by_path(a.entries, j);
    lemma_found_by_path(a.entries, i);
    last_where_is_the_last(b.entries, a_file(), j);
    assert(a_file()(a.entries[i]));
    let k = last_where(b.entries, a_file(), j)->0;
    if k > i {
        assert(a.entries[k].is_dir);
    }
}

/// After more than three seconds, going back goes to the beginning of the track and changes
/// nothing else.
pub proof fn back_starts_the_track_again(a: AppModel)
    requires
        less(Double { bits: THREE }, a.mpv.time_pos),
    ensures
        a.previous_played().app == a,
        a.previous_played().effects == seq![
            EffectModel::SeekBy(negated(a.mpv.time_pos)),
        ],
{
}

/// A track that the engine has taken has not ended, and what was stopped does not go on by
/// itself.
pub proof fn playing_goes_on_until_stopped(a: AppModel, path: Seq<u8>)
    ensures
        a.play_succeeded(path).app.current == Some(path),
        a.play_succeeded(path).app.advanced() == quiet(a.play_succeeded(path).app),
        a.stopped().app.current is None,
        a.stopped().app.advanced() == quiet(a.stopped().app),
{
}

/// A track that could not be played leaves the one that is playing, and all else but the
/// status.
pub proof fn failing_to_play_changes_the_status_only(a: AppModel, reason: Seq<char>)
    ensures
        a.play_failed(reason).effects.len() == 0,
        a.play_failed(reason).app == (AppModel { status: a.play_failed(reason).app.status, ..a }),
{
}

/// However far the user asks to go, what the counting double comes to stays in bounds.
pub proof fn seeking_stays_in_bounds(n: int)
    requires
        -SEEK_LIMIT - SEEK_STEP <= n <= SEEK_LIMIT + SEEK_STEP,
    ensures
        -SEEK_LIMIT <= nearest_whole(n) <= SEEK_LIMIT,
        -EXACT_LIMIT <= n <= EXACT_LIMIT ==> nearest_whole(n) == n,
{
    counting_by_fives_stops(n);
    if -EXACT_LIMIT <= n <= EXACT_LIMIT {
        small_whole_number_is_nearest(n);
    }
}

/// Asking to go forward and then back, or back and then forward, asks for nothing.
pub proof fn seeking_there_and_back(a: AppModel)
    requires
        a.wf(),
        a.current is Some,
        -EXACT_LIMIT + SEEK_STEP <= a.pending_seek <= EXACT_LIMIT - SEEK_STEP,
    ensures
        a.seek_asked(SEEK_STEP as int).seek_asked(-SEEK_STEP) == a,
        a.seek_asked(-SEEK_STEP).seek_asked(SEEK_STEP as int) == a,
{
    seeking_stays_in_bounds(a.pending_seek);
    seeking_stays_in_bounds(a.pending_seek + SEEK_STEP);
    seeking_stays_in_bounds(a.pending_seek - SEEK_STEP);
}

/// As long as a double counts the seconds exactly, a step changes them by its own.
pub proof fn seeking_adds_up(a: AppModel, by: int)
    requires
        a.current is Some,
        -EXACT_LIMIT <= a.pending_seek + by <= EXACT_LIMIT,
    ensures
        a.seek_asked(by).pending_seek == a.pending_seek + by,
{
    seeking_stays_in_bounds(a.pending_seek + by);
}

/// The engine is asked to go by the double that the pending seconds come to, which are these
/// seconds themselves as long as they are counted exactly.
pub proof fn seeking_asks_for_what_is_pending(a: AppModel)
    requires
        a.wf(),
        a.current is Some,
        a.pending_seek != 0,
    ensures
        ({
            let by = Double { bits: nearest_double(a.pending_seek) };
            &&& a.seek_processed().effects == seq![EffectModel::SeekBy(by)]
            &&& is_whole_number(by, nearest_whole(a.pending_seek))
            &&& -EXACT_LIMIT <= a.pending_seek <= EXACT_LIMIT ==> is_whole_number(by, a.pending_seek)
        }),
{
    seeking_stays_in_bounds(a.pending_seek);
    nearest_double_is_nearest_whole(a.pending_seek);
}

/// What was asked for is asked of the engine once.
pub proof fn seeking_is_done_once(a: AppModel)
    ensures
        a.seek_processed().app.pending_seek == 0,
        a.seek_processed().app.seek_processed() == quiet(a.seek_processed().app),
{
}

/// A new engine takes over the volume, as far as it is allowed, and the track; the rest of
/// the player stays as it is.
pub proof fn new_engine_takes_over(a: AppModel)
    ensures
        a.engine_replaced().app == (AppModel {
            mpv: (MpvState { volume: allowed_volume(a.mpv.volume), ..fresh_state() }),
            status: "MPV process respawned."@,
            ..a
        }),
        a.engine_replaced().effects[0] == EffectModel::SetVolume(allowed_volume(a.mpv.volume)),
        !less(a.mpv.volume, Double { bits: ZERO }) && !less(Double { bits: HUNDRED }, a.mpv.volume)
            ==> a.engine_replaced().app.mpv.volume == a.mpv.volume,
        a.current matches Some(path) ==> a.engine_replaced().effects[1] == EffectModel::Resume(path),
{
}

// ---------------------------------------------------------------------------
// Keys
// ---------------------------------------------------------------------------

/// Whether a key is that character.
pub open spec fn is_char(key: KeyEvent, c: char) -> bool {
    key.code == KeyCode::Char(c)
}

/// The player quits only when it has asked whether to, and the answer was yes.
pub proof fn quits_only_when_told_so(a: AppModel, key: KeyEvent)
    requires
        !a.should_quit,
    ensures
        a.key_pressed(key).app.should_quit <==> a.show_quit_popup && (is_char(key, 'y') || is_char(key, 'Y')),
{
}

/// The player never quits for what the desktop asks for.
pub proof fn desktop_cannot_quit(a: AppModel, action: AppAction)
    ensures
        a.acted(action).app.should_quit == a.should_quit,
        a.acted(action).app.show_quit_popup == a.show_quit_popup,
{
}

/// The player asks whether to quit only for `q` and the escape key, and not during a search.
pub proof fn asks_only_for_quit_keys(a: AppModel, key: KeyEvent)
    requires
        !a.show_quit_popup,
    ensures
        a.key_pressed(key).app.show_quit_popup <==> !a.is_searching && (is_char(key, 'q') || key.code
            == KeyCode::Esc),
{
}

/// While the player asks, keys do nothing but answer.
pub proof fn question_takes_all_keys(a: AppModel, key: KeyEvent)
    requires
        a.show_quit_popup,
    ensures
        a.key_pressed(key).effects.len() == 0,
        a.key_pressed(key).app == (AppModel {
            should_quit: a.key_pressed(key).app.should_quit,
            show_quit_popup: a.key_pressed(key).app.show_quit_popup,
            ..a
        }),
{
}

/// Asking to quit and answering no changes nothing.
pub proof fn quitting_can_be_taken_back(a: AppModel, ask: KeyEvent, no: KeyEvent)
    requires
        !a.show_quit_popup,
        !a.is_searching,
        is_char(ask, 'q') || ask.code == KeyCode::Esc,
        is_char(no, 'n') || is_char(no, 'N') || is_char(no, 'q') || no.code == KeyCode::Esc,
    ensures
        a.key_pressed(ask).app.key_pressed(no).app == a,
        a.key_pressed(ask).effects.len() == 0,
        a.key_pressed(ask).app.key_pressed(no).effects.len() == 0,
{
}

/// During a search, keys change the search and the selected file only.
pub proof fn search_takes_all_keys(a: AppModel, key: KeyEvent)
    requires
        !a.show_quit_popup,
        a.is_searching,
    ensures
        a.key_pressed(key).effects.len() == 0,
        a.key_pressed(key).app == (AppModel {
            search_query: a.key_pressed(key).app.search_query,
            is_searching: a.key_pressed(key).app.is_searching,
            selected_file: a.key_pressed(key).app.selected_file,
            ..a
        }),
{
}

/// Where an entry's name holds the text of the search, the first such entry is selected; else
/// the selection stays.
pub proof fn search_selects_the_first_match(a: AppModel)
    requires
        a.search_query.len() > 0,
    ensures
        ({
            let b = a.search_updated();
            let like = named_like(a.search_query);
            if exists|i: int| 0 <= i < a.entries.len() && like(#[trigger] a.entries[i]) {
                &&& 0 <= b.selected_file < a.entries.len()
                &&& like(a.entries[b.selected_file])
                &&& forall|k: int| 0 <= k < b.selected_file ==> !like(#[trigger] a.entries[k])
            } else {
                b == a
            }
        }),
{
    first_where_is_the_first(a.entries, named_like(a.search_query), 0);
}

/// The backspace key takes back the character that was typed last.
pub proof fn backspace_takes_back(a: AppModel, c: char)
    ensures
        a.search_key(KeyCode::Char(c)).search_key(KeyCode::Backspace).search_query == a.search_query,
{
    assert(a.search_query.push(c).drop_last() =~= a.search_query);
}

/// A search that is begun and given up at once changes nothing but the last search.
pub proof fn search_can_be_given_up(a: AppModel, begin: KeyEvent, esc: KeyEvent)
    requires
        !a.show_quit_popup,
        !a.is_searching,
        a.mode == ViewMode::Files,
        is_char(begin, '/'),
        esc.code == KeyCode::Esc,
    ensures
        a.key_pressed(begin).app.is_searching,
        a.key_pressed(begin).app.key_pressed(esc).app == (AppModel { search_query: Seq::empty(), ..a }),
{
}

// ---------------------------------------------------------------------------
// The desktop
// ---------------------------------------------------------------------------

/// The player when its surroundings have done what a step asks for. Where the step has a track
/// played, `failure` is the reason why the engine could not be told to, if it could not.
pub open spec fn settled(step: Step, failure: Option<Seq<char>>) -> AppModel {
    if step.effects.len() == 1 && step.effects[0] is Play {
        match failure {
            Some(reason) => step.app.play_failed(reason).app,
            None => step.app.play_succeeded(step.effects[0]->Play_0).app,
        }
    } else {
        step.app
    }
}

/// The player when it has done several things that the desktop asked for, one behind the other.
/// `failures` holds for each what it holds for one.
pub open spec fn after_actions(a: AppModel, actions: Seq<AppAction>, failures: Seq<Option<Seq<char>>>) -> AppModel
    decreases actions.len(),
{
    if actions.len() == 0 {
        a
    } else {
        settled(
            after_actions(a, actions.drop_last(), failures).acted(actions.last()),
            failures[actions.len() - 1],
        )
    }
}

proof fn lemma_settling_keeps_wf(a: AppModel, action: AppAction, failure: Option<Seq<char>>)
    requires
        a.wf(),
    ensures
        settled(a.acted(action), failure).wf(),
{
    lemma_playing_keeps_wf(a);
}

/// What the desktop asked for is done in its order: to do the first of it and then the rest is
/// to do all of it. Nothing is done where nothing was asked for. The selections stay in their
/// lists, and nothing of it quits the player.
pub proof fn actions_are_done_in_order(
    a: AppModel,
    actions: Seq<AppAction>,
    failures: Seq<Option<Seq<char>>>,
)
    requires
        a.wf(),
        actions.len() == failures.len(),
    ensures
        actions.len() == 0 ==> after_actions(a, actions, failures) == a,
        actions.len() > 0 ==> after_actions(a, actions, failures) == after_actions(
            settled(a.acted(actions[0]), failures[0]),
            actions.drop_first(),
            failures.drop_first(),
        ),
        after_actions(a, actions, failures).wf(),
        after_actions(a, actions, failures).should_quit == a.should_quit,
        after_actions(a, actions, failures).show_quit_popup == a.show_quit_popup,
    decreases actions.len(),
{
    if actions.len() > 0 {
        let front = actions.drop_last();
        let before = after_actions(a, front, failures);
        actions_are_done_in_order(a, front, failures.drop_last());
        lemma_failures_behind_do_not_count(a, front, failures, failures.drop_last());
        lemma_settling_keeps_wf(before, actions.last(), failures[actions.len() - 1]);
        if actions.len() == 1 {
            reveal_with_fuel(after_actions, 2);
        } else {
            let b = settled(a.acted(actions[0]), failures[0]);
            let rest = actions.drop_first();
            assert(rest.drop_last() =~= front.drop_first());
            assert(failures.drop_last().drop_first() =~= failures.drop_first().drop_last());
            lemma_failures_behind_do_not_count(
                b,
                rest.drop_last(),
                failures.drop_first(),
                failures.drop_first().drop_last(),
            );
        }
    }
}

/// What became of later actions does not matter for earlier ones.
proof fn lemma_failures_behind_do_not_count(
    a: AppModel,
    actions: Seq<AppAction>,
    f: Seq<Option<Seq<char>>>,
    g: Seq<Option<Seq<char>>>,
)
    requires
        actions.len() <= f.len(),
        actions.len() <= g.len(),
        forall|i: int| 0 <= i < actions.len() ==> f[i] == g[i],
    ensures
        after_actions(a, actions, f) == after_actions(a, actions, g),
    decreases actions.len(),
{
    if actions.len() > 0 {
        lemma_failures_behind_do_not_count(a, actions.drop_last(), f, g);
    }
}

// ---------------------------------------------------------------------------
// Directories
// ---------------------------------------------------------------------------

/// Opening a directory below the current one and going to its parent leads back to the current
/// one, whatever was found in the meantime.
pub proof fn open_and_back(a: AppModel, name: Seq<u8>, found: Seq<EntryModel>)
    requires
        a.wf(),
        a.mode == ViewMode::Files,
        a.selected_file < a.entries.len(),
        a.entries[a.selected_file].is_dir,
        is_plain_name(name),
        a.entries[a.selected_file].path == joined(a.current_dir, name),
    ensures
        ({
            let opened = a.entered().app.refreshed(found);
            let back = opened.parent_entered();
            &&& opened.current_dir == joined(a.current_dir, name)
            &&& same_path(back.app.current_dir, a.current_dir)
            &&& back.effects == seq![EffectModel::List(Some(opened.current_dir))]
        }),
{
    joined_path_is_in_the_directory(a.current_dir, name);
}

/// Going to the parent directory selects the directory that was left, if it is shown there,
/// and opening that leads back to it.
pub proof fn parent_and_back(a: AppModel, found: Seq<EntryModel>)
    requires
        a.mode == ViewMode::Files,
        parent(a.current_dir) is Some,
        distinct_paths(shown(found)),
        exists|i: int|
            0 <= i < shown(found).len() && same_path((#[trigger] shown(found)[i]).path, a.current_dir)
                && shown(found)[i].is_dir,
    ensures
        ({
            let b = a.parent_entered().app.refreshed(found).with_path_selected(a.current_dir);
            &&& a.parent_entered().effects == seq![EffectModel::List(Some(a.current_dir))]
            &&& Some(b.current_dir) == parent(a.current_dir)
            &&& 0 <= b.selected_file < b.entries.len()
            &&& same_path(b.entries[b.selected_file].path, a.current_dir)
            &&& same_path(b.entered().app.current_dir, a.current_dir)
            &&& b.entered().effects == seq![EffectModel::List(None)]
        }),
{
    let s = shown(found);
    let p = at_path(a.current_dir);
    let i = choose|i: int|
        0 <= i < s.len() && same_path((#[trigger] s[i]).path, a.current_dir) && s[i].is_dir;
    first_where_is_the_first(s, p, 0);
    assert(p(s[i]));
    let k = first_where(s, p, 0)->0;
    if k < i {
        assert(!same_path(s[k].path, s[i].path));
    }
}

/// Without a parent, and in the other views, going to the parent directory does nothing.
pub proof fn root_has_no_parent(a: AppModel)
    requires
        a.mode != ViewMode::Files || parent(a.current_dir) is None,
    ensures
        a.parent_entered() == quiet(a),
{
}

}

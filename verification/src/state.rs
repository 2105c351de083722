//! What the player remembers from one session to the next.
use crate::app::{effect_models, step_taken, App, Effect};
use crate::double::{
    is_whole_number, less, nearest_double, small_whole_number_is_exact, whole_number_is_not_rounded,
    whole_part, whole_percentage_is_in_bounds, Double, EXACT_LIMIT,
};
use crate::entries::{entry_models, shown, Entry, EntryModel};
use crate::json::{
    array_value, double_bits, double_of, field, fields_of, get_field, is_exact, is_printable,
    is_record, items_of, json, json_read, json_text, jsons, object_value, read_json, text_field,
    text_of, text_value, unsigned_of, unsigned_value, whole_text, write_json, Json, Number,
};
use crate::model::{AppModel, EffectModel, Step, ViewMode};
use crate::mpv::{
    allowed_volume, null_value, number_json, number_value, path_views, HUNDRED, ZERO,
};
use crate::path::{joined, FilePath};
use crate::text::{push_signed_decimal, utf8_text};
use vstd::prelude::*;
use vstd::string::*;
use vstd::utf8::*;

verus! {

/// What was remembered. What a file does not hold, or not as it should, is missing.
#[verifier::ext_equal]
pub struct SavedModel {
    pub current_dir: Option<Seq<u8>>,
    pub queue: Option<Seq<Seq<u8>>>,
    /// The bits of the volume.
    pub volume: Option<u64>,
    pub mode: Option<ViewMode>,
}

/// What was remembered.
pub struct SavedState {
    pub current_dir: Option<FilePath>,
    pub queue: Option<Vec<FilePath>>,
    pub volume: Option<u64>,
    pub mode: Option<ViewMode>,
}

impl View for SavedState {
    type V = SavedModel;

    open spec fn view(&self) -> SavedModel {
        SavedModel {
            current_dir: match self.current_dir {
                Some(p) => Some(p@),
                None => None,
            },
            queue: match self.queue {
                Some(q) => Some(path_views(q@)),
                None => None,
            },
            volume: self.volume,
            mode: self.mode,
        }
    }
}

// ---------------------------------------------------------------------------
// Saving
// ---------------------------------------------------------------------------

/// The number that stands for a view.
pub open spec fn mode_number(mode: ViewMode) -> u64 {
    match mode {
        ViewMode::Files => 1,
        ViewMode::Queue => 2,
        ViewMode::Zen => 3,
    }
}

/// The view that a number stands for.
pub open spec fn mode_of(n: u64) -> ViewMode {
    if n == 2 {
        ViewMode::Queue
    } else if n == 3 {
        ViewMode::Zen
    } else {
        ViewMode::Files
    }
}

/// Whether all paths are texts.
pub open spec fn all_texts(paths: Seq<Seq<u8>>) -> bool {
    forall|i: int| 0 <= i < paths.len() ==> valid_utf8(#[trigger] paths[i])
}

/// Paths that are texts as JSON values.
pub open spec fn path_jsons(paths: Seq<Seq<u8>>) -> Seq<Json> {
    paths.map_values(|p: Seq<u8>| Json::Text(decode_utf8(p)))
}

/// Whether a volume is a small whole number.
pub open spec fn is_whole_volume(v: Double) -> bool {
    whole_part(v) <= u32::MAX && v.bits == nearest_double(whole_part(v) as int)
}

/// Whether a volume can be saved: it is a small whole number, or a text is the JSON text of it.
pub open spec fn can_save_volume(v: Double, text: Seq<char>) -> bool {
    is_whole_volume(v) || double_of(Some(number_json(text))) == Some(v.bits)
}

/// A volume as a JSON value. Where it is no small whole number it is given by its JSON text,
/// and a text that says something else counts for nothing.
pub open spec fn volume_json(v: Double, text: Seq<char>) -> Json {
    if is_whole_volume(v) {
        Json::Number(Number::Double(v.bits))
    } else if can_save_volume(v, text) {
        number_json(text)
    } else {
        Json::Null
    }
}

/// The player's state as a JSON value; `volume` is the JSON text of the volume.
pub open spec fn state_json(a: AppModel, volume: Seq<char>) -> Json {
    Json::Object(
        Map::empty().insert("current_dir"@, Json::Text(decode_utf8(a.current_dir))).insert(
            "queue"@,
            Json::Array(path_jsons(a.queue)),
        ).insert("volume"@, volume_json(a.mpv.volume, volume)).insert(
            "mode"@,
            Json::Number(Number::Unsigned(mode_number(a.mode))),
        ),
    )
}

/// Whether the player's state can be saved: its paths are texts.
pub open spec fn can_save(a: AppModel) -> bool {
    valid_utf8(a.current_dir) && all_texts(a.queue)
}

/// Paths as JSON values, if they are texts.
fn path_values(paths: &Vec<FilePath>) -> (r: Option<Vec<serde_json::Value>>)
    ensures
        r is Some <==> all_texts(path_views(paths@)),
        r matches Some(values) ==> jsons(values@) == path_jsons(path_views(paths@)),
{
    let ghost all = path_views(paths@);
    let mut out: Vec<serde_json::Value> = Vec::new();
    let mut i: usize = 0;
    while i < paths.len()
        invariant
            all == path_views(paths@),
            i <= paths@.len(),
            out@.len() == i,
            forall|k: int| 0 <= k < i ==> valid_utf8(#[trigger] all[k]),
            forall|k: int| 0 <= k < i ==> json(#[trigger] out@[k]) == Json::Text(decode_utf8(all[k])),
        decreases paths@.len() - i,
    {
        assert(all[i as int] == paths@[i as int]@);
        match utf8_text(paths[i].bytes.as_slice()) {
            Some(text) => {
                out.push(text_value(text));
            },
            None => {
                return None;
            },
        }
        i = i + 1;
    }
    assert(jsons(out@) =~= path_jsons(all));
    Some(out)
}

/// A volume as a JSON value.
fn volume_value(v: Double, text: &str) -> (r: serde_json::Value)
    ensures
        json(r) == volume_json(v, text@),
{
    let n: u64 = v.whole_part();
    if n <= u32::MAX as u64 {
        let mut whole: String = String::new();
        push_signed_decimal(&mut whole, n as i64);
        whole.append(".0");
        assert(whole@ =~= whole_text(n as int));
        let value: serde_json::Value = number_value(whole.as_str());
        assert(json(value) == Json::Number(Number::Double(nearest_double(n as int))));
        if let Some(bits) = double_bits(&value) {
            if bits == v.bits {
                return value;
            }
        }
    }
    let value: serde_json::Value = number_value(text);
    match double_bits(&value) {
        Some(bits) => if bits == v.bits {
            value
        } else {
            null_value()
        },
        None => null_value(),
    }
}

/// What a saved state remembers of a player.
pub open spec fn remembered(a: AppModel, volume: Seq<char>) -> SavedModel {
    SavedModel {
        current_dir: Some(a.current_dir),
        queue: Some(a.queue),
        volume: if can_save_volume(a.mpv.volume, volume) {
            Some(a.mpv.volume.bits)
        } else {
            None
        },
        mode: Some(a.mode),
    }
}

impl App {
    /// The text of the file that remembers the player's state; `volume` is the JSON text of the
    /// volume, and needed only where that is no small whole number. There is no such file where
    /// a path is no text. Reading the file gives the state back.
    pub fn save_state(&self, volume: &str) -> (r: Option<String>)
        ensures
            r is Some <==> can_save(self@),
            r matches Some(text) ==> {
                &&& text@ == json_text(state_json(self@, volume@))
                &&& is_printable(text@)
                &&& saved_text(text@) == Some(remembered(self@, volume@))
            },
    {
        let dir: &str = match utf8_text(self.current_dir.bytes.as_slice()) {
            Some(text) => text,
            None => {
                return None;
            },
        };
        let queue: Vec<serde_json::Value> = match path_values(&self.queue) {
            Some(values) => values,
            None => {
                return None;
            },
        };
        let mode: u64 = match self.mode {
            ViewMode::Files => 1,
            ViewMode::Queue => 2,
            ViewMode::Zen => 3,
        };
        let mut pairs: Vec<(String, serde_json::Value)> = Vec::new();
        pairs.push(("current_dir".to_owned(), text_value(dir)));
        let ghost p1 = pairs@;
        pairs.push(("queue".to_owned(), array_value(queue)));
        let ghost p2 = pairs@;
        pairs.push(("volume".to_owned(), volume_value(self.mpv.volume, volume)));
        let ghost p3 = pairs@;
        pairs.push(("mode".to_owned(), unsigned_value(mode)));
        proof {
            reveal_with_fuel(fields_of, 5);
            assert(pairs@.drop_last() =~= p3);
            assert(p3.drop_last() =~= p2);
            assert(p2.drop_last() =~= p1);
            assert(p1.drop_last() =~= Seq::<(String, serde_json::Value)>::empty());
        }
        let v: serde_json::Value = object_value(pairs);
        proof {
            saved_state_is_read_back(self@, volume@);
        }
        Some(write_json(&v))
    }
}

// ---------------------------------------------------------------------------
// Loading
// ---------------------------------------------------------------------------

/// The paths that the texts among some JSON values name.
pub open spec fn named_paths(items: Seq<Json>) -> Seq<Seq<u8>>
    decreases items.len(),
{
    if items.len() == 0 {
        Seq::empty()
    } else {
        match items.last() {
            Json::Text(s) => named_paths(items.drop_last()).push(encode_utf8(s)),
            _ => named_paths(items.drop_last()),
        }
    }
}

/// What a JSON value remembers.
pub open spec fn saved_in(v: Json) -> SavedModel {
    SavedModel {
        current_dir: match text_of(field(v, "current_dir"@)) {
            Some(s) => Some(encode_utf8(s)),
            None => None,
        },
        queue: match items_of(field(v, "queue"@)) {
            Some(items) => Some(named_paths(items)),
            None => None,
        },
        volume: double_of(field(v, "volume"@)),
        mode: match unsigned_of(field(v, "mode"@)) {
            Some(n) => Some(mode_of(n)),
            None => None,
        },
    }
}

/// Whether a volume that was read is exact, where it was a small whole number.
pub open spec fn volume_is_exact(r: Result<Json, Seq<char>>, saved: SavedModel) -> bool {
    r matches Ok(v) ==> field(v, "volume"@) matches Some(n) ==> is_exact(saved.volume, n)
}

/// What the text of a file remembers, if it is JSON.
pub open spec fn saved_text(text: Seq<char>) -> Option<SavedModel> {
    match json_read(text) {
        Ok(v) => Some(saved_in(v)),
        Err(_) => None,
    }
}

impl SavedState {
    /// What a JSON value remembers. A volume that is a small whole number is exact.
    pub fn from_json(v: &serde_json::Value) -> (r: SavedState)
        ensures
            r@ == saved_in(json(*v)),
            field(json(*v), "volume"@) matches Some(n) ==> is_exact(r@.volume, n),
    {
        let current_dir: Option<FilePath> = match text_field(v, "current_dir") {
            Some(s) => Some(FilePath::from_text(s.as_str())),
            None => None,
        };
        let queue: Option<Vec<FilePath>> = match get_field(v, "queue") {
            Some(q) => match q.as_array() {
                Some(items) => Some(paths_named_by(items)),
                None => None,
            },
            None => None,
        };
        let volume: Option<u64> = match get_field(v, "volume") {
            Some(n) => double_bits(n),
            None => None,
        };
        let mode: Option<ViewMode> = match get_field(v, "mode") {
            Some(n) => match n.as_u64() {
                Some(k) => Some(
                    if k == 2 {
                        ViewMode::Queue
                    } else if k == 3 {
                        ViewMode::Zen
                    } else {
                        ViewMode::Files
                    },
                ),
                None => None,
            },
            None => None,
        };
        proof {
            if let Some(Json::Number(Number::Unsigned(n))) = field(json(*v), "volume"@) {
                if n <= EXACT_LIMIT {
                    small_whole_number_is_exact(n as int);
                }
            }
            if let Some(Json::Number(Number::Negative(n))) = field(json(*v), "volume"@) {
                if -EXACT_LIMIT <= n < 0 {
                    small_whole_number_is_exact(n as int);
                }
            }
        }
        SavedState { current_dir, queue, volume, mode }
    }

    /// What the text of a file remembers, if it is JSON. A volume that is a small whole number
    /// is exact.
    pub fn read(text: &str) -> (r: Option<SavedState>)
        ensures
            r matches Some(saved) ==> volume_is_exact(json_read(text@), saved@),
            saved_text(text@) == (match r {
                Some(saved) => Some(saved@),
                None => None,
            }),
    {
        match read_json(text) {
            Ok(v) => Some(SavedState::from_json(&v)),
            Err(_) => None,
        }
    }
}

/// The paths that the texts among some JSON values name.
fn paths_named_by(items: &Vec<serde_json::Value>) -> (r: Vec<FilePath>)
    ensures
        path_views(r@) == named_paths(jsons(items@)),
{
    let ghost all = jsons(items@);
    let mut out: Vec<FilePath> = Vec::new();
    let mut i: usize = 0;
    assert(path_views(out@) =~= named_paths(all.take(0)));
    while i < items.len()
        invariant
            all == jsons(items@),
            i <= items@.len(),
            path_views(out@) == named_paths(all.take(i as int)),
        decreases items@.len() - i,
    {
        let ghost before = out@;
        assert(all.take(i + 1).drop_last() =~= all.take(i as int));
        assert(all.take(i + 1).last() == json(items@[i as int]));
        if let Some(s) = items[i].as_str() {
            out.push(FilePath::from_text(s));
            assert(path_views(out@) =~= path_views(before).push(encode_utf8(s@)));
        }
        i = i + 1;
    }
    assert(all.take(i as int) =~= all);
    out
}

impl AppModel {
    /// What was remembered is in force again. `found` is what was found in the remembered
    /// directory, if that is one still.
    pub open spec fn restored(self, saved: SavedModel, found: Option<Seq<EntryModel>>) -> Step {
        let a = match (saved.current_dir, found) {
            (Some(dir), Some(f)) => (AppModel { current_dir: dir, ..self }).refreshed(f),
            _ => self,
        };
        let b = match saved.queue {
            Some(q) => AppModel { queue: q, ..a },
            None => a,
        };
        let c = match saved.volume {
            Some(bits) => b.with_volume(Double { bits }),
            None => b,
        };
        let d = match saved.mode {
            Some(mode) => AppModel { mode, ..c },
            None => c,
        };
        Step {
            app: d,
            effects: match saved.volume {
                Some(bits) => seq![EffectModel::SetVolume(allowed_volume(Double { bits }))],
                None => Seq::empty(),
            },
        }
    }
}

impl App {
    /// Puts what was remembered in force again. The selection in the queue stays where it is,
    /// which at the start of a session is the beginning.
    pub fn load_state(&mut self, saved: SavedState, found: Option<&Vec<Entry>>) -> (r: Vec<Effect>)
        requires
            old(self)@.wf(),
        ensures
            final(self)@.wf() <==> old(self)@.selected_queue == 0 || old(self)@.selected_queue
                < final(self)@.queue.len(),
            step_taken(
                *old(self),
                *final(self),
                r@,
                old(self)@.restored(
                    saved@,
                    (match found {
                        Some(f) => Some(entry_models(f@)),
                        None => None,
                    }),
                ),
            ),
    {
        if let Some(dir) = saved.current_dir {
            if let Some(f) = found {
                self.current_dir = dir;
                self.refresh_entries(f);
            }
        }
        if let Some(q) = saved.queue {
            self.queue = q;
        }
        let mut out: Vec<Effect> = Vec::new();
        if let Some(bits) = saved.volume {
            let v: Double = self.mpv.set_volume(Double { bits });
            out.push(Effect::SetVolume(v));
        }
        if let Some(mode) = saved.mode {
            self.mode = mode;
        }
        assert(effect_models(out@) =~= old(self)@.restored(
            saved@,
            (match found {
                Some(f) => Some(entry_models(f@)),
                None => None,
            }),
        ).effects);
        out
    }
}

// ---------------------------------------------------------------------------
// Laws
// ---------------------------------------------------------------------------

proof fn lemma_named_paths(paths: Seq<Seq<u8>>)
    requires
        all_texts(paths),
    ensures
        named_paths(path_jsons(paths)) == paths,
    decreases paths.len(),
{
    if paths.len() > 0 {
        let front = paths.drop_last();
        assert(forall|i: int| 0 <= i < front.len() ==> front[i] == #[trigger] paths[i]);
        lemma_named_paths(front);
        assert(path_jsons(paths).drop_last() =~= path_jsons(front));
        assert(valid_utf8(paths[paths.len() - 1]));
        decode_utf8_encode_utf8(paths.last());
        assert(paths =~= front.push(paths.last()));
    } else {
        assert(paths =~= Seq::empty());
    }
}

/// What is saved is what is loaded: the directory, the queue, the view, and the volume where it
/// can be saved.
pub proof fn saved_state_is_read_back(a: AppModel, volume: Seq<char>)
    requires
        can_save(a),
    ensures
        saved_in(state_json(a, volume)) == remembered(a, volume),
        is_record(state_json(a, volume)),
{
    reveal_strlit("current_dir");
    reveal_strlit("queue");
    reveal_strlit("volume");
    reveal_strlit("mode");
    assert("current_dir"@[0] == 'c');
    assert("queue"@[0] == 'q');
    assert("volume"@[0] == 'v');
    assert("mode"@[0] == 'm');
    lemma_named_paths(a.queue);
    decode_utf8_encode_utf8(a.current_dir);
}

/// A session that starts with the text that the last one saved has its directory, with the
/// first of the entries found there selected, its queue and view, and its volume, as far as
/// that is allowed, where it can be saved.
pub proof fn session_goes_on(a: AppModel, volume: Seq<char>, text: Seq<char>, b: AppModel, found: Seq<EntryModel>)
    requires
        saved_text(text) == Some(remembered(a, volume)),
        can_save_volume(a.mpv.volume, volume),
    ensures
        saved_text(text) matches Some(saved) && {
            let c = b.restored(saved, Some(found)).app;
            &&& c.current_dir == a.current_dir
            &&& c.entries == shown(found)
            &&& c.selected_file == 0
            &&& c.queue == a.queue
            &&& c.mode == a.mode
            &&& c.mpv.volume == allowed_volume(a.mpv.volume)
            &&& !less(a.mpv.volume, Double { bits: ZERO }) && !less(Double { bits: HUNDRED }, a.mpv.volume)
                ==> c.mpv.volume == a.mpv.volume
        },
{
}

/// A session that starts with the text that the last one saved, at a volume of a whole number
/// of percent, has that volume, whatever text was given for it, and all the rest of it.
pub proof fn session_goes_on_at_a_whole_volume(
    a: AppModel,
    percent: int,
    volume: Seq<char>,
    text: Seq<char>,
    b: AppModel,
    found: Seq<EntryModel>,
)
    requires
        0 <= percent <= 100,
        a.mpv.volume.bits == nearest_double(percent),
        saved_text(text) == Some(remembered(a, volume)),
    ensures
        is_whole_number(a.mpv.volume, percent),
        saved_text(text) matches Some(saved) && {
            let c = b.restored(saved, Some(found)).app;
            &&& c.current_dir == a.current_dir
            &&& c.entries == shown(found)
            &&& c.selected_file == 0
            &&& c.queue == a.queue
            &&& c.mode == a.mode
            &&& c.mpv.volume == a.mpv.volume
        },
{
    small_whole_number_is_exact(percent);
    whole_number_is_not_rounded(a.mpv.volume, percent);
    whole_percentage_is_in_bounds(percent);
    session_goes_on(a, volume, text, b, found);
}

/// A directory that is no more is not gone to, and the rest of what was remembered is in
/// force all the same.
pub proof fn lost_directory_is_left_out(b: AppModel, saved: SavedModel)
    ensures
        ({
            let c = b.restored(saved, None).app;
            &&& c.current_dir == b.current_dir
            &&& c.entries == b.entries
            &&& saved.queue matches Some(q) ==> c.queue == q
            &&& saved.mode matches Some(m) ==> c.mode == m
            &&& saved.volume matches Some(bits) ==> c.mpv.volume == allowed_volume(Double { bits })
        }),
{
}

// ---------------------------------------------------------------------------
// Files
// ---------------------------------------------------------------------------

/// The directory of the player's own files below a home directory.
pub open spec fn config_dir_of(home: Seq<char>) -> Seq<u8> {
    joined(encode_utf8(home), encode_utf8(".config/tuiplay"@))
}

/// The directory of the player's own files below a home directory.
pub fn config_dir(home: &str) -> (r: FilePath)
    ensures
        r@ == config_dir_of(home@),
{
    FilePath::from_text(home).join(&FilePath::from_text(".config/tuiplay"))
}

/// The file that remembers the player's state.
pub fn state_path(home: &str) -> (r: FilePath)
    ensures
        r@ == joined(config_dir_of(home@), encode_utf8("state.json"@)),
{
    config_dir(home).join(&FilePath::from_text("state.json"))
}

/// The directory to start in: the one that was asked for, or else the music directory if it
/// is there, or else the working directory if that is known.
pub fn start_dir(asked: Option<FilePath>, music: Option<FilePath>, working: Option<FilePath>) -> (r: FilePath)
    ensures
        r@ == (match (asked, music, working) {
            (Some(dir), _, _) => dir@,
            (None, Some(dir), _) => dir@,
            (None, None, Some(dir)) => dir@,
            (None, None, None) => encode_utf8("."@),
        }),
{
    match asked {
        Some(dir) => dir,
        None => match music {
            Some(dir) => dir,
            None => match working {
                Some(dir) => dir,
                None => FilePath::from_text("."),
            },
        },
    }
}

/// The music directory below a home directory.
pub fn music_dir(home: &str) -> (r: FilePath)
    ensures
        r@ == joined(encode_utf8(home@), encode_utf8("Music"@)),
{
    FilePath::from_text(home).join(&FilePath::from_text("Music"))
}

// ---------------------------------------------------------------------------
// What each part of a saved state comes to
// ---------------------------------------------------------------------------

/// The views have the numbers one to three, and any other number is read as the first of them.
pub proof fn views_have_numbers(n: u64)
    ensures
        mode_number(ViewMode::Files) == 1 && mode_number(ViewMode::Queue) == 2 && mode_number(
            ViewMode::Zen,
        ) == 3,
        n == 2 <==> mode_of(n) == ViewMode::Queue,
        n == 3 <==> mode_of(n) == ViewMode::Zen,
        n != 2 && n != 3 <==> mode_of(n) == ViewMode::Files,
{
}

/// Each part of a saved state is under its own key, and is missing where that is missing or of
/// another kind.
pub proof fn saved_parts_have_their_keys(m: Map<Seq<char>, Json>)
    ensures
        ({
            let saved = saved_in(Json::Object(m));
            &&& m.contains_key("current_dir"@) && m["current_dir"@] is Text ==> saved.current_dir == Some(
                encode_utf8(m["current_dir"@]->Text_0),
            )
            &&& !m.contains_key("current_dir"@) || !(m["current_dir"@] is Text) ==> saved.current_dir is None
            &&& m.contains_key("queue"@) && m["queue"@] is Array ==> saved.queue == Some(
                named_paths(m["queue"@]->Array_0),
            )
            &&& !m.contains_key("queue"@) || !(m["queue"@] is Array) ==> saved.queue is None
            &&& m.contains_key("volume"@) && m["volume"@] is Number ==> match m["volume"@]->Number_0 {
                Number::Double(bits) => saved.volume == Some(bits),
                Number::Unsigned(n) => saved.volume == Some(nearest_double(n as int)),
                Number::Negative(n) => saved.volume == Some(nearest_double(n as int)),
            }
            &&& !m.contains_key("volume"@) || !(m["volume"@] is Number) ==> saved.volume is None
            &&& m.contains_key("mode"@) && m["mode"@] is Number && m["mode"@]->Number_0 is Unsigned ==> saved.mode
                == Some(mode_of(m["mode"@]->Number_0->Unsigned_0))
            &&& !m.contains_key("mode"@) || !(m["mode"@] is Number) || !(m["mode"@]->Number_0 is Unsigned)
                ==> saved.mode is None
        }),
{
}

/// What is no object remembers nothing.
pub proof fn other_values_remember_nothing(v: Json)
    requires
        !(v is Object),
    ensures
        saved_in(v).current_dir is None && saved_in(v).queue is None && saved_in(v).volume is None && saved_in(
            v,
        ).mode is None,
{
}

/// The queue is made of the texts in an array, in their order; what is no text in it is left out.
pub proof fn queue_is_made_of_texts(items: Seq<Json>, more: Seq<Json>, s: Seq<char>, x: Json)
    ensures
        named_paths(Seq::empty()) == Seq::<Seq<u8>>::empty(),
        named_paths(seq![Json::Text(s)]) == seq![encode_utf8(s)],
        !(x is Text) ==> named_paths(seq![x]) == Seq::<Seq<u8>>::empty(),
        named_paths(items + more) == named_paths(items) + named_paths(more),
    decreases more.len(),
{
    reveal_with_fuel(named_paths, 2);
    let one = seq![Json::Text(s)];
    assert(one.drop_last() =~= Seq::<Json>::empty());
    assert(named_paths(one) =~= seq![encode_utf8(s)]);
    assert(seq![x].drop_last() =~= Seq::<Json>::empty());
    if more.len() == 0 {
        assert(items + more =~= items);
        assert(named_paths(items + more) =~= named_paths(items) + named_paths(more));
    } else {
        queue_is_made_of_texts(items, more.drop_last(), s, x);
        assert((items + more).drop_last() =~= items + more.drop_last());
        assert((items + more).last() == more.last());
        assert(named_paths(items + more) =~= named_paths(items) + named_paths(more));
    }
}

/// What was remembered is in force again, part by part, and what was not stays as it is. Nothing
/// but the volume is asked of the surroundings.
pub proof fn each_remembered_part_is_in_force(b: AppModel, saved: SavedModel, found: Option<Seq<EntryModel>>)
    ensures
        ({
            let step = b.restored(saved, found);
            let c = step.app;
            &&& saved.current_dir is Some && found is Some ==> {
                &&& c.current_dir == saved.current_dir->0
                &&& c.entries == shown(found->0)
                &&& c.selected_file == 0
            }
            &&& saved.current_dir is None || found is None ==> {
                &&& c.current_dir == b.current_dir
                &&& c.entries == b.entries
                &&& c.selected_file == b.selected_file
            }
            &&& saved.queue matches Some(q) ==> c.queue == q
            &&& saved.queue is None ==> c.queue == b.queue
            &&& saved.mode matches Some(mode) ==> c.mode == mode
            &&& saved.mode is None ==> c.mode == b.mode
            &&& saved.volume matches Some(bits) ==> {
                &&& c.mpv == b.with_volume(Double { bits }).mpv
                &&& step.effects == seq![EffectModel::SetVolume(c.mpv.volume)]
            }
            &&& saved.volume is None ==> c.mpv == b.mpv && step.effects.len() == 0
            &&& c == AppModel {
                current_dir: c.current_dir,
                entries: c.entries,
                selected_file: c.selected_file,
                queue: c.queue,
                mode: c.mode,
                mpv: c.mpv,
                ..b
            }
        }),
{
}

/// A player can be saved exactly if its directory and the paths of its queue are texts.
pub proof fn paths_that_are_texts_can_be_saved(a: AppModel)
    ensures
        can_save(a) <==> valid_utf8(a.current_dir) && forall|i: int|
            0 <= i < a.queue.len() ==> valid_utf8(#[trigger] a.queue[i]),
{
}

/// Whatever text is given for it, a volume is saved as itself or not at all.
pub proof fn volume_is_saved_as_itself(v: Double, text: Seq<char>)
    ensures
        double_of(Some(volume_json(v, text))) is Some ==> double_of(Some(volume_json(v, text))) == Some(v.bits),
        double_of(Some(number_json(text))) == Some(v.bits) ==> double_of(Some(volume_json(v, text))) == Some(v.bits),
{
}

}

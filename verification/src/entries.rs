//! The entries of a directory: which are shown, and in what order.
use crate::path::{
    display_name, exact_text, extension, file_name, is_plain_name, joined,
    joined_path_is_in_the_directory, name_is_stem_and_extension, name_without_a_dot_is_its_stem, FilePath,
};
use crate::text::{
    ascii_lower, bytes_less, bytes_order_is_asymmetric, bytes_order_is_total,
    bytes_order_is_transitive, chars_of, lossy, lowercase, text_before, text_less, to_lower, utf8_text,
};
use vstd::prelude::*;
use vstd::utf8::*;

verus! {

/// An entry of a directory.
pub struct Entry {
    pub path: FilePath,
    pub is_dir: bool,
}

/// What an entry stands for: its path, and whether that is a directory.
#[verifier::ext_equal]
pub struct EntryModel {
    pub path: Seq<u8>,
    pub is_dir: bool,
}

impl View for Entry {
    type V = EntryModel;

    open spec fn view(&self) -> EntryModel {
        EntryModel { path: self.path@, is_dir: self.is_dir }
    }
}

/// What a sequence of entries stands for.
pub open spec fn entry_models(s: Seq<Entry>) -> Seq<EntryModel> {
    s.map_values(|e: Entry| e@)
}

impl Clone for Entry {
    fn clone(&self) -> (r: Self)
        ensures
            r@ == self@,
    {
        Entry { path: self.path.clone(), is_dir: self.is_dir }
    }
}

impl Entry {
    /// The name to show for this entry.
    pub fn name(&self) -> (r: String)
        ensures
            r@ == display_name(self@.path),
            file_name(self@.path) matches Some(name) ==> valid_utf8(name) ==> r@ == decode_utf8(name),
    {
        self.path.display_name()
    }
}

// ---------------------------------------------------------------------------
// Which entries are shown
// ---------------------------------------------------------------------------

/// Whether a path is hidden: the text of its file name begins with a dot.
pub open spec fn hidden(path: Seq<u8>) -> bool {
    match file_name(path) {
        Some(name) => match exact_text(name) {
            Some(text) => text.len() > 0 && text[0] == '.',
            None => false,
        },
        None => false,
    }
}

/// Whether an extension, in lower case, is one of audio files.
pub open spec fn audio_extension(ext: Seq<char>) -> bool {
    ||| ext == "mp3"@
    ||| ext == "flac"@
    ||| ext == "ogg"@
    ||| ext == "wav"@
    ||| ext == "m4a"@
    ||| ext == "aac"@
    ||| ext == "opus"@
    ||| ext == "wma"@
    ||| ext == "aiff"@
    ||| ext == "alac"@
}

/// Whether a path is that of an audio file: it has the extension of one, in any case.
pub open spec fn audio(path: Seq<u8>) -> bool {
    match extension(path) {
        Some(ext) => match exact_text(ext) {
            Some(text) => audio_extension(lowercase(text)),
            None => false,
        },
        None => false,
    }
}

/// The extension of a path that has one of ASCII characters.
pub open spec fn ascii_extension(path: Seq<u8>) -> Option<Seq<char>> {
    match extension(path) {
        Some(ext) => match exact_text(ext) {
            Some(text) => if is_ascii_chars(text) {
                Some(text)
            } else {
                None
            },
            None => None,
        },
        None => None,
    }
}

/// A text with its ASCII letters in lower case.
pub open spec fn lowered(s: Seq<char>) -> Seq<char> {
    s.map_values(|c: char| ascii_lower(c))
}

/// The directories that are shown.
pub open spec fn shown_dir() -> spec_fn(EntryModel) -> bool {
    |e: EntryModel| !hidden(e.path) && e.is_dir
}

/// The files that are shown.
pub open spec fn shown_file() -> spec_fn(EntryModel) -> bool {
    |e: EntryModel| !hidden(e.path) && !e.is_dir && audio(e.path)
}

/// Whether two texts are the same.
pub fn same_text(a: &str, b: &str) -> (r: bool)
    ensures
        r == (a@ == b@),
{
    let x: Vec<char> = chars_of(a);
    let y: Vec<char> = chars_of(b);
    if x.len() != y.len() {
        return false;
    }
    let mut i: usize = 0;
    while i < x.len()
        invariant
            x@ == a@,
            y@ == b@,
            x@.len() == y@.len(),
            i <= x@.len(),
            forall|k: int| 0 <= k < i ==> x@[k] == y@[k],
        decreases x@.len() - i,
    {
        if x[i] != y[i] {
            return false;
        }
        i = i + 1;
    }
    assert(a@ =~= b@);
    true
}

/// Whether a path is that of an audio file.
pub fn is_audio(path: &FilePath) -> (r: bool)
    ensures
        r == audio(path@),
        ascii_extension(path@) matches Some(ext) ==> r == audio_extension(lowered(ext)),
{
    match path.extension() {
        Some(ext) => match utf8_text(ext.as_slice()) {
            Some(text) => {
                let low: String = to_lower(text);
                let e: &str = low.as_str();
                same_text(e, "mp3") || same_text(e, "flac") || same_text(e, "ogg") || same_text(e, "wav")
                    || same_text(e, "m4a") || same_text(e, "aac") || same_text(e, "opus") || same_text(
                    e,
                    "wma",
                ) || same_text(e, "aiff") || same_text(e, "alac")
            },
            None => false,
        },
        None => false,
    }
}

/// Whether a path is hidden.
pub fn is_hidden(path: &FilePath) -> (r: bool)
    ensures
        r == hidden(path@),
{
    match path.file_name() {
        Some(name) => match utf8_text(name.as_slice()) {
            Some(text) => {
                let chars: Vec<char> = chars_of(text);
                chars.len() > 0 && chars[0] == '.'
            },
            None => false,
        },
        None => false,
    }
}

// ---------------------------------------------------------------------------
// Order
// ---------------------------------------------------------------------------

/// What entries are ordered by: the name in lower case.
pub open spec fn sort_key(e: EntryModel) -> Seq<char> {
    lowercase(display_name(e.path))
}

/// Whether `a` comes before `b`.
pub open spec fn comes_before(a: EntryModel, b: EntryModel) -> bool {
    text_less(sort_key(a), sort_key(b))
}

/// `s` with `e` behind the last entry that does not come after it.
pub open spec fn inserted(s: Seq<EntryModel>, e: EntryModel) -> Seq<EntryModel>
    decreases s.len(),
{
    if s.len() == 0 || !comes_before(e, s.last()) {
        s.push(e)
    } else {
        inserted(s.drop_last(), e).push(s.last())
    }
}

/// `s` in order; entries that are equal in it stay as they stood.
pub open spec fn sorted(s: Seq<EntryModel>) -> Seq<EntryModel>
    decreases s.len(),
{
    if s.len() == 0 {
        s
    } else {
        inserted(sorted(s.drop_last()), s.last())
    }
}

/// What is shown of what was found in a directory: first the directories in order, then the
/// audio files in order.
pub open spec fn shown(found: Seq<EntryModel>) -> Seq<EntryModel> {
    sorted(found.filter(shown_dir())) + sorted(found.filter(shown_file()))
}

/// Whether no entry comes before one that stands before it.
pub open spec fn in_order(s: Seq<EntryModel>) -> bool {
    forall|i: int, j: int| #![trigger s[i], s[j]] 0 <= i < j < s.len() ==> !comes_before(s[j], s[i])
}

proof fn lemma_inserted_at(s: Seq<EntryModel>, e: EntryModel, at: int)
    requires
        0 <= at <= s.len(),
        at > 0 ==> !comes_before(e, s[at - 1]),
        forall|i: int| at <= i < s.len() ==> comes_before(e, #[trigger] s[i]),
    ensures
        inserted(s, e) == s.insert(at, e),
    decreases s.len(),
{
    if at == s.len() {
        assert(s.insert(at, e) =~= s.push(e));
    } else {
        let front = s.drop_last();
        assert(forall|i: int| at <= i < front.len() ==> front[i] == #[trigger] s[i]);
        lemma_inserted_at(front, e, at);
        assert(s.insert(at, e) =~= front.insert(at, e).push(s.last()));
    }
}

/// A position to insert at, which splits an ordered sequence.
proof fn lemma_split(s: Seq<EntryModel>, e: EntryModel, i: int, j: int)
    requires
        in_order(s),
        0 <= i <= j < s.len(),
    ensures
        comes_before(e, s[i]) ==> comes_before(e, s[j]),
        !comes_before(e, s[j]) ==> !comes_before(e, s[i]),
{
    if i < j && comes_before(e, s[i]) && !comes_before(e, s[j]) {
        // s[i] <= s[j] <= e would put e not before s[i].
        bytes_order_is_transitive(encode_utf8(sort_key(s[i])), encode_utf8(sort_key(s[j])), encode_utf8(sort_key(e)));
    }
}

/// Inserting into an ordered sequence keeps it ordered and adds the one entry.
proof fn lemma_inserted(s: Seq<EntryModel>, e: EntryModel)
    requires
        in_order(s),
    ensures
        in_order(inserted(s, e)),
        inserted(s, e).to_multiset() == s.to_multiset().insert(e),
        inserted(s, e).len() == s.len() + 1,
    decreases s.len(),
{
    broadcast use vstd::seq_lib::group_to_multiset_ensures;

    if s.len() == 0 || !comes_before(e, s.last()) {
        let t = s.push(e);
        assert forall|i: int, j: int| #![trigger t[i], t[j]] 0 <= i < j < t.len() implies !comes_before(t[j], t[i]) by {
            if j == s.len() {
                lemma_split(s, e, i, s.len() - 1);
            }
        }
    } else {
        let front = s.drop_last();
        assert(s =~= front.push(s.last()));
        assert(in_order(front)) by {
            assert forall|i: int, j: int| #![trigger front[i], front[j]] 0 <= i < j < front.len() implies
                !comes_before(front[j], front[i]) by {
                assert(!comes_before(s[j], s[i]));
            }
        }
        lemma_inserted(front, e);
        let t = inserted(front, e);
        let u = t.push(s.last());
        assert forall|i: int, j: int| #![trigger u[i], u[j]] 0 <= i < j < u.len() implies !comes_before(u[j], u[i]) by {
            if j == t.len() {
                assert(t.to_multiset().contains(t[i]));
                if t[i] != e {
                    assert(front.to_multiset().contains(t[i]));
                    assert(front.contains(t[i]));
                    let k = choose|k: int| 0 <= k < front.len() && front[k] == t[i];
                    assert(s[k] == t[i]);
                    assert(!comes_before(s[s.len() - 1], s[k]));
                } else {
                    bytes_order_is_asymmetric(encode_utf8(sort_key(e)), encode_utf8(sort_key(s.last())));
                }
            } else {
                assert(!comes_before(t[j], t[i]));
            }
        }
        assert(u.to_multiset() =~= s.to_multiset().insert(e));
    }
}

/// Sorting puts entries in order, and neither adds nor loses one.
pub proof fn sorted_is_in_order(s: Seq<EntryModel>)
    ensures
        in_order(sorted(s)),
        sorted(s).to_multiset() == s.to_multiset(),
        sorted(s).len() == s.len(),
    decreases s.len(),
{
    broadcast use vstd::seq_lib::group_to_multiset_ensures;

    if s.len() > 0 {
        sorted_is_in_order(s.drop_last());
        lemma_inserted(sorted(s.drop_last()), s.last());
        assert(s =~= s.drop_last().push(s.last()));
    }
}

/// The entries that are ordered by one key.
pub open spec fn keyed(key: Seq<char>) -> spec_fn(EntryModel) -> bool {
    |e: EntryModel| sort_key(e) == key
}

proof fn lemma_inserted_is_stable(s: Seq<EntryModel>, e: EntryModel, key: Seq<char>)
    ensures
        inserted(s, e).filter(keyed(key)) == s.push(e).filter(keyed(key)),
    decreases s.len(),
{
    reveal(Seq::filter);
    if s.len() > 0 && comes_before(e, s.last()) {
        let front = s.drop_last();
        lemma_inserted_is_stable(front, e, key);
        assert(s.push(e).drop_last() =~= s);
        assert(front.push(e).drop_last() =~= front);
        assert(inserted(s, e).drop_last() =~= inserted(front, e));
        if sort_key(e) == sort_key(s.last()) {
            bytes_order_is_asymmetric(encode_utf8(sort_key(e)), encode_utf8(sort_key(s.last())));
        }
        let p = keyed(key);
        assert(s.filter(p) == (if p(s.last()) { front.filter(p).push(s.last()) } else { front.filter(p) }));
        assert(inserted(s, e).last() == s.last());
        assert(inserted(s, e).filter(p) == (if p(s.last()) {
            inserted(front, e).filter(p).push(s.last())
        } else {
            inserted(front, e).filter(p)
        }));
    }
}

/// Sorting leaves entries that are ordered by one key as they stood among each other.
pub proof fn sorted_is_stable(s: Seq<EntryModel>, key: Seq<char>)
    ensures
        sorted(s).filter(keyed(key)) == s.filter(keyed(key)),
    decreases s.len(),
{
    reveal(Seq::filter);
    if s.len() > 0 {
        let front = sorted(s.drop_last());
        sorted_is_stable(s.drop_last(), key);
        lemma_inserted_is_stable(front, s.last(), key);
        assert(front.push(s.last()).drop_last() =~= front);
    }
}

/// What is shown of a directory is exactly its directories and audio files that are not
/// hidden, each part in order.
pub proof fn shown_is_what_should_be(found: Seq<EntryModel>)
    ensures
        shown(found).to_multiset() == found.filter(shown_dir()).to_multiset().add(
            found.filter(shown_file()).to_multiset(),
        ),
        forall|i: int|
            0 <= i < shown(found).len() ==> {
                let e = #[trigger] shown(found)[i];
                &&& found.contains(e)
                &&& !hidden(e.path)
                &&& e.is_dir || audio(e.path)
                &&& e.is_dir <==> i < found.filter(shown_dir()).len()
            },
        forall|i: int, j: int|
            #![trigger shown(found)[i], shown(found)[j]]
            0 <= i < j < shown(found).len() && shown(found)[i].is_dir == shown(found)[j].is_dir ==> !comes_before(
                shown(found)[j],
                shown(found)[i],
            ),
{
    broadcast use vstd::seq_lib::group_to_multiset_ensures;
    broadcast use vstd::seq_lib::group_filter_ensures;

    let dirs = found.filter(shown_dir());
    let files = found.filter(shown_file());
    sorted_is_in_order(dirs);
    sorted_is_in_order(files);
    vstd::seq_lib::lemma_multiset_commutative(sorted(dirs), sorted(files));
    assert forall|i: int| 0 <= i < shown(found).len() implies {
        let e = #[trigger] shown(found)[i];
        &&& found.contains(e)
        &&& !hidden(e.path)
        &&& e.is_dir || audio(e.path)
        &&& e.is_dir <==> i < dirs.len()
    } by {
        let e = shown(found)[i];
        if i < dirs.len() {
            assert(sorted(dirs)[i] == e);
            assert(sorted(dirs).to_multiset().contains(e));
            assert(dirs.contains(e));
            let k = choose|k: int| 0 <= k < dirs.len() && dirs[k] == e;
            lemma_filtered_was_there(found, shown_dir(), k);
            assert(shown_dir()(dirs[k]));
        } else {
            assert(sorted(files)[i - dirs.len()] == e);
            assert(sorted(files).to_multiset().contains(e));
            assert(files.contains(e));
            let k = choose|k: int| 0 <= k < files.len() && files[k] == e;
            lemma_filtered_was_there(found, shown_file(), k);
            assert(shown_file()(files[k]));
        }
    }
    assert forall|i: int, j: int|
        #![trigger shown(found)[i], shown(found)[j]]
        0 <= i < j < shown(found).len() && shown(found)[i].is_dir == shown(found)[j].is_dir implies !comes_before(
        shown(found)[j],
        shown(found)[i],
    ) by {
        if i < dirs.len() {
            assert(sorted(dirs)[i] == shown(found)[i] && sorted(dirs)[j] == shown(found)[j]);
        } else {
            assert(sorted(files)[i - dirs.len()] == shown(found)[i] && sorted(files)[j - dirs.len()] == shown(
                found,
            )[j]);
        }
    }
}

/// Whether entries of one kind that are ordered by one key are the same entry.
pub open spec fn names_tell_apart(s: Seq<EntryModel>) -> bool {
    forall|i: int, j: int|
        #![trigger s[i], s[j]]
        0 <= i < s.len() && 0 <= j < s.len() && s[i].is_dir == s[j].is_dir && sort_key(s[i]) == sort_key(s[j])
            ==> s[i] == s[j]
}

proof fn lemma_filter_of_multiset(s: Seq<EntryModel>, p: spec_fn(EntryModel) -> bool)
    ensures
        s.filter(p).to_multiset() == s.to_multiset().filter(p),
    decreases s.len(),
{
    broadcast use vstd::seq_lib::group_to_multiset_ensures;

    reveal(Seq::filter);
    if s.len() > 0 {
        lemma_filter_of_multiset(s.drop_last(), p);
        assert(s =~= s.drop_last().push(s.last()));
    }
    assert(s.filter(p).to_multiset() =~= s.to_multiset().filter(p));
}

/// There is one way to put entries in order whose names tell them apart.
proof fn lemma_one_order(s: Seq<EntryModel>, t: Seq<EntryModel>)
    requires
        in_order(s),
        in_order(t),
        s.to_multiset() == t.to_multiset(),
        forall|x: EntryModel, y: EntryModel|
            #![trigger s.contains(x), s.contains(y)]
            s.contains(x) && s.contains(y) && sort_key(x) == sort_key(y) ==> x == y,
    ensures
        s == t,
    decreases s.len(),
{
    broadcast use vstd::seq_lib::group_to_multiset_ensures;

    assert(s.len() == s.to_multiset().len());
    assert(t.len() == t.to_multiset().len());
    if s.len() == 0 {
        assert(s =~= t);
    } else {
        let x = s.last();
        let y = t.last();
        assert(s.contains(x) && t.contains(y));
        assert(t.to_multiset().contains(x) && s.to_multiset().contains(y));
        assert(t.contains(x) && s.contains(y));
        if x != y {
            let i = choose|i: int| 0 <= i < s.len() && s[i] == y;
            let j = choose|j: int| 0 <= j < t.len() && t[j] == x;
            assert(!comes_before(s[s.len() - 1], s[i]));
            assert(!comes_before(t[t.len() - 1], t[j]));
            bytes_order_is_total(encode_utf8(sort_key(x)), encode_utf8(sort_key(y)));
            encode_utf8_decode_utf8(sort_key(x));
            encode_utf8_decode_utf8(sort_key(y));
        }
        let front = s.drop_last();
        let other = t.drop_last();
        assert(s =~= front.push(x));
        assert(t =~= other.push(x));
        assert(front.to_multiset() =~= s.to_multiset().remove(x));
        assert(other.to_multiset() =~= t.to_multiset().remove(x));
        assert(in_order(front)) by {
            assert forall|i: int, j: int| #![trigger front[i], front[j]] 0 <= i < j < front.len() implies
                !comes_before(front[j], front[i]) by {
                assert(!comes_before(s[j], s[i]));
            }
        }
        assert(in_order(other)) by {
            assert forall|i: int, j: int| #![trigger other[i], other[j]] 0 <= i < j < other.len() implies
                !comes_before(other[j], other[i]) by {
                assert(!comes_before(t[j], t[i]));
            }
        }
        assert forall|u: EntryModel, v: EntryModel|
            #![trigger front.contains(u), front.contains(v)]
            front.contains(u) && front.contains(v) && sort_key(u) == sort_key(v) implies u == v by {
            let i = choose|i: int| 0 <= i < front.len() && front[i] == u;
            let j = choose|j: int| 0 <= j < front.len() && front[j] == v;
            assert(s[i] == u && s[j] == v);
            assert(s.contains(u) && s.contains(v));
        }
        lemma_one_order(front, other);
    }
}

proof fn lemma_sorted_in_one_order(
    found: Seq<EntryModel>,
    other: Seq<EntryModel>,
    p: spec_fn(EntryModel) -> bool,
    is_dir: bool,
)
    requires
        found.to_multiset() == other.to_multiset(),
        names_tell_apart(found),
        forall|e: EntryModel| #[trigger] p(e) ==> e.is_dir == is_dir,
    ensures
        sorted(found.filter(p)) == sorted(other.filter(p)),
{
    broadcast use vstd::seq_lib::group_to_multiset_ensures;
    broadcast use vstd::seq_lib::group_filter_ensures;

    let a = found.filter(p);
    let b = other.filter(p);
    lemma_filter_of_multiset(found, p);
    lemma_filter_of_multiset(other, p);
    sorted_is_in_order(a);
    sorted_is_in_order(b);
    let s = sorted(a);
    assert forall|x: EntryModel, y: EntryModel|
        #![trigger s.contains(x), s.contains(y)]
        s.contains(x) && s.contains(y) && sort_key(x) == sort_key(y) implies x == y by {
        assert(s.to_multiset().contains(x) && s.to_multiset().contains(y));
        assert(a.contains(x) && a.contains(y));
        let i = choose|i: int| 0 <= i < a.len() && a[i] == x;
        let j = choose|j: int| 0 <= j < a.len() && a[j] == y;
        assert(p(a[i]) && p(a[j]));
        lemma_filtered_was_there(found, p, i);
        lemma_filtered_was_there(found, p, j);
        let k = choose|k: int| 0 <= k < found.len() && found[k] == x;
        let l = choose|l: int| 0 <= l < found.len() && found[l] == y;
        assert(found[k].is_dir == found[l].is_dir);
    }
    lemma_one_order(s, sorted(b));
}

/// The order in which a directory's entries were found does not matter, where their names tell
/// them apart.
pub proof fn listing_does_not_depend_on_the_disk(found: Seq<EntryModel>, other: Seq<EntryModel>)
    requires
        found.to_multiset() == other.to_multiset(),
        names_tell_apart(found),
    ensures
        shown(found) == shown(other),
{
    lemma_sorted_in_one_order(found, other, shown_dir(), true);
    lemma_sorted_in_one_order(found, other, shown_file(), false);
}

proof fn lemma_filtered_was_there(s: Seq<EntryModel>, p: spec_fn(EntryModel) -> bool, k: int)
    requires
        0 <= k < s.filter(p).len(),
    ensures
        s.contains(s.filter(p)[k]),
    decreases s.len(),
{
    reveal(Seq::filter);
    if s.len() > 0 {
        let front = s.drop_last();
        if k < front.filter(p).len() {
            lemma_filtered_was_there(front, p, k);
            let i = choose|i: int| 0 <= i < front.len() && front[i] == front.filter(p)[k];
            assert(s[i] == s.filter(p)[k]);
        } else {
            assert(s[s.len() - 1] == s.filter(p)[k]);
        }
    }
}

/// Entries in order, with the keys they are ordered by.
struct Shelf {
    entries: Vec<Entry>,
    keys: Vec<String>,
}

impl Shelf {
    spec fn wf(self) -> bool {
        &&& self.keys@.len() == self.entries@.len()
        &&& forall|i: int| 0 <= i < self.keys@.len() ==> (#[trigger] self.keys@[i])@ == sort_key(self.entries@[i]@)
        &&& in_order(entry_models(self.entries@))
    }

    fn new() -> (r: Shelf)
        ensures
            r.wf(),
            entry_models(r.entries@) == Seq::<EntryModel>::empty(),
    {
        let r = Shelf { entries: Vec::new(), keys: Vec::new() };
        assert(entry_models(r.entries@) =~= Seq::<EntryModel>::empty());
        r
    }

    fn put(&mut self, e: Entry)
        requires
            old(self).wf(),
        ensures
            final(self).wf(),
            entry_models(final(self).entries@) == inserted(entry_models(old(self).entries@), e@),
    {
        let name: String = e.name();
        let key: String = to_lower(name.as_str());
        let ghost s = entry_models(self.entries@);
        let ghost old_keys = self.keys@;
        let ghost old_entries = self.entries@;
        let mut low: usize = 0;
        let mut high: usize = self.keys.len();
        while low < high
            invariant
                old(self).wf(),
                *self == *old(self),
                s == entry_models(self.entries@),
                key@ == sort_key(e@),
                low <= high <= self.keys@.len(),
                low > 0 ==> !comes_before(e@, s[low - 1]),
                high < s.len() ==> comes_before(e@, s[high as int]),
            decreases high - low,
        {
            let mid: usize = low + (high - low) / 2;
            assert(self.keys@[mid as int]@ == sort_key(s[mid as int]));
            if text_before(key.as_str(), self.keys[mid].as_str()) {
                high = mid;
            } else {
                low = mid + 1;
            }
        }
        proof {
            assert forall|i: int| low <= i < s.len() implies comes_before(e@, #[trigger] s[i]) by {
                lemma_split(s, e@, low as int, i);
            }
            lemma_inserted_at(s, e@, low as int);
            lemma_inserted(s, e@);
        }
        let ghost model = e@;
        self.keys.insert(low, key);
        self.entries.insert(low, e);
        proof {
            assert(entry_models(self.entries@) =~= s.insert(low as int, model));
            assert forall|i: int| 0 <= i < self.keys@.len() implies (#[trigger] self.keys@[i])@ == sort_key(
                self.entries@[i]@,
            ) by {
                if i < low {
                    assert(old_keys[i]@ == sort_key(old_entries[i]@));
                } else if i > low {
                    assert(old_keys[i - 1]@ == sort_key(old_entries[i - 1]@));
                }
            }
        }
    }
}

/// What is shown of what was found in a directory.
pub fn list_entries(found: &Vec<Entry>) -> (r: Vec<Entry>)
    ensures
        entry_models(r@) == shown(entry_models(found@)),
{
    let mut dirs: Shelf = Shelf::new();
    let mut files: Shelf = Shelf::new();
    let ghost all = entry_models(found@);
    let mut i: usize = 0;
    proof {
        reveal(Seq::filter);
        assert(all.take(0) =~= Seq::<EntryModel>::empty());
    }
    while i < found.len()
        invariant
            all == entry_models(found@),
            i <= found@.len(),
            dirs.wf(),
            files.wf(),
            entry_models(dirs.entries@) == sorted(all.take(i as int).filter(shown_dir())),
            entry_models(files.entries@) == sorted(all.take(i as int).filter(shown_file())),
        decreases found@.len() - i,
    {
        proof {
            reveal(Seq::filter);
            let next = all.take(i + 1);
            assert(next.drop_last() =~= all.take(i as int));
            assert(next.last() == found@[i as int]@);
            let d = all.take(i as int).filter(shown_dir());
            let f = all.take(i as int).filter(shown_file());
            assert(d.push(next.last()).drop_last() =~= d);
            assert(f.push(next.last()).drop_last() =~= f);
        }
        if !is_hidden(&found[i].path) {
            if found[i].is_dir {
                dirs.put(found[i].clone());
            } else if is_audio(&found[i].path) {
                files.put(found[i].clone());
            }
        }
        i = i + 1;
    }
    assert(all.take(i as int) =~= all);
    let mut out: Vec<Entry> = dirs.entries;
    let mut rest: Vec<Entry> = files.entries;
    let ghost first = out@;
    let ghost second = rest@;
    out.append(&mut rest);
    assert(entry_models(out@) =~= entry_models(first) + entry_models(second));
    out
}

// ---------------------------------------------------------------------------
// What names come to
// ---------------------------------------------------------------------------

/// A file in any directory is hidden exactly if its name, where that is a text, begins with a dot.
pub proof fn names_with_a_dot_are_hidden(dir: Seq<u8>, name: Seq<char>)
    requires
        is_plain_name(encode_utf8(name)),
    ensures
        hidden(joined(dir, encode_utf8(name))) <==> name[0] == '.',
        name.len() > 0,
{
    joined_path_is_in_the_directory(dir, encode_utf8(name));
    encode_utf8_decode_utf8(name);
    encode_utf8_valid_utf8(name);
    if name.len() == 0 {
        assert(name =~= Seq::empty());
        is_ascii_chars_encode_utf8(name);
    }
}

/// A name that is no text is not hidden.
pub proof fn names_that_are_no_texts_are_shown(dir: Seq<u8>, name: Seq<u8>)
    requires
        is_plain_name(name),
        !valid_utf8(name),
    ensures
        !hidden(joined(dir, name)),
{
    joined_path_is_in_the_directory(dir, name);
}

/// A file in any directory is an audio file exactly if what follows the last dot of its name is, in
/// lower case, the name of an audio format.
pub proof fn audio_files_have_the_extension_of_a_format(dir: Seq<u8>, stem: Seq<u8>, ext: Seq<char>)
    requires
        stem.len() > 0,
        is_plain_name(stem + seq![46u8] + encode_utf8(ext)),
        forall|i: int| 0 <= i < encode_utf8(ext).len() ==> #[trigger] encode_utf8(ext)[i] != 46,
    ensures
        audio(joined(dir, stem + seq![46u8] + encode_utf8(ext))) <==> formats().contains(lowercase(ext)),
{
    name_is_stem_and_extension(dir, stem, encode_utf8(ext));
    encode_utf8_decode_utf8(ext);
    encode_utf8_valid_utf8(ext);
    let low = lowercase(ext);
    let all = formats();
    if audio_extension(low) {
        assert(all[0] == "mp3"@ && all[1] == "flac"@ && all[2] == "ogg"@ && all[3] == "wav"@ && all[4] == "m4a"@);
        assert(all[5] == "aac"@ && all[6] == "opus"@ && all[7] == "wma"@ && all[8] == "aiff"@ && all[9] == "alac"@);
    }
}

/// The names of the audio formats.
pub open spec fn formats() -> Seq<Seq<char>> {
    seq![
        "mp3"@,
        "flac"@,
        "ogg"@,
        "wav"@,
        "m4a"@,
        "aac"@,
        "opus"@,
        "wma"@,
        "aiff"@,
        "alac"@,
    ]
}

/// A file without an extension is no audio file.
pub proof fn files_without_an_extension_are_no_audio(dir: Seq<u8>, name: Seq<u8>)
    requires
        is_plain_name(name),
        forall|i: int| 1 <= i < name.len() ==> #[trigger] name[i] != 46,
    ensures
        !audio(joined(dir, name)),
{
    name_without_a_dot_is_its_stem(dir, name);
}

/// The order of two entries goes by their file names in lower case, as byte strings, wherever they
/// are and whatever they are.
pub proof fn order_goes_by_the_file_name(
    dir: Seq<u8>,
    name: Seq<u8>,
    other: Seq<u8>,
    another: Seq<u8>,
    b: bool,
    c: bool,
)
    requires
        is_plain_name(name),
        is_plain_name(another),
    ensures
        comes_before(
            EntryModel { path: joined(dir, name), is_dir: b },
            EntryModel { path: joined(other, another), is_dir: c },
        ) <==> bytes_less(encode_utf8(lowercase(lossy(name))), encode_utf8(lowercase(lossy(another)))),
{
    joined_path_is_in_the_directory(dir, name);
    joined_path_is_in_the_directory(other, another);
}

/// What is shown of a directory begins with its directories. An entry is shown as often as it was
/// found, if it is to be shown at all, and else not.
pub proof fn each_entry_is_shown_or_not(found: Seq<EntryModel>, e: EntryModel)
    ensures
        ({
            let count = shown(found).to_multiset().count(e);
            &&& !hidden(e.path) && (e.is_dir || audio(e.path)) ==> count == found.to_multiset().count(e)
            &&& hidden(e.path) || !e.is_dir && !audio(e.path) ==> count == 0
        }),
        forall|i: int, j: int|
            #![trigger shown(found)[i], shown(found)[j]]
            0 <= i < j < shown(found).len() && shown(found)[j].is_dir ==> shown(found)[i].is_dir,
{
    shown_is_what_should_be(found);
    lemma_filter_of_multiset(found, shown_dir());
    lemma_filter_of_multiset(found, shown_file());
    assert(shown_dir()(e) <==> !hidden(e.path) && e.is_dir);
    assert(shown_file()(e) <==> !hidden(e.path) && !e.is_dir && audio(e.path));
}

}

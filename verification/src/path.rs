//! File paths as the byte strings that a Unix file system knows them by.
use crate::text::{lossy, lossy_text};
use vstd::prelude::*;
use vstd::utf8::*;

verus! {

pub const SLASH: u8 = 47;

pub const DOT: u8 = 46;

/// A file path: any bytes, with `/` between its components.
pub struct FilePath {
    pub bytes: Vec<u8>,
}

impl View for FilePath {
    type V = Seq<u8>;

    open spec fn view(&self) -> Seq<u8> {
        self.bytes@
    }
}

impl Clone for FilePath {
    fn clone(&self) -> (r: Self)
        ensures
            r@ == self@,
    {
        FilePath { bytes: self.bytes.clone() }
    }
}

/// The part of a path that one component takes up.
pub struct Place {
    /// The `/` that an absolute path begins with.
    pub root: bool,
    pub start: int,
    pub end: int,
}

/// The part of a path that one component takes up.
#[derive(Clone, Copy)]
pub struct Span {
    pub root: bool,
    pub start: usize,
    pub end: usize,
}

impl View for Span {
    type V = Place;

    open spec fn view(&self) -> Place {
        Place { root: self.root, start: self.start as int, end: self.end as int }
    }
}

// ---------------------------------------------------------------------------
// Components
// ---------------------------------------------------------------------------

/// The places of spans.
pub open spec fn places(spans: Seq<Span>) -> Seq<Place> {
    spans.map_values(|span: Span| span@)
}

/// Where the run without `/` that begins at `from` ends.
pub open spec fn piece_end(s: Seq<u8>, from: int) -> int
    decreases s.len() - from,
{
    if from < 0 || from >= s.len() || s[from] == SLASH {
        from
    } else {
        piece_end(s, from + 1)
    }
}

/// The bytes of the empty name `.`, which stands for the directory it is in.
pub open spec fn dot() -> Seq<u8> {
    seq![DOT]
}

/// The bytes of the name `..`, which stands for the parent directory.
pub open spec fn dot_dot() -> Seq<u8> {
    seq![DOT, DOT]
}

/// Whether the bytes from `start` to `end` are a component: empty runs are not, and `.` is
/// one at the beginning of a path only.
pub open spec fn is_component(s: Seq<u8>, start: int, end: int) -> bool {
    start < end && (s.subrange(start, end) != dot() || start == 0)
}

/// The components of `s` from position `from` on, which follows a `/` or begins the path.
pub open spec fn spans_from(s: Seq<u8>, from: int) -> Seq<Place>
    decreases s.len() - from + 1,
{
    if from < 0 || from > s.len() {
        Seq::empty()
    } else {
        proof {
            lemma_piece_end(s, from);
        }
        let end = piece_end(s, from);
        let rest = spans_from(s, end + 1);
        if is_component(s, from, end) {
            seq![Place { root: false, start: from, end }] + rest
        } else {
            rest
        }
    }
}

/// The components of a path: the root where it is absolute, then the names. Repeated and
/// trailing slashes do not count, and neither does a `.` behind a slash.
pub open spec fn spans(s: Seq<u8>) -> Seq<Place> {
    if s.len() > 0 && s[0] == SLASH {
        seq![Place { root: true, start: 0, end: 1 }] + spans_from(s, 1)
    } else {
        spans_from(s, 0)
    }
}

/// The bytes of the component at a place.
pub open spec fn component(s: Seq<u8>, place: Place) -> Seq<u8> {
    s.subrange(place.start, place.end)
}

/// The bytes of each component of a path; that of the root is `/`.
pub open spec fn components(s: Seq<u8>) -> Seq<Seq<u8>> {
    spans(s).map_values(|place: Place| component(s, place))
}

/// Whether two paths are the same: they have the same components.
pub open spec fn same_path(a: Seq<u8>, b: Seq<u8>) -> bool {
    components(a) == components(b)
}

/// A run without `/` ends where the next `/` stands, or with the path.
pub proof fn lemma_piece_end(s: Seq<u8>, from: int)
    requires
        0 <= from <= s.len(),
    ensures
        from <= piece_end(s, from) <= s.len(),
        piece_end(s, from) < s.len() ==> s[piece_end(s, from)] == SLASH,
        forall|i: int| from <= i < piece_end(s, from) ==> s[i] != SLASH,
    decreases s.len() - from,
{
    if from < s.len() && s[from] != SLASH {
        lemma_piece_end(s, from + 1);
    }
}

proof fn lemma_spans_from(s: Seq<u8>, from: int)
    requires
        0 <= from,
    ensures
        forall|i: int|
            0 <= i < spans_from(s, from).len() ==> {
                let place = #[trigger] spans_from(s, from)[i];
                !place.root && from <= place.start < place.end <= s.len()
            },
    decreases s.len() - from + 1,
{
    if from <= s.len() {
        lemma_piece_end(s, from);
        let end = piece_end(s, from);
        lemma_spans_from(s, end + 1);
        let rest = spans_from(s, end + 1);
        assert forall|i: int| 0 <= i < spans_from(s, from).len() implies {
            let place = #[trigger] spans_from(s, from)[i];
            !place.root && from <= place.start < place.end <= s.len()
        } by {
            if !is_component(s, from, end) {
                assert(spans_from(s, from)[i] == rest[i]);
            } else if i > 0 {
                assert(spans_from(s, from)[i] == rest[i - 1]);
            }
        }
    }
}

proof fn lemma_spans(s: Seq<u8>)
    ensures
        forall|i: int|
            0 <= i < spans(s).len() ==> {
                let place = #[trigger] spans(s)[i];
                0 <= place.start < place.end <= s.len() && (place.root ==> i == 0 && place.start == 0 && s[0] == SLASH)
            },
{
    lemma_spans_from(s, 0);
    lemma_spans_from(s, 1);
}

/// The file name of a path: its last component, unless that is the root, `..`, or the `.`
/// of a path that is only that.
pub open spec fn file_name(s: Seq<u8>) -> Option<Seq<u8>> {
    let all = spans(s);
    if all.len() == 0 || all.last().root {
        None
    } else {
        let name = component(s, all.last());
        if name == dot() || name == dot_dot() {
            None
        } else {
            Some(name)
        }
    }
}

/// A path without its last component, where it has one that is not the root.
pub open spec fn parent(s: Seq<u8>) -> Option<Seq<u8>> {
    let all = spans(s);
    if all.len() == 0 || all.last().root {
        None
    } else if all.len() == 1 {
        Some(Seq::empty())
    } else {
        Some(s.take(all[all.len() - 2].end))
    }
}

/// The position of the last dot of `s` before `end`.
pub open spec fn last_dot(s: Seq<u8>, end: int) -> Option<int>
    decreases end,
{
    if end <= 0 {
        None
    } else if s[end - 1] == DOT {
        Some(end - 1)
    } else {
        last_dot(s, end - 1)
    }
}

/// Where the stem of a file name ends: before its last dot, unless there is none or only
/// the first character is one.
pub open spec fn stem_end(name: Seq<u8>) -> int {
    match last_dot(name, name.len() as int) {
        Some(at) => if at == 0 {
            name.len() as int
        } else {
            at
        },
        None => name.len() as int,
    }
}

/// The file name of a path without its extension.
pub open spec fn file_stem(s: Seq<u8>) -> Option<Seq<u8>> {
    match file_name(s) {
        Some(name) => Some(name.take(stem_end(name))),
        None => None,
    }
}

/// The extension of a path: what follows the dot that ends the stem of its file name.
pub open spec fn extension(s: Seq<u8>) -> Option<Seq<u8>> {
    match file_name(s) {
        Some(name) => if stem_end(name) < name.len() {
            Some(name.skip(stem_end(name) + 1))
        } else {
            None
        },
        None => None,
    }
}

/// `base` with `rest` behind it. An absolute `rest` stands for itself.
pub open spec fn joined(base: Seq<u8>, rest: Seq<u8>) -> Seq<u8> {
    if rest.len() > 0 && rest[0] == SLASH {
        rest
    } else if base.len() > 0 && base.last() != SLASH {
        base.push(SLASH) + rest
    } else {
        base + rest
    }
}

/// The name to show for a path: its file name, or else the whole path.
pub open spec fn display_name(s: Seq<u8>) -> Seq<char> {
    match file_name(s) {
        Some(name) => lossy(name),
        None => lossy(s),
    }
}

/// The text of bytes that are UTF-8.
pub open spec fn exact_text(bytes: Seq<u8>) -> Option<Seq<char>> {
    if valid_utf8(bytes) {
        Some(decode_utf8(bytes))
    } else {
        None
    }
}

/// The bytes of `s` from `start` to `end`.
pub fn sub_bytes(s: &Vec<u8>, start: usize, end: usize) -> (r: Vec<u8>)
    requires
        start <= end <= s@.len(),
    ensures
        r@ == s@.subrange(start as int, end as int),
{
    let mut out: Vec<u8> = Vec::new();
    let mut i: usize = start;
    while i < end
        invariant
            start <= i <= end <= s@.len(),
            out@ == s@.subrange(start as int, i as int),
        decreases end - i,
    {
        out.push(s[i]);
        i = i + 1;
        assert(out@ =~= s@.subrange(start as int, i as int));
    }
    out
}

/// Whether two byte strings are equal.
pub fn same_bytes(a: &Vec<u8>, b: &Vec<u8>) -> (r: bool)
    ensures
        r == (a@ == b@),
{
    if a.len() != b.len() {
        return false;
    }
    let mut i: usize = 0;
    while i < a.len()
        invariant
            a@.len() == b@.len(),
            i <= a@.len(),
            forall|k: int| 0 <= k < i ==> a@[k] == b@[k],
        decreases a@.len() - i,
    {
        if a[i] != b[i] {
            return false;
        }
        i = i + 1;
    }
    assert(a@ =~= b@);
    true
}

impl FilePath {
    /// The path that a text names.
    pub fn from_text(text: &str) -> (r: FilePath)
        ensures
            r@ == encode_utf8(text@),
    {
        let bytes: &[u8] = text.as_bytes();
        let mut out: Vec<u8> = Vec::new();
        let mut i: usize = 0;
        while i < bytes.len()
            invariant
                bytes@ == encode_utf8(text@),
                i <= bytes@.len(),
                out@ == bytes@.take(i as int),
            decreases bytes@.len() - i,
        {
            out.push(bytes[i]);
            i = i + 1;
            assert(out@ =~= bytes@.take(i as int));
        }
        assert(out@ =~= bytes@);
        FilePath { bytes: out }
    }

    /// The components of this path.
    pub fn spans(&self) -> (r: Vec<Span>)
        ensures
            places(r@) == spans(self@),
    {
        let mut out: Vec<Span> = Vec::new();
        let n: usize = self.bytes.len();
        let mut from: usize = 0;
        if n > 0 && self.bytes[0] == SLASH {
            out.push(Span { root: true, start: 0, end: 1 });
            from = 1;
        }
        let mut more: bool = true;
        assert(spans(self@) =~= places(out@) + spans_from(self@, from as int));
        while more
            invariant
                n == self@.len(),
                more ==> from <= n,
                spans(self@) == places(out@) + (if more { spans_from(self@, from as int) } else { Seq::<Place>::empty() }),
            decreases (if more { n - from + 1 } else { 0 }),
        {
            let mut end: usize = from;
            while end < n && self.bytes[end] != SLASH
                invariant
                    n == self@.len(),
                    from <= end <= n,
                    piece_end(self@, from as int) == piece_end(self@, end as int),
                decreases n - end,
            {
                end = end + 1;
            }
            let ghost before = out@;
            let single_dot: bool = end - from == 1 && self.bytes[from] == DOT;
            assert(end > from ==> single_dot == (self@.subrange(from as int, end as int) == dot())) by {
                if single_dot {
                    assert(self@.subrange(from as int, end as int) =~= dot());
                } else if end > from && self@.subrange(from as int, end as int) == dot() {
                    assert(self@.subrange(from as int, end as int).len() == 1);
                    assert(self@.subrange(from as int, end as int)[0] == self@[from as int]);
                }
            }
            if from < end && (!single_dot || from == 0) {
                out.push(Span { root: false, start: from, end });
            }
            if end < n {
                from = end + 1;
            } else {
                more = false;
                assert(spans_from(self@, end + 1) == Seq::<Place>::empty());
            }
            assert(spans(self@) =~= places(out@) + (if more { spans_from(self@, from as int) } else { Seq::<Place>::empty() }));
        }
        assert(places(out@) + Seq::<Place>::empty() =~= places(out@));
        out
    }

    /// Whether this path and another are the same.
    pub fn same(&self, other: &FilePath) -> (r: bool)
        ensures
            r == same_path(self@, other@),
    {
        let a: Vec<Span> = self.spans();
        let b: Vec<Span> = other.spans();
        if a.len() != b.len() {
            assert(components(self@).len() != components(other@).len());
            return false;
        }
        let mut i: usize = 0;
        while i < a.len()
            invariant
                places(a@) == spans(self@),
                places(b@) == spans(other@),
                a@.len() == b@.len(),
                i <= a@.len(),
                forall|k: int| 0 <= k < i ==> components(self@)[k] == components(other@)[k],
            decreases a@.len() - i,
        {
            proof {
                lemma_spans(self@);
                lemma_spans(other@);
                assert(places(a@)[i as int] == a@[i as int]@);
                assert(places(b@)[i as int] == b@[i as int]@);
            }
            let x: Vec<u8> = sub_bytes(&self.bytes, a[i].start, a[i].end);
            let y: Vec<u8> = sub_bytes(&other.bytes, b[i].start, b[i].end);
            assert(components(self@)[i as int] == x@);
            assert(components(other@)[i as int] == y@);
            if !same_bytes(&x, &y) {
                return false;
            }
            i = i + 1;
        }
        assert(components(self@) =~= components(other@));
        true
    }

    /// The file name of this path.
    pub fn file_name(&self) -> (r: Option<Vec<u8>>)
        ensures
            r is Some <==> file_name(self@) is Some,
            r matches Some(name) ==> Some(name@) == file_name(self@),
    {
        let all: Vec<Span> = self.spans();
        proof {
            lemma_spans(self@);
        }
        let n: usize = all.len();
        assert(n > 0 ==> places(all@).last() == all@.last()@);
        assert(n > 1 ==> places(all@)[n - 2] == all@[n - 2]@);
        if n == 0 || all[n - 1].root {
            return None;
        }
        let name: Vec<u8> = sub_bytes(&self.bytes, all[n - 1].start, all[n - 1].end);
        let len: usize = name.len();
        proof {
            if name@ == dot() {
                assert(name@.len() == 1 && name@[0] == DOT);
            }
            if name@ == dot_dot() {
                assert(name@.len() == 2 && name@[0] == DOT && name@[1] == DOT);
            }
        }
        if len == 1 && name[0] == DOT {
            assert(name@ =~= dot());
            return None;
        }
        if len == 2 && name[0] == DOT && name[1] == DOT {
            assert(name@ =~= dot_dot());
            return None;
        }
        Some(name)
    }

    /// This path without its last component.
    pub fn parent(&self) -> (r: Option<FilePath>)
        ensures
            r is Some <==> parent(self@) is Some,
            r matches Some(p) ==> Some(p@) == parent(self@),
    {
        let all: Vec<Span> = self.spans();
        proof {
            lemma_spans(self@);
        }
        let n: usize = all.len();
        assert(n > 0 ==> places(all@).last() == all@.last()@);
        assert(n > 1 ==> places(all@)[n - 2] == all@[n - 2]@);
        if n == 0 || all[n - 1].root {
            return None;
        }
        if n == 1 {
            return Some(FilePath { bytes: Vec::new() });
        }
        Some(FilePath { bytes: sub_bytes(&self.bytes, 0, all[n - 2].end) })
    }

    /// The file name of this path without its extension.
    pub fn file_stem(&self) -> (r: Option<Vec<u8>>)
        ensures
            r is Some <==> file_stem(self@) is Some,
            r matches Some(stem) ==> Some(stem@) == file_stem(self@),
    {
        match self.file_name() {
            Some(name) => {
                let end: usize = stem_length(&name);
                Some(sub_bytes(&name, 0, end))
            },
            None => None,
        }
    }

    /// The extension of this path.
    pub fn extension(&self) -> (r: Option<Vec<u8>>)
        ensures
            r is Some <==> extension(self@) is Some,
            r matches Some(ext) ==> Some(ext@) == extension(self@),
    {
        match self.file_name() {
            Some(name) => {
                let end: usize = stem_length(&name);
                let n: usize = name.len();
                if end < n {
                    Some(sub_bytes(&name, end + 1, n))
                } else {
                    None
                }
            },
            None => None,
        }
    }

    /// This path with another behind it.
    pub fn join(&self, rest: &FilePath) -> (r: FilePath)
        ensures
            r@ == joined(self@, rest@),
    {
        if rest.bytes.len() > 0 && rest.bytes[0] == SLASH {
            return rest.clone();
        }
        let mut out: Vec<u8> = self.bytes.clone();
        let n: usize = out.len();
        if n > 0 && out[n - 1] != SLASH {
            out.push(SLASH);
        }
        let mut tail: Vec<u8> = rest.bytes.clone();
        out.append(&mut tail);
        FilePath { bytes: out }
    }

    /// The name to show for this path.
    pub fn display_name(&self) -> (r: String)
        ensures
            r@ == display_name(self@),
            file_name(self@) matches Some(name) ==> valid_utf8(name) ==> r@ == decode_utf8(name),
    {
        match self.file_name() {
            Some(name) => lossy_text(name.as_slice()),
            None => lossy_text(self.bytes.as_slice()),
        }
    }

    /// The text to show for this whole path.
    pub fn display(&self) -> (r: String)
        ensures
            r@ == lossy(self@),
            valid_utf8(self@) ==> r@ == decode_utf8(self@),
    {
        lossy_text(self.bytes.as_slice())
    }
}

/// The length of the stem of a file name.
fn stem_length(name: &Vec<u8>) -> (r: usize)
    ensures
        r == stem_end(name@),
        r <= name@.len(),
{
    let n: usize = name.len();
    let mut i: usize = n;
    while i > 0
        invariant
            n == name@.len(),
            i <= n,
            last_dot(name@, n as int) == last_dot(name@, i as int),
        decreases i,
    {
        if name[i - 1] == DOT {
            return if i == 1 {
                n
            } else {
                i - 1
            };
        }
        i = i - 1;
    }
    n
}

// ---------------------------------------------------------------------------
// Laws
// ---------------------------------------------------------------------------

/// A run that ends before a path is cut ends there in what is left, too.
proof fn lemma_piece_end_of_take(s: Seq<u8>, from: int, cut: int)
    requires
        0 <= from,
        piece_end(s, from) <= cut <= s.len(),
    ensures
        piece_end(s.take(cut), from) == piece_end(s, from),
    decreases s.len() - from,
{
    if from < s.len() {
        lemma_piece_end(s, from);
        if s[from] != SLASH {
            lemma_piece_end(s, from + 1);
            assert(s.take(cut)[from] == s[from]);
            lemma_piece_end_of_take(s, from + 1, cut);
        } else if from < cut {
            assert(s.take(cut)[from] == s[from]);
        }
    }
}

/// A path that is cut behind a component has the components up to that.
proof fn lemma_spans_from_of_take(s: Seq<u8>, from: int, k: int)
    requires
        0 <= from <= s.len(),
        0 <= k < spans_from(s, from).len(),
    ensures
        spans_from(s.take(spans_from(s, from)[k].end), from) == spans_from(s, from).take(k + 1),
    decreases s.len() - from + 1,
{
    lemma_piece_end(s, from);
    lemma_spans_from(s, from);
    let cut = spans_from(s, from)[k].end;
    let t = s.take(cut);
    let end = piece_end(s, from);
    lemma_spans_from(s, end + 1);
    let rest = spans_from(s, end + 1);
    if is_component(s, from, end) {
        let first = Place { root: false, start: from, end };
        assert(spans_from(s, from) == seq![first] + rest);
        if k > 0 {
            assert(rest[k - 1] == spans_from(s, from)[k]);
        }
        lemma_piece_end_of_take(s, from, cut);
        assert(t.subrange(from, end) =~= s.subrange(from, end));
        if k == 0 {
            assert(spans_from(t, end + 1) =~= Seq::empty());
            assert(spans_from(t, from) =~= spans_from(s, from).take(1));
        } else {
            lemma_spans_from_of_take(s, end + 1, k - 1);
            assert(spans_from(t, from) =~= spans_from(s, from).take(k + 1));
        }
    } else {
        assert(rest[k] == spans_from(s, from)[k]);
        lemma_piece_end_of_take(s, from, cut);
        assert(t.subrange(from, end) =~= s.subrange(from, end));
        lemma_spans_from_of_take(s, end + 1, k);
        assert(spans_from(t, from) =~= spans_from(s, from).take(k + 1));
    }
}

/// A path that is cut behind a component has the components up to that.
proof fn lemma_spans_of_take(s: Seq<u8>, k: int)
    requires
        0 <= k < spans(s).len(),
    ensures
        spans(s.take(spans(s)[k].end)) == spans(s).take(k + 1),
{
    lemma_spans(s);
    let cut = spans(s)[k].end;
    let t = s.take(cut);
    if s.len() > 0 && s[0] == SLASH {
        let rest = spans_from(s, 1);
        lemma_spans_from(s, 1);
        if k > 0 {
            assert(rest[k - 1] == spans(s)[k]);
            lemma_spans_from_of_take(s, 1, k - 1);
        } else {
            reveal_with_fuel(spans_from, 2);
            assert(spans_from(t, 1) =~= Seq::empty());
        }
        assert(t[0] == s[0]);
        assert(spans(t) =~= spans(s).take(k + 1));
    } else {
        lemma_spans_from(s, 0);
        lemma_spans_from_of_take(s, 0, k);
        assert(t.len() > 0 ==> t[0] == s[0]);
    }
}

/// The parent of a path has all of its components but the last.
pub proof fn parent_lacks_the_last_component(s: Seq<u8>)
    requires
        parent(s) is Some,
    ensures
        components(parent(s)->0) == components(s).drop_last(),
        components(s).len() > 0,
{
    let all = spans(s);
    let p = parent(s)->0;
    lemma_spans(s);
    if all.len() == 1 {
        reveal_with_fuel(spans_from, 2);
        assert(spans(p) =~= Seq::empty());
    } else {
        lemma_spans_of_take(s, all.len() - 2);
        lemma_spans(p);
        assert forall|i: int| 0 <= i < spans(p).len() implies component(p, #[trigger] spans(p)[i])
            == component(s, all[i]) by {
            assert(spans(p)[i] == all[i]);
            assert(component(p, all[i]) =~= component(s, all[i]));
        }
    }
    assert(components(p) =~= components(s).drop_last());
}

/// Whether bytes are the name of something in a directory.
pub open spec fn is_plain_name(name: Seq<u8>) -> bool {
    &&& name.len() > 0
    &&& name != dot()
    &&& name != dot_dot()
    &&& forall|i: int| 0 <= i < name.len() ==> #[trigger] name[i] != SLASH
}

proof fn lemma_piece_end_of_name(base: Seq<u8>, name: Seq<u8>, from: int)
    requires
        is_plain_name(name),
        base.len() <= from <= base.len() + name.len(),
    ensures
        piece_end(base + name, from) == base.len() + name.len(),
    decreases base.len() + name.len() - from,
{
    if from < base.len() + name.len() {
        assert((base + name)[from] == name[from - base.len()]);
        lemma_piece_end_of_name(base, name, from + 1);
    }
}

proof fn lemma_piece_end_with_more(base: Seq<u8>, more: Seq<u8>, from: int)
    requires
        0 <= from,
        piece_end(base, from) < base.len(),
    ensures
        piece_end(base + more, from) == piece_end(base, from),
    decreases base.len() - from,
{
    if from < base.len() {
        assert((base + more)[from] == base[from]);
        if base[from] != SLASH {
            lemma_piece_end_with_more(base, more, from + 1);
        }
    }
}

/// A name behind a slash, or alone, is one more component.
proof fn lemma_spans_from_with_name(base: Seq<u8>, name: Seq<u8>, from: int)
    requires
        is_plain_name(name),
        base.len() > 0 ==> base.last() == SLASH,
        0 <= from <= base.len(),
    ensures
        spans_from(base + name, from) == spans_from(base, from).push(
            Place { root: false, start: base.len() as int, end: (base.len() + name.len()) as int },
        ),
    decreases base.len() - from,
{
    let t = base + name;
    let place = Place { root: false, start: base.len() as int, end: (base.len() + name.len()) as int };
    if from == base.len() {
        reveal_with_fuel(spans_from, 2);
        lemma_piece_end_of_name(base, name, from);
        assert(t.subrange(from, t.len() as int) =~= name);
        assert(spans_from(base, from) =~= Seq::empty());
        assert(spans_from(t, from) =~= seq![place]);
        assert(spans_from(base, from).push(place) =~= seq![place]);
    } else {
        lemma_piece_end(base, from);
        let end = piece_end(base, from);
        assert(end < base.len());
        lemma_piece_end_with_more(base, name, from);
        assert(t.subrange(from, end) =~= base.subrange(from, end));
        lemma_spans_from_with_name(base, name, end + 1);
        assert(spans_from(t, from) =~= spans_from(base, from).push(place));
    }
}

/// A slash at the end adds no component.
proof fn lemma_spans_from_with_slash(base: Seq<u8>, from: int)
    requires
        0 <= from <= base.len(),
    ensures
        spans_from(base.push(SLASH), from) == spans_from(base, from),
    decreases base.len() - from,
{
    let t = base.push(SLASH);
    lemma_piece_end(base, from);
    lemma_piece_end(t, from);
    let end = piece_end(base, from);
    assert(t =~= base + seq![SLASH]);
    if end < base.len() {
        lemma_piece_end_with_more(base, seq![SLASH], from);
        assert(t.subrange(from, end) =~= base.subrange(from, end));
        lemma_spans_from_with_slash(base, end + 1);
    } else {
        let other = piece_end(t, from);
        assert(forall|i: int| from <= i < base.len() ==> t[i] == #[trigger] base[i]);
        assert(t[base.len() as int] == SLASH);
        if other < base.len() {
            assert(base[other] == t[other]);
        }
        assert(other == end);
        assert(t.subrange(from, end) =~= base.subrange(from, end));
        reveal_with_fuel(spans_from, 3);
        assert(spans_from(t, end + 1) =~= Seq::empty());
        assert(spans_from(base, end + 1) =~= Seq::empty());
    }
}

/// A path in a directory has the components of the directory and its own name.
pub proof fn joining_adds_a_component(dir: Seq<u8>, name: Seq<u8>)
    requires
        is_plain_name(name),
    ensures
        components(joined(dir, name)) == components(dir).push(name),
{
    let base = if dir.len() > 0 && dir.last() != SLASH {
        dir.push(SLASH)
    } else {
        dir
    };
    let t = base + name;
    assert(name[0] != SLASH);
    assert(joined(dir, name) == t);
    if dir.len() > 0 && dir.last() != SLASH {
        lemma_spans_from_with_slash(dir, 0);
        lemma_spans_from_with_slash(dir, 1);
        assert(base[0] == dir[0]);
    }
    assert(spans(base) == spans(dir));
    lemma_spans_from_with_name(base, name, 0);
    if base.len() > 0 {
        assert(t[0] == base[0]);
        lemma_spans_from_with_name(base, name, 1);
    } else {
        assert(t[0] == name[0]);
    }
    let place = Place { root: false, start: base.len() as int, end: t.len() as int };
    assert(spans(t) =~= spans(base).push(place));
    lemma_spans(dir);
    assert forall|i: int| 0 <= i < spans(dir).len() implies component(t, #[trigger] spans(dir)[i])
        == component(dir, spans(dir)[i]) by {
        assert(component(t, spans(dir)[i]) =~= component(dir, spans(dir)[i]));
    }
    assert(component(t, place) =~= name);
    assert(components(t) =~= components(dir).push(name));
}

/// A path in a directory has its own name as file name, and the directory as parent.
pub proof fn joined_path_is_in_the_directory(dir: Seq<u8>, name: Seq<u8>)
    requires
        is_plain_name(name),
    ensures
        file_name(joined(dir, name)) == Some(name),
        parent(joined(dir, name)) matches Some(p) && same_path(p, dir),
{
    joining_adds_a_component(dir, name);
    let t = joined(dir, name);
    lemma_spans(t);
    let last = spans(t).last();
    assert(components(t).last() == name);
    assert(component(t, last) == name);
    if last.root {
        assert(spans(t)[0] == last);
        assert(component(t, last)[0] == t[0]);
        assert(name[0] != SLASH);
    }
    parent_lacks_the_last_component(t);
    assert(components(dir).push(name).drop_last() =~= components(dir));
}

/// Paths that are the same have the same file name.
pub proof fn same_paths_have_the_same_name(a: Seq<u8>, b: Seq<u8>)
    requires
        same_path(a, b),
    ensures
        file_name(a) == file_name(b),
{
    lemma_spans(a);
    lemma_spans(b);
    let n = spans(a).len();
    assert(components(a).len() == n && components(b).len() == spans(b).len());
    if n > 0 {
        let x = spans(a).last();
        let y = spans(b).last();
        assert(components(a)[n - 1] == component(a, x));
        assert(components(b)[n - 1] == component(b, y));
        lemma_root_is_no_name(a);
        lemma_root_is_no_name(b);
    }
}

/// The component of the root is a slash, and no other holds one.
proof fn lemma_root_is_no_name(s: Seq<u8>)
    ensures
        forall|i: int|
            0 <= i < spans(s).len() ==> ((#[trigger] spans(s)[i]).root <==> component(s, spans(s)[i])
                == seq![SLASH]),
{
    lemma_spans(s);
    lemma_names_hold_no_slash(s, 0);
    lemma_names_hold_no_slash(s, 1);
    assert forall|i: int| 0 <= i < spans(s).len() implies ((#[trigger] spans(s)[i]).root <==> component(
        s,
        spans(s)[i],
    ) == seq![SLASH]) by {
        let place = spans(s)[i];
        if place.root {
            assert(component(s, place) =~= seq![SLASH]);
        } else {
            assert(s[place.start] != SLASH);
            assert(component(s, place)[0] == s[place.start]);
        }
    }
}

proof fn lemma_names_hold_no_slash(s: Seq<u8>, from: int)
    requires
        0 <= from,
    ensures
        forall|i: int|
            0 <= i < spans_from(s, from).len() ==> s[(#[trigger] spans_from(s, from)[i]).start] != SLASH,
    decreases s.len() - from + 1,
{
    if from <= s.len() {
        lemma_piece_end(s, from);
        let end = piece_end(s, from);
        lemma_names_hold_no_slash(s, end + 1);
        let rest = spans_from(s, end + 1);
        assert forall|i: int| 0 <= i < spans_from(s, from).len() implies s[(#[trigger] spans_from(
            s,
            from,
        )[i]).start] != SLASH by {
            if !is_component(s, from, end) {
                assert(spans_from(s, from)[i] == rest[i]);
            } else if i > 0 {
                assert(spans_from(s, from)[i] == rest[i - 1]);
            }
        }
    }
}

proof fn lemma_last_dot_of_name(stem: Seq<u8>, ext: Seq<u8>, end: int)
    requires
        stem.len() < end <= stem.len() + 1 + ext.len(),
        forall|i: int| 0 <= i < ext.len() ==> #[trigger] ext[i] != DOT,
    ensures
        last_dot(stem + seq![DOT] + ext, end) == Some(stem.len() as int),
    decreases end,
{
    let name = stem + seq![DOT] + ext;
    if end == stem.len() + 1 {
        assert(name[end - 1] == DOT);
    } else {
        assert(name[end - 1] == ext[end - 1 - stem.len() - 1]);
        lemma_last_dot_of_name(stem, ext, end - 1);
    }
}

/// A file name is its stem, a dot, and its extension, in which there is no dot.
pub proof fn name_is_stem_and_extension(dir: Seq<u8>, stem: Seq<u8>, ext: Seq<u8>)
    requires
        stem.len() > 0,
        is_plain_name(stem + seq![DOT] + ext),
        forall|i: int| 0 <= i < ext.len() ==> #[trigger] ext[i] != DOT,
    ensures
        file_stem(joined(dir, stem + seq![DOT] + ext)) == Some(stem),
        extension(joined(dir, stem + seq![DOT] + ext)) == Some(ext),
{
    let name = stem + seq![DOT] + ext;
    joined_path_is_in_the_directory(dir, name);
    lemma_last_dot_of_name(stem, ext, name.len() as int);
    assert(name.take(stem.len() as int) =~= stem);
    assert(name.skip(stem.len() as int + 1) =~= ext);
}

proof fn lemma_no_last_dot(name: Seq<u8>, end: int)
    requires
        0 <= end <= name.len(),
        forall|i: int| 1 <= i < name.len() ==> #[trigger] name[i] != DOT,
    ensures
        last_dot(name, end) is None || last_dot(name, end) == Some(0int),
    decreases end,
{
    if end > 1 {
        assert(name[end - 1] != DOT);
        lemma_no_last_dot(name, end - 1);
    } else if end == 1 {
        lemma_no_last_dot(name, 0);
    }
}

/// A file name without a dot behind its first character is its own stem, and has no extension.
pub proof fn name_without_a_dot_is_its_stem(dir: Seq<u8>, name: Seq<u8>)
    requires
        is_plain_name(name),
        forall|i: int| 1 <= i < name.len() ==> #[trigger] name[i] != DOT,
    ensures
        file_stem(joined(dir, name)) == Some(name),
        extension(joined(dir, name)) is None,
{
    joined_path_is_in_the_directory(dir, name);
    lemma_no_last_dot(name, name.len() as int);
    assert(name.take(name.len() as int) =~= name);
}

/// A slash behind a path that has something before it does not change the path.
pub proof fn trailing_slash_does_not_count(s: Seq<u8>)
    requires
        s.len() > 0,
    ensures
        same_path(s.push(SLASH), s),
{
    let t = s.push(SLASH);
    lemma_spans_from_with_slash(s, 0);
    lemma_spans_from_with_slash(s, 1);
    assert(t[0] == s[0]);
    lemma_spans(s);
    assert forall|i: int| 0 <= i < spans(s).len() implies component(t, #[trigger] spans(s)[i]) == component(
        s,
        spans(s)[i],
    ) by {
        assert(component(t, spans(s)[i]) =~= component(s, spans(s)[i]));
    }
    assert(components(t) =~= components(s));
}

/// Different names in a directory are different paths, and one name in different directories is.
pub proof fn joined_paths_differ_by_their_parts(dir: Seq<u8>, name: Seq<u8>, other: Seq<u8>, another: Seq<u8>)
    requires
        is_plain_name(name),
        is_plain_name(another),
    ensures
        same_path(joined(dir, name), joined(other, another)) <==> same_path(dir, other) && name == another,
{
    joining_adds_a_component(dir, name);
    joining_adds_a_component(other, another);
    let x = components(dir).push(name);
    let y = components(other).push(another);
    if x == y {
        assert(x.last() == y.last());
        assert(x.drop_last() =~= components(dir));
        assert(y.drop_last() =~= components(other));
    }
}

/// An absolute path stands for itself behind any other.
pub proof fn absolute_path_stands_for_itself(dir: Seq<u8>, path: Seq<u8>)
    requires
        path.len() > 0,
        path[0] == SLASH,
    ensures
        joined(dir, path) == path,
{
}

/// A path in a directory is shown by its own name, wherever the directory is; a path without a file
/// name is shown whole.
pub proof fn path_is_shown_by_its_name(dir: Seq<u8>, name: Seq<u8>, s: Seq<u8>)
    requires
        is_plain_name(name),
    ensures
        display_name(joined(dir, name)) == lossy(name),
        file_name(s) is None ==> display_name(s) == lossy(s),
{
    joined_path_is_in_the_directory(dir, name);
}

/// The root, and a path of `..` or nothing, have no file name, and the root and the empty path have
/// no parent.
pub proof fn some_paths_have_no_name(s: Seq<u8>)
    ensures
        s == seq![SLASH] ==> file_name(s) is None && parent(s) is None,
        s.len() == 0 ==> file_name(s) is None && parent(s) is None,
        s == dot_dot() ==> file_name(s) is None,
{
    reveal_with_fuel(spans_from, 3);
    reveal_with_fuel(piece_end, 4);
    if s == seq![SLASH] {
        assert(s.len() == 1 && s[0] == SLASH);
        assert(spans_from(s, 1) =~= Seq::empty());
        assert(spans(s) =~= seq![Place { root: true, start: 0, end: 1 }]);
    }
    if s.len() == 0 {
        assert(spans(s) =~= Seq::empty());
    }
    if s == dot_dot() {
        assert(s.len() == 2 && s[0] == DOT && s[1] == DOT);
        assert(s.subrange(0, 2) =~= s);
        assert(s.subrange(0, 2).len() == 2);
        assert(dot().len() == 1);
        assert(piece_end(s, 0) == 2);
        assert(spans_from(s, 3) =~= Seq::empty());
        assert(spans(s) =~= seq![Place { root: false, start: 0, end: 2 }]);
    }
}

}

//! The artwork of tracks: finding it in a file's tags, and keeping it.
use crate::path::{components, same_path, FilePath};
use vstd::prelude::*;

verus! {

/// An image, as the image decoder gives it.
#[verifier::external_type_specification]
#[verifier::external_body]
pub struct ExDynamicImage(image::DynamicImage);

/// The pictures of one tag, each as the bytes of an image file, in their order.
pub struct Tag {
    pub pictures: Vec<Vec<u8>>,
}

/// The tags of a file that matter for its artwork.
pub struct Tags {
    /// The tag of the kind that is usual for the file's format, where it has one.
    pub primary: Option<Tag>,
    /// The first tag of any kind, where it has one.
    pub first: Option<Tag>,
}

/// The bytes of the artwork: the first picture of the primary tag, or of the first tag where
/// there is no primary one.
pub open spec fn cover(tags: Tags) -> Option<Seq<u8>> {
    let tag = if tags.primary is Some {
        tags.primary
    } else {
        tags.first
    };
    match tag {
        Some(t) => if t.pictures@.len() > 0 {
            Some(t.pictures@[0]@)
        } else {
            None
        },
        None => None,
    }
}

/// Whether `image::load_from_memory` may decode the bytes of an image file to this image, or to
/// none where it fails.
pub uninterp spec fn may_decode(data: Seq<u8>, image: Option<image::DynamicImage>) -> bool;

/// `image::load_from_memory`, with its error left out. Besides the bytes it goes by the decoders
/// that the process has registered with `image::hooks`, so that nothing is said of two calls.
#[verifier::external_body]
fn load_image(data: &[u8]) -> (r: Option<image::DynamicImage>)
    ensures
        may_decode(data@, r),
{
    image::load_from_memory(data).ok()
}

/// The bytes of the artwork.
pub fn cover_data(tags: &Tags) -> (r: Option<&Vec<u8>>)
    ensures
        cover(*tags) == (match r {
            Some(data) => Some(data@),
            None => None,
        }),
{
    let tag: &Option<Tag> = if tags.primary.is_some() {
        &tags.primary
    } else {
        &tags.first
    };
    match tag {
        Some(t) => if t.pictures.len() > 0 {
            Some(&t.pictures[0])
        } else {
            None
        },
        None => None,
    }
}

/// Whether this may be the artwork of a file with tags: what its picture is decoded to, and none
/// where it has no picture.
pub open spec fn may_be_art(tags: Tags, art: Option<image::DynamicImage>) -> bool {
    match cover(tags) {
        Some(data) => may_decode(data, art),
        None => art is None,
    }
}

/// The artwork of a file whose tags were read; `None` stands for a file whose tags cannot be.
pub fn extract_album_art(tags: Option<&Tags>) -> (r: Option<image::DynamicImage>)
    ensures
        match tags {
            Some(t) => may_be_art(*t, r),
            None => r is None,
        },
{
    match tags {
        Some(t) => match cover_data(t) {
            Some(data) => load_image(data.as_slice()),
            None => None,
        },
        None => None,
    }
}

// ---------------------------------------------------------------------------
// The artwork that was seen before
// ---------------------------------------------------------------------------

/// The artwork of the tracks that were played, so that it is not looked for again. That a
/// track has none is kept too.
pub struct ArtCache {
    pub kept: Vec<(FilePath, Option<image::DynamicImage>)>,
}

impl View for ArtCache {
    type V = Map<Seq<Seq<u8>>, Option<image::DynamicImage>>;

    /// What is known, by the components of a path.
    open spec fn view(&self) -> Self::V {
        art_map(self.kept@)
    }
}

/// What is known, by the components of a path.
pub open spec fn art_map(s: Seq<(FilePath, Option<image::DynamicImage>)>) -> Map<
    Seq<Seq<u8>>,
    Option<image::DynamicImage>,
>
    decreases s.len(),
{
    if s.len() == 0 {
        Map::empty()
    } else {
        art_map(s.drop_last()).insert(components(s.last().0@), s.last().1)
    }
}

impl ArtCache {
    /// No path is kept twice.
    pub open spec fn wf(self) -> bool {
        forall|i: int, j: int|
            0 <= i < j < self.kept@.len() ==> !same_path(
                #[trigger] self.kept@[i].0@,
                #[trigger] self.kept@[j].0@,
            )
    }

    /// Nothing is known yet.
    pub fn new() -> (r: ArtCache)
        ensures
            r@ == Map::<Seq<Seq<u8>>, Option<image::DynamicImage>>::empty(),
            r.wf(),
    {
        ArtCache { kept: Vec::new() }
    }

    fn find(&self, path: &FilePath) -> (r: Option<usize>)
        requires
            self.wf(),
        ensures
            r is Some <==> self@.contains_key(components(path@)),
            r matches Some(i) ==> i < self.kept@.len() && self@[components(path@)] == self.kept@[i as int].1,
    {
        let mut i: usize = 0;
        while i < self.kept.len()
            invariant
                self.wf(),
                i <= self.kept@.len(),
                forall|k: int| 0 <= k < i ==> !same_path(#[trigger] self.kept@[k].0@, path@),
            decreases self.kept@.len() - i,
        {
            if self.kept[i].0.same(path) {
                proof {
                    lemma_kept_is_known(self.kept@, i as int);
                }
                return Some(i);
            }
            i = i + 1;
        }
        proof {
            lemma_known_is_kept(self.kept@, components(path@));
        }
        None
    }

    /// Whether it is known what artwork a track has, if any.
    pub fn knows(&self, path: &FilePath) -> (r: bool)
        requires
            self.wf(),
        ensures
            r == self@.contains_key(components(path@)),
    {
        self.find(path).is_some()
    }

    /// The artwork of a track, where it is known to have one.
    pub fn art(&self, path: &FilePath) -> (r: Option<&image::DynamicImage>)
        requires
            self.wf(),
        ensures
            (match r {
                Some(image) => Some(*image),
                None => None,
            }) == known_art(self@, path@),
    {
        match self.find(path) {
            Some(i) => match &self.kept[i].1 {
                Some(image) => Some(image),
                None => None,
            },
            None => None,
        }
    }

    /// The artwork of a track that is played. Where it is not known, it is taken from the tags
    /// of the file, if these can be read, and kept.
    pub fn art_for(&mut self, path: &FilePath, tags: Option<&Tags>) -> (r: Option<&image::DynamicImage>)
        requires
            old(self).wf(),
        ensures
            final(self).wf(),
            may_be_known(old(self)@, path@, tags, final(self)@),
            known_art(final(self)@, path@) == (match r {
                Some(image) => Some(*image),
                None => None,
            }),
    {
        if !self.knows(path) {
            let art: Option<image::DynamicImage> = extract_album_art(tags);
            assert(may_be_known_with(self@, path@, tags, kept_too(self@, path@, art), art));
            self.keep(path, art);
        }
        self.art(path)
    }

    /// Keeps what was found for a track, unless something is known of it already.
    pub fn keep(&mut self, path: &FilePath, art: Option<image::DynamicImage>)
        requires
            old(self).wf(),
        ensures
            final(self).wf(),
            final(self)@ == kept_too(old(self)@, path@, art),
    {
        if !self.knows(path) {
            proof {
                assert forall|i: int| 0 <= i < self.kept@.len() implies !same_path(
                    #[trigger] self.kept@[i].0@,
                    path@,
                ) by {
                    lemma_kept_is_known(self.kept@, i);
                }
            }
            self.kept.push((path.clone(), art));
            assert(self.kept@.drop_last() =~= old(self).kept@);
        }
    }
}

/// Whether this may be known when the artwork of a track was asked for: what was known, and, if
/// nothing was known of the track, what may have been found in the tags of its file.
pub open spec fn may_be_known(
    known: Map<Seq<Seq<u8>>, Option<image::DynamicImage>>,
    path: Seq<u8>,
    tags: Option<&Tags>,
    after: Map<Seq<Seq<u8>>, Option<image::DynamicImage>>,
) -> bool {
    if known.contains_key(components(path)) {
        after == known
    } else {
        exists|art: Option<image::DynamicImage>| may_be_known_with(known, path, tags, after, art)
    }
}

/// Whether this is known when this was found in the tags of the file of a track.
pub open spec fn may_be_known_with(
    known: Map<Seq<Seq<u8>>, Option<image::DynamicImage>>,
    path: Seq<u8>,
    tags: Option<&Tags>,
    after: Map<Seq<Seq<u8>>, Option<image::DynamicImage>>,
    art: Option<image::DynamicImage>,
) -> bool {
    &&& after == kept_too(known, path, art)
    &&& match tags {
        Some(t) => may_be_art(*t, art),
        None => art is None,
    }
}

/// The artwork that a track is known to have.
pub open spec fn known_art(known: Map<Seq<Seq<u8>>, Option<image::DynamicImage>>, path: Seq<u8>) -> Option<
    image::DynamicImage,
> {
    if known.contains_key(components(path)) {
        known[components(path)]
    } else {
        None
    }
}

/// What is known once something was found for a track.
pub open spec fn kept_too(
    known: Map<Seq<Seq<u8>>, Option<image::DynamicImage>>,
    path: Seq<u8>,
    art: Option<image::DynamicImage>,
) -> Map<Seq<Seq<u8>>, Option<image::DynamicImage>> {
    if known.contains_key(components(path)) {
        known
    } else {
        known.insert(components(path), art)
    }
}

proof fn lemma_kept_is_known(s: Seq<(FilePath, Option<image::DynamicImage>)>, i: int)
    requires
        0 <= i < s.len(),
    ensures
        art_map(s).contains_key(components(s[i].0@)),
        (forall|j: int| i < j < s.len() ==> !same_path(s[i].0@, #[trigger] s[j].0@)) ==> art_map(
            s,
        )[components(s[i].0@)] == s[i].1,
    decreases s.len(),
{
    if i < s.len() - 1 {
        let front = s.drop_last();
        lemma_kept_is_known(front, i);
        assert(front[i] == s[i]);
        if forall|j: int| i < j < s.len() ==> !same_path(s[i].0@, #[trigger] s[j].0@) {
            assert forall|j: int| i < j < front.len() implies !same_path(
                front[i].0@,
                #[trigger] front[j].0@,
            ) by {
                assert(front[j] == s[j]);
            }
        }
    }
}

proof fn lemma_known_is_kept(s: Seq<(FilePath, Option<image::DynamicImage>)>, key: Seq<Seq<u8>>)
    ensures
        art_map(s).contains_key(key) ==> exists|i: int|
            0 <= i < s.len() && components(#[trigger] s[i].0@) == key,
    decreases s.len(),
{
    if s.len() > 0 && art_map(s).contains_key(key) {
        let front = s.drop_last();
        lemma_known_is_kept(front, key);
        if components(s.last().0@) == key {
            assert(components(s[s.len() - 1].0@) == key);
        } else {
            let i = choose|i: int| 0 <= i < front.len() && components(#[trigger] front[i].0@) == key;
            assert(front[i] == s[i]);
        }
    }
}

/// What is known of one spelling of a path is known of every other, and what was found first
/// stays.
pub proof fn first_art_stays(
    known: Map<Seq<Seq<u8>>, Option<image::DynamicImage>>,
    path: Seq<u8>,
    other: Seq<u8>,
    found: Option<image::DynamicImage>,
    later: Option<image::DynamicImage>,
)
    requires
        same_path(path, other),
        !known.contains_key(components(path)),
    ensures
        known_art(kept_too(known, path, found), other) == found,
        kept_too(kept_too(known, path, found), other, later) == kept_too(known, path, found),
{
}

/// To find artwork for one track changes nothing that is known of another.
pub proof fn art_of_others_stays(
    known: Map<Seq<Seq<u8>>, Option<image::DynamicImage>>,
    path: Seq<u8>,
    other: Seq<u8>,
    found: Option<image::DynamicImage>,
)
    requires
        !same_path(path, other),
    ensures
        known_art(kept_too(known, path, found), other) == known_art(known, other),
        kept_too(known, path, found).contains_key(components(other)) == known.contains_key(
            components(other),
        ),
{
}

/// The artwork is the first picture of the primary tag, and of the first tag only where there is no
/// primary one. A tag without pictures has none, even if the other has one.
pub proof fn primary_tag_comes_first(tags: Tags)
    ensures
        tags.primary matches Some(t) ==> t.pictures@.len() > 0 ==> cover(tags) == Some(t.pictures@[0]@),
        tags.primary matches Some(t) ==> t.pictures@.len() == 0 ==> cover(tags) is None,
        tags.primary is None ==> (tags.first matches Some(t) ==> t.pictures@.len() > 0 ==> cover(tags) == Some(
            t.pictures@[0]@,
        )),
        tags.primary is None ==> (tags.first matches Some(t) ==> t.pictures@.len() == 0 ==> cover(tags) is None),
        tags.primary is None && tags.first is None ==> cover(tags) is None,
{
}

/// When the artwork of a track was asked for, it is known, and what is known of other tracks stays.
/// What was known of it before stays too; a file whose tags cannot be read has none, and one whose
/// tags can be read has what its picture may be decoded to.
pub proof fn artwork_is_known_when_asked_for(
    known: Map<Seq<Seq<u8>>, Option<image::DynamicImage>>,
    path: Seq<u8>,
    tags: Option<&Tags>,
    after: Map<Seq<Seq<u8>>, Option<image::DynamicImage>>,
    other: Seq<u8>,
)
    requires
        may_be_known(known, path, tags, after),
    ensures
        after.contains_key(components(path)),
        known.contains_key(components(path)) ==> after == known,
        !known.contains_key(components(path)) ==> match tags {
            Some(t) => match cover(*t) {
                Some(data) => may_decode(data, known_art(after, path)),
                None => known_art(after, path) is None,
            },
            None => known_art(after, path) is None,
        },
        !same_path(path, other) ==> known_art(after, other) == known_art(known, other),
{
}

}

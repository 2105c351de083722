use image::{DynamicImage, GenericImageView, ImageFormat};
use tuiplay::artwork::{cover_data, extract_album_art, ArtCache, Tag, Tags};
use tuiplay::path::FilePath;

fn path(s: &str) -> FilePath {
    FilePath::from_text(s)
}

fn picture(width: u32, height: u32) -> Vec<u8> {
    let mut out = std::io::Cursor::new(Vec::new());
    DynamicImage::new_rgb8(width, height).write_to(&mut out, ImageFormat::Png).unwrap();
    out.into_inner()
}

fn tag(pictures: Vec<Vec<u8>>) -> Option<Tag> {
    Some(Tag { pictures })
}

fn size(art: Option<&DynamicImage>) -> Option<(u32, u32)> {
    art.map(|a| a.dimensions())
}

#[test]
fn first_picture_of_the_primary_tag_is_taken() {
    let tags = Tags { primary: tag(vec![vec![1], vec![2]]), first: tag(vec![vec![3]]) };
    assert_eq!(cover_data(&tags), Some(&vec![1]));
    let tags = Tags { primary: None, first: tag(vec![vec![3], vec![4]]) };
    assert_eq!(cover_data(&tags), Some(&vec![3]));
    let tags = Tags { primary: tag(vec![]), first: tag(vec![vec![3]]) };
    assert_eq!(cover_data(&tags), None);
    let tags = Tags { primary: None, first: None };
    assert_eq!(cover_data(&tags), None);
}

#[test]
fn pictures_are_decoded() {
    let tags = Tags { primary: tag(vec![picture(2, 3)]), first: None };
    assert_eq!(size(extract_album_art(Some(&tags)).as_ref()), Some((2, 3)));
    let tags = Tags { primary: None, first: tag(vec![picture(5, 1), picture(1, 1)]) };
    assert_eq!(size(extract_album_art(Some(&tags)).as_ref()), Some((5, 1)));
}

#[test]
fn files_without_a_good_picture_have_no_artwork() {
    assert!(extract_album_art(None).is_none());
    assert!(extract_album_art(Some(&Tags { primary: None, first: None })).is_none());
    assert!(extract_album_art(Some(&Tags { primary: tag(vec![]), first: None })).is_none());
    let broken = Tags { primary: tag(vec![vec![1, 2, 3]]), first: tag(vec![picture(1, 1)]) };
    assert!(extract_album_art(Some(&broken)).is_none());
}

#[test]
fn artwork_is_kept_once_for_a_path() {
    let mut cache = ArtCache::new();
    assert!(!cache.knows(&path("/m/a.mp3")));
    assert!(cache.art(&path("/m/a.mp3")).is_none());
    cache.keep(&path("/m/a.mp3"), Some(DynamicImage::new_rgb8(2, 3)));
    cache.keep(&path("/m/b.mp3"), None);
    assert!(cache.knows(&path("/m//a.mp3")));
    assert!(cache.knows(&path("/m/b.mp3")));
    assert!(!cache.knows(&path("/m/c.mp3")));
    assert_eq!(size(cache.art(&path("/m/./a.mp3"))), Some((2, 3)));
    assert!(cache.art(&path("/m/b.mp3")).is_none());
    cache.keep(&path("/m//a.mp3"), None);
    cache.keep(&path("/m/b.mp3"), Some(DynamicImage::new_rgb8(9, 9)));
    assert_eq!(size(cache.art(&path("/m/a.mp3"))), Some((2, 3)));
    assert!(cache.art(&path("/m/b.mp3")).is_none());
    assert_eq!(cache.kept.len(), 2);
}

#[test]
fn artwork_is_looked_for_once() {
    let mut cache = ArtCache::new();
    let tags = Tags { primary: tag(vec![picture(2, 3)]), first: None };
    let other = Tags { primary: tag(vec![picture(7, 7)]), first: None };
    assert_eq!(size(cache.art_for(&path("/m/a.mp3"), Some(&tags))), Some((2, 3)));
    assert_eq!(size(cache.art_for(&path("/m//a.mp3"), Some(&other))), Some((2, 3)));
    assert_eq!(size(cache.art_for(&path("/m/a.mp3"), None)), Some((2, 3)));
    assert!(cache.art_for(&path("/m/b.mp3"), None).is_none());
    assert!(cache.art_for(&path("/m/b.mp3"), Some(&tags)).is_none());
    assert_eq!(size(cache.art_for(&path("/m/c.mp3"), Some(&other))), Some((7, 7)));
    assert_eq!(cache.kept.len(), 3);
}

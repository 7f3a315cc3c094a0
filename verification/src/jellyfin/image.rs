//! Where the image of an item lies.

use vstd::prelude::*;
use crate::collection::collection::CollectionView;
use crate::collection::collectionrepo::{item_by_id, CollectionRepo};
use crate::collection::item::{ItemRef, ItemView};
use crate::text::same_text;

verus! {

/// Where an image lies: the directory of the collection, the directory of
/// the item below it, which may be empty, and the name of the file.
#[derive(Debug, Clone)]
pub struct ImageLocation {
    pub directory: String,
    pub item_path: String,
    pub file_name: String,
}

/// The kinds of image that can be asked for.
#[derive(Debug, Clone, Copy)]
pub enum ImageKind {
    Poster,
    Fanart,
    Banner,
    Thumb,
    Logo,
}

/// The kind of image that a name of the API stands for.
pub open spec fn kind_of_image(image_type: Seq<char>) -> Option<ImageKind> {
    if image_type == "Primary"@ || image_type == "Poster"@ {
        Some(ImageKind::Poster)
    } else if image_type == "Backdrop"@ || image_type == "Fanart"@ {
        Some(ImageKind::Fanart)
    } else if image_type == "Banner"@ {
        Some(ImageKind::Banner)
    } else if image_type == "Thumb"@ {
        Some(ImageKind::Thumb)
    } else if image_type == "Logo"@ {
        Some(ImageKind::Logo)
    } else {
        None
    }
}

/// The file name of the image of one kind that an item has; empty where it
/// has none. The poster of a season without one is the poster that its
/// show has for all seasons; the poster of an episode is its thumbnail.
pub open spec fn image_file(item: ItemView, kind: ImageKind) -> Seq<char> {
    match kind {
        ImageKind::Poster => match item {
            ItemView::Movie(m) => m.poster,
            ItemView::Show(s) => s.poster,
            ItemView::Season(s) => if s.poster.len() > 0 {
                s.poster
            } else {
                s.season_all_poster
            },
            ItemView::Episode(e) => e.thumb,
        },
        ImageKind::Fanart => match item {
            ItemView::Movie(m) => m.fanart,
            ItemView::Show(s) => s.fanart,
            ItemView::Season(s) => s.fanart,
            ItemView::Episode(_) => Seq::empty(),
        },
        ImageKind::Banner => match item {
            ItemView::Movie(m) => m.banner,
            ItemView::Show(s) => s.banner,
            ItemView::Season(s) => s.banner,
            ItemView::Episode(_) => Seq::empty(),
        },
        ImageKind::Thumb => match item {
            ItemView::Episode(e) => e.thumb,
            _ => Seq::empty(),
        },
        ImageKind::Logo => match item {
            ItemView::Show(s) => s.logo,
            _ => Seq::empty(),
        },
    }
}

/// The directory of an item, relative to the root of its collection.
pub open spec fn path_of(item: ItemView) -> Seq<char> {
    match item {
        ItemView::Movie(m) => m.path,
        ItemView::Show(s) => s.path,
        ItemView::Season(s) => s.path,
        ItemView::Episode(e) => e.path,
    }
}

/// Where the image of a kind of an item lies, as three texts: the directory
/// of the collection, the directory of the item, the name of the file.
/// Nothing where the item is not found, the kind is not known or the item
/// has no image of the kind.
pub open spec fn image_location(
    c: Seq<CollectionView>,
    item_id: Seq<char>,
    image_type: Seq<char>,
) -> Option<(Seq<char>, Seq<char>, Seq<char>)> {
    let found = item_by_id(c, item_id, 0);
    let (collection, item) = found->0;
    let kind = kind_of_image(image_type);
    if found is Some && kind is Some && image_file(item, kind->0).len() > 0 {
        Some((collection.directory, path_of(item), image_file(item, kind->0)))
    } else {
        None
    }
}

/// The kind of image that a name of the API stands for: `Primary` or
/// `Poster`, `Backdrop` or `Fanart`, `Banner`, `Thumb`, `Logo`.
pub fn image_kind(image_type: &str) -> (r: Option<ImageKind>)
    ensures
        r == kind_of_image(image_type@),
{
    if same_text(image_type, "Primary") || same_text(image_type, "Poster") {
        Some(ImageKind::Poster)
    } else if same_text(image_type, "Backdrop") || same_text(image_type, "Fanart") {
        Some(ImageKind::Fanart)
    } else if same_text(image_type, "Banner") {
        Some(ImageKind::Banner)
    } else if same_text(image_type, "Thumb") {
        Some(ImageKind::Thumb)
    } else if same_text(image_type, "Logo") {
        Some(ImageKind::Logo)
    } else {
        None
    }
}

/// The file name of the image of one kind that an item has.
fn image_file_name<'a>(item: ItemRef<'a>, kind: ImageKind) -> (r: &'a str)
    ensures
        r@ == image_file(item@, kind),
{
    proof {
        reveal_strlit("");
        assert(""@ =~= Seq::<char>::empty());
    }
    match kind {
        ImageKind::Poster => match item {
            ItemRef::Movie(m) => m.poster.as_str(),
            ItemRef::Show(s) => s.poster.as_str(),
            ItemRef::Season(s) => s.poster(),
            ItemRef::Episode(e) => e.thumb.as_str(),
        },
        ImageKind::Fanart => match item {
            ItemRef::Movie(m) => m.fanart.as_str(),
            ItemRef::Show(s) => s.fanart.as_str(),
            ItemRef::Season(s) => s.fanart.as_str(),
            ItemRef::Episode(_) => "",
        },
        ImageKind::Banner => match item {
            ItemRef::Movie(m) => m.banner.as_str(),
            ItemRef::Show(s) => s.banner.as_str(),
            ItemRef::Season(s) => s.banner.as_str(),
            ItemRef::Episode(_) => "",
        },
        ImageKind::Thumb => match item {
            ItemRef::Episode(e) => e.thumb.as_str(),
            _ => "",
        },
        ImageKind::Logo => match item {
            ItemRef::Show(s) => s.logo.as_str(),
            _ => "",
        },
    }
}

/// Where the image of a kind of an item lies. Nothing where the item is not
/// found, the kind is not known or the item has no image of the kind.
/// Whether the file is there is for the caller to see.
pub fn find_image_path(collections: &CollectionRepo, item_id: &str, image_type: &str) -> (r: Option<
    ImageLocation,
>)
    ensures
        match r {
            Some(l) => image_location(collections@, item_id@, image_type@) == Some(
                (l.directory@, l.item_path@, l.file_name@),
            ),
            None => image_location(collections@, item_id@, image_type@) is None,
        },
{
    let (collection, item) = match collections.get_item_by_id(item_id) {
        Some(found) => found,
        None => {
            return None;
        },
    };
    let kind = match image_kind(image_type) {
        Some(kind) => kind,
        None => {
            return None;
        },
    };
    let file_name = image_file_name(item, kind);
    if file_name.is_empty() {
        return None;
    }
    let item_path = match item {
        ItemRef::Movie(m) => m.path.clone(),
        ItemRef::Show(s) => s.path.clone(),
        ItemRef::Season(s) => s.path.clone(),
        ItemRef::Episode(e) => e.path.clone(),
    };
    Some(
        ImageLocation {
            directory: collection.directory.clone(),
            item_path,
            file_name: file_name.to_owned(),
        },
    )
}

} // verus!

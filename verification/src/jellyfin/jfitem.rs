//! Identifiers as the Jellyfin API carries them: the identifier of the
//! catalog with a prefix that says what kind of thing it names.

use vstd::prelude::*;
use crate::idhash::{id_hash, id_hash_spec};
use crate::text::{chars_of, has_prefix, push_range, same_text, string_of, with_prefix};

verus! {

/// The identifier of the root of all collections.
pub const COLLECTION_ROOT_ID: &'static str = "e9d5075a555c1cbc394eec4cef295274";

/// The identifier of the collection of playlists.
pub const PLAYLIST_COLLECTION_ID: &'static str = "2f0340563593c4d98b97c9bfa21ce23c";

/// The identifier of the collection of favorites.
pub const FAVORITES_COLLECTION_ID: &'static str = "f4a0b1c2d3e5c4b8a9e6f7d8e9a0b1c2";

pub const ITEM_TYPE_USER_ROOT_FOLDER: &'static str = "UserRootFolder";

pub const ITEM_TYPE_COLLECTION_FOLDER: &'static str = "CollectionFolder";

pub const ITEM_TYPE_USER_VIEW: &'static str = "UserView";

pub const ITEM_TYPE_MOVIE: &'static str = "Movie";

pub const ITEM_TYPE_SHOW: &'static str = "Series";

pub const ITEM_TYPE_SEASON: &'static str = "Season";

pub const ITEM_TYPE_EPISODE: &'static str = "Episode";

pub const ITEM_TYPE_PLAYLIST: &'static str = "Playlist";

/// The character that ends every prefix.
pub const ITEM_PREFIX_SEPARATOR: char = '_';

pub const ITEM_PREFIX_ROOT: &'static str = "root_";

pub const ITEM_PREFIX_COLLECTION: &'static str = "collection_";

pub const ITEM_PREFIX_COLLECTION_FAVORITES: &'static str = "collectionfavorites_";

pub const ITEM_PREFIX_COLLECTION_PLAYLIST: &'static str = "collectionplaylist_";

pub const ITEM_PREFIX_SHOW: &'static str = "show_";

pub const ITEM_PREFIX_SEASON: &'static str = "season_";

pub const ITEM_PREFIX_EPISODE: &'static str = "episode_";

pub const ITEM_PREFIX_PLAYLIST: &'static str = "playlist_";

pub const ITEM_PREFIX_GENRE: &'static str = "genre_";

pub const ITEM_PREFIX_STUDIO: &'static str = "studio_";

pub const ITEM_PREFIX_PERSON: &'static str = "person_";

pub const TAG_PREFIX_REDIRECT: &'static str = "redirect_";

/// The index of the first separator in `s` at or after `from`, or -1.
pub open spec fn separator_index(s: Seq<char>, from: int) -> int
    decreases s.len() - from,
{
    if from < 0 || from >= s.len() {
        -1
    } else if s[from] == ITEM_PREFIX_SEPARATOR {
        from
    } else {
        separator_index(s, from + 1)
    }
}

/// An identifier without its prefix: what follows the first separator, or
/// all of it where it holds no separator.
pub open spec fn without_prefix(s: Seq<char>) -> Seq<char> {
    if separator_index(s, 0) < 0 {
        s
    } else {
        s.subrange(separator_index(s, 0) + 1, s.len() as int)
    }
}

/// The API identifier of the catalog root.
pub fn make_jf_root_id(root_id: &str) -> (r: String)
    ensures
        r@ == ITEM_PREFIX_ROOT@ + root_id@,
{
    with_prefix(ITEM_PREFIX_ROOT, root_id)
}

/// The API identifier of a collection.
pub fn make_jf_collection_id(collection_id: &str) -> (r: String)
    ensures
        r@ == ITEM_PREFIX_COLLECTION@ + collection_id@,
{
    with_prefix(ITEM_PREFIX_COLLECTION, collection_id)
}

/// The API identifier of the favorites of a collection.
pub fn make_jf_collection_favorites_id(favorites_id: &str) -> (r: String)
    ensures
        r@ == ITEM_PREFIX_COLLECTION_FAVORITES@ + favorites_id@,
{
    with_prefix(ITEM_PREFIX_COLLECTION_FAVORITES, favorites_id)
}

/// The API identifier of the collection of playlists.
pub fn make_jf_collection_playlist_id(playlist_collection_id: &str) -> (r: String)
    ensures
        r@ == ITEM_PREFIX_COLLECTION_PLAYLIST@ + playlist_collection_id@,
{
    with_prefix(ITEM_PREFIX_COLLECTION_PLAYLIST, playlist_collection_id)
}

/// The API identifier of a playlist.
pub fn make_jf_playlist_id(playlist_id: &str) -> (r: String)
    ensures
        r@ == ITEM_PREFIX_PLAYLIST@ + playlist_id@,
{
    with_prefix(ITEM_PREFIX_PLAYLIST, playlist_id)
}

/// The API identifier of a season.
pub fn make_jf_season_id(season_id: &str) -> (r: String)
    ensures
        r@ == ITEM_PREFIX_SEASON@ + season_id@,
{
    with_prefix(ITEM_PREFIX_SEASON, season_id)
}

/// The API identifier of an episode.
pub fn make_jf_episode_id(episode_id: &str) -> (r: String)
    ensures
        r@ == ITEM_PREFIX_EPISODE@ + episode_id@,
{
    with_prefix(ITEM_PREFIX_EPISODE, episode_id)
}

/// The API identifier of a genre: the prefix and the hash of the name.
pub fn make_jf_genre_id(genre: &str) -> (r: String)
    ensures
        r@ == ITEM_PREFIX_GENRE@ + id_hash_spec(genre@),
{
    let hash = id_hash(genre);
    with_prefix(ITEM_PREFIX_GENRE, hash.as_str())
}

/// The API identifier of a studio: the prefix and the hash of the name.
pub fn make_jf_studio_id(studio: &str) -> (r: String)
    ensures
        r@ == ITEM_PREFIX_STUDIO@ + id_hash_spec(studio@),
{
    let hash = id_hash(studio);
    with_prefix(ITEM_PREFIX_STUDIO, hash.as_str())
}

/// The API identifier of a person: the prefix and the hash of the name.
pub fn make_jf_person_id(name: &str) -> (r: String)
    ensures
        r@ == ITEM_PREFIX_PERSON@ + id_hash_spec(name@),
{
    let hash = id_hash(name);
    with_prefix(ITEM_PREFIX_PERSON, hash.as_str())
}

/// An identifier without its prefix: what follows the first separator, or
/// all of it where it holds no separator.
pub fn trim_prefix(s: &str) -> (r: String)
    ensures
        r@ == without_prefix(s@),
{
    let v = chars_of(s);
    let mut k: usize = 0;
    while k < v.len()
        invariant
            k <= v.len(),
            v@ == s@,
            separator_index(v@, 0) == separator_index(v@, k as int),
        decreases v.len() - k,
    {
        if v[k] == ITEM_PREFIX_SEPARATOR {
            let mut out: Vec<char> = Vec::new();
            push_range(&mut out, &v, k + 1, v.len());
            assert(separator_index(v@, k as int) == k);
            assert(out@ =~= v@.subrange(k + 1, v@.len() as int));
            return string_of(&out);
        }
        k = k + 1;
    }
    string_of(&v)
}

/// Whether an API identifier is that of the catalog root.
pub fn is_jf_root_id(id: &str) -> (b: bool)
    ensures
        b == ITEM_PREFIX_ROOT@.is_prefix_of(id@),
{
    has_prefix(id, ITEM_PREFIX_ROOT)
}

/// Whether an API identifier is that of a collection.
pub fn is_jf_collection_id(id: &str) -> (b: bool)
    ensures
        b == ITEM_PREFIX_COLLECTION@.is_prefix_of(id@),
{
    has_prefix(id, ITEM_PREFIX_COLLECTION)
}

/// Whether an API identifier is that of the favorites of a collection.
pub fn is_jf_collection_favorites_id(id: &str) -> (b: bool)
    ensures
        b == ITEM_PREFIX_COLLECTION_FAVORITES@.is_prefix_of(id@),
{
    has_prefix(id, ITEM_PREFIX_COLLECTION_FAVORITES)
}

/// Whether an API identifier is that of the collection of playlists.
pub fn is_jf_collection_playlist_id(id: &str) -> (b: bool)
    ensures
        b == (id@ == ITEM_PREFIX_COLLECTION_PLAYLIST@ + PLAYLIST_COLLECTION_ID@),
{
    let want = make_jf_collection_playlist_id(PLAYLIST_COLLECTION_ID);
    same_text(id, want.as_str())
}

/// Whether an API identifier is that of a playlist.
pub fn is_jf_playlist_id(id: &str) -> (b: bool)
    ensures
        b == ITEM_PREFIX_PLAYLIST@.is_prefix_of(id@),
{
    has_prefix(id, ITEM_PREFIX_PLAYLIST)
}

/// Whether an API identifier is that of a show.
pub fn is_jf_show_id(id: &str) -> (b: bool)
    ensures
        b == ITEM_PREFIX_SHOW@.is_prefix_of(id@),
{
    has_prefix(id, ITEM_PREFIX_SHOW)
}

/// Whether an API identifier is that of a season.
pub fn is_jf_season_id(id: &str) -> (b: bool)
    ensures
        b == ITEM_PREFIX_SEASON@.is_prefix_of(id@),
{
    has_prefix(id, ITEM_PREFIX_SEASON)
}

/// Whether an API identifier is that of an episode.
pub fn is_jf_episode_id(id: &str) -> (b: bool)
    ensures
        b == ITEM_PREFIX_EPISODE@.is_prefix_of(id@),
{
    has_prefix(id, ITEM_PREFIX_EPISODE)
}

/// Whether an API identifier is that of a genre.
pub fn is_jf_genre_id(id: &str) -> (b: bool)
    ensures
        b == ITEM_PREFIX_GENRE@.is_prefix_of(id@),
{
    has_prefix(id, ITEM_PREFIX_GENRE)
}

/// Whether an API identifier is that of a studio.
pub fn is_jf_studio_id(id: &str) -> (b: bool)
    ensures
        b == ITEM_PREFIX_STUDIO@.is_prefix_of(id@),
{
    has_prefix(id, ITEM_PREFIX_STUDIO)
}

/// Whether an API identifier is that of a person.
pub fn is_jf_person_id(id: &str) -> (b: bool)
    ensures
        b == ITEM_PREFIX_PERSON@.is_prefix_of(id@),
{
    has_prefix(id, ITEM_PREFIX_PERSON)
}

/// Whether a picture of this height counts as high definition.
pub fn item_is_hd(height: i32) -> (b: bool)
    ensures
        b == (height >= 720),
{
    height >= 720
}

/// Whether a picture of this height counts as 4K.
pub fn item_is_4k(height: i32) -> (b: bool)
    ensures
        b == (height >= 1500),
{
    height >= 1500
}

} // verus!

//! The entities of a catalog: movies, shows, seasons and episodes.

use vstd::prelude::*;
use crate::collection::metadata::{Metadata, MetadataView};
use crate::text::{push_str, string_of, views};

verus! {

/// The subtitle files of an item.
pub type Subtitles = Vec<Subs>;

/// A subtitle file: its language and where it lies.
#[derive(Debug)]
pub struct Subs {
    pub lang: String,
    pub path: String,
}

/// The mathematical value of a `Subs`.
pub struct SubsView {
    pub lang: Seq<char>,
    pub path: Seq<char>,
}

impl Clone for Subs {
    /// A copy with the same value.
    fn clone(&self) -> (r: Self)
        ensures
            r@ == self@,
    {
        let r = Subs {
            lang: self.lang.clone(),
            path: self.path.clone(),
        };

        r
    }
}

impl View for Subs {
    type V = SubsView;

    open spec fn view(&self) -> SubsView {
        SubsView {
            lang: self.lang@,
            path: self.path@,
        }
    }
}

/// A movie of a collection.
#[derive(Debug)]
pub struct Movie {
    /// The identifier: the hash of the directory name.
    pub id: String,
    /// The display name, such as "Casablanca (1942)".
    pub name: String,
    /// The key by which the movie is sorted.
    pub sort_name: String,
    /// The directory of the movie, relative to the collection root.
    pub path: String,
    pub base_url: String,
    /// When the movie was found, in seconds since the Unix epoch.
    pub created: i64,
    pub banner: String,
    pub fanart: String,
    pub folder: String,
    pub poster: String,
    /// The name of the video file.
    pub file_name: String,
    /// The size of the video file in bytes.
    pub file_size: i64,
    pub metadata: Metadata,
    pub srt_subs: Vec<Subs>,
    pub vtt_subs: Vec<Subs>,
}

/// The mathematical value of a `Movie`.
pub struct MovieView {
    pub id: Seq<char>,
    pub name: Seq<char>,
    pub sort_name: Seq<char>,
    pub path: Seq<char>,
    pub base_url: Seq<char>,
    pub created: int,
    pub banner: Seq<char>,
    pub fanart: Seq<char>,
    pub folder: Seq<char>,
    pub poster: Seq<char>,
    pub file_name: Seq<char>,
    pub file_size: int,
    pub metadata: MetadataView,
    pub srt_subs: Seq<SubsView>,
    pub vtt_subs: Seq<SubsView>,
}

impl Clone for Movie {
    /// A copy with the same value.
    fn clone(&self) -> (r: Self)
        ensures
            r@ == self@,
    {
        let r = Movie {
            id: self.id.clone(),
            name: self.name.clone(),
            sort_name: self.sort_name.clone(),
            path: self.path.clone(),
            base_url: self.base_url.clone(),
            created: self.created,
            banner: self.banner.clone(),
            fanart: self.fanart.clone(),
            folder: self.folder.clone(),
            poster: self.poster.clone(),
            file_name: self.file_name.clone(),
            file_size: self.file_size,
            metadata: self.metadata.clone(),
            srt_subs: self.srt_subs.clone(),
            vtt_subs: self.vtt_subs.clone(),
        };
        assert(views(r.srt_subs@) =~= views(self.srt_subs@));
        assert(views(r.vtt_subs@) =~= views(self.vtt_subs@));
        r
    }
}

impl View for Movie {
    type V = MovieView;

    open spec fn view(&self) -> MovieView {
        MovieView {
            id: self.id@,
            name: self.name@,
            sort_name: self.sort_name@,
            path: self.path@,
            base_url: self.base_url@,
            created: self.created as int,
            banner: self.banner@,
            fanart: self.fanart@,
            folder: self.folder@,
            poster: self.poster@,
            file_name: self.file_name@,
            file_size: self.file_size as int,
            metadata: self.metadata@,
            srt_subs: views(self.srt_subs@),
            vtt_subs: views(self.vtt_subs@),
        }
    }
}

/// One episode of a season.
#[derive(Debug)]
pub struct Episode {
    /// The identifier: the hash of the show path, season and episode number.
    pub id: String,
    pub name: String,
    /// The directory of the show, relative to the collection root.
    pub path: String,
    pub sort_name: String,
    /// The season number; 0 stands for specials.
    pub season_no: i32,
    pub episode_no: i32,
    /// Whether the file holds two episodes.
    pub double: bool,
    /// The name of the video file.
    pub base_name: String,
    pub created: i64,
    /// The video file, relative to the show directory.
    pub file_name: String,
    pub file_size: i64,
    pub thumb: String,
    pub metadata: Metadata,
    pub srt_subs: Vec<Subs>,
    pub vtt_subs: Vec<Subs>,
}

/// The mathematical value of a `Episode`.
pub struct EpisodeView {
    pub id: Seq<char>,
    pub name: Seq<char>,
    pub path: Seq<char>,
    pub sort_name: Seq<char>,
    pub season_no: int,
    pub episode_no: int,
    pub double: bool,
    pub base_name: Seq<char>,
    pub created: int,
    pub file_name: Seq<char>,
    pub file_size: int,
    pub thumb: Seq<char>,
    pub metadata: MetadataView,
    pub srt_subs: Seq<SubsView>,
    pub vtt_subs: Seq<SubsView>,
}

impl Clone for Episode {
    /// A copy with the same value.
    fn clone(&self) -> (r: Self)
        ensures
            r@ == self@,
    {
        let r = Episode {
            id: self.id.clone(),
            name: self.name.clone(),
            path: self.path.clone(),
            sort_name: self.sort_name.clone(),
            season_no: self.season_no,
            episode_no: self.episode_no,
            double: self.double,
            base_name: self.base_name.clone(),
            created: self.created,
            file_name: self.file_name.clone(),
            file_size: self.file_size,
            thumb: self.thumb.clone(),
            metadata: self.metadata.clone(),
            srt_subs: self.srt_subs.clone(),
            vtt_subs: self.vtt_subs.clone(),
        };
        assert(views(r.srt_subs@) =~= views(self.srt_subs@));
        assert(views(r.vtt_subs@) =~= views(self.vtt_subs@));
        r
    }
}

impl View for Episode {
    type V = EpisodeView;

    open spec fn view(&self) -> EpisodeView {
        EpisodeView {
            id: self.id@,
            name: self.name@,
            path: self.path@,
            sort_name: self.sort_name@,
            season_no: self.season_no as int,
            episode_no: self.episode_no as int,
            double: self.double,
            base_name: self.base_name@,
            created: self.created as int,
            file_name: self.file_name@,
            file_size: self.file_size as int,
            thumb: self.thumb@,
            metadata: self.metadata@,
            srt_subs: views(self.srt_subs@),
            vtt_subs: views(self.vtt_subs@),
        }
    }
}

/// A season of a show, with its episodes in ascending order.
#[derive(Debug)]
pub struct Season {
    /// The identifier: the hash of the show path and the season number.
    pub id: String,
    pub name: String,
    /// The directory of the show, relative to the collection root.
    pub path: String,
    /// The season number; 0 stands for specials.
    pub season_no: i32,
    pub banner: String,
    pub fanart: String,
    /// The poster of this season, empty where it has none of its own.
    pub poster: String,
    pub season_all_banner: String,
    /// The poster used where the season has none of its own.
    pub season_all_poster: String,
    pub episodes: Vec<Episode>,
}

/// The mathematical value of a `Season`.
pub struct SeasonView {
    pub id: Seq<char>,
    pub name: Seq<char>,
    pub path: Seq<char>,
    pub season_no: int,
    pub banner: Seq<char>,
    pub fanart: Seq<char>,
    pub poster: Seq<char>,
    pub season_all_banner: Seq<char>,
    pub season_all_poster: Seq<char>,
    pub episodes: Seq<EpisodeView>,
}

impl Clone for Season {
    /// A copy with the same value.
    fn clone(&self) -> (r: Self)
        ensures
            r@ == self@,
    {
        let r = Season {
            id: self.id.clone(),
            name: self.name.clone(),
            path: self.path.clone(),
            season_no: self.season_no,
            banner: self.banner.clone(),
            fanart: self.fanart.clone(),
            poster: self.poster.clone(),
            season_all_banner: self.season_all_banner.clone(),
            season_all_poster: self.season_all_poster.clone(),
            episodes: self.episodes.clone(),
        };
        assert(views(r.episodes@) =~= views(self.episodes@));
        r
    }
}

impl View for Season {
    type V = SeasonView;

    open spec fn view(&self) -> SeasonView {
        SeasonView {
            id: self.id@,
            name: self.name@,
            path: self.path@,
            season_no: self.season_no as int,
            banner: self.banner@,
            fanart: self.fanart@,
            poster: self.poster@,
            season_all_banner: self.season_all_banner@,
            season_all_poster: self.season_all_poster@,
            episodes: views(self.episodes@),
        }
    }
}

/// A TV show, with its seasons in ascending order.
#[derive(Debug)]
pub struct Show {
    /// The identifier: the hash of the directory name.
    pub id: String,
    pub name: String,
    pub sort_name: String,
    /// The directory of the show, relative to the collection root.
    pub path: String,
    pub base_url: String,
    pub first_video: i64,
    pub last_video: i64,
    pub banner: String,
    pub fanart: String,
    pub folder: String,
    pub poster: String,
    pub logo: String,
    pub season_all_banner: String,
    pub season_all_poster: String,
    pub file_name: String,
    pub file_size: i64,
    pub metadata: Metadata,
    pub srt_subs: Vec<Subs>,
    pub vtt_subs: Vec<Subs>,
    pub seasons: Vec<Season>,
}

/// The mathematical value of a `Show`.
pub struct ShowView {
    pub id: Seq<char>,
    pub name: Seq<char>,
    pub sort_name: Seq<char>,
    pub path: Seq<char>,
    pub base_url: Seq<char>,
    pub first_video: int,
    pub last_video: int,
    pub banner: Seq<char>,
    pub fanart: Seq<char>,
    pub folder: Seq<char>,
    pub poster: Seq<char>,
    pub logo: Seq<char>,
    pub season_all_banner: Seq<char>,
    pub season_all_poster: Seq<char>,
    pub file_name: Seq<char>,
    pub file_size: int,
    pub metadata: MetadataView,
    pub srt_subs: Seq<SubsView>,
    pub vtt_subs: Seq<SubsView>,
    pub seasons: Seq<SeasonView>,
}

impl Clone for Show {
    /// A copy with the same value.
    fn clone(&self) -> (r: Self)
        ensures
            r@ == self@,
    {
        let r = Show {
            id: self.id.clone(),
            name: self.name.clone(),
            sort_name: self.sort_name.clone(),
            path: self.path.clone(),
            base_url: self.base_url.clone(),
            first_video: self.first_video,
            last_video: self.last_video,
            banner: self.banner.clone(),
            fanart: self.fanart.clone(),
            folder: self.folder.clone(),
            poster: self.poster.clone(),
            logo: self.logo.clone(),
            season_all_banner: self.season_all_banner.clone(),
            season_all_poster: self.season_all_poster.clone(),
            file_name: self.file_name.clone(),
            file_size: self.file_size,
            metadata: self.metadata.clone(),
            srt_subs: self.srt_subs.clone(),
            vtt_subs: self.vtt_subs.clone(),
            seasons: self.seasons.clone(),
        };
        assert(views(r.srt_subs@) =~= views(self.srt_subs@));
        assert(views(r.vtt_subs@) =~= views(self.vtt_subs@));
        assert(views(r.seasons@) =~= views(self.seasons@));
        r
    }
}

impl View for Show {
    type V = ShowView;

    open spec fn view(&self) -> ShowView {
        ShowView {
            id: self.id@,
            name: self.name@,
            sort_name: self.sort_name@,
            path: self.path@,
            base_url: self.base_url@,
            first_video: self.first_video as int,
            last_video: self.last_video as int,
            banner: self.banner@,
            fanart: self.fanart@,
            folder: self.folder@,
            poster: self.poster@,
            logo: self.logo@,
            season_all_banner: self.season_all_banner@,
            season_all_poster: self.season_all_poster@,
            file_name: self.file_name@,
            file_size: self.file_size as int,
            metadata: self.metadata@,
            srt_subs: views(self.srt_subs@),
            vtt_subs: views(self.vtt_subs@),
            seasons: views(self.seasons@),
        }
    }
}

/// An item of a catalog: one of four kinds, and no other.
#[derive(Debug)]
pub enum Item {
    Movie(Movie),
    Show(Show),
    Season(Season),
    Episode(Episode),
}

/// The mathematical value of an `Item`.
pub enum ItemView {
    Movie(MovieView),
    Show(ShowView),
    Season(SeasonView),
    Episode(EpisodeView),
}

impl Clone for Item {
    /// A copy with the same value.
    fn clone(&self) -> (r: Self)
        ensures
            r@ == self@,
    {
        match self {
            Item::Movie(m) => Item::Movie(m.clone()),
            Item::Show(s) => Item::Show(s.clone()),
            Item::Season(s) => Item::Season(s.clone()),
            Item::Episode(e) => Item::Episode(e.clone()),
        }
    }
}

impl View for Item {
    type V = ItemView;

    open spec fn view(&self) -> ItemView {
        match self {
            Item::Movie(m) => ItemView::Movie(m@),
            Item::Show(s) => ItemView::Show(s@),
            Item::Season(s) => ItemView::Season(s@),
            Item::Episode(e) => ItemView::Episode(e@),
        }
    }
}

/// An item of a catalog, borrowed from where it stands.
#[derive(Debug, Clone, Copy)]
pub enum ItemRef<'a> {
    Movie(&'a Movie),
    Show(&'a Show),
    Season(&'a Season),
    Episode(&'a Episode),
}

impl<'a> View for ItemRef<'a> {
    type V = ItemView;

    open spec fn view(&self) -> ItemView {
        match self {
            ItemRef::Movie(m) => ItemView::Movie(m@),
            ItemRef::Show(s) => ItemView::Show(s@),
            ItemRef::Season(s) => ItemView::Season(s@),
            ItemRef::Episode(e) => ItemView::Episode(e@),
        }
    }
}

impl ItemView {
    /// The identifier of the item.
    pub open spec fn id(self) -> Seq<char> {
        match self {
            ItemView::Movie(m) => m.id,
            ItemView::Show(s) => s.id,
            ItemView::Season(s) => s.id,
            ItemView::Episode(e) => e.id,
        }
    }

    /// The display name of the item.
    pub open spec fn name(self) -> Seq<char> {
        match self {
            ItemView::Movie(m) => m.name,
            ItemView::Show(s) => s.name,
            ItemView::Season(s) => s.name,
            ItemView::Episode(e) => e.name,
        }
    }
}

/// An episode as a scan at the time `now` would have found it.
pub open spec fn episode_at(e: EpisodeView, now: int) -> EpisodeView {
    EpisodeView { created: now, ..e }
}

/// A season as a scan at the time `now` would have found it.
pub open spec fn season_at(s: SeasonView, now: int) -> SeasonView {
    SeasonView { episodes: Seq::new(s.episodes.len(), |i: int| episode_at(s.episodes[i], now)), ..s }
}

/// A show as a scan at the time `now` would have found it.
pub open spec fn show_at(s: ShowView, now: int) -> ShowView {
    ShowView {
        first_video: now,
        last_video: now,
        seasons: Seq::new(s.seasons.len(), |i: int| season_at(s.seasons[i], now)),
        ..s
    }
}

/// A movie as a scan at the time `now` would have found it.
pub open spec fn movie_at(m: MovieView, now: int) -> MovieView {
    MovieView { created: now, ..m }
}

/// An item as a scan at the time `now` would have found it: the same item
/// but for its time stamps.
pub open spec fn item_at(item: ItemView, now: int) -> ItemView {
    match item {
        ItemView::Movie(m) => ItemView::Movie(movie_at(m, now)),
        ItemView::Show(s) => ItemView::Show(show_at(s, now)),
        ItemView::Season(s) => ItemView::Season(season_at(s, now)),
        ItemView::Episode(e) => ItemView::Episode(episode_at(e, now)),
    }
}

/// Items as a scan at the time `now` would have found them.
pub open spec fn items_at(items: Seq<ItemView>, now: int) -> Seq<ItemView> {
    Seq::new(items.len(), |i: int| item_at(items[i], now))
}

/// Whether a season is in order: its episodes stand in ascending order of
/// their number, and each of them belongs to this season.
pub open spec fn season_in_order(s: SeasonView) -> bool {
    &&& forall|i: int, j: int|
        0 <= i < j < s.episodes.len() ==> (#[trigger] s.episodes[i]).episode_no <= (
        #[trigger] s.episodes[j]).episode_no
    &&& forall|i: int| 0 <= i < s.episodes.len() ==> (#[trigger] s.episodes[i]).season_no == s.season_no
}

/// Whether a show is in order: its seasons stand in ascending order of their
/// number, and each of them is in order.
pub open spec fn show_in_order(s: ShowView) -> bool {
    &&& forall|i: int, j: int|
        0 <= i < j < s.seasons.len() ==> (#[trigger] s.seasons[i]).season_no <= (
        #[trigger] s.seasons[j]).season_no
    &&& forall|i: int| 0 <= i < s.seasons.len() ==> season_in_order(#[trigger] s.seasons[i])
}

/// The running time of a list of episodes, in seconds.
pub open spec fn episodes_duration(e: Seq<EpisodeView>) -> nat
    decreases e.len(),
{
    if e.len() == 0 {
        0
    } else {
        episodes_duration(e.drop_last()) + e.last().metadata.duration
    }
}

/// The running time of a list of seasons, in seconds.
pub open spec fn seasons_duration(s: Seq<SeasonView>) -> nat
    decreases s.len(),
{
    if s.len() == 0 {
        0
    } else {
        seasons_duration(s.drop_last()) + episodes_duration(s.last().episodes)
    }
}

impl ItemView {
    /// The running time of the item, in seconds.
    pub open spec fn duration(self) -> nat {
        match self {
            ItemView::Movie(m) => m.metadata.duration,
            ItemView::Show(s) => seasons_duration(s.seasons),
            ItemView::Season(s) => episodes_duration(s.episodes),
            ItemView::Episode(e) => e.metadata.duration,
        }
    }
}

proof fn lemma_episodes_duration_prefix(e: Seq<EpisodeView>, k: int)
    requires
        0 <= k <= e.len(),
    ensures
        episodes_duration(e.take(k)) <= episodes_duration(e),
    decreases e.len(),
{
    if k == e.len() {
        assert(e.take(k) == e);
    } else {
        assert(e.take(k) == e.drop_last().take(k));
        lemma_episodes_duration_prefix(e.drop_last(), k);
    }
}

proof fn lemma_seasons_duration_prefix(s: Seq<SeasonView>, k: int)
    requires
        0 <= k <= s.len(),
    ensures
        seasons_duration(s.take(k)) <= seasons_duration(s),
    decreases s.len(),
{
    if k == s.len() {
        assert(s.take(k) == s);
    } else {
        assert(s.take(k) == s.drop_last().take(k));
        lemma_seasons_duration_prefix(s.drop_last(), k);
    }
}

impl Movie {
    /// The video file, relative to the collection root: the directory, a
    /// slash, the file name.
    pub fn file_path(&self) -> (r: String)
        ensures
            r@ == self.path@ + seq!['/'] + self.file_name@,
    {
        let mut out: Vec<char> = Vec::new();
        push_str(&mut out, self.path.as_str());
        out.push('/');
        push_str(&mut out, self.file_name.as_str());
        assert(out@ == self.path@ + seq!['/'] + self.file_name@);
        string_of(&out)
    }

    /// The running time in seconds.
    pub fn duration(&self) -> (r: u64)
        ensures
            r == self@.metadata.duration,
    {
        self.metadata.duration()
    }
}

impl Episode {
    /// The running time in seconds.
    pub fn duration(&self) -> (r: u64)
        ensures
            r == self@.metadata.duration,
    {
        self.metadata.duration()
    }
}

impl Season {
    /// The poster to show for the season: its own, or the one that the show
    /// has for all seasons.
    pub fn poster(&self) -> (r: &str)
        ensures
            r@ == (if self.poster@.len() > 0 {
                self.poster@
            } else {
                self.season_all_poster@
            }),
    {
        if !self.poster.as_str().is_empty() {
            self.poster.as_str()
        } else {
            self.season_all_poster.as_str()
        }
    }

    /// The running time of all episodes, in seconds.
    pub fn duration(&self) -> (r: u64)
        requires
            episodes_duration(self@.episodes) <= u64::MAX,
        ensures
            r == episodes_duration(self@.episodes),
    {
        let mut total: u64 = 0;
        let mut i: usize = 0;
        while i < self.episodes.len()
            invariant
                i <= self.episodes.len(),
                total == episodes_duration(self@.episodes.take(i as int)),
                episodes_duration(self@.episodes) <= u64::MAX,
            decreases self.episodes.len() - i,
        {
            proof {
                let next = self@.episodes.take(i + 1);
                assert(next.drop_last() == self@.episodes.take(i as int));
                assert(next.last() == self.episodes@[i as int]@);
                lemma_episodes_duration_prefix(self@.episodes, i + 1);
            }
            total = total + self.episodes[i].duration();
            i = i + 1;
        }
        assert(self@.episodes.take(i as int) == self@.episodes);
        total
    }
}

impl Show {
    /// The running time of all seasons, in seconds.
    pub fn duration(&self) -> (r: u64)
        requires
            seasons_duration(self@.seasons) <= u64::MAX,
        ensures
            r == seasons_duration(self@.seasons),
    {
        let mut total: u64 = 0;
        let mut i: usize = 0;
        while i < self.seasons.len()
            invariant
                i <= self.seasons.len(),
                total == seasons_duration(self@.seasons.take(i as int)),
                seasons_duration(self@.seasons) <= u64::MAX,
            decreases self.seasons.len() - i,
        {
            proof {
                let next = self@.seasons.take(i + 1);
                assert(next.drop_last() == self@.seasons.take(i as int));
                assert(next.last() == self.seasons@[i as int]@);
                lemma_seasons_duration_prefix(self@.seasons, i + 1);
            }
            total = total + self.seasons[i].duration();
            i = i + 1;
        }
        assert(self@.seasons.take(i as int) == self@.seasons);
        total
    }
}

impl Item {
    /// The identifier of the item.
    pub fn id(&self) -> (r: String)
        ensures
            r@ == self@.id(),
    {
        match self {
            Item::Movie(m) => m.id.clone(),
            Item::Show(s) => s.id.clone(),
            Item::Season(s) => s.id.clone(),
            Item::Episode(e) => e.id.clone(),
        }
    }

    /// The display name of the item.
    pub fn name(&self) -> (r: String)
        ensures
            r@ == self@.name(),
    {
        match self {
            Item::Movie(m) => m.name.clone(),
            Item::Show(s) => s.name.clone(),
            Item::Season(s) => s.name.clone(),
            Item::Episode(e) => e.name.clone(),
        }
    }

    /// The running time of the item, in seconds.
    pub fn duration(&self) -> (r: u64)
        requires
            self@.duration() <= u64::MAX,
        ensures
            r == self@.duration(),
    {
        match self {
            Item::Movie(m) => m.duration(),
            Item::Show(s) => s.duration(),
            Item::Season(s) => s.duration(),
            Item::Episode(e) => e.duration(),
        }
    }
}

} // verus!

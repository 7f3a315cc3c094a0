//! Descriptive data of a movie, a show or an episode.

use vstd::prelude::*;
use crate::text::views;

verus! {

/// What is known of a media item beyond its files. Times are in seconds:
/// `premiered` since the Unix epoch, `duration` as a length.
#[derive(Debug)]
pub struct Metadata {
    pub title: String,
    pub plot: String,
    pub genres: Vec<String>,
    pub studios: Vec<String>,
    pub year: i32,
    /// The rating: the bits of a number in the 32-bit binary format of IEEE
    /// 754.
    pub rating_bits: u32,
    pub official_rating: String,
    pub premiered: Option<i64>,
    pub duration: u64,
    pub video_codec: String,
    pub video_bitrate: i32,
    /// The frames per second: the bits of a number in the 64-bit binary
    /// format of IEEE 754.
    pub video_frame_rate_bits: u64,
    pub video_height: i32,
    pub video_width: i32,
    pub audio_codec: String,
    pub audio_bitrate: i32,
    pub audio_channels: i32,
    pub audio_language: String,
}

/// The mathematical value of a `Metadata`.
pub struct MetadataView {
    pub title: Seq<char>,
    pub plot: Seq<char>,
    pub genres: Seq<Seq<char>>,
    pub studios: Seq<Seq<char>>,
    pub year: int,
    pub rating_bits: u32,
    pub official_rating: Seq<char>,
    pub premiered: Option<int>,
    pub duration: nat,
    pub video_codec: Seq<char>,
    pub video_bitrate: int,
    pub video_frame_rate_bits: u64,
    pub video_height: int,
    pub video_width: int,
    pub audio_codec: Seq<char>,
    pub audio_bitrate: int,
    pub audio_channels: int,
    pub audio_language: Seq<char>,
}

impl Clone for Metadata {
    /// A copy with the same value.
    fn clone(&self) -> (r: Self)
        ensures
            r@ == self@,
    {
        let r = Metadata {
            title: self.title.clone(),
            plot: self.plot.clone(),
            genres: self.genres.clone(),
            studios: self.studios.clone(),
            year: self.year,
            rating_bits: self.rating_bits,
            official_rating: self.official_rating.clone(),
            premiered: self.premiered,
            duration: self.duration,
            video_codec: self.video_codec.clone(),
            video_bitrate: self.video_bitrate,
            video_frame_rate_bits: self.video_frame_rate_bits,
            video_height: self.video_height,
            video_width: self.video_width,
            audio_codec: self.audio_codec.clone(),
            audio_bitrate: self.audio_bitrate,
            audio_channels: self.audio_channels,
            audio_language: self.audio_language.clone(),
        };
        assert(views(r.genres@) =~= views(self.genres@));
        assert(views(r.studios@) =~= views(self.studios@));
        r
    }
}

impl View for Metadata {
    type V = MetadataView;

    open spec fn view(&self) -> MetadataView {
        MetadataView {
            title: self.title@,
            plot: self.plot@,
            genres: views(self.genres@),
            studios: views(self.studios@),
            year: self.year as int,
            rating_bits: self.rating_bits,
            official_rating: self.official_rating@,
            premiered: match self.premiered {
                Some(t) => Some(t as int),
                None => None,
            },
            duration: self.duration as nat,
            video_codec: self.video_codec@,
            video_bitrate: self.video_bitrate as int,
            video_frame_rate_bits: self.video_frame_rate_bits,
            video_height: self.video_height as int,
            video_width: self.video_width as int,
            audio_codec: self.audio_codec@,
            audio_bitrate: self.audio_bitrate as int,
            audio_channels: self.audio_channels as int,
            audio_language: self.audio_language@,
        }
    }
}

/// The metadata of an item of which nothing is known.
pub open spec fn empty_metadata() -> MetadataView {
    MetadataView {
        title: Seq::empty(),
        plot: Seq::empty(),
        genres: Seq::empty(),
        studios: Seq::empty(),
        year: 0,
        rating_bits: 0,
        official_rating: Seq::empty(),
        premiered: None,
        duration: 0,
        video_codec: Seq::empty(),
        video_bitrate: 0,
        video_frame_rate_bits: 0,
        video_height: 0,
        video_width: 0,
        audio_codec: Seq::empty(),
        audio_bitrate: 0,
        audio_channels: 0,
        audio_language: Seq::empty(),
    }
}

impl Default for Metadata {
    fn default() -> (m: Metadata)
        ensures
            m@ == empty_metadata(),
    {
        let m = Metadata {
            title: String::new(),
            plot: String::new(),
            genres: Vec::new(),
            studios: Vec::new(),
            year: 0,
            rating_bits: 0,
            official_rating: String::new(),
            premiered: None,
            duration: 0,
            video_codec: String::new(),
            video_bitrate: 0,
            video_frame_rate_bits: 0,
            video_height: 0,
            video_width: 0,
            audio_codec: String::new(),
            audio_bitrate: 0,
            audio_channels: 0,
            audio_language: String::new(),
        };
        assert(m@.genres == Seq::<Seq<char>>::empty());
        assert(m@.studios == Seq::<Seq<char>>::empty());
        m
    }
}

impl Metadata {
    pub fn title(&self) -> (r: &str)
        ensures
            r@ == self.title@,
    {
        self.title.as_str()
    }

    pub fn plot(&self) -> (r: &str)
        ensures
            r@ == self.plot@,
    {
        self.plot.as_str()
    }

    pub fn set_plot(&mut self, plot: String)
        ensures
            final(self)@ == (MetadataView { plot: plot@, ..old(self)@ }),
    {
        self.plot = plot;
    }

    pub fn genres(&self) -> (r: &Vec<String>)
        ensures
            r == &self.genres,
    {
        &self.genres
    }

    pub fn studios(&self) -> (r: &Vec<String>)
        ensures
            r == &self.studios,
    {
        &self.studios
    }

    pub fn year(&self) -> (r: i32)
        ensures
            r == self.year,
    {
        self.year
    }

    /// The rating, as the bits of a number in the 32-bit binary format.
    pub fn rating_bits(&self) -> (r: u32)
        ensures
            r == self.rating_bits,
    {
        self.rating_bits
    }

    pub fn official_rating(&self) -> (r: &str)
        ensures
            r@ == self.official_rating@,
    {
        self.official_rating.as_str()
    }

    pub fn premiered(&self) -> (r: Option<i64>)
        ensures
            r == self.premiered,
    {
        self.premiered
    }

    pub fn duration(&self) -> (r: u64)
        ensures
            r == self.duration,
    {
        self.duration
    }

    pub fn video_codec(&self) -> (r: &str)
        ensures
            r@ == self.video_codec@,
    {
        self.video_codec.as_str()
    }

    pub fn video_bitrate(&self) -> (r: i32)
        ensures
            r == self.video_bitrate,
    {
        self.video_bitrate
    }

    /// The frames per second, as the bits of a number in the 64-bit binary
    /// format.
    pub fn video_frame_rate_bits(&self) -> (r: u64)
        ensures
            r == self.video_frame_rate_bits,
    {
        self.video_frame_rate_bits
    }

    pub fn video_height(&self) -> (r: i32)
        ensures
            r == self.video_height,
    {
        self.video_height
    }

    pub fn video_width(&self) -> (r: i32)
        ensures
            r == self.video_width,
    {
        self.video_width
    }

    pub fn audio_codec(&self) -> (r: &str)
        ensures
            r@ == self.audio_codec@,
    {
        self.audio_codec.as_str()
    }

    pub fn audio_bitrate(&self) -> (r: i32)
        ensures
            r == self.audio_bitrate,
    {
        self.audio_bitrate
    }

    pub fn audio_channels(&self) -> (r: i32)
        ensures
            r == self.audio_channels,
    {
        self.audio_channels
    }

    pub fn audio_language(&self) -> (r: &str)
        ensures
            r@ == self.audio_language@,
    {
        self.audio_language.as_str()
    }
}

} // verus!

//! Metadata from NFO files: what the file of a movie, a show or an episode
//! says, as metadata of the catalog.
//!
//! Reading and parsing the file is left to the caller, who hands over its
//! contents as plain values.

use vstd::prelude::*;
use crate::collection::metadata::{empty_metadata, Metadata, MetadataView};
use crate::text::views;

verus! {

/// The video stream of a file.
#[derive(Debug, Clone)]
pub struct VideoDetails {
    pub codec: Option<String>,
    pub width: Option<i32>,
    pub height: Option<i32>,
    pub durationinseconds: Option<i32>,
}

/// The audio stream of a file.
#[derive(Debug, Clone)]
pub struct AudioDetails {
    pub codec: Option<String>,
    pub language: Option<String>,
    pub channels: Option<i32>,
}

/// The streams of a file.
#[derive(Debug, Clone)]
pub struct StreamDetails {
    pub video: Option<VideoDetails>,
    pub audio: Option<AudioDetails>,
}

/// What an NFO file says of the video file.
#[derive(Debug, Clone)]
pub struct FileInfo {
    pub streamdetails: Option<StreamDetails>,
}

/// The NFO file of a movie.
#[derive(Debug, Clone)]
pub struct MovieNfo {
    pub title: Option<String>,
    pub originaltitle: Option<String>,
    pub sorttitle: Option<String>,
    /// The rating: the bits of a number in the 32-bit binary format of IEEE
    /// 754.
    pub rating_bits: Option<u32>,
    pub year: Option<i32>,
    pub plot: Option<String>,
    pub mpaa: Option<String>,
    pub genre: Vec<String>,
    pub studio: Vec<String>,
    pub premiered: Option<String>,
    pub fileinfo: Option<FileInfo>,
}

/// The NFO file of a show.
#[derive(Debug, Clone)]
pub struct ShowNfo {
    pub title: Option<String>,
    pub rating_bits: Option<u32>,
    pub year: Option<i32>,
    pub plot: Option<String>,
    pub mpaa: Option<String>,
    pub genre: Vec<String>,
    pub studio: Vec<String>,
    pub premiered: Option<String>,
}

/// The NFO file of an episode.
#[derive(Debug, Clone)]
pub struct EpisodeNfo {
    pub title: Option<String>,
    pub rating_bits: Option<u32>,
    pub plot: Option<String>,
    pub aired: Option<String>,
    pub fileinfo: Option<FileInfo>,
}

/// The text `s` where there is one, else `old`.
pub open spec fn text_or(s: Option<String>, old: Seq<char>) -> Seq<char> {
    match s {
        Some(t) => t@,
        None => old,
    }
}

/// The number `n` where there is one, else `old`.
pub open spec fn number_or(n: Option<i32>, old: int) -> int {
    match n {
        Some(v) => v as int,
        None => old,
    }
}

/// Metadata with what is known of the video stream.
pub open spec fn with_video(m: MetadataView, v: Option<VideoDetails>) -> MetadataView {
    match v {
        Some(v) => MetadataView {
            video_codec: text_or(v.codec, m.video_codec),
            video_width: number_or(v.width, m.video_width),
            video_height: number_or(v.height, m.video_height),
            duration: match v.durationinseconds {
                Some(d) => (d as u64) as nat,
                None => m.duration,
            },
            ..m
        },
        None => m,
    }
}

/// Metadata with what is known of the audio stream.
pub open spec fn with_audio(m: MetadataView, a: Option<AudioDetails>) -> MetadataView {
    match a {
        Some(a) => MetadataView {
            audio_codec: text_or(a.codec, m.audio_codec),
            audio_language: text_or(a.language, m.audio_language),
            audio_channels: number_or(a.channels, m.audio_channels),
            ..m
        },
        None => m,
    }
}

/// Metadata with what is known of the file: of its video stream, then of
/// its audio stream.
pub open spec fn with_file_info(m: MetadataView, fi: Option<FileInfo>) -> MetadataView {
    match fi {
        Some(FileInfo { streamdetails: Some(sd) }) => with_audio(with_video(m, sd.video), sd.audio),
        _ => m,
    }
}

/// The metadata that the NFO file of a movie gives.
pub open spec fn movie_metadata(nfo: MovieNfo) -> MetadataView {
    with_file_info(
        MetadataView {
            title: text_or(nfo.title, Seq::empty()),
            plot: text_or(nfo.plot, Seq::empty()),
            rating_bits: match nfo.rating_bits {
                Some(r) => r,
                None => 0,
            },
            year: number_or(nfo.year, 0),
            official_rating: text_or(nfo.mpaa, Seq::empty()),
            genres: views(nfo.genre@),
            studios: views(nfo.studio@),
            ..empty_metadata()
        },
        nfo.fileinfo,
    )
}

/// The metadata that the NFO file of a show gives.
pub open spec fn show_metadata(nfo: ShowNfo) -> MetadataView {
    MetadataView {
        title: text_or(nfo.title, Seq::empty()),
        plot: text_or(nfo.plot, Seq::empty()),
        rating_bits: match nfo.rating_bits {
            Some(r) => r,
            None => 0,
        },
        year: number_or(nfo.year, 0),
        official_rating: text_or(nfo.mpaa, Seq::empty()),
        genres: views(nfo.genre@),
        studios: views(nfo.studio@),
        ..empty_metadata()
    }
}

/// The metadata that the NFO file of an episode gives.
pub open spec fn episode_metadata(nfo: EpisodeNfo) -> MetadataView {
    with_file_info(
        MetadataView {
            title: text_or(nfo.title, Seq::empty()),
            plot: text_or(nfo.plot, Seq::empty()),
            rating_bits: match nfo.rating_bits {
                Some(r) => r,
                None => 0,
            },
            ..empty_metadata()
        },
        nfo.fileinfo,
    )
}

/// Adds to the metadata what is known of the file.
pub fn apply_file_info(m: &mut Metadata, fi: FileInfo)
    ensures
        final(m)@ == with_file_info(old(m)@, Some(fi)),
{
    if let Some(sd) = fi.streamdetails {
        if let Some(v) = sd.video {
            if let Some(c) = v.codec {
                m.video_codec = c;
            }
            if let Some(w) = v.width {
                m.video_width = w;
            }
            if let Some(h) = v.height {
                m.video_height = h;
            }
            if let Some(d) = v.durationinseconds {
                m.duration = #[verifier::truncate]
                (d as u64);
            }
        }
        if let Some(a) = sd.audio {
            if let Some(c) = a.codec {
                m.audio_codec = c;
            }
            if let Some(l) = a.language {
                m.audio_language = l;
            }
            if let Some(c) = a.channels {
                m.audio_channels = c;
            }
        }
    }
}

/// The metadata that the NFO file of a movie gives: what the file says,
/// and nothing for what it leaves out.
pub fn metadata_from_movie(nfo: MovieNfo) -> (m: Metadata)
    ensures
        m@ == movie_metadata(nfo),
{
    let mut m = Metadata::default();
    if let Some(t) = nfo.title {
        m.title = t;
    }
    if let Some(p) = nfo.plot {
        m.plot = p;
    }
    if let Some(r) = nfo.rating_bits {
        m.rating_bits = r;
    }
    if let Some(y) = nfo.year {
        m.year = y;
    }
    if let Some(mpaa) = nfo.mpaa {
        m.official_rating = mpaa;
    }
    m.genres = nfo.genre;
    m.studios = nfo.studio;
    if let Some(fi) = nfo.fileinfo {
        apply_file_info(&mut m, fi);
    }
    m
}

/// The metadata that the NFO file of a show gives.
pub fn metadata_from_show(nfo: ShowNfo) -> (m: Metadata)
    ensures
        m@ == show_metadata(nfo),
{
    let mut m = Metadata::default();
    if let Some(t) = nfo.title {
        m.title = t;
    }
    if let Some(p) = nfo.plot {
        m.plot = p;
    }
    if let Some(r) = nfo.rating_bits {
        m.rating_bits = r;
    }
    if let Some(y) = nfo.year {
        m.year = y;
    }
    if let Some(mpaa) = nfo.mpaa {
        m.official_rating = mpaa;
    }
    m.genres = nfo.genre;
    m.studios = nfo.studio;
    m
}

/// The metadata that the NFO file of an episode gives.
pub fn metadata_from_episode(nfo: EpisodeNfo) -> (m: Metadata)
    ensures
        m@ == episode_metadata(nfo),
{
    let mut m = Metadata::default();
    if let Some(t) = nfo.title {
        m.title = t;
    }
    if let Some(p) = nfo.plot {
        m.plot = p;
    }
    if let Some(r) = nfo.rating_bits {
        m.rating_bits = r;
    }
    if let Some(fi) = nfo.fileinfo {
        apply_file_info(&mut m, fi);
    }
    m
}

} // verus!

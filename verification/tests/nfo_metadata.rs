use jellofin::collection::nfo::{
    apply_file_info, metadata_from_episode, metadata_from_movie, metadata_from_show, AudioDetails,
    EpisodeNfo, FileInfo, MovieNfo, ShowNfo, StreamDetails, VideoDetails,
};
use jellofin::collection::metadata::Metadata;

fn file_info() -> FileInfo {
    FileInfo {
        streamdetails: Some(StreamDetails {
            video: Some(VideoDetails {
                codec: Some("h264".to_string()),
                width: Some(1920),
                height: None,
                durationinseconds: Some(5400),
            }),
            audio: Some(AudioDetails {
                codec: None,
                language: Some("en".to_string()),
                channels: Some(6),
            }),
        }),
    }
}

#[test]
fn a_movie_file_gives_its_metadata() {
    let m = metadata_from_movie(MovieNfo {
        title: Some("Casablanca".to_string()),
        originaltitle: Some("x".to_string()),
        sorttitle: None,
        rating_bits: Some(8.5f32.to_bits()),
        year: Some(1942),
        plot: None,
        mpaa: Some("PG".to_string()),
        genre: vec!["Drama".to_string()],
        studio: vec!["Warner".to_string()],
        premiered: Some("1942-11-26".to_string()),
        fileinfo: Some(file_info()),
    });
    assert_eq!(m.title(), "Casablanca");
    assert_eq!(m.plot(), "");
    assert_eq!(f32::from_bits(m.rating_bits()), 8.5);
    assert_eq!(m.year(), 1942);
    assert_eq!(m.official_rating(), "PG");
    assert_eq!(m.genres(), &vec!["Drama".to_string()]);
    assert_eq!(m.studios(), &vec!["Warner".to_string()]);
    assert_eq!(m.premiered(), None);
    assert_eq!(m.video_codec(), "h264");
    assert_eq!(m.video_width(), 1920);
    assert_eq!(m.video_height(), 0);
    assert_eq!(m.duration(), 5400);
    assert_eq!(m.audio_codec(), "");
    assert_eq!(m.audio_language(), "en");
    assert_eq!(m.audio_channels(), 6);
}

#[test]
fn a_show_file_has_no_file_info() {
    let m = metadata_from_show(ShowNfo {
        title: None,
        rating_bits: None,
        year: None,
        plot: Some("A plot".to_string()),
        mpaa: None,
        genre: Vec::new(),
        studio: vec!["A".to_string(), "B".to_string()],
        premiered: None,
    });
    assert_eq!(m.title(), "");
    assert_eq!(m.plot(), "A plot");
    assert_eq!(m.rating_bits(), 0);
    assert_eq!(m.year(), 0);
    assert_eq!(m.studios().len(), 2);
    assert_eq!(m.duration(), 0);
}

#[test]
fn an_episode_file_gives_title_plot_rating_and_file_info() {
    let m = metadata_from_episode(EpisodeNfo {
        title: Some("Pilot".to_string()),
        rating_bits: Some(7),
        plot: None,
        aired: Some("2001-01-01".to_string()),
        fileinfo: Some(FileInfo { streamdetails: None }),
    });
    assert_eq!(m.title(), "Pilot");
    assert_eq!(m.rating_bits(), 7);
    assert_eq!(m.video_codec(), "");
    assert!(m.genres().is_empty());
}

#[test]
fn file_info_changes_what_it_names_and_nothing_else() {
    let mut m = Metadata::default();
    m.title = "T".to_string();
    m.video_height = 720;
    m.audio_codec = "aac".to_string();
    apply_file_info(&mut m, file_info());
    assert_eq!(m.title(), "T");
    assert_eq!(m.video_height(), 720);
    assert_eq!(m.audio_codec(), "aac");
    assert_eq!(m.video_width(), 1920);
    let mut n = Metadata::default();
    apply_file_info(
        &mut n,
        FileInfo {
            streamdetails: Some(StreamDetails {
                video: Some(VideoDetails {
                    codec: None,
                    width: None,
                    height: None,
                    durationinseconds: Some(-1),
                }),
                audio: None,
            }),
        },
    );
    assert_eq!(n.duration(), u64::MAX);
}

use jellofin::parsefilename::parse_episode_name;
use regex::Regex;

#[test]
fn test_parse_s01e04() {
    let result = parse_episode_name("show.s01e04.mkv", -1);
    assert_eq!(result, Some((1, 4, false, "01x04".to_string())));
}

#[test]
fn test_parse_s01e04_uppercase() {
    let result = parse_episode_name("show.S02E10.mkv", -1);
    assert_eq!(result, Some((2, 10, false, "02x10".to_string())));
}

#[test]
fn test_parse_double_episode() {
    let result = parse_episode_name("show.s01e04e05.mkv", -1);
    assert_eq!(result, Some((1, 4, true, "01x04-05".to_string())));
}

#[test]
fn test_parse_date_format() {
    let result = parse_episode_name("show.2015.03.08.mkv", 1);
    assert_eq!(result, Some((1, 20150308, false, "2015.03.08".to_string())));
}

#[test]
fn test_parse_3x08_format() {
    let result = parse_episode_name("show.3x08.mkv", -1);
    assert_eq!(result, Some((3, 8, false, "03x08".to_string())));
}

#[test]
fn test_parse_308_format() {
    let result = parse_episode_name("show.308.mkv", 3);
    assert_eq!(result, Some((3, 8, false, "03x08".to_string())));
}

#[test]
fn test_parse_invalid() {
    let result = parse_episode_name("random_file.mkv", -1);
    assert_eq!(result, None);
}

#[test]
fn single_marker_wins_over_bare_number() {
    // holds both `s02e03` and `405`
    assert_eq!(
        parse_episode_name("show.405.s02e03.mkv", -1),
        Some((2, 3, false, "02x03".to_string()))
    );
    assert_eq!(
        parse_episode_name("show.s02e03.405.mkv", 4),
        Some((2, 3, false, "02x03".to_string()))
    );
}

#[test]
fn last_marker_of_a_kind_counts() {
    assert_eq!(
        parse_episode_name("a.s01e02.s03e04.mkv", -1),
        Some((3, 4, false, "03x04".to_string()))
    );
    assert_eq!(
        parse_episode_name("a.101.202.mkv", -1),
        Some((2, 2, false, "02x02".to_string()))
    );
}

#[test]
fn bare_number_needs_a_matching_hint() {
    assert_eq!(parse_episode_name("show.308.mkv", 2), None);
    assert_eq!(parse_episode_name("show.308.mkv", 0), None);
    assert_eq!(
        parse_episode_name("show.1208.mkv", 12),
        Some((12, 8, false, "12x08".to_string()))
    );
    assert_eq!(
        parse_episode_name("show 12x08 x.mkv", -7),
        Some((12, 8, false, "12x08".to_string()))
    );
}

#[test]
fn numbers_too_large_give_nothing() {
    assert_eq!(parse_episode_name("show.s99999999999e01.308.mkv", -1), None);
    assert_eq!(parse_episode_name("show.s01e99999999999.mkv", -1), None);
    assert_eq!(
        parse_episode_name("show.s2147483647e2147483647.mkv", -1),
        Some((2147483647, 2147483647, false, "2147483647x2147483647".to_string()))
    );
    assert_eq!(parse_episode_name("show.s2147483648e1.mkv", -1), None);
}

#[test]
fn date_takes_the_hint_as_season() {
    assert_eq!(
        parse_episode_name("show 2015-03-08 x", -1),
        Some((-1, 20150308, false, "2015.03.08".to_string()))
    );
    assert_eq!(
        parse_episode_name("show.2015-03.08.mkv", 7),
        Some((7, 20150308, false, "2015.03.08".to_string()))
    );
}

#[test]
fn double_marker_forms() {
    assert_eq!(
        parse_episode_name("show_S01E04-E05_x.mkv", -1),
        Some((1, 4, true, "01x04-05".to_string()))
    );
    assert_eq!(parse_episode_name("show.s01e04-05.mkv", -1), None);
}

#[test]
fn line_feed_anywhere_gives_nothing() {
    assert_eq!(parse_episode_name("show.s01e04.mkv\n", -1), None);
    assert_eq!(parse_episode_name("\nshow.s01e04.mkv", -1), None);
}

fn patterns() -> [Regex; 4] {
    [
        Regex::new(r"^.*[ ._][sS]([0-9]+)[eE]([0-9]+)[ ._].*$").unwrap(),
        Regex::new(r"^.*[ ._][sS]([0-9]+)[eE]([0-9]+)-?[eE]([0-9]+)[ ._].*$").unwrap(),
        Regex::new(r"^.*[ .]([0-9]{4})[.-]([0-9]{2})[.-]([0-9]{2})[ .].*$").unwrap(),
        Regex::new(r"^.*[ .]([0-9]{1,2})x?([0-9]{2})[ .].*$").unwrap(),
    ]
}

fn reference(
    pats: &[Regex; 4],
    filename: &str,
    season_hint: i32,
) -> Option<(i32, i32, bool, String)> {
    let [pat1, pat2, pat3, pat4] = pats;
    if let Some(caps) = pat1.captures(filename) {
        let season = caps.get(1)?.as_str().parse().ok()?;
        let episode = caps.get(2)?.as_str().parse().ok()?;
        let name = format!("{}x{}", caps.get(1)?.as_str(), caps.get(2)?.as_str());
        return Some((season, episode, false, name));
    }
    if let Some(caps) = pat2.captures(filename) {
        let season = caps.get(1)?.as_str().parse().ok()?;
        let episode = caps.get(2)?.as_str().parse().ok()?;
        let name = format!(
            "{}x{}-{}",
            caps.get(1)?.as_str(),
            caps.get(2)?.as_str(),
            caps.get(3)?.as_str()
        );
        return Some((season, episode, true, name));
    }
    if let Some(caps) = pat3.captures(filename) {
        let year = caps.get(1)?.as_str();
        let month = caps.get(2)?.as_str();
        let day = caps.get(3)?.as_str();
        let episode = format!("{}{}{}", year, month, day).parse().ok()?;
        return Some((season_hint, episode, false, format!("{}.{}.{}", year, month, day)));
    }
    if let Some(caps) = pat4.captures(filename) {
        let season: i32 = caps.get(1)?.as_str().parse().ok()?;
        let episode: i32 = caps.get(2)?.as_str().parse().ok()?;
        if season_hint < 0 || season_hint == season {
            let name = format!("{:02}x{}", season, caps.get(2)?.as_str());
            return Some((season, episode, false, name));
        }
    }
    None
}

/// A small generator of file names over the characters that the markers are
/// made of.
fn name_from(mut seed: u64, len: usize) -> String {
    let alphabet: Vec<char> = " ._-sSeExX0123456789a\n".chars().collect();
    let mut out = String::new();
    for _ in 0..len {
        seed = seed
            .wrapping_mul(6364136223846793005)
            .wrapping_add(1442695040888963407);
        let k = ((seed >> 33) % (alphabet.len() as u64)) as usize;
        out.push(alphabet[k]);
    }
    out
}

#[test]
fn agrees_with_the_patterns_on_chosen_names() {
    let names = [
        "show.s01e04.mkv",
        "show.S02E10.mkv",
        "show.s01e04e05.mkv",
        "show.s01e04-e05.mkv",
        "show.2015.03.08.mkv",
        "show.3x08.mkv",
        "show.308.mkv",
        "random_file.mkv",
        "a.s1e2.b.s3e4.c",
        ".s1e2.",
        "s1e2.",
        ".s1e2",
        "x .1234. y",
        "x .12345. y",
        "x .123. .45x67. y",
        "x.1x23.4x56.y",
        "x.2015.03.08.2016-04-09.y",
        "x.20150.03.08.y",
        " 123x45 ",
        ".12x345.",
        ".s01e02-.",
        ".s01e02-e.",
        ".s01e02--e03.",
        "_s01e02_",
        "_101_",
        ".0000.",
        ".000.",
        "é.s01e02.é",
        ".s٣e٤.",
        "",
    ];
    let pats = patterns();
    for name in names {
        for hint in [-1, 0, 1, 2, 3, 12, 20] {
            assert_eq!(
                parse_episode_name(name, hint),
                reference(&pats, name, hint),
                "{:?} {}",
                name,
                hint
            );
        }
    }
}

#[test]
fn agrees_with_the_patterns_on_generated_names() {
    let pats = patterns();
    for seed in 0..4000u64 {
        let len = (seed % 19) as usize;
        let name = name_from(seed, len);
        for hint in [-1, 1, 12] {
            assert_eq!(
                parse_episode_name(&name, hint),
                reference(&pats, &name, hint),
                "{:?} {}",
                name,
                hint
            );
        }
    }
}

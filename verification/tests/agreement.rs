use std::path::Path;

use jellofin::collection::kodifs::{is_video_file, parse_season_number};
use jellofin::collection::sortname::{make_sort_name, remove_year_suffix};
use regex::Regex;

/// A text made from `seed` over the characters of `alphabet`.
fn text_from(mut seed: u64, len: usize, alphabet: &[char]) -> String {
    let mut out = String::new();
    for _ in 0..len {
        seed = seed
            .wrapping_mul(6364136223846793005)
            .wrapping_add(1442695040888963407);
        let k = ((seed >> 33) % (alphabet.len() as u64)) as usize;
        out.push(alphabet[k]);
    }
    out
}

fn year_suffix_by_pattern(pattern: &Regex, name: &str) -> String {
    if let Some(mat) = pattern.find(name) {
        name[..mat.start()].trim().to_string()
    } else {
        name.to_string()
    }
}

fn sort_name_by_pattern(pattern: &Regex, name: &str) -> String {
    let mut title = name.to_lowercase().trim().to_string();
    for prefix in &["the ", "a ", "an "] {
        if title.starts_with(prefix) {
            title = title[prefix.len()..].trim().to_string();
            break;
        }
    }
    title = title
        .trim_start_matches(|c: char| c.is_whitespace() || c.is_ascii_punctuation())
        .to_string();
    year_suffix_by_pattern(pattern, &title)
}

#[test]
fn sort_names_agree_with_the_pattern_for_years() {
    let pattern = Regex::new(r"\s*\(\d{4}\)\s*$").unwrap();
    let alphabet: Vec<char> = "Tthe aAnN ()12\t\u{a0}.-!é\u{2003}x".chars().collect();
    for seed in 0..4000u64 {
        let name = text_from(seed, (seed % 17) as usize, &alphabet);
        assert_eq!(make_sort_name(&name), sort_name_by_pattern(&pattern, &name), "{:?}", name);
        assert_eq!(
            remove_year_suffix(&name),
            year_suffix_by_pattern(&pattern, &name),
            "{:?}",
            name
        );
    }
    for name in [
        "The Matrix (1999)",
        "A Beautiful Mind",
        "An American Tail",
        "Casablanca (1942)",
        "the  (2001) \t",
        "a (1) (2000)(2001)",
        "THE THE",
        "An",
        "\u{2003}The\u{a0}Thing\u{3000}(1982)\u{85}",
        "ǅungla (2000)",
        "İstanbul",
    ] {
        assert_eq!(make_sort_name(name), sort_name_by_pattern(&pattern, name), "{:?}", name);
    }
}

fn season_number_by_prefix(name: &str) -> Option<i32> {
    let name_lower = name.to_lowercase();
    if name_lower.starts_with("season") {
        let num_str = name_lower.trim_start_matches("season").trim();
        return num_str.parse().ok();
    }
    if name_lower.starts_with('s') {
        let num_str = name_lower.trim_start_matches('s').trim();
        return num_str.parse().ok();
    }
    None
}

#[test]
fn season_numbers_agree_with_the_prefix_rule() {
    let alphabet: Vec<char> = "sSeEaAoOnN 0123+-\t".chars().collect();
    for seed in 0..4000u64 {
        let name = text_from(seed, (seed % 12) as usize, &alphabet);
        assert_eq!(parse_season_number(&name), season_number_by_prefix(&name), "{:?}", name);
        let with_prefix = format!("Season{}", name);
        assert_eq!(
            parse_season_number(&with_prefix),
            season_number_by_prefix(&with_prefix),
            "{:?}",
            with_prefix
        );
    }
}

fn video_by_extension(name: &str) -> bool {
    if let Some(ext) = Path::new(name).extension() {
        let ext = ext.to_str().unwrap_or("").to_lowercase();
        matches!(ext.as_str(), "mkv" | "mp4" | "avi" | "m4v" | "mov" | "wmv" | "flv" | "webm")
    } else {
        false
    }
}

#[test]
fn video_files_agree_with_the_extension_of_the_path() {
    let alphabet: Vec<char> = "mkvMKV4.pa ".chars().collect();
    for seed in 0..4000u64 {
        let name = text_from(seed, (seed % 9) as usize, &alphabet);
        // a name made of dots alone names no file
        if name.is_empty() || name.chars().all(|c| c == '.') {
            continue;
        }
        assert_eq!(is_video_file(&name), video_by_extension(&name), "{:?}", name);
    }
}

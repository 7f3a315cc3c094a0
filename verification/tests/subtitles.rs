use jellofin::notflix::subtitles::{parse_srt, parse_time, render_vtt, vtt_time, SubEntry};

fn lines(text: &[&str]) -> Vec<String> {
    text.iter().map(|l| l.to_string()).collect()
}

#[test]
fn vtt_time_writes_hours_minutes_seconds_and_milliseconds() {
    assert_eq!(vtt_time(0), "00:00:00.000");
    assert_eq!(vtt_time(1), "00:00:00.001");
    assert_eq!(vtt_time(999), "00:00:00.999");
    assert_eq!(vtt_time(1000), "00:00:01.000");
    assert_eq!(vtt_time(3_723_004), "01:02:03.004");
    assert_eq!(vtt_time(59_999), "00:00:59.999");
    assert_eq!(vtt_time(360_000_000), "100:00:00.000");
    assert_eq!(vtt_time(i32::MAX), "596:31:23.647");
    assert_eq!(vtt_time(-1), "00:00:00.-01");
    assert_eq!(vtt_time(-3_723_004), "-1:-2:-3.-04");
    assert_eq!(vtt_time(-45_678), "00:00:-45.-678");
    assert_eq!(vtt_time(i32::MIN), "-596:-31:-23.-648");
}

#[test]
fn parse_time_reads_four_fields() {
    assert_eq!(parse_time("00:00:00,000"), 0);
    assert_eq!(parse_time("01:02:03,004"), 3_723_004);
    assert_eq!(parse_time("  01:02:03,004 \t"), 3_723_004);
    assert_eq!(parse_time("1:2:3:4"), 3_723_004);
    assert_eq!(parse_time("1,2,3,4"), 3_723_004);
    assert_eq!(parse_time("01:02:03"), 0);
    assert_eq!(parse_time("01:02:03,004,5"), 0);
    assert_eq!(parse_time(""), 0);
    assert_eq!(parse_time("a:02:03,004"), 123_004);
    assert_eq!(parse_time("01: 2:03,004"), 3_603_004);
    assert_eq!(parse_time(":::"), 0);
    assert_eq!(parse_time("-1:0:0,0"), -3_600_000);
    assert_eq!(parse_time("0:0:0,+7"), 7);
    assert_eq!(parse_time("0:0:0,99999999999"), 0);
}

#[test]
fn parse_time_cuts_a_time_too_large_to_32_bits() {
    let want = ((1000i64 * 3600 * 1000) as i32, (2147483647i64 * 1000 + 5) as i32);
    assert_eq!(parse_time("1000:0:0,0"), want.0);
    assert_eq!(parse_time("0:0:2147483647,5"), want.1);
}

#[test]
fn parse_srt_reads_subtitles() {
    let (subs, utf8) = parse_srt(&lines(&[
        "1",
        "00:00:01,000 --> 00:00:02,500",
        "Hello",
        "world",
        "",
        "2",
        "00:00:03,000 --> 00:00:04,000",
        "Bye",
    ]));
    assert!(!utf8);
    assert_eq!(subs.len(), 2);
    assert_eq!((subs[0].id, subs[0].start, subs[0].end), (1, 1000, 2500));
    assert_eq!(subs[0].lines, vec!["Hello", "world"]);
    assert_eq!((subs[1].id, subs[1].start, subs[1].end), (2, 3000, 4000));
    assert_eq!(subs[1].lines, vec!["Bye"]);
}

#[test]
fn parse_srt_passes_over_lines_that_do_not_fit() {
    let (subs, utf8) = parse_srt(&lines(&[
        "\u{feff}junk",
        "",
        " 7 ",
        "no times here",
        "00:00:01,000 --> 00:00:02,000 --> 00:00:03,000",
        "00:00:01,000 -->00:00:02,000",
        "00:00:05,000 --> 00:00:06,000",
        "  text  ",
        " \t ",
        "8",
        "x --> y",
        "",
        "9",
        "00:00:07,000 --> 00:00:08,000",
    ]));
    assert!(utf8);
    assert_eq!(subs.len(), 2);
    assert_eq!((subs[0].id, subs[0].start, subs[0].end), (7, 5000, 6000));
    assert_eq!(subs[0].lines, vec!["  text  "]);
    assert_eq!((subs[1].id, subs[1].start, subs[1].end), (8, 0, 0));
    assert!(subs[1].lines.is_empty());
}

#[test]
fn parse_srt_of_nothing() {
    let (subs, utf8) = parse_srt(&Vec::new());
    assert!(subs.is_empty());
    assert!(!utf8);
    let (subs, utf8) = parse_srt(&lines(&["1", "\u{feff}"]));
    assert!(subs.is_empty());
    assert!(utf8);
}

#[test]
fn a_mark_is_taken_off_a_line_of_text() {
    let (subs, utf8) = parse_srt(&lines(&["\u{feff}1", "0:0:1,0 --> 0:0:2,0", "\u{feff}Hi"]));
    assert!(utf8);
    assert_eq!(subs.len(), 1);
    assert_eq!(subs[0].id, 1);
    assert_eq!(subs[0].lines, vec!["Hi"]);
}

#[test]
fn render_vtt_writes_a_file() {
    assert_eq!(render_vtt(&Vec::new()), "WEBVTT\n");
    let subs = vec![
        SubEntry { id: 1, start: 1000, end: 2500, lines: lines(&["Hello", "world"]) },
        SubEntry { id: 2, start: 3000, end: 4000, lines: Vec::new() },
    ];
    assert_eq!(
        render_vtt(&subs),
        "WEBVTT\n\n00:00:01.000 --> 00:00:02.500\nHello\nworld\n\n00:00:03.000 --> 00:00:04.000\n"
    );
    let joined = {
        let mut all = vec!["WEBVTT".to_string(), "".to_string()];
        for sub in &subs {
            all.push(format!("{} --> {}", vtt_time(sub.start), vtt_time(sub.end)));
            for line in &sub.lines {
                all.push(line.clone());
            }
            all.push("".to_string());
        }
        all.join("\n")
    };
    assert_eq!(render_vtt(&subs), joined);
}

use tlyrics::timing::{line_at, line_deltas};
use tlyrics::{LyricsError, SyncedLyrics, Timestamp};

fn at_seconds(seconds: &[u8]) -> Vec<(Timestamp, String)> {
    seconds.iter().enumerate().map(|(i, s)| (Timestamp::new(0, *s, 0), format!("line {}", i))).collect()
}

#[test]
fn deltas_with_the_initial_wait() {
    let lines = at_seconds(&[2, 5, 9]);
    assert_eq!(line_deltas(&lines, true), Ok(vec![2, 3, 4]));
}

#[test]
fn deltas_without_the_initial_wait() {
    let lines = at_seconds(&[2, 5, 9]);
    assert_eq!(line_deltas(&lines, false), Ok(vec![3, 4]));
}

#[test]
fn deltas_of_lyrics() {
    let lyrics = SyncedLyrics::new("[00:02.00]a\n[00:05.00]b\n[00:09.00]c".to_string());
    assert_eq!(lyrics.deltas(true), Ok(vec![2, 3, 4]));
    assert_eq!(lyrics.deltas(false), Ok(vec![3, 4]));
}

#[test]
fn deltas_of_a_single_line() {
    let lines = at_seconds(&[7]);
    assert_eq!(line_deltas(&lines, false), Ok(vec![]));
    assert_eq!(line_deltas(&lines, true), Ok(vec![7]));
    let lyrics = SyncedLyrics::new("[00:07.00]only".to_string());
    assert_eq!(lyrics.deltas(false), Ok(vec![]));
    assert_eq!(lyrics.deltas(true), Ok(vec![7]));
}

#[test]
fn deltas_of_no_lines() {
    let none: Vec<(Timestamp, String)> = Vec::new();
    assert_eq!(line_deltas(&none, false), Ok(vec![]));
    assert_eq!(line_deltas(&none, true), Err(LyricsError::OutOfRange));
    let lyrics = SyncedLyrics::new(String::new());
    assert_eq!(lyrics.deltas(false), Ok(vec![]));
    assert_eq!(lyrics.deltas(true), Err(LyricsError::OutOfRange));
}

#[test]
fn deltas_count_whole_seconds() {
    let lyrics = SyncedLyrics::new("[00:01.999]a\n[01:02.2500]b".to_string());
    assert_eq!(lyrics.deltas(true), Ok(vec![1, 63]));
}

#[test]
fn a_delta_is_negative_where_the_time_runs_back() {
    let lines = at_seconds(&[9, 2, 2]);
    assert_eq!(line_deltas(&lines, true), Ok(vec![9, -7, 0]));
}

#[test]
fn deltas_of_the_largest_timestamps() {
    let big = Timestamp::new(u32::MAX, u8::MAX, u32::MAX);
    let lines = vec![(big, "a".to_string()), (Timestamp::new(0, 0, 0), "b".to_string()), (big, "c".to_string())];
    let top: i64 = 4294967295i64 * 60 + 255 + 4294967;
    assert_eq!(line_deltas(&lines, true), Ok(vec![top, -top, top]));
}

#[test]
fn deltas_of_bad_lyrics_fail_as_the_parse_does() {
    let lyrics = SyncedLyrics::new("[00:300.00]a".to_string());
    assert_eq!(lyrics.deltas(false), Err(LyricsError::Number));
    assert_eq!(lyrics.at(Timestamp::new(0, 0, 0)), Err(LyricsError::Number));
}

#[test]
fn at_gives_the_line_where_the_sum_stops() {
    let lines = vec![
        (Timestamp::new(0, 2, 0), "a".to_string()),
        (Timestamp::new(0, 5, 0), "b".to_string()),
    ];
    assert_eq!(line_at(&lines, Timestamp::new(0, 1, 0)), Ok((Timestamp::new(0, 5, 0), "b".to_string())));
    let lyrics = SyncedLyrics::new("[00:02.00]a\n[00:05.00]b".to_string());
    assert_eq!(lyrics.at(Timestamp::new(0, 1, 0)), Ok((Timestamp::new(0, 5, 0), "b".to_string())));
}

#[test]
fn at_zero_gives_the_first_line() {
    let lines = at_seconds(&[2, 5, 9]);
    assert_eq!(line_at(&lines, Timestamp::new(0, 0, 0)), Ok(lines[0].clone()));
    assert_eq!(line_at(&lines, Timestamp::new(0, 0, 999)), Ok(lines[0].clone()));
}

#[test]
fn at_adds_up_the_positions_of_the_lines() {
    let lines = at_seconds(&[2, 5, 9, 20]);
    assert_eq!(line_at(&lines, Timestamp::new(0, 2, 0)), Ok(lines[1].clone()));
    assert_eq!(line_at(&lines, Timestamp::new(0, 3, 0)), Ok(lines[2].clone()));
    assert_eq!(line_at(&lines, Timestamp::new(0, 7, 0)), Ok(lines[2].clone()));
    assert_eq!(line_at(&lines, Timestamp::new(0, 8, 0)), Ok(lines[3].clone()));
    assert_eq!(line_at(&lines, Timestamp::new(0, 16, 0)), Ok(lines[3].clone()));
}

#[test]
fn at_past_the_lines_is_out_of_range() {
    let lines = at_seconds(&[2, 5, 9, 20]);
    assert_eq!(line_at(&lines, Timestamp::new(0, 17, 0)), Err(LyricsError::OutOfRange));
    assert_eq!(line_at(&lines, Timestamp::new(0, 36, 0)), Err(LyricsError::OutOfRange));
    assert_eq!(line_at(&lines, Timestamp::new(0, 37, 0)), Err(LyricsError::OutOfRange));
    assert_eq!(line_at(&lines, Timestamp::new(9, 0, 0)), Err(LyricsError::OutOfRange));
}

#[test]
fn at_with_no_lines_is_out_of_range() {
    let none: Vec<(Timestamp, String)> = Vec::new();
    assert_eq!(line_at(&none, Timestamp::new(0, 0, 0)), Err(LyricsError::OutOfRange));
    assert_eq!(line_at(&none, Timestamp::new(0, 1, 0)), Err(LyricsError::OutOfRange));
    assert_eq!(SyncedLyrics::new(String::new()).at(Timestamp::new(0, 0, 0)), Err(LyricsError::OutOfRange));
}

#[test]
fn at_with_a_single_line() {
    let lines = at_seconds(&[4]);
    assert_eq!(line_at(&lines, Timestamp::new(0, 0, 0)), Ok(lines[0].clone()));
    assert_eq!(line_at(&lines, Timestamp::new(0, 1, 0)), Err(LyricsError::OutOfRange));
}

#[test]
fn at_goes_by_whole_seconds_of_the_target() {
    let lines = at_seconds(&[2, 5]);
    assert_eq!(line_at(&lines, Timestamp::new(0, 0, 2000)), Ok(lines[1].clone()));
    assert_eq!(line_at(&lines, Timestamp::new(0, 0, 1999)), Ok(lines[1].clone()));
    assert_eq!(line_at(&lines, Timestamp::new(0, 0, 3000)), Err(LyricsError::OutOfRange));
}

#[test]
fn at_with_the_largest_timestamps() {
    let big = Timestamp::new(u32::MAX, u8::MAX, u32::MAX);
    let lines = vec![(big, "a".to_string()), (big, "b".to_string()), (big, "c".to_string())];
    assert_eq!(line_at(&lines, big), Ok((big, "b".to_string())));
}

#[test]
fn at_gives_the_same_line_each_time() {
    let lyrics = SyncedLyrics::new("[00:02.00]a\n[00:05.00]b\n[00:09.00]c".to_string());
    let t = Timestamp::new(0, 4, 0);
    assert_eq!(lyrics.at(t), lyrics.at(t));
    assert_eq!(lyrics.at(t), Ok((Timestamp::new(0, 9, 0), "c".to_string())));
}

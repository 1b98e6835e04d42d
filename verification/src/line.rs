//! The lines of synced lyrics, as the matches of the line pattern give
//! them.

use vstd::prelude::*;

use crate::error::LyricsError;
use crate::number::{number_of, parse_number};
use crate::text::{blank, is_blank, white_space};
use crate::timestamp::Timestamp;

verus! {

/// The text that stands for a line without words: a musical note.
pub const MUSIC_INDICATOR: &'static str = "♪";

/// The shape of one timestamped line: in square brackets the minutes, a
/// colon, the seconds, a full stop and the fraction; then white space, then
/// the text up to the end of the line. The four groups are the three numbers
/// and the text.
pub const LINE_PATTERN: &'static str = r"\[(\d+):(\d+)\.(\d+)\]\s*(.*)";

/// A parsed line as the contracts see it: its timestamp and its text.
pub type LineView = (Timestamp, Seq<char>);

/// The text of group `i` of a match; a group that is not there, or that took
/// no part in the match, reads as the empty text.
pub open spec fn group_text(groups: Seq<Option<Seq<char>>>, i: int) -> Seq<char> {
    if 0 <= i < groups.len() && groups[i] is Some {
        groups[i]->0
    } else {
        Seq::empty()
    }
}

/// The text of a line whose pattern match captured `captured`: the marker
/// for a blank capture, else the capture as it stands, untrimmed.
pub open spec fn line_text(captured: Seq<char>) -> Seq<char> {
    if blank(captured) {
        MUSIC_INDICATOR@
    } else {
        captured
    }
}

/// The line that one match of the line pattern stands for, if its three
/// numeric fields are numbers that fit: the minutes and the fraction in 32
/// bits, the seconds in 8. The fraction is taken as the milliseconds, as
/// written.
pub open spec fn parsed_line(groups: Seq<Option<Seq<char>>>) -> Option<LineView> {
    match (
        number_of(group_text(groups, 1), u32::MAX as nat),
        number_of(group_text(groups, 2), u8::MAX as nat),
        number_of(group_text(groups, 3), u32::MAX as nat),
    ) {
        (Some(m), Some(s), Some(ms)) => Some(
            (Timestamp { m: m as u32, s: s as u8, ms: ms as u32 }, line_text(group_text(groups, 4))),
        ),
        _ => None,
    }
}

/// The lines that a run of matches stands for, one line for each match and in
/// the same order; one match with a bad numeric field fails them all.
pub open spec fn parsed_lines(matches: Seq<Seq<Option<Seq<char>>>>) -> Result<
    Seq<LineView>,
    LyricsError,
> {
    if forall|i: int| 0 <= i < matches.len() ==> (#[trigger] parsed_line(matches[i])) is Some {
        Ok(Seq::new(matches.len(), |i: int| parsed_line(matches[i])->0))
    } else {
        Err(LyricsError::Number)
    }
}

/// Where every match has well-formed numeric fields, the matches give one
/// line each, in their own order.
pub proof fn lemma_one_line_per_match(matches: Seq<Seq<Option<Seq<char>>>>)
    requires
        forall|i: int| 0 <= i < matches.len() ==> (#[trigger] parsed_line(matches[i])) is Some,
    ensures
        parsed_lines(matches) is Ok,
        parsed_lines(matches)->Ok_0.len() == matches.len(),
        forall|i: int|
            0 <= i < matches.len() ==> Some(#[trigger] parsed_lines(matches)->Ok_0[i])
                == parsed_line(matches[i]),
{
}

/// The text of a parsed line is never blank: a blank capture has given way
/// to the marker.
pub proof fn lemma_line_text_is_not_blank(captured: Seq<char>)
    ensures
        !blank(line_text(captured)),
{
    if blank(captured) {
        reveal_strlit("♪");
        assert(!white_space(MUSIC_INDICATOR@[0]));
    } else {
    }
}

/// The text of group `i` of a match.
fn group_str(groups: &Vec<Option<String>>, i: usize) -> (text: &str)
    ensures
        text@ == group_text(groups.deep_view(), i as int),
{
    proof {
        reveal_strlit("");
    }
    if i < groups.len() {
        match &groups[i] {
            Some(found) => found.as_str(),
            None => "",
        }
    } else {
        ""
    }
}

/// Builds the line that one match of the line pattern stands for.
pub fn line_from_groups(groups: &Vec<Option<String>>) -> (line: Option<(Timestamp, String)>)
    ensures
        line.deep_view() == parsed_line(groups.deep_view()),
{
    let m = parse_number(group_str(groups, 1), u32::MAX);
    let s = parse_number(group_str(groups, 2), 255);
    let ms = parse_number(group_str(groups, 3), u32::MAX);
    match (m, s, ms) {
        (Some(m), Some(s), Some(ms)) => {
            let captured = group_str(groups, 4);
            let text = if is_blank(captured) {
                MUSIC_INDICATOR.to_owned()
            } else {
                captured.to_owned()
            };
            Some((Timestamp::new(m, s as u8, ms), text))
        },
        _ => None,
    }
}

/// Builds the lines that a run of matches of the line pattern stands for.
pub fn lines_from_captures(matches: &Vec<Vec<Option<String>>>) -> (parsed: Result<
    Vec<(Timestamp, String)>,
    LyricsError,
>)
    ensures
        match parsed {
            Ok(lines) => parsed_lines(matches.deep_view()) == Ok::<Seq<LineView>, LyricsError>(
                lines.deep_view(),
            ),
            Err(e) => parsed_lines(matches.deep_view()) == Err::<Seq<LineView>, LyricsError>(e),
        },
{
    let mut lines: Vec<(Timestamp, String)> = Vec::new();
    let mut i: usize = 0;
    while i < matches.len()
        invariant
            i <= matches.len(),
            lines.len() == i,
            forall|j: int|
                0 <= j < i ==> #[trigger] parsed_line(matches.deep_view()[j]) == Some(
                    lines.deep_view()[j],
                ),
        decreases matches.len() - i,
    {
        match line_from_groups(&matches[i]) {
            Some(line) => {
                lines.push(line);
            },
            None => {
                assert(parsed_line(matches.deep_view()[i as int]) is None);
                return Err(LyricsError::Number);
            },
        }
        i = i + 1;
    }
    assert(parsed_lines(matches.deep_view())->Ok_0 =~= lines.deep_view());
    Ok(lines)
}

} // verus!

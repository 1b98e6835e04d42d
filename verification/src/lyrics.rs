//! Synced lyrics: the raw text, and what is read from it.

use vstd::prelude::*;

use crate::error::LyricsError;
use crate::line::{lines_from_captures, parsed_line, parsed_lines, LineView, LINE_PATTERN};
use crate::matcher::{captures_of, find_captures};
use crate::timestamp::Timestamp;
use crate::timing::{line_at, line_deltas, nearest, waits, as_ints};

verus! {

/// Lyrics with a timestamp on each line, as the service sends them.
#[derive(Debug)]
pub struct SyncedLyrics {
    /// The text as received.
    pub raw: String,
}

impl SyncedLyrics {
    /// The lines of these lyrics: what the matches of the line pattern in the
    /// raw text stand for.
    pub open spec fn lines(&self) -> Result<Seq<LineView>, LyricsError> {
        match captures_of(LINE_PATTERN@, self.raw@) {
            Some(matches) => parsed_lines(matches),
            None => Err(LyricsError::Pattern),
        }
    }

    /// The line on which a position of `target` whole seconds falls.
    pub open spec fn line_at(&self, target: nat) -> Result<LineView, LyricsError> {
        match self.lines() {
            Ok(lines) => nearest(lines, target),
            Err(e) => Err(e),
        }
    }

    /// The waits of a playback of these lyrics.
    pub open spec fn waits(&self, include_initial: bool) -> Result<Seq<int>, LyricsError> {
        match self.lines() {
            Ok(lines) => waits(lines, include_initial),
            Err(e) => Err(e),
        }
    }

    /// Wraps the raw text.
    pub fn new(raw: String) -> (lyrics: Self)
        ensures
            lyrics.raw == raw,
    {
        SyncedLyrics { raw }
    }

    /// Parses the raw text into its lines, each a timestamp and a text, in
    /// the order in which they stand in the raw text.
    pub fn pieces(&self) -> (parsed: Result<Vec<(Timestamp, String)>, LyricsError>)
        ensures
            match parsed {
                Ok(lines) => self.lines() == Ok::<Seq<LineView>, LyricsError>(lines.deep_view()),
                Err(e) => self.lines() == Err::<Seq<LineView>, LyricsError>(e),
            },
    {
        match find_captures(LINE_PATTERN, self.raw.as_str()) {
            Ok(matches) => lines_from_captures(&matches),
            Err(_) => Err(LyricsError::Pattern),
        }
    }

    /// Finds the line on which `timestamp` falls: the raw text is parsed,
    /// and the lines are walked from the first, adding up their positions in
    /// whole seconds, until the sum reaches the whole seconds of
    /// `timestamp`. The line at which the walk stops is the result; a walk
    /// that runs past the last line is out of range.
    pub fn at(&self, timestamp: Timestamp) -> (found: Result<(Timestamp, String), LyricsError>)
        ensures
            match found {
                Ok(line) => self.line_at(timestamp.total_seconds()) == Ok::<LineView, LyricsError>(
                    line.deep_view(),
                ),
                Err(e) => self.line_at(timestamp.total_seconds()) == Err::<LineView, LyricsError>(
                    e,
                ),
            },
    {
        match self.pieces() {
            Ok(lines) => line_at(&lines, timestamp),
            Err(e) => Err(e),
        }
    }

    /// Computes the seconds to wait between the lines, in whole seconds:
    /// for each line after the first, its position less that of the line
    /// before. With `include_initial` the position of the first line comes
    /// in front, which is out of range where there is no line.
    pub fn deltas(&self, include_initial: bool) -> (deltas: Result<Vec<i64>, LyricsError>)
        ensures
            match deltas {
                Ok(found) => self.waits(include_initial) == Ok::<Seq<int>, LyricsError>(
                    as_ints(found@),
                ),
                Err(e) => self.waits(include_initial) == Err::<Seq<int>, LyricsError>(e),
            },
    {
        match self.pieces() {
            Ok(lines) => line_deltas(&lines, include_initial),
            Err(e) => Err(e),
        }
    }
}

/// Lyrics that parse have one line for each match of the line pattern in
/// their raw text, in the order of the matches.
pub proof fn lemma_lines_follow_matches(lyrics: SyncedLyrics)
    ensures
        lyrics.lines() is Ok ==> {
            let matches = captures_of(LINE_PATTERN@, lyrics.raw@);
            let lines = lyrics.lines()->Ok_0;
            &&& matches is Some
            &&& lines.len() == matches->0.len()
            &&& forall|i: int|
                0 <= i < lines.len() ==> Some(#[trigger] lines[i]) == parsed_line(matches->0[i])
        },
{
}

/// Parsing is a function of the raw text: two parses of the same text give
/// the same lines or the same error, and so do the operations on them.
pub proof fn lemma_same_text_same_lines(a: SyncedLyrics, b: SyncedLyrics)
    requires
        a.raw@ == b.raw@,
    ensures
        a.lines() == b.lines(),
        forall|target: nat| a.line_at(target) == b.line_at(target),
        forall|include_initial: bool| a.waits(include_initial) == b.waits(include_initial),
{
}

} // verus!

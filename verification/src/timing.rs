//! Timing over parsed lines: the line that a position falls on, and the
//! waits between lines.

use vstd::prelude::*;

use crate::error::LyricsError;
use crate::line::LineView;
use crate::timestamp::Timestamp;

verus! {

/// The seconds run up by the first `n` lines, each line counting with its own
/// position in whole seconds (the position itself, not its distance from the
/// line before).
pub open spec fn elapsed(lines: Seq<LineView>, n: int) -> nat
    decreases n,
{
    if n <= 0 {
        0
    } else {
        elapsed(lines, n - 1) + lines[n - 1].0.total_seconds()
    }
}

/// Whether line `i` is where the run-up first reaches `target`: the lines
/// before it have run up at least `target` seconds, and no shorter run of
/// lines has.
pub open spec fn stops_at(lines: Seq<LineView>, target: nat, i: int) -> bool {
    &&& 0 <= i < lines.len()
    &&& elapsed(lines, i) >= target
    &&& forall|j: int| 0 <= j < i ==> elapsed(lines, j) < target
}

/// The line on which a position of `target` whole seconds falls: the one at
/// which the run-up stops. There is none where the run-up of all lines but
/// the last stays under `target`.
pub open spec fn nearest(lines: Seq<LineView>, target: nat) -> Result<LineView, LyricsError> {
    if exists|i: int| stops_at(lines, target, i) {
        Ok(lines[choose|i: int| stops_at(lines, target, i)])
    } else {
        Err(LyricsError::OutOfRange)
    }
}

/// The seconds from line `i` to the line after it; negative where the later
/// line has the earlier position.
pub open spec fn gap(lines: Seq<LineView>, i: int) -> int {
    lines[i + 1].0.total_seconds() - lines[i].0.total_seconds()
}

/// The gaps between neighbouring lines, in order: one fewer than there are
/// lines, and none for no lines.
pub open spec fn gaps(lines: Seq<LineView>) -> Seq<int> {
    Seq::new(
        if lines.len() == 0 {
            0
        } else {
            (lines.len() - 1) as nat
        },
        |i: int| gap(lines, i),
    )
}

/// The waits of a playback: the gaps between the lines, with the position of
/// the first line in front where `include_initial` asks for it, which needs a
/// first line.
pub open spec fn waits(lines: Seq<LineView>, include_initial: bool) -> Result<
    Seq<int>,
    LyricsError,
> {
    if !include_initial {
        Ok(gaps(lines))
    } else if lines.len() == 0 {
        Err(LyricsError::OutOfRange)
    } else {
        Ok(seq![lines[0].0.total_seconds() as int] + gaps(lines))
    }
}

/// The signed integers of `deltas` as mathematical integers.
pub open spec fn as_ints(deltas: Seq<i64>) -> Seq<int> {
    Seq::new(deltas.len(), |i: int| deltas[i] as int)
}

/// At most one line is the stop for a target.
pub proof fn lemma_stop_is_unique(lines: Seq<LineView>, target: nat, i: int, j: int)
    requires
        stops_at(lines, target, i),
        stops_at(lines, target, j),
    ensures
        i == j,
{
}

/// A position falls on a line exactly where some run of lines short of all
/// of them reaches it; the line is then the first after the shortest such
/// run.
pub proof fn lemma_nearest_is_first_reach(lines: Seq<LineView>, target: nat)
    ensures
        nearest(lines, target) is Ok <==> exists|i: int|
            0 <= i < lines.len() && elapsed(lines, i) >= target,
        nearest(lines, target) is Ok ==> exists|i: int|
            stops_at(lines, target, i) && nearest(lines, target) == Ok::<LineView, LyricsError>(
                lines[i],
            ),
{
    if exists|i: int| 0 <= i < lines.len() && elapsed(lines, i) >= target {
        let reach = choose|i: int| 0 <= i < lines.len() && elapsed(lines, i) >= target;
        lemma_first_reach(lines, target, reach);
    }
}

/// Below a run of lines that reaches the target there is a shortest one.
proof fn lemma_first_reach(lines: Seq<LineView>, target: nat, reach: int)
    requires
        0 <= reach < lines.len(),
        elapsed(lines, reach) >= target,
    ensures
        exists|i: int| stops_at(lines, target, i),
    decreases reach,
{
    if forall|j: int| 0 <= j < reach ==> elapsed(lines, j) < target {
        assert(stops_at(lines, target, reach));
    } else {
        let j = choose|j: int| 0 <= j < reach && elapsed(lines, j) >= target;
        lemma_first_reach(lines, target, j);
    }
}

/// A position of zero seconds falls on the first line, where there is one.
pub proof fn lemma_nearest_of_zero(lines: Seq<LineView>)
    requires
        lines.len() > 0,
    ensures
        nearest(lines, 0) == Ok::<LineView, LyricsError>(lines[0]),
{
    assert(stops_at(lines, 0, 0));
    lemma_stop_is_unique(lines, 0, 0, choose|i: int| stops_at(lines, 0, i));
}

/// There is one wait fewer than there are lines, and one more with the
/// initial wait.
pub proof fn lemma_waits_len(lines: Seq<LineView>, include_initial: bool)
    requires
        lines.len() > 0,
    ensures
        waits(lines, include_initial) is Ok,
        waits(lines, include_initial)->Ok_0.len() == lines.len() - 1 + if include_initial {
            1int
        } else {
            0int
        },
{
}

/// Finds the line on which `timestamp` falls.
///
/// Walks the lines from the first, adding up their positions in whole
/// seconds, until the sum reaches the whole seconds of `timestamp`, and
/// gives the line at which the walk stops.
pub fn line_at(lines: &Vec<(Timestamp, String)>, timestamp: Timestamp) -> (found: Result<
    (Timestamp, String),
    LyricsError,
>)
    ensures
        match found {
            Ok(line) => nearest(lines.deep_view(), timestamp.total_seconds()) == Ok::<
                LineView,
                LyricsError,
            >(line.deep_view()),
            Err(e) => nearest(lines.deep_view(), timestamp.total_seconds()) == Err::<
                LineView,
                LyricsError,
            >(e),
        },
{
    let target = timestamp.seconds();
    let mut sum: u64 = 0;
    let mut i: usize = 0;
    while sum < target
        invariant
            i <= lines.len(),
            target == timestamp.total_seconds(),
            sum == elapsed(lines.deep_view(), i as int),
            forall|j: int| 0 <= j < i ==> elapsed(lines.deep_view(), j) < target,
        decreases lines.len() - i,
    {
        if i >= lines.len() {
            return Err(LyricsError::OutOfRange);
        }
        sum = sum + lines[i].0.seconds();
        i = i + 1;
    }
    if i < lines.len() {
        proof {
            let stop = choose|k: int| stops_at(lines.deep_view(), target as nat, k);
            assert(stops_at(lines.deep_view(), target as nat, i as int));
            lemma_stop_is_unique(lines.deep_view(), target as nat, i as int, stop);
        }
        Ok((lines[i].0, lines[i].1.clone()))
    } else {
        Err(LyricsError::OutOfRange)
    }
}

/// Computes the waits between the lines, with the position of the first
/// line in front where `include_initial` is set.
pub fn line_deltas(lines: &Vec<(Timestamp, String)>, include_initial: bool) -> (deltas: Result<
    Vec<i64>,
    LyricsError,
>)
    ensures
        match deltas {
            Ok(found) => waits(lines.deep_view(), include_initial) == Ok::<Seq<int>, LyricsError>(
                as_ints(found@),
            ),
            Err(e) => waits(lines.deep_view(), include_initial) == Err::<Seq<int>, LyricsError>(e),
        },
{
    let mut deltas: Vec<i64> = Vec::new();
    if include_initial {
        if lines.len() == 0 {
            return Err(LyricsError::OutOfRange);
        }
        deltas.push(lines[0].0.seconds() as i64);
    }
    let lead: usize = deltas.len();
    let count: usize = lines.len();
    let mut i: usize = 1;
    while i < count
        invariant
            count == lines.len(),
            lead <= 1,
            include_initial <==> lead == 1,
            1 <= i,
            i <= count || (count == 0 && i == 1),
            deltas.len() == lead + i - 1,
            lead == 1 ==> count > 0 && deltas[0] == lines.deep_view()[0].0.total_seconds(),
            forall|j: int| 0 <= j < i - 1 ==> deltas[lead + j] == gap(lines.deep_view(), j),
        decreases count - i,
    {
        let before = lines[i - 1].0.seconds() as i64;
        let here = lines[i].0.seconds() as i64;
        deltas.push(here - before);
        i = i + 1;
    }
    proof {
        let expected = waits(lines.deep_view(), include_initial)->Ok_0;
        assert(as_ints(deltas@).len() == expected.len());
        assert forall|k: int| 0 <= k < expected.len() implies as_ints(deltas@)[k] == expected[k] by {
            if lead == 1 && k > 0 {
                assert(deltas[lead + (k - 1)] == gap(lines.deep_view(), k - 1));
            }
        }
        assert(as_ints(deltas@) =~= expected);
    }
    Ok(deltas)
}

} // verus!

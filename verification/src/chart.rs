//! The points and the frame of the chart, and the points that the estimate rests on.
use crate::log_line::QueueSample;
use crate::position::Position;
use crate::state::ascending;
use crate::text::{align_right, join, joined, right_aligned, texts};
use crate::timestamp::whole_millis;
use vstd::prelude::*;

verus! {

/// A place in the queue, and how long after the first sample it was reported.
#[derive(Debug)]
pub struct ChartPoint {
    pub elapsed_millis: i64,
    pub position: Position,
}

/// The whole milliseconds from the first sample to another one.
pub open spec fn elapsed(samples: Seq<QueueSample>, i: int) -> int {
    whole_millis(samples[i].timestamp.instant() - samples[0].timestamp.instant())
}

/// The points are those of the samples from `start` on.
pub open spec fn plots(points: Seq<ChartPoint>, samples: Seq<QueueSample>, start: int) -> bool {
    &&& points.len() == samples.len() - start
    &&& forall|i: int|
        0 <= i < points.len() ==> {
            &&& (#[trigger] points[i]).elapsed_millis == elapsed(samples, start + i)
            &&& points[i].position@ == samples[start + i].position@
        }
}

fn points_from(samples: &Vec<QueueSample>, start: usize) -> (points: Vec<ChartPoint>)
    requires
        start <= samples@.len(),
    ensures
        plots(points@, samples@, start as int),
{
    let mut points: Vec<ChartPoint> = Vec::new();
    let mut at: usize = start;
    while at < samples.len()
        invariant
            start <= at <= samples@.len(),
            points@.len() == at - start,
            forall|i: int|
                0 <= i < points@.len() ==> {
                    &&& (#[trigger] points@[i]).elapsed_millis == elapsed(samples@, start + i)
                    &&& points@[i].position@ == samples@[start + i].position@
                },
        decreases samples@.len() - at,
    {
        points.push(
            ChartPoint {
                elapsed_millis: samples[at].timestamp.millis_since(&samples[0].timestamp),
                position: samples[at].position.clone(),
            },
        );
        at = at + 1;
    }
    points
}

/// The points of all samples.
pub fn observed_points(samples: &Vec<QueueSample>) -> (points: Vec<ChartPoint>)
    ensures
        plots(points@, samples@, 0),
{
    points_from(samples, 0)
}

/// How many of `len` samples an estimate rests on where `wanted` are asked for: two at least,
/// and all at most.
pub open spec fn window_len(len: nat, wanted: nat) -> nat {
    let enough = if wanted < 2 {
        2
    } else {
        wanted
    };
    if enough < len {
        enough
    } else {
        len
    }
}

/// The points of the last samples, which an estimate rests on. There is none without two samples.
pub fn regression_points(samples: &Vec<QueueSample>, regression_samples: usize) -> (points: Option<
    Vec<ChartPoint>,
>)
    ensures
        points is Some <==> samples@.len() >= 2,
        points matches Some(p) ==> plots(
            p@,
            samples@,
            samples@.len() - window_len(samples@.len(), regression_samples as nat),
        ),
        points matches Some(p) ==> {
            &&& 2 <= regression_samples <= samples@.len() ==> p@.len() == regression_samples
            &&& samples@.len() <= regression_samples ==> p@.len() == samples@.len()
            &&& regression_samples < 2 ==> p@.len() == 2
            &&& forall|back: int|
                1 <= back <= p@.len() ==> (#[trigger] p@[p@.len() - back]).position@
                    == samples@[samples@.len() - back].position@
        },
{
    proof {
        if samples@.len() >= 2 {
            law_window_rolls(samples@.len(), regression_samples as nat);
        }
    }

    if samples.len() < 2 {
        return None;
    }
    let enough: usize = if regression_samples < 2 {
        2
    } else {
        regression_samples
    };
    let window: usize = if enough < samples.len() {
        enough
    } else {
        samples.len()
    };
    Some(points_from(samples, samples.len() - window))
}

/// The points of samples that ascend in time do not go back in time, and start at zero.
pub proof fn law_points_move_forward(samples: Seq<QueueSample>, i: int, j: int)
    requires
        ascending(samples),
        0 <= i <= j < samples.len(),
    ensures
        elapsed(samples, 0) == 0,
        0 <= elapsed(samples, i) <= elapsed(samples, j),
{
    if i < j {
        assert(samples[i].timestamp.instant() < samples[j].timestamp.instant());
    }
    if 0 < i {
        assert(samples[0].timestamp.instant() < samples[i].timestamp.instant());
    }
}

/// The height of the part of the screen that shows `max_recent_logs` lines of the log, in a
/// frame: room for three lines at least.
pub fn log_panel_height(max_recent_logs: usize) -> (height: u16)
    ensures
        height == ({
            let lines = (if max_recent_logs < 3 {
                3
            } else {
                max_recent_logs as int
            }) % 0x10000;
            if lines + 2 > u16::MAX {
                u16::MAX as int
            } else {
                lines + 2
            }
        }),
{
    let lines: usize = if max_recent_logs < 3 {
        3
    } else {
        max_recent_logs
    };
    let low: u16 = (lines % 0x10000) as u16;
    low.saturating_add(2)
}

/// The columns that three labels of these lengths take up beside the axis: those of the longest
/// one, one to part it from the frame and one for the line of the axis.
pub fn label_column_width(top: usize, middle: usize, bottom: usize) -> (width: u16)
    ensures
        width == ({
            let longest = crate::state::greater(
                crate::state::greater(top as nat, middle as nat),
                bottom as nat,
            );
            (if longest + 2 > usize::MAX {
                usize::MAX as nat
            } else {
                longest + 2
            }) % 0x10000
        }),
{
    let upper: usize = if top < middle {
        middle
    } else {
        top
    };
    let longest: usize = if upper < bottom {
        bottom
    } else {
        upper
    };
    (longest.saturating_add(2) % 0x10000) as u16
}

/// A label beside the axis, and the row in which it stands.
#[derive(Debug)]
pub struct AxisTick {
    pub row: usize,
    pub label: String,
}

/// The row of the axis at which no label stands.
pub open spec fn bare_row(width: nat) -> Seq<char> {
    repeated_blank(width) + seq!['\u{2502}']
}

/// `width` spaces.
pub open spec fn repeated_blank(width: nat) -> Seq<char> {
    right_aligned(Seq::empty(), width)
}

/// The row of the axis at which a label stands.
pub open spec fn label_row(label: Seq<char>, width: nat) -> Seq<char> {
    right_aligned(label, width) + seq!['\u{2524}']
}

/// The rows of an axis: bare, but for those at which a label stands. Of two labels for one row
/// the later one stands there.
pub open spec fn axis_rows(ticks: Seq<AxisTick>, width: nat, height: nat) -> Seq<Seq<char>>
    decreases ticks.len(),
{
    if ticks.len() == 0 {
        Seq::new(height, |i: int| bare_row(width))
    } else {
        axis_rows(ticks.drop_last(), width, height).update(
            ticks.last().row as int,
            label_row(ticks.last().label@, width),
        )
    }
}

/// Draws the axis of an area of the screen that has `width` columns and `height` rows, the labels
/// in front of the line. An area without columns or rows counts as one of two columns or one row.
pub fn axis_text(ticks: &Vec<AxisTick>, width: u16, height: u16) -> (text: String)
    requires
        forall|i: int|
            0 <= i < ticks@.len() ==> (#[trigger] ticks@[i]).row < if height == 0 {
                1
            } else {
                height as int
            },
    ensures
        text@ == joined(
            axis_rows(
                ticks@,
                (if width < 2 {
                    1
                } else {
                    width - 1
                }) as nat,
                (if height == 0 {
                    1
                } else {
                    height as int
                }) as nat,
            ),
            "\n"@,
        ),
{
    let height: usize = if height == 0 {
        1
    } else {
        height as usize
    };
    let label_width: usize = if width < 2 {
        1
    } else {
        width as usize - 1
    };
    let mut rows: Vec<String> = Vec::new();
    let ghost bare = axis_rows(Seq::empty(), label_width as nat, height as nat);
    while rows.len() < height
        invariant
            rows@.len() <= height,
            bare == Seq::new(height as nat, |i: int| bare_row(label_width as nat)),
            texts(rows@) == bare.take(rows@.len() as int),
        decreases height - rows@.len(),
    {
        let ghost before = texts(rows@);
        let mut row = align_right("", label_width);
        proof {
            reveal_strlit("");
            assert(""@ =~= Seq::<char>::empty());
        }
        row.push('\u{2502}');
        assert(row@ =~= bare_row(label_width as nat));
        rows.push(row);
        assert(texts(rows@) =~= before.push(bare_row(label_width as nat)));
        assert(texts(rows@) =~= bare.take(rows@.len() as int));
    }
    assert(texts(rows@) =~= bare);
    let mut done: usize = 0;
    assert(ticks@.take(0) =~= Seq::empty());
    while done < ticks.len()
        invariant
            done <= ticks@.len(),
            rows@.len() == height,
            forall|i: int| 0 <= i < ticks@.len() ==> (#[trigger] ticks@[i]).row < height,
            texts(rows@) == axis_rows(
                ticks@.take(done as int),
                label_width as nat,
                height as nat,
            ),
        decreases ticks@.len() - done,
    {
        let ghost before = texts(rows@);
        let mut row = align_right(ticks[done].label.as_str(), label_width);
        row.push('\u{2524}');
        assert(row@ =~= label_row(ticks@[done as int].label@, label_width as nat));
        rows.set(ticks[done].row, row);
        assert(texts(rows@) =~= before.update(
            ticks@[done as int].row as int,
            label_row(ticks@[done as int].label@, label_width as nat),
        ));
        assert(ticks@.take(done + 1).drop_last() =~= ticks@.take(done as int));
        done = done + 1;
    }
    assert(ticks@.take(done as int) =~= ticks@);
    join(&rows, "\n")
}

/// An estimate rests on as many samples as are asked for, on all where there are no more, and on
/// two where fewer are asked for.
pub proof fn law_window_rolls(len: nat, wanted: nat)
    requires
        len >= 2,
    ensures
        2 <= wanted <= len ==> window_len(len, wanted) == wanted,
        len <= wanted ==> window_len(len, wanted) == len,
        wanted < 2 ==> window_len(len, wanted) == 2,
{
}

/// One more sample leaves the length of a full window as it is: the window rolls on.
pub proof fn law_window_keeps_its_length(len: nat, wanted: nat)
    requires
        2 <= wanted <= len,
    ensures
        window_len(len + 1, wanted) == window_len(len, wanted),
{
}

/// The points of a window are those of the last samples, in their order: counted from the end,
/// each has the place of its sample, and the whole milliseconds of the time since the first one.
pub proof fn law_estimate_rests_on_the_last_samples(
    points: Seq<ChartPoint>,
    samples: Seq<QueueSample>,
    wanted: nat,
    back: int,
)
    requires
        ascending(samples),
        2 <= wanted <= samples.len(),
        plots(points, samples, samples.len() - window_len(samples.len(), wanted)),
        1 <= back <= wanted,
    ensures
        points.len() == wanted,
        ({
            let point = points[wanted - back];
            let sample = samples[samples.len() - back];
            let since = sample.timestamp.instant() - samples[0].timestamp.instant();
            &&& point.position@ == sample.position@
            &&& point.elapsed_millis * 1_000_000 <= since < (point.elapsed_millis + 1) * 1_000_000
        }),
{
    law_points_tell_their_samples(
        points,
        samples,
        samples.len() - window_len(samples.len(), wanted),
        wanted - back,
    );
}

/// What is older than the window does not matter for an estimate, but for the time of the first
/// sample: logs that agree on that time and on the last samples give the same points.
pub proof fn law_estimate_forgets_old_places(
    p: Seq<ChartPoint>,
    q: Seq<ChartPoint>,
    a: Seq<QueueSample>,
    b: Seq<QueueSample>,
    wanted: nat,
    i: int,
)
    requires
        2 <= wanted <= a.len(),
        a.len() == b.len(),
        a[0].timestamp == b[0].timestamp,
        forall|k: int| a.len() - wanted <= k < a.len() ==> (#[trigger] a[k]).same_as(b[k]),
        plots(p, a, a.len() - window_len(a.len(), wanted)),
        plots(q, b, b.len() - window_len(b.len(), wanted)),
        0 <= i < wanted,
    ensures
        p.len() == q.len() == wanted,
        p[i].elapsed_millis == q[i].elapsed_millis,
        p[i].position@ == q[i].position@,
{
    assert(a[a.len() - wanted + i].same_as(b[a.len() - wanted + i]));
}

/// Each point has the place of its sample, and the whole milliseconds since the first sample.
pub proof fn law_points_tell_their_samples(
    points: Seq<ChartPoint>,
    samples: Seq<QueueSample>,
    start: int,
    i: int,
)
    requires
        ascending(samples),
        plots(points, samples, start),
        0 <= start,
        0 <= i < samples.len() - start,
    ensures
        points.len() == samples.len() - start,
        points[i].position@ == samples[start + i].position@,
        points[i].elapsed_millis * 1_000_000 <= samples[start + i].timestamp.instant()
            - samples[0].timestamp.instant() < (points[i].elapsed_millis + 1) * 1_000_000,
{
    if start + i > 0 {
        assert(samples[0].timestamp.instant() < samples[start + i].timestamp.instant());
    }
    assert(points[i].elapsed_millis == elapsed(samples, start + i));
}

/// An axis has as many rows as asked for. A row at which labels stand shows the last of them, and
/// every other row shows none.
pub proof fn law_axis_shows_its_labels(ticks: Seq<AxisTick>, width: nat, height: nat, row: int)
    requires
        forall|i: int| 0 <= i < ticks.len() ==> (#[trigger] ticks[i]).row < height,
        0 <= row < height,
    ensures
        axis_rows(ticks, width, height).len() == height,
        (forall|i: int| 0 <= i < ticks.len() ==> (#[trigger] ticks[i]).row != row) ==> axis_rows(
            ticks,
            width,
            height,
        )[row] == bare_row(width),
        forall|i: int|
            0 <= i < ticks.len() && (#[trigger] ticks[i]).row == row && (forall|j: int|
                i < j < ticks.len() ==> (#[trigger] ticks[j]).row != row) ==> axis_rows(
                ticks,
                width,
                height,
            )[row] == label_row(ticks[i].label@, width),
    decreases ticks.len(),
{
    if ticks.len() > 0 {
        let front = ticks.drop_last();
        assert forall|i: int| 0 <= i < front.len() implies (#[trigger] front[i]).row < height by {
            assert(front[i] == ticks[i]);
        }
        law_axis_shows_its_labels(front, width, height, row);
        let last = ticks.len() - 1;
        assert(ticks[last] == ticks.last());
        if ticks.last().row != row {
            assert(axis_rows(ticks, width, height)[row] == axis_rows(front, width, height)[row]);
            assert forall|i: int|
                0 <= i < ticks.len() && (#[trigger] ticks[i]).row == row && (forall|j: int|
                    i < j < ticks.len() ==> (#[trigger] ticks[j]).row != row) implies axis_rows(
                ticks,
                width,
                height,
            )[row] == label_row(ticks[i].label@, width) by {
                assert(front[i] == ticks[i]);
                assert forall|j: int| i < j < front.len() implies (#[trigger] front[j]).row
                    != row by {
                    assert(front[j] == ticks[j]);
                }
            }
            if forall|i: int| 0 <= i < ticks.len() ==> (#[trigger] ticks[i]).row != row {
                assert forall|i: int| 0 <= i < front.len() implies (#[trigger] front[i]).row
                    != row by {
                    assert(front[i] == ticks[i]);
                }
            }
        }
    }
}

/// A row of the axis is one character longer than its field where the label fits in: blanks, the
/// label, and the line of the axis, which a label is tied to.
pub proof fn law_axis_rows_end_in_the_line(label: Seq<char>, width: nat)
    requires
        label.len() <= width,
    ensures
        bare_row(width).len() == width + 1,
        bare_row(width)[width as int] == '\u{2502}',
        forall|i: int| 0 <= i < width ==> (#[trigger] bare_row(width)[i]) == ' ',
        label_row(label, width).len() == width + 1,
        label_row(label, width)[width as int] == '\u{2524}',
        label_row(label, width).subrange(width - label.len(), width as int) == label,
        forall|i: int|
            0 <= i < width - label.len() ==> (#[trigger] label_row(label, width)[i]) == ' ',
{
    assert(label_row(label, width).subrange(width - label.len(), width as int) =~= label);
}

} // verus!

//! Dividing a terminal canvas among devices and their two charts.

use vstd::arithmetic::div_mod::lemma_fundamental_div_mod;
use vstd::prelude::*;

verus! {

/// A rectangle of terminal cells.
#[derive(Clone, Copy, Debug, PartialEq, Eq, Structural)]
pub struct Rect {
    pub x: u16,
    pub y: u16,
    pub width: u16,
    pub height: u16,
}

impl Rect {
    /// The rectangle lies within the addressable cells of a terminal.
    pub open spec fn wf(&self) -> bool {
        self.x + self.width <= u16::MAX && self.y + self.height <= u16::MAX
    }
}

/// Height of row `i` when `height` cells are shared among `count` rows: an
/// equal share each, the leading rows taking one cell more while the
/// remainder lasts.
pub open spec fn row_height(height: int, count: int, i: int) -> int {
    height / count + if i < height % count {
        1int
    } else {
        0int
    }
}

/// Distance of row `i` from the top of the canvas.
pub open spec fn row_offset(height: int, count: int, i: int) -> int {
    i * (height / count) + if i < height % count {
        i
    } else {
        height % count
    }
}

/// Row `i` of `canvas` divided among `count` devices.
pub open spec fn row_of(canvas: Rect, count: int, i: int) -> Rect {
    Rect {
        x: canvas.x,
        y: (canvas.y + row_offset(canvas.height as int, count, i)) as u16,
        width: canvas.width,
        height: row_height(canvas.height as int, count, i) as u16,
    }
}

/// All rows of `canvas` divided among `count` devices, top to bottom.
pub open spec fn rows_of(canvas: Rect, count: int) -> Seq<Rect> {
    Seq::new(count as nat, |i: int| row_of(canvas, count, i))
}

/// Sum of the heights of `rows`.
pub open spec fn total_height(rows: Seq<Rect>) -> int
    decreases rows.len(),
{
    if rows.len() == 0 {
        0
    } else {
        total_height(rows.drop_last()) + rows.last().height
    }
}

/// Left half of `area`; it takes the odd cell when the width is odd.
pub open spec fn left_half(area: Rect) -> Rect {
    Rect { x: area.x, y: area.y, width: (area.width - area.width / 2) as u16, height: area.height }
}

/// Right half of `area`, starting where the left half ends.
pub open spec fn right_half(area: Rect) -> Rect {
    Rect {
        x: (area.x + (area.width - area.width / 2)) as u16,
        y: area.y,
        width: area.width / 2,
        height: area.height,
    }
}

/// The two chart areas of every device, top to bottom.
pub open spec fn chart_areas_of(canvas: Rect, count: int) -> Seq<(Rect, Rect)> {
    Seq::new(
        count as nat,
        |i: int| (left_half(row_of(canvas, count, i)), right_half(row_of(canvas, count, i))),
    )
}

/// Rows follow one another without gap or overlap, starting at the top of
/// the canvas and ending at its bottom.
pub proof fn lemma_rows_stack(height: int, count: int, i: int)
    requires
        0 <= height,
        1 <= count,
        0 <= i < count,
    ensures
        row_offset(height, count, 0) == 0,
        row_offset(height, count, count) == height,
        row_offset(height, count, i + 1) == row_offset(height, count, i) + row_height(
            height,
            count,
            i,
        ),
        0 <= row_height(height, count, i) <= height,
        0 <= row_offset(height, count, i),
        row_offset(height, count, i + 1) <= height,
{
    let base = height / count;
    let rest = height % count;
    lemma_fundamental_div_mod(height, count);
    assert(0 <= rest < count);
    assert(0 <= base) by (nonlinear_arith)
        requires
            height == count * base + rest,
            0 <= height,
            1 <= count,
            0 <= rest < count,
    ;
    assert((i + 1) * base == i * base + base) by (nonlinear_arith);
    assert(0 <= i * base && (i + 1) * base <= count * base) by (nonlinear_arith)
        requires
            0 <= i < count,
            0 <= base,
    ;
    assert(base <= count * base) by (nonlinear_arith)
        requires
            1 <= count,
            0 <= base,
    ;
}

/// No row is more than one cell taller than another, and no row is taller
/// than a row above it.
pub proof fn lemma_rows_even(height: int, count: int, i: int, j: int)
    requires
        0 <= height,
        1 <= count,
        0 <= i <= j < count,
    ensures
        row_height(height, count, j) <= row_height(height, count, i) <= row_height(
            height,
            count,
            j,
        ) + 1,
{
}

/// Heights of the first `upto` rows add up to the offset of the row after them.
proof fn lemma_prefix_height(canvas: Rect, count: int, upto: int)
    requires
        canvas.wf(),
        1 <= count,
        0 <= upto <= count,
    ensures
        total_height(rows_of(canvas, count).take(upto)) == row_offset(
            canvas.height as int,
            count,
            upto,
        ),
    decreases upto,
{
    let rows = rows_of(canvas, count);
    if upto > 0 {
        lemma_prefix_height(canvas, count, upto - 1);
        lemma_rows_stack(canvas.height as int, count, upto - 1);
        assert(rows.take(upto).drop_last() =~= rows.take(upto - 1));
        assert(rows.take(upto).last() == row_of(canvas, count, upto - 1));
    } else {
        lemma_rows_stack(canvas.height as int, count, 0);
    }
}

/// The rows of a canvas share its whole height: their heights add up to the
/// height of the canvas, whatever the number of devices.
pub proof fn lemma_rows_fill_canvas(canvas: Rect, count: int)
    requires
        canvas.wf(),
        1 <= count,
    ensures
        rows_of(canvas, count).len() == count,
        total_height(rows_of(canvas, count)) == canvas.height,
{
    lemma_prefix_height(canvas, count, count);
    lemma_rows_stack(canvas.height as int, count, 0);
    assert(rows_of(canvas, count).take(count) =~= rows_of(canvas, count));
}

/// The two halves of an area lie side by side, cover its whole width, and
/// differ in width by at most one cell, the left one being the wider.
pub proof fn lemma_halves_cover(area: Rect)
    requires
        area.wf(),
    ensures
        left_half(area).width + right_half(area).width == area.width,
        right_half(area).width <= left_half(area).width <= right_half(area).width + 1,
        area.width % 2 == 0 ==> left_half(area).width == right_half(area).width,
        left_half(area).x == area.x,
        right_half(area).x == left_half(area).x + left_half(area).width,
        left_half(area).y == area.y && right_half(area).y == area.y,
        left_half(area).height == area.height && right_half(area).height == area.height,
        left_half(area).wf() && right_half(area).wf(),
{
}

/// Every device gets two charts side by side in its own row: they are as
/// high as the row, cover the whole width of the canvas, and differ in width
/// by at most one cell.
pub proof fn lemma_chart_areas_cover(canvas: Rect, count: int, i: int)
    requires
        canvas.wf(),
        1 <= count,
        0 <= i < count,
    ensures
        chart_areas_of(canvas, count).len() == count,
        chart_areas_of(canvas, count)[i].0.width + chart_areas_of(canvas, count)[i].1.width
            == canvas.width,
        chart_areas_of(canvas, count)[i].1.width <= chart_areas_of(canvas, count)[i].0.width
            <= chart_areas_of(canvas, count)[i].1.width + 1,
        chart_areas_of(canvas, count)[i].0.x == canvas.x,
        chart_areas_of(canvas, count)[i].1.x == canvas.x + chart_areas_of(
            canvas,
            count,
        )[i].0.width,
        chart_areas_of(canvas, count)[i].0.y == rows_of(canvas, count)[i].y,
        chart_areas_of(canvas, count)[i].1.y == rows_of(canvas, count)[i].y,
        chart_areas_of(canvas, count)[i].0.height == rows_of(canvas, count)[i].height,
        chart_areas_of(canvas, count)[i].1.height == rows_of(canvas, count)[i].height,
{
    lemma_rows_stack(canvas.height as int, count, i);
    lemma_halves_cover(row_of(canvas, count, i));
}

/// Divides `canvas` into `device_count` rows stacked top to bottom, each an
/// equal share of its height.
pub fn partition(canvas: Rect, device_count: usize) -> (rows: Vec<Rect>)
    requires
        canvas.wf(),
        device_count >= 1,
    ensures
        rows@ == rows_of(canvas, device_count as int),
        rows@.len() == device_count,
        total_height(rows@) == canvas.height,
        forall|i: int| 0 <= i < device_count ==> (#[trigger] rows@[i]).wf(),
        forall|i: int, j: int|
            #![trigger rows@[i], rows@[j]]
            0 <= i <= j < device_count ==> rows@[j].height <= rows@[i].height <= rows@[j].height
                + 1,
{
    let height: usize = canvas.height as usize;
    let base: usize = height / device_count;
    let rest: usize = height % device_count;
    let mut rows: Vec<Rect> = Vec::new();
    let mut top: u16 = canvas.y;
    let mut i: usize = 0;
    while i < device_count
        invariant
            canvas.wf(),
            device_count >= 1,
            height == canvas.height,
            base == height / device_count,
            rest == height % device_count,
            i <= device_count,
            top == canvas.y + row_offset(height as int, device_count as int, i as int),
            rows@.len() == i,
            forall|k: int| 0 <= k < i ==> rows@[k] == row_of(canvas, device_count as int, k),
            forall|k: int| 0 <= k < i ==> (#[trigger] rows@[k]).wf(),
        decreases device_count - i,
    {
        proof {
            lemma_rows_stack(height as int, device_count as int, i as int);
        }
        let share: usize = if i < rest {
            base + 1
        } else {
            base
        };
        let row = Rect { x: canvas.x, y: top, width: canvas.width, height: share as u16 };
        rows.push(row);
        top = top + share as u16;
        i += 1;
    }
    proof {
        assert(rows@ =~= rows_of(canvas, device_count as int));
        lemma_rows_fill_canvas(canvas, device_count as int);
        assert forall|i: int, j: int|
            #![trigger rows@[i], rows@[j]]
            0 <= i <= j < device_count implies rows@[j].height <= rows@[i].height
                <= rows@[j].height + 1 by {
            lemma_rows_even(height as int, device_count as int, i, j);
            lemma_rows_stack(height as int, device_count as int, i);
            lemma_rows_stack(height as int, device_count as int, j);
        }
    }
    rows
}

/// Splits `area` into a left and a right half of equal width, the left half
/// taking the odd cell.
pub fn split_halves(area: Rect) -> (halves: (Rect, Rect))
    requires
        area.wf(),
    ensures
        halves.0 == left_half(area),
        halves.1 == right_half(area),
        halves.0.wf() && halves.1.wf(),
        halves.0.width + halves.1.width == area.width,
        halves.1.width <= halves.0.width <= halves.1.width + 1,
{
    let right_width: u16 = area.width / 2;
    let left_width: u16 = area.width - right_width;
    let left = Rect { x: area.x, y: area.y, width: left_width, height: area.height };
    let right = Rect {
        x: area.x + left_width,
        y: area.y,
        width: right_width,
        height: area.height,
    };
    (left, right)
}

/// The clock and temperature chart areas of every device: one row per
/// device, each split into two halves.
pub fn chart_areas(canvas: Rect, device_count: usize) -> (areas: Vec<(Rect, Rect)>)
    requires
        canvas.wf(),
        device_count >= 1,
    ensures
        areas@ == chart_areas_of(canvas, device_count as int),
        areas@.len() == device_count,
        forall|i: int|
            0 <= i < device_count ==> (#[trigger] areas@[i]).0.wf() && areas@[i].1.wf(),
{
    let rows = partition(canvas, device_count);
    let mut areas: Vec<(Rect, Rect)> = Vec::new();
    let mut i: usize = 0;
    while i < device_count
        invariant
            i <= device_count,
            rows@ == rows_of(canvas, device_count as int),
            rows@.len() == device_count,
            forall|k: int| 0 <= k < device_count ==> (#[trigger] rows@[k]).wf(),
            areas@.len() == i,
            forall|k: int|
                0 <= k < i ==> areas@[k] == (
                    left_half(row_of(canvas, device_count as int, k)),
                    right_half(row_of(canvas, device_count as int, k)),
                ),
            forall|k: int| 0 <= k < i ==> (#[trigger] areas@[k]).0.wf() && areas@[k].1.wf(),
        decreases device_count - i,
    {
        let halves = split_halves(rows[i]);
        areas.push(halves);
        i += 1;
    }
    assert(areas@ =~= chart_areas_of(canvas, device_count as int));
    areas
}

} // verus!

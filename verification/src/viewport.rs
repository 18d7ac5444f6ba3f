//! Offset and selection bookkeeping for a scrollable list: the scroll-off
//! margin, wheel scrolling, and frame-time realignment.

use vstd::prelude::*;

verus! {

/// Pull `index` back inside the band the margin allows around `offset`:
/// at least `scrolloff` rows from the top edge, inside the content, and at
/// least `scrolloff` rows from the bottom edge of the frame.
pub open spec fn adapt_index_spec(
    offset: int,
    scrolloff: int,
    index: int,
    height: int,
    len: int,
) -> int {
    let i1 = if offset + scrolloff >= index {
        offset + scrolloff
    } else {
        index
    };
    let i2 = if i1 >= len {
        len - 1
    } else {
        i1
    };
    if offset + height > scrolloff && i2 >= offset + height - scrolloff {
        offset + height - scrolloff - 1
    } else {
        i2
    }
}

/// Pull `index` back inside the band the margin allows around `offset`.
pub fn adapt_index_in_frame(
    offset: usize,
    scrolloff: usize,
    mut index: usize,
    height: usize,
    len: usize,
) -> (r: usize)
    requires
        len > 0,
        offset + scrolloff <= usize::MAX,
        offset + height <= usize::MAX,
    ensures
        r == adapt_index_spec(offset as int, scrolloff as int, index as int, height as int, len as int),
{
    if offset + scrolloff >= index {
        index = offset + scrolloff;
    }
    if index >= len {
        index = len - 1;
    }
    if offset + height > scrolloff && index >= offset + height - scrolloff {
        index = offset + height - scrolloff - 1;
    }
    index
}

/// The offset a render settles on when no wheel scroll is pending: advanced
/// so the selection is at least `scrolloff + 1` rows above the frame bottom
/// (clamped to keep a full frame of content), then retreated so the
/// selection is at least `scrolloff` rows below the frame top.
pub open spec fn resolve_offset_spec(
    index: int,
    offset: int,
    height: int,
    scrolloff: int,
    len: int,
) -> int {
    let o1 = if index >= offset && height >= scrolloff + 1 && index - offset > height - (scrolloff
        + 1) {
        let advanced = index + (scrolloff + 1) - height;
        if len >= height && advanced > len - height {
            len - height
        } else {
            advanced
        }
    } else {
        offset
    };
    if o1 + scrolloff >= index {
        if scrolloff <= index {
            index - scrolloff
        } else {
            0
        }
    } else {
        o1
    }
}

/// The offset a render settles on when no wheel scroll is pending.
pub fn resolve_offset(index: usize, offset: usize, height: usize, scrolloff: usize, len: usize) -> (
    r: usize)
    requires
        index + scrolloff + 1 <= usize::MAX,
        offset + scrolloff <= usize::MAX,
    ensures
        r == resolve_offset_spec(
            index as int,
            offset as int,
            height as int,
            scrolloff as int,
            len as int,
        ),
{
    let mut o: usize = offset;
    if index >= offset && height >= scrolloff + 1 && index - offset > height - (scrolloff + 1) {
        o = index + (scrolloff + 1) - height;
        if len >= height && o > len - height {
            o = len - height;
        }
    }
    if o + scrolloff >= index {
        o = if scrolloff <= index {
            index - scrolloff
        } else {
            0
        };
    }
    o
}

/// The viewport margin law: whenever the frame is taller than twice the
/// margin and the content reaches at least `scrolloff` rows past the
/// selection, the resolved offset keeps the selection inside the margin
/// band: at or below the frame top, and at least `scrolloff + 1` rows above
/// the frame bottom.
pub proof fn lemma_viewport_margin(
    selected: int,
    offset: int,
    height: int,
    scrolloff: int,
    len: int,
)
    requires
        0 <= selected,
        0 <= offset,
        0 <= scrolloff,
        height > 2 * scrolloff,
        selected + scrolloff < len,
    ensures
        ({
            let o = resolve_offset_spec(selected, offset, height, scrolloff, len);
            o <= selected <= o + height - scrolloff - 1
        }),
{
}

/// The offset after one wheel step: down adds the step, clamped so the
/// offset never passes `len - scrolloff - 1`; up subtracts it, stopping at
/// the top.
pub open spec fn wheel_offset_spec(offset: int, step: int, down: bool, scrolloff: int, len: int) -> int {
    if down {
        let advanced = offset + step;
        if len >= scrolloff + 1 && advanced >= len - scrolloff - 1 {
            len - scrolloff - 1
        } else {
            advanced
        }
    } else if offset < step {
        0
    } else {
        offset - step
    }
}

/// The offset after one wheel step.
pub fn wheel_offset(offset: usize, step: usize, down: bool, scrolloff: usize, len: usize) -> (
    r: usize)
    requires
        offset + step <= usize::MAX,
        scrolloff + 1 <= usize::MAX,
    ensures
        r == wheel_offset_spec(offset as int, step as int, down, scrolloff as int, len as int),
{
    if down {
        let advanced = offset + step;
        if len >= scrolloff + 1 && advanced >= len - scrolloff - 1 {
            len - scrolloff - 1
        } else {
            advanced
        }
    } else if offset < step {
        0
    } else {
        offset - step
    }
}

/// Move the offset by one clamped wheel step and pull the selection back
/// into the frame's margin band, as the shared wheel handler does.
pub fn scroll_position(
    down: bool,
    offset: usize,
    scroll_step: usize,
    scrolloff: usize,
    index: usize,
    height: usize,
    len: usize,
) -> (r: (usize, usize))
    requires
        len > 0,
        offset + scroll_step <= usize::MAX,
        offset + scroll_step + scrolloff <= usize::MAX,
        offset + scroll_step + height <= usize::MAX,
        scrolloff + 1 <= usize::MAX,
    ensures
        r.0 == wheel_offset_spec(
            offset as int,
            scroll_step as int,
            down,
            scrolloff as int,
            len as int,
        ),
        r.1 == adapt_index_spec(r.0 as int, scrolloff as int, index as int, height as int, len as int),
{
    let new_offset = wheel_offset(offset, scroll_step, down, scrolloff, len);
    let new_index = adapt_index_in_frame(new_offset, scrolloff, index, height, len);
    (new_offset, new_index)
}

/// The offset a `shift_line_middle` realignment sets: half a frame above
/// the selection, stopping at the top.
pub fn shift_middle_offset(idx: usize, height: usize) -> (r: usize)
    ensures
        r == if idx > height as int / 2 {
            idx - height as int / 2
        } else {
            0
        },
{
    if idx > height / 2 {
        idx - height / 2
    } else {
        0
    }
}

/// The offset a `shift_line_bottom` realignment sets: a full frame above
/// the selection, stopping at the top.
pub fn shift_bottom_offset(idx: usize, height: usize) -> (r: usize)
    ensures
        r == if idx > height {
            idx - height
        } else {
            0
        },
{
    if idx > height {
        idx - height
    } else {
        0
    }
}

} // verus!

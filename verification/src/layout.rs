//! Where on the terminal each part of the application is drawn.
use vstd::prelude::*;

verus! {

/// A rectangle of terminal cells.
#[derive(Clone, Copy, Debug, PartialEq, Eq, Structural)]
pub struct Rect {
    pub x: u16,
    pub y: u16,
    pub width: u16,
    pub height: u16,
}

/// The rectangles of the parts of the application.
#[derive(Clone, Copy, Debug, PartialEq, Eq, Structural)]
pub struct AppLayout {
    pub commandline: Rect,
    pub current: Rect,
    pub parent: Rect,
    pub preview: Rect,
    pub statusline: Rect,
}

/// The sum of two coordinates, or the largest coordinate if the sum has none.
pub open spec fn plus(a: u16, b: u16) -> u16 {
    if a + b <= u16::MAX {
        (a + b) as u16
    } else {
        u16::MAX
    }
}

/// The layout within `size`: the last two rows are the status line and the
/// command line; the rows above are split into three columns, a fifth of
/// the width for the parent, and half of the rest each for the current
/// directory and the preview, which takes the odd column.
pub open spec fn layout_within(size: Rect) -> AppLayout {
    let height = if size.height >= 2 {
        (size.height - 2) as u16
    } else {
        0u16
    };
    let parent = size.width / 5;
    let current = ((size.width - parent) / 2) as u16;
    let preview = (size.width - parent - current) as u16;
    AppLayout {
        commandline: Rect {
            x: size.x,
            y: plus(plus(size.y, height), 1),
            width: size.width,
            height: 1,
        },
        current: Rect { x: plus(size.x, parent), y: size.y, width: current, height },
        parent: Rect { x: size.x, y: size.y, width: parent, height },
        preview: Rect {
            x: plus(plus(size.x, parent), current),
            y: size.y,
            width: preview,
            height,
        },
        statusline: Rect { x: size.x, y: plus(size.y, height), width: size.width, height: 1 },
    }
}

impl AppLayout {
    /// The layout within a terminal of the given size.
    pub fn new(size: Rect) -> (layout: AppLayout)
        ensures
            layout == layout_within(size),
    {
        let height = size.height.saturating_sub(2);
        let parent = size.width / 5;
        let current = (size.width - parent) / 2;
        let preview = size.width - parent - current;
        let below = size.y.saturating_add(height);
        let beside = size.x.saturating_add(parent);
        AppLayout {
            commandline: Rect {
                x: size.x,
                y: below.saturating_add(1),
                width: size.width,
                height: 1,
            },
            current: Rect { x: beside, y: size.y, width: current, height },
            parent: Rect { x: size.x, y: size.y, width: parent, height },
            preview: Rect {
                x: beside.saturating_add(current),
                y: size.y,
                width: preview,
                height,
            },
            statusline: Rect { x: size.x, y: below, width: size.width, height: 1 },
        }
    }
}

} // verus!

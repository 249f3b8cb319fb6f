//! Gesture state of the application overview.
//!
//! The horizontal offset is kept in thousandths of a page: its whole part selects the focused
//! window and its fraction animates between two pages. Vertical offsets and points are in
//! logical pixels, times in milliseconds.

use vstd::prelude::*;

use crate::geometry::{Point, Rectangle};

verus! {

/// Units of horizontal offset in one page of the overview.
pub const PAGE: i64 = 1000;

/// Horizontal offset, in thousandths of a page, that one pixel of drag moves the overview: a
/// page every 250 pixels.
pub const HORIZONTAL_STEP: i64 = 4;

/// Farthest the overview can be dragged past either end, in thousandths of a page.
pub const OVERDRAG_LIMIT: i64 = 3000;

/// Thousandths of a page that the bounce-back from overdrag covers each millisecond: a page in
/// 25 milliseconds.
pub const OVERDRAG_RETURN_RATE: i64 = 40;

/// Pixels that a cancelled close drag returns every three milliseconds.
pub const CLOSE_RETURN_PER_3MS: i64 = 10;

/// Largest vertical offset kept, in pixels; a longer drag stays at it.
pub const MAX_CLOSE_OFFSET: i64 = 1099511627776;

/// Most windows the overview pages through.
pub const MAX_WINDOWS: usize = 65536;

/// Time a touch must rest on the focused window before it is lifted for placement.
pub const HOLD_DURATION_MS: u64 = 1000;

/// Axis of a drag gesture.
#[derive(Clone, Copy, Debug, PartialEq, Eq, Structural)]
pub enum Direction {
    Horizontal,
    Vertical,
}

/// Where a lifted window was dropped.
#[derive(Clone, Copy, Debug, PartialEq, Eq, Structural)]
pub enum DropTarget {
    /// The top third of the output: open it as primary window.
    Primary,
    /// The bottom third of the output: open it as secondary window.
    Secondary,
    /// The middle third: go back to the overview.
    Cancel,
}

/// Offset of the first page, in thousandths of a page, with `n` windows.
pub open spec fn min_offset(n: int) -> int {
    (1 - n) * (PAGE as int)
}

/// Lowest horizontal offset allowed with `n` windows.
pub open spec fn lowest_offset(n: int) -> int {
    min_offset(n) - OVERDRAG_LIMIT
}

/// `v` limited to `[lo, hi]`.
pub open spec fn clamp(v: int, lo: int, hi: int) -> int {
    if v < lo {
        lo
    } else if v > hi {
        hi
    } else {
        v
    }
}

/// Absolute value.
pub open spec fn abs(v: int) -> int {
    if v < 0 {
        -v
    } else {
        v
    }
}

/// `v / PAGE` rounded to the nearest page, halves away from zero.
pub open spec fn round_pages(v: int) -> int {
    if v < 0 {
        -((-v + 500) / (PAGE as int))
    } else {
        (v + 500) / (PAGE as int)
    }
}

/// Index of the focused window among `n` windows for the offset `x`.
pub open spec fn focused(x: int, n: int) -> int {
    let pages = if x < 0 {
        (-x + 500) / (PAGE as int)
    } else {
        0
    };
    if pages < n - 1 {
        pages
    } else {
        n - 1
    }
}

/// Order in which `n` windows are drawn for the offset `x`, as pairs of position and index.
///
/// Window `i` stands `i + round_pages(x)` positions from the centre. Windows left of the centre
/// come first, from the outermost inwards, then the others from the outermost right inwards,
/// so that each window is drawn over those farther out.
pub open spec fn draw_sequence(x: int, n: int) -> Seq<(int, int)> {
    let m = round_pages(x);
    let left = if -m < 0 {
        0
    } else if -m > n {
        n
    } else {
        -m
    };
    Seq::new(left as nat, |i: int| (i + m, i)) + Seq::new(
        (n - left) as nat,
        |j: int| (n - 1 - j + m, n - 1 - j),
    )
}

/// The overview after drags to each point of `points` in turn, with `n` windows on an output
/// `height` pixels high, none of which is closed.
pub open spec fn dragged_through(o: Overview, points: Seq<Point>, height: int, n: int, now: u64) -> Overview
    decreases points.len(),
{
    if points.len() == 0 {
        o
    } else {
        dragged_through(o.dragged(points[0], height, n, now).0, points.drop_first(), height, n, now)
    }
}

/// However far and however often it is dragged, the horizontal offset of the overview stays
/// within `[(1 - n) - OVERDRAG_LIMIT, OVERDRAG_LIMIT]` pages for `n` windows.
pub proof fn lemma_drags_stay_clamped(o: Overview, points: Seq<Point>, height: int, n: int, now: u64)
    requires
        o.wf(n),
        0 <= n <= MAX_WINDOWS,
    ensures
        dragged_through(o, points, height, n, now).wf(n),
        lowest_offset(n) <= dragged_through(o, points, height, n, now).x_offset <= OVERDRAG_LIMIT,
    decreases points.len(),
{
    if points.len() > 0 {
        let next = o.dragged(points[0], height, n, now).0;
        assert(next.wf(n));
        lemma_drags_stay_clamped(next, points.drop_first(), height, n, now);
    }
}

/// A vertical drag closes the focused window exactly when it brings the window half the output
/// height away, or farther; the overview then waits for the touch to end before it closes
/// another.
pub proof fn lemma_close_threshold(o: Overview, p: Point, height: int, n: int, now: u64)
    requires
        o.floating_anchor is None,
        o.drag_direction == Some(Direction::Vertical),
        !o.close_release_pending,
        n > 0,
        abs(o.y_offset + (p.y - o.last_drag_point.y)) <= MAX_CLOSE_OFFSET,
    ensures
        o.dragged(p, height, n, now).1 <==> 2 * abs(o.y_offset + (p.y - o.last_drag_point.y))
            >= height,
        o.dragged(p, height, n, now).1 ==> o.dragged(p, height, n, now).0.close_release_pending,
        !o.dragged(p, height, n, now).1 ==> o.dragged(p, height, n, now).0.y_offset == o.y_offset + (
        p.y - o.last_drag_point.y),
{
}

/// Gesture state of the application overview.
#[derive(Clone, Copy, Debug, PartialEq, Eq, Structural)]
pub struct Overview {
    /// Horizontal paging offset in thousandths of a page; zero shows the first window.
    pub x_offset: i64,
    /// Vertical offset of the focused window, dragged towards closing it.
    pub y_offset: i64,
    /// Touch point at which a lifted window started to float, if one floats.
    pub floating_anchor: Option<Point>,
    /// Last point of the current touch.
    pub last_drag_point: Point,
    /// Time of the last bounce-back step, while the offsets return.
    pub last_overdrag_step: Option<u64>,
    /// Axis of the current drag, fixed by its first move.
    pub drag_direction: Option<Direction>,
    /// A window was closed during this touch; no other closes before release.
    pub close_release_pending: bool,
    /// Time at which a touch started on the focused window.
    pub hold_start: Option<u64>,
}

impl Overview {
    /// Offsets within their bounds for `n` windows.
    pub open spec fn wf(self, n: int) -> bool {
        &&& lowest_offset(n) <= self.x_offset <= OVERDRAG_LIMIT
        &&& abs(self.y_offset as int) <= MAX_CLOSE_OFFSET
    }

    /// The overview as it opens: first window focused, nothing dragged.
    pub open spec fn initial() -> Overview {
        Overview {
            x_offset: 0,
            y_offset: 0,
            floating_anchor: None,
            last_drag_point: Point { x: 0, y: 0 },
            last_overdrag_step: None,
            drag_direction: None,
            close_release_pending: false,
            hold_start: None,
        }
    }

    /// Offset of the floating window from where it was lifted.
    pub open spec fn floating_offset(self) -> Option<(int, int)> {
        match self.floating_anchor {
            Some(a) => Some(
                (self.last_drag_point.x - a.x, self.last_drag_point.y - a.y),
            ),
            None => None,
        }
    }

    /// State after a drag to `p` with `n` windows on an output `height` pixels high, and
    /// whether the focused window is to be closed.
    pub open spec fn dragged(self, p: Point, height: int, n: int, now: u64) -> (Overview, bool) {
        let dx = p.x - self.last_drag_point.x;
        let dy = p.y - self.last_drag_point.y;
        let moved = Overview { last_drag_point: p, ..self };
        if self.floating_anchor.is_some() {
            (moved, false)
        } else {
            let dir = match self.drag_direction {
                Some(d) => d,
                None => if abs(dx) >= abs(dy) {
                    Direction::Horizontal
                } else {
                    Direction::Vertical
                },
            };
            let latched = Overview { drag_direction: Some(dir), ..moved };
            if dir == Direction::Horizontal {
                (
                    Overview {
                        x_offset: clamp(
                            self.x_offset + HORIZONTAL_STEP * dx,
                            lowest_offset(n),
                            OVERDRAG_LIMIT as int,
                        ) as i64,
                        last_overdrag_step: None,
                        hold_start: None,
                        y_offset: 0,
                        ..latched
                    },
                    false,
                )
            } else if !self.close_release_pending {
                let y = clamp(self.y_offset + dy, -MAX_CLOSE_OFFSET, MAX_CLOSE_OFFSET as int);
                if 2 * abs(y) >= height && n > 0 {
                    (
                        Overview {
                            last_overdrag_step: Some(now),
                            hold_start: None,
                            close_release_pending: true,
                            y_offset: 0,
                            ..latched
                        },
                        true,
                    )
                } else {
                    (
                        Overview {
                            last_overdrag_step: None,
                            hold_start: None,
                            y_offset: y as i64,
                            ..latched
                        },
                        false,
                    )
                }
            } else {
                (latched, false)
            }
        }
    }

    /// State after one frame's bounce-back with `n` windows at time `now`.
    ///
    /// The horizontal offset is first limited to its bounds. While the offsets return, the
    /// overdrag past either end shrinks towards that end and the vertical offset towards zero,
    /// both by the time passed since the last step, neither beyond its goal.
    pub open spec fn clamped(self, n: int, now: u64) -> Overview {
        let lo = min_offset(n);
        let x = clamp(self.x_offset as int, lo - OVERDRAG_LIMIT, OVERDRAG_LIMIT as int);
        match self.last_overdrag_step {
            None => Overview { x_offset: x as i64, ..self },
            Some(step) => {
                let elapsed = if now >= step {
                    now - step
                } else {
                    0
                };
                let back = elapsed * OVERDRAG_RETURN_RATE;
                let close = elapsed * CLOSE_RETURN_PER_3MS / 3;
                let x2 = if x > 0 {
                    x - (if back < x {
                        back
                    } else {
                        x
                    })
                } else if x < lo {
                    if x + back < lo {
                        x + back
                    } else {
                        lo
                    }
                } else {
                    x
                };
                let y = self.y_offset as int;
                let y2 = if y > 0 {
                    y - (if close < y {
                        close
                    } else {
                        y
                    })
                } else {
                    y + (if close < -y {
                        close
                    } else {
                        -y
                    })
                };
                Overview { x_offset: x2 as i64, y_offset: y2 as i64, last_overdrag_step: Some(now), ..self }
            },
        }
    }

    /// Where a window released at the last drag point lands on an output `height` pixels high.
    pub open spec fn drop_area(self, height: int) -> DropTarget {
        let y = self.last_drag_point.y as int;
        if 3 * y < height {
            DropTarget::Primary
        } else if 3 * y >= 2 * height {
            DropTarget::Secondary
        } else {
            DropTarget::Cancel
        }
    }

    /// The overview as it opens: first window focused, nothing dragged.
    pub fn new() -> (r: Overview)
        ensures
            r == Overview::initial(),
    {
        Overview {
            x_offset: 0,
            y_offset: 0,
            floating_anchor: None,
            last_drag_point: Point { x: 0, y: 0 },
            last_overdrag_step: None,
            drag_direction: None,
            close_release_pending: false,
            hold_start: None,
        }
    }

    /// Index of the focused window among `window_count` windows: the offset rounded to whole
    /// pages, at most the last window.
    pub fn focused_index(&self, window_count: usize) -> (r: usize)
        requires
            window_count > 0,
        ensures
            r == focused(self.x_offset as int, window_count as int),
            r < window_count,
    {
        let pages: u64 = if self.x_offset < 0 {
            ((-(self.x_offset as i128) + 500) / 1000) as u64
        } else {
            0
        };
        if (pages as u128) < (window_count - 1) as u128 {
            pages as usize
        } else {
            window_count - 1
        }
    }

    /// Order in which `window_count` windows are drawn, as pairs of position from the centre
    /// and index: left of the centre from the outermost inwards, then right of it from the
    /// outermost inwards, so that inner windows cover outer ones.
    pub fn draw_order(&self, window_count: usize) -> (r: Vec<(i64, usize)>)
        requires
            self.wf(window_count as int),
            window_count <= MAX_WINDOWS,
        ensures
            r@.len() == draw_sequence(self.x_offset as int, window_count as int).len(),
            forall|k: int|
                0 <= k < r@.len() ==> {
                    &&& (#[trigger] r@[k]).0 == draw_sequence(
                        self.x_offset as int,
                        window_count as int,
                    )[k].0
                    &&& r@[k].1 == draw_sequence(self.x_offset as int, window_count as int)[k].1
                },
    {
        let x = self.x_offset;
        let m: i64 = if x < 0 {
            -((-x + 500) / PAGE)
        } else {
            (x + 500) / PAGE
        };
        let n = window_count as i64;
        let left: i64 = if -m < 0 {
            0
        } else if -m > n {
            n
        } else {
            -m
        };
        let ghost seq = draw_sequence(x as int, n as int);
        assert(m == round_pages(x as int));
        let mut r: Vec<(i64, usize)> = Vec::new();
        let mut i: i64 = 0;
        while i < left
            invariant
                0 <= i <= left <= n <= MAX_WINDOWS,
                seq == draw_sequence(x as int, n as int),
                m == round_pages(x as int),
                -(MAX_WINDOWS as int) - 4 <= m <= 4,
                left == (if -m < 0 {
                    0
                } else if -m > n {
                    n as int
                } else {
                    -m
                }),
                r@.len() == i,
                forall|k: int|
                    0 <= k < i ==> (#[trigger] r@[k]).0 == seq[k].0 && r@[k].1 == seq[k].1,
            decreases left - i,
        {
            r.push((i + m, i as usize));
            i += 1;
        }
        let mut j: i64 = 0;
        while j < n - left
            invariant
                0 <= j <= n - left,
                0 <= left <= n <= MAX_WINDOWS,
                seq == draw_sequence(x as int, n as int),
                m == round_pages(x as int),
                -(MAX_WINDOWS as int) - 4 <= m <= 4,
                left == (if -m < 0 {
                    0
                } else if -m > n {
                    n as int
                } else {
                    -m
                }),
                r@.len() == left + j,
                forall|k: int|
                    0 <= k < left + j ==> (#[trigger] r@[k]).0 == seq[k].0 && r@[k].1 == seq[k].1,
            decreases n - left - j,
        {
            r.push((n - 1 - j + m, (n - 1 - j) as usize));
            j += 1;
        }
        r
    }

    /// Offset of the floating window from where it was lifted, if one floats.
    pub fn floating_position(&self) -> (r: Option<(i64, i64)>)
        ensures
            match (r, self.floating_offset()) {
                (Some(a), Some(b)) => a.0 == b.0 && a.1 == b.1,
                (None, None) => true,
                _ => false,
            },
    {
        match self.floating_anchor {
            Some(a) => Some(
                (
                    self.last_drag_point.x as i64 - a.x as i64,
                    self.last_drag_point.y as i64 - a.y as i64,
                ),
            ),
            None => None,
        }
    }

    /// Start of a touch at `p`: a touch inside `focused_bounds`, the area of the focused
    /// window, starts the hold timer.
    pub fn touch_start(&mut self, p: Point, focused_bounds: Rectangle, now: u64)
        ensures
            *final(self) == (Overview {
                hold_start: if focused_bounds.holds(p) {
                    Some(now)
                } else {
                    old(self).hold_start
                },
                last_drag_point: p,
                ..*old(self)
            }),
    {
        if focused_bounds.contains(p) {
            self.hold_start = Some(now);
        }
        self.last_drag_point = p;
    }

    /// Whether the hold timer has run for [`HOLD_DURATION_MS`] at time `now`.
    pub fn hold_elapsed(&self, now: u64) -> (r: bool)
        ensures
            r == match self.hold_start {
                Some(start) => now >= start + HOLD_DURATION_MS,
                None => false,
            },
    {
        match self.hold_start {
            Some(start) => now >= start && now - start >= HOLD_DURATION_MS,
            None => false,
        }
    }

    /// Lift the focused window for placement, at the current touch point.
    pub fn start_floating(&mut self)
        ensures
            *final(self) == (Overview {
                floating_anchor: Some(old(self).last_drag_point),
                hold_start: None,
                ..*old(self)
            }),
    {
        self.floating_anchor = Some(self.last_drag_point);
        self.hold_start = None;
    }

    /// Handle a drag to `p` with `window_count` windows on an output `height` pixels high.
    ///
    /// A floating window follows the touch. Otherwise the first move of the gesture fixes its
    /// axis: a horizontal drag pages through the windows, a vertical one moves the focused
    /// window, and returns `true` once it is half the output height away: the caller closes
    /// that window.
    pub fn drag(&mut self, p: Point, height: i32, window_count: usize, now: u64) -> (r: bool)
        requires
            old(self).wf(window_count as int),
            window_count <= MAX_WINDOWS,
        ensures
            (*final(self), r) == old(self).dragged(p, height as int, window_count as int, now),
            final(self).wf(window_count as int),
    {
        let dx: i64 = p.x as i64 - self.last_drag_point.x as i64;
        let dy: i64 = p.y as i64 - self.last_drag_point.y as i64;
        self.last_drag_point = p;
        if self.floating_anchor.is_some() {
            return false;
        }
        let dir = match self.drag_direction {
            Some(d) => d,
            None => {
                let ax: i64 = if dx < 0 { -dx } else { dx };
                let ay: i64 = if dy < 0 { -dy } else { dy };
                if ax >= ay {
                    Direction::Horizontal
                } else {
                    Direction::Vertical
                }
            },
        };
        self.drag_direction = Some(dir);
        match dir {
            Direction::Horizontal => {
                let lowest: i64 = (1 - window_count as i64) * PAGE - OVERDRAG_LIMIT;
                let x = self.x_offset + HORIZONTAL_STEP * dx;
                self.x_offset = if x < lowest {
                    lowest
                } else if x > OVERDRAG_LIMIT {
                    OVERDRAG_LIMIT
                } else {
                    x
                };
                self.last_overdrag_step = None;
                self.hold_start = None;
                self.y_offset = 0;
                false
            },
            Direction::Vertical => {
                if self.close_release_pending {
                    return false;
                }
                let y = self.y_offset + dy;
                let y = if y < -MAX_CLOSE_OFFSET {
                    -MAX_CLOSE_OFFSET
                } else if y > MAX_CLOSE_OFFSET {
                    MAX_CLOSE_OFFSET
                } else {
                    y
                };
                let ay: i64 = if y < 0 { -y } else { y };
                self.hold_start = None;
                if 2 * ay >= height as i64 && window_count > 0 {
                    self.last_overdrag_step = Some(now);
                    self.close_release_pending = true;
                    self.y_offset = 0;
                    true
                } else {
                    self.last_overdrag_step = None;
                    self.y_offset = y;
                    false
                }
            },
        }
    }

    /// Limit the offsets for `window_count` windows and step the bounce-back animation to
    /// time `now`.
    pub fn clamp_offset(&mut self, window_count: usize, now: u64)
        requires
            window_count <= MAX_WINDOWS,
            abs(old(self).y_offset as int) <= MAX_CLOSE_OFFSET,
        ensures
            *final(self) == old(self).clamped(window_count as int, now),
            final(self).wf(window_count as int),
    {
        let lo: i64 = (1 - window_count as i64) * PAGE;
        let x = if self.x_offset < lo - OVERDRAG_LIMIT {
            lo - OVERDRAG_LIMIT
        } else if self.x_offset > OVERDRAG_LIMIT {
            OVERDRAG_LIMIT
        } else {
            self.x_offset
        };
        self.x_offset = x;
        let step = match self.last_overdrag_step {
            Some(step) => step,
            None => return,
        };
        let elapsed: u128 = if now >= step { (now - step) as u128 } else { 0 };
        let back: u128 = elapsed * (OVERDRAG_RETURN_RATE as u128);
        let close: u128 = elapsed * (CLOSE_RETURN_PER_3MS as u128) / 3;
        if x > 0 {
            self.x_offset = if back < x as u128 { x - back as i64 } else { 0 };
        } else if x < lo {
            let gap = (lo - x) as u128;
            self.x_offset = if back < gap { x + back as i64 } else { lo };
        }
        let y = self.y_offset;
        if y > 0 {
            self.y_offset = if close < y as u128 { y - close as i64 } else { 0 };
        } else if y < 0 {
            self.y_offset = if close < (-y) as u128 { y + close as i64 } else { 0 };
        }
        self.last_overdrag_step = Some(now);
    }

    /// Limit the horizontal offset to its bounds for `window_count` windows.
    pub fn limit_offset(&mut self, window_count: usize)
        requires
            window_count <= MAX_WINDOWS,
            abs(old(self).y_offset as int) <= MAX_CLOSE_OFFSET,
        ensures
            *final(self) == (Overview {
                x_offset: clamp(
                    old(self).x_offset as int,
                    lowest_offset(window_count as int),
                    OVERDRAG_LIMIT as int,
                ) as i64,
                ..*old(self)
            }),
            final(self).wf(window_count as int),
    {
        let lowest: i64 = (1 - window_count as i64) * PAGE - OVERDRAG_LIMIT;
        if self.x_offset < lowest {
            self.x_offset = lowest;
        } else if self.x_offset > OVERDRAG_LIMIT {
            self.x_offset = OVERDRAG_LIMIT;
        }
    }

    /// End of a touch that places no window: the offsets start to return, the next drag
    /// fixes its own axis, and the next vertical drag may close a window again.
    pub fn release(&mut self, now: u64)
        ensures
            *final(self) == (Overview {
                last_overdrag_step: Some(now),
                close_release_pending: false,
                floating_anchor: None,
                drag_direction: None,
                ..*old(self)
            }),
    {
        self.drag_direction = None;
        self.last_overdrag_step = Some(now);
        self.close_release_pending = false;
        self.floating_anchor = None;
    }

    /// Where a window released at the last drag point lands on an output `height` pixels high:
    /// the top third opens it as primary window, the bottom third as secondary window.
    pub fn drop_target(&self, height: i32) -> (r: DropTarget)
        ensures
            r == self.drop_area(height as int),
    {
        let y = self.last_drag_point.y as i64;
        let h = height as i64;
        if 3 * y < h {
            DropTarget::Primary
        } else if 3 * y >= 2 * h {
            DropTarget::Secondary
        } else {
            DropTarget::Cancel
        }
    }
}

} // verus!

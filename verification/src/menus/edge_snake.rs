//! The snake that runs along the top row of the welcome screen, wrapping
//! from the right edge back to the left one.
use vstd::prelude::*;
use crate::clock::Clock;
use crate::geometry::Rect;

verus! {

/// Time between two moves of the welcome snake, in milliseconds.
pub const SPEED_MOVING_SNAKE_SLEEP_TIME_MS: u64 = 50;

/// Horizontal spacing between displayed snake segments.
pub const SEGMENT_SPACING: u16 = 4;

/// Total number of snake segments (symbols) to display.
pub const TOTAL_SEGMENTS: usize = 5;

/// The next head column: one to the right, back to the left edge once the
/// last usable column (two before the width) is reached or the area is too
/// narrow.
pub open spec fn spec_next_x(x: u16, width: u16) -> u16 {
    let max_x = if width > 2 { width - 2 } else { 0 };
    if width <= 2 || x >= max_x { 0 } else { (x + 1) as u16 }
}

/// The columns of the segments on the top row: the head at its column
/// (kept within the usable ones), each other segment `SEGMENT_SPACING`
/// columns further left, wrapping around the `width - 1` usable columns.
pub open spec fn segment_positions(x: u16, width: u16) -> Seq<(u16, u16)> {
    if width <= 2 {
        Seq::empty()
    } else {
        let available = width - 1;
        let head_x = if x < width - 2 { x as int } else { width - 2 };
        Seq::new(
            TOTAL_SEGMENTS as nat,
            |segment: int| {
                let offset = (segment * SEGMENT_SPACING) % available;
                (((head_x + available - offset) % available) as u16, 0u16)
            },
        )
    }
}

/// Whether the columns of the segments can be counted on `u16` for this
/// head column and width.
pub open spec fn positions_fit(x: u16, width: u16) -> bool {
    width <= 2 || (if x < width - 2 { x as int } else { width - 2 }) + width - 1 <= u16::MAX
}

/// Manages the welcome-screen snake moving across the top row.
pub struct EdgeSnake {
    /// Current horizontal position of the head.
    pub x: u16,
    /// Kept at the top row.
    pub y: u16,
    /// Time point of the last move, on the snake's clock.
    pub last_update: u64,
    /// Time between two moves, in nanoseconds.
    pub frame_duration: u64,
    /// The clock the moves are timed on.
    pub clock: Clock,
}

impl EdgeSnake {
    /// The column of the head.
    pub open spec fn head(&self) -> u16 {
        self.x
    }

    /// The row of the snake.
    pub open spec fn row(&self) -> u16 {
        self.y
    }

    /// When the snake last moved.
    pub open spec fn last_move(&self) -> u64 {
        self.last_update
    }

    /// The time between two moves, in nanoseconds.
    pub open spec fn frame_nanos(&self) -> u64 {
        self.frame_duration
    }

    /// A snake at the top left corner, moving every
    /// `SPEED_MOVING_SNAKE_SLEEP_TIME_MS` milliseconds.
    pub fn new() -> (s: EdgeSnake)
        ensures
            s.head() == 0,
            s.row() == 0,
            s.frame_nanos() == SPEED_MOVING_SNAKE_SLEEP_TIME_MS * 1_000_000,
    {
        let clock = Clock::start();
        let now = clock.now();
        EdgeSnake { x: 0, y: 0, last_update: now, frame_duration: SPEED_MOVING_SNAKE_SLEEP_TIME_MS * 1_000_000, clock }
    }

    /// The next head column, wrapping from the right edge to the left edge.
    pub fn next_x(x: u16, width: u16) -> (n: u16)
        ensures
            n == spec_next_x(x, width),
    {
        let max_x = width.saturating_sub(2);
        if width <= 2 || x >= max_x { 0 } else { x + 1 }
    }

    /// At `now`, moves the snake one column to the right on the top row
    /// (wrapping at the right edge of `area`), unless it moved less than a
    /// frame ago.
    pub fn update_at(&mut self, area: &Rect, now: u64)
        ensures
            final(self).frame_nanos() == old(self).frame_nanos(),
            if (if now >= old(self).last_move() { now - old(self).last_move() } else { 0 }) < old(self).frame_nanos() {
                &&& final(self).head() == old(self).head()
                &&& final(self).row() == old(self).row()
                &&& final(self).last_move() == old(self).last_move()
            } else {
                &&& final(self).head() == spec_next_x(old(self).head(), area.width)
                &&& final(self).row() == 0
                &&& final(self).last_move() == now
            },
    {
        if now.saturating_sub(self.last_update) < self.frame_duration {
            return;
        }
        self.last_update = now;
        self.x = Self::next_x(self.x, area.width);
        self.y = 0;
    }

    /// Moves the snake one column to the right on the top row (wrapping at
    /// the right edge of `area`), unless it moved less than a frame ago.
    pub fn update(&mut self, area: &Rect)
        ensures
            final(self).frame_nanos() == old(self).frame_nanos(),
            final(self).head() == old(self).head() && final(self).row() == old(self).row()
                || final(self).head() == spec_next_x(old(self).head(), area.width) && final(self).row() == 0,
    {
        let now = self.clock.now();
        self.update_at(area, now);
    }

    /// The positions on the top row of the head and its body segments;
    /// none when the area is too narrow.
    pub fn get_positions(&self, width: u16) -> (v: Vec<(u16, u16)>)
        requires
            positions_fit(self.head(), width),
        ensures
            v@ == segment_positions(self.head(), width),
    {
        let mut v: Vec<(u16, u16)> = Vec::new();
        if width <= 2 {
            proof {
                assert(v@ =~= segment_positions(self.x, width));
            }
            return v;
        }
        let available_positions = width - 1;
        let head_x = if self.x < width - 2 { self.x } else { width - 2 };
        let mut segment: usize = 0;
        while segment < TOTAL_SEGMENTS
            invariant
                2 < width,
                available_positions == width - 1,
                head_x as int == (if self.x < width - 2 { self.x as int } else { width - 2 }),
                head_x + available_positions <= u16::MAX,
                segment <= TOTAL_SEGMENTS,
                v@ == segment_positions(self.x, width).take(segment as int),
            decreases TOTAL_SEGMENTS - segment,
        {
            let offset = ((segment as u16) * SEGMENT_SPACING) % available_positions;
            let x = (head_x + available_positions - offset) % available_positions;
            v.push((x, 0));
            proof {
                assert(v@ =~= segment_positions(self.x, width).take(segment + 1));
            }
            segment = segment + 1;
        }
        proof {
            assert(v@ =~= segment_positions(self.x, width));
        }
        v
    }
}

impl Default for EdgeSnake {
    /// A snake at the top left corner.
    fn default() -> (s: EdgeSnake)
        ensures
            s.head() == 0,
            s.row() == 0,
    {
        EdgeSnake::new()
    }
}

/// The snake goes through every usable column of the top row in turn and
/// comes back to the left edge: from a column before the last usable one it
/// moves one to the right, from the last one it goes back to 0.
pub proof fn lemma_next_x_cycles(x: u16, width: u16)
    requires
        width > 2,
    ensures
        x < width - 2 ==> spec_next_x(x, width) == x + 1,
        x >= width - 2 ==> spec_next_x(x, width) == 0,
        spec_next_x(x, width) <= width - 2,
{
}

/// Every segment is drawn on the top row within the usable columns, so the
/// snake stays on screen while it wraps at the edge.
pub proof fn lemma_segments_on_top_row(x: u16, width: u16, i: int)
    requires
        width > 2,
        0 <= i < TOTAL_SEGMENTS,
    ensures
        segment_positions(x, width)[i].0 < width - 1,
        segment_positions(x, width)[i].1 == 0,
{
}

} // verus!

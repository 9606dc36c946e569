//! What is selected in a list of lines, and how keys move it.
use vstd::prelude::*;

verus! {

/// Up or down.
#[derive(Clone, Copy, PartialEq, Eq, Structural, Debug)]
pub enum Direction {
    Up,
    Down,
}

/// A way to move through a list.
#[derive(Clone, Copy, PartialEq, Eq, Structural, Debug)]
pub enum ScrollType {
    Up,
    Down,
    Home,
    End,
    PageUp,
    PageDown,
}

/// A way to move sideways.
#[derive(Clone, Copy, PartialEq, Eq, Structural, Debug)]
pub enum HorizontalScrollType {
    Left,
    Right,
    Home,
    End,
}

pub open spec fn min_of(a: int, b: int) -> int {
    if a <= b {
        a
    } else {
        b
    }
}

pub open spec fn max_of(a: int, b: int) -> int {
    if a >= b {
        a
    } else {
        b
    }
}

/// The difference, or zero where it would be negative.
pub open spec fn less(a: int, b: int) -> int {
    if a >= b {
        a - b
    } else {
        0
    }
}

/// One line, or the lines between two ends in either order. The first end is
/// where the selection began, the second where it is moved.
#[derive(Clone, Copy, PartialEq, Eq, Structural, Debug)]
pub enum Selection {
    Single(usize),
    Multiple(usize, usize),
}

impl Selection {
    /// Where the selection began.
    pub open spec fn start(self) -> usize {
        match self {
            Selection::Single(line) => line,
            Selection::Multiple(start, _) => start,
        }
    }

    /// The end of the selection that moves.
    pub open spec fn end(self) -> usize {
        match self {
            Selection::Single(line) => line,
            Selection::Multiple(_, end) => end,
        }
    }

    /// The first selected line.
    pub open spec fn top(self) -> int {
        min_of(self.start() as int, self.end() as int)
    }

    /// The last selected line.
    pub open spec fn bottom(self) -> int {
        max_of(self.start() as int, self.end() as int)
    }

    /// Whether a line is selected.
    pub open spec fn has(self, index: int) -> bool {
        self.top() <= index <= self.bottom()
    }

    pub fn get_start(&self) -> (r: usize)
        ensures
            r == self.start(),
    {
        match self {
            Selection::Single(start) => *start,
            Selection::Multiple(start, _) => *start,
        }
    }

    pub fn get_end(&self) -> (r: usize)
        ensures
            r == self.end(),
    {
        match self {
            Selection::Single(end) => *end,
            Selection::Multiple(_, end) => *end,
        }
    }

    pub fn get_top(&self) -> (r: usize)
        ensures
            r == self.top(),
    {
        match self {
            Selection::Single(start) => *start,
            Selection::Multiple(start, end) => if *start <= *end {
                *start
            } else {
                *end
            },
        }
    }

    pub fn get_bottom(&self) -> (r: usize)
        ensures
            r == self.bottom(),
    {
        match self {
            Selection::Single(start) => *start,
            Selection::Multiple(start, end) => if *start >= *end {
                *start
            } else {
                *end
            },
        }
    }

    /// Moves the end by one line: up to the first line, or down to `max`.
    pub fn modify(&mut self, direction: Direction, max: usize)
        ensures
            *final(self) is Multiple,
            final(self).start() == old(self).start(),
            final(self).end() == match direction {
                Direction::Up => less(old(self).end() as int, 1),
                Direction::Down => min_of(old(self).end() + 1, max as int),
            },
    {
        let start: usize = self.get_start();
        let old_end: usize = self.get_end();
        let end: usize = match direction {
            Direction::Up => if old_end > 0 {
                old_end - 1
            } else {
                0
            },
            Direction::Down => if old_end < max {
                old_end + 1
            } else {
                max
            },
        };
        *self = Selection::Multiple(start, end);
    }

    pub fn contains(&self, index: usize) -> (r: bool)
        ensures
            r == self.has(index as int),
    {
        match self {
            Selection::Single(start) => index == *start,
            Selection::Multiple(start, end) => if *start <= *end {
                *start <= index && index <= *end
            } else {
                *end <= index && index <= *start
            },
        }
    }

    /// Where a move leads to in a list whose last line is `max`. A page is a
    /// line less than `height` lines.
    pub open spec fn target(self, move_type: ScrollType, max: int, height: int) -> int {
        match move_type {
            ScrollType::Down => min_of(self.bottom() + 1, max),
            ScrollType::Up => less(self.top(), 1),
            ScrollType::Home => 0,
            ScrollType::End => max,
            ScrollType::PageDown => min_of(self.bottom() + less(height, 1), max),
            ScrollType::PageUp => less(self.top(), less(height, 1)),
        }
    }

    /// The line that a move leads to.
    pub fn moved(&self, move_type: ScrollType, max: usize, height: u16) -> (r: usize)
        ensures
            r == self.target(move_type, max as int, height as int),
    {
        let page: usize = if height > 0 {
            (height - 1) as usize
        } else {
            0
        };
        let top: usize = self.get_top();
        let bottom: usize = self.get_bottom();
        match move_type {
            ScrollType::Down => if bottom < max {
                bottom + 1
            } else {
                max
            },
            ScrollType::Up => if top > 0 {
                top - 1
            } else {
                0
            },
            ScrollType::Home => 0,
            ScrollType::End => max,
            ScrollType::PageDown => if bottom < max && page < max - bottom {
                bottom + page
            } else {
                max
            },
            ScrollType::PageUp => if top > page {
                top - page
            } else {
                0
            },
        }
    }
}

// ---------------------------------------------------------------------------
// Laws
// ---------------------------------------------------------------------------
/// A selection holds the line where it began and the line of its moving end,
/// and with any two lines all lines between them.
pub proof fn law_selection_is_an_interval(s: Selection, a: int, b: int, c: int)
    requires
        a <= b <= c,
    ensures
        s.has(s.start() as int),
        s.has(s.end() as int),
        s.has(a) && s.has(c) ==> s.has(b),
{
}

/// From a selection inside a list no move leads out of the list.
pub proof fn law_moves_stay_inside(s: Selection, move_type: ScrollType, max: int, height: int)
    requires
        0 <= height,
        s.bottom() <= max,
    ensures
        0 <= s.target(move_type, max, height) <= max,
{
}

/// Moving a single selection down and up again, away from the ends of the
/// list, leads back to it.
pub proof fn law_down_then_up(line: usize, max: int, height: int)
    requires
        line < max <= usize::MAX,
    ensures
        Selection::Single(
            Selection::Single(line).target(ScrollType::Down, max, height) as usize,
        ).target(ScrollType::Up, max, height) == line,
{
}

/// A single selection holds its line alone; one with two ends holds what stands
/// between them, whichever of them is above.
pub proof fn law_selected_lines(a: usize, b: usize, line: int)
    ensures
        Selection::Single(a).has(line) <==> line == a,
        Selection::Multiple(a, b).has(line) <==> (a <= line <= b || b <= line <= a),
        Selection::Multiple(a, b).has(line) <==> Selection::Multiple(b, a).has(line),
        Selection::Multiple(a, b).start() == a,
        Selection::Multiple(a, b).end() == b,
        Selection::Single(a).start() == a,
        Selection::Single(a).end() == a,
{
}

/// A step leads to the line next to the selection: below its last line or above
/// its first one. A page leads as far as the window is high, less one line. No
/// move leads past the ends of the list, and the keys for the ends lead to them.
pub proof fn law_moves(s: Selection, max: int, height: int)
    requires
        0 <= height,
        s.bottom() <= max,
    ensures
        forall|line: int| s.has(line) ==> s.target(ScrollType::Up, max, height) <= line <= s.target(
            ScrollType::Down,
            max,
            height,
        ),
        s.has(max) || (s.has(s.target(ScrollType::Down, max, height) - 1) && !s.has(
            s.target(ScrollType::Down, max, height),
        )),
        s.has(0) || (s.has(s.target(ScrollType::Up, max, height) + 1) && !s.has(
            s.target(ScrollType::Up, max, height),
        )),
        s.target(ScrollType::Home, max, height) == 0,
        s.target(ScrollType::End, max, height) == max,
        height >= 1 && s.bottom() + height - 1 <= max ==> s.target(
            ScrollType::PageDown,
            max,
            height,
        ) - s.bottom() == height - 1,
        height >= 1 && height - 1 <= s.top() ==> s.top() - s.target(
            ScrollType::PageUp,
            max,
            height,
        ) == height - 1,
        s.bottom() + height - 1 > max ==> s.target(ScrollType::PageDown, max, height) == max,
        height - 1 > s.top() ==> s.target(ScrollType::PageUp, max, height) == 0,
        forall|line: int| s.has(line) ==> s.top() <= line <= s.bottom(),
        s.has(s.top()) && s.has(s.bottom()),
{
}

/// To extend a selection leaves its start where it is and moves its end by one line, no
/// further than the first line and `max`.
pub proof fn law_extend(s: &mut Selection, direction: Direction, max: usize)
    requires
        call_ensures(Selection::modify, (s, direction, max), ()),
    ensures
        final(s).start() == old(s).start(),
        direction == Direction::Up && old(s).end() > 0 ==> final(s).end() + 1 == old(s).end(),
        direction == Direction::Up && old(s).end() == 0 ==> final(s).end() == 0,
        direction == Direction::Down && old(s).end() < max ==> final(s).end() == old(s).end() + 1,
        direction == Direction::Down && old(s).end() >= max ==> final(s).end() == max,
{
}

} // verus!

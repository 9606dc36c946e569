//! The component that shows a diff, and what keys do to it.
use vstd::prelude::*;

use crate::delta;
use crate::delta::DiffType;
use crate::diff;
use crate::diff::{DiffLinePosition, FileDiff, HunkView};
use crate::diff_view::Marked;
use crate::hunks;
use crate::selection;
use crate::selection::{Direction, ScrollType, Selection};
use crate::side_by_side;
use crate::style::Line;
use crate::text;

verus! {

/// Diff display mode
#[derive(Clone, Copy, PartialEq, Eq, Structural, Debug)]
pub enum DiffMode {
    Unified,
    SideBySide,
    Delta,
    DeltaSideBySide,
}

impl Default for DiffMode {
    fn default() -> (r: Self)
        ensures
            r == DiffMode::Unified,
    {
        DiffMode::Unified
    }
}

impl DiffMode {
    /// Whether the preview of delta is shown.
    pub open spec fn is_preview(self) -> bool {
        self == DiffMode::Delta || self == DiffMode::DeltaSideBySide
    }

    /// The mode after this one.
    pub open spec fn following(self) -> DiffMode {
        match self {
            DiffMode::Unified => DiffMode::SideBySide,
            DiffMode::SideBySide => DiffMode::Delta,
            DiffMode::Delta => DiffMode::DeltaSideBySide,
            DiffMode::DeltaSideBySide => DiffMode::Unified,
        }
    }

    pub fn is_delta_preview(self) -> (r: bool)
        ensures
            r == self.is_preview(),
    {
        match self {
            DiffMode::Delta => true,
            DiffMode::DeltaSideBySide => true,
            DiffMode::Unified => false,
            DiffMode::SideBySide => false,
        }
    }

    /// Cycle: `Unified`, `SideBySide`, `Delta`, `DeltaSideBySide`, `Unified`
    pub fn next(self) -> (r: DiffMode)
        ensures
            r == self.following(),
    {
        match self {
            DiffMode::Unified => DiffMode::SideBySide,
            DiffMode::SideBySide => DiffMode::Delta,
            DiffMode::Delta => DiffMode::DeltaSideBySide,
            DiffMode::DeltaSideBySide => DiffMode::Unified,
        }
    }
}

/// What is shown.
pub struct Current {
    pub path: String,
    pub is_stage: bool,
    pub hash: u64,
    pub diff_type: DiffType,
}

impl Default for Current {
    fn default() -> (r: Self)
        ensures
            r.path@.len() == 0,
            !r.is_stage,
            r.hash == 0,
            r.diff_type is WorkDir,
    {
        Current { path: String::new(), is_stage: false, hash: 0, diff_type: DiffType::WorkDir }
    }
}

/// The component that shows a diff.
pub struct DiffComponent {
    pub diff: Option<FileDiff>,
    pub longest_line: usize,
    pub pending: bool,
    pub selection: Selection,
    pub selected_hunk: Option<usize>,
    /// The width and height inside the border.
    pub current_size: (u16, u16),
    pub focused: bool,
    pub current: Current,
    pub is_immutable: bool,
    pub diff_mode: DiffMode,
    pub delta_output: Option<Vec<Line>>,
    pub delta_line_hunks: Vec<usize>,
    pub delta_line_positions: Vec<Option<DiffLinePosition>>,
    pub last_delta_width: u16,
}

/// What an update brings: a diff, the hash of it, and the width of a tab.
pub struct Update {
    pub path: String,
    pub is_stage: bool,
    pub diff: FileDiff,
    pub diff_type: DiffType,
    pub hash: u64,
    pub tab: usize,
}

/// What an update asks for.
#[derive(Clone, Copy, PartialEq, Eq, Structural, Debug)]
pub struct Updated {
    /// The vertical scroll goes back to the top.
    pub reset_scroll: bool,
    /// The preview is to be made anew.
    pub run_delta: bool,
}

/// What switching the mode asks for.
#[derive(Clone, Copy, PartialEq, Eq, Structural, Debug)]
pub struct Toggled {
    /// The mode to remember.
    pub mode: DiffMode,
    /// The user is told that delta is missing.
    pub delta_missing: bool,
    /// The preview is to be made.
    pub run_delta: bool,
}

/// What is said where delta is missing.
pub fn delta_missing_text() -> (r: String)
    ensures
        r@ == "delta not found. Install delta for enhanced diff preview."@,
{
    "delta not found. Install delta for enhanced diff preview.".to_owned()
}

/// Lines that are to be brought into view.
#[derive(Clone, Copy, PartialEq, Eq, Structural, Debug)]
pub struct VisibleArea {
    pub height: usize,
    pub start: usize,
    pub end: usize,
}

// ---------------------------------------------------------------------------
// Model
// ---------------------------------------------------------------------------
/// The hunks of a diff that may be missing.
pub open spec fn hunks_of(file: Option<FileDiff>) -> Seq<HunkView> {
    match file {
        Some(file) => file@.hunks,
        None => Seq::empty(),
    }
}

/// Whether `r` is the hunk that holds a line of the unified view, or a row of
/// another view.
pub open spec fn is_hunk_at(
    all: Seq<HunkView>,
    mode: DiffMode,
    line: int,
    r: Option<usize>,
) -> bool {
    match r {
        Some(h) => {
            &&& h < all.len()
            &&& mode == DiffMode::Unified ==> hunks::offset(all, h as int) <= line < hunks::offset(
                all,
                h + 1,
            )
            &&& mode != DiffMode::Unified ==> side_by_side::row_offset(all, h as int) <= line
                < side_by_side::row_offset(all, h + 1)
        },
        None => {
            &&& mode == DiffMode::Unified ==> line >= diff::flat_lines(all).len()
            &&& mode != DiffMode::Unified ==> line >= side_by_side::row_offset(
                all,
                all.len() as int,
            )
        },
    }
}

impl DiffComponent {
    /// Whether the diff counts its lines right, and the maps of the preview
    /// belong to it.
    pub open spec fn wf(&self) -> bool {
        &&& self.diff matches Some(file) ==> file.sound()
        &&& match self.delta_output {
            Some(lines) => self.delta_line_hunks@.len() == lines@.len()
                && self.delta_line_positions@.len() == lines@.len(),
            None => self.delta_line_hunks@.len() == 0 && self.delta_line_positions@.len() == 0,
        }
        &&& self.selected_hunk matches Some(h) ==> h < usize::MAX
    }

    /// How many lines the preview has.
    pub open spec fn preview_len(&self) -> int {
        match self.delta_output {
            Some(lines) => lines@.len() as int,
            None => 0,
        }
    }

    /// How many lines the diff has.
    pub open spec fn diff_len(&self) -> int {
        match self.diff {
            Some(file) => file.lines as int,
            None => 0,
        }
    }

    /// How many rows the diff has in two columns.
    pub open spec fn row_len(&self) -> int {
        let all = hunks_of(self.diff);
        side_by_side::row_offset(all, all.len() as int)
    }

    /// The last line that can be selected outside of the preview.
    pub open spec fn last_line(&self) -> int {
        if self.diff_mode == DiffMode::SideBySide {
            selection::less(self.row_len(), 1)
        } else {
            selection::less(self.diff_len(), 1)
        }
    }

    /// The last hunk, or the first where there is none.
    pub open spec fn last_hunk(&self) -> int {
        selection::less(hunks_of(self.diff).len() as int, 1)
    }

    /// The hunk that a line of the preview belongs to.
    pub open spec fn preview_hunk(&self, line: int) -> Option<usize> {
        if line < self.delta_line_hunks@.len() {
            Some(
                selection::min_of(
                    self.delta_line_hunks@[line] as int,
                    self.last_hunk(),
                ) as usize,
            )
        } else {
            None
        }
    }

    /// What is marked in the view.
    pub open spec fn marked(&self) -> Marked {
        Marked {
            focused: self.focused,
            selection: self.selection,
            selected_hunk: self.selected_hunk,
        }
    }

    /// The width of a line number.
    pub open spec fn number_width(&self) -> int {
        match self.diff {
            Some(file) => text::decimal_text(
                hunks::largest_number(diff::flat_lines(file@.hunks)),
            ).len() as int,
            None => 1,
        }
    }

    /// The width that is left for the text of a line: without the borders, the
    /// bar and the line numbers.
    pub open spec fn text_width(&self) -> int {
        let width = self.current_size.0 as int;
        if self.diff_mode == DiffMode::SideBySide {
            selection::less(width / 2, self.number_width() + 4)
        } else if self.diff_mode.is_preview() {
            width
        } else {
            selection::less(width, self.number_width() * 2 + 3)
        }
    }
}

// ---------------------------------------------------------------------------
// State
// ---------------------------------------------------------------------------
impl DiffComponent {
    pub fn new(is_immutable: bool, diff_mode: DiffMode) -> (r: DiffComponent)
        ensures
            r.wf(),
            r.diff is None,
            r.longest_line == 0,
            !r.pending,
            r.selection == Selection::Single(0),
            r.selected_hunk is None,
            r.current_size == (0u16, 0u16),
            !r.focused,
            r.current.path@.len() == 0,
            !r.current.is_stage,
            r.current.hash == 0,
            r.current.diff_type is WorkDir,
            r.is_immutable == is_immutable,
            r.diff_mode == diff_mode,
            r.delta_output is None,
            r.last_delta_width == 0,
    {
        DiffComponent {
            diff: None,
            longest_line: 0,
            pending: false,
            selection: Selection::Single(0),
            selected_hunk: None,
            current_size: (0, 0),
            focused: false,
            current: Current::default(),
            is_immutable,
            diff_mode,
            delta_output: None,
            delta_line_hunks: Vec::new(),
            delta_line_positions: Vec::new(),
            last_delta_width: 0,
        }
    }

    fn preview_lines(&self) -> (r: usize)
        ensures
            r == self.preview_len(),
    {
        match &self.delta_output {
            Some(lines) => lines.len(),
            None => 0,
        }
    }

    /// Whether there is more than one line to move through.
    pub fn can_scroll(&self) -> (r: bool)
        ensures
            r == if self.diff_mode.is_preview() {
                self.preview_len() > 1
            } else {
                self.diff_len() > 1
            },
    {
        if self.diff_mode.is_delta_preview() {
            return self.preview_lines() > 1;
        }
        match &self.diff {
            Some(file) => file.lines > 1,
            None => false,
        }
    }

    /// The path that is shown, and whether it is staged.
    pub fn current(&self) -> (r: (String, bool))
        ensures
            r.0@ == self.current.path@,
            r.1 == self.current.is_stage,
    {
        (self.current.path.clone(), self.current.is_stage)
    }

    pub fn focused(&self) -> (r: bool)
        ensures
            r == self.focused,
    {
        self.focused
    }

    pub fn focus(&mut self, focus: bool)
        ensures
            *final(self) == (DiffComponent { focused: focus, ..*old(self) }),
    {
        self.focused = focus;
    }

    pub fn is_stage(&self) -> (r: bool)
        ensures
            r == self.current.is_stage,
    {
        self.current.is_stage
    }

    /// Forgets what is shown. Both scrolls go back to their start.
    pub fn clear(&mut self, pending: bool)
        ensures
            final(self).wf(),
            final(self).diff is None,
            final(self).current.path@.len() == 0,
            !final(self).current.is_stage,
            final(self).current.hash == 0,
            final(self).current.diff_type is WorkDir,
            final(self).delta_output is None,
            final(self).longest_line == 0,
            final(self).selection == Selection::Single(0),
            final(self).selected_hunk is None,
            final(self).pending == pending,
            final(self).current_size == old(self).current_size,
            final(self).focused == old(self).focused,
            final(self).is_immutable == old(self).is_immutable,
            final(self).diff_mode == old(self).diff_mode,
            final(self).last_delta_width == old(self).last_delta_width,
    {
        self.current = Current::default();
        self.diff = None;
        self.delta_output = None;
        self.delta_line_hunks = Vec::new();
        self.delta_line_positions = Vec::new();
        self.longest_line = 0;
        self.selection = Selection::Single(0);
        self.selected_hunk = None;
        self.pending = pending;
    }

    fn last_line_index(&self) -> (r: usize)
        requires
            self.wf(),
        ensures
            r == self.last_line(),
    {
        match &self.diff {
            Some(file) => {
                let n: usize = if self.diff_mode == DiffMode::SideBySide {
                    side_by_side::side_by_side_rows(file)
                } else {
                    file.lines
                };
                if n > 0 {
                    n - 1
                } else {
                    0
                }
            },
            None => 0,
        }
    }

    /// Selects a line, or the last one where there are fewer, and its hunk.
    pub fn update_selection(&mut self, new_start: usize)
        requires
            old(self).wf(),
        ensures
            final(self).wf(),
            old(self).diff is None ==> *final(self) == *old(self),
            old(self).diff is Some ==> {
                let line = selection::min_of(old(self).last_line(), new_start as int);
                &&& *final(self) == (DiffComponent {
                    selection: Selection::Single(line as usize),
                    selected_hunk: final(self).selected_hunk,
                    ..*old(self)
                })
                &&& is_hunk_at(
                    hunks_of(old(self).diff),
                    old(self).diff_mode,
                    line,
                    final(self).selected_hunk,
                )
            },
    {
        let max: usize = self.last_line_index();
        match &self.diff {
            Some(file) => {
                let line: usize = if new_start < max {
                    new_start
                } else {
                    max
                };
                let hunk = find_selected_hunk_for_display_line(file, line, self.diff_mode);
                self.selection = Selection::Single(line);
                self.selected_hunk = hunk;
            },
            None => {},
        }
    }

    fn preview_hunk_at(&self, line: usize) -> (r: Option<usize>)
        ensures
            r == self.preview_hunk(line as int),
            r matches Some(h) ==> h < usize::MAX,
    {
        let last: usize = match &self.diff {
            Some(file) => if file.hunks.len() > 0 {
                file.hunks.len() - 1
            } else {
                0
            },
            None => 0,
        };
        if line < self.delta_line_hunks.len() {
            let h: usize = self.delta_line_hunks[line];
            Some(
                if h < last {
                    h
                } else {
                    last
                },
            )
        } else {
            None
        }
    }

    /// Whether an update turns the component into `after` and asks for `r`. A
    /// diff that is shown already changes nothing. Another one is shown with a
    /// line and its hunk selected: the same line where it is a diff of the same
    /// file. Where a preview is shown, the selection waits for it.
    pub open spec fn updates(&self, update: Update, after: DiffComponent, r: Updated) -> bool {
        let hunks = update.diff@.hunks;
        let new_path = self.current.path@ != update.path@;
        let preview = self.diff_mode.is_preview();
        if self.current.hash == update.hash {
            &&& after == (DiffComponent { pending: false, ..*self })
            &&& r == (Updated { reset_scroll: false, run_delta: false })
        } else {
            &&& after == (DiffComponent {
                pending: false,
                current: Current {
                    path: update.path,
                    is_stage: update.is_stage,
                    hash: update.hash,
                    diff_type: update.diff_type,
                },
                diff: Some(update.diff),
                longest_line: selection::min_of(
                    hunks::diff_width(diff::flat_lines(hunks), update.tab as nat) as int,
                    usize::MAX as int,
                ) as usize,
                selection: after.selection,
                selected_hunk: after.selected_hunk,
                ..*self
            })
            &&& r == (Updated { reset_scroll: new_path, run_delta: preview })
            &&& preview ==> {
                &&& after.selected_hunk == self.selected_hunk
                &&& after.selection == if new_path {
                    Selection::Single(0)
                } else {
                    self.selection
                }
            }
            &&& !preview ==> {
                let line = selection::min_of(
                    after.last_line(),
                    if new_path {
                        0
                    } else {
                        self.selection.start() as int
                    },
                );
                &&& after.selection == Selection::Single(line as usize)
                &&& is_hunk_at(hunks, self.diff_mode, line, after.selected_hunk)
            }
        }
    }

    /// Shows another diff. `hash` is its hash and `tab` the width of a tab;
    /// a diff that is shown already changes nothing. Where the preview has to
    /// be made anew, [`DiffComponent::delta_updated`] follows.
    pub fn update(
        &mut self,
        path: String,
        is_stage: bool,
        diff: FileDiff,
        diff_type: DiffType,
        hash: u64,
        tab: usize,
    ) -> (r: Updated)
        requires
            old(self).wf(),
            old(self).current.hash != hash ==> diff.sound(),
        ensures
            final(self).wf(),
            old(self).updates(
                (Update { path, is_stage, diff, diff_type, hash, tab }),
                *final(self),
                r,
            ),
    {
        self.pending = false;
        if self.current.hash == hash {
            return Updated { reset_scroll: false, run_delta: false };
        }
        let reset_selection = !text::same_text(self.current.path.as_str(), path.as_str());
        self.current = Current { path, is_stage, hash, diff_type };
        self.longest_line = hunks::longest_line(&diff, tab);
        self.diff = Some(diff);
        if self.diff_mode.is_delta_preview() {
            if reset_selection {
                self.selection = Selection::Single(0);
            }
            Updated { reset_scroll: reset_selection, run_delta: true }
        } else {
            let start: usize = if reset_selection {
                0
            } else {
                self.selection.get_start()
            };
            self.update_selection(start);
            Updated { reset_scroll: reset_selection, run_delta: false }
        }
    }

    /// Whether the maps of the preview are those of `output` for the diff that
    /// is shown.
    pub open spec fn has_preview(&self, output: Option<Vec<Line>>) -> bool {
        &&& self.delta_output == output
        &&& match output {
            Some(lines) => {
                let views = text::views(lines@);
                &&& self.delta_line_hunks@.map_values(|h: usize| h as int) == delta::hunk_numbers(
                    views,
                )
                &&& self.delta_line_positions@ == delta::line_positions(
                    views,
                    delta::lines_of_diff(self.diff),
                )
            },
            None => self.delta_line_hunks@.len() == 0 && self.delta_line_positions@.len() == 0,
        }
    }

    /// The component with another preview.
    pub open spec fn with_preview(self, new: DiffComponent) -> DiffComponent {
        DiffComponent {
            delta_output: new.delta_output,
            delta_line_hunks: new.delta_line_hunks,
            delta_line_positions: new.delta_line_positions,
            last_delta_width: self.current_size.0,
            ..self
        }
    }

    /// Takes over a preview that was made for the present width.
    pub fn set_delta_output(&mut self, output: Option<Vec<Line>>)
        requires
            old(self).wf(),
        ensures
            final(self).wf(),
            final(self).has_preview(output),
            *final(self) == old(self).with_preview(*final(self)),
    {
        let (hunk_map, pos_map) = match &output {
            Some(lines) => delta::delta_maps(lines, &self.diff),
            None => (Vec::new(), Vec::new()),
        };
        self.delta_output = output;
        self.delta_line_hunks = hunk_map;
        self.delta_line_positions = pos_map;
        self.last_delta_width = self.current_size.0;
    }

    /// How wide the preview is.
    pub open spec fn preview_width(output: Option<Vec<Line>>) -> int {
        match output {
            Some(lines) => delta::preview_width(text::views(lines@)) as int,
            None => 0,
        }
    }

    fn longest_delta_line(&self) -> (r: usize)
        ensures
            r == DiffComponent::preview_width(self.delta_output),
    {
        match &self.delta_output {
            Some(lines) => delta::longest_preview_line(lines),
            None => 0,
        }
    }

    /// Whether the preview of a diff that an update brought turns the component
    /// into `after`. A single selected line stays inside the preview.
    pub open spec fn takes_preview(&self, output: Option<Vec<Line>>, after: DiffComponent) -> bool {
        &&& after.has_preview(output)
        &&& after == (DiffComponent {
            longest_line: DiffComponent::preview_width(output) as usize,
            selection: match self.selection {
                Selection::Single(line) => Selection::Single(
                    selection::min_of(
                        line as int,
                        selection::less(after.preview_len(), 1),
                    ) as usize,
                ),
                other => other,
            },
            selected_hunk: after.preview_hunk(after.selection.end() as int),
            ..self.with_preview(after)
        })
    }

    /// Takes over the preview of the diff that an update brought. A single
    /// selected line stays inside the preview.
    pub fn delta_updated(&mut self, output: Option<Vec<Line>>)
        requires
            old(self).wf(),
        ensures
            final(self).wf(),
            old(self).takes_preview(output, *final(self)),
    {
        self.set_delta_output(output);
        self.longest_line = self.longest_delta_line();
        let n: usize = self.preview_lines();
        let max: usize = if n > 0 {
            n - 1
        } else {
            0
        };
        match self.selection {
            Selection::Single(line) => {
                if line > max {
                    self.selection = Selection::Single(max);
                }
            },
            Selection::Multiple(_, _) => {},
        }
        self.selected_hunk = self.preview_hunk_at(self.selection.get_end());
    }

    /// Whether the preview was made for another width and has to be made anew.
    pub fn delta_outdated(&self) -> (r: bool)
        ensures
            r == (self.diff_mode.is_preview() && self.current_size.0 != self.last_delta_width
                && self.current_size.0 != 0 && self.current.path@.len() > 0),
    {
        self.diff_mode.is_delta_preview() && self.current_size.0 != self.last_delta_width
            && self.current_size.0 != 0 && !self.current.path.as_str().is_empty()
    }

    /// Takes over the preview for another width.
    pub fn delta_refreshed(&mut self, output: Option<Vec<Line>>)
        requires
            old(self).wf(),
        ensures
            final(self).wf(),
            final(self).has_preview(output),
            *final(self) == (DiffComponent {
                longest_line: DiffComponent::preview_width(output) as usize,
                ..old(self).with_preview(*final(self))
            }),
    {
        self.set_delta_output(output);
        self.longest_line = self.longest_delta_line();
    }

    /// Whether delta has to be there for the mode that comes next.
    pub fn toggle_needs_delta(&self) -> (r: bool)
        ensures
            r == self.diff_mode.following().is_preview(),
    {
        self.diff_mode.next().is_delta_preview()
    }

    /// Switches to the next mode. Without delta the modes that need it are left
    /// out.
    pub fn toggle_diff_mode(&mut self, delta_available: bool) -> (r: Toggled)
        requires
            old(self).wf(),
        ensures
            final(self).wf(),
            ({
                let next = old(self).diff_mode.following();
                let missing = next.is_preview() && !delta_available;
                let mode = if missing {
                    DiffMode::Unified
                } else {
                    next
                };
                &&& r == (Toggled { mode, delta_missing: missing, run_delta: mode.is_preview() })
                &&& mode.is_preview() ==> *final(self) == (DiffComponent {
                    diff_mode: mode,
                    ..*old(self)
                })
                &&& !mode.is_preview() ==> *final(self) == (DiffComponent {
                    diff_mode: mode,
                    delta_output: None,
                    delta_line_hunks: final(self).delta_line_hunks,
                    delta_line_positions: final(self).delta_line_positions,
                    ..*old(self)
                }) && final(self).has_preview(None)
            }),
    {
        let mut mode = self.diff_mode.next();
        let mut delta_missing = false;
        if mode.is_delta_preview() && !delta_available {
            mode = DiffMode::Unified;
            delta_missing = true;
        }
        self.diff_mode = mode;
        let run_delta = mode.is_delta_preview();
        if !run_delta {
            self.delta_output = None;
            self.delta_line_hunks = Vec::new();
            self.delta_line_positions = Vec::new();
        }
        Toggled { mode, delta_missing, run_delta }
    }

    // -----------------------------------------------------------------------
    // Moving
    // -----------------------------------------------------------------------
    /// Moves the selection. In the preview it moves through the lines of the
    /// preview.
    pub fn move_selection(&mut self, move_type: ScrollType)
        requires
            old(self).wf(),
        ensures
            final(self).wf(),
            old(self).diff_mode.is_preview() ==> {
                let line = old(self).selection.target(
                    move_type,
                    selection::less(old(self).preview_len(), 1),
                    old(self).current_size.1 as int,
                );
                *final(self) == (DiffComponent {
                    selection: Selection::Single(line as usize),
                    selected_hunk: old(self).preview_hunk(line),
                    ..*old(self)
                })
            },
            !old(self).diff_mode.is_preview() && old(self).diff is None ==> *final(self) == *old(
                self,
            ),
            !old(self).diff_mode.is_preview() && old(self).diff is Some ==> {
                let line = selection::min_of(
                    old(self).last_line(),
                    old(self).selection.target(
                        move_type,
                        old(self).last_line(),
                        old(self).current_size.1 as int,
                    ),
                );
                &&& *final(self) == (DiffComponent {
                    selection: Selection::Single(line as usize),
                    selected_hunk: final(self).selected_hunk,
                    ..*old(self)
                })
                &&& is_hunk_at(
                    hunks_of(old(self).diff),
                    old(self).diff_mode,
                    line,
                    final(self).selected_hunk,
                )
            },
    {
        if self.diff_mode.is_delta_preview() {
            let n: usize = self.preview_lines();
            let max: usize = if n > 0 {
                n - 1
            } else {
                0
            };
            let line: usize = self.selection.moved(move_type, max, self.current_size.1);
            self.selection = Selection::Single(line);
            self.selected_hunk = self.preview_hunk_at(line);
            return;
        }
        let max: usize = self.last_line_index();
        let line: usize = self.selection.moved(move_type, max, self.current_size.1);
        self.update_selection(line);
    }

    /// How many lines there are to move through.
    pub open spec fn line_count(&self) -> int {
        if self.diff_mode.is_preview() {
            self.preview_len()
        } else {
            self.diff_len()
        }
    }

    pub fn lines_count(&self) -> (r: usize)
        ensures
            r == self.line_count(),
    {
        if self.diff_mode.is_delta_preview() {
            return self.preview_lines();
        }
        match &self.diff {
            Some(file) => file.lines,
            None => 0,
        }
    }

    /// Get the actual display line count for side-by-side mode
    /// In side-by-side mode, Delete+Add pairs are shown as one line
    pub fn side_by_side_lines_count(&self) -> (r: usize)
        requires
            self.wf(),
        ensures
            r == self.row_len(),
    {
        match &self.diff {
            Some(file) => side_by_side::side_by_side_rows(file),
            None => 0,
        }
    }

    /// Moves the end of the selection by one line.
    pub fn modify_selection(&mut self, direction: Direction)
        requires
            old(self).wf(),
        ensures
            final(self).wf(),
            old(self).diff is None && !old(self).diff_mode.is_preview() ==> *final(self) == *old(
                self,
            ),
            old(self).diff is Some || old(self).diff_mode.is_preview() ==> *final(self) == (
            DiffComponent {
                selection: Selection::Multiple(
                    old(self).selection.start(),
                    match direction {
                        Direction::Up => selection::less(old(self).selection.end() as int, 1),
                        Direction::Down => selection::min_of(
                            old(self).selection.end() + 1,
                            old(self).line_count(),
                        ),
                    } as usize,
                ),
                ..*old(self)
            }),
    {
        if self.diff.is_some() || self.diff_mode.is_delta_preview() {
            let max: usize = self.lines_count();
            let mut selection = self.selection;
            selection.modify(direction, max);
            self.selection = selection;
        }
    }

    /// The text of the selected lines, where there is a diff.
    pub fn copy_selection(&self) -> (r: Option<String>)
        ensures
            text::opt_text(r) == match self.diff {
                Some(file) => Some(
                    text::join_of(
                        hunks::selected_contents(diff::flat_lines(file@.hunks), self.selection),
                        seq!['\n'],
                    ),
                ),
                None => None,
            },
    {
        match &self.diff {
            Some(file) => Some(hunks::selected_text(file, self.selection)),
            None => None,
        }
    }

    /// The positions of the lines in the preview that are selected, where they
    /// stand for a line of the diff.
    pub open spec fn preview_positions(
        positions: Seq<Option<DiffLinePosition>>,
        selection: Selection,
    ) -> Seq<DiffLinePosition>
        decreases positions.len(),
    {
        if positions.len() == 0 {
            Seq::empty()
        } else {
            let before = DiffComponent::preview_positions(positions.drop_last(), selection);
            match positions.last() {
                Some(position) => if selection.has(positions.len() - 1) {
                    before.push(position)
                } else {
                    before
                },
                None => before,
            }
        }
    }

    /// The positions of the selected lines.
    pub open spec fn selected_positions(&self) -> Seq<DiffLinePosition> {
        if self.diff_mode.is_preview() {
            DiffComponent::preview_positions(self.delta_line_positions@, self.selection)
        } else {
            match self.diff {
                Some(file) => hunks::changed_positions(
                    diff::flat_lines(file@.hunks),
                    self.selection,
                ),
                None => Seq::empty(),
            }
        }
    }

    /// The positions of the selected lines.
    pub fn selected_lines(&self) -> (r: Vec<DiffLinePosition>)
        ensures
            r@ == self.selected_positions(),
    {
        if self.diff_mode.is_delta_preview() {
            let ghost all = self.delta_line_positions@;
            let mut out: Vec<DiffLinePosition> = Vec::new();
            let mut i: usize = 0;
            while i < self.delta_line_positions.len()
                invariant
                    i <= self.delta_line_positions.len(),
                    all == self.delta_line_positions@,
                    out@ == DiffComponent::preview_positions(all.take(i as int), self.selection),
                decreases self.delta_line_positions.len() - i,
            {
                proof {
                    assert(all.take(i + 1).drop_last() =~= all.take(i as int));
                }
                match self.delta_line_positions[i] {
                    Some(position) => {
                        if self.selection.contains(i) {
                            out.push(position);
                        }
                    },
                    None => {},
                }
                i = i + 1;
            }
            assert(all.take(all.len() as int) =~= all);
            return out;
        }
        match &self.diff {
            Some(file) => hunks::selected_changes(file, self.selection),
            None => Vec::new(),
        }
    }

    /// The hunk that a move by `direction` hunks leads to. Without a selected
    /// hunk that is the first one.
    pub open spec fn hunk_target(&self, direction: int) -> Option<usize> {
        let n = hunks_of(self.diff).len();
        if n == 0 {
            None
        } else {
            match self.selected_hunk {
                None => Some(0),
                Some(h) => Some(
                    selection::min_of(
                        n - 1,
                        if direction >= 0 {
                            h + direction
                        } else {
                            selection::less(h as int, -direction)
                        },
                    ) as usize,
                ),
            }
        }
    }

    /// The hunk that a move by `direction` hunks leads to.
    pub fn calc_hunk_move_target(&self, direction: isize) -> (r: Option<usize>)
        ensures
            r == self.hunk_target(direction as int),
            r matches Some(h) ==> h < hunks_of(self.diff).len() && h < usize::MAX,
    {
        let n: usize = match &self.diff {
            Some(file) => file.hunks.len(),
            None => 0,
        };
        if n == 0 {
            return None;
        }
        let max: usize = n - 1;
        match self.selected_hunk {
            None => Some(0),
            Some(h) => {
                let target: usize = if direction >= 0 {
                    let by: usize = direction as usize;
                    if h <= max && by <= max - h {
                        h + by
                    } else {
                        max
                    }
                } else {
                    let by: usize = (-(direction + 1)) as usize + 1;
                    if by < h {
                        h - by
                    } else {
                        0
                    }
                };
                Some(
                    if target < max {
                        target
                    } else {
                        max
                    },
                )
            },
        }
    }
}

/// Find the hunk index for a display line (accounting for side-by-side pairing)
pub fn find_selected_hunk_for_display_line(
    file: &FileDiff,
    display_line_selected: usize,
    diff_mode: DiffMode,
) -> (r: Option<usize>)
    requires
        file.sound(),
    ensures
        is_hunk_at(file@.hunks, diff_mode, display_line_selected as int, r),
        r matches Some(h) ==> h < usize::MAX,
{
    if diff_mode == DiffMode::Unified {
        hunks::find_selected_hunk(file, display_line_selected)
    } else {
        side_by_side::find_hunk_of_row(file, display_line_selected)
    }
}

// ---------------------------------------------------------------------------
// Laws
// ---------------------------------------------------------------------------
/// An update with a diff that is shown already changes nothing and asks for
/// nothing: neither the selection nor the preview is touched, and neither the
/// scroll is reset nor delta run.
pub proof fn law_repeated_update_changes_nothing(
    before: DiffComponent,
    first: Update,
    asked: Updated,
    updated: DiffComponent,
    output: Option<Vec<Line>>,
    shown: DiffComponent,
    second: Update,
    then: Updated,
    after: DiffComponent,
)
    requires
        before.updates(first, updated, asked),
        asked.run_delta ==> updated.takes_preview(output, shown),
        !asked.run_delta ==> shown == updated,
        second.hash == first.hash,
        shown.updates(second, after, then),
    ensures
        after == shown,
        then == (Updated { reset_scroll: false, run_delta: false }),
{
}

/// Switching the mode goes through all four modes and back to the first; two of them
/// show the preview.
pub proof fn law_modes(mode: DiffMode)
    ensures
        DiffMode::Unified.following() == DiffMode::SideBySide,
        DiffMode::SideBySide.following() == DiffMode::Delta,
        DiffMode::Delta.following() == DiffMode::DeltaSideBySide,
        mode.following().following().following().following() == mode,
        mode.following() != mode,
        mode.following().following() != mode,
        mode.is_preview() != mode.following().following().is_preview(),
        !DiffMode::Unified.is_preview() && !DiffMode::SideBySide.is_preview(),
{
}

/// A new diff is shown as the update brings it, and takes over the place in the file:
/// where it is a diff of the same file the same line is selected, or the last one where
/// there are fewer, else the first. The hunk of that line is selected. Nothing else of
/// the component changes but the width of the lines.
pub proof fn law_new_diff_is_shown(
    before: DiffComponent,
    update: Update,
    after: DiffComponent,
    asked: Updated,
)
    requires
        before.updates(update, after, asked),
        before.current.hash != update.hash,
    ensures
        after.diff == Some(update.diff),
        after.current.path == update.path,
        after.current.is_stage == update.is_stage,
        after.current.hash == update.hash,
        after.current.diff_type == update.diff_type,
        !after.pending,
        after.focused == before.focused,
        after.is_immutable == before.is_immutable,
        after.diff_mode == before.diff_mode,
        after.current_size == before.current_size,
        after.delta_output == before.delta_output,
        after.last_delta_width == before.last_delta_width,
        asked.reset_scroll <==> before.current.path@ != update.path@,
        asked.run_delta <==> before.diff_mode.is_preview(),
        !before.diff_mode.is_preview() ==> {
            let n = if before.diff_mode == DiffMode::SideBySide {
                after.row_len()
            } else {
                after.diff_len()
            };
            let wanted = if before.current.path@ == update.path@ {
                before.selection.start() as int
            } else {
                0
            };
            &&& after.selection is Single
            &&& 0 <= wanted < n ==> after.selection.start() == wanted
            &&& wanted >= n && 0 < n <= usize::MAX ==> after.selection.start() == n - 1
            &&& 0 <= wanted && 0 < n <= usize::MAX ==> is_hunk_at(
                update.diff@.hunks,
                before.diff_mode,
                after.selection.start() as int,
                after.selected_hunk,
            )
        },
        before.diff_mode.is_preview() && before.current.path@ == update.path@ ==> after.selection
            == before.selection,
        before.diff_mode.is_preview() && before.current.path@ != update.path@ ==> after.selection
            == Selection::Single(0),
{
}

/// The width of a new diff is that of its longest line and one more.
pub proof fn law_width_of_new_diff(
    before: DiffComponent,
    update: Update,
    after: DiffComponent,
    asked: Updated,
    i: int,
)
    requires
        before.updates(update, after, asked),
        before.current.hash != update.hash,
        0 <= i < diff::flat_lines(update.diff@.hunks).len(),
        after.longest_line < usize::MAX,
    ensures
        ({
            let lines = diff::flat_lines(update.diff@.hunks);
            let width = |line: diff::DiffLineView|
                vstd::utf8::encode_utf8(text::expand_tabs(line.content, update.tab as nat)).len();
            &&& width(lines[i]) < after.longest_line
            &&& after.longest_line > 1 ==> exists|k: int|
                0 <= k < lines.len() && width(#[trigger] lines[k]) + 1 == after.longest_line
        }),
{
    hunks::law_longest_line(diff::flat_lines(update.diff@.hunks), update.tab as nat, i);
}

/// A preview is shown as it came, for the present width. A single selected line stays
/// where it is inside the preview and moves to the last line where it is not; the hunk
/// of the moving end is selected. Nothing else changes.
pub proof fn law_preview_is_shown(
    before: DiffComponent,
    output: Option<Vec<Line>>,
    after: DiffComponent,
)
    requires
        before.takes_preview(output, after),
    ensures
        after.delta_output == output,
        after.diff == before.diff,
        after.current == before.current,
        after.diff_mode == before.diff_mode,
        after.focused == before.focused,
        after.is_immutable == before.is_immutable,
        after.pending == before.pending,
        after.current_size == before.current_size,
        after.last_delta_width == before.current_size.0,
        before.selection is Multiple ==> after.selection == before.selection,
        before.selection matches Selection::Single(line) ==> {
            &&& line < after.preview_len() ==> after.selection == before.selection
            &&& line >= after.preview_len() > 0 ==> after.selection == Selection::Single(
                (after.preview_len() - 1) as usize,
            )
            &&& after.preview_len() == 0 ==> after.selection == Selection::Single(0)
        },
        after.selected_hunk == after.preview_hunk(after.selection.end() as int),
{
    if let Some(lines) = output {
        assert(lines.len() == lines@.len());
    }
}

/// A line of the preview belongs to the hunk that the preview puts it into, or to the
/// last hunk where the diff has fewer; outside of the preview there is no hunk.
pub proof fn law_hunk_of_preview_line(c: DiffComponent, line: int)
    requires
        0 <= line,
    ensures
        line >= c.delta_line_hunks@.len() <==> c.preview_hunk(line) is None,
        line < c.delta_line_hunks@.len() ==> {
            let n = hunks_of(c.diff).len();
            let h = c.delta_line_hunks@[line];
            &&& h < n ==> c.preview_hunk(line) == Some(h)
            &&& 0 < n <= h ==> c.preview_hunk(line)->0 == n - 1
            &&& n == 0 ==> c.preview_hunk(line)->0 == 0
        },
{
}

/// The hunk of a line of the unified view is the one that the line stands in, and no
/// other.
pub proof fn law_hunk_of_line(all: Seq<HunkView>, h: int, j: int, r: Option<usize>)
    requires
        0 <= h < all.len(),
        0 <= j < all[h].lines.len(),
        is_hunk_at(all, DiffMode::Unified, hunks::offset(all, h) + j, r),
    ensures
        r is Some,
        r->0 == h,
{
    hunks::lemma_flat_index(all, h, j);
    hunks::lemma_flat_step(all, h);
    if let Some(other) = r {
        if other < h {
            hunks::lemma_offset_monotone(all, other + 1, h);
        } else if other > h {
            hunks::lemma_offset_monotone(all, h + 1, other as int);
        }
    }
}

/// The hunk of a row in two columns is the one that the row was made for, and no other.
pub proof fn law_hunk_of_row(all: Seq<HunkView>, tab: nat, k: int, r: Option<usize>)
    requires
        0 <= k < side_by_side::all_rows(all, tab).len(),
        is_hunk_at(all, DiffMode::SideBySide, k, r),
    ensures
        r is Some,
        r->0 == side_by_side::all_rows(all, tab)[k].hunk_idx,
{
    side_by_side::law_rows_numbered(all, tab, k);
    side_by_side::lemma_all_rows_len(all, tab);
    let h = side_by_side::all_rows(all, tab)[k].hunk_idx;
    if let Some(other) = r {
        if other < h {
            side_by_side::lemma_row_offset_monotone(all, other + 1, h);
        } else if other > h {
            side_by_side::lemma_row_offset_monotone(all, h + 1, other as int);
        }
    }
}

/// There are as many rows to move through in two columns as rows are made.
pub proof fn law_row_count(c: DiffComponent, tab: nat)
    ensures
        c.row_len() == side_by_side::all_rows(hunks_of(c.diff), tab).len(),
        c.diff matches Some(file) ==> file.sound() ==> c.diff_len() == diff::flat_lines(
            hunks_of(c.diff),
        ).len(),
        c.diff is None ==> c.diff_len() == 0 && c.row_len() == 0,
        !c.diff_mode.is_preview() ==> c.line_count() == c.diff_len(),
        c.diff_mode.is_preview() ==> c.line_count() == c.preview_len(),
{
    side_by_side::lemma_all_rows_len(hunks_of(c.diff), tab);
    let none = Seq::<HunkView>::empty();
    assert(side_by_side::all_rows(none, tab).len() == 0);
}

/// A move by hunks leads that many hunks on or back, and stops at the ends. Without a
/// selected hunk it leads to the first one, and without hunks nowhere.
pub proof fn law_hunk_moves(c: DiffComponent, direction: int, h: usize)
    requires
        hunks_of(c.diff).len() <= usize::MAX,
    ensures
        ({
            let n = hunks_of(c.diff).len();
            let target = c.hunk_target(direction);
            &&& n == 0 ==> target is None
            &&& n > 0 && c.selected_hunk is None ==> target == Some(0usize)
            &&& n > 0 && c.selected_hunk == Some(h) ==> {
                &&& target is Some
                &&& 0 <= h + direction < n ==> target->0 == h + direction
                &&& h + direction >= n ==> target->0 == n - 1
                &&& h + direction < 0 ==> target->0 == 0
            }
        }),
{
}

/// A line number is given as many columns as the largest number of the diff has digits.
pub proof fn law_number_width(c: DiffComponent, file: FileDiff, n: nat, k: int)
    requires
        c.diff == Some(file),
        0 <= k < diff::flat_lines(file@.hunks).len(),
        hunks::has_number(diff::flat_lines(file@.hunks)[k], n),
        n > 0,
        forall|i: int, m: nat|
            0 <= i < diff::flat_lines(file@.hunks).len() && #[trigger] hunks::has_number(
                diff::flat_lines(file@.hunks)[i],
                m,
            ) ==> m <= n,
    ensures
        c.number_width() == text::decimal_text(n).len(),
{
    let lines = diff::flat_lines(file@.hunks);
    hunks::law_largest_number(lines, k, n);
    let largest = hunks::largest_number(lines);
    let i = choose|i: int| 0 <= i < lines.len() && hunks::has_number(#[trigger] lines[i], largest);
    assert(hunks::has_number(lines[i], largest));
}

/// The text of a line takes what is left of the width: beside two numbers, two blanks
/// and the bar in the unified view; in each of two columns beside one number and four
/// characters; in the preview the whole width. A narrow view leaves nothing.
pub proof fn law_text_width(c: DiffComponent)
    ensures
        ({
            let width = c.current_size.0 as int;
            let digits = c.number_width();
            let rest = c.text_width();
            &&& rest >= 0 || digits < 0
            &&& c.diff_mode == DiffMode::Unified && digits * 2 + 3 <= width ==> rest + digits * 2 + 3
                == width
            &&& c.diff_mode == DiffMode::Unified && digits * 2 + 3 > width ==> rest == 0
            &&& c.diff_mode == DiffMode::SideBySide && digits + 4 <= width / 2 ==> rest + digits + 4
                == width / 2
            &&& c.diff_mode == DiffMode::SideBySide && digits + 4 > width / 2 ==> rest == 0
            &&& c.diff_mode.is_preview() ==> rest == width
        }),
{
}

/// What a view marks is what the component has: its focus, its selection and its hunk.
pub proof fn law_marked(c: DiffComponent)
    ensures
        c.marked().focused == c.focused,
        c.marked().selection == c.selection,
        c.marked().selected_hunk == c.selected_hunk,
{
}

/// Of the selected lines of the preview those that stand for a line of the diff give
/// their positions, in their order, and no other line does.
pub proof fn law_preview_positions(positions: Seq<Option<DiffLinePosition>>, selection: Selection)
    ensures
        DiffComponent::preview_positions(positions, selection) == hunks::kept(
            positions.len(),
            |i: int| selection.has(i) && positions[i] is Some,
        ).map_values(|i: int| positions[i]->0),
    decreases positions.len(),
{
    let test = |i: int| selection.has(i) && positions[i] is Some;
    let make = |i: int| positions[i]->0;
    if positions.len() == 0 {
        hunks::lemma_kept_step(0, test);
        assert(hunks::kept(0, test).map_values(make) =~= Seq::<DiffLinePosition>::empty());
    } else {
        let front = positions.drop_last();
        let n = front.len();
        let front_test = |i: int| selection.has(i) && front[i] is Some;
        law_preview_positions(front, selection);
        hunks::lemma_kept_step(n, test);
        hunks::lemma_kept_same(n, front_test, test);
        hunks::lemma_kept_below(n, test);
        assert(hunks::kept(n, front_test).map_values(|i: int| front[i]->0) =~= hunks::kept(
            n,
            test,
        ).map_values(make));
        assert(hunks::kept(positions.len(), test).map_values(make) =~= if test(n as int) {
            hunks::kept(n, test).map_values(make).push(positions.last()->0)
        } else {
            hunks::kept(n, test).map_values(make)
        });
    }
}

/// The positions of the selected lines are those of the preview where it is shown, and
/// those of the changed lines of the diff elsewhere.
pub proof fn law_selected_positions(c: DiffComponent)
    ensures
        c.diff_mode.is_preview() ==> c.selected_positions() == DiffComponent::preview_positions(
            c.delta_line_positions@,
            c.selection,
        ),
        !c.diff_mode.is_preview() ==> c.selected_positions() == hunks::changed_positions(
            diff::flat_lines(hunks_of(c.diff)),
            c.selection,
        ),
{
}

/// Switching goes to the next mode, but without delta never to one that needs it: then
/// the unified view comes next and the user is told. The preview is made where the new mode
/// shows it, and forgotten elsewhere. Nothing else changes.
pub proof fn law_toggle(c: &mut DiffComponent, delta_available: bool, r: Toggled)
    requires
        old(c).wf(),
        call_ensures(DiffComponent::toggle_diff_mode, (c, delta_available), r),
    ensures
        final(c).diff_mode == r.mode,
        delta_available ==> r.mode == old(c).diff_mode.following() && !r.delta_missing,
        !delta_available ==> !r.mode.is_preview(),
        r.delta_missing <==> !delta_available && old(c).diff_mode.following().is_preview(),
        r.delta_missing ==> r.mode == DiffMode::Unified,
        !r.delta_missing ==> r.mode == old(c).diff_mode.following(),
        r.run_delta <==> r.mode.is_preview(),
        !r.mode.is_preview() ==> final(c).delta_output is None,
        r.mode.is_preview() ==> final(c).delta_output == old(c).delta_output,
        final(c).diff == old(c).diff,
        final(c).selection == old(c).selection,
        final(c).selected_hunk == old(c).selected_hunk,
        final(c).current == old(c).current,
        final(c).longest_line == old(c).longest_line,
        final(c).pending == old(c).pending,
        final(c).focused == old(c).focused,
        final(c).is_immutable == old(c).is_immutable,
        final(c).current_size == old(c).current_size,
        final(c).last_delta_width == old(c).last_delta_width,
{
}

/// The preview is made anew only where it is shown, for a file, and for a width that it
/// was not made for; delta has to be there exactly where the next mode shows the preview.
pub proof fn law_when_delta_runs(c: DiffComponent, outdated: bool, needed: bool, scrolls: bool)
    requires
        call_ensures(DiffComponent::delta_outdated, (&c,), outdated),
        call_ensures(DiffComponent::toggle_needs_delta, (&c,), needed),
        call_ensures(DiffComponent::can_scroll, (&c,), scrolls),
    ensures
        !c.diff_mode.is_preview() ==> !outdated,
        c.current_size.0 == c.last_delta_width || c.current_size.0 == 0 ==> !outdated,
        c.current.path@.len() == 0 ==> !outdated,
        c.diff_mode.is_preview() && c.current_size.0 != c.last_delta_width && c.current_size.0 != 0
            && c.current.path@.len() > 0 ==> outdated,
        needed <==> c.diff_mode == DiffMode::SideBySide || c.diff_mode == DiffMode::Delta,
        scrolls <==> c.line_count() > 1,
{
}

/// What is shown is told as it is: the path, whether it is staged, and the focus.
pub proof fn law_current(c: DiffComponent, shown: (String, bool), is_stage: bool, focused: bool)
    requires
        call_ensures(DiffComponent::current, (&c,), shown),
        call_ensures(DiffComponent::is_stage, (&c,), is_stage),
        call_ensures(DiffComponent::focused, (&c,), focused),
    ensures
        shown.0@ == c.current.path@,
        shown.1 == c.current.is_stage,
        is_stage == shown.1,
        focused == c.focused,
{
}

/// To clear the component forgets the diff, the preview and the selection, and nothing of
/// how it is used.
pub proof fn law_clear(c: &mut DiffComponent, pending: bool)
    requires
        call_ensures(DiffComponent::clear, (c, pending), ()),
    ensures
        final(c).diff is None,
        final(c).delta_output is None,
        final(c).preview_len() == 0,
        final(c).line_count() == 0,
        final(c).current.path@.len() == 0,
        final(c).selected_hunk is None,
        final(c).selection == Selection::Single(0),
        final(c).selected_positions().len() == 0,
        final(c).pending == pending,
        final(c).focused == old(c).focused,
        final(c).is_immutable == old(c).is_immutable,
        final(c).diff_mode == old(c).diff_mode,
        final(c).current_size == old(c).current_size,
{
}

} // verus!

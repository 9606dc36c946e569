//! What the keys do in the component that shows a diff.
use vstd::prelude::*;

use crate::diff;
use crate::diff::DiffLinePosition;
use crate::diff_component;
use crate::diff_component::{DiffComponent, VisibleArea};
use crate::hunks;
use crate::selection;
use crate::selection::{Direction, HorizontalScrollType, ScrollType, Selection};
use crate::side_by_side;
use crate::text;

verus! {

/// What is to be done outside of the component.
pub enum DiffAction {
    /// Nothing.
    Nothing,
    /// The view moves sideways.
    Sideways(HorizontalScrollType),
    /// These lines are brought into view.
    ShowArea(VisibleArea),
    /// The hunk with this hash is taken out of the index; then everything is
    /// read anew.
    UnstageHunk { path: String, hash: u64 },
    /// The hunk with this hash is put into the index; then everything is read
    /// anew.
    StageHunk { path: String, hash: u64 },
    /// The whole file is put into the index; then everything is read anew.
    StageFile { path: String },
    /// Everything is read anew.
    Refresh,
    /// The user is asked whether the file is to be reset.
    ConfirmReset { path: String },
    /// The user is asked whether the hunk is to be reset.
    ConfirmResetHunk { path: String, hash: u64 },
    /// The user is asked whether the lines are to be reset.
    ConfirmResetLines { path: String, lines: Vec<DiffLinePosition> },
    /// The lines are put into the index, or taken out of it; then everything
    /// is read anew.
    StageLines { path: String, is_stage: bool, lines: Vec<DiffLinePosition> },
    /// The text is put into the clipboard.
    Copy(String),
    /// The mode is switched.
    ToggleMode,
}

#[verifier::ext_equal]
pub enum DiffActionView {
    Nothing,
    Sideways(HorizontalScrollType),
    ShowArea(VisibleArea),
    UnstageHunk { path: Seq<char>, hash: u64 },
    StageHunk { path: Seq<char>, hash: u64 },
    StageFile { path: Seq<char> },
    Refresh,
    ConfirmReset { path: Seq<char> },
    ConfirmResetHunk { path: Seq<char>, hash: u64 },
    ConfirmResetLines { path: Seq<char>, lines: Seq<DiffLinePosition> },
    StageLines { path: Seq<char>, is_stage: bool, lines: Seq<DiffLinePosition> },
    Copy(Seq<char>),
    ToggleMode,
}

impl View for DiffAction {
    type V = DiffActionView;

    open spec fn view(&self) -> DiffActionView {
        match self {
            DiffAction::Nothing => DiffActionView::Nothing,
            DiffAction::Sideways(s) => DiffActionView::Sideways(*s),
            DiffAction::ShowArea(a) => DiffActionView::ShowArea(*a),
            DiffAction::UnstageHunk { path, hash } => DiffActionView::UnstageHunk {
                path: path@,
                hash: *hash,
            },
            DiffAction::StageHunk { path, hash } => DiffActionView::StageHunk {
                path: path@,
                hash: *hash,
            },
            DiffAction::StageFile { path } => DiffActionView::StageFile { path: path@ },
            DiffAction::Refresh => DiffActionView::Refresh,
            DiffAction::ConfirmReset { path } => DiffActionView::ConfirmReset { path: path@ },
            DiffAction::ConfirmResetHunk { path, hash } => DiffActionView::ConfirmResetHunk {
                path: path@,
                hash: *hash,
            },
            DiffAction::ConfirmResetLines { path, lines } => DiffActionView::ConfirmResetLines {
                path: path@,
                lines: lines@,
            },
            DiffAction::StageLines { path, is_stage, lines } => DiffActionView::StageLines {
                path: path@,
                is_stage: *is_stage,
                lines: lines@,
            },
            DiffAction::Copy(t) => DiffActionView::Copy(t@),
            DiffAction::ToggleMode => DiffActionView::ToggleMode,
        }
    }
}

/// Which of the keys that the component knows was pressed. A key can be bound
/// to more than one of them.
#[derive(Clone, Copy, PartialEq, Eq, Structural, Debug)]
pub struct DiffKeys {
    pub move_down: bool,
    pub shift_down: bool,
    pub shift_up: bool,
    pub end: bool,
    pub home: bool,
    pub move_up: bool,
    pub page_up: bool,
    pub page_down: bool,
    pub move_right: bool,
    pub move_left: bool,
    pub diff_line_start: bool,
    /// The key with the underscore.
    pub underscore: bool,
    pub diff_line_end: bool,
    pub diff_hunk_next: bool,
    pub diff_hunk_prev: bool,
    pub stage_unstage_item: bool,
    pub status_reset_item: bool,
    pub diff_stage_lines: bool,
    pub diff_reset_lines: bool,
    pub copy: bool,
    pub diff_mode_toggle: bool,
}

/// What a key means.
#[derive(Clone, Copy, PartialEq, Eq, Structural, Debug)]
pub enum DiffCommand {
    Move(ScrollType),
    Extend(Direction),
    Sideways(HorizontalScrollType),
    NextHunk,
    PreviousHunk,
    StageUnstageHunk,
    Reset,
    StageLines,
    ResetLines,
    Copy,
    ToggleMode,
    /// The key means nothing here.
    Unknown,
}

/// Whether something is staged, and whether anything may be changed at all.
pub open spec fn may_reset(component: &DiffComponent) -> bool {
    !component.is_immutable && !component.current.is_stage && !component.diff_mode.is_preview()
}

/// What a key means: the first of these that it is bound to.
pub open spec fn command_of(component: &DiffComponent, keys: DiffKeys) -> DiffCommand {
    if keys.move_down {
        DiffCommand::Move(ScrollType::Down)
    } else if keys.shift_down {
        DiffCommand::Extend(Direction::Down)
    } else if keys.shift_up {
        DiffCommand::Extend(Direction::Up)
    } else if keys.end {
        DiffCommand::Move(ScrollType::End)
    } else if keys.home {
        DiffCommand::Move(ScrollType::Home)
    } else if keys.move_up {
        DiffCommand::Move(ScrollType::Up)
    } else if keys.page_up {
        DiffCommand::Move(ScrollType::PageUp)
    } else if keys.page_down {
        DiffCommand::Move(ScrollType::PageDown)
    } else if keys.move_right {
        DiffCommand::Sideways(HorizontalScrollType::Right)
    } else if keys.move_left {
        DiffCommand::Sideways(HorizontalScrollType::Left)
    } else if keys.diff_line_start || keys.underscore {
        DiffCommand::Sideways(HorizontalScrollType::Home)
    } else if keys.diff_line_end {
        DiffCommand::Sideways(HorizontalScrollType::End)
    } else if keys.diff_hunk_next {
        DiffCommand::NextHunk
    } else if keys.diff_hunk_prev {
        DiffCommand::PreviousHunk
    } else if keys.stage_unstage_item && !component.is_immutable {
        DiffCommand::StageUnstageHunk
    } else if keys.status_reset_item && may_reset(component) {
        DiffCommand::Reset
    } else if keys.diff_stage_lines && !component.is_immutable {
        DiffCommand::StageLines
    } else if keys.diff_reset_lines && may_reset(component) {
        DiffCommand::ResetLines
    } else if keys.copy {
        DiffCommand::Copy
    } else if keys.diff_mode_toggle {
        DiffCommand::ToggleMode
    } else {
        DiffCommand::Unknown
    }
}

/// What came of an event.
pub struct EventResult {
    /// Whether the event was used.
    pub consumed: bool,
    pub action: DiffAction,
}

// ---------------------------------------------------------------------------
// Hunks
// ---------------------------------------------------------------------------
/// Whether `r` is the first line of a hunk in the preview, or the first line
/// of all where the hunk has none.
pub open spec fn is_preview_start(map: Seq<usize>, hunk: usize, r: int) -> bool {
    ||| {
        &&& 0 <= r < map.len()
        &&& map[r] == hunk
        &&& forall|j: int| 0 <= j < r ==> map[j] != hunk
    }
    ||| {
        &&& r == 0
        &&& forall|j: int| 0 <= j < map.len() ==> map[j] != hunk
    }
}

/// Whether `r` is the first line from `start` on that belongs to a later hunk,
/// or the end.
pub open spec fn is_preview_end(map: Seq<usize>, hunk: usize, start: int, r: int) -> bool {
    &&& start <= r <= map.len()
    &&& r < map.len() ==> map[r] > hunk
    &&& forall|j: int| start <= j < r ==> map[j] <= hunk
}

fn preview_start(map: &Vec<usize>, hunk: usize) -> (r: usize)
    ensures
        is_preview_start(map@, hunk, r as int),
        r <= map@.len(),
{
    let mut i: usize = 0;
    while i < map.len()
        invariant
            i <= map.len(),
            forall|j: int| 0 <= j < i ==> map@[j] != hunk,
        decreases map.len() - i,
    {
        if map[i] == hunk {
            return i;
        }
        i = i + 1;
    }
    0
}

fn preview_end(map: &Vec<usize>, hunk: usize, start: usize) -> (r: usize)
    requires
        start <= map@.len(),
    ensures
        is_preview_end(map@, hunk, start as int, r as int),
{
    let mut i: usize = start;
    while i < map.len() && map[i] <= hunk
        invariant
            start <= i <= map.len(),
            forall|j: int| start <= j < i ==> map@[j] <= hunk,
        decreases map.len() - i,
    {
        i = i + 1;
    }
    i
}

/// Whether `area` reaches over a hunk: over its lines in the preview where one
/// is shown, and over its lines in the diff otherwise. In two columns these are
/// lines too, not rows.
pub open spec fn is_area_of(component: DiffComponent, hunk: usize, area: VisibleArea) -> bool {
    &&& area.height == component.current_size.1
    &&& if component.diff_mode.is_preview() {
        &&& is_preview_start(component.delta_line_hunks@, hunk, area.start as int)
        &&& is_preview_end(
            component.delta_line_hunks@,
            hunk,
            area.start as int,
            area.end as int,
        )
    } else {
        let all = diff_component::hunks_of(component.diff);
        &&& area.start == hunks::offset(all, hunk as int)
        &&& area.end == hunks::offset(all, hunk + 1)
    }
}

impl DiffComponent {
    /// Selects the hunk that is `direction` hunks away, and the number of its
    /// first line: in the preview where one is shown, in the diff otherwise,
    /// also in two columns. Returns what is to be brought into view; nothing happens where the
    /// selected hunk stays the same.
    pub fn diff_hunk_move_up_down(&mut self, direction: isize) -> (r: Option<VisibleArea>)
        requires
            old(self).wf(),
        ensures
            final(self).wf(),
            ({
                let target = old(self).hunk_target(direction as int);
                if old(self).diff is None || target is None || old(self).selected_hunk == target {
                    *final(self) == *old(self) && r is None
                } else {
                    &&& r matches Some(area)
                    &&& is_area_of(*old(self), target->0, area)
                    &&& *final(self) == (DiffComponent {
                        selection: Selection::Single(area.start),
                        selected_hunk: target,
                        ..*old(self)
                    })
                }
            }),
    {
        let target = self.calc_hunk_move_target(direction);
        let hunk: usize = match target {
            Some(hunk) => hunk,
            None => {
                return None;
            },
        };
        if self.selected_hunk == target {
            return None;
        }
        let height: usize = self.current_size.1 as usize;
        match &self.diff {
            Some(file) => {
                let (start, end): (usize, usize) = if self.diff_mode.is_delta_preview() {
                    let start: usize = preview_start(&self.delta_line_hunks, hunk);
                    (start, preview_end(&self.delta_line_hunks, hunk, start))
                } else {
                    (hunks::hunk_offset(file, hunk), hunks::hunk_offset(file, hunk + 1))
                };
                self.selection = Selection::Single(start);
                self.selected_hunk = target;
                Some(VisibleArea { height, start, end })
            },
            None => None,
        }
    }

    /// The hunk that is selected, where the diff has it.
    pub open spec fn selected_hash(&self) -> Option<u64> {
        match (self.diff, self.selected_hunk) {
            (Some(file), Some(h)) => if h < file.hunks@.len() {
                Some(file.hunks@[h as int].header_hash)
            } else {
                None
            },
            _ => None,
        }
    }

    fn hash_of_selected(&self) -> (r: Option<u64>)
        ensures
            r == self.selected_hash(),
    {
        match (&self.diff, self.selected_hunk) {
            (Some(file), Some(h)) => if h < file.hunks.len() {
                Some(file.hunks[h].header_hash)
            } else {
                None
            },
            _ => None,
        }
    }

    /// What takes the selected hunk out of the index.
    pub fn unstage_hunk(&self) -> (r: DiffAction)
        ensures
            r@ == match self.selected_hash() {
                Some(hash) => DiffActionView::UnstageHunk { path: self.current.path@, hash },
                None => DiffActionView::Nothing,
            },
    {
        match self.hash_of_selected() {
            Some(hash) => DiffAction::UnstageHunk { path: self.current.path.clone(), hash },
            None => DiffAction::Nothing,
        }
    }

    /// Whether git does not know the file yet.
    pub open spec fn untracked(&self) -> bool {
        self.diff is Some && self.diff->0.untracked
    }

    /// What puts the selected hunk into the index: the whole file where git
    /// does not know it yet.
    pub open spec fn stage_action(&self) -> DiffActionView {
        if self.diff is None || self.selected_hunk is None {
            DiffActionView::Nothing
        } else if self.untracked() {
            DiffActionView::StageFile { path: self.current.path@ }
        } else {
            match self.selected_hash() {
                Some(hash) => DiffActionView::StageHunk { path: self.current.path@, hash },
                None => DiffActionView::Refresh,
            }
        }
    }

    /// What puts the selected hunk into the index.
    pub fn stage_hunk(&self) -> (r: DiffAction)
        ensures
            r@ == self.stage_action(),
    {
        if self.selected_hunk.is_none() {
            return DiffAction::Nothing;
        }
        match &self.diff {
            Some(file) => if file.untracked {
                DiffAction::StageFile { path: self.current.path.clone() }
            } else {
                match self.hash_of_selected() {
                    Some(hash) => DiffAction::StageHunk { path: self.current.path.clone(), hash },
                    None => DiffAction::Refresh,
                }
            },
            None => DiffAction::Nothing,
        }
    }

    /// What puts the selected hunk into the index, or takes it out of it.
    pub open spec fn stage_unstage_action(&self) -> DiffActionView {
        if self.current.is_stage {
            match self.selected_hash() {
                Some(hash) => DiffActionView::UnstageHunk { path: self.current.path@, hash },
                None => DiffActionView::Nothing,
            }
        } else {
            self.stage_action()
        }
    }

    /// What puts the selected hunk into the index, or takes it out of it.
    pub fn stage_unstage_hunk(&self) -> (r: DiffAction)
        ensures
            r@ == self.stage_unstage_action(),
    {
        if self.current.is_stage {
            self.unstage_hunk()
        } else {
            self.stage_hunk()
        }
    }

    /// Whether the selected hunk is one of the diff.
    pub open spec fn selection_in_diff(&self) -> bool {
        self.selected_hunk matches Some(h) ==> h < diff_component::hunks_of(self.diff).len()
    }

    /// What asks the user whether the selected hunk is to be reset.
    pub open spec fn reset_hunk_action(&self) -> DiffActionView {
        match self.selected_hash() {
            Some(hash) => DiffActionView::ConfirmResetHunk { path: self.current.path@, hash },
            None => DiffActionView::Nothing,
        }
    }

    /// What asks the user whether the selected hunk is to be reset.
    pub fn reset_hunk(&self) -> (r: DiffAction)
        requires
            self.diff is Some ==> self.selection_in_diff(),
        ensures
            r@ == self.reset_hunk_action(),
    {
        match self.hash_of_selected() {
            Some(hash) => DiffAction::ConfirmResetHunk { path: self.current.path.clone(), hash },
            None => DiffAction::Nothing,
        }
    }

    /// What asks the user whether the selected lines are to be reset.
    pub fn reset_lines(&self) -> (r: DiffAction)
        ensures
            r@ == (DiffActionView::ConfirmResetLines {
                path: self.current.path@,
                lines: self.selected_positions(),
            }),
    {
        DiffAction::ConfirmResetLines {
            path: self.current.path.clone(),
            lines: self.selected_lines(),
        }
    }

    /// What puts the selected lines into the index, or takes them out of it.
    /// Lines of a file that git does not know yet are left alone.
    pub open spec fn stage_lines_action(&self) -> DiffActionView {
        if self.diff is Some && !self.untracked() {
            DiffActionView::StageLines {
                path: self.current.path@,
                is_stage: self.current.is_stage,
                lines: self.selected_positions(),
            }
        } else {
            DiffActionView::Nothing
        }
    }

    /// What puts the selected lines into the index, or takes them out of it.
    pub fn stage_lines(&self) -> (r: DiffAction)
        ensures
            r@ == self.stage_lines_action(),
    {
        match &self.diff {
            Some(file) => if file.untracked {
                DiffAction::Nothing
            } else {
                DiffAction::StageLines {
                    path: self.current.path.clone(),
                    is_stage: self.current.is_stage,
                    lines: self.selected_lines(),
                }
            },
            None => DiffAction::Nothing,
        }
    }

    /// What asks the user whether the file is to be reset.
    pub fn reset_untracked(&self) -> (r: DiffAction)
        ensures
            r@ == (DiffActionView::ConfirmReset { path: self.current.path@ }),
    {
        DiffAction::ConfirmReset { path: self.current.path.clone() }
    }

    // -----------------------------------------------------------------------
    // Events
    // -----------------------------------------------------------------------
    /// What a key means.
    pub fn command(&self, keys: DiffKeys) -> (r: DiffCommand)
        ensures
            r == command_of(self, keys),
    {
        let may_reset = !self.is_immutable && !self.current.is_stage
            && !self.diff_mode.is_delta_preview();
        if keys.move_down {
            DiffCommand::Move(ScrollType::Down)
        } else if keys.shift_down {
            DiffCommand::Extend(Direction::Down)
        } else if keys.shift_up {
            DiffCommand::Extend(Direction::Up)
        } else if keys.end {
            DiffCommand::Move(ScrollType::End)
        } else if keys.home {
            DiffCommand::Move(ScrollType::Home)
        } else if keys.move_up {
            DiffCommand::Move(ScrollType::Up)
        } else if keys.page_up {
            DiffCommand::Move(ScrollType::PageUp)
        } else if keys.page_down {
            DiffCommand::Move(ScrollType::PageDown)
        } else if keys.move_right {
            DiffCommand::Sideways(HorizontalScrollType::Right)
        } else if keys.move_left {
            DiffCommand::Sideways(HorizontalScrollType::Left)
        } else if keys.diff_line_start || keys.underscore {
            DiffCommand::Sideways(HorizontalScrollType::Home)
        } else if keys.diff_line_end {
            DiffCommand::Sideways(HorizontalScrollType::End)
        } else if keys.diff_hunk_next {
            DiffCommand::NextHunk
        } else if keys.diff_hunk_prev {
            DiffCommand::PreviousHunk
        } else if keys.stage_unstage_item && !self.is_immutable {
            DiffCommand::StageUnstageHunk
        } else if keys.status_reset_item && may_reset {
            DiffCommand::Reset
        } else if keys.diff_stage_lines && !self.is_immutable {
            DiffCommand::StageLines
        } else if keys.diff_reset_lines && may_reset {
            DiffCommand::ResetLines
        } else if keys.copy {
            DiffCommand::Copy
        } else if keys.diff_mode_toggle {
            DiffCommand::ToggleMode
        } else {
            DiffCommand::Unknown
        }
    }

    /// The action of a command that leaves the component as it is.
    pub open spec fn action_of(&self, command: DiffCommand) -> DiffActionView {
        match command {
            DiffCommand::Sideways(s) => DiffActionView::Sideways(s),
            DiffCommand::StageUnstageHunk => self.stage_unstage_action(),
            DiffCommand::Reset => if self.diff is None {
                DiffActionView::Nothing
            } else if self.untracked() {
                DiffActionView::ConfirmReset { path: self.current.path@ }
            } else {
                self.reset_hunk_action()
            },
            DiffCommand::StageLines => self.stage_lines_action(),
            DiffCommand::ResetLines => if self.diff is None || self.untracked() {
                DiffActionView::Nothing
            } else {
                DiffActionView::ConfirmResetLines {
                    path: self.current.path@,
                    lines: self.selected_positions(),
                }
            },
            DiffCommand::Copy => match self.diff {
                Some(file) => DiffActionView::Copy(
                    text::join_of(
                        hunks::selected_contents(diff::flat_lines(file@.hunks), self.selection),
                        seq!['\n'],
                    ),
                ),
                None => DiffActionView::Nothing,
            },
            DiffCommand::ToggleMode => DiffActionView::ToggleMode,
            _ => DiffActionView::Nothing,
        }
    }

    /// The action of a command that leaves the component as it is.
    fn still_action(&self, command: DiffCommand) -> (r: DiffAction)
        requires
            command is Reset && self.diff is Some && !self.untracked() ==> self.selection_in_diff(),
        ensures
            r@ == self.action_of(command),
    {
        match command {
            DiffCommand::Sideways(s) => DiffAction::Sideways(s),
            DiffCommand::StageUnstageHunk => self.stage_unstage_hunk(),
            DiffCommand::Reset => match &self.diff {
                Some(file) => if file.untracked {
                    self.reset_untracked()
                } else {
                    self.reset_hunk()
                },
                None => DiffAction::Nothing,
            },
            DiffCommand::StageLines => self.stage_lines(),
            DiffCommand::ResetLines => match &self.diff {
                Some(file) => if file.untracked {
                    DiffAction::Nothing
                } else {
                    self.reset_lines()
                },
                None => DiffAction::Nothing,
            },
            DiffCommand::Copy => match self.copy_selection() {
                Some(text) => DiffAction::Copy(text),
                None => DiffAction::Nothing,
            },
            DiffCommand::ToggleMode => DiffAction::ToggleMode,
            _ => DiffAction::Nothing,
        }
    }

    /// Whether `new` is the component after a move through the lines.
    pub open spec fn is_moved(self, move_type: ScrollType, new: DiffComponent) -> bool {
        let height = self.current_size.1 as int;
        if self.diff_mode.is_preview() {
            let line = self.selection.target(
                move_type,
                selection::less(self.preview_len(), 1),
                height,
            );
            new == (DiffComponent {
                selection: Selection::Single(line as usize),
                selected_hunk: self.preview_hunk(line),
                ..self
            })
        } else if self.diff is None {
            new == self
        } else {
            let line = selection::min_of(
                self.last_line(),
                self.selection.target(move_type, self.last_line(), height),
            );
            &&& new == (DiffComponent {
                selection: Selection::Single(line as usize),
                selected_hunk: new.selected_hunk,
                ..self
            })
            &&& diff_component::is_hunk_at(
                diff_component::hunks_of(self.diff),
                self.diff_mode,
                line,
                new.selected_hunk,
            )
        }
    }

    /// The component after its selection was extended.
    pub open spec fn extended(self, direction: Direction) -> DiffComponent {
        if self.diff is None && !self.diff_mode.is_preview() {
            self
        } else {
            let end = match direction {
                Direction::Up => selection::less(self.selection.end() as int, 1),
                Direction::Down => selection::min_of(self.selection.end() + 1, self.line_count()),
            };
            DiffComponent {
                selection: Selection::Multiple(self.selection.start(), end as usize),
                ..self
            }
        }
    }

    /// Whether `new` and `action` are what comes of a move by hunks.
    pub open spec fn is_hunk_move(
        self,
        direction: int,
        new: DiffComponent,
        action: DiffActionView,
    ) -> bool {
        let target = self.hunk_target(direction);
        if self.diff is None || target is None || self.selected_hunk == target {
            new == self && action is Nothing
        } else {
            &&& action matches DiffActionView::ShowArea(area)
            &&& is_area_of(self, target->0, area)
            &&& new == (DiffComponent {
                selection: Selection::Single(area.start),
                selected_hunk: target,
                ..self
            })
        }
    }

    /// Whether `new` and `action` are what comes of a command.
    pub open spec fn comes_of(
        self,
        command: DiffCommand,
        new: DiffComponent,
        action: DiffActionView,
    ) -> bool {
        match command {
            DiffCommand::Move(move_type) => self.is_moved(move_type, new) && action is Nothing,
            DiffCommand::Extend(direction) => new == self.extended(direction) && action is Nothing,
            DiffCommand::NextHunk => self.is_hunk_move(1, new, action),
            DiffCommand::PreviousHunk => self.is_hunk_move(-1, new, action),
            _ => new == self && action == self.action_of(command),
        }
    }

    /// Does what a key means. Without the focus, and for anything but a key,
    /// nothing happens.
    pub fn event(&mut self, keys: Option<DiffKeys>) -> (r: EventResult)
        requires
            old(self).wf(),
            old(self).focused && keys is Some && old(self).diff is Some && command_of(
                old(self),
                keys->0,
            ) is Reset && !old(self).untracked() ==> old(self).selection_in_diff(),
        ensures
            final(self).wf(),
            if old(self).focused && keys is Some {
                let command = command_of(old(self), keys->0);
                &&& r.consumed == !(command is Unknown)
                &&& old(self).comes_of(command, *final(self), r.action@)
            } else {
                *final(self) == *old(self) && !r.consumed && r.action@ is Nothing
            },
    {
        let keys = match keys {
            Some(keys) => keys,
            None => {
                return EventResult { consumed: false, action: DiffAction::Nothing };
            },
        };
        if !self.focused {
            return EventResult { consumed: false, action: DiffAction::Nothing };
        }
        let command = self.command(keys);
        let action = match command {
            DiffCommand::Move(move_type) => {
                self.move_selection(move_type);
                DiffAction::Nothing
            },
            DiffCommand::Extend(direction) => {
                self.modify_selection(direction);
                DiffAction::Nothing
            },
            DiffCommand::NextHunk => match self.diff_hunk_move_up_down(1) {
                Some(area) => DiffAction::ShowArea(area),
                None => DiffAction::Nothing,
            },
            DiffCommand::PreviousHunk => match self.diff_hunk_move_up_down(-1) {
                Some(area) => DiffAction::ShowArea(area),
                None => DiffAction::Nothing,
            },
            _ => self.still_action(command),
        };
        EventResult { consumed: command != DiffCommand::Unknown, action }
    }
}

// ---------------------------------------------------------------------------
// Commands
// ---------------------------------------------------------------------------
/// A command that is offered to the user.
#[derive(Clone, Copy, PartialEq, Eq, Structural, Debug)]
pub enum DiffOffer {
    Scroll,
    HunkNext,
    HunkPrevious,
    HomeEnd,
    HunkRemove,
    HunkAdd,
    HunkRevert,
    LinesRevert,
    LinesStage,
    LinesUnstage,
    Copy,
    ToggleMode,
}

/// How a command is offered.
#[derive(Clone, Copy, PartialEq, Eq, Structural, Debug)]
pub struct OfferedCommand {
    pub offer: DiffOffer,
    pub enabled: bool,
    pub available: bool,
    /// Whether the command is left out of the short list.
    pub hidden: bool,
}

pub open spec fn offered(offer: DiffOffer, enabled: bool, available: bool) -> OfferedCommand {
    OfferedCommand { offer, enabled, available, hidden: false }
}

fn offer_of(offer: DiffOffer, enabled: bool, available: bool) -> (r: OfferedCommand)
    ensures
        r == offered(offer, enabled, available),
{
    OfferedCommand { offer, enabled, available, hidden: false }
}

impl DiffComponent {
    /// Whether there is more than one line to move through.
    pub open spec fn scrollable(&self) -> bool {
        self.line_count() > 1
    }

    /// The commands that change the index or the work tree.
    pub open spec fn changing_commands(&self) -> Seq<OfferedCommand> {
        let staged = self.focused && self.current.is_stage;
        let unstaged = self.focused && !self.current.is_stage;
        let hunk = self.selected_hunk is Some;
        let revert = if self.diff_mode.is_preview() {
            Seq::empty()
        } else {
            seq![offered(DiffOffer::LinesRevert, true, unstaged)]
        };
        seq![
            offered(DiffOffer::HunkRemove, hunk, staged),
            offered(DiffOffer::HunkAdd, hunk, unstaged),
            offered(DiffOffer::HunkRevert, hunk, unstaged),
        ] + revert + seq![
            offered(DiffOffer::LinesStage, true, unstaged),
            offered(DiffOffer::LinesUnstage, true, staged),
        ]
    }

    /// The commands that are offered.
    pub open spec fn offered_commands(&self) -> Seq<OfferedCommand> {
        seq![
            offered(DiffOffer::Scroll, self.scrollable(), self.focused),
            offered(
                DiffOffer::HunkNext,
                self.hunk_target(1) != self.selected_hunk,
                self.focused,
            ),
            offered(
                DiffOffer::HunkPrevious,
                self.hunk_target(-1) != self.selected_hunk,
                self.focused,
            ),
            OfferedCommand {
                offer: DiffOffer::HomeEnd,
                enabled: self.scrollable(),
                available: self.focused,
                hidden: true,
            },
        ] + (if self.is_immutable {
            Seq::empty()
        } else {
            self.changing_commands()
        }) + seq![
            offered(DiffOffer::Copy, true, self.focused),
            offered(DiffOffer::ToggleMode, true, self.focused),
        ]
    }

    /// The commands that are offered.
    pub fn commands(&self) -> (r: Vec<OfferedCommand>)
        ensures
            r@ == self.offered_commands(),
    {
        let can_scroll = self.can_scroll();
        let next = self.calc_hunk_move_target(1) != self.selected_hunk;
        let previous = self.calc_hunk_move_target(-1) != self.selected_hunk;
        let mut out: Vec<OfferedCommand> = Vec::new();
        out.push(offer_of(DiffOffer::Scroll, can_scroll, self.focused));
        out.push(offer_of(DiffOffer::HunkNext, next, self.focused));
        out.push(offer_of(DiffOffer::HunkPrevious, previous, self.focused));
        out.push(
            OfferedCommand {
                offer: DiffOffer::HomeEnd,
                enabled: can_scroll,
                available: self.focused,
                hidden: true,
            },
        );
        if !self.is_immutable {
            let staged = self.focused && self.current.is_stage;
            let unstaged = self.focused && !self.current.is_stage;
            let hunk = self.selected_hunk.is_some();
            out.push(offer_of(DiffOffer::HunkRemove, hunk, staged));
            out.push(offer_of(DiffOffer::HunkAdd, hunk, unstaged));
            out.push(offer_of(DiffOffer::HunkRevert, hunk, unstaged));
            if !self.diff_mode.is_delta_preview() {
                out.push(offer_of(DiffOffer::LinesRevert, true, unstaged));
            }
            out.push(offer_of(DiffOffer::LinesStage, true, unstaged));
            out.push(offer_of(DiffOffer::LinesUnstage, true, staged));
        }
        out.push(offer_of(DiffOffer::Copy, true, self.focused));
        out.push(offer_of(DiffOffer::ToggleMode, true, self.focused));
        assert(out@ =~= self.offered_commands());
        out
    }
}

// ---------------------------------------------------------------------------
// Laws
// ---------------------------------------------------------------------------
/// No key at all.
pub open spec fn no_keys() -> DiffKeys {
    DiffKeys {
        move_down: false,
        shift_down: false,
        shift_up: false,
        end: false,
        home: false,
        move_up: false,
        page_up: false,
        page_down: false,
        move_right: false,
        move_left: false,
        diff_line_start: false,
        underscore: false,
        diff_line_end: false,
        diff_hunk_next: false,
        diff_hunk_prev: false,
        stage_unstage_item: false,
        status_reset_item: false,
        diff_stage_lines: false,
        diff_reset_lines: false,
        copy: false,
        diff_mode_toggle: false,
    }
}

/// A key that moves through the lines moves the selection that way, and one that
/// moves sideways leaves the component as it is and scrolls that way.
pub proof fn law_moving_keys(c: DiffComponent, new: DiffComponent, action: DiffActionView)
    ensures
        ({
            let none = no_keys();
            let moves = |keys: DiffKeys, way: ScrollType|
                c.comes_of(command_of(&c, keys), new, action) ==> c.is_moved(way, new)
                    && action is Nothing;
            let slides = |keys: DiffKeys, way: HorizontalScrollType|
                c.comes_of(command_of(&c, keys), new, action) ==> new == c && action
                    == DiffActionView::Sideways(way);
            &&& moves(DiffKeys { move_down: true, ..none }, ScrollType::Down)
            &&& moves(DiffKeys { move_up: true, ..none }, ScrollType::Up)
            &&& moves(DiffKeys { home: true, ..none }, ScrollType::Home)
            &&& moves(DiffKeys { end: true, ..none }, ScrollType::End)
            &&& moves(DiffKeys { page_up: true, ..none }, ScrollType::PageUp)
            &&& moves(DiffKeys { page_down: true, ..none }, ScrollType::PageDown)
            &&& slides(DiffKeys { move_right: true, ..none }, HorizontalScrollType::Right)
            &&& slides(DiffKeys { move_left: true, ..none }, HorizontalScrollType::Left)
            &&& slides(DiffKeys { diff_line_start: true, ..none }, HorizontalScrollType::Home)
            &&& slides(DiffKeys { underscore: true, ..none }, HorizontalScrollType::Home)
            &&& slides(DiffKeys { diff_line_end: true, ..none }, HorizontalScrollType::End)
        }),
{
}

/// A move changes nothing but what is selected: one line of what is shown, and the
/// hunk that holds it.
pub proof fn law_moved(c: DiffComponent, way: ScrollType, new: DiffComponent)
    requires
        c.wf(),
        c.is_moved(way, new),
    ensures
        new == (DiffComponent {
            selection: new.selection,
            selected_hunk: new.selected_hunk,
            ..c
        }),
        c.diff is None && !c.diff_mode.is_preview() ==> new == c,
        c.diff is Some && !c.diff_mode.is_preview() ==> {
            let n = if c.diff_mode == diff_component::DiffMode::SideBySide {
                c.row_len()
            } else {
                c.diff_len()
            };
            &&& new.selection matches Selection::Single(line)
            &&& n > 0 ==> line < n
            &&& way == ScrollType::Home ==> line == 0
            &&& way == ScrollType::End && n > 0 ==> line == n - 1
            &&& c.selection.bottom() < n && way == ScrollType::Down ==> line
                == selection::min_of(c.selection.bottom() + 1, n - 1)
            &&& c.selection.bottom() < n && way == ScrollType::Up ==> line == selection::less(
                c.selection.top(),
                1,
            )
            &&& n > 0 ==> new.selected_hunk is Some
            &&& diff_component::is_hunk_at(
                diff_component::hunks_of(c.diff),
                c.diff_mode,
                line as int,
                new.selected_hunk,
            )
        },
        c.diff_mode.is_preview() && c.selection.bottom() < c.preview_len() ==> {
            &&& new.selection matches Selection::Single(line)
            &&& line < c.preview_len()
            &&& way == ScrollType::Down ==> line == selection::min_of(
                c.selection.bottom() + 1,
                c.preview_len() - 1,
            )
            &&& way == ScrollType::Up ==> line == selection::less(c.selection.top(), 1)
            &&& new.selected_hunk == c.preview_hunk(line as int)
        },
{
    let all = diff_component::hunks_of(c.diff);
    side_by_side::lemma_row_offset_bound(all, all.len() as int);
    if let Some(lines) = c.delta_output {
        assert(lines.len() == lines@.len());
    }
}

/// A key that extends the selection moves its end by one line, as far as there are
/// lines, and nothing else.
pub proof fn law_extending_keys(c: DiffComponent, new: DiffComponent, action: DiffActionView)
    requires
        c.diff is Some || c.diff_mode.is_preview(),
    ensures
        ({
            let none = no_keys();
            let n = if c.diff_mode.is_preview() {
                c.preview_len()
            } else {
                c.diff_len()
            };
            let end = c.selection.end() as int;
            &&& c.comes_of(command_of(&c, DiffKeys { shift_down: true, ..none }), new, action)
                ==> action is Nothing && new == (DiffComponent { selection: new.selection, ..c })
                && new.selection.start() == c.selection.start() && (0 <= n <= usize::MAX
                ==> new.selection.end() == if end < n {
                end + 1
            } else {
                n
            })
            &&& c.comes_of(command_of(&c, DiffKeys { shift_up: true, ..none }), new, action)
                ==> action is Nothing && new == (DiffComponent { selection: new.selection, ..c })
                && new.selection.start() == c.selection.start() && new.selection.end() == if end > 0 {
                end - 1
            } else {
                0
            }
        }),
{
}

/// The keys for hunks lead to the next hunk and to the one in front: it is selected
/// together with the number of its first line, and its lines are brought into view.
/// At the last and at the first hunk nothing happens.
pub proof fn law_hunk_keys(c: DiffComponent, new: DiffComponent, action: DiffActionView, h: usize)
    requires
        c.selected_hunk == Some(h),
        h < diff_component::hunks_of(c.diff).len() <= usize::MAX,
        !c.diff_mode.is_preview(),
    ensures
        ({
            let none = no_keys();
            let all = diff_component::hunks_of(c.diff);
            let leads = |to: int|
                {
                    &&& new == (DiffComponent {
                        selection: Selection::Single(new.selection.start()),
                        selected_hunk: Some(to as usize),
                        ..c
                    })
                    &&& new.selection.start() == hunks::offset(all, to)
                    &&& action matches DiffActionView::ShowArea(area)
                    &&& area.start == hunks::offset(all, to)
                    &&& area.end == hunks::offset(all, to + 1)
                    &&& area.height == c.current_size.1
                };
            &&& c.comes_of(command_of(&c, DiffKeys { diff_hunk_next: true, ..none }), new, action)
                ==> if h + 1 < all.len() {
                leads(h + 1)
            } else {
                new == c && action is Nothing
            }
            &&& c.comes_of(command_of(&c, DiffKeys { diff_hunk_prev: true, ..none }), new, action)
                ==> if h > 0 {
                leads(h - 1)
            } else {
                new == c && action is Nothing
            }
        }),
{
}

/// In the preview, too, a move by hunks brings lines of the hunk into view, from the
/// first one that it has, and none of a later hunk.
pub proof fn law_hunk_area_in_preview(c: DiffComponent, hunk: usize, area: VisibleArea, line: int)
    requires
        c.diff_mode.is_preview(),
        is_area_of(c, hunk, area),
        0 <= line < c.delta_line_hunks@.len(),
    ensures
        area.start <= line < area.end ==> c.delta_line_hunks@[line] <= hunk,
        c.delta_line_hunks@[line] == hunk ==> area.start <= line,
        c.delta_line_hunks@[line] == hunk ==> c.delta_line_hunks@[area.start as int] == hunk,
        area.end < c.delta_line_hunks@.len() ==> c.delta_line_hunks@[area.end as int] > hunk,
        area.height == c.current_size.1,
{
}

/// Whatever key was pressed: lines and hunks are taken out of the index exactly where
/// the diff of the index is shown, and put into it exactly where that of the work tree
/// is. Nothing is reset but in the work tree, and not from a preview. Where nothing may
/// be changed, nothing of this is asked for. It is always the file that is shown.
pub proof fn law_index_or_work_tree(
    c: DiffComponent,
    keys: DiffKeys,
    new: DiffComponent,
    action: DiffActionView,
)
    requires
        c.comes_of(command_of(&c, keys), new, action),
    ensures
        action matches DiffActionView::StageLines { path, is_stage, .. } ==> is_stage
            == c.current.is_stage && path == c.current.path@ && !c.is_immutable,
        action matches DiffActionView::UnstageHunk { path, .. } ==> c.current.is_stage && path
            == c.current.path@ && !c.is_immutable,
        action matches DiffActionView::StageHunk { path, .. } ==> !c.current.is_stage && path
            == c.current.path@ && !c.is_immutable,
        action matches DiffActionView::StageFile { path } ==> !c.current.is_stage && path
            == c.current.path@ && !c.is_immutable,
        action matches DiffActionView::ConfirmReset { path } ==> !c.current.is_stage && path
            == c.current.path@ && !c.is_immutable && !c.diff_mode.is_preview(),
        action matches DiffActionView::ConfirmResetHunk { path, .. } ==> !c.current.is_stage && path
            == c.current.path@ && !c.is_immutable && !c.diff_mode.is_preview(),
        action matches DiffActionView::ConfirmResetLines { path, .. } ==> !c.current.is_stage && path
            == c.current.path@ && !c.is_immutable && !c.diff_mode.is_preview(),
{
}

/// What the keys that change the index or the work tree ask for, on a file that git
/// knows: the selected lines, and the selected hunk by its hash. Taking out and
/// putting in are told apart by what is shown.
pub proof fn law_changing_keys(
    c: DiffComponent,
    file: diff::FileDiff,
    h: usize,
    new: DiffComponent,
    action: DiffActionView,
)
    requires
        !c.is_immutable,
        c.diff == Some(file),
        !file.untracked,
        c.selected_hunk == Some(h),
        h < file.hunks@.len(),
    ensures
        ({
            let none = no_keys();
            let path = c.current.path@;
            let hash = file.hunks@[h as int].header_hash;
            let lines = c.selected_positions();
            &&& c.comes_of(command_of(&c, DiffKeys { diff_stage_lines: true, ..none }), new, action)
                ==> new == c && action == (DiffActionView::StageLines {
                path,
                is_stage: c.current.is_stage,
                lines,
            })
            &&& c.comes_of(
                command_of(&c, DiffKeys { stage_unstage_item: true, ..none }),
                new,
                action,
            ) ==> new == c && action == if c.current.is_stage {
                DiffActionView::UnstageHunk { path, hash }
            } else {
                DiffActionView::StageHunk { path, hash }
            }
            &&& c.comes_of(command_of(&c, DiffKeys { status_reset_item: true, ..none }), new, action)
                && !c.current.is_stage && !c.diff_mode.is_preview() ==> new == c && action == (
            DiffActionView::ConfirmResetHunk { path, hash })
            &&& c.comes_of(command_of(&c, DiffKeys { diff_reset_lines: true, ..none }), new, action)
                && !c.current.is_stage && !c.diff_mode.is_preview() ==> new == c && action == (
            DiffActionView::ConfirmResetLines { path, lines })
        }),
{
}

/// Of a file that git does not know yet the whole file is put into the index or reset,
/// and never some lines of it.
pub proof fn law_untracked_file(
    c: DiffComponent,
    file: diff::FileDiff,
    h: usize,
    new: DiffComponent,
    action: DiffActionView,
)
    requires
        !c.is_immutable,
        !c.current.is_stage,
        c.diff == Some(file),
        file.untracked,
        c.selected_hunk == Some(h),
    ensures
        ({
            let none = no_keys();
            let path = c.current.path@;
            &&& c.comes_of(
                command_of(&c, DiffKeys { stage_unstage_item: true, ..none }),
                new,
                action,
            ) ==> new == c && action == (DiffActionView::StageFile { path })
            &&& c.comes_of(command_of(&c, DiffKeys { status_reset_item: true, ..none }), new, action)
                && !c.diff_mode.is_preview() ==> new == c && action == (
            DiffActionView::ConfirmReset { path })
            &&& c.comes_of(command_of(&c, DiffKeys { diff_stage_lines: true, ..none }), new, action)
                ==> new == c && action is Nothing
            &&& c.comes_of(command_of(&c, DiffKeys { diff_reset_lines: true, ..none }), new, action)
                ==> new == c && action is Nothing
        }),
{
}

/// The key that copies puts the text of the selected lines into the clipboard, with a
/// line feed between each two of them; the key for the mode switches it. A key that is
/// bound to nothing does nothing and is not used.
pub proof fn law_other_keys(c: DiffComponent, new: DiffComponent, action: DiffActionView)
    ensures
        ({
            let none = no_keys();
            &&& c.comes_of(command_of(&c, DiffKeys { copy: true, ..none }), new, action) ==> new == c
                && match c.diff {
                Some(file) => action == DiffActionView::Copy(
                    text::join_of(
                        hunks::selected_contents(diff::flat_lines(file@.hunks), c.selection),
                        seq!['\n'],
                    ),
                ),
                None => action is Nothing,
            }
            &&& c.comes_of(command_of(&c, DiffKeys { diff_mode_toggle: true, ..none }), new, action)
                ==> new == c && action is ToggleMode
            &&& c.comes_of(command_of(&c, none), new, action) ==> new == c && action is Nothing
            &&& command_of(&c, none) is Unknown
            &&& !(command_of(&c, DiffKeys { copy: true, ..none }) is Unknown)
            &&& !(command_of(&c, DiffKeys { diff_mode_toggle: true, ..none }) is Unknown)
        }),
{
}

/// Whether a command is offered in this way.
pub open spec fn offers(
    list: Seq<OfferedCommand>,
    offer: DiffOffer,
    enabled: bool,
    available: bool,
) -> bool {
    exists|i: int|
        0 <= i < list.len() && (#[trigger] list[i]).offer == offer && list[i].enabled == enabled
            && list[i].available == available
}

/// Each command is offered where it does something: to a component with the focus, what
/// takes out of the index where the index is shown, what puts into it or resets where
/// the work tree is. Commands that change something are left out where nothing may be
/// changed, and resetting lines is left out of the preview.
pub proof fn law_offered_commands(c: DiffComponent)
    ensures
        ({
            let list = c.offered_commands();
            let staged = c.focused && c.current.is_stage;
            let unstaged = c.focused && !c.current.is_stage;
            let hunk = c.selected_hunk is Some;
            &&& offers(list, DiffOffer::Scroll, c.line_count() > 1, c.focused)
            &&& offers(list, DiffOffer::HomeEnd, c.line_count() > 1, c.focused)
            &&& offers(list, DiffOffer::HunkNext, c.hunk_target(1) != c.selected_hunk, c.focused)
            &&& offers(list, DiffOffer::HunkPrevious, c.hunk_target(-1) != c.selected_hunk, c.focused)
            &&& offers(list, DiffOffer::Copy, true, c.focused)
            &&& offers(list, DiffOffer::ToggleMode, true, c.focused)
            &&& !c.is_immutable ==> {
                &&& offers(list, DiffOffer::HunkRemove, hunk, staged)
                &&& offers(list, DiffOffer::HunkAdd, hunk, unstaged)
                &&& offers(list, DiffOffer::HunkRevert, hunk, unstaged)
                &&& offers(list, DiffOffer::LinesStage, true, unstaged)
                &&& offers(list, DiffOffer::LinesUnstage, true, staged)
                &&& !c.diff_mode.is_preview() ==> offers(list, DiffOffer::LinesRevert, true, unstaged)
            }
            &&& list.len() == if c.is_immutable {
                6
            } else if c.diff_mode.is_preview() {
                11
            } else {
                12int
            }
        }),
{
    let list = c.offered_commands();
    assert(list[0].offer == DiffOffer::Scroll);
    assert(list[1].offer == DiffOffer::HunkNext);
    assert(list[2].offer == DiffOffer::HunkPrevious);
    assert(list[3].offer == DiffOffer::HomeEnd);
    assert(list[list.len() - 2].offer == DiffOffer::Copy);
    assert(list[list.len() - 1].offer == DiffOffer::ToggleMode);
    if !c.is_immutable {
        assert(list[4].offer == DiffOffer::HunkRemove);
        assert(list[5].offer == DiffOffer::HunkAdd);
        assert(list[6].offer == DiffOffer::HunkRevert);
        if !c.diff_mode.is_preview() {
            assert(list[7].offer == DiffOffer::LinesRevert);
        }
        assert(list[list.len() - 4].offer == DiffOffer::LinesStage);
        assert(list[list.len() - 3].offer == DiffOffer::LinesUnstage);
    }
}

/// Without the focus no key does anything, and none is used; with it a key is used exactly
/// if it means something.
pub proof fn law_events(c: &mut DiffComponent, keys: DiffKeys, r: EventResult)
    requires
        old(c).wf(),
        old(c).selection_in_diff(),
        call_ensures(DiffComponent::event, (c, Some(keys)), r),
    ensures
        !old(c).focused ==> *final(c) == *old(c) && !r.consumed && r.action@ is Nothing,
        old(c).focused ==> old(c).comes_of(command_of(old(c), keys), *final(c), r.action@),
        old(c).focused ==> (r.consumed <==> !(command_of(old(c), keys) is Unknown)),
{
}

/// Of the meanings that a key is bound to the first one counts, in this order; a key that
/// would change something where that is not allowed is as if it were not bound.
pub proof fn law_first_meaning_counts(c: DiffComponent, keys: DiffKeys)
    ensures
        ({
            let none = no_keys();
            let command = command_of(&c, keys);
            let same = |other: DiffKeys| command == command_of(&c, other);
            &&& keys.move_down ==> same(DiffKeys { move_down: true, ..none })
            &&& !keys.move_down ==> {
                &&& keys.shift_down ==> same(DiffKeys { shift_down: true, ..none })
                &&& !keys.shift_down ==> {
                    &&& keys.shift_up ==> same(DiffKeys { shift_up: true, ..none })
                    &&& !keys.shift_up && keys.end ==> same(DiffKeys { end: true, ..none })
                    &&& !keys.shift_up && !keys.end && keys.home ==> same(
                        DiffKeys { home: true, ..none },
                    )
                    &&& !keys.shift_up && !keys.end && !keys.home && keys.move_up ==> same(
                        DiffKeys { move_up: true, ..none },
                    )
                    &&& !keys.shift_up && !keys.end && !keys.home && !keys.move_up && keys.page_up
                        ==> same(DiffKeys { page_up: true, ..none })
                    &&& !keys.shift_up && !keys.end && !keys.home && !keys.move_up && !keys.page_up
                        && keys.page_down ==> same(DiffKeys { page_down: true, ..none })
                }
            }
        }),
{
}

/// Whether a key moves or extends the selection through the lines.
pub open spec fn moves_lines(keys: DiffKeys) -> bool {
    keys.move_down || keys.shift_down || keys.shift_up || keys.end || keys.home || keys.move_up
        || keys.page_up || keys.page_down
}

/// Behind the keys for lines come those that move sideways, then those for hunks, then
/// those that change something, and last those that copy and switch the mode.
pub proof fn law_order_of_other_meanings(c: DiffComponent, keys: DiffKeys)
    requires
        !moves_lines(keys),
    ensures
        ({
            let none = no_keys();
            let command = command_of(&c, keys);
            let same = |other: DiffKeys| command == command_of(&c, other);
            let start = keys.diff_line_start || keys.underscore;
            let sideways = keys.move_right || keys.move_left || start || keys.diff_line_end;
            let by_hunks = keys.diff_hunk_next || keys.diff_hunk_prev;
            let free = !sideways && !by_hunks;
            let may_stage = !c.is_immutable;
            let may_undo = !c.is_immutable && !c.current.is_stage && !c.diff_mode.is_preview();
            let stages = keys.stage_unstage_item && may_stage;
            let resets = keys.status_reset_item && may_undo;
            let stages_lines = keys.diff_stage_lines && may_stage;
            let resets_lines = keys.diff_reset_lines && may_undo;
            let still = free && !stages && !resets && !stages_lines && !resets_lines;
            &&& keys.move_right ==> same(DiffKeys { move_right: true, ..none })
            &&& !keys.move_right && keys.move_left ==> same(DiffKeys { move_left: true, ..none })
            &&& !keys.move_right && !keys.move_left && start ==> same(
                DiffKeys { diff_line_start: true, ..none },
            )
            &&& !keys.move_right && !keys.move_left && !start && keys.diff_line_end ==> same(
                DiffKeys { diff_line_end: true, ..none },
            )
            &&& !sideways && keys.diff_hunk_next ==> same(DiffKeys { diff_hunk_next: true, ..none })
            &&& !sideways && !keys.diff_hunk_next && keys.diff_hunk_prev ==> same(
                DiffKeys { diff_hunk_prev: true, ..none },
            )
            &&& free && stages ==> same(DiffKeys { stage_unstage_item: true, ..none })
            &&& free && !stages && resets ==> same(DiffKeys { status_reset_item: true, ..none })
            &&& free && !stages && !resets && stages_lines ==> same(
                DiffKeys { diff_stage_lines: true, ..none },
            )
            &&& free && !stages && !resets && !stages_lines && resets_lines ==> same(
                DiffKeys { diff_reset_lines: true, ..none },
            )
            &&& still && keys.copy ==> same(DiffKeys { copy: true, ..none })
            &&& still && !keys.copy && keys.diff_mode_toggle ==> same(
                DiffKeys { diff_mode_toggle: true, ..none },
            )
            &&& still && !keys.copy && !keys.diff_mode_toggle ==> command is Unknown
        }),
{
}

/// Without a selected hunk nothing is put into the index or taken out of it. Where the
/// selected hunk is no longer one of the diff, the work tree is read anew and the index is
/// left alone.
pub proof fn law_no_hunk_selected(c: DiffComponent)
    ensures
        c.selected_hunk is None ==> c.stage_unstage_action() is Nothing && c.reset_hunk_action()
            is Nothing,
        c.diff is None ==> c.stage_unstage_action() is Nothing && c.stage_lines_action() is Nothing
            && c.reset_hunk_action() is Nothing,
        c.diff matches Some(file) ==> (c.selected_hunk matches Some(h) ==> h >= file.hunks@.len()
            && !file.untracked ==> if c.current.is_stage {
            c.stage_unstage_action() is Nothing
        } else {
            c.stage_unstage_action() is Refresh
        }),
{
}

/// An action is seen as what it is, with its path, its hash and its lines.
pub proof fn law_actions_are_seen_as_they_are(
    path: String,
    hash: u64,
    is_stage: bool,
    lines: Vec<DiffLinePosition>,
    way: HorizontalScrollType,
    area: VisibleArea,
)
    ensures
        DiffAction::Nothing@ is Nothing,
        DiffAction::Refresh@ is Refresh,
        DiffAction::ToggleMode@ is ToggleMode,
        DiffAction::Sideways(way)@ == DiffActionView::Sideways(way),
        DiffAction::ShowArea(area)@ == DiffActionView::ShowArea(area),
        (DiffAction::UnstageHunk { path, hash })@ == (DiffActionView::UnstageHunk {
            path: path@,
            hash,
        }),
        (DiffAction::StageHunk { path, hash })@ == (DiffActionView::StageHunk { path: path@, hash }),
        (DiffAction::StageFile { path })@ == (DiffActionView::StageFile { path: path@ }),
        (DiffAction::ConfirmReset { path })@ == (DiffActionView::ConfirmReset { path: path@ }),
        (DiffAction::ConfirmResetHunk { path, hash })@ == (DiffActionView::ConfirmResetHunk {
            path: path@,
            hash,
        }),
        (DiffAction::ConfirmResetLines { path, lines })@ == (DiffActionView::ConfirmResetLines {
            path: path@,
            lines: lines@,
        }),
        (DiffAction::StageLines { path, is_stage, lines })@ == (DiffActionView::StageLines {
            path: path@,
            is_stage,
            lines: lines@,
        }),
        DiffAction::Copy(path)@ == DiffActionView::Copy(path@),
{
}

/// To stage lines is to take them out of the index exactly where the diff of the index is
/// shown, and to put them into it exactly where that of the work tree is: the selected lines
/// of the file that is shown. It is asked for wherever git knows the file.
pub proof fn law_lines_go_in_or_out(c: DiffComponent, r: DiffAction)
    requires
        call_ensures(DiffComponent::stage_lines, (&c,), r),
    ensures
        r is StageLines <==> c.diff is Some && !c.diff->0.untracked,
        r matches DiffAction::StageLines { path, is_stage, lines } ==> {
            &&& is_stage <==> c.current.is_stage
            &&& path@ == c.current.path@
            &&& lines@ == c.selected_positions()
        },
        !(r is StageLines) ==> r is Nothing,
{
}

/// The selected hunk, known by its hash, is taken out of the index exactly where the diff of
/// the index is shown, and put into it exactly where that of the work tree is.
pub proof fn law_hunk_goes_in_or_out(c: DiffComponent, r: DiffAction, h: usize)
    requires
        call_ensures(DiffComponent::stage_unstage_hunk, (&c,), r),
        c.selected_hunk == Some(h),
        c.diff matches Some(file) && h < file.hunks@.len() && !file.untracked,
    ensures
        c.current.is_stage <==> r is UnstageHunk,
        !c.current.is_stage <==> r is StageHunk,
        r matches DiffAction::UnstageHunk { path, hash } ==> path@ == c.current.path@ && hash
            == c.diff->0.hunks@[h as int].header_hash,
        r matches DiffAction::StageHunk { path, hash } ==> path@ == c.current.path@ && hash
            == c.diff->0.hunks@[h as int].header_hash,
{
}

} // verus!

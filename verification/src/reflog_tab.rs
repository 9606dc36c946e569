//! The tab that lists the changes of a reference.
use vstd::prelude::*;

use crate::async_reflog::FetchStatus;
use crate::commit_files::CommitId;
use crate::layout;
use crate::layout::Area;
use crate::selection;
use crate::selection::ScrollType;
use crate::style::{Color, Modifier, Style};
use crate::text;
use crate::themed;
use crate::themed::{Role, ThemedSpan, ThemedSpanView};

verus! {

/// What changed a reference.
#[derive(Clone, Copy, PartialEq, Eq, Structural, Debug)]
pub enum ReflogAction {
    Commit,
    Checkout,
    Reset,
    Rebase,
    Merge,
    CherryPick,
    Pull,
    Clone,
    Amend,
    Branch,
    Unknown,
}

/// The colour of an action.
pub open spec fn action_color(action: ReflogAction) -> Color {
    match action {
        ReflogAction::Commit => Color::Green,
        ReflogAction::Checkout => Color::Cyan,
        ReflogAction::Reset => Color::Yellow,
        ReflogAction::Rebase => Color::Magenta,
        ReflogAction::Merge => Color::LightMagenta,
        ReflogAction::CherryPick => Color::LightMagenta,
        ReflogAction::Pull => Color::LightCyan,
        ReflogAction::Clone => Color::LightGreen,
        ReflogAction::Amend => Color::LightGreen,
        ReflogAction::Branch => Color::LightYellow,
        ReflogAction::Unknown => Color::DarkGray,
    }
}

pub open spec fn bold() -> Modifier {
    Modifier { bold: true, dim: false, italic: false, underlined: false }
}

/// The style of an action: bold and in its colour, on blue where it is
/// selected.
pub open spec fn style_of_action(action: ReflogAction, selected: bool) -> Style {
    let base = if selected {
        Style::plain().with_bg(Color::Blue)
    } else {
        Style::plain()
    };
    base.with_fg(action_color(action)).adding(bold())
}

/// Get style for reflog action type
pub fn action_style(action: ReflogAction, selected: bool) -> (r: Style)
    ensures
        r == style_of_action(action, selected),
{
    let base_style = if selected {
        Style::unstyled().bg(Color::Blue)
    } else {
        Style::unstyled()
    };
    let color = match action {
        ReflogAction::Commit => Color::Green,
        ReflogAction::Checkout => Color::Cyan,
        ReflogAction::Reset => Color::Yellow,
        ReflogAction::Rebase => Color::Magenta,
        ReflogAction::Merge => Color::LightMagenta,
        ReflogAction::CherryPick => Color::LightMagenta,
        ReflogAction::Pull => Color::LightCyan,
        ReflogAction::Clone => Color::LightGreen,
        ReflogAction::Amend => Color::LightGreen,
        ReflogAction::Branch => Color::LightYellow,
        ReflogAction::Unknown => Color::DarkGray,
    };
    base_style.fg(color).add_modifier(
        Modifier { bold: true, dim: false, italic: false, underlined: false },
    )
}

/// A change of a reference.
pub struct ReflogEntry {
    /// The commit that it points to since.
    pub new_oid: CommitId,
    /// The full and the short name of that commit.
    pub hash: String,
    pub short_hash: String,
    /// When it happened.
    pub time: String,
    pub committer: String,
    pub action: ReflogAction,
    /// The short name of the action.
    pub action_name: String,
    pub message: String,
    pub commit_subject: String,
}

/// The tab that lists the changes of a reference.
pub struct Reflog {
    pub entries: Vec<ReflogEntry>,
    pub selected: usize,
    pub visible: bool,
    /// Whether there ever were entries.
    pub loaded: bool,
    /// The size of the table inside its border, once it was drawn.
    pub current_size: Option<(u16, u16)>,
}

/// What git tells about work that came to its end.
#[derive(Clone, Copy, PartialEq, Eq, Structural, Debug)]
pub enum GitNotification {
    Reflog,
    CommitFiles,
    Other,
}

/// A row of the table: its cells from left to right, and its role as a whole.
pub struct ReflogRow {
    pub cells: Vec<ThemedSpan>,
    pub role: Role,
}

#[verifier::ext_equal]
pub struct ReflogRowView {
    pub cells: Seq<ThemedSpanView>,
    pub role: Role,
}

impl View for ReflogRow {
    type V = ReflogRowView;

    open spec fn view(&self) -> ReflogRowView {
        ReflogRowView { cells: text::views(self.cells@), role: self.role }
    }
}

/// What fills the table.
pub enum ReflogBody {
    /// A note.
    Note(String),
    /// Rows.
    Rows(Vec<ReflogRow>),
}

#[verifier::ext_equal]
pub enum ReflogBodyView {
    Note(Seq<char>),
    Rows(Seq<ReflogRowView>),
}

impl View for ReflogBody {
    type V = ReflogBodyView;

    open spec fn view(&self) -> ReflogBodyView {
        match self {
            ReflogBody::Note(t) => ReflogBodyView::Note(t@),
            ReflogBody::Rows(rows) => ReflogBodyView::Rows(text::views(rows@)),
        }
    }
}

/// The row of an entry.
pub open spec fn row_of(entry: ReflogEntry, selected: bool, pending: bool) -> ReflogRowView {
    let message = Role::Text { enabled: !pending || selected, selected };
    ReflogRowView {
        cells: seq![
            themed::piece(entry.short_hash@, Role::CommitHash { selected }),
            themed::piece(entry.time@, Role::CommitTime { selected }),
            themed::piece(entry.committer@, Role::CommitAuthor { selected }),
            themed::piece(
                entry.action_name@,
                Role::Styled(style_of_action(entry.action, selected)),
            ),
            themed::piece(entry.message@, message),
            themed::piece(entry.commit_subject@, message),
        ],
        role: Role::Text { enabled: true, selected },
    }
}

/// Where the parts of the tab are drawn.
#[derive(Clone, Copy, PartialEq, Eq, Structural, Debug)]
pub enum ReflogAreas {
    Nothing,
    /// The table alone.
    Table(Area),
    /// The table, and the details of a commit to its right.
    Split(Area, Area),
}

/// Which of the keys that the tab knows was pressed.
#[derive(Clone, Copy, PartialEq, Eq, Structural, Debug)]
pub struct ReflogKeys {
    /// Any of the keys that switch to a tab.
    pub switch_tab: bool,
    pub exit_popup: bool,
    pub enter: bool,
    pub move_up: bool,
    pub move_down: bool,
    pub home: bool,
    pub end: bool,
    pub page_up: bool,
    pub page_down: bool,
    pub move_right: bool,
    pub copy: bool,
}

/// What is to be done outside of the tab.
pub enum ReflogRequest {
    Nothing,
    HideDetails,
    /// The details appear, and are those of this commit.
    ShowDetails(CommitId),
    /// The details are those of this commit.
    Details(CommitId),
    /// The commit is looked at closely.
    Inspect(CommitId),
    /// The name of the commit is put into the clipboard.
    Copy(String),
}

#[verifier::ext_equal]
pub enum ReflogRequestView {
    Nothing,
    HideDetails,
    ShowDetails(CommitId),
    Details(CommitId),
    Inspect(CommitId),
    Copy(Seq<char>),
}

impl View for ReflogRequest {
    type V = ReflogRequestView;

    open spec fn view(&self) -> ReflogRequestView {
        match self {
            ReflogRequest::Nothing => ReflogRequestView::Nothing,
            ReflogRequest::HideDetails => ReflogRequestView::HideDetails,
            ReflogRequest::ShowDetails(id) => ReflogRequestView::ShowDetails(*id),
            ReflogRequest::Details(id) => ReflogRequestView::Details(*id),
            ReflogRequest::Inspect(id) => ReflogRequestView::Inspect(*id),
            ReflogRequest::Copy(t) => ReflogRequestView::Copy(t@),
        }
    }
}

/// What came of an event.
pub struct ReflogEvent {
    pub consumed: bool,
    pub request: ReflogRequest,
}

/// A command that is offered to the user.
#[derive(Clone, Copy, PartialEq, Eq, Structural, Debug)]
pub enum ReflogOffer {
    Navigate,
    ToggleDetails,
    OpenDetails,
    CopyHash,
}

/// How a command is offered.
#[derive(Clone, Copy, PartialEq, Eq, Structural, Debug)]
pub struct ReflogCommand {
    pub offer: ReflogOffer,
    pub enabled: bool,
    pub available: bool,
}

/// How many entries a step of the acceleration moves by: at least one.
pub open spec fn step_of(speed: i64) -> int {
    if 1 <= speed <= usize::MAX {
        speed as int
    } else {
        1
    }
}

impl Reflog {
    /// The entry that is selected.
    pub open spec fn entry(&self) -> Option<ReflogEntry> {
        if self.selected < self.entries@.len() {
            Some(self.entries@[self.selected as int])
        } else {
            None
        }
    }

    /// The last entry that can be selected.
    pub open spec fn last(&self) -> int {
        selection::less(self.entries@.len() as int, 1)
    }

    /// The commit that the details are those of.
    pub open spec fn details(&self, details_visible: bool) -> Option<CommitId> {
        match self.entry() {
            Some(entry) => if details_visible {
                Some(entry.new_oid)
            } else {
                None
            },
            None => None,
        }
    }

    pub fn new() -> (r: Reflog)
        ensures
            r.entries@.len() == 0,
            r.selected == 0,
            !r.visible,
            !r.loaded,
            r.current_size is None,
    {
        Reflog {
            entries: Vec::new(),
            selected: 0,
            visible: false,
            loaded: false,
            current_size: None,
        }
    }

    /// Whether anything is being read: the log, or the details of a commit.
    pub fn any_work_pending(log_pending: bool, details_pending: bool) -> (r: bool)
        ensures
            r == (log_pending || details_pending),
    {
        log_pending || details_pending
    }

    /// Get the currently selected entry
    pub fn selected_entry(&self) -> (r: Option<&ReflogEntry>)
        ensures
            match r {
                Some(entry) => self.entry() == Some(*entry),
                None => self.entry() is None,
            },
    {
        if self.selected < self.entries.len() {
            Some(&self.entries[self.selected])
        } else {
            None
        }
    }

    fn details_commit(&self, details_visible: bool) -> (r: Option<CommitId>)
        ensures
            r == self.details(details_visible),
    {
        if !details_visible {
            return None;
        }
        match self.selected_entry() {
            Some(entry) => Some(entry.new_oid),
            None => None,
        }
    }

    /// Takes over the log. `status` is what came of asking for it, and `items`
    /// what is known of it. Returns the commit that the details are set to.
    /// What is shown is cleared when the log is read anew. The selection goes to
    /// the top on the first load only; it never points behind the last entry of
    /// a log that has entries.
    pub fn update(
        &mut self,
        status: FetchStatus,
        items: Vec<ReflogEntry>,
        details_visible: bool,
    ) -> (r: Option<CommitId>)
        ensures
            final(self).visible == old(self).visible,
            final(self).current_size == old(self).current_size,
            !old(self).visible ==> *final(self) == *old(self) && r is None,
            old(self).visible ==> {
                let had_entries = old(self).loaded || old(self).entries@.len() > 0;
                &&& r == final(self).details(details_visible)
                &&& final(self).loaded == (had_entries || items@.len() > 0)
                &&& items@.len() == 0 ==> {
                    &&& final(self).selected == old(self).selected
                    &&& final(self).entries@ == if status is Started {
                        Seq::empty()
                    } else {
                        old(self).entries@
                    }
                }
                &&& items@.len() > 0 ==> {
                    &&& final(self).entries@ == items@
                    &&& final(self).selected == if had_entries {
                        selection::min_of(old(self).selected as int, items@.len() - 1)
                    } else {
                        0
                    }
                }
            },
    {
        if !self.visible {
            return None;
        }
        if self.entries.len() > 0 {
            self.loaded = true;
        }
        if status == FetchStatus::Started {
            self.entries = Vec::new();
        }
        if items.len() > 0 {
            self.entries = items;
            if !self.loaded {
                self.selected = 0;
            }
            self.loaded = true;
            let len: usize = self.entries.len();
            if self.selected >= len {
                self.selected = len - 1;
            }
        }
        self.details_commit(details_visible)
    }

    /// Whether the tab has to be updated for what git tells.
    pub fn update_git(&self, ev: GitNotification) -> (r: bool)
        ensures
            r == (self.visible && !(ev is Other)),
    {
        self.visible && ev != GitNotification::Other
    }

    /// Where a move leads to.
    pub open spec fn target(&self, scroll: ScrollType, speed: i64) -> int {
        let page = match self.current_size {
            Some(size) => selection::less(size.1 as int, 1),
            None => 0,
        };
        let to = match scroll {
            ScrollType::Up => selection::less(self.selected as int, step_of(speed)),
            ScrollType::Down => self.selected + step_of(speed),
            ScrollType::PageUp => selection::less(self.selected as int, page),
            ScrollType::PageDown => self.selected + page,
            ScrollType::Home => 0,
            ScrollType::End => self.last(),
        };
        selection::min_of(to, self.last())
    }

    /// Moves the selection. `speed` is how fast it goes. Returns whether
    /// another entry is selected.
    pub fn move_selection(&mut self, scroll: ScrollType, speed: i64) -> (r: bool)
        ensures
            *final(self) == (Reflog {
                selected: old(self).target(scroll, speed) as usize,
                ..*old(self)
            }),
            r == (final(self).selected != old(self).selected),
    {
        let max: usize = if self.entries.len() > 0 {
            self.entries.len() - 1
        } else {
            0
        };
        let step: usize = if 1 <= speed && speed as u64 <= usize::MAX as u64 {
            speed as usize
        } else {
            1
        };
        let page: usize = match self.current_size {
            Some(size) => if size.1 > 0 {
                (size.1 - 1) as usize
            } else {
                0
            },
            None => 0,
        };
        let new_selection: usize = match scroll {
            ScrollType::Up => if self.selected >= step {
                self.selected - step
            } else {
                0
            },
            ScrollType::Down => self.selected.saturating_add(step),
            ScrollType::PageUp => if self.selected >= page {
                self.selected - page
            } else {
                0
            },
            ScrollType::PageDown => self.selected.saturating_add(page),
            ScrollType::Home => 0,
            ScrollType::End => max,
        };
        let new_selection: usize = if new_selection < max {
            new_selection
        } else {
            max
        };
        let needs_update = new_selection != self.selected;
        self.selected = new_selection;
        needs_update
    }

    /// Create a table row for a reflog entry
    pub fn create_row(entry: &ReflogEntry, is_selected: bool, pending: bool) -> (r: ReflogRow)
        ensures
            r@ == row_of(*entry, is_selected, pending),
    {
        let selected = is_selected;
        let message = Role::Text { enabled: !pending || is_selected, selected };
        let mut cells: Vec<ThemedSpan> = Vec::new();
        cells.push(ThemedSpan::new(entry.short_hash.clone(), Role::CommitHash { selected }));
        cells.push(ThemedSpan::new(entry.time.clone(), Role::CommitTime { selected }));
        cells.push(ThemedSpan::new(entry.committer.clone(), Role::CommitAuthor { selected }));
        cells.push(
            ThemedSpan::new(
                entry.action_name.clone(),
                Role::Styled(action_style(entry.action, is_selected)),
            ),
        );
        cells.push(ThemedSpan::new(entry.message.clone(), message));
        cells.push(ThemedSpan::new(entry.commit_subject.clone(), message));
        let row = ReflogRow { cells, role: Role::Text { enabled: true, selected } };
        assert(row@ =~= row_of(*entry, is_selected, pending));
        row
    }

    /// Takes over the area that the table is drawn in.
    pub fn resize(&mut self, area: Area)
        ensures
            *final(self) == (Reflog {
                current_size: Some(
                    (
                        selection::less(area.width as int, 2) as u16,
                        selection::less(area.height as int, 2) as u16,
                    ),
                ),
                ..*old(self)
            }),
    {
        let width: u16 = if area.width >= 2 {
            area.width - 2
        } else {
            0
        };
        let height: u16 = if area.height >= 2 {
            area.height - 2
        } else {
            0
        };
        self.current_size = Some((width, height));
    }

    /// The title of the table: how many entries are left from the selected one
    /// on, out of how many.
    pub fn title(&self, heading: &str) -> (r: String)
        ensures
            r@ == heading@ + " "@ + text::decimal_text(
                selection::less(self.entries@.len() as int, self.selected as int) as nat,
            ) + "/"@ + text::decimal_text(self.entries@.len()),
    {
        let n: usize = self.entries.len();
        let left: usize = if n >= self.selected {
            n - self.selected
        } else {
            0
        };
        let mut out = text::concat3(heading, " ", text::decimal(left as u64).as_str());
        out.append("/");
        out.append(text::decimal(n as u64).as_str());
        out
    }

    /// What fills the table: the entries from `scroll_top` on that fit, or a
    /// note where there is none.
    pub open spec fn body(&self, scroll_top: int, height: int, pending: bool) -> ReflogBodyView {
        if self.entries@.len() == 0 {
            ReflogBodyView::Note(
                if pending {
                    "Loading..."@
                } else {
                    "No reflog entries"@
                },
            )
        } else {
            ReflogBodyView::Rows(
                Seq::new(
                    selection::min_of(
                        height,
                        selection::less(self.entries@.len() as int, scroll_top),
                    ) as nat,
                    |i: int|
                        row_of(
                            self.entries@[scroll_top + i],
                            scroll_top + i == self.selected,
                            pending,
                        ),
                ),
            )
        }
    }

    /// What fills the table.
    pub fn draw_table(&self, scroll_top: usize, height: u16, pending: bool) -> (r: ReflogBody)
        ensures
            r@ == self.body(scroll_top as int, height as int, pending),
    {
        if self.entries.len() == 0 {
            return ReflogBody::Note(
                if pending {
                    "Loading...".to_owned()
                } else {
                    "No reflog entries".to_owned()
                },
            );
        }
        let rest: usize = if self.entries.len() > scroll_top {
            self.entries.len() - scroll_top
        } else {
            0
        };
        let n: usize = if rest < height as usize {
            rest
        } else {
            height as usize
        };
        let ghost goal = Seq::new(
            n as nat,
            |i: int|
                row_of(self.entries@[scroll_top + i], scroll_top + i == self.selected, pending),
        );
        let mut rows: Vec<ReflogRow> = Vec::new();
        let mut i: usize = 0;
        while i < n
            invariant
                i <= n <= rest,
                rest == selection::less(self.entries.len() as int, scroll_top as int),
                goal == Seq::new(
                    n as nat,
                    |i: int|
                        row_of(
                            self.entries@[scroll_top + i],
                            scroll_top + i == self.selected,
                            pending,
                        ),
                ),
                text::views(rows@) == goal.take(i as int),
            decreases n - i,
        {
            let at: usize = scroll_top + i;
            let row = Reflog::create_row(&self.entries[at], at == self.selected, pending);
            proof {
                text::lemma_views_push(rows@, row);
                assert(goal.take(i + 1) =~= goal.take(i as int).push(row@));
            }
            rows.push(row);
            i = i + 1;
        }
        assert(goal.take(n as int) =~= goal);
        let body = ReflogBody::Rows(rows);
        assert(body@ =~= self.body(scroll_top as int, height as int, pending));
        body
    }

    /// Where the parts of the tab are drawn. The table takes `left_ratio`
    /// percent of the width beside the details.
    pub fn draw(&self, area: Area, details_visible: bool, left_ratio: u16) -> (r: ReflogAreas)
        requires
            left_ratio <= 100,
            area.x + area.width <= u16::MAX,
        ensures
            !self.visible ==> r is Nothing,
            self.visible && !details_visible ==> r == ReflogAreas::Table(area),
            self.visible && details_visible ==> {
                &&& r matches ReflogAreas::Split(left, right)
                &&& layout::share_columns(area, left_ratio, (left, right))
            },
    {
        if !self.visible {
            ReflogAreas::Nothing
        } else if details_visible {
            let (left, right) = layout::split_columns(area, left_ratio, 100 - left_ratio);
            ReflogAreas::Split(left, right)
        } else {
            ReflogAreas::Table(area)
        }
    }

    /// The commands that are offered.
    pub open spec fn offered_commands(&self, force_all: bool, details_visible: bool) -> Seq<
        ReflogCommand,
    > {
        if self.visible || force_all {
            seq![
                ReflogCommand {
                    offer: ReflogOffer::Navigate,
                    enabled: true,
                    available: self.visible,
                },
                ReflogCommand {
                    offer: ReflogOffer::ToggleDetails,
                    enabled: true,
                    available: self.visible,
                },
                ReflogCommand {
                    offer: ReflogOffer::OpenDetails,
                    enabled: true,
                    available: (self.visible && details_visible) || force_all,
                },
                ReflogCommand {
                    offer: ReflogOffer::CopyHash,
                    enabled: self.entry() is Some,
                    available: true,
                },
            ]
        } else {
            Seq::empty()
        }
    }

    /// The commands that are offered.
    pub fn commands(&self, force_all: bool, details_visible: bool) -> (r: Vec<ReflogCommand>)
        ensures
            r@ == self.offered_commands(force_all, details_visible),
    {
        let mut out: Vec<ReflogCommand> = Vec::new();
        if self.visible || force_all {
            let available = self.visible;
            out.push(ReflogCommand { offer: ReflogOffer::Navigate, enabled: true, available });
            out.push(ReflogCommand { offer: ReflogOffer::ToggleDetails, enabled: true, available });
            out.push(
                ReflogCommand {
                    offer: ReflogOffer::OpenDetails,
                    enabled: true,
                    available: (self.visible && details_visible) || force_all,
                },
            );
            out.push(
                ReflogCommand {
                    offer: ReflogOffer::CopyHash,
                    enabled: self.selected_entry().is_some(),
                    available: self.visible || force_all,
                },
            );
        }
        assert(out@ =~= self.offered_commands(force_all, details_visible));
        out
    }

    /// Which way a key moves the selection.
    pub open spec fn scroll_of(keys: ReflogKeys) -> Option<ScrollType> {
        if keys.move_up {
            Some(ScrollType::Up)
        } else if keys.move_down {
            Some(ScrollType::Down)
        } else if keys.home {
            Some(ScrollType::Home)
        } else if keys.end {
            Some(ScrollType::End)
        } else if keys.page_up {
            Some(ScrollType::PageUp)
        } else if keys.page_down {
            Some(ScrollType::PageDown)
        } else {
            None
        }
    }

    fn scroll_key(keys: ReflogKeys) -> (r: Option<ScrollType>)
        ensures
            r == Reflog::scroll_of(keys),
    {
        if keys.move_up {
            Some(ScrollType::Up)
        } else if keys.move_down {
            Some(ScrollType::Down)
        } else if keys.home {
            Some(ScrollType::Home)
        } else if keys.end {
            Some(ScrollType::End)
        } else if keys.page_up {
            Some(ScrollType::PageUp)
        } else if keys.page_down {
            Some(ScrollType::PageDown)
        } else {
            None
        }
    }

    /// Whether an event moves the selection, so that it goes faster.
    pub fn scrolls(&self, keys: Option<ReflogKeys>, details_used: bool) -> (r: bool)
        ensures
            r == (self.visible && !details_used && keys is Some && !keys->0.switch_tab
                && !keys->0.exit_popup && !keys->0.enter && Reflog::scroll_of(keys->0) is Some),
    {
        match keys {
            Some(keys) => self.visible && !details_used && !keys.switch_tab && !keys.exit_popup
                && !keys.enter && Reflog::scroll_key(keys).is_some(),
            None => false,
        }
    }

    /// What a key asks for that leaves the selection as it is.
    pub open spec fn still_request(
        &self,
        keys: ReflogKeys,
        details_visible: bool,
    ) -> ReflogRequestView {
        match self.entry() {
            Some(entry) => if keys.move_right && details_visible {
                ReflogRequestView::Inspect(entry.new_oid)
            } else if keys.copy {
                ReflogRequestView::Copy(entry.hash@)
            } else {
                ReflogRequestView::Nothing
            },
            None => ReflogRequestView::Nothing,
        }
    }

    fn still(&self, keys: ReflogKeys, details_visible: bool) -> (r: ReflogRequest)
        ensures
            r@ == self.still_request(keys, details_visible),
    {
        match self.selected_entry() {
            Some(entry) => if keys.move_right && details_visible {
                ReflogRequest::Inspect(entry.new_oid)
            } else if keys.copy {
                ReflogRequest::Copy(entry.hash.clone())
            } else {
                ReflogRequest::Nothing
            },
            None => ReflogRequest::Nothing,
        }
    }

    /// What the key that opens and closes the details asks for.
    pub open spec fn toggle_request(&self, details_visible: bool) -> ReflogRequestView {
        if details_visible {
            ReflogRequestView::HideDetails
        } else {
            match self.entry() {
                Some(entry) => ReflogRequestView::ShowDetails(entry.new_oid),
                None => ReflogRequestView::Nothing,
            }
        }
    }

    /// Does what a key means. `details_used` tells that the details have the
    /// focus and used the event; `speed` is how fast the selection goes. A tab
    /// that is shown uses every event but the keys that switch tabs.
    pub fn event(
        &mut self,
        keys: Option<ReflogKeys>,
        details_used: bool,
        details_visible: bool,
        speed: i64,
    ) -> (r: ReflogEvent)
        ensures
            !old(self).visible ==> *final(self) == *old(self) && !r.consumed && r.request@
                is Nothing,
            old(self).visible && (details_used || keys is None) ==> *final(self) == *old(self)
                && r.consumed && r.request@ is Nothing,
            old(self).visible && !details_used && keys is Some ==> {
                let keys = keys->0;
                let scroll = Reflog::scroll_of(keys);
                &&& r.consumed == !keys.switch_tab
                &&& if keys.switch_tab {
                    *final(self) == *old(self) && r.request@ is Nothing
                } else if keys.exit_popup {
                    &&& *final(self) == *old(self)
                    &&& r.request@ == if details_visible {
                        ReflogRequestView::HideDetails
                    } else {
                        ReflogRequestView::Nothing
                    }
                } else if keys.enter {
                    *final(self) == *old(self) && r.request@ == old(self).toggle_request(
                        details_visible,
                    )
                } else if scroll is Some {
                    &&& *final(self) == (Reflog {
                        selected: old(self).target(scroll->0, speed) as usize,
                        ..*old(self)
                    })
                    &&& r.request@ == match final(self).details(details_visible) {
                        Some(id) => ReflogRequestView::Details(id),
                        None => ReflogRequestView::Nothing,
                    }
                } else {
                    *final(self) == *old(self) && r.request@ == old(self).still_request(
                        keys,
                        details_visible,
                    )
                }
            },
    {
        if !self.visible {
            return ReflogEvent { consumed: false, request: ReflogRequest::Nothing };
        }
        let keys = match keys {
            Some(keys) => keys,
            None => {
                return ReflogEvent { consumed: true, request: ReflogRequest::Nothing };
            },
        };
        if details_used {
            return ReflogEvent { consumed: true, request: ReflogRequest::Nothing };
        }
        if keys.switch_tab {
            return ReflogEvent { consumed: false, request: ReflogRequest::Nothing };
        }
        let request = if keys.exit_popup {
            if details_visible {
                ReflogRequest::HideDetails
            } else {
                ReflogRequest::Nothing
            }
        } else if keys.enter {
            if details_visible {
                ReflogRequest::HideDetails
            } else {
                match self.selected_entry() {
                    Some(entry) => ReflogRequest::ShowDetails(entry.new_oid),
                    None => ReflogRequest::Nothing,
                }
            }
        } else {
            match Reflog::scroll_key(keys) {
                Some(scroll) => {
                    self.move_selection(scroll, speed);
                    match self.details_commit(details_visible) {
                        Some(id) => ReflogRequest::Details(id),
                        None => ReflogRequest::Nothing,
                    }
                },
                None => self.still(keys, details_visible),
            }
        };
        ReflogEvent { consumed: true, request }
    }

    pub fn is_visible(&self) -> (r: bool)
        ensures
            r == self.visible,
    {
        self.visible
    }

    /// Hides the tab, and the details with it.
    pub fn close(&mut self)
        ensures
            *final(self) == (Reflog { visible: false, ..*old(self) }),
    {
        self.visible = false;
    }

    /// Shows the tab; an update follows.
    pub fn show(&mut self)
        ensures
            *final(self) == (Reflog { visible: true, ..*old(self) }),
    {
        self.visible = true;
    }
}

// ---------------------------------------------------------------------------
// Laws
// ---------------------------------------------------------------------------
/// No move leads behind the last entry, and in a list with entries the selected
/// one is always one of them.
pub proof fn law_moves_stay_in_list(tab: Reflog, scroll: ScrollType, speed: i64)
    requires
        tab.entries@.len() > 0,
    ensures
        0 <= tab.target(scroll, speed) < tab.entries@.len(),
{
}

/// Moving up never leads down, and moving down from an entry of the list never
/// leads up.
pub proof fn law_moves_keep_direction(tab: Reflog, speed: i64)
    requires
        tab.selected <= tab.last(),
    ensures
        tab.target(ScrollType::Up, speed) <= tab.selected,
        tab.target(ScrollType::PageUp, speed) <= tab.selected,
        tab.target(ScrollType::Down, speed) >= tab.selected,
        tab.target(ScrollType::PageDown, speed) >= tab.selected,
{
}

/// Each action has its colour, in bold; what is selected stands on blue, and nothing else
/// has a background.
pub proof fn law_action_styles(action: ReflogAction, selected: bool)
    ensures
        style_of_action(ReflogAction::Commit, selected).fg == Some(Color::Green),
        style_of_action(ReflogAction::Checkout, selected).fg == Some(Color::Cyan),
        style_of_action(ReflogAction::Reset, selected).fg == Some(Color::Yellow),
        style_of_action(ReflogAction::Rebase, selected).fg == Some(Color::Magenta),
        style_of_action(ReflogAction::Merge, selected).fg == Some(Color::LightMagenta),
        style_of_action(ReflogAction::CherryPick, selected).fg == Some(Color::LightMagenta),
        style_of_action(ReflogAction::Pull, selected).fg == Some(Color::LightCyan),
        style_of_action(ReflogAction::Clone, selected).fg == Some(Color::LightGreen),
        style_of_action(ReflogAction::Amend, selected).fg == Some(Color::LightGreen),
        style_of_action(ReflogAction::Branch, selected).fg == Some(Color::LightYellow),
        style_of_action(ReflogAction::Unknown, selected).fg == Some(Color::DarkGray),
        style_of_action(action, true).bg == Some(Color::Blue),
        style_of_action(action, false).bg is None,
        ({
            let modifier = style_of_action(action, selected).add_modifier;
            modifier.bold && !modifier.dim && !modifier.italic && !modifier.underlined
        }),
{
}

/// The row of an entry shows, from left to right, the short name of the commit, the time,
/// the committer, the action, its message and the subject of the commit, all of them in
/// the look of a selected row where it is selected. While the log is read, the messages of
/// the other rows are dim.
pub proof fn law_row_of_entry(entry: ReflogEntry, selected: bool, pending: bool)
    ensures
        ({
            let row = row_of(entry, selected, pending);
            &&& row.cells.len() == 6
            &&& row.cells[0].content == entry.short_hash@
            &&& row.cells[1].content == entry.time@
            &&& row.cells[2].content == entry.committer@
            &&& row.cells[3].content == entry.action_name@
            &&& row.cells[4].content == entry.message@
            &&& row.cells[5].content == entry.commit_subject@
            &&& row.cells[0].role == (Role::CommitHash { selected })
            &&& row.cells[1].role == (Role::CommitTime { selected })
            &&& row.cells[2].role == (Role::CommitAuthor { selected })
            &&& row.cells[3].role == Role::Styled(style_of_action(entry.action, selected))
            &&& row.cells[4].role == row.cells[5].role
            &&& selected || !pending ==> row.cells[4].role == (Role::Text {
                enabled: true,
                selected,
            })
            &&& !selected && pending ==> row.cells[4].role == (Role::Text {
                enabled: false,
                selected: false,
            })
            &&& row.role == (Role::Text { enabled: true, selected })
        }),
{
}

/// A step leads as many entries on or back as the speed says, at least one; a page as far
/// as the table is high, less one entry; the keys for the ends lead to them. At the ends
/// of the list a move stops.
pub proof fn law_moves(tab: Reflog, speed: i64, height: u16, width: u16)
    requires
        tab.selected < tab.entries@.len() <= usize::MAX,
        tab.current_size == Some((width, height)),
        speed <= usize::MAX,
    ensures
        ({
            let n = tab.entries@.len() as int;
            let at = tab.selected as int;
            let step = if speed >= 1 {
                speed as int
            } else {
                1
            };
            let page = if height >= 1 {
                height - 1
            } else {
                0
            };
            &&& at + step < n ==> tab.target(ScrollType::Down, speed) == at + step
            &&& at + step >= n ==> tab.target(ScrollType::Down, speed) == n - 1
            &&& at >= step ==> tab.target(ScrollType::Up, speed) == at - step
            &&& at < step ==> tab.target(ScrollType::Up, speed) == 0
            &&& at + page < n ==> tab.target(ScrollType::PageDown, speed) == at + page
            &&& at + page >= n ==> tab.target(ScrollType::PageDown, speed) == n - 1
            &&& at >= page ==> tab.target(ScrollType::PageUp, speed) == at - page
            &&& at < page ==> tab.target(ScrollType::PageUp, speed) == 0
            &&& tab.target(ScrollType::Home, speed) == 0
            &&& tab.target(ScrollType::End, speed) == n - 1
        }),
{
}

/// As many entries are shown as fit, from the first one in view on, and the selected one
/// is shown as such. Without entries there is a note: whether the log is being read.
pub proof fn law_table(tab: Reflog, scroll_top: int, height: int, pending: bool, i: int)
    requires
        0 <= scroll_top,
        0 <= height,
    ensures
        tab.entries@.len() == 0 ==> tab.body(scroll_top, height, true) == ReflogBodyView::Note(
            "Loading..."@,
        ),
        tab.entries@.len() == 0 ==> tab.body(scroll_top, height, false) == ReflogBodyView::Note(
            "No reflog entries"@,
        ),
        tab.entries@.len() > 0 ==> {
            &&& tab.body(scroll_top, height, pending) matches ReflogBodyView::Rows(rows)
            &&& rows.len() <= height
            &&& scroll_top + rows.len() <= tab.entries@.len() || rows.len() == 0
            &&& rows.len() == height || scroll_top + rows.len() >= tab.entries@.len()
            &&& 0 <= i < rows.len() ==> rows[i] == row_of(
                tab.entries@[scroll_top + i],
                scroll_top + i == tab.selected,
                pending,
            )
        },
{
}

/// The selected entry is the one at the place of the selection, and the details are those
/// of the commit that it points to, where they are shown.
pub proof fn law_selected_entry(tab: Reflog, details_visible: bool)
    ensures
        tab.entry() is Some <==> tab.selected < tab.entries@.len(),
        tab.entry() matches Some(entry) ==> entry == tab.entries@[tab.selected as int],
        !details_visible ==> tab.details(details_visible) is None,
        details_visible ==> (tab.details(details_visible) is Some <==> tab.entry() is Some),
        details_visible ==> (tab.entry() matches Some(entry) ==> tab.details(details_visible)
            == Some(entry.new_oid)),
{
}

/// No key at all.
pub open spec fn no_reflog_keys() -> ReflogKeys {
    ReflogKeys {
        switch_tab: false,
        exit_popup: false,
        enter: false,
        move_up: false,
        move_down: false,
        home: false,
        end: false,
        page_up: false,
        page_down: false,
        move_right: false,
        copy: false,
    }
}

/// Each key that moves moves its own way, and no other key moves.
pub proof fn law_moving_keys(keys: ReflogKeys)
    ensures
        ({
            let none = no_reflog_keys();
            &&& Reflog::scroll_of(ReflogKeys { move_up: true, ..none }) == Some(ScrollType::Up)
            &&& Reflog::scroll_of(ReflogKeys { move_down: true, ..none }) == Some(ScrollType::Down)
            &&& Reflog::scroll_of(ReflogKeys { home: true, ..none }) == Some(ScrollType::Home)
            &&& Reflog::scroll_of(ReflogKeys { end: true, ..none }) == Some(ScrollType::End)
            &&& Reflog::scroll_of(ReflogKeys { page_up: true, ..none }) == Some(ScrollType::PageUp)
            &&& Reflog::scroll_of(ReflogKeys { page_down: true, ..none }) == Some(
                ScrollType::PageDown,
            )
            &&& Reflog::scroll_of(keys) is None <==> !keys.move_up && !keys.move_down && !keys.home
                && !keys.end && !keys.page_up && !keys.page_down
        }),
{
}

/// The key that copies copies the full name of the selected commit; the key to the right
/// looks at that commit closely, where the details are shown. The key for the details
/// shows those of the selected commit, and hides them where they are shown. Without an
/// entry there is nothing to copy, to look at or to show.
pub proof fn law_keys_for_an_entry(tab: Reflog, entry: ReflogEntry, details_visible: bool)
    ensures
        ({
            let none = no_reflog_keys();
            let copy = ReflogKeys { copy: true, ..none };
            let right = ReflogKeys { move_right: true, ..none };
            &&& tab.entry() == Some(entry) ==> tab.still_request(copy, details_visible)
                == ReflogRequestView::Copy(entry.hash@)
            &&& tab.entry() == Some(entry) ==> tab.still_request(right, true)
                == ReflogRequestView::Inspect(entry.new_oid)
            &&& tab.still_request(right, false) is Nothing
            &&& tab.still_request(none, details_visible) is Nothing
            &&& tab.entry() is None ==> tab.still_request(copy, details_visible) is Nothing
                && tab.still_request(right, details_visible) is Nothing
            &&& tab.toggle_request(true) is HideDetails
            &&& tab.entry() == Some(entry) ==> tab.toggle_request(false)
                == ReflogRequestView::ShowDetails(entry.new_oid)
            &&& tab.entry() is None ==> tab.toggle_request(false) is Nothing
        }),
{
}

/// A tab that is not shown offers nothing, unless all commands are asked for. A commit is
/// looked at only from its details, and copied only where an entry is selected.
pub proof fn law_offered_commands(tab: Reflog, force_all: bool, details_visible: bool)
    ensures
        ({
            let list = tab.offered_commands(force_all, details_visible);
            &&& !tab.visible && !force_all <==> list.len() == 0
            &&& tab.visible || force_all ==> {
                &&& list.len() == 4
                &&& list[0].offer is Navigate && list[0].enabled && list[0].available == tab.visible
                &&& list[1].offer is ToggleDetails && list[1].enabled && list[1].available
                    == tab.visible
                &&& list[2].offer is OpenDetails && list[2].enabled
                &&& list[2].available <==> force_all || details_visible
                &&& list[3].offer is CopyHash && list[3].available
                &&& list[3].enabled <==> tab.selected < tab.entries@.len()
            }
        }),
{
}

/// The title tells how many entries there are, and how many are left from the selected one
/// on.
pub proof fn law_title(tab: Reflog, heading: &str, title: String)
    requires
        call_ensures(Reflog::title, (&tab, heading), title),
        tab.selected <= tab.entries@.len(),
    ensures
        title@ == heading@ + seq![' '] + text::decimal_text(
            (tab.entries@.len() - tab.selected) as nat,
        ) + seq!['/'] + text::decimal_text(tab.entries@.len()),
{
    reveal_strlit(" ");
    reveal_strlit("/");
    assert(" "@ =~= seq![' ']);
    assert("/"@ =~= seq!['/']);
}

/// Only a tab that is shown is updated, for what concerns it, and moves; and only with
/// keys that mean a move there.
pub proof fn law_hidden_tab(
    tab: Reflog,
    ev: GitNotification,
    updated: bool,
    keys: Option<ReflogKeys>,
    details_used: bool,
    scrolls: bool,
)
    requires
        call_ensures(Reflog::update_git, (&tab, ev), updated),
        call_ensures(Reflog::scrolls, (&tab, keys, details_used), scrolls),
    ensures
        !tab.visible ==> !updated && !scrolls,
        tab.visible ==> (updated <==> ev is Reflog || ev is CommitFiles),
        details_used || keys is None ==> !scrolls,
        keys matches Some(k) ==> scrolls ==> Reflog::scroll_of(k) is Some && !k.switch_tab
            && !k.exit_popup && !k.enter,
        keys matches Some(k) ==> tab.visible && !details_used && !k.switch_tab && !k.exit_popup
            && !k.enter && Reflog::scroll_of(k) is Some ==> scrolls,
{
}

/// A log with entries takes the place of the one that is shown. The entry at the same
/// place stays selected, or the last one where there are fewer; the first log is shown
/// from its first entry on. The details are those of the selected entry.
pub proof fn law_new_log(
    tab: &mut Reflog,
    status: FetchStatus,
    items: Vec<ReflogEntry>,
    details_visible: bool,
    r: Option<CommitId>,
)
    requires
        call_ensures(Reflog::update, (tab, status, items, details_visible), r),
        items@.len() > 0,
    ensures
        old(tab).visible ==> {
            let n = items@.len();
            let first = !old(tab).loaded && old(tab).entries@.len() == 0;
            &&& final(tab).entries@ == items@
            &&& final(tab).loaded
            &&& final(tab).selected < n
            &&& first ==> final(tab).selected == 0
            &&& !first && old(tab).selected < n ==> final(tab).selected == old(tab).selected
            &&& !first && old(tab).selected >= n ==> final(tab).selected == n - 1
            &&& details_visible ==> r == Some(items@[final(tab).selected as int].new_oid)
            &&& !details_visible ==> r is None
        },
        !old(tab).visible ==> *final(tab) == *old(tab) && r is None,
        final(tab).visible == old(tab).visible,
{
}

/// Without entries to show, the ones that are shown stay, unless they are being read anew;
/// the selection stays in any case.
pub proof fn law_no_new_log(
    tab: &mut Reflog,
    status: FetchStatus,
    items: Vec<ReflogEntry>,
    details_visible: bool,
    r: Option<CommitId>,
)
    requires
        call_ensures(Reflog::update, (tab, status, items, details_visible), r),
        items@.len() == 0,
    ensures
        final(tab).selected == old(tab).selected,
        final(tab).visible == old(tab).visible,
        old(tab).visible && status is Started ==> final(tab).entries@.len() == 0 && r is None,
        !(status is Started) ==> final(tab).entries@ == old(tab).entries@,
        old(tab).visible && old(tab).entries@.len() > 0 ==> final(tab).loaded,
        old(tab).loaded ==> final(tab).loaded,
{
}

/// A tab that is hidden uses no event, and one that is shown all but the keys that switch
/// tabs. What the details have used changes nothing. Only the keys that move change the
/// tab, and of it only the selection; the details follow it.
pub proof fn law_events(
    tab: &mut Reflog,
    keys: Option<ReflogKeys>,
    details_used: bool,
    details_visible: bool,
    speed: i64,
    r: ReflogEvent,
)
    requires
        call_ensures(Reflog::event, (tab, keys, details_used, details_visible, speed), r),
    ensures
        !old(tab).visible ==> !r.consumed,
        r.consumed ==> old(tab).visible,
        old(tab).visible && (details_used || keys is None) ==> r.consumed,
        !r.consumed || details_used || keys is None ==> *final(tab) == *old(tab) && r.request@
            is Nothing,
        old(tab).visible && !details_used ==> (keys matches Some(k) ==> r.consumed == !k.switch_tab),
        *final(tab) == (Reflog { selected: final(tab).selected, ..*old(tab) }),
        final(tab).selected != old(tab).selected ==> keys is Some && Reflog::scroll_of(keys->0)
            is Some,
        r.request@ matches ReflogRequestView::Details(id) ==> details_visible
            && final(tab).selected < final(tab).entries@.len()
            && final(tab).entries@[final(tab).selected as int].new_oid == id,
        r.request@ is HideDetails ==> details_visible,
        r.request@ matches ReflogRequestView::ShowDetails(id) ==> !details_visible && keys->0.enter,
        r.request@ is Copy ==> keys->0.copy,
        r.request@ is Inspect ==> keys->0.move_right && details_visible,
{
}

/// What single keys do in a tab that is shown.
pub proof fn law_single_keys(
    tab: &mut Reflog,
    keys: ReflogKeys,
    details_visible: bool,
    speed: i64,
    r: ReflogEvent,
)
    requires
        old(tab).visible,
        call_ensures(Reflog::event, (tab, Some(keys), false, details_visible, speed), r),
    ensures
        ({
            let none = no_reflog_keys();
            &&& keys == (ReflogKeys { exit_popup: true, ..none }) && details_visible ==> r.request@
                is HideDetails
            &&& keys == (ReflogKeys { exit_popup: true, ..none }) && !details_visible ==> r.request@
                is Nothing
            &&& keys == (ReflogKeys { enter: true, ..none }) ==> r.request@ == old(
                tab,
            ).toggle_request(details_visible)
            &&& keys == (ReflogKeys { copy: true, ..none }) ==> r.request@ == old(
                tab,
            ).still_request(keys, details_visible)
            &&& keys == (ReflogKeys { move_right: true, ..none }) ==> r.request@ == old(
                tab,
            ).still_request(keys, details_visible)
            &&& keys == (ReflogKeys { move_down: true, ..none }) ==> final(tab).selected == old(
                tab,
            ).target(ScrollType::Down, speed) as usize
            &&& keys == (ReflogKeys { move_up: true, ..none }) ==> final(tab).selected == old(
                tab,
            ).target(ScrollType::Up, speed) as usize
            &&& keys == none ==> *final(tab) == *old(tab) && r.request@ is Nothing
        }),
{
}

/// Where the tab is drawn: nowhere while it is hidden, in the whole area without the
/// details, and beside them in its share of the width.
pub proof fn law_areas(
    tab: Reflog,
    area: Area,
    details_visible: bool,
    left_ratio: u16,
    r: ReflogAreas,
)
    requires
        left_ratio <= 100,
        area.x + area.width <= u16::MAX,
        call_ensures(Reflog::draw, (&tab, area, details_visible, left_ratio), r),
    ensures
        r is Nothing <==> !tab.visible,
        tab.visible && !details_visible ==> r == ReflogAreas::Table(area),
        tab.visible && details_visible ==> r is Split,
        r matches ReflogAreas::Split(left, right) ==> {
            &&& left.x == area.x
            &&& left.x + left.width == right.x
            &&& right.x + right.width == area.x + area.width
            &&& left.width == layout::percent_of(area.width as int, left_ratio as int)
        },
{
    if let ReflogAreas::Split(left, right) = r {
        layout::law_columns_fill_area(area, left_ratio, (left, right));
        layout::law_percent(area.width as int, left_ratio as int);
    }
}

/// What the tab shows and asks for is seen as it is.
pub proof fn law_requests_are_seen_as_they_are(
    row: ReflogRow,
    note: String,
    rows: Vec<ReflogRow>,
    id: CommitId,
    i: int,
)
    ensures
        row@.role == row.role,
        row@.cells.len() == row.cells@.len(),
        0 <= i < row@.cells.len() ==> row@.cells[i] == row.cells@[i]@,
        ReflogBody::Note(note)@ == ReflogBodyView::Note(note@),
        ReflogBody::Rows(rows)@ == ReflogBodyView::Rows(text::views(rows@)),
        ReflogRequest::Nothing@ is Nothing,
        ReflogRequest::HideDetails@ is HideDetails,
        ReflogRequest::ShowDetails(id)@ == ReflogRequestView::ShowDetails(id),
        ReflogRequest::Details(id)@ == ReflogRequestView::Details(id),
        ReflogRequest::Inspect(id)@ == ReflogRequestView::Inspect(id),
        ReflogRequest::Copy(note)@ == ReflogRequestView::Copy(note@),
{
}

/// Of the meanings that a key is bound to the first one counts: up, down, the ends, and
/// then the pages; and to the right before copying.
pub proof fn law_first_meaning_counts(tab: Reflog, keys: ReflogKeys, entry: ReflogEntry)
    ensures
        keys.move_up ==> Reflog::scroll_of(keys) == Some(ScrollType::Up),
        !keys.move_up && keys.move_down ==> Reflog::scroll_of(keys) == Some(ScrollType::Down),
        !keys.move_up && !keys.move_down && keys.home ==> Reflog::scroll_of(keys) == Some(
            ScrollType::Home,
        ),
        !keys.move_up && !keys.move_down && !keys.home && keys.end ==> Reflog::scroll_of(keys)
            == Some(ScrollType::End),
        !keys.move_up && !keys.move_down && !keys.home && !keys.end && keys.page_up
            ==> Reflog::scroll_of(keys) == Some(ScrollType::PageUp),
        tab.entry() == Some(entry) && keys.move_right ==> tab.still_request(keys, true)
            == ReflogRequestView::Inspect(entry.new_oid),
        tab.entry() == Some(entry) && keys.copy ==> tab.still_request(keys, false)
            == ReflogRequestView::Copy(entry.hash@),
{
}

} // verus!

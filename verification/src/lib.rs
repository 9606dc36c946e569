//! The logic of a terminal interface to git: diffs and how they are shown,
//! searching and staging, work in the background, and the popups and tabs
//! around them.
//!
//! Nothing here touches a repository, a terminal or another program. What those
//! tell comes in as plain values; what is to be asked of them goes out as plain
//! values.
//!
//! - [`text`], [`style`], [`themed`], [`selection`], [`layout`]: text, styled
//!   text, text in the roles of a theme, what is selected, and areas of the
//!   screen.
//! - [`diff`], [`hunks`], [`side_by_side`], [`stage_untracked`]: the lines that
//!   git prints, sorted into hunks and rows, and staging some of them.
//! - [`ansi`], [`delta`]: the coloured output of the program `delta`, how it is
//!   obtained, and the lines of the diff behind it.
//! - [`diff_component`], [`diff_actions`], [`diff_view`], [`diff_draw`]: the
//!   component that shows a diff.
//! - [`commit_filter`], [`commit_files`], [`linestats`], [`async_reflog`]:
//!   searching commits, and reading in the background.
//! - [`reflog_tab`], [`copy_path`], [`external_editor`], [`msg`]: a tab and the
//!   popups.
//! - [`version`]: the name of a build.
pub mod ansi;
pub mod async_reflog;
pub mod commit_files;
pub mod commit_filter;
pub mod copy_path;
pub mod delta;
pub mod diff;
pub mod diff_actions;
pub mod diff_component;
pub mod diff_draw;
pub mod diff_view;
pub mod external_editor;
pub mod hunks;
pub mod layout;
pub mod linestats;
pub mod msg;
pub mod reflog_tab;
pub mod selection;
pub mod side_by_side;
pub mod stage_untracked;
pub mod style;
pub mod text;
pub mod themed;
pub mod version;

use vstd::prelude::*;
use vstd::string::*;

use crate::section_view::{added_text, removed_text};
use crate::state::{RightSidebarView, Sidebar};
use crate::text::{concat_text, decimal_text};

verus! {

/// One tab of the sidebar's header.
#[derive(Clone, Copy, Debug)]
pub struct TabOption {
    pub label: &'static str,
    pub tooltip: &'static str,
}

/// Everything that the sidebar's header shows.
pub struct HeaderBar {
    pub tabs: [TabOption; 3],
    /// The tab that is shown, by its place.
    pub selected: usize,
    /// The lines of the loaded diff.
    pub totals: Option<(String, String)>,
    /// The control that collapses all directories.
    pub collapse_all: Option<HeaderControl>,
    /// The control that makes a new file in the root.
    pub new_file: Option<HeaderControl>,
}

/// A control of the header.
#[derive(Clone, Copy, Debug)]
pub struct HeaderControl {
    pub id: &'static str,
    pub glyph: &'static str,
    pub tooltip: &'static str,
}

impl HeaderControl {
    pub open spec fn reads(self, id: Seq<char>, glyph: Seq<char>, tooltip: Seq<char>) -> bool {
        self.id@ == id && self.glyph@ == glyph && self.tooltip@ == tooltip
    }
}

/// What the sidebar is drawn as below its header.
#[derive(Clone, Copy, Debug, PartialEq, Eq, Structural)]
pub enum SidebarLayout {
    /// The graph has the whole panel.
    Graph,
    Files { rename_hint: bool },
    Search,
    Changes { row_error: bool, stage_hint: bool, seen_hint: bool, author_hint: bool },
}

pub open spec fn tab_of(view: RightSidebarView) -> int {
    match view {
        RightSidebarView::Files => 0,
        RightSidebarView::Search => 1,
        RightSidebarView::Changes => 2,
    }
}

/// The view behind the tab at `index`.
pub fn view_at(index: usize) -> (view: RightSidebarView)
    ensures
        view == if index == 1 {
            RightSidebarView::Search
        } else if index == 2 {
            RightSidebarView::Changes
        } else {
            RightSidebarView::Files
        },
{
    if index == 1 {
        RightSidebarView::Search
    } else if index == 2 {
        RightSidebarView::Changes
    } else {
        RightSidebarView::Files
    }
}

/// A click on the tab of a view leads to that view.
pub proof fn law_tabs_lead_to_their_views(view: RightSidebarView)
    ensures
        view == if tab_of(view) == 1 {
            RightSidebarView::Search
        } else if tab_of(view) == 2 {
            RightSidebarView::Changes
        } else {
            RightSidebarView::Files
        },
{
}

impl Sidebar {
    /// What the sidebar's header shows, with the lines of the loaded diff.
    pub fn header_bar(&self, totals: Option<(usize, usize)>) -> (bar: HeaderBar)
        ensures
            bar.tabs@[0].label@ == "Files"@,
            bar.tabs@[0].tooltip@ == "Files \u{2014} the file tree for this worktree"@,
            bar.tabs@[1].label@ == "Search"@,
            bar.tabs@[1].tooltip@ == "Search \u{2014} find in this worktree"@,
            bar.tabs@[2].label@ == "Changes"@,
            bar.tabs@[2].tooltip@
                == "Changes \u{2014} runs, uncommitted, commits and the branch diff"@,
            bar.selected == tab_of(self.view),
            bar.totals is Some == totals is Some,
            bar.totals matches Some(texts) ==> (totals matches Some((added, removed)) && texts.0@
                == added_text(added as nat) && texts.1@ == removed_text(removed as nat)),
            bar.collapse_all is Some == self.view is Files,
            bar.collapse_all matches Some(control) ==> control.reads(
                "file-tree-collapse-all"@,
                "\u{25be}"@,
                "Collapse all folders (also clears the saved fold state)"@,
            ),
            bar.new_file is Some == self.view is Files,
            bar.new_file matches Some(control) ==> control.reads(
                "file-tree-new-file-root"@,
                "+"@,
                "New file in worktree root"@,
            ),
    {
        let files = TabOption {
            label: "Files",
            tooltip: "Files \u{2014} the file tree for this worktree",
        };
        let search = TabOption {
            label: "Search",
            tooltip: "Search \u{2014} find in this worktree",
        };
        let changes = TabOption {
            label: "Changes",
            tooltip: "Changes \u{2014} runs, uncommitted, commits and the branch diff",
        };
        let selected: usize = match self.view {
            RightSidebarView::Files => 0,
            RightSidebarView::Search => 1,
            RightSidebarView::Changes => 2,
        };
        let shows_files = self.view == RightSidebarView::Files;
        HeaderBar {
            tabs: [files, search, changes],
            selected,
            totals: match totals {
                Some((added, removed)) => Some(
                    (
                        concat_text("+", decimal_text(added as u64).as_str()),
                        concat_text("\u{2212}", decimal_text(removed as u64).as_str()),
                    ),
                ),
                None => None,
            },
            collapse_all: if shows_files {
                Some(
                    HeaderControl {
                        id: "file-tree-collapse-all",
                        glyph: "\u{25be}",
                        tooltip: "Collapse all folders (also clears the saved fold state)",
                    },
                )
            } else {
                None
            },
            new_file: if shows_files {
                Some(
                    HeaderControl {
                        id: "file-tree-new-file-root",
                        glyph: "+",
                        tooltip: "New file in worktree root",
                    },
                )
            } else {
                None
            },
        }
    }

    /// What the sidebar is drawn as below its header. Each hint shows exactly
    /// while what it names would do something.
    pub fn sidebar_layout(
        &self,
        graph_active: bool,
        several_agents: bool,
        shows_author: &[bool],
    ) -> (layout: SidebarLayout)
        ensures
            layout == if graph_active {
                SidebarLayout::Graph
            } else {
                match self.view {
                    RightSidebarView::Files => SidebarLayout::Files {
                        rename_hint: self.inline_edit is None,
                    },
                    RightSidebarView::Search => SidebarLayout::Search,
                    RightSidebarView::Changes => SidebarLayout::Changes {
                        row_error: self.changes.row_error is Some,
                        stage_hint: self.changes.open_uncommitted() is Some,
                        seen_hint: self.changes.open_uncommitted() is Some,
                        author_hint: several_agents && shows_author@.contains(true),
                    },
                }
            },
    {
        if graph_active {
            return SidebarLayout::Graph;
        }
        match self.view {
            RightSidebarView::Files => SidebarLayout::Files {
                rename_hint: self.inline_edit.is_none(),
            },
            RightSidebarView::Search => SidebarLayout::Search,
            RightSidebarView::Changes => SidebarLayout::Changes {
                row_error: self.changes.row_error.is_some(),
                stage_hint: self.changes.change_stage_toggle_live(),
                seen_hint: self.changes.change_seen_toggle_live(),
                author_hint: self.changes.change_author_filter_live(several_agents, shows_author),
            },
        }
    }
}

} // verus!

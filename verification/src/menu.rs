//! The interactive paginated menu: a small state machine over the list of
//! discovered projects, with pure rendering of labels and frames.
//!
//! The surrounding binary owns the terminal: it reads keys, maps them to
//! [`MenuEvent`] values, writes the rendered frames, and performs the actual
//! artifact removal, handing the per-path outcomes back to
//! [`Menu::run_action`].

use vstd::prelude::*;

use crate::fstree::FsNode;
use crate::project::{spec_report, spec_type_string, Project, ProjectType, RemoveOutcome};
use crate::strutil::{
    dec_str, pad_left, pad_right, push_dec_u64, sat_add_usize, spec_join_from, spec_join_path,
    spec_pad_left, spec_pad_right, spec_sat_usize, u64_to_string,
};

verus! {

/// Control sequence that clears the screen and homes the cursor.
pub const ANSI_CLEAR_SCREEN: &'static str = "\x1b[H\x1b[J\x1b[H";

/// Path components kept when paths are shown truncated.
pub const MIN_PATH_COMPONENTS: usize = 3;

/// Padding after the longest path in a wide window.
pub const PATH_PAD: usize = 10;

/// Padding after the longest path in a narrow window.
pub const PATH_PAD_SM: usize = 2;

/// Padding after the longest kind name in a wide window.
pub const PROJECT_TYPE_PAD: usize = 3;

/// Padding after the longest kind name in a narrow window.
pub const PROJECT_TYPE_PAD_SM: usize = 2;

/// Fixed width of the recency column.
pub const LAST_MOD_WIDTH: usize = 10;

/// Fixed width of the size column.
pub const RM_SIZE_WIDTH: usize = 15;

/// How much narrower a row gets when the narrow paddings are used.
pub const SMALL_WIN_DIFF: usize = PATH_PAD - PATH_PAD_SM + PROJECT_TYPE_PAD - PROJECT_TYPE_PAD_SM;

/// A key event the menu reacts to, as the surrounding binary maps it.
pub enum MenuEvent {
    /// Move the selection up one row.
    Up,
    /// Move the selection down one row.
    Down,
    /// Go to the previous page.
    Left,
    /// Go to the next page.
    Right,
    /// Any key without a meaning here.
    Other,
}

/// What activating a menu item does.
pub enum MenuAction {
    /// Delete the artifacts of this project.
    Delete(Project),
}

/// One row of the menu: a rendered label and the action behind it.
pub struct MenuItem {
    /// The rendered row text.
    pub label: String,
    /// The action activated on this row.
    pub action: MenuAction,
}

impl MenuItem {
    /// The project behind this row is internally consistent.
    pub open spec fn wf(self) -> bool {
        match self.action {
            MenuAction::Delete(p) => p.wf(),
        }
    }

    /// Builds a row from a label and an action.
    pub fn new(label: &str, action: MenuAction) -> (r: MenuItem)
        ensures
            r.label@ == label@,
            r.action == action,
    {
        MenuItem { label: String::from_str(label), action }
    }
}

/// `s` wrapped in the control sequence selecting 256-color foreground
/// `color`, with the reset to the default foreground after it.
pub open spec fn spec_color256(s: Seq<char>, color: u64) -> Seq<char> {
    "\x1b[38;5;"@ + dec_str(color as nat) + "m"@ + s + "\x1b[39m"@
}

/// `s` wrapped in the control sequences for SGR attributes `open` and
/// `close`.
pub open spec fn spec_sgr_wrap(s: Seq<char>, open: u64, close: u64) -> Seq<char> {
    "\x1b["@ + dec_str(open as nat) + "m"@ + s + "\x1b["@ + dec_str(close as nat) + "m"@
}

/// Wraps `input` in the 256-color foreground sequence for `color`.
pub fn apply_color256(input: &str, color: u64) -> (r: String)
    ensures
        r@ == spec_color256(input@, color),
{
    let mut s = String::from_str("\x1b[38;5;");
    push_dec_u64(color, &mut s);
    s.append("m");
    s.append(input);
    s.append("\x1b[39m");
    proof {
        assert(s@ =~= spec_color256(input@, color));
    }
    s
}

/// Wraps `s` in the SGR sequences for attributes `open` and `close`.
pub fn sgr_seq_wrap(s: &str, open: u64, close: u64) -> (r: String)
    ensures
        r@ == spec_sgr_wrap(s@, open, close),
{
    let mut r = String::from_str("\x1b[");
    push_dec_u64(open, &mut r);
    r.append("m");
    r.append(s);
    r.append("\x1b[");
    push_dec_u64(close, &mut r);
    r.append("m");
    proof {
        assert(r@ =~= spec_sgr_wrap(s@, open, close));
    }
    r
}

/// The 256-color code shown for each project kind.
pub open spec fn spec_type_color(t: ProjectType) -> u64 {
    match t {
        ProjectType::Cargo => 221,
        ProjectType::Composer => 208,
        ProjectType::Dotnet => 171,
        ProjectType::Golang => 81,
        ProjectType::Gradle => 42,
        ProjectType::Misc => 147,
        ProjectType::Mix => 98,
        ProjectType::Node => 34,
    }
}

/// The color of the recency column: red for unknown or half a year old,
/// yellow beyond a month, green otherwise.
pub open spec fn spec_last_mod_color(lm: Option<u64>) -> u64 {
    match lm {
        Some(days) => if days > 180 {
            1
        } else if days > 30 {
            3
        } else {
            2
        },
        None => 1,
    }
}

/// The color of the size column: red beyond a gigabyte, yellow beyond a
/// hundred megabytes, green otherwise.
pub open spec fn spec_rm_size_color(size: u64) -> u64 {
    if size > 1000_000_000 {
        1
    } else if size > 100_000_000 {
        3
    } else {
        2
    }
}

/// The recency column text: the day count, or `unknown`.
pub open spec fn spec_last_mod_str(lm: Option<u64>) -> Seq<char> {
    match lm {
        Some(days) => dec_str(days as nat) + " days"@,
        None => "unknown"@,
    }
}

/// The path as displayed: whole, or its last [`MIN_PATH_COMPONENTS`]
/// components behind `../` when truncation is on and the path is longer.
pub open spec fn spec_disp_path(p: Project, truncate: bool) -> Seq<char> {
    if truncate && p.path@.len() > MIN_PATH_COMPONENTS {
        "../"@ + spec_join_from(p.path.deep_view(), p.path@.len() - MIN_PATH_COMPONENTS)
    } else {
        spec_join_path(p.path.deep_view())
    }
}

/// A menu row for `p`, with `size_text` in the size column: the padded
/// path, then the kind, recency and size columns, each padded and colored.
pub open spec fn spec_label_with_size(
    p: Project,
    size_text: Seq<char>,
    path_width: nat,
    p_type_width: nat,
    truncate: bool,
) -> Seq<char> {
    spec_pad_right(spec_disp_path(p, truncate), path_width) + spec_color256(
        spec_pad_right(spec_type_string(p), p_type_width),
        spec_type_color(p.project_type),
    ) + spec_color256(
        spec_pad_left(spec_last_mod_str(p.last_modified), LAST_MOD_WIDTH as nat),
        spec_last_mod_color(p.last_modified),
    ) + spec_color256(
        spec_pad_left(size_text, RM_SIZE_WIDTH as nat),
        spec_rm_size_color(p.rm_size),
    )
}

/// A menu row for `p`, showing its stored size label.
pub open spec fn spec_label(
    p: Project,
    path_width: nat,
    p_type_width: nat,
    truncate: bool,
) -> Seq<char> {
    spec_label_with_size(p, p.rm_size_str@, path_width, p_type_width, truncate)
}

/// Builds a menu row for `p` with `size_text` in the size column.
fn label_with_size_text(
    p: &Project,
    size_text: &str,
    path_width: usize,
    p_type_width: usize,
    truncate_paths: bool,
) -> (r: String)
    requires
        p.wf(),
    ensures
        r@ == spec_label_with_size(
            *p,
            size_text@,
            path_width as nat,
            p_type_width as nat,
            truncate_paths,
        ),
{
    let disp_path = if truncate_paths {
        p.trunc_path_string(MIN_PATH_COMPONENTS)
    } else {
        p.path_string()
    };
    let last_modified: String = match p.last_modified {
        Some(days) => {
            let mut lm = u64_to_string(days);
            lm.append(" days");
            lm
        },
        None => String::from_str("unknown"),
    };
    let type_str = p.type_string();
    let mut r = pad_right(disp_path.as_str(), path_width);
    let colored_type = apply_color256(
        pad_right(type_str.as_str(), p_type_width).as_str(),
        type_color(p.project_type),
    );
    r.append(colored_type.as_str());
    let colored_lm = apply_color256(
        pad_left(last_modified.as_str(), LAST_MOD_WIDTH).as_str(),
        last_mod_color(p.last_modified),
    );
    r.append(colored_lm.as_str());
    let colored_size = apply_color256(
        pad_left(size_text, RM_SIZE_WIDTH).as_str(),
        rm_size_color(p.rm_size),
    );
    r.append(colored_size.as_str());
    proof {
        assert(r@ =~= spec_label_with_size(
            *p,
            size_text@,
            path_width as nat,
            p_type_width as nat,
            truncate_paths,
        ));
    }
    r
}

/// The 256-color code of a kind, as [`spec_type_color`] gives it.
fn type_color(t: ProjectType) -> (r: u64)
    ensures
        r == spec_type_color(t),
{
    match t {
        ProjectType::Cargo => 221,
        ProjectType::Composer => 208,
        ProjectType::Dotnet => 171,
        ProjectType::Golang => 81,
        ProjectType::Gradle => 42,
        ProjectType::Misc => 147,
        ProjectType::Mix => 98,
        ProjectType::Node => 34,
    }
}

/// The recency color, as [`spec_last_mod_color`] gives it.
fn last_mod_color(lm: Option<u64>) -> (r: u64)
    ensures
        r == spec_last_mod_color(lm),
{
    match lm {
        Some(days) => if days > 180 {
            1
        } else if days > 30 {
            3
        } else {
            2
        },
        None => 1,
    }
}

/// The size color, as [`spec_rm_size_color`] gives it.
fn rm_size_color(size: u64) -> (r: u64)
    ensures
        r == spec_rm_size_color(size),
{
    if size > 1000_000_000 {
        1
    } else if size > 100_000_000 {
        3
    } else {
        2
    }
}

/// Builds the menu row shown for a project.
pub fn create_label(
    project: &Project,
    path_width: usize,
    p_type_width: usize,
    truncate_paths: bool,
) -> (r: String)
    requires
        project.wf(),
    ensures
        r@ == spec_label(*project, path_width as nat, p_type_width as nat, truncate_paths),
{
    label_with_size_text(
        project,
        project.rm_size_str.as_str(),
        path_width,
        p_type_width,
        truncate_paths,
    )
}

/// The menu state machine: pagination and selection over the item list,
/// an optional title and status message, and the layout parameters the
/// labels were built with.
pub struct Menu {
    /// The header printed above the rows, once set.
    pub title: Option<String>,
    /// The rows, one per project.
    pub items: Vec<MenuItem>,
    /// Index into `items` of the selected row.
    pub selected_item: usize,
    /// The page currently shown.
    pub selected_page: usize,
    /// Rows per page, derived from the terminal height; at least one.
    pub items_per_page: usize,
    /// Number of pages.
    pub num_pages: usize,
    /// Index of the first row of the current page.
    pub page_start: usize,
    /// Index of the last row of the current page.
    pub page_end: usize,
    /// Whether delete reports are shown as a status message.
    pub verbose: bool,
    /// The status message under the menu, if any.
    pub message: Option<String>,
    /// Width of the path column the labels were built with.
    pub path_width: usize,
    /// Width of the kind column the labels were built with.
    pub p_type_width: usize,
    /// Whether the labels show truncated paths.
    pub truncate_paths: bool,
}

impl Menu {
    /// The pagination state is internally consistent: at least one item
    /// and one row per page, the page count covers the items, the current
    /// page is in range, its boundaries are derived from it, the selection
    /// lies on the current page, and every row's project is well-formed.
    pub open spec fn wf(self) -> bool {
        &&& self.items@.len() >= 1
        &&& self.items_per_page >= 1
        &&& self.num_pages == (self.items@.len() - 1) / (self.items_per_page as int) + 1
        &&& self.selected_page < self.num_pages
        &&& self.page_start == self.selected_page * self.items_per_page
        &&& self.page_start <= self.items@.len() - 1
        &&& self.page_end == if self.items@.len() > self.page_start + self.items_per_page {
            self.page_start + self.items_per_page - 1
        } else {
            self.items@.len() - 1
        }
        &&& self.page_start <= self.selected_item <= self.page_end
        &&& forall|k: int| 0 <= k < self.items@.len() ==> (#[trigger] self.items@[k]).wf()
    }

    /// Rows per page for a terminal of `height` rows: the height minus the
    /// reserved rows (more when verbose, for the status message), floored
    /// at one so degenerate terminals still work.
    pub open spec fn spec_items_per_page(height: nat, verbose: bool) -> nat {
        let reserved: nat = if verbose {
            9
        } else {
            6
        };
        if height > reserved {
            (height - reserved) as nat
        } else {
            1
        }
    }

    /// The state after jumping to `page`: the page's first row becomes the
    /// selection, and the page's boundaries are recomputed.
    pub open spec fn spec_set_page(m: Menu, page: nat) -> Menu
        recommends
            m.wf(),
            page < m.num_pages,
    {
        let start = page * (m.items_per_page as nat);
        let end = if m.items@.len() > start + m.items_per_page {
            start + m.items_per_page - 1
        } else {
            m.items@.len() - 1
        };
        Menu {
            selected_page: page as usize,
            page_start: start as usize,
            selected_item: start as usize,
            page_end: end as usize,
            ..m
        }
    }

    /// The state after one navigation event.
    ///
    /// Up moves the selection up one row, or to the last row of the
    /// previous page from the top of a page; Down moves it down one row,
    /// or to the first row of the next page from the bottom of a page;
    /// Left and Right switch pages, selecting the new page's first row;
    /// at the edges, and on any other event, nothing changes.
    pub open spec fn spec_navigate(m: Menu, ev: MenuEvent) -> Menu
        recommends
            m.wf(),
    {
        match ev {
            MenuEvent::Up => {
                if m.selected_item != m.page_start {
                    Menu { selected_item: (m.selected_item - 1) as usize, ..m }
                } else if m.selected_page != 0 {
                    let m2 = Self::spec_set_page(m, (m.selected_page - 1) as nat);
                    Menu { selected_item: m2.page_end, ..m2 }
                } else {
                    m
                }
            },
            MenuEvent::Down => {
                if m.selected_item < m.page_end {
                    Menu { selected_item: (m.selected_item + 1) as usize, ..m }
                } else if m.selected_page + 1 < m.num_pages {
                    Self::spec_set_page(m, (m.selected_page + 1) as nat)
                } else {
                    m
                }
            },
            MenuEvent::Left => {
                if m.selected_page != 0 {
                    Self::spec_set_page(m, (m.selected_page - 1) as nat)
                } else {
                    m
                }
            },
            MenuEvent::Right => {
                if m.selected_page + 1 < m.num_pages {
                    Self::spec_set_page(m, (m.selected_page + 1) as nat)
                } else {
                    m
                }
            },
            MenuEvent::Other => m,
        }
    }

    /// Builds the menu over `items` for a terminal of `term_height` rows:
    /// page zero, first row selected, no title and no message yet.
    pub fn new(
        items: Vec<MenuItem>,
        path_width: usize,
        p_type_width: usize,
        truncate_paths: bool,
        verbose: bool,
        term_height: usize,
    ) -> (r: Menu)
        requires
            items@.len() >= 1,
            forall|k: int| 0 <= k < items@.len() ==> (#[trigger] items@[k]).wf(),
        ensures
            r.wf(),
            r.items == items,
            r.title is None,
            r.message is None,
            r.verbose == verbose,
            r.path_width == path_width,
            r.p_type_width == p_type_width,
            r.truncate_paths == truncate_paths,
            r.items_per_page == Self::spec_items_per_page(term_height as nat, verbose),
            r.num_pages == (items@.len() - 1) / (r.items_per_page as int) + 1,
            r.selected_page == 0,
            r.selected_item == 0,
            r.page_start == 0,
    {
        let reserved: usize = if verbose {
            9
        } else {
            6
        };
        let items_per_page: usize = if term_height > reserved {
            term_height - reserved
        } else {
            1
        };
        proof {
            vstd::arithmetic::div_mod::lemma_div_nonincreasing(
                items@.len() - 1,
                items_per_page as int,
            );
        }
        let num_pages = ((items.len() - 1) / items_per_page) + 1;
        let page_end = if items.len() > items_per_page {
            items_per_page - 1
        } else {
            items.len() - 1
        };
        Menu {
            title: None,
            items,
            selected_item: 0,
            selected_page: 0,
            items_per_page,
            num_pages,
            page_start: 0,
            page_end,
            verbose,
            message: None,
            path_width,
            p_type_width,
            truncate_paths,
        }
    }

    /// Sets the header printed above the rows.
    pub fn title(&mut self, title: &str)
        ensures
            final(self).title is Some,
            final(self).title->0@ == title@,
            *final(self) == (Menu { title: final(self).title, ..*old(self) }),
    {
        self.title = Some(String::from_str(title));
    }

    /// Jumps to `page`, as [`Menu::spec_set_page`] describes.
    pub fn set_page(&mut self, page: usize)
        requires
            old(self).wf(),
            page < old(self).num_pages,
        ensures
            *final(self) == Self::spec_set_page(*old(self), page as nat),
            final(self).wf(),
    {
        let n = self.items.len();
        proof {
            lemma_page_start_bound(n as int, self.items_per_page as int, page as int);
        }
        self.selected_page = page;
        self.page_start = page * self.items_per_page;
        self.selected_item = self.page_start;
        if self.items.len() - self.page_start > self.items_per_page {
            self.page_end = self.page_start + self.items_per_page - 1;
        } else {
            self.page_end = self.items.len() - 1;
        }
    }

    /// Marks the selected row as busy: its label is rebuilt with a
    /// placeholder in the size column, so that a redraw makes the pending
    /// deletion's latency visible.
    pub fn set_working(&mut self)
        requires
            old(self).wf(),
        ensures
            final(self).wf(),
            final(self).items@.len() == old(self).items@.len(),
            forall|k: int|
                0 <= k < old(self).items@.len() && k != old(self).selected_item ==> final(self).items@[k] == old(self).items@[k],
            final(self).items@[old(self).selected_item as int].action == old(self).items@[old(self).selected_item as int].action,
            final(self).items@[old(self).selected_item as int].label@ == (match old(self).items@[old(self).selected_item as int].action {
                MenuAction::Delete(p) => spec_label_with_size(
                    p,
                    "working..."@,
                    old(self).path_width as nat,
                    old(self).p_type_width as nat,
                    old(self).truncate_paths,
                ),
            }),
            *final(self) == (Menu { items: final(self).items, ..*old(self) }),
    {
        let idx = self.selected_item;
        let item = self.items.remove(idx);
        let MenuItem { label: _, action } = item;
        let label = match &action {
            MenuAction::Delete(project) => label_with_size_text(
                project,
                "working...",
                self.path_width,
                self.p_type_width,
                self.truncate_paths,
            ),
        };
        self.items.insert(idx, MenuItem { label, action });
        proof {
            assert(self.items@ =~= old(self).items@.update(
                old(self).selected_item as int,
                self.items@[old(self).selected_item as int],
            ));
        }
    }

    /// Runs the delete action of row `action_idx`: applies the removal
    /// outcomes to that row's project — recomputing its derived fields
    /// from `dir`, the snapshot of the project root after the removal
    /// attempts — rebuilds the row's label, and, when verbose, replaces
    /// the status message with the delete report.
    pub fn run_action(&mut self, action_idx: usize, outcomes: &Vec<RemoveOutcome>, dir: &FsNode)
        requires
            old(self).wf(),
            action_idx < old(self).items@.len(),
            outcomes@.len() == (match old(self).items@[action_idx as int].action {
                MenuAction::Delete(p) => p.rm_paths@.len(),
            }),
        ensures
            final(self).wf(),
            final(self).items@.len() == old(self).items@.len(),
            forall|k: int|
                0 <= k < old(self).items@.len() && k != action_idx ==> final(self).items@[k] == old(self).items@[k],
            match (old(self).items@[action_idx as int].action, final(self).items@[action_idx as int].action) {
                (MenuAction::Delete(p), MenuAction::Delete(q)) => {
                    &&& q.path == p.path
                    &&& q.project_type == p.project_type
                    &&& q.rm_paths == p.rm_paths
                    &&& q.sized_against(*dir)
                    &&& final(self).items@[action_idx as int].label@ == spec_label(
                        q,
                        old(self).path_width as nat,
                        old(self).p_type_width as nat,
                        old(self).truncate_paths,
                    )
                    &&& old(self).verbose && p.rm_paths@.len() > 0 ==> final(self).message is Some
                        && final(self).message->0@ == spec_report(
                        p.path.deep_view(),
                        p.rm_paths.deep_view(),
                        outcomes@,
                    )
                    &&& old(self).verbose && p.rm_paths@.len() == 0 ==> final(self).message is None
                    &&& !old(self).verbose ==> final(self).message == old(self).message
                },
            },
            *final(self) == (Menu { items: final(self).items, message: final(self).message, ..*old(self) }),
    {
        let item = self.items.remove(action_idx);
        let MenuItem { label: _, action } = item;
        let MenuAction::Delete(mut project) = action;
        let message = project.delete(outcomes, dir);
        if self.verbose {
            self.message = message;
        }
        let label = create_label(
            &project,
            self.path_width,
            self.p_type_width,
            self.truncate_paths,
        );
        self.items.insert(action_idx, MenuItem { label, action: MenuAction::Delete(project) });
    }

    /// Applies one navigation event, as [`Menu::spec_navigate`] describes.
    pub fn navigate(&mut self, ev: MenuEvent)
        requires
            old(self).wf(),
        ensures
            *final(self) == Self::spec_navigate(*old(self), ev),
            final(self).wf(),
    {
        match ev {
            MenuEvent::Up => {
                if self.selected_item != self.page_start {
                    self.selected_item = self.selected_item - 1;
                } else if self.selected_page != 0 {
                    let page = self.selected_page - 1;
                    self.set_page(page);
                    self.selected_item = self.page_end;
                }
            },
            MenuEvent::Down => {
                if self.selected_item < self.page_end {
                    self.selected_item = self.selected_item + 1;
                } else if self.selected_page + 1 < self.num_pages {
                    let page = self.selected_page + 1;
                    self.set_page(page);
                }
            },
            MenuEvent::Left => {
                if self.selected_page != 0 {
                    let page = self.selected_page - 1;
                    self.set_page(page);
                }
            },
            MenuEvent::Right => {
                if self.selected_page + 1 < self.num_pages {
                    let page = self.selected_page + 1;
                    self.set_page(page);
                }
            },
            MenuEvent::Other => {},
        }
    }
}

/// The key-binding help line shown above the menu.
pub const MENU_CONTROLS: &'static str =
    "  \u{2193},\u{2191},\u{2190},\u{2192}: select project |  enter: delete artifacts |  q: quit\n";

/// The rows of the current page, from item `from` to item `end`, each on
/// its own line, with the selected row emphasized and prefixed by a
/// pointer.
pub open spec fn spec_rows(items: Seq<MenuItem>, from: int, end: int, selected: int) -> Seq<char>
    decreases end + 1 - from,
{
    if from < 0 || from > end || end >= items.len() {
        Seq::empty()
    } else {
        let line = if from == selected {
            spec_sgr_wrap("> "@ + items[from].label@, 1, 22)
        } else {
            "  "@ + items[from].label@
        };
        line + "\n"@ + spec_rows(items, from + 1, end, selected)
    }
}

/// One whole frame of the menu: clear the screen, print the help line and
/// title when a title is set, the current page's rows, the page
/// indicator, and the status message when one is set.
pub open spec fn spec_render(m: Menu) -> Seq<char> {
    let header = match m.title {
        Some(t) => spec_sgr_wrap(MENU_CONTROLS@, 2, 22) + "\n"@ + spec_sgr_wrap(t@, 1, 22) + "\n"@,
        None => Seq::<char>::empty(),
    };
    let tail = match m.message {
        Some(msg) => spec_color256("\n"@ + msg@, 9) + "\n"@,
        None => Seq::<char>::empty(),
    };
    ANSI_CLEAR_SCREEN@ + header + spec_rows(
        m.items@,
        m.page_start as int,
        m.page_end as int,
        m.selected_item as int,
    ) + "Page "@ + dec_str((m.selected_page + 1) as nat) + " of "@ + dec_str(m.num_pages as nat)
        + "\n"@ + tail
}

/// Appends the rows from item `from` to item `end` to `s`.
fn push_rows_from(items: &Vec<MenuItem>, from: usize, end: usize, selected: usize, s: &mut String)
    requires
        end < items@.len(),
    ensures
        final(s)@ == old(s)@ + spec_rows(items@, from as int, end as int, selected as int),
    decreases end + 1 - from,
{
    if from > end {
        proof {
            assert(s@ =~= old(s)@ + spec_rows(items@, from as int, end as int, selected as int));
        }
        return;
    }
    let _n = items.len();
    if from == selected {
        let mut line = String::from_str("> ");
        line.append(items[from].label.as_str());
        let wrapped = sgr_seq_wrap(line.as_str(), 1, 22);
        s.append(wrapped.as_str());
    } else {
        s.append("  ");
        s.append(items[from].label.as_str());
    }
    s.append("\n");
    push_rows_from(items, from + 1, end, selected, s);
    proof {
        assert(s@ =~= old(s)@ + spec_rows(items@, from as int, end as int, selected as int));
    }
}

impl Menu {
    /// Renders one whole frame, as [`spec_render`] describes: the caller
    /// writes it to the terminal after every transition.
    pub fn render(&self) -> (r: String)
        requires
            self.wf(),
        ensures
            r@ == spec_render(*self),
    {
        let mut s = String::from_str(ANSI_CLEAR_SCREEN);
        match &self.title {
            Some(t) => {
                let controls = sgr_seq_wrap(MENU_CONTROLS, 2, 22);
                s.append(controls.as_str());
                s.append("\n");
                let title_line = sgr_seq_wrap(t.as_str(), 1, 22);
                s.append(title_line.as_str());
                s.append("\n");
            },
            None => {},
        }
        push_rows_from(&self.items, self.page_start, self.page_end, self.selected_item, &mut s);
        s.append("Page ");
        let page_no: u64 = (self.selected_page as u64) + 1;
        push_dec_u64(page_no, &mut s);
        s.append(" of ");
        push_dec_u64(self.num_pages as u64, &mut s);
        s.append("\n");
        match &self.message {
            Some(msg) => {
                let mut tail = String::from_str("\n");
                tail.append(msg.as_str());
                let colored = apply_color256(tail.as_str(), 9);
                s.append(colored.as_str());
                s.append("\n");
            },
            None => {},
        }
        proof {
            assert(s@ =~= spec_render(*self));
        }
        s
    }
}

/// A page index within the page count starts a page within the items:
/// `page * ipp` stays at most `len - 1`.
proof fn lemma_page_start_bound(len: int, ipp: int, page: int)
    requires
        ipp >= 1,
        len >= 1,
        0 <= page <= (len - 1) / ipp,
    ensures
        page * ipp <= len - 1,
{
    let d = (len - 1) / ipp;
    vstd::arithmetic::div_mod::lemma_fundamental_div_mod(len - 1, ipp);
    vstd::arithmetic::div_mod::lemma_mod_bound(len - 1, ipp);
    assert(d * ipp <= len - 1);
    assert(page * ipp <= d * ipp) by (nonlinear_arith)
        requires
            0 <= page <= d,
            ipp >= 1,
    ;
}

/// The larger of two lengths.
pub open spec fn spec_max2(a: nat, b: nat) -> nat {
    if a >= b {
        a
    } else {
        b
    }
}

/// The longest displayed path over the projects, with or without
/// truncation.
pub open spec fn spec_max_disp_len(items: Seq<Project>, truncate: bool) -> nat
    decreases items.len(),
{
    if items.len() == 0 {
        0
    } else {
        spec_max2(
            spec_disp_path(items[0], truncate).len(),
            spec_max_disp_len(items.drop_first(), truncate),
        )
    }
}

/// The longest kind display string over the projects.
pub open spec fn spec_max_type_len(items: Seq<Project>) -> nat
    decreases items.len(),
{
    if items.len() == 0 {
        0
    } else {
        spec_max2(spec_type_string(items[0]).len(), spec_max_type_len(items.drop_first()))
    }
}

/// The longest displayed path over `projects`.
#[verifier::loop_isolation(false)]
fn max_disp_len(projects: &Vec<Project>, truncate: bool) -> (r: usize)
    requires
        forall|k: int| 0 <= k < projects@.len() ==> (#[trigger] projects@[k]).wf(),
    ensures
        r as nat == spec_max_disp_len(projects@, truncate),
{
    let mut acc: usize = 0;
    let mut i: usize = 0;
    proof {
        assert(projects@.skip(0) =~= projects@);
    }
    while i < projects.len()
        invariant
            0 <= i <= projects.len(),
            spec_max2(acc as nat, spec_max_disp_len(projects@.skip(i as int), truncate))
                == spec_max_disp_len(projects@, truncate),
        decreases projects.len() - i,
    {
        proof {
            assert(projects@.skip(i as int)[0] == projects@[i as int]);
            assert(projects@.skip(i as int).drop_first() =~= projects@.skip(i as int + 1));
        }
        let disp = if truncate {
            projects[i].trunc_path_string(MIN_PATH_COMPONENTS)
        } else {
            projects[i].path_string()
        };
        let len = disp.as_str().unicode_len();
        if len > acc {
            acc = len;
        }
        i = i + 1;
    }
    proof {
        assert(projects@.skip(projects@.len() as int) =~= Seq::<Project>::empty());
    }
    acc
}

/// The longest kind display string over `projects`.
#[verifier::loop_isolation(false)]
fn max_type_len(projects: &Vec<Project>) -> (r: usize)
    requires
        forall|k: int| 0 <= k < projects@.len() ==> (#[trigger] projects@[k]).wf(),
    ensures
        r as nat == spec_max_type_len(projects@),
{
    let mut acc: usize = 0;
    let mut i: usize = 0;
    proof {
        assert(projects@.skip(0) =~= projects@);
    }
    while i < projects.len()
        invariant
            0 <= i <= projects.len(),
            spec_max2(acc as nat, spec_max_type_len(projects@.skip(i as int)))
                == spec_max_type_len(projects@),
        decreases projects.len() - i,
    {
        proof {
            assert(projects@.skip(i as int)[0] == projects@[i as int]);
            assert(projects@.skip(i as int).drop_first() =~= projects@.skip(i as int + 1));
        }
        let ts = projects[i].type_string();
        let len = ts.as_str().unicode_len();
        if len > acc {
            acc = len;
        }
        i = i + 1;
    }
    proof {
        assert(projects@.skip(projects@.len() as int) =~= Seq::<Project>::empty());
    }
    acc
}

/// The column widths and truncation choice for a screen `screen_width`
/// characters wide: generous padding when the longest row fits, narrow
/// padding otherwise, and truncated paths when even the narrow row is too
/// wide.  Additions saturate rather than overflow.
pub open spec fn spec_menu_layout(items: Seq<Project>, screen_width: nat) -> (nat, nat, bool) {
    let mpw = spec_max_disp_len(items, false);
    let mtw = spec_max_type_len(items);
    let pw = spec_sat_usize(mpw + PATH_PAD as nat);
    let ptw = spec_sat_usize(mtw + PROJECT_TYPE_PAD as nat);
    let row = spec_sat_usize(
        spec_sat_usize(pw + ptw) + (LAST_MOD_WIDTH + RM_SIZE_WIDTH + 2) as nat,
    );
    if row > screen_width {
        if row - SMALL_WIN_DIFF > screen_width {
            (
                spec_sat_usize(spec_max_disp_len(items, true) + PATH_PAD_SM as nat),
                spec_sat_usize(mtw + PROJECT_TYPE_PAD_SM as nat),
                true,
            )
        } else {
            (spec_sat_usize(mpw + PATH_PAD_SM as nat), spec_sat_usize(mtw + PROJECT_TYPE_PAD_SM as nat), false)
        }
    } else {
        (pw, ptw, false)
    }
}

/// Plans the menu columns for the given screen width, as
/// [`spec_menu_layout`] describes: path column width, kind column width,
/// and whether paths are shown truncated.
pub fn plan_menu_layout(projects: &Vec<Project>, screen_width: usize) -> (r: (usize, usize, bool))
    requires
        forall|k: int| 0 <= k < projects@.len() ==> (#[trigger] projects@[k]).wf(),
    ensures
        (r.0 as nat, r.1 as nat, r.2) == spec_menu_layout(projects@, screen_width as nat),
{
    let mpw = max_disp_len(projects, false);
    let mtw = max_type_len(projects);
    let pw = sat_add_usize(mpw, PATH_PAD);
    let ptw = sat_add_usize(mtw, PROJECT_TYPE_PAD);
    let row = sat_add_usize(sat_add_usize(pw, ptw), LAST_MOD_WIDTH + RM_SIZE_WIDTH + 2);
    if row > screen_width {
        if row - SMALL_WIN_DIFF > screen_width {
            let mpw_trunc = max_disp_len(projects, true);
            (sat_add_usize(mpw_trunc, PATH_PAD_SM), sat_add_usize(mtw, PROJECT_TYPE_PAD_SM), true)
        } else {
            (sat_add_usize(mpw, PATH_PAD_SM), sat_add_usize(mtw, PROJECT_TYPE_PAD_SM), false)
        }
    } else {
        (pw, ptw, false)
    }
}

/// The two header lines above the rows: the column captions and a rule,
/// aligned to the column widths.
pub open spec fn spec_menu_title(path_width: nat, p_type_width: nat) -> Seq<char> {
    "  "@ + spec_pad_right("Path"@, path_width) + spec_pad_right("Type"@, p_type_width)
        + spec_pad_left("Last Mod."@, LAST_MOD_WIDTH as nat) + spec_pad_left(
        "Disk Savings"@,
        RM_SIZE_WIDTH as nat,
    ) + "\n  "@ + spec_pad_right("----"@, path_width) + spec_pad_right("----"@, p_type_width)
        + spec_pad_left("----"@, LAST_MOD_WIDTH as nat) + spec_pad_left(
        "----"@,
        RM_SIZE_WIDTH as nat,
    )
}

/// Builds the menu header, as [`spec_menu_title`] describes.
pub fn menu_title(path_width: usize, p_type_width: usize) -> (r: String)
    ensures
        r@ == spec_menu_title(path_width as nat, p_type_width as nat),
{
    let mut s = String::from_str("  ");
    s.append(pad_right("Path", path_width).as_str());
    s.append(pad_right("Type", p_type_width).as_str());
    s.append(pad_left("Last Mod.", LAST_MOD_WIDTH).as_str());
    s.append(pad_left("Disk Savings", RM_SIZE_WIDTH).as_str());
    s.append("\n  ");
    s.append(pad_right("----", path_width).as_str());
    s.append(pad_right("----", p_type_width).as_str());
    s.append(pad_left("----", LAST_MOD_WIDTH).as_str());
    s.append(pad_left("----", RM_SIZE_WIDTH).as_str());
    proof {
        assert(s@ =~= spec_menu_title(path_width as nat, p_type_width as nat));
    }
    s
}

/// Turns each discovered project into a menu row: its rendered label over
/// its delete action, in the same order.
pub fn build_menu_items(
    projects: Vec<Project>,
    path_width: usize,
    p_type_width: usize,
    truncate_paths: bool,
) -> (r: Vec<MenuItem>)
    requires
        forall|k: int| 0 <= k < projects@.len() ==> (#[trigger] projects@[k]).wf(),
    ensures
        r@.len() == projects@.len(),
        forall|k: int|
            0 <= k < projects@.len() ==> {
                &&& (#[trigger] r@[k]).action == MenuAction::Delete(projects@[k])
                &&& r@[k].label@ == spec_label(
                    projects@[k],
                    path_width as nat,
                    p_type_width as nat,
                    truncate_paths,
                )
                &&& r@[k].wf()
            },
{
    let ghost orig = projects@;
    let mut rest = projects;
    let mut items: Vec<MenuItem> = Vec::new();
    while rest.len() > 0
        invariant
            items@.len() + rest@.len() == orig.len(),
            rest@ =~= orig.skip(items@.len() as int),
            forall|k: int| 0 <= k < orig.len() ==> (#[trigger] orig[k]).wf(),
            forall|k: int|
                0 <= k < items@.len() ==> {
                    &&& (#[trigger] items@[k]).action == MenuAction::Delete(orig[k])
                    &&& items@[k].label@ == spec_label(
                        orig[k],
                        path_width as nat,
                        p_type_width as nat,
                        truncate_paths,
                    )
                    &&& items@[k].wf()
                },
        decreases rest@.len(),
    {
        proof {
            assert(orig.skip(items@.len() as int)[0] == orig[items@.len() as int]);
        }
        let p = rest.remove(0);
        let label = create_label(&p, path_width, p_type_width, truncate_paths);
        items.push(MenuItem { label, action: MenuAction::Delete(p) });
        proof {
            assert(rest@ =~= orig.skip(items@.len() as int));
        }
    }
    items
}

} // verus!

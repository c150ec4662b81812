//! The browser's state and every transition the user can make on it.
use vstd::prelude::*;
use crate::extensions::Extension;
use crate::filters::{
    filter_and_sort, filter_kind_at, filter_kind_index, spec_filter_kind_at, visible_issues,
    BlockedFilter, FilterKind, Filters, SortKey, FILTER_KIND_COUNT,
};
use crate::linear::{Issue, IssueView, State, WorkflowState};
use crate::project::Project;
use crate::text::{
    char_count, line_count, lines, owned, push_char, sorted_unique, str_eq, strictly_sorted,
    trim, trimmed, views,
};

verus! {

/// `tokio::sync::oneshot::Sender`, the handle that stops a running extension.
#[verifier::external_type_specification]
#[verifier::external_body]
#[verifier::reject_recursive_types(T)]
pub struct ExOneshotSender<T>(tokio::sync::oneshot::Sender<T>);

/// `tokio::sync::oneshot::Sender::send`: delivers the stop signal to the
/// receiving end. Whether it arrives depends on whether the receiver is still
/// alive, so nothing is stated about the outcome.
#[verifier::external_body]
fn send_stop(tx: tokio::sync::oneshot::Sender<()>) -> (r: Result<(), ()>) {
    tx.send(())
}

/// `String::pop`: removes and returns the last character, if any.
#[verifier::external_body]
fn pop_char(s: &mut String) -> (r: Option<char>)
    ensures
        old(s)@.len() == 0 ==> r is None && final(s)@ == old(s)@,
        old(s)@.len() > 0 ==> r == Some(old(s)@.last()) && final(s)@ == old(s)@.drop_last(),
{
    s.pop()
}

/// Whether the issue list has been fetched.
#[derive(Debug)]
pub enum LoadState {
    Loading,
    Loaded,
    Error(String),
}

/// What the screen shows and how keys are interpreted.
#[derive(Debug)]
pub enum Mode {
    Normal,
    /// Top-level "Filters" menu: one row per filter dimension.
    FilterMenu { selected: usize },
    /// Editing a single filter dimension's value(s).
    Filter { kind: FilterKind, options: Vec<String>, selected: usize, checked: Vec<bool> },
    /// Viewing the selected issue's full details.
    Detail,
    /// Viewing the output of a running or completed extension command.
    ExtensionOutput {
        /// Scroll offset (in lines) into the output.
        scroll: u16,
    },
    /// Picking a new status for the selected issue.
    StatusPicker { options: Vec<WorkflowState>, selected: usize },
    /// Typing a title for a new issue.
    NewIssueTitle { input: String },
}

/// A single extension invocation: output lines accumulate as they arrive,
/// whether or not its output view is on screen; `cancel` stops the process
/// while it is still running.
pub struct ExtensionRun {
    pub name: String,
    pub running: bool,
    pub success: bool,
    /// Output lines, each marked with whether it came from stderr.
    pub lines: Vec<(bool, String)>,
    /// Stops the process; present while the run may still be stopped.
    pub cancel: Option<tokio::sync::oneshot::Sender<()>>,
}

impl ExtensionRun {
    /// Whether the run still holds the handle that stops its process.
    pub open spec fn can_cancel(&self) -> bool {
        self.cancel is Some
    }
}

/// The browser's whole state.
pub struct App {
    pub all_issues: Vec<Issue>,
    pub issues: Vec<Issue>,
    pub selected: usize,
    pub load_state: LoadState,
    pub should_quit: bool,
    pub filters: Filters,
    pub sort_key: SortKey,
    pub mode: Mode,
    pub extensions: Vec<Extension>,
    pub active_project: Option<Project>,
    pub detail_scroll: u16,
    pub extension_run: Option<ExtensionRun>,
}

/// Label of the option that clears a single-select filter.
pub const ALL_LABEL: &'static str = "(All)";

/// Metadata lines shown above the description in the detail view.
pub const DETAIL_HEADER_LINES: u16 = 10;

/// Approximate rendered line count of the detail view for `issue`: the
/// header, plus a title line, a blank line and the description's lines
/// (counted as `u16`) when there is a non-empty description.
pub open spec fn detail_lines(issue: IssueView) -> int {
    match issue.description {
        Some(d) if d.len() > 0 => 12 + (lines(d).len() % 65536) as int,
        _ => 10,
    }
}

/// Approximate total rendered line count for the detail view.
fn detail_line_count(issue: &Issue) -> (n: u16)
    requires
        detail_lines(issue@) <= u16::MAX,
    ensures
        n == detail_lines(issue@),
{
    match &issue.description {
        Some(d) => {
            let len = char_count(d.as_str());
            if len > 0 {
                let count = line_count(d.as_str());
                let c = (count % 65536) as u16;
                DETAIL_HEADER_LINES + 2 + c
            } else {
                DETAIL_HEADER_LINES
            }
        },
        None => DETAIL_HEADER_LINES,
    }
}

/// `x` clamped to `[lo, hi]`.
pub open spec fn clamp(x: int, lo: int, hi: int) -> int {
    if x < lo {
        lo
    } else if x > hi {
        hi
    } else {
        x
    }
}

fn clamp_i64(x: i64, lo: i64, hi: i64) -> (r: i64)
    requires
        lo <= hi,
    ensures
        r == clamp(x as int, lo as int, hi as int),
{
    if x < lo {
        lo
    } else if x > hi {
        hi
    } else {
        x
    }
}

/// Whether moving a cursor at `selected` by `delta` stays within `i32`.
pub open spec fn step_fits(selected: usize, delta: i32) -> bool {
    i32::MIN <= (selected as i32) + delta <= i32::MAX
}

/// The cursor position after moving from `selected` by `delta` on a list of
/// `len` rows, wrapping around at both ends.
pub open spec fn cycled(selected: usize, delta: i32, len: i32) -> usize {
    (((selected as i32) + delta) % (len as int)) as usize
}

/// `(selected as i32 + delta).rem_euclid(len) as usize`.
fn cycle(selected: usize, delta: i32, len: i32) -> (r: usize)
    requires
        len > 0,
        step_fits(selected, delta),
    ensures
        r == cycled(selected, delta, len),
{
    let x: i32 = selected as i32 + delta;
    match x.checked_rem_euclid(len) {
        Some(m) => m as usize,
        None => 0,
    }
}

/// Position of the first string of `s` equal to `x`, or `s.len()`.
pub open spec fn position_of(s: Seq<Seq<char>>, x: Seq<char>) -> int
    decreases s.len(),
{
    if s.len() == 0 {
        0
    } else if s[0] == x {
        0
    } else {
        1 + position_of(s.drop_first(), x)
    }
}

proof fn lemma_position_of(s: Seq<Seq<char>>, x: Seq<char>, k: int)
    requires
        0 <= k <= s.len(),
        forall|j: int| 0 <= j < k ==> s[j] != x,
        k < s.len() ==> s[k] == x,
    ensures
        position_of(s, x) == k,
    decreases s.len(),
{
    if s.len() > 0 && k > 0 {
        lemma_position_of(s.drop_first(), x, k - 1);
    }
}

/// Position of the first of `v` equal to `x`, or `v.len()`.
fn find_string(v: &Vec<String>, x: &String) -> (k: usize)
    ensures
        k == position_of(views(v@), x@),
{
    let mut k: usize = 0;
    while k < v.len() && v[k] != *x
        invariant
            k <= v.len(),
            forall|j: int| 0 <= j < k ==> v@[j]@ != x@,
        decreases v.len() - k,
    {
        k = k + 1;
    }
    proof {
        lemma_position_of(views(v@), x@, k as int);
    }
    k
}

/// The ids of a list of issues.
pub open spec fn issue_ids(s: Seq<IssueView>) -> Seq<Seq<char>> {
    s.map_values(|i: IssueView| i.id)
}

/// Position of the first issue of `v` with id `id`, or `v.len()`.
fn find_issue(v: &Vec<Issue>, id: &str) -> (k: usize)
    ensures
        k == position_of(issue_ids(v.deep_view()), id@),
{
    let mut k: usize = 0;
    while k < v.len() && !str_eq(v[k].id.as_str(), id)
        invariant
            k <= v.len(),
            forall|j: int| 0 <= j < k ==> v@[j].id@ != id@,
        decreases v.len() - k,
    {
        k = k + 1;
    }
    proof {
        lemma_position_of(issue_ids(v.deep_view()), id@, k as int);
    }
    k
}

/// The run record after its stop handle is used up.
pub open spec fn without_stop(run: Option<ExtensionRun>) -> Option<ExtensionRun> {
    match run {
        Some(r) => Some(ExtensionRun { cancel: None, ..r }),
        None => None,
    }
}

/// The team names of `all`, in order.
pub open spec fn team_names(all: Seq<IssueView>) -> Seq<Seq<char>> {
    all.map_values(|i: IssueView| i.team_name)
}

/// The state names of `all`, in order.
pub open spec fn state_names(all: Seq<IssueView>) -> Seq<Seq<char>> {
    all.map_values(|i: IssueView| i.state.name)
}

/// The project names of the issues of `all` that have a project, in order.
pub open spec fn project_names(all: Seq<IssueView>) -> Seq<Seq<char>>
    decreases all.len(),
{
    if all.len() == 0 {
        Seq::empty()
    } else {
        let prev = project_names(all.drop_last());
        match all.last().project {
            Some(p) => prev.push(p),
            None => prev,
        }
    }
}

/// The options of a single-select name filter: "(All)" first, then each of
/// `names` once, in sorted order.
pub open spec fn name_menu(options: Seq<Seq<char>>, names: Seq<Seq<char>>) -> bool {
    &&& options.len() >= 1
    &&& options[0] == ALL_LABEL@
    &&& strictly_sorted(options.drop_first())
    &&& options.drop_first().to_set() == names.to_set()
}

/// The row preselected for current value `value`: its first position among
/// `options`, or 0.
pub open spec fn preselected(options: Seq<Seq<char>>, value: Option<String>) -> usize {
    match value {
        Some(v) => if position_of(options, v@) < options.len() {
            position_of(options, v@) as usize
        } else {
            0
        },
        None => 0,
    }
}

/// The three options of the "Blocked" filter.
pub open spec fn blocked_options() -> Seq<Seq<char>> {
    seq!["Any"@, "Unblocked only"@, "Blocked only"@]
}

/// `mode` is the editor of filter dimension `kind` as opened on `app`.
pub open spec fn value_filter_opened(app: &App, kind: FilterKind, mode: Mode) -> bool {
    match mode {
        Mode::Filter { kind: k, options, selected, checked } => {
            &&& k == kind
            &&& checked@.len() == options@.len()
            &&& match kind {
                FilterKind::Team => {
                    &&& name_menu(views(options@), team_names(app.all_issues.deep_view()))
                    &&& selected == preselected(views(options@), app.filters.team)
                    &&& forall|i: int| 0 <= i < checked@.len() ==> !checked@[i]
                },
                FilterKind::Project => {
                    &&& name_menu(views(options@), project_names(app.all_issues.deep_view()))
                    &&& selected == preselected(views(options@), app.filters.project)
                    &&& forall|i: int| 0 <= i < checked@.len() ==> !checked@[i]
                },
                FilterKind::Status => {
                    &&& strictly_sorted(views(options@))
                    &&& views(options@).to_set() == state_names(app.all_issues.deep_view()).to_set()
                    &&& selected == 0
                    &&& forall|i: int|
                        0 <= i < checked@.len() ==> checked@[i] == views(
                            app.filters.status@,
                        ).contains(options@[i]@)
                },
                FilterKind::Blocked => {
                    &&& views(options@) == blocked_options()
                    &&& selected == app.filters.spec_blocked().spec_index()
                    &&& forall|i: int| 0 <= i < checked@.len() ==> !checked@[i]
                },
            }
        },
        _ => false,
    }
}

/// The values whose boxes are ticked, in order (options and boxes paired
/// up to the shorter of the two).
pub open spec fn chosen(options: Seq<Seq<char>>, checked: Seq<bool>) -> Seq<Seq<char>>
    decreases options.len(),
{
    if options.len() == 0 || checked.len() == 0 {
        Seq::empty()
    } else {
        let rest = chosen(options.drop_first(), checked.drop_first());
        if checked[0] {
            seq![options[0]] + rest
        } else {
            rest
        }
    }
}

/// The value a single-select filter takes from row `selected`: none past the
/// end of the options or on "(All)".
pub open spec fn picked(options: Seq<String>, selected: usize) -> Option<String> {
    if selected < options.len() && options[selected as int]@ != ALL_LABEL@ {
        Some(options[selected as int])
    } else {
        None
    }
}

/// A vector of `n` unticked boxes.
fn unticked(n: usize) -> (r: Vec<bool>)
    ensures
        r@.len() == n,
        forall|i: int| 0 <= i < n ==> !r@[i],
{
    let mut r: Vec<bool> = Vec::new();
    let mut i: usize = 0;
    while i < n
        invariant
            i <= n,
            r@.len() == i,
            forall|j: int| 0 <= j < i ==> !r@[j],
        decreases n - i,
    {
        r.push(false);
        i = i + 1;
    }
    r
}

/// "(All)" followed by `names`.
fn with_all_label(names: Vec<String>) -> (r: Vec<String>)
    ensures
        views(r@) == seq![ALL_LABEL@] + views(names@),
{
    let mut r: Vec<String> = Vec::new();
    r.push(owned(ALL_LABEL));
    let mut rest = names;
    r.append(&mut rest);
    assert(views(r@) =~= seq![ALL_LABEL@] + views(names@));
    r
}

impl App {
    /// The issues the list shows, given `all_issues`, the filters and the order.
    pub open spec fn visible(&self) -> Seq<IssueView> {
        visible_issues(self.all_issues.deep_view(), &self.filters, self.sort_key)
    }

    /// The selected issue, if the cursor is on one.
    pub open spec fn selected_view(&self) -> Option<IssueView> {
        if self.selected < self.issues@.len() {
            Some(self.issues@[self.selected as int]@)
        } else {
            None
        }
    }

    /// A fresh browser: nothing loaded, no filters, newest first.
    pub fn new() -> (r: App)
        ensures
            r.all_issues@.len() == 0,
            r.issues@.len() == 0,
            r.selected == 0,
            r.load_state is Loading,
            !r.should_quit,
            r.filters.is_empty(),
            r.sort_key == SortKey::Updated,
            r.mode is Normal,
            r.extensions@.len() == 0,
            r.active_project is None,
            r.detail_scroll == 0,
            r.extension_run is None,
    {
        App {
            all_issues: Vec::new(),
            issues: Vec::new(),
            selected: 0,
            load_state: LoadState::Loading,
            should_quit: false,
            filters: Filters::new(),
            sort_key: SortKey::Updated,
            mode: Mode::Normal,
            extensions: Vec::new(),
            active_project: None,
            detail_scroll: 0,
            extension_run: None,
        }
    }

    /// Recomputes the visible list from all issues, the filters and the
    /// order, and puts the cursor on its first row.
    pub fn apply_filters(&mut self)
        ensures
            final(self).issues.deep_view() == old(self).visible(),
            *final(self) == (App { issues: final(self).issues, selected: 0, ..*old(self) }),
    {
        self.issues = filter_and_sort(&self.all_issues, &self.filters, self.sort_key);
        self.selected = 0;
    }

    /// Sets the active project mapping and scopes the team/project filters
    /// to it, so the list opens on the right Linear team/project; the user
    /// can still change them in the filter menu.
    pub fn set_active_project(&mut self, project: Project)
        ensures
            final(self).filters.team == Some(project.team),
            final(self).filters.project == Some(project.project),
            final(self).filters.status == old(self).filters.status,
            final(self).filters.blocked == old(self).filters.blocked,
            final(self).issues.deep_view() == visible_issues(
                old(self).all_issues.deep_view(),
                &final(self).filters,
                old(self).sort_key,
            ),
            *final(self) == (App {
                issues: final(self).issues,
                selected: 0,
                filters: final(self).filters,
                active_project: Some(project),
                ..*old(self)
            }),
    {
        self.filters.team = Some(project.team.clone());
        self.filters.project = Some(project.project.clone());
        self.active_project = Some(project);
        self.apply_filters();
    }

    /// The active project's root path, for the `{project_root}` extension
    /// placeholder; `None` without an active project. The home directory
    /// comes from the environment.
    pub fn project_root(&self) -> (r: Option<String>)
        ensures
            match self.active_project {
                None => r is None,
                Some(p) => r matches Some(s) && exists|home: Option<Seq<char>>|
                    s@ == p.root_in(home),
            },
    {
        match &self.active_project {
            Some(p) => Some(p.root()),
            None => None,
        }
    }

    /// Replaces the issues with a freshly loaded list: filters are reset to
    /// the active project's team/project (or cleared), and the list shows.
    pub fn set_issues(&mut self, issues: Vec<Issue>)
        ensures
            final(self).all_issues == issues,
            final(self).filters.team == (match old(self).active_project {
                Some(p) => Some(p.team),
                None => None,
            }),
            final(self).filters.project == (match old(self).active_project {
                Some(p) => Some(p.project),
                None => None,
            }),
            final(self).filters.status@.len() == 0,
            final(self).filters.blocked is None,
            final(self).load_state is Loaded,
            final(self).issues.deep_view() == final(self).visible(),
            *final(self) == (App {
                all_issues: final(self).all_issues,
                issues: final(self).issues,
                selected: 0,
                load_state: final(self).load_state,
                filters: final(self).filters,
                ..*old(self)
            }),
    {
        self.all_issues = issues;
        self.filters.clear();
        match &self.active_project {
            Some(project) => {
                self.filters.team = Some(project.team.clone());
                self.filters.project = Some(project.project.clone());
            },
            None => {},
        }
        self.load_state = LoadState::Loaded;
        self.apply_filters();
    }

    /// Switches between the two orders and redisplays.
    pub fn toggle_sort(&mut self)
        ensures
            final(self).sort_key == old(self).sort_key.spec_toggled(),
            final(self).issues.deep_view() == final(self).visible(),
            *final(self) == (App {
                issues: final(self).issues,
                selected: 0,
                sort_key: final(self).sort_key,
                ..*old(self)
            }),
    {
        self.sort_key = self.sort_key.toggled();
        self.apply_filters();
    }

    /// Shows an error in place of the list.
    pub fn set_error(&mut self, msg: String)
        ensures
            *final(self) == (App { load_state: LoadState::Error(msg), ..*old(self) }),
    {
        self.load_state = LoadState::Error(msg);
    }

    /// The issue under the cursor, if any.
    pub fn selected_issue(&self) -> (r: Option<&Issue>)
        ensures
            r == (if self.selected < self.issues@.len() {
                Some(&self.issues@[self.selected as int])
            } else {
                None
            }),
    {
        if self.selected < self.issues.len() {
            Some(&self.issues[self.selected])
        } else {
            None
        }
    }

    /// Moves the cursor down one row, stopping at the last.
    pub fn select_next(&mut self)
        requires
            old(self).issues@.len() > 0 ==> old(self).selected < usize::MAX,
        ensures
            *final(self) == (App {
                selected: if old(self).issues@.len() == 0 {
                    old(self).selected
                } else if old(self).selected + 1 < old(self).issues@.len() {
                    (old(self).selected + 1) as usize
                } else {
                    (old(self).issues@.len() - 1) as usize
                },
                ..*old(self)
            }),
    {
        if self.issues.len() > 0 {
            let next = self.selected + 1;
            let last = self.issues.len() - 1;
            self.selected = if next < last { next } else { last };
        }
    }

    /// Moves the cursor up one row, stopping at the first.
    pub fn select_prev(&mut self)
        ensures
            *final(self) == (App {
                selected: if old(self).selected > 0 {
                    (old(self).selected - 1) as usize
                } else {
                    0
                },
                ..*old(self)
            }),
    {
        if self.selected > 0 {
            self.selected = self.selected - 1;
        }
    }

    /// Removes every filter value and redisplays.
    pub fn clear_filters(&mut self)
        ensures
            final(self).filters.is_empty(),
            final(self).issues.deep_view() == final(self).visible(),
            *final(self) == (App {
                issues: final(self).issues,
                selected: 0,
                filters: final(self).filters,
                ..*old(self)
            }),
    {
        self.filters.clear();
        self.apply_filters();
    }

    /// Opens the detail view of the selected issue, scrolled to the top.
    pub fn open_detail(&mut self)
        ensures
            *final(self) == if old(self).selected < old(self).issues@.len() {
                App { mode: Mode::Detail, detail_scroll: 0, ..*old(self) }
            } else {
                *old(self)
            },
    {
        if self.selected_issue().is_some() {
            self.mode = Mode::Detail;
            self.detail_scroll = 0;
        }
    }

    /// In the detail view, shows the next issue of the list, scrolled to the
    /// top; at the last issue nothing changes.
    pub fn view_next_issue(&mut self)
        ensures
            *final(self) == if old(self).mode is Detail && old(self).selected + 1
                < old(self).issues@.len() {
                App { selected: (old(self).selected + 1) as usize, detail_scroll: 0, ..*old(self) }
            } else {
                *old(self)
            },
    {
        if let Mode::Detail = self.mode {
            if self.selected < self.issues.len() && self.selected < self.issues.len() - 1 {
                self.selected = self.selected + 1;
                self.detail_scroll = 0;
            }
        }
    }

    /// In the detail view, shows the previous issue of the list, scrolled to
    /// the top; at the first issue nothing changes.
    pub fn view_prev_issue(&mut self)
        ensures
            *final(self) == if old(self).mode is Detail && 0 < old(self).selected
                < old(self).issues@.len() {
                App { selected: (old(self).selected - 1) as usize, detail_scroll: 0, ..*old(self) }
            } else {
                *old(self)
            },
    {
        if let Mode::Detail = self.mode {
            if 0 < self.selected && self.selected < self.issues.len() {
                self.selected = self.selected - 1;
                self.detail_scroll = 0;
            }
        }
    }

    /// Back to the list.
    pub fn close_detail(&mut self)
        ensures
            *final(self) == (App { mode: Mode::Normal, ..*old(self) }),
    {
        self.mode = Mode::Normal;
    }

    /// Scrolls the detail view by `delta` lines (negative scrolls up),
    /// clamped between the top and the approximate line count of the selected
    /// issue's content; only in the detail view.
    pub fn scroll_detail(&mut self, delta: i32)
        requires
            old(self).mode is Detail ==> (old(self).selected_view() matches Some(i) ==> detail_lines(
                i,
            ) <= u16::MAX),
        ensures
            *final(self) == if old(self).mode is Detail {
                App {
                    detail_scroll: clamp(
                        old(self).detail_scroll + delta,
                        0,
                        match old(self).selected_view() {
                            Some(i) => detail_lines(i),
                            None => 0,
                        },
                    ) as u16,
                    ..*old(self)
                }
            } else {
                *old(self)
            },
    {
        match self.mode {
            Mode::Detail => {},
            _ => {
                return;
            },
        }
        let max: i64 = match self.selected_issue() {
            Some(issue) => detail_line_count(issue) as i64,
            None => 0,
        };
        let v = clamp_i64(self.detail_scroll as i64 + delta as i64, 0, max);
        self.detail_scroll = v as u16;
    }

    /// Whether `scroll_detail` may be called: the selected issue's
    /// approximate line count fits in a `u16` (counting it overflows
    /// otherwise).
    pub fn detail_scroll_fits(&self) -> (r: bool)
        ensures
            r == (self.mode is Detail ==> (self.selected_view() matches Some(i) ==> detail_lines(
                i,
            ) <= u16::MAX)),
    {
        match self.mode {
            Mode::Detail => {},
            _ => {
                return true;
            },
        }
        match self.selected_issue() {
            Some(issue) => match &issue.description {
                Some(d) => {
                    if char_count(d.as_str()) > 0 {
                        let count = line_count(d.as_str());
                        count % 65536 <= 65523
                    } else {
                        true
                    }
                },
                None => true,
            },
            None => true,
        }
    }

    /// Whether a cursor move by `delta` may be made in the current mode:
    /// moving from the cursor's row stays within `i32`.
    pub fn cursor_step_fits(&self, delta: i32) -> (r: bool)
        ensures
            r == match self.mode {
                Mode::FilterMenu { selected } => step_fits(selected, delta),
                Mode::Filter { selected, .. } => step_fits(selected, delta),
                Mode::StatusPicker { selected, .. } => step_fits(selected, delta),
                _ => true,
            },
    {
        let selected = match &self.mode {
            Mode::FilterMenu { selected } => *selected,
            Mode::Filter { selected, .. } => *selected,
            Mode::StatusPicker { selected, .. } => *selected,
            _ => {
                return true;
            },
        };
        let x = selected as i32 as i64 + delta as i64;
        i32::MIN as i64 <= x && x <= i32::MAX as i64
    }

    /// Whether `filter_menu_select` may be called: the filter menu's cursor
    /// is on one of its rows.
    pub fn filter_menu_row_fits(&self) -> (r: bool)
        ensures
            r == (self.mode matches Mode::FilterMenu { selected } ==> selected < FILTER_KIND_COUNT),
    {
        match &self.mode {
            Mode::FilterMenu { selected } => *selected < FILTER_KIND_COUNT,
            _ => true,
        }
    }

    /// The extension bound to `key`, if any (the first such).
    pub fn find_extension(&self, key: char) -> (r: Option<Extension>)
        ensures
            match r {
                Some(e) => exists|k: int|
                    0 <= k < self.extensions@.len() && self.extensions@[k] == e && e.key == key
                        && forall|j: int| 0 <= j < k ==> #[trigger] self.extensions@[j].key != key,
                None => forall|j: int|
                    0 <= j < self.extensions@.len() ==> #[trigger] self.extensions@[j].key != key,
            },
    {
        let mut k: usize = 0;
        while k < self.extensions.len()
            invariant
                k <= self.extensions@.len(),
                forall|j: int| 0 <= j < k ==> #[trigger] self.extensions@[j].key != key,
            decreases self.extensions.len() - k,
        {
            if self.extensions[k].key == key {
                return Some(self.extensions[k].duplicate());
            }
            k = k + 1;
        }
        None
    }

    /// True while an extension command is still running, whether or not
    /// its output view is on screen.
    pub fn extension_running(&self) -> (r: bool)
        ensures
            r == (self.extension_run matches Some(run) && run.running),
    {
        match &self.extension_run {
            Some(run) => run.running,
            None => false,
        }
    }

    /// Starts tracking a new extension run and switches to its output view,
    /// replacing the record of any previous run.
    pub fn start_extension(&mut self, name: String, cancel: tokio::sync::oneshot::Sender<()>)
        ensures
            final(self).extension_run matches Some(run) && run.name == name && run.running
                && !run.success && run.lines@.len() == 0 && run.cancel == Some(cancel),
            *final(self) == (App {
                extension_run: final(self).extension_run,
                mode: Mode::ExtensionOutput { scroll: 0 },
                ..*old(self)
            }),
    {
        self.extension_run = Some(
            ExtensionRun {
                name,
                running: true,
                success: false,
                lines: Vec::new(),
                cancel: Some(cancel),
            },
        );
        self.show_extension_output();
    }

    /// Switches to the extension output view, scrolled to the top, without
    /// starting a run.
    pub fn show_extension_output(&mut self)
        ensures
            *final(self) == (App { mode: Mode::ExtensionOutput { scroll: 0 }, ..*old(self) }),
    {
        self.mode = Mode::ExtensionOutput { scroll: 0 };
    }

    /// Appends one line of output from the run called `name`, if it is the
    /// current one.
    pub fn push_extension_line(&mut self, name: &str, is_stderr: bool, text: String)
        ensures
            match old(self).extension_run {
                Some(run) if run.name@ == name@ => final(self).extension_run matches Some(r)
                    && r.lines@ == run.lines@.push((is_stderr, text)) && r == (ExtensionRun {
                    lines: r.lines,
                    ..run
                }),
                _ => final(self).extension_run == old(self).extension_run,
            },
            *final(self) == (App { extension_run: final(self).extension_run, ..*old(self) }),
    {
        let run = self.extension_run.take();
        match run {
            Some(mut r) => {
                if str_eq(r.name.as_str(), name) {
                    r.lines.push((is_stderr, text));
                }
                self.extension_run = Some(r);
            },
            None => {},
        }
    }

    /// Marks the run called `name` finished, if it is the current one; it can
    /// no longer be stopped.
    pub fn finish_extension_run(&mut self, name: &str, success: bool)
        ensures
            match old(self).extension_run {
                Some(run) if run.name@ == name@ => final(self).extension_run == Some(
                    ExtensionRun { running: false, success, cancel: None, ..run },
                ),
                _ => final(self).extension_run == old(self).extension_run,
            },
            *final(self) == (App { extension_run: final(self).extension_run, ..*old(self) }),
    {
        let run = self.extension_run.take();
        match run {
            Some(mut r) => {
                if str_eq(r.name.as_str(), name) {
                    r.running = false;
                    r.success = success;
                    r.cancel = None;
                }
                self.extension_run = Some(r);
            },
            None => {},
        }
    }

    /// Sends the stop signal to the current run, if it can still be stopped;
    /// the stop handle is used up.
    pub fn cancel_running_extension(&mut self)
        ensures
            final(self).extension_run == without_stop(old(self).extension_run),
            *final(self) == (App { extension_run: final(self).extension_run, ..*old(self) }),
    {
        let run = self.extension_run.take();
        match run {
            Some(mut r) => {
                let cancel = r.cancel.take();
                match cancel {
                    Some(tx) => {
                        let _ = send_stop(tx);
                    },
                    None => {},
                }
                self.extension_run = Some(r);
            },
            None => {},
        }
    }

    /// Hides the output view; the run (if still going) keeps going.
    pub fn close_extension_output(&mut self)
        ensures
            *final(self) == (App { mode: Mode::Normal, ..*old(self) }),
    {
        self.mode = Mode::Normal;
    }

    /// Scrolls the extension output view by `delta` lines (negative scrolls
    /// up), clamped between the top and the number of lines so far; only in
    /// the output view.
    pub fn scroll_extension_output(&mut self, delta: i32)
        requires
            old(self).extension_run matches Some(run) ==> run.lines@.len() <= i64::MAX,
        ensures
            *final(self) == (match old(self).mode {
                Mode::ExtensionOutput { scroll } => App {
                    mode: Mode::ExtensionOutput {
                        scroll: clamp(
                            scroll + delta,
                            0,
                            match old(self).extension_run {
                                Some(run) => run.lines@.len() as int,
                                None => 0,
                            },
                        ) as u16,
                    },
                    ..*old(self)
                },
                _ => *old(self),
            }),
    {
        let scroll = match self.mode {
            Mode::ExtensionOutput { scroll } => scroll,
            _ => {
                return;
            },
        };
        let max: i64 = match &self.extension_run {
            Some(run) => run.lines.len() as i64,
            None => 0,
        };
        let v = clamp_i64(scroll as i64 + delta as i64, 0, max);
        self.mode = Mode::ExtensionOutput { scroll: v as u16 };
    }

    /// Opens the filter menu on its first row.
    pub fn open_filter_menu(&mut self)
        ensures
            *final(self) == (App { mode: Mode::FilterMenu { selected: 0 }, ..*old(self) }),
    {
        self.mode = Mode::FilterMenu { selected: 0 };
    }

    /// Moves the filter menu's cursor by `delta` rows, wrapping around.
    pub fn filter_menu_move(&mut self, delta: i32)
        requires
            old(self).mode matches Mode::FilterMenu { selected } ==> step_fits(selected, delta),
        ensures
            *final(self) == (match old(self).mode {
                Mode::FilterMenu { selected } => App {
                    mode: Mode::FilterMenu { selected: cycled(selected, delta, 4) },
                    ..*old(self)
                },
                _ => *old(self),
            }),
    {
        match self.mode {
            Mode::FilterMenu { selected } => {
                self.mode = Mode::FilterMenu { selected: cycle(selected, delta, 4) };
            },
            _ => {},
        }
    }

    /// Opens the editor of the dimension under the filter menu's cursor.
    pub fn filter_menu_select(&mut self)
        requires
            old(self).mode matches Mode::FilterMenu { selected } ==> selected < FILTER_KIND_COUNT,
        ensures
            match old(self).mode {
                Mode::FilterMenu { selected } => {
                    &&& value_filter_opened(
                        old(self),
                        spec_filter_kind_at(selected as int),
                        final(self).mode,
                    )
                    &&& *final(self) == (App { mode: final(self).mode, ..*old(self) })
                },
                _ => *final(self) == *old(self),
            },
    {
        match self.mode {
            Mode::FilterMenu { selected } => {
                let kind = filter_kind_at(selected);
                self.open_value_filter(kind);
            },
            _ => {},
        }
    }

    /// Back to the list from the filter menu.
    pub fn filter_menu_cancel(&mut self)
        ensures
            *final(self) == (App { mode: Mode::Normal, ..*old(self) }),
    {
        self.mode = Mode::Normal;
    }

    /// Opens the editor of dimension `kind`: its options, the row of its
    /// current value, and (for status) which values are ticked.
    fn open_value_filter(&mut self, kind: FilterKind)
        ensures
            value_filter_opened(old(self), kind, final(self).mode),
            *final(self) == (App { mode: final(self).mode, ..*old(self) }),
    {
        let ghost all = self.all_issues.deep_view();
        let new_mode = match kind {
            FilterKind::Team => {
                let mut names: Vec<String> = Vec::new();
                let mut i: usize = 0;
                while i < self.all_issues.len()
                    invariant
                        i <= self.all_issues.len(),
                        all == self.all_issues.deep_view(),
                        views(names@) == team_names(all.take(i as int)),
                    decreases self.all_issues.len() - i,
                {
                    names.push(self.all_issues[i].team.name.clone());
                    assert(team_names(all.take(i + 1)) =~= team_names(all.take(i as int)).push(
                        all[i as int].team_name,
                    ));
                    i = i + 1;
                }
                assert(all.take(i as int) =~= all);
                let sorted = sorted_unique(&names);
                let options = with_all_label(sorted);
                let selected = match &self.filters.team {
                    Some(t) => {
                        let p = find_string(&options, t);
                        if p < options.len() {
                            p
                        } else {
                            0
                        }
                    },
                    None => 0,
                };
                let checked = unticked(options.len());
                assert(views(options@).drop_first() =~= views(sorted@));
                Mode::Filter { kind, options, selected, checked }
            },
            FilterKind::Project => {
                let mut names: Vec<String> = Vec::new();
                let mut i: usize = 0;
                while i < self.all_issues.len()
                    invariant
                        i <= self.all_issues.len(),
                        all == self.all_issues.deep_view(),
                        views(names@) == project_names(all.take(i as int)),
                    decreases self.all_issues.len() - i,
                {
                    assert(all.take(i + 1).drop_last() =~= all.take(i as int));
                    match &self.all_issues[i].project {
                        Some(p) => {
                            let ghost prev = names@;
                            names.push(p.name.clone());
                            assert(views(names@) =~= views(prev).push(p.name@));
                        },
                        None => {},
                    }
                    i = i + 1;
                }
                assert(all.take(i as int) =~= all);
                let sorted = sorted_unique(&names);
                let options = with_all_label(sorted);
                let selected = match &self.filters.project {
                    Some(t) => {
                        let p = find_string(&options, t);
                        if p < options.len() {
                            p
                        } else {
                            0
                        }
                    },
                    None => 0,
                };
                let checked = unticked(options.len());
                assert(views(options@).drop_first() =~= views(sorted@));
                Mode::Filter { kind, options, selected, checked }
            },
            FilterKind::Status => {
                let mut names: Vec<String> = Vec::new();
                let mut i: usize = 0;
                while i < self.all_issues.len()
                    invariant
                        i <= self.all_issues.len(),
                        all == self.all_issues.deep_view(),
                        views(names@) == state_names(all.take(i as int)),
                    decreases self.all_issues.len() - i,
                {
                    names.push(self.all_issues[i].state.name.clone());
                    assert(state_names(all.take(i + 1)) =~= state_names(all.take(i as int)).push(
                        all[i as int].state.name,
                    ));
                    i = i + 1;
                }
                assert(all.take(i as int) =~= all);
                let options = sorted_unique(&names);
                let mut checked: Vec<bool> = Vec::new();
                let mut k: usize = 0;
                while k < options.len()
                    invariant
                        k <= options.len(),
                        checked@.len() == k,
                        forall|j: int|
                            0 <= j < k ==> checked@[j] == views(self.filters.status@).contains(
                                options@[j]@,
                            ),
                    decreases options.len() - k,
                {
                    let p = find_string(&self.filters.status, &options[k]);
                    proof {
                        let st = views(self.filters.status@);
                        let o = options@[k as int]@;
                        crate::app::lemma_position_of_contains(st, o);
                    }
                    checked.push(p < self.filters.status.len());
                    k = k + 1;
                }
                Mode::Filter { kind, options, selected: 0, checked }
            },
            FilterKind::Blocked => {
                let mut options: Vec<String> = Vec::new();
                options.push(owned("Any"));
                options.push(owned("Unblocked only"));
                options.push(owned("Blocked only"));
                assert(views(options@) =~= blocked_options());
                let selected: usize = match self.filters.blocked() {
                    BlockedFilter::Any => 0,
                    BlockedFilter::UnblockedOnly => 1,
                    BlockedFilter::BlockedOnly => 2,
                };
                let checked = unticked(3);
                Mode::Filter { kind, options, selected, checked }
            },
        };
        self.mode = new_mode;
    }

    /// Moves the cursor of the open filter editor by `delta` rows, wrapping
    /// around; nothing happens on an editor without options.
    pub fn filter_move(&mut self, delta: i32)
        requires
            old(self).mode matches Mode::Filter { selected, .. } ==> step_fits(selected, delta),
        ensures
            match old(self).mode {
                Mode::Filter { kind, options, selected, checked } => {
                    &&& final(self).mode == (Mode::Filter {
                        kind,
                        options,
                        selected: if (options@.len() as i32) > 0 {
                            cycled(selected, delta, options@.len() as i32)
                        } else {
                            selected
                        },
                        checked,
                    })
                    &&& *final(self) == (App { mode: final(self).mode, ..*old(self) })
                },
                _ => *final(self) == *old(self),
            },
    {
        let mut m = Mode::Normal;
        std::mem::swap(&mut m, &mut self.mode);
        match m {
            Mode::Filter { kind, options, selected, checked } => {
                let len = options.len() as i32;
                let next = if len > 0 {
                    cycle(selected, delta, len)
                } else {
                    selected
                };
                self.mode = Mode::Filter { kind, options, selected: next, checked };
            },
            other => {
                self.mode = other;
            },
        }
    }

    /// Ticks or unticks the value under the cursor of a multi-select editor.
    pub fn filter_toggle(&mut self)
        ensures
            match old(self).mode {
                Mode::Filter { kind, options, selected, checked } => {
                    &&& final(self).mode == (Mode::Filter {
                        kind,
                        options,
                        selected,
                        checked: final(self).mode->checked,
                    })
                    &&& final(self).mode->checked@ == if kind.spec_is_multi() && selected
                        < checked@.len() {
                        checked@.update(selected as int, !checked@[selected as int])
                    } else {
                        checked@
                    }
                    &&& *final(self) == (App { mode: final(self).mode, ..*old(self) })
                },
                _ => *final(self) == *old(self),
            },
    {
        let mut m = Mode::Normal;
        std::mem::swap(&mut m, &mut self.mode);
        match m {
            Mode::Filter { kind, options, selected, mut checked } => {
                if kind.is_multi() && selected < checked.len() {
                    let v = !checked[selected];
                    checked.set(selected, v);
                }
                self.mode = Mode::Filter { kind, options, selected, checked };
            },
            other => {
                self.mode = other;
            },
        }
    }

    /// Applies the open editor's choice to the filters, returns to the filter
    /// menu on that dimension's row, and redisplays.
    pub fn filter_confirm(&mut self)
        ensures
            final(self).mode == (Mode::FilterMenu {
                selected: match old(self).mode {
                    Mode::Filter { kind, .. } => crate::filters::spec_filter_kind_index(kind),
                    _ => 0,
                },
            }),
            match old(self).mode {
                Mode::Filter { kind, options, selected, checked } => match kind {
                    FilterKind::Status => {
                        &&& views(final(self).filters.status@) == chosen(
                            views(options@),
                            checked@,
                        )
                        &&& final(self).filters.team == old(self).filters.team
                        &&& final(self).filters.project == old(self).filters.project
                        &&& final(self).filters.blocked == old(self).filters.blocked
                    },
                    FilterKind::Team => final(self).filters == (Filters {
                        team: picked(options@, selected),
                        ..old(self).filters
                    }),
                    FilterKind::Project => final(self).filters == (Filters {
                        project: picked(options@, selected),
                        ..old(self).filters
                    }),
                    FilterKind::Blocked => final(self).filters == (Filters {
                        blocked: Some(BlockedFilter::spec_from_index(selected)),
                        ..old(self).filters
                    }),
                },
                _ => final(self).filters == old(self).filters,
            },
            final(self).issues.deep_view() == final(self).visible(),
            *final(self) == (App {
                issues: final(self).issues,
                selected: 0,
                filters: final(self).filters,
                mode: final(self).mode,
                ..*old(self)
            }),
    {
        let mut m = Mode::Normal;
        std::mem::swap(&mut m, &mut self.mode);
        let return_to = match m {
            Mode::Filter { kind, options, selected, checked } => {
                let return_to = filter_kind_index(kind);
                match kind {
                    FilterKind::Status => {
                        let mut chosen_values: Vec<String> = Vec::new();
                        let ghost o = views(options@);
                        let ghost c = checked@;
                        let mut i: usize = 0;
                        assert(o.skip(0) =~= o);
                        assert(c.skip(0) =~= c);
                        assert(views(chosen_values@) + chosen(o, c) =~= chosen(o, c));
                        while i < options.len() && i < checked.len()
                            invariant
                                o == views(options@),
                                c == checked@,
                                i <= options.len(),
                                i <= checked.len(),
                                views(chosen_values@) + chosen(o.skip(i as int), c.skip(i as int))
                                    == chosen(o, c),
                            decreases options.len() - i,
                        {
                            assert(o.skip(i as int).drop_first() =~= o.skip(i + 1));
                            assert(c.skip(i as int).drop_first() =~= c.skip(i + 1));
                            if checked[i] {
                                let ghost prev = chosen_values@;
                                chosen_values.push(options[i].clone());
                                assert(views(chosen_values@) =~= views(prev).push(o[i as int]));
                                assert(views(chosen_values@) + chosen(
                                    o.skip(i + 1),
                                    c.skip(i + 1),
                                ) =~= views(prev) + chosen(o.skip(i as int), c.skip(i as int)));
                            }
                            i = i + 1;
                        }
                        assert(chosen(o.skip(i as int), c.skip(i as int)) =~= Seq::<
                            Seq<char>,
                        >::empty());
                        assert(views(chosen_values@) =~= chosen(o, c));
                        self.filters.status = chosen_values;
                    },
                    FilterKind::Team => {
                        self.filters.team = pick(&options, selected);
                    },
                    FilterKind::Project => {
                        self.filters.project = pick(&options, selected);
                    },
                    FilterKind::Blocked => {
                        self.filters.blocked = Some(BlockedFilter::from_index(selected));
                    },
                }
                return_to
            },
            _ => 0,
        };
        self.mode = Mode::FilterMenu { selected: return_to };
        self.apply_filters();
    }

    /// Leaves the open editor without changing the filters, back to the
    /// filter menu on its row (or to the list when no editor is open).
    pub fn filter_cancel(&mut self)
        ensures
            *final(self) == (App {
                mode: match old(self).mode {
                    Mode::Filter { kind, .. } => Mode::FilterMenu {
                        selected: crate::filters::spec_filter_kind_index(kind),
                    },
                    _ => Mode::Normal,
                },
                ..*old(self)
            }),
    {
        let next = match &self.mode {
            Mode::Filter { kind, .. } => Mode::FilterMenu { selected: filter_kind_index(*kind) },
            _ => Mode::Normal,
        };
        self.mode = next;
    }

    /// Opens the status picker for the selected issue with the given states,
    /// preselecting the issue's current state if it is among them.
    pub fn open_status_picker(&mut self, options: Vec<WorkflowState>)
        ensures
            match old(self).selected_view() {
                None => *final(self) == *old(self),
                Some(i) => *final(self) == (App {
                    mode: Mode::StatusPicker {
                        options,
                        selected: state_row(options@, i.state.id),
                    },
                    ..*old(self)
                }),
            },
    {
        let id = match self.selected_issue() {
            Some(issue) => issue.state.id.clone(),
            None => {
                return;
            },
        };
        let mut k: usize = 0;
        while k < options.len() && options[k].id != id
            invariant
                k <= options.len(),
                forall|j: int| 0 <= j < k ==> options@[j].id@ != id@,
            decreases options.len() - k,
        {
            k = k + 1;
        }
        proof {
            lemma_position_of(state_ids(options@), id@, k as int);
        }
        let selected = if k < options.len() {
            k
        } else {
            0
        };
        self.mode = Mode::StatusPicker { options, selected };
    }

    /// Moves the status picker's cursor by `delta` rows, wrapping around;
    /// nothing happens without options.
    pub fn status_picker_move(&mut self, delta: i32)
        requires
            old(self).mode matches Mode::StatusPicker { selected, .. } ==> step_fits(
                selected,
                delta,
            ),
        ensures
            match old(self).mode {
                Mode::StatusPicker { options, selected } => *final(self) == (App {
                    mode: Mode::StatusPicker {
                        options,
                        selected: if (options@.len() as i32) > 0 {
                            cycled(selected, delta, options@.len() as i32)
                        } else {
                            selected
                        },
                    },
                    ..*old(self)
                }),
                _ => *final(self) == *old(self),
            },
    {
        let mut m = Mode::Normal;
        std::mem::swap(&mut m, &mut self.mode);
        match m {
            Mode::StatusPicker { options, selected } => {
                let len = options.len() as i32;
                let next = if len > 0 {
                    cycle(selected, delta, len)
                } else {
                    selected
                };
                self.mode = Mode::StatusPicker { options, selected: next };
            },
            other => {
                self.mode = other;
            },
        }
    }

    /// Closes the status picker.
    pub fn status_picker_cancel(&mut self)
        ensures
            *final(self) == (App { mode: Mode::Normal, ..*old(self) }),
    {
        self.mode = Mode::Normal;
    }

    /// Closes the picker and, when a selection was made (the picker was open
    /// on a selected issue with its cursor on one of its states), returns that
    /// issue's id and the state under the cursor, for the caller to submit.
    pub fn status_picker_confirm(&mut self) -> (r: Option<(String, WorkflowState)>)
        ensures
            match old(self).mode {
                Mode::StatusPicker { options, selected } => match old(self).selected_view() {
                    Some(i) => if selected < options@.len() {
                        r matches Some((id, w)) && id@ == i.id && w == options@[selected as int]
                    } else {
                        r is None
                    },
                    None => r is None,
                },
                _ => r is None,
            },
            *final(self) == (App { mode: Mode::Normal, ..*old(self) }),
    {
        let result = match &self.mode {
            Mode::StatusPicker { options, selected } => match self.selected_issue() {
                Some(issue) => if *selected < options.len() {
                    Some((issue.id.clone(), options[*selected].duplicate()))
                } else {
                    None
                },
                None => None,
            },
            _ => None,
        };
        self.mode = Mode::Normal;
        result
    }

    /// Records a status change the API has accepted: the first issue with
    /// id `issue_id` takes the new state, the list is redisplayed, and the
    /// issue that was selected stays selected if it is still shown.
    pub fn apply_state_change(&mut self, issue_id: &str, new_state: WorkflowState)
        ensures
            final(self).all_issues.deep_view() == with_state(
                old(self).all_issues.deep_view(),
                issue_id@,
                new_state,
            ),
            final(self).issues.deep_view() == final(self).visible(),
            final(self).selected == (match old(self).selected_view() {
                Some(i) => row_of(final(self).issues.deep_view(), i.id),
                None => 0,
            }),
            *final(self) == (App {
                all_issues: final(self).all_issues,
                issues: final(self).issues,
                selected: final(self).selected,
                ..*old(self)
            }),
    {
        let ghost before = self.all_issues.deep_view();
        let current_id = match self.selected_issue() {
            Some(i) => Some(i.id.clone()),
            None => None,
        };
        let k = find_issue(&self.all_issues, issue_id);
        if k < self.all_issues.len() {
            let mut issue = self.all_issues[k].duplicate();
            issue.state = State {
                id: new_state.id,
                name: new_state.name,
                state_type: new_state.state_type,
            };
            let ghost iv = issue@;
            self.all_issues.set(k, issue);
            assert(self.all_issues.deep_view() =~= before.update(k as int, iv));
        }
        self.apply_filters();
        match current_id {
            Some(id) => {
                let pos = find_issue(&self.issues, id.as_str());
                if pos < self.issues.len() {
                    self.selected = pos;
                }
            },
            None => {},
        }
    }

    /// Opens the prompt for a new issue's title.
    pub fn open_new_issue(&mut self)
        ensures
            final(self).mode matches Mode::NewIssueTitle { input } && input@.len() == 0,
            *final(self) == (App { mode: final(self).mode, ..*old(self) }),
    {
        self.mode = Mode::NewIssueTitle { input: String::new() };
    }

    /// Types `c` into the new-issue prompt.
    pub fn new_issue_input(&mut self, c: char)
        ensures
            match old(self).mode {
                Mode::NewIssueTitle { input } => final(self).mode matches Mode::NewIssueTitle {
                    input: new_input,
                } && new_input@ == input@.push(c),
                _ => final(self).mode == old(self).mode,
            },
            *final(self) == (App { mode: final(self).mode, ..*old(self) }),
    {
        let mut m = Mode::Normal;
        std::mem::swap(&mut m, &mut self.mode);
        match m {
            Mode::NewIssueTitle { mut input } => {
                push_char(&mut input, c);
                self.mode = Mode::NewIssueTitle { input };
            },
            other => {
                self.mode = other;
            },
        }
    }

    /// Deletes the last character of the new-issue prompt, if any.
    pub fn new_issue_backspace(&mut self)
        ensures
            match old(self).mode {
                Mode::NewIssueTitle { input } => final(self).mode matches Mode::NewIssueTitle {
                    input: new_input,
                } && new_input@ == (if input@.len() > 0 {
                    input@.drop_last()
                } else {
                    input@
                }),
                _ => final(self).mode == old(self).mode,
            },
            *final(self) == (App { mode: final(self).mode, ..*old(self) }),
    {
        let mut m = Mode::Normal;
        std::mem::swap(&mut m, &mut self.mode);
        match m {
            Mode::NewIssueTitle { mut input } => {
                let _ = pop_char(&mut input);
                self.mode = Mode::NewIssueTitle { input };
            },
            other => {
                self.mode = other;
            },
        }
    }

    /// Closes the new-issue prompt.
    pub fn new_issue_cancel(&mut self)
        ensures
            *final(self) == (App { mode: Mode::Normal, ..*old(self) }),
    {
        self.mode = Mode::Normal;
    }

    /// Closes the prompt and returns the typed title, trimmed, unless it is
    /// blank.
    pub fn new_issue_confirm(&mut self) -> (r: Option<String>)
        ensures
            match old(self).mode {
                Mode::NewIssueTitle { input } => if trim(input@).len() > 0 {
                    r matches Some(t) && t@ == trim(input@)
                } else {
                    r is None
                },
                _ => r is None,
            },
            *final(self) == (App { mode: Mode::Normal, ..*old(self) }),
    {
        let title = match &self.mode {
            Mode::NewIssueTitle { input } => {
                let t = trimmed(input.as_str());
                if char_count(t.as_str()) > 0 {
                    Some(t)
                } else {
                    None
                }
            },
            _ => None,
        };
        self.mode = Mode::Normal;
        title
    }

    /// Adds a newly created issue to the list, redisplays, and selects it if
    /// it is shown.
    pub fn add_issue(&mut self, issue: Issue)
        ensures
            final(self).all_issues.deep_view() == old(self).all_issues.deep_view().push(issue@),
            final(self).issues.deep_view() == final(self).visible(),
            final(self).selected == row_of(final(self).issues.deep_view(), issue@.id),
            *final(self) == (App {
                all_issues: final(self).all_issues,
                issues: final(self).issues,
                selected: final(self).selected,
                ..*old(self)
            }),
    {
        let ghost before = self.all_issues.deep_view();
        let ghost iv = issue@;
        let id = issue.id.clone();
        self.all_issues.push(issue);
        assert(self.all_issues.deep_view() =~= before.push(iv));
        self.apply_filters();
        let pos = find_issue(&self.issues, id.as_str());
        if pos < self.issues.len() {
            self.selected = pos;
        }
    }
}

/// The ids of a list of workflow states.
pub open spec fn state_ids(options: Seq<WorkflowState>) -> Seq<Seq<char>> {
    options.map_values(|w: WorkflowState| w.id@)
}

/// The picker row preselected for an issue in state `id`: the first option
/// with that id, or 0.
pub open spec fn state_row(options: Seq<WorkflowState>, id: Seq<char>) -> usize {
    if position_of(state_ids(options), id) < options.len() {
        position_of(state_ids(options), id) as usize
    } else {
        0
    }
}

/// The row of the first issue with id `id` in `s`, or 0 if there is none.
pub open spec fn row_of(s: Seq<IssueView>, id: Seq<char>) -> usize {
    if position_of(issue_ids(s), id) < s.len() {
        position_of(issue_ids(s), id) as usize
    } else {
        0
    }
}

/// `all` with the first issue whose id is `id` moved to workflow state `w`.
pub open spec fn with_state(all: Seq<IssueView>, id: Seq<char>, w: WorkflowState) -> Seq<IssueView> {
    let k = position_of(issue_ids(all), id);
    if k < all.len() {
        all.update(
            k,
            IssueView {
                state: crate::linear::StateView {
                    id: w.id@,
                    name: w.name@,
                    state_type: w.state_type@,
                },
                ..all[k]
            },
        )
    } else {
        all
    }
}

/// The value a single-select filter takes from row `selected`.
fn pick(options: &Vec<String>, selected: usize) -> (r: Option<String>)
    ensures
        r == picked(options@, selected),
{
    if selected < options.len() && !str_eq(options[selected].as_str(), ALL_LABEL) {
        Some(options[selected].clone())
    } else {
        None
    }
}

proof fn lemma_position_of_contains(s: Seq<Seq<char>>, x: Seq<char>)
    ensures
        0 <= position_of(s, x) <= s.len(),
        (position_of(s, x) < s.len()) == s.contains(x),
        position_of(s, x) < s.len() ==> s[position_of(s, x)] == x,
    decreases s.len(),
{
    if s.len() > 0 && s[0] != x {
        lemma_position_of_contains(s.drop_first(), x);
        if s.contains(x) {
            let k = choose|k: int| 0 <= k < s.len() && s[k] == x;
            assert(s.drop_first()[k - 1] == x);
        }
        if s.drop_first().contains(x) {
            let k = choose|k: int| 0 <= k < s.drop_first().len() && s.drop_first()[k] == x;
            assert(s[k + 1] == x);
        }
    } else if s.len() > 0 {
        assert(s[0] == x);
    }
}


// ---------------------------------------------------------------------------
// Laws
// ---------------------------------------------------------------------------

/// A cursor moved on a non-empty list stays on the list.
pub proof fn lemma_cycled_in_range(selected: usize, delta: i32, len: i32)
    requires
        len > 0,
    ensures
        cycled(selected, delta, len) < len,
{
}

/// Moving a cursor down one row and back up returns it to where it was.
pub proof fn lemma_cycled_down_up(selected: usize, len: i32)
    requires
        0 < len,
        selected < len,
    ensures
        cycled(cycled(selected, 1i32, len), -1i32, len) == selected,
{
    let s = selected as int;
    let l = len as int;
    assert((selected as i32) as int == s);
    let d = (s + 1) % l;
    assert(d == if s + 1 < l { s + 1 } else { 0 }) by (nonlinear_arith)
        requires
            0 <= s < l,
            d == (s + 1) % l,
    ;
    let down = cycled(selected, 1i32, len);
    assert(down as int == d);
    assert((down as i32) as int == d);
    let back = (d - 1) % l;
    assert(back == s) by (nonlinear_arith)
        requires
            0 <= s < l,
            d == if s + 1 < l { s + 1 } else { 0 },
            back == (d - 1) % l,
    ;
}

/// A scroll offset clamped to `[lo, hi]` lies in it.
pub proof fn lemma_clamp_in_range(x: int, lo: int, hi: int)
    requires
        lo <= hi,
    ensures
        lo <= clamp(x, lo, hi) <= hi,
        lo <= x <= hi ==> clamp(x, lo, hi) == x,
{
}

/// Stopping a run twice is the same as stopping it once: the handle is used
/// up the first time.
pub proof fn lemma_stop_idempotent(run: Option<ExtensionRun>)
    ensures
        without_stop(without_stop(run)) == without_stop(run),
        without_stop(run) matches Some(r) ==> !r.can_cancel(),
{
}

/// Ticking a box twice leaves the boxes as they were.
pub proof fn lemma_toggle_twice(checked: Seq<bool>, i: int)
    requires
        0 <= i < checked.len(),
    ensures
        checked.update(i, !checked[i]).update(i, !checked.update(i, !checked[i])[i]) == checked,
{
    assert(checked.update(i, !checked[i]).update(i, !checked.update(i, !checked[i])[i]) =~= checked);
}


/// When some issue of `s` has id `id`, `row_of` is the row of such an issue:
/// an issue that is still shown after a change stays selected.
pub proof fn lemma_row_of_finds(s: Seq<IssueView>, id: Seq<char>)
    requires
        s.len() <= usize::MAX,
        exists|k: int| 0 <= k < s.len() && #[trigger] s[k].id == id,
    ensures
        row_of(s, id) < s.len(),
        s[row_of(s, id) as int].id == id,
{
    let k = choose|k: int| 0 <= k < s.len() && #[trigger] s[k].id == id;
    assert(issue_ids(s)[k] == id);
    assert(issue_ids(s).contains(id));
    lemma_position_of_contains(issue_ids(s), id);
    assert(issue_ids(s)[position_of(issue_ids(s), id)] == s[position_of(issue_ids(s), id)].id);
}

/// A newly added issue that passes the filters is shown, and the cursor
/// lands on an issue with its id.
pub proof fn lemma_added_issue_selected(
    all: Seq<IssueView>,
    f: &Filters,
    key: SortKey,
    issue: IssueView,
)
    requires
        f.spec_matches(issue),
        all.len() < usize::MAX,
    ensures
        ({
            let v = visible_issues(all.push(issue), f, key);
            &&& v.contains(issue)
            &&& row_of(v, issue.id) < v.len()
            &&& v[row_of(v, issue.id) as int].id == issue.id
        }),
{
    let all2 = all.push(issue);
    crate::filters::lemma_visible_issues(all2, f, key);
    assert(all2[all.len() as int] == issue);
    assert(all2.contains(issue));
    let v = visible_issues(all2, f, key);
    assert(v.contains(issue));
    let k = choose|k: int| 0 <= k < v.len() && v[k] == issue;
    assert(v[k].id == issue.id);
    crate::filters::lemma_matching_len(all2, f);
    crate::filters::lemma_stable_sort(crate::filters::matching(all2, f), key);
    vstd::seq_lib::to_multiset_len(v);
    vstd::seq_lib::to_multiset_len(crate::filters::matching(all2, f));
    lemma_row_of_finds(v, issue.id);
}


/// Opening a single-select name editor and confirming it without moving the
/// cursor keeps the filter: no value stays no value, and a value that occurs
/// among the names (and is not the "(All)" label) is picked again.
pub proof fn lemma_name_editor_roundtrip(
    options: Seq<String>,
    names: Seq<Seq<char>>,
    value: Option<String>,
)
    requires
        name_menu(views(options), names),
        options.len() <= usize::MAX,
        value matches Some(t) ==> names.contains(t@) && t@ != ALL_LABEL@,
    ensures
        match value {
            None => picked(options, preselected(views(options), value)) is None,
            Some(t) => picked(options, preselected(views(options), value)) matches Some(x) && x@
                == t@,
        },
{
    let o = views(options);
    assert(o[0] == options[0]@);
    match value {
        None => {},
        Some(t) => {
            assert(names.to_set().contains(t@));
            assert(o.drop_first().to_set().contains(t@));
            let k = choose|k: int| 0 <= k < o.drop_first().len() && o.drop_first()[k] == t@;
            assert(o[k + 1] == t@);
            assert(o.contains(t@));
            lemma_position_of_contains(o, t@);
            let p = position_of(o, t@);
            assert(o[p] == options[p]@);
        },
    }
}

/// A value is among the ticked values exactly when it stands beside a
/// ticked box.
pub proof fn lemma_chosen_contains(o: Seq<Seq<char>>, c: Seq<bool>, x: Seq<char>)
    ensures
        chosen(o, c).contains(x) <==> exists|i: int|
            0 <= i < o.len() && i < c.len() && #[trigger] c[i] && o[i] == x,
    decreases o.len(),
{
    if o.len() == 0 || c.len() == 0 {
    } else {
        let o1 = o.drop_first();
        let c1 = c.drop_first();
        let rest = chosen(o1, c1);
        lemma_chosen_contains(o1, c1, x);
        if chosen(o, c).contains(x) {
            if c[0] && o[0] == x {
            } else {
                if c[0] {
                    let k = choose|k: int| 0 <= k < chosen(o, c).len() && chosen(o, c)[k] == x;
                    assert(k > 0);
                    assert(rest[k - 1] == x);
                }
                assert(rest.contains(x));
                let i = choose|i: int| 0 <= i < o1.len() && i < c1.len() && #[trigger] c1[i] && o1[i] == x;
                assert(c[i + 1] && o[i + 1] == x);
            }
        }
        if exists|i: int| 0 <= i < o.len() && i < c.len() && #[trigger] c[i] && o[i] == x {
            let i = choose|i: int| 0 <= i < o.len() && i < c.len() && #[trigger] c[i] && o[i] == x;
            if i == 0 {
                assert(chosen(o, c)[0] == x);
            } else {
                assert(c1[i - 1] && o1[i - 1] == x);
                assert(rest.contains(x));
                let k = choose|k: int| 0 <= k < rest.len() && rest[k] == x;
                if c[0] {
                    assert(chosen(o, c)[k + 1] == x);
                } else {
                    assert(chosen(o, c)[k] == x);
                }
            }
        }
    }
}

/// Opening the status editor and confirming it without ticking or unticking
/// anything keeps the status filter: the ticked values are the same set of
/// values as the filter held, provided each of them is the state of some
/// issue.
pub proof fn lemma_status_editor_roundtrip(app: &App, mode: Mode)
    requires
        value_filter_opened(app, FilterKind::Status, mode),
        forall|j: int|
            0 <= j < app.filters.status@.len() ==> state_names(
                app.all_issues.deep_view(),
            ).contains(#[trigger] app.filters.status@[j]@),
    ensures
        mode matches Mode::Filter { options, checked, .. } && chosen(views(options@), checked@).to_set()
            == views(app.filters.status@).to_set(),
{
    if let Mode::Filter { options, checked, .. } = mode {
        let o = views(options@);
        let c = checked@;
        let st = views(app.filters.status@);
        let names = state_names(app.all_issues.deep_view());
        assert forall|x: Seq<char>| chosen(o, c).to_set().contains(x) <==> st.to_set().contains(x) by {
            lemma_chosen_contains(o, c, x);
            if chosen(o, c).contains(x) {
                let i = choose|i: int| 0 <= i < o.len() && i < c.len() && #[trigger] c[i] && o[i] == x;
                assert(o[i] == options@[i]@);
            }
            if st.contains(x) {
                let j = choose|j: int| 0 <= j < st.len() && st[j] == x;
                assert(st[j] == app.filters.status@[j]@);
                assert(names.contains(x));
                assert(names.to_set().contains(x));
                assert(o.to_set().contains(x));
                let i = choose|i: int| 0 <= i < o.len() && o[i] == x;
                assert(o[i] == options@[i]@);
                assert(c[i]);
            }
        }
        assert(chosen(o, c).to_set() =~= st.to_set());
    }
}

} // verus!

//! Filter dimensions, filter values and the ordering of the issue list.
use vstd::prelude::*;
use crate::linear::{Issue, IssueView};
use crate::text::{join, owned, seq_join, seq_lt, str_lt, views};

verus! {

/// The filterable dimensions, in the order the filter menu lists them.
#[derive(Clone, Copy, Debug, PartialEq, Eq, Structural)]
pub enum FilterKind {
    Team,
    Project,
    Status,
    Blocked,
}

/// Number of filter dimensions (rows of the filter menu).
pub const FILTER_KIND_COUNT: usize = 4;

/// The filter dimension shown at row `i` of the filter menu.
pub open spec fn spec_filter_kind_at(i: int) -> FilterKind {
    if i == 0 {
        FilterKind::Team
    } else if i == 1 {
        FilterKind::Project
    } else if i == 2 {
        FilterKind::Status
    } else {
        FilterKind::Blocked
    }
}

/// Row of the filter menu that shows `kind`.
pub open spec fn spec_filter_kind_index(kind: FilterKind) -> usize {
    match kind {
        FilterKind::Team => 0,
        FilterKind::Project => 1,
        FilterKind::Status => 2,
        FilterKind::Blocked => 3,
    }
}

/// The filter dimension shown at row `i` of the filter menu.
pub fn filter_kind_at(i: usize) -> (k: FilterKind)
    requires
        i < FILTER_KIND_COUNT,
    ensures
        k == spec_filter_kind_at(i as int),
{
    if i == 0 {
        FilterKind::Team
    } else if i == 1 {
        FilterKind::Project
    } else if i == 2 {
        FilterKind::Status
    } else {
        FilterKind::Blocked
    }
}

/// Row of the filter menu that shows `kind`.
pub fn filter_kind_index(kind: FilterKind) -> (i: usize)
    ensures
        i == spec_filter_kind_index(kind),
        i < FILTER_KIND_COUNT,
        spec_filter_kind_at(i as int) == kind,
{
    match kind {
        FilterKind::Team => 0,
        FilterKind::Project => 1,
        FilterKind::Status => 2,
        FilterKind::Blocked => 3,
    }
}

impl FilterKind {
    pub open spec fn spec_label(self) -> Seq<char> {
        match self {
            FilterKind::Team => "Team"@,
            FilterKind::Project => "Project"@,
            FilterKind::Status => "Status"@,
            FilterKind::Blocked => "Blocked"@,
        }
    }

    pub fn label(self) -> (r: &'static str)
        ensures
            r@ == self.spec_label(),
    {
        match self {
            FilterKind::Team => "Team",
            FilterKind::Project => "Project",
            FilterKind::Status => "Status",
            FilterKind::Blocked => "Blocked",
        }
    }

    /// Multi-select dimensions show checkboxes and accumulate values;
    /// single-select dimensions pick exactly one value (or the default).
    pub open spec fn spec_is_multi(self) -> bool {
        self == FilterKind::Status
    }

    pub fn is_multi(self) -> (r: bool)
        ensures
            r == self.spec_is_multi(),
    {
        match self {
            FilterKind::Status => true,
            _ => false,
        }
    }
}

/// Which issues the "Blocked" dimension lets through.
#[derive(Clone, Copy, Debug, PartialEq, Eq, Structural)]
pub enum BlockedFilter {
    Any,
    UnblockedOnly,
    BlockedOnly,
}

impl BlockedFilter {
    pub open spec fn spec_label(self) -> Seq<char> {
        match self {
            BlockedFilter::Any => "Any"@,
            BlockedFilter::UnblockedOnly => "Unblocked only"@,
            BlockedFilter::BlockedOnly => "Blocked only"@,
        }
    }

    pub fn label(self) -> (r: &'static str)
        ensures
            r@ == self.spec_label(),
    {
        match self {
            BlockedFilter::Any => "Any",
            BlockedFilter::UnblockedOnly => "Unblocked only",
            BlockedFilter::BlockedOnly => "Blocked only",
        }
    }

    /// Position of this value among the options of the "Blocked" menu.
    pub open spec fn spec_index(self) -> usize {
        match self {
            BlockedFilter::Any => 0,
            BlockedFilter::UnblockedOnly => 1,
            BlockedFilter::BlockedOnly => 2,
        }
    }

    pub open spec fn spec_from_index(i: usize) -> BlockedFilter {
        if i == 1 {
            BlockedFilter::UnblockedOnly
        } else if i == 2 {
            BlockedFilter::BlockedOnly
        } else {
            BlockedFilter::Any
        }
    }

    /// The value at position `i` of the "Blocked" menu; `Any` past its end.
    pub fn from_index(i: usize) -> (r: BlockedFilter)
        ensures
            r == Self::spec_from_index(i),
    {
        if i == 1 {
            BlockedFilter::UnblockedOnly
        } else if i == 2 {
            BlockedFilter::BlockedOnly
        } else {
            BlockedFilter::Any
        }
    }
}

/// Sort order of the issue list.
#[derive(Clone, Copy, Debug, PartialEq, Eq, Structural)]
pub enum SortKey {
    Updated,
    Priority,
}

impl SortKey {
    pub open spec fn spec_label(self) -> Seq<char> {
        match self {
            SortKey::Updated => "updated"@,
            SortKey::Priority => "priority"@,
        }
    }

    pub fn label(self) -> (r: &'static str)
        ensures
            r@ == self.spec_label(),
    {
        match self {
            SortKey::Updated => "updated",
            SortKey::Priority => "priority",
        }
    }

    pub open spec fn spec_toggled(self) -> SortKey {
        match self {
            SortKey::Updated => SortKey::Priority,
            SortKey::Priority => SortKey::Updated,
        }
    }

    /// The other sort order.
    pub fn toggled(self) -> (r: SortKey)
        ensures
            r == self.spec_toggled(),
    {
        match self {
            SortKey::Updated => SortKey::Priority,
            SortKey::Priority => SortKey::Updated,
        }
    }
}

/// The active filter values; `None` / empty means "all".
#[derive(Debug)]
pub struct Filters {
    pub team: Option<String>,
    pub project: Option<String>,
    pub status: Vec<String>,
    pub blocked: Option<BlockedFilter>,
}

impl Default for Filters {
    fn default() -> (r: Filters)
        ensures
            r.team is None,
            r.project is None,
            r.status@.len() == 0,
            r.blocked is None,
    {
        Filters { team: None, project: None, status: Vec::new(), blocked: None }
    }
}

impl Filters {
    /// No filter set.
    pub fn new() -> (r: Filters)
        ensures
            r.is_empty(),
    {
        Filters { team: None, project: None, status: Vec::new(), blocked: None }
    }

    /// Whether no filter value is set at all.
    pub open spec fn is_empty(&self) -> bool {
        &&& self.team is None
        &&& self.project is None
        &&& self.status@.len() == 0
        &&& self.blocked is None
    }

    pub open spec fn spec_blocked(&self) -> BlockedFilter {
        match self.blocked {
            Some(b) => b,
            None => BlockedFilter::Any,
        }
    }

    /// The "Blocked" value, `Any` when unset.
    pub fn blocked(&self) -> (r: BlockedFilter)
        ensures
            r == self.spec_blocked(),
    {
        match self.blocked {
            Some(b) => b,
            None => BlockedFilter::Any,
        }
    }

    pub open spec fn spec_is_active(&self, kind: FilterKind) -> bool {
        match kind {
            FilterKind::Team => self.team is Some,
            FilterKind::Project => self.project is Some,
            FilterKind::Status => self.status@.len() > 0,
            FilterKind::Blocked => self.spec_blocked() != BlockedFilter::Any,
        }
    }

    /// Whether the dimension `kind` currently narrows the list.
    pub fn is_active(&self, kind: FilterKind) -> (r: bool)
        ensures
            r == self.spec_is_active(kind),
    {
        match kind {
            FilterKind::Team => self.team.is_some(),
            FilterKind::Project => self.project.is_some(),
            FilterKind::Status => self.status.len() > 0,
            FilterKind::Blocked => self.blocked() != BlockedFilter::Any,
        }
    }

    pub open spec fn spec_summary(&self, kind: FilterKind) -> Seq<char> {
        match kind {
            FilterKind::Team => match self.team {
                Some(t) => t@,
                None => "All"@,
            },
            FilterKind::Project => match self.project {
                Some(p) => p@,
                None => "All"@,
            },
            FilterKind::Status => if self.status@.len() == 0 {
                "All"@
            } else {
                seq_join(views(self.status@), ", "@)
            },
            FilterKind::Blocked => self.spec_blocked().spec_label(),
        }
    }

    /// The current value(s) of dimension `kind`, as the filter menu shows them.
    pub fn summary(&self, kind: FilterKind) -> (r: String)
        ensures
            r@ == self.spec_summary(kind),
    {
        match kind {
            FilterKind::Team => match &self.team {
                Some(t) => t.clone(),
                None => owned("All"),
            },
            FilterKind::Project => match &self.project {
                Some(p) => p.clone(),
                None => owned("All"),
            },
            FilterKind::Status => {
                if self.status.len() == 0 {
                    owned("All")
                } else {
                    join(&self.status, ", ")
                }
            },
            FilterKind::Blocked => owned(self.blocked().label()),
        }
    }

    /// Removes every filter value.
    pub fn clear(&mut self)
        ensures
            final(self).is_empty(),
    {
        self.team = None;
        self.project = None;
        self.status.clear();
        self.blocked = None;
    }

    /// Whether `issue` passes every active filter.
    pub open spec fn spec_matches(&self, issue: IssueView) -> bool {
        &&& (self.team matches Some(t) ==> issue.team_name == t@)
        &&& (self.project matches Some(p) ==> (issue.project matches Some(ip) && ip == p@))
        &&& (self.status@.len() == 0 || views(self.status@).contains(issue.state.name))
        &&& match self.spec_blocked() {
            BlockedFilter::Any => true,
            BlockedFilter::UnblockedOnly => !issue.is_blocked(),
            BlockedFilter::BlockedOnly => issue.is_blocked(),
        }
    }

    pub fn matches(&self, issue: &Issue) -> (r: bool)
        ensures
            r == self.spec_matches(issue@),
    {
        let team_ok = match &self.team {
            Some(t) => issue.team.name == *t,
            None => true,
        };
        let project_ok = match &self.project {
            Some(p) => match &issue.project {
                Some(ip) => ip.name == *p,
                None => false,
            },
            None => true,
        };
        let mut status_ok = self.status.len() == 0;
        let mut k: usize = 0;
        while k < self.status.len() && !status_ok
            invariant
                k <= self.status.len(),
                status_ok == (self.status@.len() == 0 || exists|j: int|
                    0 <= j < k && #[trigger] self.status@[j]@ == issue@.state.name),
            decreases self.status.len() - k,
        {
            if self.status[k] == issue.state.name {
                status_ok = true;
            }
            k = k + 1;
        }
        proof {
            if status_ok && self.status@.len() > 0 {
                let j = choose|j: int| 0 <= j < k && #[trigger] self.status@[j]@ == issue@.state.name;
                assert(views(self.status@)[j] == issue@.state.name);
            }
            if !status_ok {
                assert forall|j: int| 0 <= j < views(self.status@).len() implies views(
                    self.status@,
                )[j] != issue@.state.name by {
                    assert(views(self.status@)[j] == self.status@[j]@);
                }
            }
        }
        let blocked_ok = match self.blocked() {
            BlockedFilter::Any => true,
            BlockedFilter::UnblockedOnly => !issue.is_blocked(),
            BlockedFilter::BlockedOnly => issue.is_blocked(),
        };
        team_ok && project_ok && status_ok && blocked_ok
    }
}

// ---------------------------------------------------------------------------
// Ordering of the visible list
// ---------------------------------------------------------------------------

/// Whether `a` must be listed before `b` under `key`: most recently updated
/// first, or by (priority rank, identifier).
pub open spec fn issue_before(key: SortKey, a: IssueView, b: IssueView) -> bool {
    match key {
        SortKey::Updated => seq_lt(b.updated_at, a.updated_at),
        SortKey::Priority => a.priority_rank() < b.priority_rank() || (a.priority_rank()
            == b.priority_rank() && seq_lt(a.identifier, b.identifier)),
    }
}

/// `s` with `x` placed right after the last element it does not have to
/// precede (at the front when it has to precede them all).
pub open spec fn insert_sorted(s: Seq<IssueView>, x: IssueView, key: SortKey) -> Seq<IssueView>
    decreases s.len(),
{
    if s.len() == 0 {
        seq![x]
    } else if issue_before(key, x, s.last()) {
        insert_sorted(s.drop_last(), x, key).push(s.last())
    } else {
        s.push(x)
    }
}

/// The stable sort of `s` under `key`: sorted, with issues that neither has to
/// precede the other kept in the order they came in (`slice::sort_by`).
pub open spec fn stable_sort(s: Seq<IssueView>, key: SortKey) -> Seq<IssueView>
    decreases s.len(),
{
    if s.len() == 0 {
        Seq::empty()
    } else {
        insert_sorted(stable_sort(s.drop_last(), key), s.last(), key)
    }
}

/// The issues of `s` that pass `f`, in order.
pub open spec fn matching(s: Seq<IssueView>, f: &Filters) -> Seq<IssueView>
    decreases s.len(),
{
    if s.len() == 0 {
        Seq::empty()
    } else if f.spec_matches(s.last()) {
        matching(s.drop_last(), f).push(s.last())
    } else {
        matching(s.drop_last(), f)
    }
}

/// The issue list shown for `all` under filters `f` and order `key`.
pub open spec fn visible_issues(all: Seq<IssueView>, f: &Filters, key: SortKey) -> Seq<IssueView> {
    stable_sort(matching(all, f), key)
}

/// Whether `a` must be listed before `b` under `key`.
pub fn precedes(key: SortKey, a: &Issue, b: &Issue) -> (r: bool)
    ensures
        r == issue_before(key, a@, b@),
{
    match key {
        SortKey::Updated => str_lt(b.updated_at.as_str(), a.updated_at.as_str()),
        SortKey::Priority => {
            let ra = a.priority_rank();
            let rb = b.priority_rank();
            ra < rb || (ra == rb && str_lt(a.identifier.as_str(), b.identifier.as_str()))
        },
    }
}

proof fn lemma_insert_sorted_at(s: Seq<IssueView>, x: IssueView, key: SortKey, k: int)
    requires
        0 <= k <= s.len(),
        forall|j: int| k <= j < s.len() ==> issue_before(key, x, #[trigger] s[j]),
        k > 0 ==> !issue_before(key, x, s[k - 1]),
    ensures
        insert_sorted(s, x, key) == s.insert(k, x),
    decreases s.len(),
{
    if s.len() == 0 {
        assert(s.insert(k, x) =~= seq![x]);
    } else if k == s.len() {
        assert(s.insert(k, x) =~= s.push(x));
    } else {
        assert(issue_before(key, x, s[s.len() - 1]));
        lemma_insert_sorted_at(s.drop_last(), x, key, k);
        assert(s.drop_last().insert(k, x).push(s.last()) =~= s.insert(k, x));
    }
}

/// Inserts `x` into `v`, which is sorted under `key`, after every element it
/// does not have to precede.
fn insert_in_order(v: &mut Vec<Issue>, x: Issue, key: SortKey)
    ensures
        final(v).deep_view() == insert_sorted(old(v).deep_view(), x@, key),
{
    let ghost s = v.deep_view();
    let mut k = v.len();
    while k > 0 && precedes(key, &x, &v[k - 1])
        invariant
            k <= v.len(),
            s == v.deep_view(),
            forall|j: int| k <= j < s.len() ==> issue_before(key, x@, #[trigger] s[j]),
        decreases k,
    {
        k = k - 1;
    }
    proof {
        lemma_insert_sorted_at(s, x@, key, k as int);
    }
    let ghost xv = x@;
    v.insert(k, x);
    assert(v.deep_view() =~= s.insert(k as int, xv));
}

/// The issues of `all` that pass `filters`, as copies, in the order `key`.
pub fn filter_and_sort(all: &Vec<Issue>, filters: &Filters, key: SortKey) -> (r: Vec<Issue>)
    ensures
        r.deep_view() == visible_issues(all.deep_view(), filters, key),
{
    let ghost a = all.deep_view();
    let mut out: Vec<Issue> = Vec::new();
    let mut i: usize = 0;
    while i < all.len()
        invariant
            a == all.deep_view(),
            i <= all.len(),
            out.deep_view() == stable_sort(matching(a.take(i as int), filters), key),
        decreases all.len() - i,
    {
        let ghost before = a.take(i as int);
        assert(a.take(i + 1).drop_last() =~= before);
        assert(a.take(i + 1).last() == all@[i as int]@);
        let ghost m = matching(before, filters);
        if filters.matches(&all[i]) {
            let copy = all[i].duplicate();
            insert_in_order(&mut out, copy, key);
            assert(m.push(all@[i as int]@).drop_last() =~= m);
        }
        i = i + 1;
    }
    assert(a.take(all.len() as int) =~= a);
    out
}


// ---------------------------------------------------------------------------
// Laws of the ordering
// ---------------------------------------------------------------------------

/// No issue has to precede itself.
pub proof fn lemma_before_irreflexive(key: SortKey, a: IssueView)
    ensures
        !issue_before(key, a, a),
{
    crate::text::lemma_seq_lt_irreflexive(a.updated_at);
    crate::text::lemma_seq_lt_irreflexive(a.identifier);
}

/// If `a` has to precede `b`, `b` does not have to precede `a`.
pub proof fn lemma_before_asymmetric(key: SortKey, a: IssueView, b: IssueView)
    requires
        issue_before(key, a, b),
    ensures
        !issue_before(key, b, a),
{
    match key {
        SortKey::Updated => crate::text::lemma_seq_lt_asymmetric(b.updated_at, a.updated_at),
        SortKey::Priority => {
            if a.priority_rank() == b.priority_rank() {
                crate::text::lemma_seq_lt_asymmetric(a.identifier, b.identifier);
            }
        },
    }
}

/// "Need not precede" is transitive.
pub proof fn lemma_not_before_transitive(key: SortKey, a: IssueView, b: IssueView, c: IssueView)
    requires
        !issue_before(key, a, b),
        !issue_before(key, b, c),
    ensures
        !issue_before(key, a, c),
{
    match key {
        SortKey::Updated => crate::text::lemma_seq_not_lt_transitive(
            c.updated_at,
            b.updated_at,
            a.updated_at,
        ),
        SortKey::Priority => {
            if a.priority_rank() == b.priority_rank() && b.priority_rank() == c.priority_rank() {
                crate::text::lemma_seq_not_lt_transitive(a.identifier, b.identifier, c.identifier);
            }
        },
    }
}

/// `s` lists no issue after one it has to precede.
pub open spec fn sorted_by(s: Seq<IssueView>, key: SortKey) -> bool {
    forall|i: int, j: int| 0 <= i < j < s.len() ==> !issue_before(key, #[trigger] s[j], #[trigger] s[i])
}

proof fn lemma_insert_sorted_multiset(s: Seq<IssueView>, x: IssueView, key: SortKey)
    ensures
        insert_sorted(s, x, key).to_multiset() == s.to_multiset().insert(x),
    decreases s.len(),
{
    broadcast use vstd::seq_lib::group_to_multiset_ensures;

    if s.len() == 0 {
        assert(seq![x] =~= Seq::<IssueView>::empty().push(x));
    } else {
        assert(s =~= s.drop_last().push(s.last()));
        if issue_before(key, x, s.last()) {
            lemma_insert_sorted_multiset(s.drop_last(), x, key);
        }
    }
}

proof fn lemma_insert_sorted_sorted(s: Seq<IssueView>, x: IssueView, key: SortKey)
    requires
        sorted_by(s, key),
    ensures
        sorted_by(insert_sorted(s, x, key), key),
    decreases s.len(),
{
    broadcast use vstd::seq_lib::group_to_multiset_ensures;

    if s.len() == 0 {
    } else if issue_before(key, x, s.last()) {
        let t = s.drop_last();
        let last = s.last();
        let u = insert_sorted(t, x, key);
        lemma_insert_sorted_sorted(t, x, key);
        lemma_insert_sorted_multiset(t, x, key);
        assert forall|i: int| 0 <= i < u.len() implies !issue_before(key, last, #[trigger] u[i]) by {
            assert(u.contains(u[i]));
            assert(u.to_multiset().count(u[i]) > 0);
            if u[i] == x {
                lemma_before_asymmetric(key, x, last);
            } else {
                assert(t.to_multiset().count(u[i]) > 0);
                assert(t.contains(u[i]));
                let k = choose|k: int| 0 <= k < t.len() && t[k] == u[i];
                assert(s[k] == t[k]);
            }
        }
        let r = u.push(last);
        assert forall|i: int, j: int| 0 <= i < j < r.len() implies !issue_before(
            key,
            #[trigger] r[j],
            #[trigger] r[i],
        ) by {
            if j == r.len() - 1 {
                assert(r[i] == u[i]);
            } else {
                assert(r[i] == u[i] && r[j] == u[j]);
            }
        }
    } else {
        let r = s.push(x);
        assert forall|i: int, j: int| 0 <= i < j < r.len() implies !issue_before(
            key,
            #[trigger] r[j],
            #[trigger] r[i],
        ) by {
            if j == r.len() - 1 {
                if i < s.len() - 1 {
                    lemma_not_before_transitive(key, x, s.last(), s[i]);
                }
            } else {
                assert(r[i] == s[i] && r[j] == s[j]);
            }
        }
    }
}

/// The stable sort lists no issue after one it has to precede, and holds
/// exactly the issues it was given.
pub proof fn lemma_stable_sort(s: Seq<IssueView>, key: SortKey)
    ensures
        sorted_by(stable_sort(s, key), key),
        stable_sort(s, key).to_multiset() == s.to_multiset(),
    decreases s.len(),
{
    broadcast use vstd::seq_lib::group_to_multiset_ensures;

    if s.len() > 0 {
        lemma_stable_sort(s.drop_last(), key);
        lemma_insert_sorted_sorted(stable_sort(s.drop_last(), key), s.last(), key);
        lemma_insert_sorted_multiset(stable_sort(s.drop_last(), key), s.last(), key);
        assert(s =~= s.drop_last().push(s.last()));
    }
}

/// An issue is among those matching `f` exactly when it is in `s` and passes `f`.
pub proof fn lemma_matching_contains(s: Seq<IssueView>, f: &Filters, x: IssueView)
    ensures
        matching(s, f).contains(x) <==> (s.contains(x) && f.spec_matches(x)),
    decreases s.len(),
{
    if s.len() > 0 {
        lemma_matching_contains(s.drop_last(), f, x);
        assert(s =~= s.drop_last().push(s.last()));
        let m = matching(s.drop_last(), f);
        if s.contains(x) && x != s.last() {
            let k = choose|k: int| 0 <= k < s.len() && s[k] == x;
            assert(s.drop_last()[k] == x);
        }
        if f.spec_matches(s.last()) {
            let mp = m.push(s.last());
            if mp.contains(x) && x != s.last() {
                let k = choose|k: int| 0 <= k < mp.len() && mp[k] == x;
                assert(m[k] == x);
            }
            if m.contains(x) {
                let k = choose|k: int| 0 <= k < m.len() && m[k] == x;
                assert(mp[k] == x);
            }
            assert(mp[m.len() as int] == s.last());
        }
        if s.drop_last().contains(x) {
            let k = choose|k: int| 0 <= k < s.drop_last().len() && s.drop_last()[k] == x;
            assert(s[k] == x);
        }
    }
}

/// Filtering never lengthens a list.
pub proof fn lemma_matching_len(s: Seq<IssueView>, f: &Filters)
    ensures
        matching(s, f).len() <= s.len(),
    decreases s.len(),
{
    if s.len() > 0 {
        lemma_matching_len(s.drop_last(), f);
    }
}

/// The visible list is ordered by `key`, and an issue is visible exactly as
/// often as it occurs among the issues that pass the filters: filtering and
/// sorting neither lose nor invent issues.
pub proof fn lemma_visible_issues(all: Seq<IssueView>, f: &Filters, key: SortKey)
    ensures
        sorted_by(visible_issues(all, f, key), key),
        visible_issues(all, f, key).to_multiset() == matching(all, f).to_multiset(),
        forall|x: IssueView|
            visible_issues(all, f, key).contains(x) <==> (all.contains(x) && f.spec_matches(x)),
{
    broadcast use vstd::seq_lib::group_to_multiset_ensures;

    lemma_stable_sort(matching(all, f), key);
    assert forall|x: IssueView|
        visible_issues(all, f, key).contains(x) <==> (all.contains(x) && f.spec_matches(x)) by {
        lemma_matching_contains(all, f, x);
        assert(visible_issues(all, f, key).to_multiset().count(x) == matching(all, f).to_multiset().count(x));
    }
}


/// Toggling the order twice gives the order back.
pub proof fn lemma_toggled_twice(k: SortKey)
    ensures
        k.spec_toggled().spec_toggled() == k,
{
}

/// The row of a "Blocked" value, read back, is that value: confirming the
/// "Blocked" editor without moving its cursor keeps the filter.
pub proof fn lemma_blocked_row_roundtrip(b: BlockedFilter)
    ensures
        BlockedFilter::spec_from_index(b.spec_index()) == b,
{
}

/// With no filter set every issue passes, so the list shows all issues.
pub proof fn lemma_no_filter_matches_all(f: &Filters, all: Seq<IssueView>)
    requires
        f.is_empty(),
    ensures
        matching(all, f) == all,
    decreases all.len(),
{
    if all.len() > 0 {
        lemma_no_filter_matches_all(f, all.drop_last());
        assert(all.drop_last().push(all.last()) =~= all);
    }
}

/// The filter menu has a row for each dimension, in order, and each
/// dimension's row shows that dimension.
pub proof fn lemma_filter_rows(k: FilterKind)
    ensures
        spec_filter_kind_index(k) < FILTER_KIND_COUNT,
        spec_filter_kind_at(spec_filter_kind_index(k) as int) == k,
{
}


/// Sorting a list that is already in order changes nothing: issues that
/// neither has to precede the other keep their order.
pub proof fn lemma_stable_sort_keeps_sorted(s: Seq<IssueView>, key: SortKey)
    requires
        sorted_by(s, key),
    ensures
        stable_sort(s, key) == s,
    decreases s.len(),
{
    if s.len() > 0 {
        let t = s.drop_last();
        assert forall|i: int, j: int| 0 <= i < j < t.len() implies !issue_before(
            key,
            #[trigger] t[j],
            #[trigger] t[i],
        ) by {
            assert(t[i] == s[i] && t[j] == s[j]);
        }
        lemma_stable_sort_keeps_sorted(t, key);
        if t.len() > 0 {
            assert(!issue_before(key, s[s.len() - 1], s[s.len() - 2]));
            assert(t.last() == s[s.len() - 2]);
        }
        assert(t.push(s.last()) =~= s);
    }
}

/// The "Blocked" filter: "Unblocked only" lets no blocked issue through,
/// "Blocked only" lets no unblocked one through, and with no other filter
/// set each lets through exactly the issues of its kind ("Any" lets every
/// issue through).
pub proof fn lemma_blocked_filter(f: &Filters, issue: IssueView)
    ensures
        f.spec_blocked() == BlockedFilter::UnblockedOnly && issue.is_blocked() ==> !f.spec_matches(issue),
        f.spec_blocked() == BlockedFilter::BlockedOnly && !issue.is_blocked() ==> !f.spec_matches(issue),
        f.team is None && f.project is None && f.status@.len() == 0 ==> (f.spec_matches(issue) <==> (
        f.spec_blocked() == BlockedFilter::Any || (f.spec_blocked() == BlockedFilter::UnblockedOnly
            && !issue.is_blocked()) || (f.spec_blocked() == BlockedFilter::BlockedOnly
            && issue.is_blocked()))),
{
}

/// Each filter dimension that is set excludes the issues that fail it: a
/// team filter those of other teams, a project filter those of other (or no)
/// projects, a non-empty status filter those in other states.
pub proof fn lemma_set_filters_exclude(f: &Filters, issue: IssueView)
    ensures
        f.team matches Some(t) && issue.team_name != t@ ==> !f.spec_matches(issue),
        f.project matches Some(p) && !(issue.project == Some(p@)) ==> !f.spec_matches(issue),
        (f.status@.len() > 0 && (forall|j: int|
            0 <= j < f.status@.len() ==> #[trigger] f.status@[j]@ != issue.state.name))
            ==> !f.spec_matches(issue),
{
    if f.status@.len() > 0 && forall|j: int| 0 <= j < f.status@.len() ==> #[trigger] f.status@[j]@
        != issue.state.name {
        if views(f.status@).contains(issue.state.name) {
            let j = choose|j: int| 0 <= j < views(f.status@).len() && views(f.status@)[j] == issue.state.name;
            assert(f.status@[j]@ == views(f.status@)[j]);
        }
    }
}

} // verus!

//! The slice of Linear's issue data that the browser works with.
use vstd::prelude::*;
use crate::text::{decimal, join, owned, push_decimal, seq_join, str_eq, views};

verus! {

/// The workflow state embedded on an issue.
#[derive(Clone, Debug)]
pub struct State {
    pub id: String,
    pub name: String,
    /// Linear's state category: "backlog", "unstarted", "started",
    /// "completed", "canceled", ...
    pub state_type: String,
}

#[derive(Clone, Debug)]
pub struct Team {
    pub id: String,
    pub name: String,
    pub key: String,
}

#[derive(Clone, Debug)]
pub struct Project {
    pub name: String,
}

#[derive(Clone, Debug)]
pub struct Assignee {
    pub name: String,
}

#[derive(Clone, Debug)]
pub struct RelatedIssue {
    pub state: State,
}

#[derive(Clone, Debug)]
pub struct IssueRelation {
    pub relation_type: String,
    pub related_issue: RelatedIssue,
}

#[derive(Clone, Debug)]
pub struct RelationConnection {
    pub nodes: Vec<IssueRelation>,
}

/// An issue as the browser lists it. `priority` is Linear's priority number:
/// 0 for none, then 1 (urgent) to 4 (low).
#[derive(Clone, Debug)]
pub struct Issue {
    pub id: String,
    pub identifier: String,
    pub title: String,
    pub priority: i64,
    pub state: State,
    pub team: Team,
    pub project: Option<Project>,
    pub updated_at: String,
    pub url: String,
    pub description: Option<String>,
    pub assignee: Option<Assignee>,
    pub inverse_relations: RelationConnection,
}

/// One entry of a team's workflow (an available status), in board order.
#[derive(Clone, Debug)]
pub struct WorkflowState {
    pub id: String,
    pub name: String,
    pub state_type: String,
}

impl State {
    /// A copy of this state.
    pub fn duplicate(&self) -> (r: State)
        ensures
            r == *self,
    {
        State { id: self.id.clone(), name: self.name.clone(), state_type: self.state_type.clone() }
    }
}

impl Team {
    /// A copy of this team.
    pub fn duplicate(&self) -> (r: Team)
        ensures
            r == *self,
    {
        Team { id: self.id.clone(), name: self.name.clone(), key: self.key.clone() }
    }
}

impl WorkflowState {
    /// A copy of this workflow state.
    pub fn duplicate(&self) -> (r: WorkflowState)
        ensures
            r == *self,
    {
        WorkflowState {
            id: self.id.clone(),
            name: self.name.clone(),
            state_type: self.state_type.clone(),
        }
    }
}

/// A copy of an optional string.
pub fn duplicate_opt_string(s: &Option<String>) -> (r: Option<String>)
    ensures
        r == *s,
{
    match s {
        Some(x) => Some(x.clone()),
        None => None,
    }
}

/// The mathematical content of a state.
pub struct StateView {
    pub id: Seq<char>,
    pub name: Seq<char>,
    pub state_type: Seq<char>,
}

/// The mathematical content of a relation on an issue: its type and the
/// state of the issue on the other end.
pub struct RelationView {
    pub relation_type: Seq<char>,
    pub related_state: StateView,
}

/// The mathematical content of an issue.
pub struct IssueView {
    pub id: Seq<char>,
    pub identifier: Seq<char>,
    pub title: Seq<char>,
    pub priority: i64,
    pub state: StateView,
    pub team_id: Seq<char>,
    pub team_name: Seq<char>,
    pub team_key: Seq<char>,
    pub project: Option<Seq<char>>,
    pub updated_at: Seq<char>,
    pub url: Seq<char>,
    pub description: Option<Seq<char>>,
    pub assignee: Option<Seq<char>>,
    pub relations: Seq<RelationView>,
}

impl View for State {
    type V = StateView;

    open spec fn view(&self) -> StateView {
        StateView { id: self.id@, name: self.name@, state_type: self.state_type@ }
    }
}

impl View for IssueRelation {
    type V = RelationView;

    open spec fn view(&self) -> RelationView {
        RelationView { relation_type: self.relation_type@, related_state: self.related_issue.state@ }
    }
}

impl View for Issue {
    type V = IssueView;

    open spec fn view(&self) -> IssueView {
        IssueView {
            id: self.id@,
            identifier: self.identifier@,
            title: self.title@,
            priority: self.priority,
            state: self.state@,
            team_id: self.team.id@,
            team_name: self.team.name@,
            team_key: self.team.key@,
            project: match self.project {
                Some(p) => Some(p.name@),
                None => None,
            },
            updated_at: self.updated_at@,
            url: self.url@,
            description: match self.description {
                Some(d) => Some(d@),
                None => None,
            },
            assignee: match self.assignee {
                Some(a) => Some(a.name@),
                None => None,
            },
            relations: self.inverse_relations.nodes@.map_values(|r: IssueRelation| r@),
        }
    }
}

impl DeepView for Issue {
    type V = IssueView;

    open spec fn deep_view(&self) -> IssueView {
        self@
    }
}

/// Whether a state is in the "completed" or "canceled" category.
pub open spec fn state_is_done(s: StateView) -> bool {
    s.state_type == "completed"@ || s.state_type == "canceled"@
}

impl RelationView {
    /// Whether this relation makes its issue blocked: a "blocks" relation
    /// from an issue that is not done.
    pub open spec fn blocks(self) -> bool {
        self.relation_type == "blocks"@ && !state_is_done(self.related_state)
    }
}

impl IssueView {
    /// True if another (non-completed, non-cancelled) issue blocks this one.
    pub open spec fn is_blocked(self) -> bool {
        exists|k: int| 0 <= k < self.relations.len() && #[trigger] self.relations[k].blocks()
    }

    /// Sort rank of a priority, lower sorting first:
    /// Urgent(1) < High(2) < Medium(3) < Low(4) < None(0).
    pub open spec fn priority_rank(self) -> i64 {
        if self.priority == 0 {
            5
        } else {
            self.priority
        }
    }
}

impl RelatedIssue {
    pub fn is_done(&self) -> (r: bool)
        ensures
            r == state_is_done(self.state@),
    {
        str_eq(self.state.state_type.as_str(), "completed") || str_eq(
            self.state.state_type.as_str(),
            "canceled",
        )
    }
}

impl Issue {
    /// True if another (non-completed, non-cancelled) issue blocks this one.
    pub fn is_blocked(&self) -> (r: bool)
        ensures
            r == self@.is_blocked(),
    {
        let nodes = &self.inverse_relations.nodes;
        let ghost rel = self@.relations;
        let mut k: usize = 0;
        while k < nodes.len()
            invariant
                nodes == &self.inverse_relations.nodes,
                rel == nodes@.map_values(|r: IssueRelation| r@),
                k <= nodes.len(),
                forall|j: int| 0 <= j < k ==> !(#[trigger] rel[j].blocks()),
            decreases nodes.len() - k,
        {
            let r = &nodes[k];
            if str_eq(r.relation_type.as_str(), "blocks") && !r.related_issue.is_done() {
                assert(rel[k as int] == nodes@[k as int]@);
                assert(rel[k as int].blocks());
                assert(self@.relations == rel);
                return true;
            }
            k = k + 1;
        }
        assert(self@.relations == rel);
        assert(!self@.is_blocked());
        false
    }

    /// Sort rank of the priority, lower sorting first:
    /// Urgent(1) < High(2) < Medium(3) < Low(4) < None(0).
    pub fn priority_rank(&self) -> (r: i64)
        ensures
            r == self@.priority_rank(),
    {
        let p = self.priority;
        if p == 0 {
            5
        } else {
            p
        }
    }

    /// A copy of this issue.
    pub fn duplicate(&self) -> (r: Issue)
        ensures
            r@ == self@,
    {
        let project = match &self.project {
            Some(p) => Some(Project { name: p.name.clone() }),
            None => None,
        };
        let assignee = match &self.assignee {
            Some(a) => Some(Assignee { name: a.name.clone() }),
            None => None,
        };
        let mut nodes: Vec<IssueRelation> = Vec::new();
        let src = &self.inverse_relations.nodes;
        let mut k: usize = 0;
        while k < src.len()
            invariant
                src == &self.inverse_relations.nodes,
                k <= src.len(),
                nodes@ == src@.take(k as int),
            decreases src.len() - k,
        {
            let r = &src[k];
            nodes.push(
                IssueRelation {
                    relation_type: r.relation_type.clone(),
                    related_issue: RelatedIssue { state: r.related_issue.state.duplicate() },
                },
            );
            assert(src@.take(k + 1) =~= src@.take(k as int).push(src@[k as int]));
            k = k + 1;
        }
        assert(src@.take(src.len() as int) =~= src@);
        let r = Issue {
            id: self.id.clone(),
            identifier: self.identifier.clone(),
            title: self.title.clone(),
            priority: self.priority,
            state: self.state.duplicate(),
            team: self.team.duplicate(),
            project,
            updated_at: self.updated_at.clone(),
            url: self.url.clone(),
            description: duplicate_opt_string(&self.description),
            assignee,
            inverse_relations: RelationConnection { nodes },
        };
        assert(r@.relations =~= self@.relations);
        r
    }
}


// ---------------------------------------------------------------------------
// Interpreting API responses
// ---------------------------------------------------------------------------

/// A team found by name, with its projects.
#[derive(Clone, Debug)]
pub struct TeamWithProjects {
    pub id: String,
    pub projects: Vec<ProjectWithId>,
}

/// A project with the id the API's mutations need.
#[derive(Clone, Debug)]
pub struct ProjectWithId {
    pub id: String,
    pub name: String,
}

/// Why a request to Linear's API did not give what was asked for.
#[derive(Debug)]
pub enum ApiError {
    /// The response listed errors (their messages).
    Api(Vec<String>),
    /// The HTTP status was not a success.
    Status(u16),
    /// The response had neither errors nor data.
    NoData,
    /// No team has the given name.
    NoTeam(String),
    /// The team has no project of the given name.
    NoProject { project: String, team: String },
    /// The API reported that the status update failed.
    UpdateFailed,
    /// The API reported that creating the issue failed.
    CreateFailed,
    /// The API did not return the issue it created.
    NoCreatedIssue,
}

/// The reason phrase `http::StatusCode::canonical_reason` gives for `code`.
pub uninterp spec fn http_reason(code: u16) -> Option<Seq<char>>;

/// The reason phrase of HTTP status `code`, from
/// `reqwest::StatusCode::from_u16(code)` and `canonical_reason`; `None` for a
/// code outside 100..=999, which `from_u16` rejects. The phrase itself comes
/// from the crate's table and is named, not stated.
#[verifier::external_body]
fn status_reason(code: u16) -> (r: Option<&'static str>)
    ensures
        match r {
            Some(s) => http_reason(code) == Some(s@),
            None => http_reason(code) is None,
        },
        !(100 <= code <= 999) ==> r is None,
{
    match reqwest::StatusCode::from_u16(code) {
        Ok(status) => status.canonical_reason(),
        Err(_) => None,
    }
}

/// How HTTP status `code` reads (`StatusCode`'s `Display`).
pub open spec fn status_text(code: u16) -> Seq<char> {
    decimal(code as nat) + " "@ + match http_reason(code) {
        Some(r) => r,
        None => "<unknown status code>"@,
    }
}

impl ApiError {
    pub open spec fn spec_message(&self) -> Seq<char> {
        match self {
            ApiError::Api(msgs) => "Linear API error(s): "@ + seq_join(views(msgs@), "; "@),
            ApiError::Status(code) => "Linear API request failed with status "@ + status_text(
                *code,
            ),
            ApiError::NoData => "Linear API response had no data"@,
            ApiError::NoTeam(team) => "no Linear team named '"@ + team@ + "'"@,
            ApiError::NoProject { project, team } => "no project named '"@ + project@
                + "' in team '"@ + team@ + "'"@,
            ApiError::UpdateFailed => "Linear API reported failure updating issue status"@,
            ApiError::CreateFailed => "Linear API reported failure creating issue"@,
            ApiError::NoCreatedIssue => "Linear API did not return the created issue"@,
        }
    }

    /// The error's description.
    pub fn message(&self) -> (r: String)
        ensures
            r@ == self.spec_message(),
    {
        match self {
            ApiError::Api(msgs) => {
                let mut s = owned("Linear API error(s): ");
                let joined = join(msgs, "; ");
                s.append(joined.as_str());
                s
            },
            ApiError::Status(code) => {
                let mut s = owned("Linear API request failed with status ");
                push_decimal(&mut s, *code as u64);
                s.append(" ");
                match status_reason(*code) {
                    Some(r) => s.append(r),
                    None => s.append("<unknown status code>"),
                }
                s
            },
            ApiError::NoData => owned("Linear API response had no data"),
            ApiError::NoTeam(team) => {
                let mut s = owned("no Linear team named '");
                s.append(team.as_str());
                s.append("'");
                s
            },
            ApiError::NoProject { project, team } => {
                let mut s = owned("no project named '");
                s.append(project.as_str());
                s.append("' in team '");
                s.append(team.as_str());
                s.append("'");
                s
            },
            ApiError::UpdateFailed => owned("Linear API reported failure updating issue status"),
            ApiError::CreateFailed => owned("Linear API reported failure creating issue"),
            ApiError::NoCreatedIssue => owned("Linear API did not return the created issue"),
        }
    }
}

/// Whether HTTP status `code` is a success (200 to 299).
pub open spec fn is_success(code: u16) -> bool {
    200 <= code <= 299
}

/// The outcome of a GraphQL response with HTTP status `status`: its errors
/// if it lists any (even an empty list), else a failed status, else its
/// data, which must be present.
pub fn response_outcome<T>(status: u16, data: Option<T>, errors: Option<Vec<String>>) -> (r: Result<
    T,
    ApiError,
>)
    ensures
        match errors {
            Some(msgs) => r matches Err(ApiError::Api(m)) && m@ == msgs@,
            None => if !is_success(status) {
                r matches Err(ApiError::Status(c)) && c == status
            } else {
                match data {
                    Some(d) => r == Ok::<T, ApiError>(d),
                    None => r matches Err(ApiError::NoData),
                }
            },
        },
{
    match errors {
        Some(msgs) => Err(ApiError::Api(msgs)),
        None => {
            if !(200 <= status && status <= 299) {
                Err(ApiError::Status(status))
            } else {
                match data {
                    Some(d) => Ok(d),
                    None => Err(ApiError::NoData),
                }
            }
        },
    }
}

/// The ids for a team name and optional project name, from the teams the
/// API returned for that name: the first team, and in it the first project
/// with that name.
pub fn pick_team_project(teams: Vec<TeamWithProjects>, team_name: &str, project_name: Option<&str>) -> (r:
    Result<(String, Option<String>), ApiError>)
    ensures
        teams@.len() == 0 ==> (r matches Err(ApiError::NoTeam(t)) && t@ == team_name@),
        teams@.len() > 0 ==> match project_name {
            None => (r matches Ok((tid, None)) && tid == teams@[0].id),
            Some(p) => {
                let ps = teams@[0].projects@;
                if exists|k: int| 0 <= k < ps.len() && ps[k].name@ == p@ {
                    (r matches Ok((tid, Some(pid))) && tid == teams@[0].id && exists|k: int|
                        0 <= k < ps.len() && ps[k].name@ == p@ && pid == ps[k].id && forall|j: int|
                            0 <= j < k ==> #[trigger] ps[j].name@ != p@)
                } else {
                    (r matches Err(ApiError::NoProject { project, team }) && project@ == p@
                        && team@ == team_name@)
                }
            },
        },
{
    if teams.len() == 0 {
        return Err(ApiError::NoTeam(owned(team_name)));
    }
    let team = &teams[0];
    match project_name {
        None => Ok((team.id.clone(), None)),
        Some(p) => {
            let ps = &team.projects;
            let mut k: usize = 0;
            while k < ps.len()
                invariant
                    teams@.len() > 0,
                    team == &teams@[0],
                    project_name == Some(p),
                    ps == &teams@[0].projects,
                    k <= ps.len(),
                    forall|j: int| 0 <= j < k ==> #[trigger] ps@[j].name@ != p@,
                decreases ps.len() - k,
            {
                if str_eq(ps[k].name.as_str(), p) {
                    return Ok((team.id.clone(), Some(ps[k].id.clone())));
                }
                k = k + 1;
            }
            Err(ApiError::NoProject { project: owned(p), team: owned(team_name) })
        },
    }
}

/// The outcome of a status update the API answered with `success`.
pub fn update_outcome(success: bool) -> (r: Result<(), ApiError>)
    ensures
        success ==> r is Ok,
        !success ==> r matches Err(ApiError::UpdateFailed),
{
    if success {
        Ok(())
    } else {
        Err(ApiError::UpdateFailed)
    }
}

/// The outcome of creating an issue, answered with `success` and the issue.
pub fn create_outcome(success: bool, issue: Option<Issue>) -> (r: Result<Issue, ApiError>)
    ensures
        !success ==> r matches Err(ApiError::CreateFailed),
        success ==> match issue {
            Some(i) => r == Ok::<Issue, ApiError>(i),
            None => r matches Err(ApiError::NoCreatedIssue),
        },
{
    if !success {
        return Err(ApiError::CreateFailed);
    }
    match issue {
        Some(i) => Ok(i),
        None => Err(ApiError::NoCreatedIssue),
    }
}

/// A relation blocks its issue exactly when it is of type "blocks" and the
/// blocking issue is neither completed nor cancelled; an issue is blocked
/// exactly when one of its relations blocks it.
pub proof fn lemma_blocked_by_open_blocker(issue: IssueView)
    ensures
        forall|k: int|
            0 <= k < issue.relations.len() ==> (#[trigger] issue.relations[k].blocks() <==> (
            issue.relations[k].relation_type == "blocks"@
                && issue.relations[k].related_state.state_type != "completed"@
                && issue.relations[k].related_state.state_type != "canceled"@)),
        issue.is_blocked() <==> exists|k: int|
            0 <= k < issue.relations.len() && #[trigger] issue.relations[k].relation_type
                == "blocks"@ && issue.relations[k].related_state.state_type != "completed"@
                && issue.relations[k].related_state.state_type != "canceled"@,
{
    if issue.is_blocked() {
        let k = choose|k: int| 0 <= k < issue.relations.len() && #[trigger] issue.relations[k].blocks();
        assert(issue.relations[k].relation_type == "blocks"@);
    }
    if exists|k: int|
        0 <= k < issue.relations.len() && #[trigger] issue.relations[k].relation_type == "blocks"@
            && issue.relations[k].related_state.state_type != "completed"@
            && issue.relations[k].related_state.state_type != "canceled"@ {
        let k = choose|k: int|
            0 <= k < issue.relations.len() && #[trigger] issue.relations[k].relation_type
                == "blocks"@ && issue.relations[k].related_state.state_type != "completed"@
                && issue.relations[k].related_state.state_type != "canceled"@;
        assert(issue.relations[k].blocks());
    }
}

} // verus!

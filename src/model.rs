//! The data that the engine reads and produces.
use vstd::prelude::*;

use crate::text::views;

verus! {

/// A team that a goal asks for help, as the team registry describes it.
pub struct TeamRef {
    /// The team's name.
    pub name: String,
    /// The issue label that marks the team's involvement.
    pub label: String,
    /// The team's name rendered as a markdown link.
    pub name_and_link: String,
}

/// Who a plan item names as its owners.
pub enum ParsedOwners {
    /// Teams asked to do the work, each rendered as a markdown link.
    TeamAsks(Vec<String>),
    /// Plain user names.
    Usernames(Vec<String>),
}

/// One entry of a goal plan.
pub struct PlanItem {
    pub text: String,
    pub complete: bool,
    pub owners: Option<ParsedOwners>,
}

/// A section of a goal plan: an optional subgoal heading and its items.
pub struct GoalPlan {
    pub subgoal: Option<String>,
    pub plan_items: Vec<PlanItem>,
}

/// A goal document, as parsed from its markdown file.
pub struct GoalDocument {
    pub title: String,
    pub summary: String,
    /// The user names of the point of contact(s).
    pub owner_usernames: Vec<String>,
    /// The number of the declared tracking issue, if any.
    pub tracking_issue: Option<u64>,
    pub is_flagship: bool,
    /// The teams that the goal has asks for, in declaration order.
    pub teams_with_asks: Vec<TeamRef>,
    pub goal_plans: Vec<GoalPlan>,
    /// The file stem of the document's page in the goal book.
    pub link_stem: String,
    /// Where the document is stored, for display.
    pub path: String,
    /// The goal was marked as not accepted; such documents get no issue.
    pub not_accepted: bool,
}

/// An entry of the person directory.
pub struct Person {
    pub username: String,
    pub github: String,
}

/// The issue that should exist for a goal document.
pub struct GithubIssue {
    pub title: String,
    /// Handles of the assignees, without repetition.
    pub assignees: Vec<String>,
    pub body: String,
    pub labels: Vec<String>,
    pub tracking_issue: Option<u64>,
    /// Index of the source document in the document list.
    pub goal_document: usize,
}

/// An issue as the tracker reports it.
pub struct ExistingIssue {
    pub number: u64,
    pub title: String,
    pub assignees: Vec<String>,
    /// The title of the issue's milestone, if it has one.
    pub milestone: Option<String>,
    pub body: String,
    pub locked: bool,
}

/// A label of the tracker.
pub struct GhLabel {
    pub name: String,
    pub color: String,
}

/// One corrective operation on the tracker.
pub enum GithubAction {
    CreateLabel { label: GhLabel },
    CreateIssue { issue: GithubIssue },
    ChangeTitle { number: u64, title: String },
    ChangeMilestone { number: u64, milestone: String },
    Comment { number: u64, body: String },
    UpdateIssueBody { number: u64, body: String },
    SyncAssignees { number: u64, remove_owners: Vec<String>, add_owners: Vec<String> },
    LockIssue { number: u64 },
    LinkToTrackingIssue { goal_document: usize, issue_id: u64 },
}

/// The value of a desired issue.
pub struct IssueV {
    pub title: Seq<char>,
    pub assignees: Seq<Seq<char>>,
    pub body: Seq<char>,
    pub labels: Seq<Seq<char>>,
    pub tracking_issue: Option<u64>,
    pub goal_document: int,
}

/// The value of an existing issue.
pub struct ExistingV {
    pub number: u64,
    pub title: Seq<char>,
    pub assignees: Seq<Seq<char>>,
    pub milestone: Option<Seq<char>>,
    pub body: Seq<char>,
    pub locked: bool,
}

/// The value of an action.
pub enum ActionV {
    CreateLabel { name: Seq<char>, color: Seq<char> },
    CreateIssue { issue: IssueV },
    ChangeTitle { number: u64, title: Seq<char> },
    ChangeMilestone { number: u64, milestone: Seq<char> },
    Comment { number: u64, body: Seq<char> },
    UpdateIssueBody { number: u64, body: Seq<char> },
    SyncAssignees { number: u64, remove: Seq<Seq<char>>, add: Seq<Seq<char>> },
    LockIssue { number: u64 },
    LinkToTrackingIssue { goal_document: int, number: u64 },
}

impl View for GithubIssue {
    type V = IssueV;

    open spec fn view(&self) -> IssueV {
        IssueV {
            title: self.title@,
            assignees: views(self.assignees@),
            body: self.body@,
            labels: views(self.labels@),
            tracking_issue: self.tracking_issue,
            goal_document: self.goal_document as int,
        }
    }
}

impl View for ExistingIssue {
    type V = ExistingV;

    open spec fn view(&self) -> ExistingV {
        ExistingV {
            number: self.number,
            title: self.title@,
            assignees: views(self.assignees@),
            milestone: match self.milestone {
                Some(m) => Some(m@),
                None => None,
            },
            body: self.body@,
            locked: self.locked,
        }
    }
}

impl View for GithubAction {
    type V = ActionV;

    open spec fn view(&self) -> ActionV {
        match self {
            GithubAction::CreateLabel { label } => ActionV::CreateLabel {
                name: label.name@,
                color: label.color@,
            },
            GithubAction::CreateIssue { issue } => ActionV::CreateIssue { issue: issue@ },
            GithubAction::ChangeTitle { number, title } => ActionV::ChangeTitle {
                number: *number,
                title: title@,
            },
            GithubAction::ChangeMilestone { number, milestone } => ActionV::ChangeMilestone {
                number: *number,
                milestone: milestone@,
            },
            GithubAction::Comment { number, body } => ActionV::Comment {
                number: *number,
                body: body@,
            },
            GithubAction::UpdateIssueBody { number, body } => ActionV::UpdateIssueBody {
                number: *number,
                body: body@,
            },
            GithubAction::SyncAssignees { number, remove_owners, add_owners } =>
                ActionV::SyncAssignees {
                    number: *number,
                    remove: views(remove_owners@),
                    add: views(add_owners@),
                },
            GithubAction::LockIssue { number } => ActionV::LockIssue { number: *number },
            GithubAction::LinkToTrackingIssue { goal_document, issue_id } =>
                ActionV::LinkToTrackingIssue {
                    goal_document: *goal_document as int,
                    number: *issue_id,
                },
        }
    }
}

/// The values of a list of actions.
pub open spec fn action_views(v: Seq<GithubAction>) -> Seq<ActionV> {
    v.map_values(|a: GithubAction| a@)
}

/// The values of a list of existing issues.
pub open spec fn existing_views(v: Seq<ExistingIssue>) -> Seq<ExistingV> {
    v.map_values(|e: ExistingIssue| e@)
}

} // verus!

//! The diff engine: matching desired issues to existing ones and computing the
//! corrective actions.
use vstd::prelude::*;

use crate::desired::{desired_issue, document_link, goal_document_link, issue};
use crate::model::{
    action_views, existing_views, ActionV, ExistingIssue, ExistingV, GithubAction, GithubIssue,
    GoalDocument, IssueV, Person,
};
use crate::order::{order_actions, ordered, sort_by, sort_strings, str_le};
use crate::text::{contains_text, list_contains, lists_equal, text_contains, views};

verus! {

/// The elements of `a` that `b` lacks, in the order of `a`.
pub open spec fn minus(a: Seq<Seq<char>>, b: Seq<Seq<char>>) -> Seq<Seq<char>>
    decreases a.len(),
{
    if a.len() == 0 {
        Seq::empty()
    } else {
        let r = minus(a.drop_last(), b);
        if b.contains(a.last()) {
            r
        } else {
            r.push(a.last())
        }
    }
}

/// The text that opens the comment posted when an issue moves to a new milestone.
pub open spec fn continuing_prefix() -> Seq<char> {
    "This is a continuing project goal, and the updates below this comment will be for the new period"@
}

/// The comment posted when an issue moves to the milestone `timeframe`.
pub open spec fn continuing_comment(timeframe: Seq<char>) -> Seq<char> {
    continuing_prefix() + " "@ + timeframe
}

/// The comment posted when an issue is locked.
pub open spec fn lock_text() -> Seq<char> {
    "This issue is intended for status updates only.\n\nFor general questions or comments, please contact the owner(s) directly."@
}

/// The new body of an issue whose body lacks the document's permalink: the
/// desired body, a notice, and the whole previous body.
pub open spec fn updated_body(desired: Seq<char>, timeframe: Seq<char>, previous: Seq<char>) -> Seq<char> {
    desired + "\n---\nNote: we have updated the body to match the "@ + timeframe
        + " goal. Your original text is preserved below. <details>\n"@ + previous
        + "\n</details>"@
}

/// Assignees: one sync when the two lists differ as sets; the handles to
/// remove and to add are each in ascending order.
pub open spec fn sync_part(d: IssueV, e: ExistingV) -> Seq<ActionV> {
    let remove = sort_by(minus(e.assignees, d.assignees), str_le());
    let add = sort_by(minus(d.assignees, e.assignees), str_le());
    if remove.len() > 0 || add.len() > 0 {
        seq![ActionV::SyncAssignees { number: e.number, remove, add }]
    } else {
        Seq::empty()
    }
}

/// Title: a change when the titles differ.
pub open spec fn title_part(d: IssueV, e: ExistingV) -> Seq<ActionV> {
    if e.title != d.title {
        seq![ActionV::ChangeTitle { number: e.number, title: d.title }]
    } else {
        Seq::empty()
    }
}

/// Milestone: a move and its comment when the issue is not in `timeframe`.
pub open spec fn milestone_part(timeframe: Seq<char>, e: ExistingV) -> Seq<ActionV> {
    if e.milestone != Some(timeframe) {
        seq![
            ActionV::ChangeMilestone { number: e.number, milestone: timeframe },
            ActionV::Comment { number: e.number, body: continuing_comment(timeframe) },
        ]
    } else {
        Seq::empty()
    }
}

/// Lock: the lock and its notice when the issue is not locked.
pub open spec fn lock_part(e: ExistingV) -> Seq<ActionV> {
    if !e.locked {
        seq![ActionV::LockIssue { number: e.number }, ActionV::Comment { number: e.number, body: lock_text() }]
    } else {
        Seq::empty()
    }
}

/// Body: a new body when the existing one lacks the permalink `link`.
pub open spec fn body_part(timeframe: Seq<char>, link: Seq<char>, d: IssueV, e: ExistingV) -> Seq<ActionV> {
    if !contains_text(e.body, link) {
        seq![ActionV::UpdateIssueBody { number: e.number, body: updated_body(d.body, timeframe, e.body) }]
    } else {
        Seq::empty()
    }
}

/// Linkage: writing the number back when the document does not declare it.
pub open spec fn link_part(d: IssueV, e: ExistingV) -> Seq<ActionV> {
    if d.tracking_issue != Some(e.number) {
        seq![ActionV::LinkToTrackingIssue { goal_document: d.goal_document, number: e.number }]
    } else {
        Seq::empty()
    }
}

/// The corrective actions for a desired issue `d` matched to the existing issue `e`.
pub open spec fn matched_actions(timeframe: Seq<char>, link: Seq<char>, d: IssueV, e: ExistingV) -> Seq<ActionV> {
    sync_part(d, e) + title_part(d, e) + milestone_part(timeframe, e) + lock_part(e) + body_part(
        timeframe,
        link,
        d,
        e,
    ) + link_part(d, e)
}

/// The first issue with number `n`.
pub open spec fn find_number(issues: Seq<ExistingV>, n: u64) -> Option<ExistingV>
    decreases issues.len(),
{
    if issues.len() == 0 {
        None
    } else if issues[0].number == n {
        Some(issues[0])
    } else {
        find_number(issues.drop_first(), n)
    }
}

/// The first issue with title `t`.
pub open spec fn find_title(issues: Seq<ExistingV>, t: Seq<char>) -> Option<ExistingV>
    decreases issues.len(),
{
    if issues.len() == 0 {
        None
    } else if issues[0].title == t {
        Some(issues[0])
    } else {
        find_title(issues.drop_first(), t)
    }
}

/// The existing issue that `d` matches: by its declared tracking number, first
/// among the milestone's issues and then among those fetched by number; without
/// a declared number, the first milestone issue with the same title.
pub open spec fn matched(d: IssueV, milestone: Seq<ExistingV>, fetched: Seq<ExistingV>) -> Option<ExistingV> {
    match d.tracking_issue {
        Some(n) => match find_number(milestone, n) {
            Some(e) => Some(e),
            None => find_number(fetched, n),
        },
        None => find_title(milestone, d.title),
    }
}

/// The actions for one desired issue: a creation when nothing matches it, else
/// the corrections of its match.
pub open spec fn issue_actions(timeframe: Seq<char>, link: Seq<char>, d: IssueV, m: Option<ExistingV>) -> Seq<ActionV> {
    match m {
        Some(e) => matched_actions(timeframe, link, d, e),
        None => seq![ActionV::CreateIssue { issue: d }],
    }
}

/// The actions for document number `i`.
pub open spec fn doc_actions(
    timeframe: Seq<char>,
    docs: Seq<GoalDocument>,
    people: Seq<Person>,
    milestone: Seq<ExistingV>,
    fetched: Seq<ExistingV>,
    i: int,
) -> Seq<ActionV> {
    let d = desired_issue(timeframe, docs[i], i, people);
    issue_actions(timeframe, document_link(timeframe, docs[i].link_stem@), d, matched(d, milestone, fetched))
}

/// The actions for the first `count` documents, in document order.
pub open spec fn emitted(
    timeframe: Seq<char>,
    docs: Seq<GoalDocument>,
    people: Seq<Person>,
    milestone: Seq<ExistingV>,
    fetched: Seq<ExistingV>,
    count: nat,
) -> Seq<ActionV>
    decreases count,
{
    if count == 0 {
        Seq::empty()
    } else {
        emitted(timeframe, docs, people, milestone, fetched, (count - 1) as nat) + doc_actions(
            timeframe,
            docs,
            people,
            milestone,
            fetched,
            count - 1,
        )
    }
}

/// The number of the issue an action is about; 0 for creations.
pub open spec fn issue_number(a: ActionV) -> int {
    match a {
        ActionV::CreateLabel { .. } => 0,
        ActionV::CreateIssue { .. } => 0,
        ActionV::ChangeTitle { number, .. } => number as int,
        ActionV::ChangeMilestone { number, .. } => number as int,
        ActionV::Comment { number, .. } => number as int,
        ActionV::UpdateIssueBody { number, .. } => number as int,
        ActionV::SyncAssignees { number, .. } => number as int,
        ActionV::LockIssue { number } => number as int,
        ActionV::LinkToTrackingIssue { number, .. } => number as int,
    }
}

/// The actions of all documents: without repetitions, in the order of actions.
pub open spec fn issues_plan(
    timeframe: Seq<char>,
    docs: Seq<GoalDocument>,
    people: Seq<Person>,
    milestone: Seq<ExistingV>,
    fetched: Seq<ExistingV>,
) -> Seq<ActionV> {
    ordered(dedup(emitted(timeframe, docs, people, milestone, fetched, docs.len())))
}

/// `s` without repetitions, each kept at its first place.
pub open spec fn dedup(s: Seq<ActionV>) -> Seq<ActionV>
    decreases s.len(),
{
    if s.len() == 0 {
        Seq::empty()
    } else {
        let r = dedup(s.drop_last());
        if r.contains(s.last()) {
            r
        } else {
            r.push(s.last())
        }
    }
}

fn difference(a: &Vec<String>, b: &Vec<String>) -> (r: Vec<String>)
    ensures
        views(r@) == sort_by(minus(views(a@), views(b@)), str_le()),
{
    let mut r: Vec<String> = Vec::new();
    let mut i: usize = 0;
    while i < a.len()
        invariant
            i <= a.len(),
            views(r@) == minus(views(a@.subrange(0, i as int)), views(b@)),
        decreases a.len() - i,
    {
        proof {
            assert(views(a@.subrange(0, i + 1)).drop_last() =~= views(a@.subrange(0, i as int)));
        }
        if !list_contains(b, &a[i]) {
            let ghost prev = r@;
            r.push(a[i].clone());
            proof {
                assert(views(r@) =~= views(prev).push(a@[i as int]@));
            }
        }
        i = i + 1;
    }
    proof {
        assert(a@.subrange(0, i as int) =~= a@);
    }
    sort_strings(r)
}

pub(crate) fn find_by_number(issues: &Vec<ExistingIssue>, n: u64) -> (r: Option<usize>)
    ensures
        match r {
            Some(k) => k < issues.len() && find_number(existing_views(issues@), n) == Some(issues@[k as int]@),
            None => find_number(existing_views(issues@), n) is None,
        },
{
    let ghost all = existing_views(issues@);
    let mut i: usize = 0;
    proof {
        assert(all.subrange(0, all.len() as int) =~= all);
    }
    while i < issues.len()
        invariant
            i <= issues.len(),
            all == existing_views(issues@),
            find_number(all, n) == find_number(all.subrange(i as int, all.len() as int), n),
        decreases issues.len() - i,
    {
        proof {
            assert(all.subrange(i as int, all.len() as int).drop_first() =~= all.subrange(i + 1, all.len() as int));
        }
        if issues[i].number == n {
            return Some(i);
        }
        i = i + 1;
    }
    None
}

fn find_by_title(issues: &Vec<ExistingIssue>, t: &String) -> (r: Option<usize>)
    ensures
        match r {
            Some(k) => k < issues.len() && find_title(existing_views(issues@), t@) == Some(issues@[k as int]@),
            None => find_title(existing_views(issues@), t@) is None,
        },
{
    let ghost all = existing_views(issues@);
    let mut i: usize = 0;
    proof {
        assert(all.subrange(0, all.len() as int) =~= all);
    }
    while i < issues.len()
        invariant
            i <= issues.len(),
            all == existing_views(issues@),
            find_title(all, t@) == find_title(all.subrange(i as int, all.len() as int), t@),
        decreases issues.len() - i,
    {
        proof {
            assert(all.subrange(i as int, all.len() as int).drop_first() =~= all.subrange(i + 1, all.len() as int));
        }
        if issues[i].title == *t {
            return Some(i);
        }
        i = i + 1;
    }
    None
}

fn same_issue(a: &GithubIssue, b: &GithubIssue) -> (r: bool)
    ensures
        r == (a@ == b@),
{
    a.title == b.title && lists_equal(&a.assignees, &b.assignees) && a.body == b.body
        && lists_equal(&a.labels, &b.labels) && a.tracking_issue == b.tracking_issue
        && a.goal_document == b.goal_document
}

/// Whether two actions are the same value.
pub fn same_action(a: &GithubAction, b: &GithubAction) -> (r: bool)
    ensures
        r == (a@ == b@),
{
    match (a, b) {
        (GithubAction::CreateLabel { label: x }, GithubAction::CreateLabel { label: y }) =>
            x.name == y.name && x.color == y.color,
        (GithubAction::CreateIssue { issue: x }, GithubAction::CreateIssue { issue: y }) =>
            same_issue(x, y),
        (
            GithubAction::ChangeTitle { number: n, title: x },
            GithubAction::ChangeTitle { number: m, title: y },
        ) => *n == *m && *x == *y,
        (
            GithubAction::ChangeMilestone { number: n, milestone: x },
            GithubAction::ChangeMilestone { number: m, milestone: y },
        ) => *n == *m && *x == *y,
        (GithubAction::Comment { number: n, body: x }, GithubAction::Comment { number: m, body: y }) =>
            *n == *m && *x == *y,
        (
            GithubAction::UpdateIssueBody { number: n, body: x },
            GithubAction::UpdateIssueBody { number: m, body: y },
        ) => *n == *m && *x == *y,
        (
            GithubAction::SyncAssignees { number: n, remove_owners: r1, add_owners: a1 },
            GithubAction::SyncAssignees { number: m, remove_owners: r2, add_owners: a2 },
        ) => *n == *m && lists_equal(r1, r2) && lists_equal(a1, a2),
        (GithubAction::LockIssue { number: n }, GithubAction::LockIssue { number: m }) => *n == *m,
        (
            GithubAction::LinkToTrackingIssue { goal_document: g, issue_id: n },
            GithubAction::LinkToTrackingIssue { goal_document: h, issue_id: m },
        ) => *g == *h && *n == *m,
        _ => false,
    }
}

/// The actions without repetitions, each kept at its first place.
pub fn dedup_actions(actions: Vec<GithubAction>) -> (r: Vec<GithubAction>)
    ensures
        action_views(r@) == dedup(action_views(actions@)),
{
    let mut r: Vec<GithubAction> = Vec::new();
    let mut rest = actions;
    let ghost all = action_views(rest@);
    let mut i: usize = 0;
    let n = rest.len();
    let mut items: Vec<GithubAction> = Vec::new();
    while rest.len() > 0
        invariant
            all.len() == n,
            rest@.len() + items@.len() == n,
            forall|k: int| 0 <= k < items@.len() ==> #[trigger] items@[k]@ == all[n - 1 - k],
            forall|k: int| 0 <= k < rest@.len() ==> #[trigger] rest@[k]@ == all[k],
        decreases rest.len(),
    {
        let a = rest.pop().unwrap();
        items.push(a);
    }
    while items.len() > 0
        invariant
            i == n - items@.len(),
            i <= n,
            all.len() == n,
            forall|k: int| 0 <= k < items@.len() ==> #[trigger] items@[k]@ == all[n - 1 - k],
            action_views(r@) == dedup(all.subrange(0, i as int)),
        decreases items.len(),
    {
        let a = items.pop().unwrap();
        proof {
            assert(all.subrange(0, i + 1).drop_last() =~= all.subrange(0, i as int));
            assert(a@ == all[i as int]);
        }
        let mut found = false;
        let mut k: usize = 0;
        while k < r.len()
            invariant
                k <= r.len(),
                found == exists|m: int| 0 <= m < k && #[trigger] r@[m]@ == a@,
            decreases r.len() - k,
        {
            if same_action(&r[k], &a) {
                found = true;
            }
            k = k + 1;
        }
        proof {
            if found {
                let m = choose|m: int| 0 <= m < r@.len() && #[trigger] r@[m]@ == a@;
                assert(action_views(r@)[m] == a@);
            } else if action_views(r@).contains(a@) {
                let m = choose|m: int| 0 <= m < action_views(r@).len() && action_views(r@)[m] == a@;
                assert(r@[m]@ == a@);
            }
        }
        if !found {
            let ghost prev = r@;
            r.push(a);
            proof {
                assert(action_views(r@) =~= action_views(prev).push(all[i as int]));
            }
        }
        i = i + 1;
    }
    proof {
        assert(all.subrange(0, n as int) =~= all);
    }
    r
}

fn push_action(actions: &mut Vec<GithubAction>, a: GithubAction)
    ensures
        action_views(final(actions)@) == action_views(old(actions)@).push(a@),
{
    actions.push(a);
    proof {
        assert(action_views(actions@) =~= action_views(old(actions)@).push(a@));
    }
}

fn push_sync(d: &GithubIssue, e: &ExistingIssue, actions: &mut Vec<GithubAction>)
    ensures
        action_views(final(actions)@) == action_views(old(actions)@) + sync_part(d@, e@),
{
    let remove = difference(&e.assignees, &d.assignees);
    let add = difference(&d.assignees, &e.assignees);
    proof {
        crate::order::lemma_sort_by(minus(e@.assignees, d@.assignees), str_le());
        crate::order::lemma_sort_by(minus(d@.assignees, e@.assignees), str_le());
    }
    if remove.len() > 0 || add.len() > 0 {
        push_action(actions, GithubAction::SyncAssignees { number: e.number, remove_owners: remove, add_owners: add });
    }
    proof {
        assert(action_views(actions@) =~= action_views(old(actions)@) + sync_part(d@, e@));
    }
}

fn push_title(d: &GithubIssue, e: &ExistingIssue, actions: &mut Vec<GithubAction>)
    ensures
        action_views(final(actions)@) == action_views(old(actions)@) + title_part(d@, e@),
{
    if e.title != d.title {
        push_action(actions, GithubAction::ChangeTitle { number: e.number, title: d.title.clone() });
    }
    proof {
        assert(action_views(actions@) =~= action_views(old(actions)@) + title_part(d@, e@));
    }
}

fn push_milestone(timeframe: &str, e: &ExistingIssue, actions: &mut Vec<GithubAction>)
    ensures
        action_views(final(actions)@) == action_views(old(actions)@) + milestone_part(timeframe@, e@),
{
    let tf = String::from_str(timeframe);
    let in_timeframe = match &e.milestone {
        Some(m) => *m == tf,
        None => false,
    };
    if !in_timeframe {
        let mut comment = String::from_str(
            "This is a continuing project goal, and the updates below this comment will be for the new period",
        );
        comment.append(" ");
        comment.append(timeframe);
        push_action(actions, GithubAction::ChangeMilestone { number: e.number, milestone: tf });
        push_action(actions, GithubAction::Comment { number: e.number, body: comment });
    }
    proof {
        assert(action_views(actions@) =~= action_views(old(actions)@) + milestone_part(timeframe@, e@));
    }
}

fn push_lock(e: &ExistingIssue, actions: &mut Vec<GithubAction>)
    ensures
        action_views(final(actions)@) == action_views(old(actions)@) + lock_part(e@),
{
    if !e.locked {
        push_action(actions, GithubAction::LockIssue { number: e.number });
        push_action(actions, GithubAction::Comment {
            number: e.number,
            body: String::from_str(
                "This issue is intended for status updates only.\n\nFor general questions or comments, please contact the owner(s) directly.",
            ),
        });
    }
    proof {
        assert(action_views(actions@) =~= action_views(old(actions)@) + lock_part(e@));
    }
}

fn push_body(timeframe: &str, link: &String, d: &GithubIssue, e: &ExistingIssue, actions: &mut Vec<GithubAction>)
    ensures
        action_views(final(actions)@) == action_views(old(actions)@) + body_part(timeframe@, link@, d@, e@),
{
    if !text_contains(e.body.as_str(), link.as_str()) {
        let mut body = d.body.clone();
        body.append("\n---\nNote: we have updated the body to match the ");
        body.append(timeframe);
        body.append(" goal. Your original text is preserved below. <details>\n");
        body.append(e.body.as_str());
        body.append("\n</details>");
        proof {
            assert(body@ =~= updated_body(d@.body, timeframe@, e@.body));
        }
        push_action(actions, GithubAction::UpdateIssueBody { number: e.number, body });
    }
    proof {
        assert(action_views(actions@) =~= action_views(old(actions)@) + body_part(timeframe@, link@, d@, e@));
    }
}

fn push_link(d: &GithubIssue, e: &ExistingIssue, actions: &mut Vec<GithubAction>)
    ensures
        action_views(final(actions)@) == action_views(old(actions)@) + link_part(d@, e@),
{
    if d.tracking_issue != Some(e.number) {
        push_action(actions, GithubAction::LinkToTrackingIssue { goal_document: d.goal_document, issue_id: e.number });
    }
    proof {
        assert(action_views(actions@) =~= action_views(old(actions)@) + link_part(d@, e@));
    }
}

/// Appends the corrections of the desired issue `d` matched to `e`.
fn push_matched_actions(
    timeframe: &str,
    link: &String,
    d: &GithubIssue,
    e: &ExistingIssue,
    actions: &mut Vec<GithubAction>,
)
    ensures
        action_views(final(actions)@) == action_views(old(actions)@) + matched_actions(timeframe@, link@, d@, e@),
{
    push_sync(d, e, actions);
    push_title(d, e, actions);
    push_milestone(timeframe, e, actions);
    push_lock(e, actions);
    push_body(timeframe, link, d, e, actions);
    push_link(d, e, actions);
    proof {
        assert(action_views(actions@) =~= action_views(old(actions)@) + matched_actions(timeframe@, link@, d@, e@));
    }
}

/// The actions of every document, in document order, before repetitions are removed.
pub(crate) fn emit_issue_actions(
    timeframe: &str,
    documents: &Vec<GoalDocument>,
    people: &Vec<Person>,
    milestone_issues: &Vec<ExistingIssue>,
    fetched: &Vec<ExistingIssue>,
) -> (r: Vec<GithubAction>)
    ensures
        action_views(r@) == emitted(
            timeframe@,
            documents@,
            people@,
            existing_views(milestone_issues@),
            existing_views(fetched@),
            documents@.len(),
        ),
{
    let ghost ms = existing_views(milestone_issues@);
    let ghost fs = existing_views(fetched@);
    let mut actions: Vec<GithubAction> = Vec::new();
    let mut i: usize = 0;
    while i < documents.len()
        invariant
            i <= documents.len(),
            ms == existing_views(milestone_issues@),
            fs == existing_views(fetched@),
            action_views(actions@) == emitted(timeframe@, documents@, people@, ms, fs, i as nat),
        decreases documents.len() - i,
    {
        let d = issue(timeframe, &documents[i], i, people);
        let link = goal_document_link(timeframe, &documents[i]);
        let existing: Option<&ExistingIssue> = match d.tracking_issue {
            Some(n) => match find_by_number(milestone_issues, n) {
                Some(k) => Some(&milestone_issues[k]),
                None => match find_by_number(fetched, n) {
                    Some(k) => Some(&fetched[k]),
                    None => None,
                },
            },
            None => match find_by_title(milestone_issues, &d.title) {
                Some(k) => Some(&milestone_issues[k]),
                None => None,
            },
        };
        proof {
            assert(match existing {
                Some(e) => matched(d@, ms, fs) == Some(e@),
                None => matched(d@, ms, fs) is None,
            });
        }
        match existing {
            Some(e) => {
                push_matched_actions(timeframe, &link, &d, e, &mut actions);
            },
            None => {
                push_action(&mut actions, GithubAction::CreateIssue { issue: d });
            },
        }
        i = i + 1;
    }
    actions
}

/// The actions that bring the milestone's issues in line with the documents,
/// without repetitions, in order of kind and then of issue number. `fetched` holds the issues fetched by number for tracking numbers
/// that the milestone lacks.
pub fn initialize_issues(
    timeframe: &str,
    documents: &Vec<GoalDocument>,
    people: &Vec<Person>,
    milestone_issues: &Vec<ExistingIssue>,
    fetched: &Vec<ExistingIssue>,
) -> (r: Vec<GithubAction>)
    ensures
        action_views(r@) == issues_plan(
            timeframe@,
            documents@,
            people@,
            existing_views(milestone_issues@),
            existing_views(fetched@),
        ),
{
    let actions = emit_issue_actions(timeframe, documents, people, milestone_issues, fetched);
    order_actions(dedup_actions(actions))
}

} // verus!

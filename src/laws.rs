//! Properties of the engine, proved over its specifications.
use vstd::prelude::*;

use crate::diff::{
    body_part, continuing_comment, dedup, find_number, lock_part, lock_text, matched,
    matched_actions, milestone_part, minus, link_part, sync_part, title_part, updated_body,
};
use crate::model::{ActionV, ExistingV, GhLabel, GoalDocument, IssueV, Person};
use crate::plan::pass_plan;
use crate::order::{lemma_name_orders_total, lemma_sort_by, sort_by, sorted_by, str_le};
use crate::text::{contains_text, join, occurs_at, views};
use crate::desired::{document_link, issue_body, team_links};

verus! {

/// A pass is a function of its inputs: diffing the same desired and actual
/// state twice gives the same ordered list of actions.
pub proof fn lemma_pass_deterministic(
    timeframe: Seq<char>,
    docs: Seq<GoalDocument>,
    people: Seq<Person>,
    labels: Seq<GhLabel>,
    milestone: Seq<ExistingV>,
    fetched: Seq<ExistingV>,
    first: Seq<ActionV>,
    second: Seq<ActionV>,
)
    requires
        first == pass_plan(timeframe, docs, people, labels, milestone, fetched),
        second == pass_plan(timeframe, docs, people, labels, milestone, fetched),
    ensures
        first == second,
{
}

proof fn lemma_push_contains<A>(s: Seq<A>, y: A, x: A)
    ensures
        s.push(y).contains(x) <==> (s.contains(x) || x == y),
{
    if s.contains(x) {
        let i = choose|i: int| 0 <= i < s.len() && s[i] == x;
        assert(s.push(y)[i] == x);
    }
    if x == y {
        assert(s.push(y)[s.len() as int] == x);
    }
    if s.push(y).contains(x) {
        let i = choose|i: int| 0 <= i < s.push(y).len() && s.push(y)[i] == x;
        if i < s.len() {
            assert(s[i] == x);
        }
    }
}

proof fn lemma_last_contains<A>(s: Seq<A>, x: A)
    requires
        s.len() > 0,
    ensures
        s.contains(x) <==> (s.drop_last().contains(x) || x == s.last()),
{
    assert(s =~= s.drop_last().push(s.last()));
    lemma_push_contains(s.drop_last(), s.last(), x);
}

proof fn lemma_dedup_facts(s: Seq<ActionV>)
    ensures
        dedup(s).no_duplicates(),
        forall|x: ActionV| dedup(s).contains(x) <==> s.contains(x),
    decreases s.len(),
{
    if s.len() > 0 {
        let init = s.drop_last();
        lemma_dedup_facts(init);
        assert forall|x: ActionV| dedup(s).contains(x) <==> s.contains(x) by {
            lemma_last_contains(s, x);
            lemma_push_contains(dedup(init), s.last(), x);
        }
    }
}

/// No action appears twice in a pass, and the pass is in order of kind and
/// then of issue number.
pub proof fn lemma_pass_without_repeats(
    timeframe: Seq<char>,
    docs: Seq<GoalDocument>,
    people: Seq<Person>,
    labels: Seq<GhLabel>,
    milestone: Seq<ExistingV>,
    fetched: Seq<ExistingV>,
)
    ensures
        pass_plan(timeframe, docs, people, labels, milestone, fetched).no_duplicates(),
        crate::order::is_ordered(pass_plan(timeframe, docs, people, labels, milestone, fetched)),
{
    let p = crate::labels::label_actions(
        crate::labels::wanted_labels(crate::desired::asked_teams(docs)),
        crate::labels::label_names(labels),
    ) + crate::diff::emitted(timeframe, docs, people, milestone, fetched, docs.len());
    lemma_dedup_facts(p);
    crate::order::lemma_ordered(dedup(p));
}

proof fn lemma_find_number_hit(issues: Seq<ExistingV>, n: u64, k: int)
    requires
        0 <= k < issues.len(),
        issues[k].number == n,
    ensures
        find_number(issues, n) matches Some(e) && e.number == n,
    decreases issues.len(),
{
    if issues[0].number != n {
        lemma_find_number_hit(issues.drop_first(), n, k - 1);
    }
}

/// A desired issue that declares a tracking number present among the
/// milestone's issues matches the issue with that number, even where another
/// issue has its title.
pub proof fn lemma_tracking_number_first(
    d: IssueV,
    milestone: Seq<ExistingV>,
    fetched: Seq<ExistingV>,
    n: u64,
    k: int,
)
    requires
        d.tracking_issue == Some(n),
        0 <= k < milestone.len(),
        milestone[k].number == n,
    ensures
        matched(d, milestone, fetched) matches Some(e) && e.number == n,
        matched(d, milestone, fetched) == find_number(milestone, n),
{
    lemma_find_number_hit(milestone, n, k);
}

proof fn lemma_minus_contains(a: Seq<Seq<char>>, b: Seq<Seq<char>>, x: Seq<char>)
    ensures
        minus(a, b).contains(x) <==> (a.contains(x) && !b.contains(x)),
    decreases a.len(),
{
    if a.len() > 0 {
        let init = a.drop_last();
        lemma_minus_contains(init, b, x);
        lemma_last_contains(a, x);
        lemma_push_contains(minus(init, b), a.last(), x);
    }
}

proof fn lemma_minus_empty(a: Seq<Seq<char>>, b: Seq<Seq<char>>)
    ensures
        minus(a, b).len() == 0 <==> a.to_set().subset_of(b.to_set()),
{
    assert forall|x: Seq<char>| minus(a, b).contains(x) <==> (a.contains(x) && !b.contains(x)) by {
        lemma_minus_contains(a, b, x);
    }
    if minus(a, b).len() > 0 {
        let x = minus(a, b)[0];
        assert(minus(a, b).contains(x));
        assert(a.to_set().contains(x) && !b.to_set().contains(x));
    } else {
        assert forall|x: Seq<char>| a.to_set().contains(x) implies b.to_set().contains(x) by {
            if !b.contains(x) {
                assert(!minus(a, b).contains(x));
            }
        }
    }
}

/// Assignees are synchronised exactly when the two sets differ; the sync
/// removes the existing handles that are not desired and adds the desired ones
/// that are missing.
pub proof fn lemma_assignee_sync(d: IssueV, e: ExistingV)
    ensures
        sync_part(d, e).len() > 0 <==> d.assignees.to_set() != e.assignees.to_set(),
        sync_part(d, e).len() > 0 ==> sync_part(d, e) == seq![
            ActionV::SyncAssignees {
                number: e.number,
                remove: sort_by(minus(e.assignees, d.assignees), str_le()),
                add: sort_by(minus(d.assignees, e.assignees), str_le()),
            },
        ],
        forall|x: Seq<char>| #[trigger] sort_by(minus(e.assignees, d.assignees), str_le()).contains(x)
            <==> e.assignees.contains(x) && !d.assignees.contains(x),
        forall|x: Seq<char>| #[trigger] sort_by(minus(d.assignees, e.assignees), str_le()).contains(x)
            <==> d.assignees.contains(x) && !e.assignees.contains(x),
        sorted_by(sort_by(minus(e.assignees, d.assignees), str_le()), str_le()),
        sorted_by(sort_by(minus(d.assignees, e.assignees), str_le()), str_le()),
{
    lemma_minus_empty(e.assignees, d.assignees);
    lemma_minus_empty(d.assignees, e.assignees);
    lemma_sort_by(minus(e.assignees, d.assignees), str_le());
    lemma_sort_by(minus(d.assignees, e.assignees), str_le());
    lemma_name_orders_total();
    assert forall|x: Seq<char>| #[trigger] sort_by(minus(e.assignees, d.assignees), str_le()).contains(x)
        <==> e.assignees.contains(x) && !d.assignees.contains(x) by {
        lemma_minus_contains(e.assignees, d.assignees, x);
    }
    assert forall|x: Seq<char>| #[trigger] sort_by(minus(d.assignees, e.assignees), str_le()).contains(x)
        <==> d.assignees.contains(x) && !e.assignees.contains(x) by {
        lemma_minus_contains(d.assignees, e.assignees, x);
    }
    if d.assignees.to_set().subset_of(e.assignees.to_set()) && e.assignees.to_set().subset_of(d.assignees.to_set()) {
        assert(d.assignees.to_set() =~= e.assignees.to_set());
    }
}

proof fn lemma_concat_contains<A>(a: Seq<A>, b: Seq<A>, x: A)
    ensures
        (a + b).contains(x) <==> (a.contains(x) || b.contains(x)),
{
    if a.contains(x) {
        let i = choose|i: int| 0 <= i < a.len() && a[i] == x;
        assert((a + b)[i] == x);
    }
    if b.contains(x) {
        let i = choose|i: int| 0 <= i < b.len() && b[i] == x;
        assert((a + b)[a.len() + i] == x);
    }
    if (a + b).contains(x) {
        let i = choose|i: int| 0 <= i < (a + b).len() && (a + b)[i] == x;
        if i < a.len() {
            assert(a[i] == x);
        } else {
            assert(b[i - a.len()] == x);
        }
    }
}

proof fn lemma_small_contains<A>(p: A, q: A, x: A)
    ensures
        seq![p].contains(x) <==> x == p,
        seq![p, q].contains(x) <==> (x == p || x == q),
        !Seq::<A>::empty().contains(x),
{
    if seq![p].contains(x) {
        let i = choose|i: int| 0 <= i < 1 && seq![p][i] == x;
    }
    if x == p {
        assert(seq![p][0] == x);
        assert(seq![p, q][0] == x);
    }
    if x == q {
        assert(seq![p, q][1] == x);
    }
}

proof fn lemma_matched_contains(timeframe: Seq<char>, link: Seq<char>, d: IssueV, e: ExistingV, x: ActionV)
    ensures
        matched_actions(timeframe, link, d, e).contains(x) <==> (sync_part(d, e).contains(x)
            || title_part(d, e).contains(x) || milestone_part(timeframe, e).contains(x)
            || lock_part(e).contains(x) || body_part(timeframe, link, d, e).contains(x)
            || link_part(d, e).contains(x)),
{
    let s1 = sync_part(d, e);
    let s2 = s1 + title_part(d, e);
    let s3 = s2 + milestone_part(timeframe, e);
    let s4 = s3 + lock_part(e);
    let s5 = s4 + body_part(timeframe, link, d, e);
    lemma_concat_contains(s1, title_part(d, e), x);
    lemma_concat_contains(s2, milestone_part(timeframe, e), x);
    lemma_concat_contains(s3, lock_part(e), x);
    lemma_concat_contains(s4, body_part(timeframe, link, d, e), x);
    lemma_concat_contains(s5, link_part(d, e), x);
}

proof fn lemma_notices_differ(timeframe: Seq<char>)
    ensures
        continuing_comment(timeframe) != lock_text(),
{
    reveal_strlit("This is a continuing project goal, and the updates below this comment will be for the new period");
    reveal_strlit("This issue is intended for status updates only.\n\nFor general questions or comments, please contact the owner(s) directly.");
    assert(continuing_comment(timeframe)[7] == ' ');
    assert(lock_text()[7] == 's');
}

/// The milestone move and its comment come together, and so do the lock and
/// its notice.
pub proof fn lemma_coupled_pairs(timeframe: Seq<char>, link: Seq<char>, d: IssueV, e: ExistingV, n: u64)
    ensures
        matched_actions(timeframe, link, d, e).contains(ActionV::ChangeMilestone { number: n, milestone: timeframe })
            <==> matched_actions(timeframe, link, d, e).contains(
            ActionV::Comment { number: n, body: continuing_comment(timeframe) },
        ),
        matched_actions(timeframe, link, d, e).contains(ActionV::LockIssue { number: n })
            <==> matched_actions(timeframe, link, d, e).contains(ActionV::Comment { number: n, body: lock_text() }),
{
    lemma_notices_differ(timeframe);
    let cm = ActionV::ChangeMilestone { number: n, milestone: timeframe };
    let cc = ActionV::Comment { number: n, body: continuing_comment(timeframe) };
    let lk = ActionV::LockIssue { number: n };
    let lc = ActionV::Comment { number: n, body: lock_text() };
    let remove = sort_by(minus(e.assignees, d.assignees), str_le());
    let add = sort_by(minus(d.assignees, e.assignees), str_le());
    let sy = ActionV::SyncAssignees { number: e.number, remove, add };
    let ti = ActionV::ChangeTitle { number: e.number, title: d.title };
    let m1 = ActionV::ChangeMilestone { number: e.number, milestone: timeframe };
    let m2 = ActionV::Comment { number: e.number, body: continuing_comment(timeframe) };
    let l1 = ActionV::LockIssue { number: e.number };
    let l2 = ActionV::Comment { number: e.number, body: lock_text() };
    let bo = ActionV::UpdateIssueBody { number: e.number, body: updated_body(d.body, timeframe, e.body) };
    let li = ActionV::LinkToTrackingIssue { goal_document: d.goal_document, number: e.number };
    lemma_small_contains(sy, sy, cm);
    lemma_small_contains(ti, ti, cm);
    lemma_small_contains(m1, m2, cm);
    lemma_small_contains(l1, l2, cm);
    lemma_small_contains(bo, bo, cm);
    lemma_small_contains(li, li, cm);
    lemma_small_contains(sy, sy, cc);
    lemma_small_contains(ti, ti, cc);
    lemma_small_contains(m1, m2, cc);
    lemma_small_contains(l1, l2, cc);
    lemma_small_contains(bo, bo, cc);
    lemma_small_contains(li, li, cc);
    lemma_small_contains(sy, sy, lk);
    lemma_small_contains(ti, ti, lk);
    lemma_small_contains(m1, m2, lk);
    lemma_small_contains(l1, l2, lk);
    lemma_small_contains(bo, bo, lk);
    lemma_small_contains(li, li, lk);
    lemma_small_contains(sy, sy, lc);
    lemma_small_contains(ti, ti, lc);
    lemma_small_contains(m1, m2, lc);
    lemma_small_contains(l1, l2, lc);
    lemma_small_contains(bo, bo, lc);
    lemma_small_contains(li, li, lc);
    lemma_matched_contains(timeframe, link, d, e, cm);
    lemma_matched_contains(timeframe, link, d, e, cc);
    lemma_matched_contains(timeframe, link, d, e, lk);
    lemma_matched_contains(timeframe, link, d, e, lc);
}

proof fn lemma_updated_body_keeps(desired: Seq<char>, timeframe: Seq<char>, previous: Seq<char>)
    ensures
        contains_text(updated_body(desired, timeframe, previous), previous),
        contains_text(updated_body(desired, timeframe, previous), desired),
{
    let b = updated_body(desired, timeframe, previous);
    let head = desired + "\n---\nNote: we have updated the body to match the "@ + timeframe
        + " goal. Your original text is preserved below. <details>\n"@;
    assert(b.subrange(head.len() as int, (head.len() + previous.len()) as int) =~= previous);
    assert(occurs_at(b, previous, head.len() as int));
    assert(b.subrange(0, desired.len() as int) =~= desired);
    assert(occurs_at(b, desired, 0));
}

/// Every body update keeps the whole previous body of the issue.
pub proof fn lemma_body_preserved(timeframe: Seq<char>, link: Seq<char>, d: IssueV, e: ExistingV, x: ActionV)
    requires
        matched_actions(timeframe, link, d, e).contains(x),
        x is UpdateIssueBody,
    ensures
        contains_text(x->UpdateIssueBody_body, e.body),
        x->UpdateIssueBody_number == e.number,
{
    lemma_matched_contains(timeframe, link, d, e, x);
    let remove = sort_by(minus(e.assignees, d.assignees), str_le());
    let add = sort_by(minus(d.assignees, e.assignees), str_le());
    lemma_small_contains(ActionV::SyncAssignees { number: e.number, remove, add }, ActionV::SyncAssignees { number: e.number, remove, add }, x);
    lemma_small_contains(ActionV::ChangeTitle { number: e.number, title: d.title }, ActionV::ChangeTitle { number: e.number, title: d.title }, x);
    lemma_small_contains(
        ActionV::ChangeMilestone { number: e.number, milestone: timeframe },
        ActionV::Comment { number: e.number, body: continuing_comment(timeframe) },
        x,
    );
    lemma_small_contains(ActionV::LockIssue { number: e.number }, ActionV::Comment { number: e.number, body: lock_text() }, x);
    let bo = ActionV::UpdateIssueBody { number: e.number, body: updated_body(d.body, timeframe, e.body) };
    lemma_small_contains(bo, bo, x);
    let li = ActionV::LinkToTrackingIssue { goal_document: d.goal_document, number: e.number };
    lemma_small_contains(li, li, x);
    lemma_updated_body_keeps(d.body, timeframe, e.body);
}

/// The issue after the tracker carried out `a`.
pub open spec fn apply_action(e: ExistingV, a: ActionV) -> ExistingV {
    match a {
        ActionV::SyncAssignees { number, remove, add } => if number == e.number {
            ExistingV { assignees: minus(e.assignees, remove) + add, ..e }
        } else {
            e
        },
        ActionV::ChangeTitle { number, title } => if number == e.number {
            ExistingV { title, ..e }
        } else {
            e
        },
        ActionV::ChangeMilestone { number, milestone } => if number == e.number {
            ExistingV { milestone: Some(milestone), ..e }
        } else {
            e
        },
        ActionV::LockIssue { number } => if number == e.number {
            ExistingV { locked: true, ..e }
        } else {
            e
        },
        ActionV::UpdateIssueBody { number, body } => if number == e.number {
            ExistingV { body, ..e }
        } else {
            e
        },
        _ => e,
    }
}

/// The issue after the tracker carried out `actions` in order.
pub open spec fn apply_actions(e: ExistingV, actions: Seq<ActionV>) -> ExistingV
    decreases actions.len(),
{
    if actions.len() == 0 {
        e
    } else {
        apply_action(apply_actions(e, actions.drop_last()), actions.last())
    }
}

/// The desired issue after the tracking numbers in `actions` were written back
/// into its document.
pub open spec fn apply_links(d: IssueV, actions: Seq<ActionV>) -> IssueV
    decreases actions.len(),
{
    if actions.len() == 0 {
        d
    } else {
        let r = apply_links(d, actions.drop_last());
        match actions.last() {
            ActionV::LinkToTrackingIssue { goal_document, number } => if goal_document == r.goal_document {
                IssueV { tracking_issue: Some(number), ..r }
            } else {
                r
            },
            _ => r,
        }
    }
}

proof fn lemma_apply_concat(e: ExistingV, d: IssueV, a: Seq<ActionV>, b: Seq<ActionV>)
    ensures
        apply_actions(e, a + b) == apply_actions(apply_actions(e, a), b),
        apply_links(d, a + b) == apply_links(apply_links(d, a), b),
    decreases b.len(),
{
    if b.len() > 0 {
        assert((a + b).drop_last() =~= a + b.drop_last());
        lemma_apply_concat(e, d, a, b.drop_last());
    } else {
        assert(a + b =~= a);
    }
}

proof fn lemma_apply_small(e: ExistingV, d: IssueV, p: ActionV, q: ActionV)
    ensures
        apply_actions(e, seq![p]) == apply_action(e, p),
        apply_actions(e, seq![p, q]) == apply_action(apply_action(e, p), q),
        apply_links(d, seq![p]) == apply_links(apply_links(d, Seq::empty()), seq![p]),
{
    assert(seq![p].drop_last() =~= Seq::<ActionV>::empty());
    assert(seq![p, q].drop_last() =~= seq![p]);
    assert(apply_actions(e, Seq::<ActionV>::empty()) == e);
    assert(apply_actions(e, seq![p]) == apply_action(apply_actions(e, Seq::<ActionV>::empty()), p));
    assert(apply_actions(e, seq![p, q]) == apply_action(apply_actions(e, seq![p]), q));
}

/// The body of every desired issue carries the permalink of its document.
pub proof fn lemma_body_has_link(timeframe: Seq<char>, doc: GoalDocument)
    ensures
        contains_text(issue_body(timeframe, doc), document_link(timeframe, doc.link_stem@)),
{
    let b = issue_body(timeframe, doc);
    let link = document_link(timeframe, doc.link_stem@);
    let head = "\n| Metadata         | |\n| --------         | --- |\n| Point of contact | "@
        + join(views(doc.owner_usernames@), ", "@)
        + " |\n| Team(s)          | "@
        + join(team_links(doc.teams_with_asks@), ", "@)
        + " |\n| Goal document    | "@;
    assert(b.subrange(head.len() as int, (head.len() + link.len()) as int) =~= link);
    assert(occurs_at(b, link, head.len() as int));
}

/// Carrying out the actions of a matched issue, and writing its number back
/// into the document, leaves nothing to do for it: each pass with work to do
/// is followed by one with strictly less. The desired body must carry the
/// permalink, as every desired issue's body does.
pub proof fn lemma_matched_converges(timeframe: Seq<char>, link: Seq<char>, d: IssueV, e: ExistingV)
    requires
        contains_text(d.body, link),
    ensures
        ({
            let acts = matched_actions(timeframe, link, d, e);
            matched_actions(timeframe, link, apply_links(d, acts), apply_actions(e, acts)).len() == 0
        }),
{
    let p1 = sync_part(d, e);
    let p2 = title_part(d, e);
    let p3 = milestone_part(timeframe, e);
    let p4 = lock_part(e);
    let p5 = body_part(timeframe, link, d, e);
    let p6 = link_part(d, e);
    let acts = matched_actions(timeframe, link, d, e);
    lemma_assignee_sync(d, e);
    lemma_apply_concat(e, d, p1, p2);
    lemma_apply_concat(e, d, p1 + p2, p3);
    lemma_apply_concat(e, d, p1 + p2 + p3, p4);
    lemma_apply_concat(e, d, p1 + p2 + p3 + p4, p5);
    lemma_apply_concat(e, d, p1 + p2 + p3 + p4 + p5, p6);
    let remove = sort_by(minus(e.assignees, d.assignees), str_le());
    let add = sort_by(minus(d.assignees, e.assignees), str_le());
    let e1 = apply_actions(e, p1);
    let d1 = apply_links(d, p1);
    lemma_apply_small(e, d, ActionV::SyncAssignees { number: e.number, remove, add }, ActionV::SyncAssignees { number: e.number, remove, add });
    assert(apply_links(d, seq![ActionV::SyncAssignees { number: e.number, remove, add }]) == d) by {
        assert(seq![ActionV::SyncAssignees { number: e.number, remove, add }].drop_last() =~= Seq::<ActionV>::empty());
    }
    let e2 = apply_actions(e1, p2);
    let d2 = apply_links(d1, p2);
    lemma_apply_small(e1, d1, ActionV::ChangeTitle { number: e.number, title: d.title }, ActionV::ChangeTitle { number: e.number, title: d.title });
    assert(apply_links(d1, seq![ActionV::ChangeTitle { number: e.number, title: d.title }]) == d1) by {
        assert(seq![ActionV::ChangeTitle { number: e.number, title: d.title }].drop_last() =~= Seq::<ActionV>::empty());
    }
    let m1 = ActionV::ChangeMilestone { number: e.number, milestone: timeframe };
    let m2 = ActionV::Comment { number: e.number, body: continuing_comment(timeframe) };
    let e3 = apply_actions(e2, p3);
    let d3 = apply_links(d2, p3);
    lemma_apply_small(e2, d2, m1, m2);
    assert(apply_links(d2, seq![m1, m2]) == d2) by {
        assert(seq![m1, m2].drop_last() =~= seq![m1]);
        assert(seq![m1].drop_last() =~= Seq::<ActionV>::empty());
    }
    let l1 = ActionV::LockIssue { number: e.number };
    let l2 = ActionV::Comment { number: e.number, body: lock_text() };
    let e4 = apply_actions(e3, p4);
    let d4 = apply_links(d3, p4);
    lemma_apply_small(e3, d3, l1, l2);
    assert(apply_links(d3, seq![l1, l2]) == d3) by {
        assert(seq![l1, l2].drop_last() =~= seq![l1]);
        assert(seq![l1].drop_last() =~= Seq::<ActionV>::empty());
    }
    let bo = ActionV::UpdateIssueBody { number: e.number, body: updated_body(d.body, timeframe, e.body) };
    let e5 = apply_actions(e4, p5);
    let d5 = apply_links(d4, p5);
    lemma_apply_small(e4, d4, bo, bo);
    assert(apply_links(d4, seq![bo]) == d4) by {
        assert(seq![bo].drop_last() =~= Seq::<ActionV>::empty());
    }
    let li = ActionV::LinkToTrackingIssue { goal_document: d.goal_document, number: e.number };
    let e6 = apply_actions(e5, p6);
    let d6 = apply_links(d5, p6);
    lemma_apply_small(e5, d5, li, li);
    assert(seq![li].drop_last() =~= Seq::<ActionV>::empty());
    assert(d6.tracking_issue == Some(e.number));
    assert(d6 == IssueV { tracking_issue: Some(e.number), ..d });
    assert(e6.number == e.number);
    assert(e6.title == d.title);
    assert(e6.milestone == Some(timeframe));
    assert(e6.locked);
    // assignees
    let na = e6.assignees;
    if p1.len() > 0 {
        assert(na == minus(e.assignees, remove) + add);
    } else {
        assert(na == e.assignees);
    }
    lemma_assignee_sync(d, e);
    assert forall|x: Seq<char>| na.contains(x) <==> d.assignees.contains(x) by {
        if p1.len() > 0 {
            lemma_concat_contains(minus(e.assignees, remove), add, x);
            lemma_minus_contains(e.assignees, remove, x);
        } else {
            assert(minus(e.assignees, d.assignees).len() == 0 && minus(d.assignees, e.assignees).len() == 0);
            lemma_minus_contains(e.assignees, d.assignees, x);
            lemma_minus_contains(d.assignees, e.assignees, x);
            if e.assignees.contains(x) && !d.assignees.contains(x) {
                assert(minus(e.assignees, d.assignees).contains(x));
            }
            if d.assignees.contains(x) && !e.assignees.contains(x) {
                assert(minus(d.assignees, e.assignees).contains(x));
            }
        }
    }
    assert(na.to_set() =~= d.assignees.to_set());
    lemma_assignee_sync(d6, e6);
    // body
    if !contains_text(e.body, link) {
        assert(e6.body == updated_body(d.body, timeframe, e.body));
        let i = choose|i: int| occurs_at(d.body, link, i);
        let b = updated_body(d.body, timeframe, e.body);
        assert(b.subrange(i, i + link.len()) =~= d.body.subrange(i, i + link.len()));
        assert(occurs_at(b, link, i));
    } else {
        assert(e6.body == e.body);
    }
}

proof fn lemma_labels_only_create(wanted: Seq<(Seq<char>, Seq<char>)>, existing: Seq<Seq<char>>, x: ActionV)
    requires
        !(x is CreateLabel),
    ensures
        !crate::labels::label_actions(wanted, existing).contains(x),
    decreases wanted.len(),
{
    if wanted.len() > 0 {
        lemma_labels_only_create(wanted.drop_last(), existing, x);
        let r = crate::labels::label_actions(wanted.drop_last(), existing);
        let name = wanted.last().0;
        lemma_push_contains(r, ActionV::CreateLabel { name, color: wanted.last().1 }, x);
    }
}

proof fn lemma_emitted_coupled(
    timeframe: Seq<char>,
    docs: Seq<GoalDocument>,
    people: Seq<Person>,
    milestone: Seq<ExistingV>,
    fetched: Seq<ExistingV>,
    count: nat,
    n: u64,
)
    ensures
        ({
            let s = crate::diff::emitted(timeframe, docs, people, milestone, fetched, count);
            &&& s.contains(ActionV::ChangeMilestone { number: n, milestone: timeframe })
                <==> s.contains(ActionV::Comment { number: n, body: continuing_comment(timeframe) })
            &&& s.contains(ActionV::LockIssue { number: n })
                <==> s.contains(ActionV::Comment { number: n, body: lock_text() })
        }),
    decreases count,
{
    if count > 0 {
        let i = count - 1;
        lemma_emitted_coupled(timeframe, docs, people, milestone, fetched, (count - 1) as nat, n);
        let prev = crate::diff::emitted(timeframe, docs, people, milestone, fetched, (count - 1) as nat);
        let d = crate::desired::desired_issue(timeframe, docs[i], i, people);
        let link = document_link(timeframe, docs[i].link_stem@);
        let block = crate::diff::issue_actions(timeframe, link, d, matched(d, milestone, fetched));
        let cm = ActionV::ChangeMilestone { number: n, milestone: timeframe };
        let cc = ActionV::Comment { number: n, body: continuing_comment(timeframe) };
        let lk = ActionV::LockIssue { number: n };
        let lc = ActionV::Comment { number: n, body: lock_text() };
        lemma_concat_contains(prev, block, cm);
        lemma_concat_contains(prev, block, cc);
        lemma_concat_contains(prev, block, lk);
        lemma_concat_contains(prev, block, lc);
        match matched(d, milestone, fetched) {
            Some(e) => {
                lemma_coupled_pairs(timeframe, link, d, e, n);
            },
            None => {
                let c = ActionV::CreateIssue { issue: d };
                lemma_small_contains(c, c, cm);
                lemma_small_contains(c, c, cc);
                lemma_small_contains(c, c, lk);
                lemma_small_contains(c, c, lc);
            },
        }
    }
}

/// In a whole pass, an issue is moved to the timeframe's milestone exactly when
/// the continuation comment is posted on it, and locked exactly when the lock
/// notice is posted on it.
pub proof fn lemma_pass_coupled(
    timeframe: Seq<char>,
    docs: Seq<GoalDocument>,
    people: Seq<Person>,
    labels: Seq<GhLabel>,
    milestone: Seq<ExistingV>,
    fetched: Seq<ExistingV>,
    n: u64,
)
    ensures
        ({
            let p = pass_plan(timeframe, docs, people, labels, milestone, fetched);
            &&& p.contains(ActionV::ChangeMilestone { number: n, milestone: timeframe })
                <==> p.contains(ActionV::Comment { number: n, body: continuing_comment(timeframe) })
            &&& p.contains(ActionV::LockIssue { number: n })
                <==> p.contains(ActionV::Comment { number: n, body: lock_text() })
        }),
{
    let wanted = crate::labels::wanted_labels(crate::desired::asked_teams(docs));
    let names = crate::labels::label_names(labels);
    let l = crate::labels::label_actions(wanted, names);
    let e = crate::diff::emitted(timeframe, docs, people, milestone, fetched, docs.len());
    lemma_dedup_facts(l + e);
    crate::order::lemma_ordered(dedup(l + e));
    lemma_emitted_coupled(timeframe, docs, people, milestone, fetched, docs.len(), n);
    let cm = ActionV::ChangeMilestone { number: n, milestone: timeframe };
    let cc = ActionV::Comment { number: n, body: continuing_comment(timeframe) };
    let lk = ActionV::LockIssue { number: n };
    let lc = ActionV::Comment { number: n, body: lock_text() };
    lemma_labels_only_create(wanted, names, cm);
    lemma_labels_only_create(wanted, names, cc);
    lemma_labels_only_create(wanted, names, lk);
    lemma_labels_only_create(wanted, names, lc);
    lemma_concat_contains(l, e, cm);
    lemma_concat_contains(l, e, cc);
    lemma_concat_contains(l, e, lk);
    lemma_concat_contains(l, e, lc);
}

proof fn lemma_find_number_in(issues: Seq<ExistingV>, n: u64)
    ensures
        find_number(issues, n) matches Some(e) ==> issues.contains(e) && e.number == n,
    decreases issues.len(),
{
    if issues.len() > 0 && issues[0].number != n {
        let rest = issues.drop_first();
        lemma_find_number_in(rest, n);
        if let Some(e) = find_number(rest, n) {
            let i = choose|i: int| 0 <= i < rest.len() && rest[i] == e;
            assert(issues[i + 1] == e);
        }
    } else if issues.len() > 0 {
        assert(issues[0] == issues[0]);
    }
}

proof fn lemma_find_title_in(issues: Seq<ExistingV>, t: Seq<char>)
    ensures
        crate::diff::find_title(issues, t) matches Some(e) ==> issues.contains(e),
    decreases issues.len(),
{
    if issues.len() > 0 && issues[0].title != t {
        let rest = issues.drop_first();
        lemma_find_title_in(rest, t);
        if let Some(e) = crate::diff::find_title(rest, t) {
            let i = choose|i: int| 0 <= i < rest.len() && rest[i] == e;
            assert(issues[i + 1] == e);
        }
    } else if issues.len() > 0 {
        assert(issues[0] == issues[0]);
    }
}

/// Every body update of an issue keeps, verbatim, the whole body that the
/// tracker reported for an issue of that number.
pub open spec fn keeps_previous_body(x: ActionV, milestone: Seq<ExistingV>, fetched: Seq<ExistingV>) -> bool {
    x is UpdateIssueBody ==> exists|e: ExistingV|
        (milestone.contains(e) || fetched.contains(e)) && e.number == x->UpdateIssueBody_number
            && #[trigger] contains_text(x->UpdateIssueBody_body, e.body)
}

proof fn lemma_emitted_keeps_bodies(
    timeframe: Seq<char>,
    docs: Seq<GoalDocument>,
    people: Seq<Person>,
    milestone: Seq<ExistingV>,
    fetched: Seq<ExistingV>,
    count: nat,
    x: ActionV,
)
    requires
        crate::diff::emitted(timeframe, docs, people, milestone, fetched, count).contains(x),
    ensures
        keeps_previous_body(x, milestone, fetched),
    decreases count,
{
    let i = count - 1;
    let prev = crate::diff::emitted(timeframe, docs, people, milestone, fetched, (count - 1) as nat);
    let d = crate::desired::desired_issue(timeframe, docs[i], i, people);
    let link = document_link(timeframe, docs[i].link_stem@);
    let block = crate::diff::issue_actions(timeframe, link, d, matched(d, milestone, fetched));
    lemma_concat_contains(prev, block, x);
    if prev.contains(x) {
        lemma_emitted_keeps_bodies(timeframe, docs, people, milestone, fetched, (count - 1) as nat, x);
    } else {
        match matched(d, milestone, fetched) {
            Some(e) => {
                if x is UpdateIssueBody {
                    lemma_body_preserved(timeframe, link, d, e, x);
                    match d.tracking_issue {
                        Some(n) => {
                            lemma_find_number_in(milestone, n);
                            lemma_find_number_in(fetched, n);
                        },
                        None => {
                            lemma_find_title_in(milestone, d.title);
                        },
                    }
                    assert(milestone.contains(e) || fetched.contains(e));
                }
            },
            None => {
                let c = ActionV::CreateIssue { issue: d };
                lemma_small_contains(c, c, x);
            },
        }
    }
}

/// In a whole pass, every body update keeps the previous body of its issue as
/// an exact substring.
pub proof fn lemma_pass_keeps_bodies(
    timeframe: Seq<char>,
    docs: Seq<GoalDocument>,
    people: Seq<Person>,
    labels: Seq<GhLabel>,
    milestone: Seq<ExistingV>,
    fetched: Seq<ExistingV>,
    x: ActionV,
)
    requires
        pass_plan(timeframe, docs, people, labels, milestone, fetched).contains(x),
    ensures
        keeps_previous_body(x, milestone, fetched),
{
    let wanted = crate::labels::wanted_labels(crate::desired::asked_teams(docs));
    let names = crate::labels::label_names(labels);
    let l = crate::labels::label_actions(wanted, names);
    let e = crate::diff::emitted(timeframe, docs, people, milestone, fetched, docs.len());
    lemma_dedup_facts(l + e);
    crate::order::lemma_ordered(dedup(l + e));
    lemma_concat_contains(l, e, x);
    if x is UpdateIssueBody {
        lemma_labels_only_create(wanted, names, x);
        lemma_emitted_keeps_bodies(timeframe, docs, people, milestone, fetched, docs.len(), x);
    }
}

proof fn lemma_emitted_member(
    timeframe: Seq<char>,
    docs: Seq<GoalDocument>,
    people: Seq<Person>,
    milestone: Seq<ExistingV>,
    fetched: Seq<ExistingV>,
    count: nat,
    x: ActionV,
)
    requires
        crate::diff::emitted(timeframe, docs, people, milestone, fetched, count).contains(x),
    ensures
        exists|i: int| 0 <= i < count && #[trigger] crate::diff::doc_actions(timeframe, docs, people, milestone, fetched, i).contains(x),
    decreases count,
{
    let prev = crate::diff::emitted(timeframe, docs, people, milestone, fetched, (count - 1) as nat);
    let block = crate::diff::doc_actions(timeframe, docs, people, milestone, fetched, count - 1);
    lemma_concat_contains(prev, block, x);
    if prev.contains(x) {
        lemma_emitted_member(timeframe, docs, people, milestone, fetched, (count - 1) as nat, x);
    }
}

proof fn lemma_issues_plan_member(
    timeframe: Seq<char>,
    docs: Seq<GoalDocument>,
    people: Seq<Person>,
    milestone: Seq<ExistingV>,
    fetched: Seq<ExistingV>,
    x: ActionV,
)
    requires
        crate::diff::issues_plan(timeframe, docs, people, milestone, fetched).contains(x),
    ensures
        exists|i: int| 0 <= i < docs.len() && #[trigger] crate::diff::doc_actions(timeframe, docs, people, milestone, fetched, i).contains(x),
{
    let e = crate::diff::emitted(timeframe, docs, people, milestone, fetched, docs.len());
    lemma_dedup_facts(e);
    crate::order::lemma_ordered(dedup(e));
    lemma_emitted_member(timeframe, docs, people, milestone, fetched, docs.len(), x);
}

/// The issue actions of a pass move an issue to the timeframe's milestone
/// exactly when they post the continuation comment on it, and lock it exactly
/// when they post the lock notice; every comment is one of those two notices.
pub proof fn lemma_issues_coupled(
    timeframe: Seq<char>,
    docs: Seq<GoalDocument>,
    people: Seq<Person>,
    milestone: Seq<ExistingV>,
    fetched: Seq<ExistingV>,
    n: u64,
)
    ensures
        ({
            let r = crate::diff::issues_plan(timeframe, docs, people, milestone, fetched);
            &&& r.contains(ActionV::ChangeMilestone { number: n, milestone: timeframe })
                <==> r.contains(ActionV::Comment { number: n, body: continuing_comment(timeframe) })
            &&& r.contains(ActionV::LockIssue { number: n })
                <==> r.contains(ActionV::Comment { number: n, body: lock_text() })
            &&& forall|x: ActionV| #[trigger] r.contains(x) && x is Comment ==> x->Comment_body == continuing_comment(timeframe)
                || x->Comment_body == lock_text()
            &&& forall|x: ActionV| #[trigger] r.contains(x) && x is ChangeMilestone ==> x->ChangeMilestone_milestone == timeframe
        }),
{
    let e = crate::diff::emitted(timeframe, docs, people, milestone, fetched, docs.len());
    let r = crate::diff::issues_plan(timeframe, docs, people, milestone, fetched);
    lemma_dedup_facts(e);
    crate::order::lemma_ordered(dedup(e));
    lemma_emitted_coupled(timeframe, docs, people, milestone, fetched, docs.len(), n);
    assert forall|x: ActionV| #[trigger] r.contains(x) && (x is Comment || x is ChangeMilestone) implies
        (x is Comment ==> x->Comment_body == continuing_comment(timeframe) || x->Comment_body == lock_text())
        && (x is ChangeMilestone ==> x->ChangeMilestone_milestone == timeframe) by {
        lemma_issues_plan_member(timeframe, docs, people, milestone, fetched, x);
        let i = choose|i: int| 0 <= i < docs.len() && #[trigger] crate::diff::doc_actions(timeframe, docs, people, milestone, fetched, i).contains(x);
        lemma_block_notices(timeframe, docs, people, milestone, fetched, i, x);
    }
}

proof fn lemma_block_notices(
    timeframe: Seq<char>,
    docs: Seq<GoalDocument>,
    people: Seq<Person>,
    milestone: Seq<ExistingV>,
    fetched: Seq<ExistingV>,
    i: int,
    x: ActionV,
)
    requires
        crate::diff::doc_actions(timeframe, docs, people, milestone, fetched, i).contains(x),
    ensures
        x is Comment ==> x->Comment_body == continuing_comment(timeframe) || x->Comment_body == lock_text(),
        x is ChangeMilestone ==> x->ChangeMilestone_milestone == timeframe,
        x is SyncAssignees ==> ({
            let d = crate::desired::desired_issue(timeframe, docs[i], i, people);
            &&& matched(d, milestone, fetched) is Some
            &&& matched(d, milestone, fetched)->0.number == x->SyncAssignees_number
            &&& d.assignees.to_set() != matched(d, milestone, fetched)->0.assignees.to_set()
        }),
        x is LinkToTrackingIssue ==> x->LinkToTrackingIssue_goal_document == i,
        x is CreateIssue ==> x->CreateIssue_issue.goal_document == i,
{
    let d = crate::desired::desired_issue(timeframe, docs[i], i, people);
    let link = document_link(timeframe, docs[i].link_stem@);
    match matched(d, milestone, fetched) {
        Some(e) => {
            lemma_matched_contains(timeframe, link, d, e, x);
            lemma_assignee_sync(d, e);
            let remove = sort_by(minus(e.assignees, d.assignees), str_le());
            let add = sort_by(minus(d.assignees, e.assignees), str_le());
            let sy = ActionV::SyncAssignees { number: e.number, remove, add };
            lemma_small_contains(sy, sy, x);
            let ti = ActionV::ChangeTitle { number: e.number, title: d.title };
            lemma_small_contains(ti, ti, x);
            lemma_small_contains(
                ActionV::ChangeMilestone { number: e.number, milestone: timeframe },
                ActionV::Comment { number: e.number, body: continuing_comment(timeframe) },
                x,
            );
            lemma_small_contains(ActionV::LockIssue { number: e.number }, ActionV::Comment { number: e.number, body: lock_text() }, x);
            let bo = ActionV::UpdateIssueBody { number: e.number, body: updated_body(d.body, timeframe, e.body) };
            lemma_small_contains(bo, bo, x);
            let li = ActionV::LinkToTrackingIssue { goal_document: d.goal_document, number: e.number };
            lemma_small_contains(li, li, x);
        },
        None => {
            let c = ActionV::CreateIssue { issue: d };
            lemma_small_contains(c, c, x);
        },
    }
}

/// The issue actions of a pass sync an issue's assignees only when some
/// document is matched to an issue of that number whose assignee set differs
/// from the desired one; equal sets never give a sync.
pub proof fn lemma_issues_sync_only_on_difference(
    timeframe: Seq<char>,
    docs: Seq<GoalDocument>,
    people: Seq<Person>,
    milestone: Seq<ExistingV>,
    fetched: Seq<ExistingV>,
    x: ActionV,
)
    requires
        crate::diff::issues_plan(timeframe, docs, people, milestone, fetched).contains(x),
        x is SyncAssignees,
    ensures
        exists|i: int| 0 <= i < docs.len() && ({
            let d = #[trigger] crate::desired::desired_issue(timeframe, docs[i], i, people);
            &&& matched(d, milestone, fetched) is Some
            &&& matched(d, milestone, fetched)->0.number == x->SyncAssignees_number
            &&& d.assignees.to_set() != matched(d, milestone, fetched)->0.assignees.to_set()
        }),
{
    lemma_issues_plan_member(timeframe, docs, people, milestone, fetched, x);
    let i = choose|i: int| 0 <= i < docs.len() && #[trigger] crate::diff::doc_actions(timeframe, docs, people, milestone, fetched, i).contains(x);
    lemma_block_notices(timeframe, docs, people, milestone, fetched, i, x);
}

/// Every body update among the issue actions of a pass keeps, verbatim, the
/// whole body that the tracker reported for an issue of that number.
pub proof fn lemma_issues_keep_bodies(
    timeframe: Seq<char>,
    docs: Seq<GoalDocument>,
    people: Seq<Person>,
    milestone: Seq<ExistingV>,
    fetched: Seq<ExistingV>,
    x: ActionV,
)
    requires
        crate::diff::issues_plan(timeframe, docs, people, milestone, fetched).contains(x),
    ensures
        keeps_previous_body(x, milestone, fetched),
{
    let e = crate::diff::emitted(timeframe, docs, people, milestone, fetched, docs.len());
    lemma_dedup_facts(e);
    crate::order::lemma_ordered(dedup(e));
    lemma_emitted_keeps_bodies(timeframe, docs, people, milestone, fetched, docs.len(), x);
}

/// A document that declares a tracking number present among the milestone's
/// issues gets no creation and no write-back, and each of its own actions is
/// about the issue of that number.
pub proof fn lemma_issues_tracking_first(
    timeframe: Seq<char>,
    docs: Seq<GoalDocument>,
    people: Seq<Person>,
    milestone: Seq<ExistingV>,
    fetched: Seq<ExistingV>,
    i: int,
    n: u64,
    k: int,
)
    requires
        0 <= i < docs.len(),
        docs[i].tracking_issue == Some(n),
        0 <= k < milestone.len(),
        milestone[k].number == n,
    ensures
        forall|x: ActionV| #[trigger] crate::diff::doc_actions(timeframe, docs, people, milestone, fetched, i).contains(x)
            ==> crate::diff::issue_number(x) == n as int && !(x is CreateIssue) && !(x is LinkToTrackingIssue),
        forall|x: ActionV| #[trigger] crate::diff::issues_plan(timeframe, docs, people, milestone, fetched).contains(x)
            ==> !(x is CreateIssue && x->CreateIssue_issue.goal_document == i)
            && !(x is LinkToTrackingIssue && x->LinkToTrackingIssue_goal_document == i),
{
    let d = crate::desired::desired_issue(timeframe, docs[i], i, people);
    lemma_tracking_number_first(d, milestone, fetched, n, k);
    let e = matched(d, milestone, fetched)->0;
    let link = document_link(timeframe, docs[i].link_stem@);
    assert forall|x: ActionV| #[trigger] crate::diff::doc_actions(timeframe, docs, people, milestone, fetched, i).contains(x)
        implies crate::diff::issue_number(x) == n as int && !(x is CreateIssue) && !(x is LinkToTrackingIssue) by {
        lemma_matched_contains(timeframe, link, d, e, x);
        let remove = sort_by(minus(e.assignees, d.assignees), str_le());
        let add = sort_by(minus(d.assignees, e.assignees), str_le());
        let sy = ActionV::SyncAssignees { number: e.number, remove, add };
        lemma_small_contains(sy, sy, x);
        let ti = ActionV::ChangeTitle { number: e.number, title: d.title };
        lemma_small_contains(ti, ti, x);
        lemma_small_contains(
            ActionV::ChangeMilestone { number: e.number, milestone: timeframe },
            ActionV::Comment { number: e.number, body: continuing_comment(timeframe) },
            x,
        );
        lemma_small_contains(ActionV::LockIssue { number: e.number }, ActionV::Comment { number: e.number, body: lock_text() }, x);
        let bo = ActionV::UpdateIssueBody { number: e.number, body: updated_body(d.body, timeframe, e.body) };
        lemma_small_contains(bo, bo, x);
        let li = ActionV::LinkToTrackingIssue { goal_document: d.goal_document, number: e.number };
        lemma_small_contains(li, li, x);
    }
    assert forall|x: ActionV| #[trigger] crate::diff::issues_plan(timeframe, docs, people, milestone, fetched).contains(x)
        implies !(x is CreateIssue && x->CreateIssue_issue.goal_document == i)
        && !(x is LinkToTrackingIssue && x->LinkToTrackingIssue_goal_document == i) by {
        lemma_issues_plan_member(timeframe, docs, people, milestone, fetched, x);
        let j = choose|j: int| 0 <= j < docs.len() && #[trigger] crate::diff::doc_actions(timeframe, docs, people, milestone, fetched, j).contains(x);
        lemma_block_notices(timeframe, docs, people, milestone, fetched, j, x);
    }
}

} // verus!

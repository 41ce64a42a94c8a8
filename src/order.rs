//! Orders: the total order of actions (by kind, then field by field), and
//! insertion sorting by a comparison.
use vstd::prelude::*;

use crate::cmp::{compare_list, compare_str, int_cmp, lemma_list_cmp_total, lemma_str_cmp_total, list_cmp, str_cmp};
use crate::model::{action_views, ActionV, GithubAction, IssueV, TeamRef};
use crate::text::views;

verus! {

/// The number of leading elements of `r` that go no later than `x`, counted
/// from the end: where insertion sorting puts `x`.
pub open spec fn slot_by<A>(r: Seq<A>, x: A, le: spec_fn(A, A) -> bool) -> nat
    decreases r.len(),
{
    if r.len() == 0 {
        0
    } else if le(r.last(), x) {
        r.len()
    } else {
        slot_by(r.drop_last(), x, le)
    }
}

/// `s` sorted by `le` by insertion; elements that tie keep their order.
pub open spec fn sort_by<A>(s: Seq<A>, le: spec_fn(A, A) -> bool) -> Seq<A>
    decreases s.len(),
{
    if s.len() == 0 {
        Seq::empty()
    } else {
        let r = sort_by(s.drop_last(), le);
        r.insert(slot_by(r, s.last(), le) as int, s.last())
    }
}

/// Every element goes no later than those after it.
pub open spec fn sorted_by<A>(s: Seq<A>, le: spec_fn(A, A) -> bool) -> bool {
    forall|i: int, j: int| 0 <= i < j < s.len() ==> le(#[trigger] s[i], #[trigger] s[j])
}

/// `le` is a total preorder.
pub open spec fn total_le<A>(le: spec_fn(A, A) -> bool) -> bool {
    &&& forall|a: A, b: A| #[trigger] le(a, b) || le(b, a)
    &&& forall|a: A, b: A, c: A| #[trigger] le(a, b) && #[trigger] le(b, c) ==> le(a, c)
}

proof fn lemma_slot_by<A>(r: Seq<A>, x: A, le: spec_fn(A, A) -> bool)
    requires
        total_le(le),
        sorted_by(r, le),
    ensures
        slot_by(r, x, le) <= r.len(),
        forall|i: int| 0 <= i < slot_by(r, x, le) ==> le(#[trigger] r[i], x),
        forall|i: int| slot_by(r, x, le) <= i < r.len() ==> le(x, #[trigger] r[i]),
    decreases r.len(),
{
    if r.len() > 0 {
        if !le(r.last(), x) {
            let init = r.drop_last();
            assert forall|i: int, j: int| 0 <= i < j < init.len() implies le(#[trigger] init[i], #[trigger] init[j]) by {
                assert(init[i] == r[i] && init[j] == r[j]);
            }
            lemma_slot_by(init, x, le);
            assert forall|i: int| 0 <= i < slot_by(r, x, le) implies le(#[trigger] r[i], x) by {
                assert(init[i] == r[i]);
            }
            assert forall|i: int| slot_by(r, x, le) <= i < r.len() implies le(x, #[trigger] r[i]) by {
                if i < init.len() {
                    assert(init[i] == r[i]);
                } else {
                    assert(le(r.last(), x) || le(x, r.last()));
                }
            }
        } else {
            assert forall|i: int| 0 <= i < r.len() implies le(#[trigger] r[i], x) by {
                if i < r.len() - 1 {
                    assert(le(r[i], r[r.len() - 1]));
                }
            }
        }
    }
}

/// Insertion sorting keeps the elements and their number, keeps a list free
/// of repetitions, and sorts by a total preorder.
pub proof fn lemma_sort_by<A>(s: Seq<A>, le: spec_fn(A, A) -> bool)
    ensures
        sort_by(s, le).len() == s.len(),
        forall|x: A| sort_by(s, le).contains(x) <==> s.contains(x),
        s.no_duplicates() ==> sort_by(s, le).no_duplicates(),
        total_le(le) ==> sorted_by(sort_by(s, le), le),
    decreases s.len(),
{
    if s.len() > 0 {
        let init = s.drop_last();
        lemma_sort_by(init, le);
        let r = sort_by(init, le);
        let x = s.last();
        let k = slot_by(r, x, le) as int;
        assert(k <= r.len()) by {
            lemma_slot_len(r, x, le);
        }
        let t = r.insert(k, x);
        assert forall|y: A| t.contains(y) <==> s.contains(y) by {
            if t.contains(y) {
                let i = choose|i: int| 0 <= i < t.len() && t[i] == y;
                if i == k {
                    assert(s[s.len() - 1] == y);
                } else {
                    let j = if i < k { i } else { i - 1 };
                    assert(r[j] == y);
                    assert(r.contains(y));
                    assert(init.contains(y));
                    let m = choose|m: int| 0 <= m < init.len() && init[m] == y;
                    assert(init[m] == s[m]);
                }
            }
            if s.contains(y) {
                let m = choose|m: int| 0 <= m < s.len() && s[m] == y;
                if m < init.len() {
                    assert(init[m] == y);
                    assert(init.contains(y));
                    let i = choose|i: int| 0 <= i < r.len() && r[i] == y;
                    if i < k {
                        assert(t[i] == y);
                    } else {
                        assert(t[i + 1] == y);
                    }
                } else {
                    assert(t[k] == y);
                }
            }
        }
        if s.no_duplicates() {
            assert(init.no_duplicates()) by {
                assert forall|i: int, j: int| 0 <= i < j < init.len() implies init[i] != init[j] by {
                    assert(init[i] == s[i] && init[j] == s[j]);
                }
            }
            assert(!init.contains(x)) by {
                if init.contains(x) {
                    let m = choose|m: int| 0 <= m < init.len() && init[m] == x;
                    assert(s[m] == s[s.len() - 1]);
                }
            }
            assert forall|i: int, j: int| 0 <= i < j < t.len() implies t[i] != t[j] by {
                if i == k {
                    assert(t[j] == r[j - 1]);
                } else if j == k {
                    assert(t[i] == r[i]);
                } else {
                    let ii = if i < k { i } else { i - 1 };
                    let jj = if j < k { j } else { j - 1 };
                    assert(t[i] == r[ii] && t[j] == r[jj]);
                }
            }
        }
        if total_le(le) {
            lemma_slot_by(r, x, le);
            assert forall|i: int, j: int| 0 <= i < j < t.len() implies le(#[trigger] t[i], #[trigger] t[j]) by {
                if j < k {
                    assert(t[i] == r[i] && t[j] == r[j]);
                } else if j == k {
                    assert(t[i] == r[i]);
                } else if i == k {
                    assert(t[j] == r[j - 1]);
                } else if i < k {
                    assert(t[i] == r[i] && t[j] == r[j - 1]);
                } else {
                    assert(t[i] == r[i - 1] && t[j] == r[j - 1]);
                }
            }
        }
    }
}

proof fn lemma_slot_len<A>(r: Seq<A>, x: A, le: spec_fn(A, A) -> bool)
    ensures
        slot_by(r, x, le) <= r.len(),
    decreases r.len(),
{
    if r.len() > 0 {
        lemma_slot_len(r.drop_last(), x, le);
    }
}

/// The place of an action's kind in the order of kinds.
pub open spec fn rank(a: ActionV) -> int {
    match a {
        ActionV::CreateLabel { .. } => 0,
        ActionV::CreateIssue { .. } => 1,
        ActionV::ChangeTitle { .. } => 2,
        ActionV::ChangeMilestone { .. } => 3,
        ActionV::Comment { .. } => 4,
        ActionV::UpdateIssueBody { .. } => 5,
        ActionV::SyncAssignees { .. } => 6,
        ActionV::LockIssue { .. } => 7,
        ActionV::LinkToTrackingIssue { .. } => 8,
    }
}

/// `first`, unless it is 0: then `second`.
pub open spec fn then_cmp(first: int, second: int) -> int {
    if first != 0 {
        first
    } else {
        second
    }
}

/// Compares optional numbers: none first.
pub open spec fn opt_cmp(a: Option<u64>, b: Option<u64>) -> int {
    match (a, b) {
        (None, None) => 0,
        (None, Some(_)) => -1,
        (Some(_), None) => 1,
        (Some(x), Some(y)) => int_cmp(x as int, y as int),
    }
}

/// Compares two desired issues field by field: title, assignees, body,
/// labels, tracking number, document.
pub open spec fn issue_cmp(a: IssueV, b: IssueV) -> int {
    then_cmp(
        str_cmp(a.title, b.title),
        then_cmp(
            list_cmp(a.assignees, b.assignees),
            then_cmp(
                str_cmp(a.body, b.body),
                then_cmp(
                    list_cmp(a.labels, b.labels),
                    then_cmp(opt_cmp(a.tracking_issue, b.tracking_issue), int_cmp(a.goal_document, b.goal_document)),
                ),
            ),
        ),
    )
}

/// Compares two actions of the same kind, field by field in declaration order.
pub open spec fn fields_cmp(a: ActionV, b: ActionV) -> int {
    match (a, b) {
        (ActionV::CreateLabel { name: n1, color: c1 }, ActionV::CreateLabel { name: n2, color: c2 }) =>
            then_cmp(str_cmp(n1, n2), str_cmp(c1, c2)),
        (ActionV::CreateIssue { issue: i1 }, ActionV::CreateIssue { issue: i2 }) => issue_cmp(i1, i2),
        (ActionV::ChangeTitle { number: n1, title: t1 }, ActionV::ChangeTitle { number: n2, title: t2 }) =>
            then_cmp(int_cmp(n1 as int, n2 as int), str_cmp(t1, t2)),
        (
            ActionV::ChangeMilestone { number: n1, milestone: t1 },
            ActionV::ChangeMilestone { number: n2, milestone: t2 },
        ) => then_cmp(int_cmp(n1 as int, n2 as int), str_cmp(t1, t2)),
        (ActionV::Comment { number: n1, body: t1 }, ActionV::Comment { number: n2, body: t2 }) =>
            then_cmp(int_cmp(n1 as int, n2 as int), str_cmp(t1, t2)),
        (ActionV::UpdateIssueBody { number: n1, body: t1 }, ActionV::UpdateIssueBody { number: n2, body: t2 }) =>
            then_cmp(int_cmp(n1 as int, n2 as int), str_cmp(t1, t2)),
        (
            ActionV::SyncAssignees { number: n1, remove: r1, add: a1 },
            ActionV::SyncAssignees { number: n2, remove: r2, add: a2 },
        ) => then_cmp(int_cmp(n1 as int, n2 as int), then_cmp(list_cmp(r1, r2), list_cmp(a1, a2))),
        (ActionV::LockIssue { number: n1 }, ActionV::LockIssue { number: n2 }) => int_cmp(n1 as int, n2 as int),
        (
            ActionV::LinkToTrackingIssue { goal_document: g1, number: n1 },
            ActionV::LinkToTrackingIssue { goal_document: g2, number: n2 },
        ) => then_cmp(int_cmp(g1, g2), int_cmp(n1 as int, n2 as int)),
        _ => 0,
    }
}

/// The order of actions: by kind, then field by field.
pub open spec fn action_cmp(a: ActionV, b: ActionV) -> int {
    then_cmp(int_cmp(rank(a), rank(b)), fields_cmp(a, b))
}

/// `a` goes no later than `b`.
pub open spec fn action_le() -> spec_fn(ActionV, ActionV) -> bool {
    |a: ActionV, b: ActionV| action_cmp(a, b) <= 0
}

/// `s` in the order of actions.
pub open spec fn ordered(s: Seq<ActionV>) -> Seq<ActionV> {
    sort_by(s, action_le())
}

/// Sorted in the order of actions.
pub open spec fn is_ordered(s: Seq<ActionV>) -> bool {
    sorted_by(s, action_le())
}

proof fn lemma_opt_cmp(a: Option<u64>, b: Option<u64>, c: Option<u64>)
    ensures
        opt_cmp(a, b) == -opt_cmp(b, a),
        (opt_cmp(a, b) == 0) == (a == b),
        opt_cmp(a, b) <= 0 && opt_cmp(b, c) <= 0 ==> opt_cmp(a, c) <= 0,
{
}

proof fn lemma_issue_cmp(a: IssueV, b: IssueV, c: IssueV)
    ensures
        issue_cmp(a, b) == -issue_cmp(b, a),
        (issue_cmp(a, b) == 0) == (a == b),
        issue_cmp(a, b) <= 0 && issue_cmp(b, c) <= 0 ==> issue_cmp(a, c) <= 0,
{
    lemma_str_cmp_total();
    lemma_list_cmp_total();
    lemma_opt_cmp(a.tracking_issue, b.tracking_issue, c.tracking_issue);
    lemma_opt_cmp(a.tracking_issue, c.tracking_issue, b.tracking_issue);
    lemma_opt_cmp(b.tracking_issue, a.tracking_issue, c.tracking_issue);
    assert(str_cmp(a.title, b.title) == -str_cmp(b.title, a.title));
    assert(str_cmp(a.body, b.body) == -str_cmp(b.body, a.body));
    assert(list_cmp(a.assignees, b.assignees) == -list_cmp(b.assignees, a.assignees));
    assert(list_cmp(a.labels, b.labels) == -list_cmp(b.labels, a.labels));
    assert(-1 <= str_cmp(a.title, c.title) <= 1);
    assert(-1 <= str_cmp(a.body, c.body) <= 1);
    assert(-1 <= list_cmp(a.assignees, c.assignees) <= 1);
    assert(-1 <= list_cmp(a.labels, c.labels) <= 1);
    if issue_cmp(a, b) == 0 {
        assert(str_cmp(a.title, b.title) == 0 && list_cmp(a.assignees, b.assignees) == 0);
        assert(str_cmp(a.body, b.body) == 0 && list_cmp(a.labels, b.labels) == 0);
    }
}

proof fn lemma_action_cmp(a: ActionV, b: ActionV, c: ActionV)
    ensures
        action_cmp(a, b) == -action_cmp(b, a),
        (action_cmp(a, b) == 0) == (a == b),
        action_cmp(a, b) <= 0 && action_cmp(b, c) <= 0 ==> action_cmp(a, c) <= 0,
{
    lemma_str_cmp_total();
    lemma_list_cmp_total();
    match (a, b, c) {
        (ActionV::CreateIssue { issue: x }, ActionV::CreateIssue { issue: y }, ActionV::CreateIssue { issue: z }) => {
            lemma_issue_cmp(x, y, z);
        },
        (ActionV::CreateIssue { issue: x }, ActionV::CreateIssue { issue: y }, _) => {
            lemma_issue_cmp(x, y, y);
        },
        _ => {},
    }
}

/// The order of actions is total: any two compare, and it is transitive;
/// only equal actions tie.
pub proof fn lemma_action_order_total()
    ensures
        total_le(action_le()),
        forall|a: ActionV, b: ActionV| #[trigger] action_cmp(a, b) == 0 <==> a == b,
{
    assert forall|a: ActionV, b: ActionV| #[trigger] action_cmp(a, b) == 0 <==> a == b by {
        lemma_action_cmp(a, b, b);
    }
    assert forall|a: ActionV, b: ActionV| #[trigger] action_le()(a, b) || action_le()(b, a) by {
        lemma_action_cmp(a, b, b);
    }
    assert forall|a: ActionV, b: ActionV, c: ActionV| #[trigger] action_le()(a, b) && #[trigger] action_le()(b, c) implies action_le()(a, c) by {
        lemma_action_cmp(a, b, c);
    }
}

/// Ordering keeps the actions and their number, keeps a list free of
/// repetitions, and sorts it.
pub proof fn lemma_ordered(s: Seq<ActionV>)
    ensures
        ordered(s).len() == s.len(),
        forall|x: ActionV| ordered(s).contains(x) <==> s.contains(x),
        s.no_duplicates() ==> ordered(s).no_duplicates(),
        is_ordered(ordered(s)),
{
    lemma_sort_by(s, action_le());
    lemma_action_order_total();
}

fn int_compare(a: u64, b: u64) -> (r: i8)
    ensures
        r as int == int_cmp(a as int, b as int),
{
    if a < b {
        -1
    } else if a > b {
        1
    } else {
        0
    }
}

fn then_compare(first: i8, second: i8) -> (r: i8)
    ensures
        r == if first != 0 { first } else { second },
{
    if first != 0 {
        first
    } else {
        second
    }
}

fn rank_of(a: &GithubAction) -> (r: u64)
    ensures
        r as int == rank(a@),
{
    match a {
        GithubAction::CreateLabel { .. } => 0,
        GithubAction::CreateIssue { .. } => 1,
        GithubAction::ChangeTitle { .. } => 2,
        GithubAction::ChangeMilestone { .. } => 3,
        GithubAction::Comment { .. } => 4,
        GithubAction::UpdateIssueBody { .. } => 5,
        GithubAction::SyncAssignees { .. } => 6,
        GithubAction::LockIssue { .. } => 7,
        GithubAction::LinkToTrackingIssue { .. } => 8,
    }
}

fn compare_opt(a: Option<u64>, b: Option<u64>) -> (r: i8)
    ensures
        r as int == opt_cmp(a, b),
{
    match (a, b) {
        (None, None) => 0,
        (None, Some(_)) => -1,
        (Some(_), None) => 1,
        (Some(x), Some(y)) => int_compare(x, y),
    }
}

fn compare_fields(a: &GithubAction, b: &GithubAction) -> (r: i8)
    ensures
        r as int == fields_cmp(a@, b@),
{
    match (a, b) {
        (GithubAction::CreateLabel { label: x }, GithubAction::CreateLabel { label: y }) =>
            then_compare(compare_str(&x.name, &y.name), compare_str(&x.color, &y.color)),
        (GithubAction::CreateIssue { issue: x }, GithubAction::CreateIssue { issue: y }) => {
            let last = then_compare(
                compare_opt(x.tracking_issue, y.tracking_issue),
                int_compare(x.goal_document as u64, y.goal_document as u64),
            );
            let c4 = then_compare(compare_list(&x.labels, &y.labels), last);
            let c3 = then_compare(compare_str(&x.body, &y.body), c4);
            let c2 = then_compare(compare_list(&x.assignees, &y.assignees), c3);
            then_compare(compare_str(&x.title, &y.title), c2)
        },
        (GithubAction::ChangeTitle { number: n, title: x }, GithubAction::ChangeTitle { number: m, title: y }) =>
            then_compare(int_compare(*n, *m), compare_str(x, y)),
        (
            GithubAction::ChangeMilestone { number: n, milestone: x },
            GithubAction::ChangeMilestone { number: m, milestone: y },
        ) => then_compare(int_compare(*n, *m), compare_str(x, y)),
        (GithubAction::Comment { number: n, body: x }, GithubAction::Comment { number: m, body: y }) =>
            then_compare(int_compare(*n, *m), compare_str(x, y)),
        (
            GithubAction::UpdateIssueBody { number: n, body: x },
            GithubAction::UpdateIssueBody { number: m, body: y },
        ) => then_compare(int_compare(*n, *m), compare_str(x, y)),
        (
            GithubAction::SyncAssignees { number: n, remove_owners: r1, add_owners: a1 },
            GithubAction::SyncAssignees { number: m, remove_owners: r2, add_owners: a2 },
        ) => then_compare(int_compare(*n, *m), then_compare(compare_list(r1, r2), compare_list(a1, a2))),
        (GithubAction::LockIssue { number: n }, GithubAction::LockIssue { number: m }) => int_compare(*n, *m),
        (
            GithubAction::LinkToTrackingIssue { goal_document: g, issue_id: n },
            GithubAction::LinkToTrackingIssue { goal_document: h, issue_id: m },
        ) => then_compare(int_compare(*g as u64, *h as u64), int_compare(*n, *m)),
        _ => 0,
    }
}

/// Compares two actions: by kind, then field by field.
pub fn compare_action(a: &GithubAction, b: &GithubAction) -> (r: i8)
    ensures
        r as int == action_cmp(a@, b@),
{
    then_compare(int_compare(rank_of(a), rank_of(b)), compare_fields(a, b))
}

/// The actions in the order of actions; actions that tie keep their order.
pub fn order_actions(actions: Vec<GithubAction>) -> (r: Vec<GithubAction>)
    ensures
        action_views(r@) == ordered(action_views(actions@)),
{
    let ghost all = action_views(actions@);
    let n = actions.len();
    let mut rest = actions;
    let mut items: Vec<GithubAction> = Vec::new();
    while rest.len() > 0
        invariant
            all.len() == n,
            rest@.len() + items@.len() == n,
            forall|k: int| 0 <= k < items@.len() ==> #[trigger] items@[k]@ == all[n - 1 - k],
            forall|k: int| 0 <= k < rest@.len() ==> #[trigger] rest@[k]@ == all[k],
        decreases rest.len(),
    {
        let a = rest.pop().unwrap();
        items.push(a);
    }
    let mut r: Vec<GithubAction> = Vec::new();
    let mut i: usize = 0;
    while items.len() > 0
        invariant
            i == n - items@.len(),
            i <= n,
            all.len() == n,
            forall|k: int| 0 <= k < items@.len() ==> #[trigger] items@[k]@ == all[n - 1 - k],
            action_views(r@) == ordered(all.subrange(0, i as int)),
        decreases items.len(),
    {
        let a = items.pop().unwrap();
        proof {
            assert(all.subrange(0, i + 1).drop_last() =~= all.subrange(0, i as int));
            assert(a@ == all.subrange(0, i + 1).last());
        }
        let mut k: usize = r.len();
        let ghost rv = action_views(r@);
        let mut done = false;
        proof {
            assert(rv.subrange(0, rv.len() as int) =~= rv);
        }
        while k > 0 && !done
            invariant
                k <= r.len(),
                rv == action_views(r@),
                slot_by(rv, a@, action_le()) == slot_by(rv.subrange(0, k as int), a@, action_le()),
                done ==> k > 0 && action_le()(rv[k - 1], a@),
            decreases 2 * k + if done { 0int } else { 1int },
        {
            proof {
                assert(rv[k - 1] == r@[k - 1]@);
                assert(rv.subrange(0, k as int).last() == r@[k - 1]@);
                assert(rv.subrange(0, k as int).drop_last() =~= rv.subrange(0, k - 1));
            }
            if compare_action(&r[k - 1], &a) <= 0 {
                done = true;
            } else {
                k = k - 1;
            }
        }
        proof {
            if k == 0 {
                assert(rv.subrange(0, 0) =~= Seq::<ActionV>::empty());
            } else {
                assert(rv.subrange(0, k as int).last() == rv[k - 1]);
            }
            assert(slot_by(rv, a@, action_le()) == k);
        }
        r.insert(k, a);
        proof {
            assert(action_views(r@) =~= rv.insert(k as int, a@));
        }
        i = i + 1;
    }
    proof {
        assert(all.subrange(0, n as int) =~= all);
    }
    r
}

/// `a` goes no later than `b` in the order of `str`.
pub open spec fn str_le() -> spec_fn(Seq<char>, Seq<char>) -> bool {
    |a: Seq<char>, b: Seq<char>| str_cmp(a, b) <= 0
}

/// `a`'s name goes no later than `b`'s.
pub open spec fn team_le() -> spec_fn(TeamRef, TeamRef) -> bool {
    |a: TeamRef, b: TeamRef| str_cmp(a.name@, b.name@) <= 0
}

/// Both orders are total preorders.
pub proof fn lemma_name_orders_total()
    ensures
        total_le(str_le()),
        total_le(team_le()),
{
    lemma_str_cmp_total();
    assert forall|a: Seq<char>, b: Seq<char>| #[trigger] str_le()(a, b) || str_le()(b, a) by {}
    assert forall|a: Seq<char>, b: Seq<char>, c: Seq<char>| #[trigger] str_le()(a, b) && #[trigger] str_le()(b, c) implies str_le()(a, c) by {}
    assert forall|a: TeamRef, b: TeamRef| #[trigger] team_le()(a, b) || team_le()(b, a) by {
        assert(str_cmp(a.name@, b.name@) == -str_cmp(b.name@, a.name@));
    }
    assert forall|a: TeamRef, b: TeamRef, c: TeamRef| #[trigger] team_le()(a, b) && #[trigger] team_le()(b, c) implies team_le()(a, c) by {
        assert(str_cmp(a.name@, b.name@) <= 0 && str_cmp(b.name@, c.name@) <= 0);
    }
}

/// The strings in the order of `str`.
pub fn sort_strings(v: Vec<String>) -> (r: Vec<String>)
    ensures
        views(r@) == sort_by(views(v@), str_le()),
{
    let ghost all = views(v@);
    let n = v.len();
    let mut rest = v;
    let mut items: Vec<String> = Vec::new();
    while rest.len() > 0
        invariant
            all.len() == n,
            rest@.len() + items@.len() == n,
            forall|k: int| 0 <= k < items@.len() ==> #[trigger] items@[k]@ == all[n - 1 - k],
            forall|k: int| 0 <= k < rest@.len() ==> #[trigger] rest@[k]@ == all[k],
        decreases rest.len(),
    {
        let a = rest.pop().unwrap();
        items.push(a);
    }
    let mut r: Vec<String> = Vec::new();
    let mut i: usize = 0;
    while items.len() > 0
        invariant
            i == n - items@.len(),
            i <= n,
            all.len() == n,
            forall|k: int| 0 <= k < items@.len() ==> #[trigger] items@[k]@ == all[n - 1 - k],
            views(r@) == sort_by(all.subrange(0, i as int), str_le()),
        decreases items.len(),
    {
        let a = items.pop().unwrap();
        proof {
            assert(all.subrange(0, i + 1).drop_last() =~= all.subrange(0, i as int));
            assert(a@ == all.subrange(0, i + 1).last());
        }
        let mut k: usize = r.len();
        let ghost rv = views(r@);
        let mut done = false;
        proof {
            assert(rv.subrange(0, rv.len() as int) =~= rv);
        }
        while k > 0 && !done
            invariant
                k <= r.len(),
                rv == views(r@),
                slot_by(rv, a@, str_le()) == slot_by(rv.subrange(0, k as int), a@, str_le()),
                done ==> k > 0 && str_le()(rv[k - 1], a@),
            decreases 2 * k + if done { 0int } else { 1int },
        {
            proof {
                assert(rv[k - 1] == r@[k - 1]@);
                assert(rv.subrange(0, k as int).last() == r@[k - 1]@);
                assert(rv.subrange(0, k as int).drop_last() =~= rv.subrange(0, k - 1));
            }
            if compare_str(&r[k - 1], &a) <= 0 {
                done = true;
            } else {
                k = k - 1;
            }
        }
        proof {
            if k == 0 {
                assert(rv.subrange(0, 0) =~= Seq::<Seq<char>>::empty());
            } else {
                assert(rv.subrange(0, k as int).last() == rv[k - 1]);
            }
            assert(slot_by(rv, a@, str_le()) == k);
        }
        r.insert(k, a);
        proof {
            assert(views(r@) =~= rv.insert(k as int, a@));
        }
        i = i + 1;
    }
    proof {
        assert(all.subrange(0, n as int) =~= all);
    }
    r
}

/// The teams in the order of their names; teams of one name keep their order.
pub fn sort_teams(v: Vec<TeamRef>) -> (r: Vec<TeamRef>)
    ensures
        (r@) == sort_by((v@), team_le()),
{
    let ghost all = (v@);
    let n = v.len();
    let mut rest = v;
    let mut items: Vec<TeamRef> = Vec::new();
    while rest.len() > 0
        invariant
            all.len() == n,
            rest@.len() + items@.len() == n,
            forall|k: int| 0 <= k < items@.len() ==> #[trigger] items@[k] == all[n - 1 - k],
            forall|k: int| 0 <= k < rest@.len() ==> #[trigger] rest@[k] == all[k],
        decreases rest.len(),
    {
        let a = rest.pop().unwrap();
        items.push(a);
    }
    let mut r: Vec<TeamRef> = Vec::new();
    let mut i: usize = 0;
    while items.len() > 0
        invariant
            i == n - items@.len(),
            i <= n,
            all.len() == n,
            forall|k: int| 0 <= k < items@.len() ==> #[trigger] items@[k] == all[n - 1 - k],
            (r@) == sort_by(all.subrange(0, i as int), team_le()),
        decreases items.len(),
    {
        let a = items.pop().unwrap();
        proof {
            assert(all.subrange(0, i + 1).drop_last() =~= all.subrange(0, i as int));
            assert(a == all.subrange(0, i + 1).last());
        }
        let mut k: usize = r.len();
        let ghost rv = (r@);
        let mut done = false;
        proof {
            assert(rv.subrange(0, rv.len() as int) =~= rv);
        }
        while k > 0 && !done
            invariant
                k <= r.len(),
                rv == (r@),
                slot_by(rv, a, team_le()) == slot_by(rv.subrange(0, k as int), a, team_le()),
                done ==> k > 0 && team_le()(rv[k - 1], a),
            decreases 2 * k + if done { 0int } else { 1int },
        {
            proof {
                assert(rv[k - 1] == r@[k - 1]);
                assert(rv.subrange(0, k as int).last() == r@[k - 1]);
                assert(rv.subrange(0, k as int).drop_last() =~= rv.subrange(0, k - 1));
            }
            if compare_str(&r[k - 1].name, &a.name) <= 0 {
                done = true;
            } else {
                k = k - 1;
            }
        }
        proof {
            if k == 0 {
                assert(rv.subrange(0, 0) =~= Seq::<TeamRef>::empty());
            } else {
                assert(rv.subrange(0, k as int).last() == rv[k - 1]);
            }
            assert(slot_by(rv, a, team_le()) == k);
        }
        r.insert(k, a);
        proof {
            assert((r@) =~= rv.insert(k as int, a));
        }
        i = i + 1;
    }
    proof {
        assert(all.subrange(0, n as int) =~= all);
    }
    r
}

} // verus!

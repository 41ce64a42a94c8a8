//! One pass of the engine: the whole action list, and the issues to fetch first.
use vstd::prelude::*;

use crate::desired::{asked_teams, teams_with_asks};
use crate::diff::{dedup, dedup_actions, emitted, find_number};
use crate::labels::{label_actions, label_names, missing_labels, wanted_labels};
use crate::order::{order_actions, ordered};
use crate::model::{action_views, existing_views, ActionV, ExistingIssue, ExistingV, GhLabel, GithubAction, GoalDocument, Person};

verus! {

/// The actions of one pass: the labels to create and the actions of each
/// document, without repetitions, in order of kind and then of issue number;
/// ties keep the order in which they arose.
pub open spec fn pass_plan(
    timeframe: Seq<char>,
    docs: Seq<GoalDocument>,
    people: Seq<Person>,
    labels: Seq<GhLabel>,
    milestone: Seq<ExistingV>,
    fetched: Seq<ExistingV>,
) -> Seq<ActionV> {
    ordered(
        dedup(
            label_actions(wanted_labels(asked_teams(docs)), label_names(labels)) + emitted(
                timeframe,
                docs,
                people,
                milestone,
                fetched,
                docs.len(),
            ),
        ),
    )
}

/// The actions of one pass over `documents`, given the tracker's labels, the
/// issues of the milestone `timeframe`, and the issues fetched by number.
pub fn plan_actions(
    timeframe: &str,
    documents: &Vec<GoalDocument>,
    people: &Vec<Person>,
    existing_labels: &Vec<GhLabel>,
    milestone_issues: &Vec<ExistingIssue>,
    fetched: &Vec<ExistingIssue>,
) -> (r: Vec<GithubAction>)
    ensures
        action_views(r@) == pass_plan(
            timeframe@,
            documents@,
            people@,
            existing_labels@,
            existing_views(milestone_issues@),
            existing_views(fetched@),
        ),
{
    let teams = teams_with_asks(documents);
    let mut actions = missing_labels(&teams, existing_labels);
    let mut rest = crate::diff::emit_issue_actions(timeframe, documents, people, milestone_issues, fetched);
    let ghost a = actions@;
    let ghost b = rest@;
    actions.append(&mut rest);
    proof {
        assert(action_views(actions@) =~= action_views(a) + action_views(b));
    }
    order_actions(dedup_actions(actions))
}

/// The tracking numbers of the documents, in order, that the milestone's issues lack.
pub open spec fn numbers_to_fetch(docs: Seq<GoalDocument>, milestone: Seq<ExistingV>) -> Seq<u64>
    decreases docs.len(),
{
    if docs.len() == 0 {
        Seq::empty()
    } else {
        let r = numbers_to_fetch(docs.drop_last(), milestone);
        match docs.last().tracking_issue {
            Some(n) => if find_number(milestone, n) is None {
                r.push(n)
            } else {
                r
            },
            None => r,
        }
    }
}

/// The declared tracking numbers that have to be fetched one by one because
/// the milestone's issues lack them.
pub fn issues_to_fetch(documents: &Vec<GoalDocument>, milestone_issues: &Vec<ExistingIssue>) -> (r: Vec<u64>)
    ensures
        r@ == numbers_to_fetch(documents@, existing_views(milestone_issues@)),
{
    let mut r: Vec<u64> = Vec::new();
    let mut i: usize = 0;
    while i < documents.len()
        invariant
            i <= documents.len(),
            r@ == numbers_to_fetch(documents@.subrange(0, i as int), existing_views(milestone_issues@)),
        decreases documents.len() - i,
    {
        proof {
            assert(documents@.subrange(0, i + 1).drop_last() =~= documents@.subrange(0, i as int));
        }
        match documents[i].tracking_issue {
            Some(n) => {
                if crate::diff::find_by_number(milestone_issues, n).is_none() {
                    r.push(n);
                }
            },
            None => {},
        }
        i = i + 1;
    }
    proof {
        assert(documents@.subrange(0, i as int) =~= documents@);
    }
    r
}

} // verus!

//! Human-readable descriptions of actions.
use vstd::prelude::*;

use crate::model::{ActionV, GithubAction, GoalDocument};
use crate::text::{join, join_strings, views};

verus! {

/// The decimal digits of `n`.
pub open spec fn decimal(n: nat) -> Seq<char>
    decreases n,
{
    if n < 10 {
        "0123456789"@.subrange(n as int, (n + 1) as int)
    } else {
        decimal(n / 10) + "0123456789"@.subrange((n % 10) as int, ((n % 10) + 1) as int)
    }
}

/// The decimal text of `n`.
pub fn decimal_text(n: u64) -> (r: String)
    ensures
        r@ == decimal(n as nat),
    decreases n,
{
    proof {
        reveal_strlit("0123456789");
    }
    let digits = "0123456789";
    if n < 10 {
        let d = n as usize;
        String::from_str(digits.substring_char(d, d + 1))
    } else {
        let mut s = decimal_text(n / 10);
        let d = (n % 10) as usize;
        s.append(digits.substring_char(d, d + 1));
        s
    }
}

/// The path of document `i`, or nothing when there is no such document.
pub open spec fn document_path(docs: Seq<GoalDocument>, i: int) -> Seq<char> {
    if 0 <= i < docs.len() {
        docs[i].path@
    } else {
        Seq::empty()
    }
}

/// Each string with a sign in front of it.
pub open spec fn signed(names: Seq<Seq<char>>, sign: Seq<char>) -> Seq<Seq<char>> {
    names.map_values(|n: Seq<char>| sign + n)
}

/// The description of an action; a link names the path of its document.
pub open spec fn action_text(a: ActionV, docs: Seq<GoalDocument>) -> Seq<char> {
    match a {
        ActionV::CreateLabel { name, color } => "create label `"@ + name + "` with color `"@ + color + "`"@,
        ActionV::CreateIssue { issue } => "create issue \""@ + issue.title + "\""@,
        ActionV::ChangeMilestone { number, milestone } => "update issue #"@ + decimal(number as nat)
            + " milestone to \""@ + milestone + "\""@,
        ActionV::ChangeTitle { number, title } => "update issue #"@ + decimal(number as nat) + " title to \""@
            + title + "\""@,
        ActionV::Comment { number, body } => "post comment on issue #"@ + decimal(number as nat) + ": \""@
            + body + "\""@,
        ActionV::UpdateIssueBody { number, .. } => "update the body on issue #"@ + decimal(number as nat)
            + " for new milestone"@,
        ActionV::SyncAssignees { number, remove, add } => "sync issue #"@ + decimal(number as nat) + " ("@
            + join(signed(remove, "-"@) + signed(add, "+"@), ", "@) + ")"@,
        ActionV::LockIssue { number } => "lock issue #"@ + decimal(number as nat),
        ActionV::LinkToTrackingIssue { goal_document, number } => "link issue #"@ + decimal(number as nat)
            + " to the markdown document at "@ + document_path(docs, goal_document),
    }
}

fn push_signed(out: &mut Vec<String>, names: &Vec<String>, sign: &str)
    ensures
        views(final(out)@) == views(old(out)@) + signed(views(names@), sign@),
{
    let mut i: usize = 0;
    while i < names.len()
        invariant
            i <= names.len(),
            views(out@) =~= views(old(out)@) + signed(views(names@.subrange(0, i as int)), sign@),
        decreases names.len() - i,
    {
        let mut s = String::from_str(sign);
        s.append(names[i].as_str());
        let ghost prev = out@;
        out.push(s);
        proof {
            assert(views(out@) =~= views(prev).push(s@));
            assert(names@.subrange(0, i + 1) =~= names@.subrange(0, i as int).push(names@[i as int]));
        }
        i = i + 1;
    }
    proof {
        assert(names@.subrange(0, i as int) =~= names@);
    }
}

impl GithubAction {
    /// A one-line description of the action, for reports.
    pub fn describe(&self, documents: &Vec<GoalDocument>) -> (r: String)
        ensures
            r@ == action_text(self@, documents@),
    {
        let mut s = String::new();
        match self {
            GithubAction::CreateLabel { label } => {
                s.append("create label `");
                s.append(label.name.as_str());
                s.append("` with color `");
                s.append(label.color.as_str());
                s.append("`");
            },
            GithubAction::CreateIssue { issue } => {
                s.append("create issue \"");
                s.append(issue.title.as_str());
                s.append("\"");
            },
            GithubAction::ChangeMilestone { number, milestone } => {
                s.append("update issue #");
                s.append(decimal_text(*number).as_str());
                s.append(" milestone to \"");
                s.append(milestone.as_str());
                s.append("\"");
            },
            GithubAction::ChangeTitle { number, title } => {
                s.append("update issue #");
                s.append(decimal_text(*number).as_str());
                s.append(" title to \"");
                s.append(title.as_str());
                s.append("\"");
            },
            GithubAction::Comment { number, body } => {
                s.append("post comment on issue #");
                s.append(decimal_text(*number).as_str());
                s.append(": \"");
                s.append(body.as_str());
                s.append("\"");
            },
            GithubAction::UpdateIssueBody { number, .. } => {
                s.append("update the body on issue #");
                s.append(decimal_text(*number).as_str());
                s.append(" for new milestone");
            },
            GithubAction::SyncAssignees { number, remove_owners, add_owners } => {
                let mut parts: Vec<String> = Vec::new();
                push_signed(&mut parts, remove_owners, "-");
                push_signed(&mut parts, add_owners, "+");
                s.append("sync issue #");
                s.append(decimal_text(*number).as_str());
                s.append(" (");
                s.append(join_strings(&parts, ", ").as_str());
                s.append(")");
            },
            GithubAction::LockIssue { number } => {
                s.append("lock issue #");
                s.append(decimal_text(*number).as_str());
            },
            GithubAction::LinkToTrackingIssue { goal_document, issue_id } => {
                s.append("link issue #");
                s.append(decimal_text(*issue_id).as_str());
                s.append(" to the markdown document at ");
                if *goal_document < documents.len() {
                    s.append(documents[*goal_document].path.as_str());
                }
            },
        }
        proof {
            assert(s@ =~= action_text(self@, documents@));
        }
        s
    }
}

} // verus!

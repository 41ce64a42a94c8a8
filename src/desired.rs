//! Building the desired state: one issue per goal document.
use vstd::prelude::*;

use crate::model::{IssueV, GithubIssue, GoalDocument, GoalPlan, ParsedOwners, Person, PlanItem, TeamRef};
use crate::order::{lemma_name_orders_total, lemma_sort_by, sort_by, sort_strings, sort_teams, sorted_by, str_le, team_le};
use crate::text::{join, join_strings, list_contains, views};

verus! {

/// What a plan item appends after its text to name its owners.
pub open spec fn owners_suffix(o: Option<ParsedOwners>) -> Seq<char> {
    match o {
        None => Seq::empty(),
        Some(ParsedOwners::TeamAsks(teams)) => " ("@ + join(views(teams@), ", "@) + " ![Team][])"@,
        Some(ParsedOwners::Usernames(names)) => " ("@ + join(views(names@), ", "@) + ")"@,
    }
}

/// The checklist line of a plan item.
pub open spec fn item_line(item: PlanItem) -> Seq<char> {
    "* "@ + (if item.complete {
        "[x]"@
    } else {
        "[ ]"@
    }) + " "@ + item.text@ + owners_suffix(item.owners)
}

/// The checklist lines of a plan section: its subgoal heading, then one line per item.
pub open spec fn plan_lines(plan: GoalPlan) -> Seq<Seq<char>> {
    let heading = match plan.subgoal {
        Some(t) => seq!["### "@ + t@],
        None => Seq::empty(),
    };
    heading + plan.plan_items@.map_values(|item: PlanItem| item_line(item))
}

/// The checklist lines of all sections, in document order.
pub open spec fn document_lines(plans: Seq<GoalPlan>) -> Seq<Seq<char>>
    decreases plans.len(),
{
    if plans.len() == 0 {
        Seq::empty()
    } else {
        document_lines(plans.drop_last()) + plan_lines(plans.last())
    }
}

/// The permalink marker of a goal document in the goal book of `timeframe`.
pub open spec fn document_link(timeframe: Seq<char>, stem: Seq<char>) -> Seq<char> {
    "["@ + timeframe + "/"@ + stem + "](https://rust-lang.github.io/rust-project-goals/"@
        + timeframe + "/"@ + stem + ".html)"@
}

/// The linked names of teams.
pub open spec fn team_links(teams: Seq<TeamRef>) -> Seq<Seq<char>> {
    teams.map_values(|t: TeamRef| t.name_and_link@)
}

/// The body of the tracking issue of `doc`.
pub open spec fn issue_body(timeframe: Seq<char>, doc: GoalDocument) -> Seq<char> {
    "\n| Metadata         | |\n| --------         | --- |\n| Point of contact | "@
        + join(views(doc.owner_usernames@), ", "@)
        + " |\n| Team(s)          | "@
        + join(team_links(doc.teams_with_asks@), ", "@)
        + " |\n| Goal document    | "@
        + document_link(timeframe, doc.link_stem@)
        + " |\n\n## Summary\n\n"@
        + doc.summary@
        + "\n\n## Tasks and status\n\n"@
        + join(document_lines(doc.goal_plans@), "\n"@)
        + "\n\n[Team]: https://img.shields.io/badge/Team%20ask-red\n"@
}

fn render_item(item: &PlanItem) -> (r: String)
    ensures
        r@ == item_line(*item),
{
    let mut d = String::new();
    d.append("* ");
    if item.complete {
        d.append("[x]");
    } else {
        d.append("[ ]");
    }
    d.append(" ");
    d.append(item.text.as_str());
    match &item.owners {
        Some(ParsedOwners::TeamAsks(teams)) => {
            let joined = join_strings(teams, ", ");
            d.append(" (");
            d.append(joined.as_str());
            d.append(" ![Team][])");
        },
        Some(ParsedOwners::Usernames(names)) => {
            let joined = join_strings(names, ", ");
            d.append(" (");
            d.append(joined.as_str());
            d.append(")");
        },
        None => {},
    }
    proof {
        assert(d@ =~= item_line(*item));
    }
    d
}

/// The checklist lines of one plan section.
pub fn task_items(goal_plan: &GoalPlan) -> (r: Vec<String>)
    ensures
        views(r@) == plan_lines(*goal_plan),
{
    let mut tasks: Vec<String> = Vec::new();
    match &goal_plan.subgoal {
        Some(title) => {
            let mut h = String::new();
            h.append("### ");
            h.append(title.as_str());
            tasks.push(h);
        },
        None => {},
    }
    let ghost start = views(tasks@);
    let items = &goal_plan.plan_items;
    let mut i: usize = 0;
    while i < items.len()
        invariant
            i <= items.len(),
            items == goal_plan.plan_items,
            start == match goal_plan.subgoal {
                Some(t) => seq!["### "@ + t@],
                None => Seq::<Seq<char>>::empty(),
            },
            views(tasks@) =~= start + items@.subrange(0, i as int).map_values(
                |item: PlanItem| item_line(item),
            ),
        decreases items.len() - i,
    {
        let line = render_item(&items[i]);
        let ghost prev = tasks@;
        tasks.push(line);
        proof {
            assert(views(tasks@) =~= views(prev).push(line@));
        }
        i = i + 1;
        proof {
            assert(items@.subrange(0, i as int).map_values(|item: PlanItem| item_line(item))
                =~= items@.subrange(0, i - 1).map_values(|item: PlanItem| item_line(item)).push(
                item_line(items@[i - 1]),
            ));
        }
    }
    proof {
        assert(items@.subrange(0, i as int) =~= items@);
    }
    tasks
}

/// The checklist lines of a whole document.
fn document_tasks(plans: &Vec<GoalPlan>) -> (r: Vec<String>)
    ensures
        views(r@) == document_lines(plans@),
{
    let mut tasks: Vec<String> = Vec::new();
    let mut i: usize = 0;
    while i < plans.len()
        invariant
            i <= plans.len(),
            views(tasks@) == document_lines(plans@.subrange(0, i as int)),
        decreases plans.len() - i,
    {
        let lines = task_items(&plans[i]);
        let ghost before = views(tasks@);
        let mut j: usize = 0;
        while j < lines.len()
            invariant
                j <= lines.len(),
                views(tasks@) =~= before + views(lines@).subrange(0, j as int),
            decreases lines.len() - j,
        {
            let ghost prev = tasks@;
            tasks.push(lines[j].clone());
            proof {
                assert(views(tasks@) =~= views(prev).push(lines@[j as int]@));
            }
            j = j + 1;
        }
        proof {
            assert(views(lines@).subrange(0, j as int) =~= views(lines@));
            assert(plans@.subrange(0, i + 1).drop_last() =~= plans@.subrange(0, i as int));
        }
        i = i + 1;
    }
    proof {
        assert(plans@.subrange(0, i as int) =~= plans@);
    }
    tasks
}

/// The permalink marker of `document` in the goal book of `timeframe`.
pub fn goal_document_link(timeframe: &str, document: &GoalDocument) -> (r: String)
    ensures
        r@ == document_link(timeframe@, document.link_stem@),
{
    let mut r = String::new();
    r.append("[");
    r.append(timeframe);
    r.append("/");
    r.append(document.link_stem.as_str());
    r.append("](https://rust-lang.github.io/rust-project-goals/");
    r.append(timeframe);
    r.append("/");
    r.append(document.link_stem.as_str());
    r.append(".html)");
    proof {
        assert(r@ =~= document_link(timeframe@, document.link_stem@));
    }
    r
}

/// The body of the tracking issue of `document`.
pub fn issue_text(timeframe: &str, document: &GoalDocument) -> (r: String)
    ensures
        r@ == issue_body(timeframe@, *document),
{
    let tasks = document_tasks(&document.goal_plans);
    let mut teams: Vec<String> = Vec::new();
    let mut i: usize = 0;
    while i < document.teams_with_asks.len()
        invariant
            i <= document.teams_with_asks.len(),
            views(teams@) =~= team_links(document.teams_with_asks@.subrange(0, i as int)),
        decreases document.teams_with_asks.len() - i,
    {
        let ghost prev = teams@;
        teams.push(document.teams_with_asks[i].name_and_link.clone());
        proof {
            assert(views(teams@) =~= views(prev).push(document.teams_with_asks@[i as int].name_and_link@));
            assert(document.teams_with_asks@.subrange(0, i + 1) =~= document.teams_with_asks@.subrange(0, i as int).push(document.teams_with_asks@[i as int]));
        }
        i = i + 1;
    }
    proof {
        assert(document.teams_with_asks@.subrange(0, i as int) =~= document.teams_with_asks@);
    }
    let poc = join_strings(&document.owner_usernames, ", ");
    let team_list = join_strings(&teams, ", ");
    let link = goal_document_link(timeframe, document);
    let task_list = join_strings(&tasks, "\n");
    let mut r = String::new();
    r.append("\n| Metadata         | |\n| --------         | --- |\n| Point of contact | ");
    r.append(poc.as_str());
    r.append(" |\n| Team(s)          | ");
    r.append(team_list.as_str());
    r.append(" |\n| Goal document    | ");
    r.append(link.as_str());
    r.append(" |\n\n## Summary\n\n");
    r.append(document.summary.as_str());
    r.append("\n\n## Tasks and status\n\n");
    r.append(task_list.as_str());
    r.append("\n\n[Team]: https://img.shields.io/badge/Team%20ask-red\n");
    proof {
        assert(r@ =~= issue_body(timeframe@, *document));
    }
    r
}

/// The github handle of `username` in the person directory: the first entry with that name.
pub open spec fn lookup(people: Seq<Person>, username: Seq<char>) -> Option<Seq<char>>
    decreases people.len(),
{
    if people.len() == 0 {
        None
    } else if people[0].username@ == username {
        Some(people[0].github@)
    } else {
        lookup(people.drop_first(), username)
    }
}

/// The handles of `owners` that the directory knows, in order, without repetition.
pub open spec fn resolve(owners: Seq<Seq<char>>, people: Seq<Person>) -> Seq<Seq<char>>
    decreases owners.len(),
{
    if owners.len() == 0 {
        Seq::empty()
    } else {
        let r = resolve(owners.drop_last(), people);
        match lookup(people, owners.last()) {
            Some(h) => if r.contains(h) {
                r
            } else {
                r.push(h)
            },
            None => r,
        }
    }
}

/// The labels of the tracking issue of `doc`.
pub open spec fn issue_labels(doc: GoalDocument) -> Seq<Seq<char>> {
    seq!["C-tracking-issue"@] + (if doc.is_flagship {
        seq!["Flagship Goal"@]
    } else {
        Seq::empty()
    }) + doc.teams_with_asks@.map_values(|t: TeamRef| t.label@)
}

/// The issue that should track document number `index`.
pub open spec fn desired_issue(
    timeframe: Seq<char>,
    doc: GoalDocument,
    index: int,
    people: Seq<Person>,
) -> IssueV {
    IssueV {
        title: doc.title@,
        assignees: sort_by(resolve(views(doc.owner_usernames@), people), str_le()),
        body: issue_body(timeframe, doc),
        labels: issue_labels(doc),
        tracking_issue: doc.tracking_issue,
        goal_document: index,
    }
}

fn find_person(people: &Vec<Person>, username: &String) -> (r: Option<String>)
    ensures
        match r {
            Some(h) => lookup(people@, username@) == Some(h@),
            None => lookup(people@, username@) is None,
        },
{
    let mut i: usize = 0;
    proof {
        assert(people@.subrange(0, people.len() as int) =~= people@);
    }
    while i < people.len()
        invariant
            i <= people.len(),
            lookup(people@, username@) == lookup(people@.subrange(i as int, people.len() as int), username@),
        decreases people.len() - i,
    {
        proof {
            assert(people@.subrange(i as int, people.len() as int).drop_first()
                =~= people@.subrange(i + 1, people.len() as int));
        }
        if people[i].username == *username {
            return Some(people[i].github.clone());
        }
        i = i + 1;
    }
    None
}

/// The tracking issue that `document`, number `index` in its list, should have.
pub fn issue(timeframe: &str, document: &GoalDocument, index: usize, people: &Vec<Person>) -> (r: GithubIssue)
    ensures
        r@ == desired_issue(timeframe@, *document, index as int, people@),
{
    let owners = &document.owner_usernames;
    let mut assignees: Vec<String> = Vec::new();
    let mut i: usize = 0;
    while i < owners.len()
        invariant
            i <= owners.len(),
            views(assignees@) == resolve(views(owners@.subrange(0, i as int)), people@),
        decreases owners.len() - i,
    {
        proof {
            assert(views(owners@.subrange(0, i + 1)).drop_last() =~= views(owners@.subrange(0, i as int)));
        }
        match find_person(people, &owners[i]) {
            Some(h) => {
                if !list_contains(&assignees, &h) {
                    let ghost prev = assignees@;
                    assignees.push(h);
                    proof {
                        assert(views(assignees@) =~= views(prev).push(h@));
                    }
                }
            },
            None => {},
        }
        i = i + 1;
    }
    proof {
        assert(owners@.subrange(0, i as int) =~= owners@);
    }
    let mut labels: Vec<String> = Vec::new();
    labels.push(String::from_str("C-tracking-issue"));
    if document.is_flagship {
        labels.push(String::from_str("Flagship Goal"));
    }
    let ghost start = views(labels@);
    let teams = &document.teams_with_asks;
    let mut j: usize = 0;
    while j < teams.len()
        invariant
            j <= teams.len(),
            views(labels@) =~= start + teams@.subrange(0, j as int).map_values(|t: TeamRef| t.label@),
        decreases teams.len() - j,
    {
        let ghost prev = labels@;
        labels.push(teams[j].label.clone());
        proof {
            assert(views(labels@) =~= views(prev).push(teams@[j as int].label@));
            assert(teams@.subrange(0, j + 1) =~= teams@.subrange(0, j as int).push(teams@[j as int]));
        }
        j = j + 1;
    }
    proof {
        assert(teams@.subrange(0, j as int) =~= teams@);
        assert(views(labels@) =~= issue_labels(*document));
    }
    let assignees = sort_strings(assignees);
    GithubIssue {
        title: document.title.clone(),
        assignees,
        body: issue_text(timeframe, document),
        labels,
        tracking_issue: document.tracking_issue,
        goal_document: index,
    }
}

/// Every team ask of every document, in order.
pub open spec fn all_asks(docs: Seq<GoalDocument>) -> Seq<TeamRef>
    decreases docs.len(),
{
    if docs.len() == 0 {
        Seq::empty()
    } else {
        all_asks(docs.drop_last()) + docs.last().teams_with_asks@
    }
}

/// The first team of each name, in order.
pub open spec fn distinct_teams(teams: Seq<TeamRef>) -> Seq<TeamRef>
    decreases teams.len(),
{
    if teams.len() == 0 {
        Seq::empty()
    } else {
        let r = distinct_teams(teams.drop_last());
        if exists|k: int| 0 <= k < r.len() && #[trigger] r[k].name@ == teams.last().name@ {
            r
        } else {
            r.push(teams.last())
        }
    }
}

fn copy_team(t: &TeamRef) -> (r: TeamRef)
    ensures
        r == *t,
{
    TeamRef { name: t.name.clone(), label: t.label.clone(), name_and_link: t.name_and_link.clone() }
}

/// The teams that some document asks for, one per name, in ascending order of name.
pub open spec fn asked_teams(docs: Seq<GoalDocument>) -> Seq<TeamRef> {
    sort_by(distinct_teams(all_asks(docs)), team_le())
}

/// The teams that any document asks for, each once, in ascending order of name.
pub fn teams_with_asks(goal_documents: &Vec<GoalDocument>) -> (r: Vec<TeamRef>)
    ensures
        r@ == asked_teams(goal_documents@),
        sorted_by(r@, team_le()),
        forall|t: TeamRef| r@.contains(t) <==> distinct_teams(all_asks(goal_documents@)).contains(t),
{
    let mut r: Vec<TeamRef> = Vec::new();
    let mut i: usize = 0;
    while i < goal_documents.len()
        invariant
            i <= goal_documents.len(),
            r@ == distinct_teams(all_asks(goal_documents@.subrange(0, i as int))),
        decreases goal_documents.len() - i,
    {
        let teams = &goal_documents[i].teams_with_asks;
        let ghost base = all_asks(goal_documents@.subrange(0, i as int));
        let mut j: usize = 0;
        while j < teams.len()
            invariant
                j <= teams.len(),
                i < goal_documents.len(),
                teams == goal_documents@[i as int].teams_with_asks,
                r@ == distinct_teams(base + teams@.subrange(0, j as int)),
            decreases teams.len() - j,
        {
            let ghost all = base + teams@.subrange(0, j + 1);
            proof {
                assert(all.drop_last() =~= base + teams@.subrange(0, j as int));
                assert(all.last() == teams@[j as int]);
            }
            let mut found = false;
            let mut k: usize = 0;
            while k < r.len()
                invariant
                    k <= r.len(),
                    j < teams.len(),
                    found == exists|m: int| 0 <= m < k && #[trigger] r@[m].name@ == teams@[j as int].name@,
                decreases r.len() - k,
            {
                if r[k].name == teams[j].name {
                    found = true;
                }
                k = k + 1;
            }
            if !found {
                r.push(copy_team(&teams[j]));
            }
            j = j + 1;
        }
        proof {
            assert(teams@.subrange(0, j as int) =~= teams@);
            assert(goal_documents@.subrange(0, i + 1).drop_last() =~= goal_documents@.subrange(0, i as int));
        }
        i = i + 1;
    }
    proof {
        assert(goal_documents@.subrange(0, i as int) =~= goal_documents@);
        lemma_sort_by(r@, team_le());
        lemma_name_orders_total();
    }
    sort_teams(r)
}

/// The documents whose goals were not marked as not accepted, in order.
pub open spec fn accepted(docs: Seq<GoalDocument>) -> Seq<GoalDocument>
    decreases docs.len(),
{
    if docs.len() == 0 {
        Seq::empty()
    } else if docs.last().not_accepted {
        accepted(docs.drop_last())
    } else {
        accepted(docs.drop_last()).push(docs.last())
    }
}

/// Leaves out the documents whose goals were marked as not accepted.
pub fn accepted_goals(goal_documents: Vec<GoalDocument>) -> (r: Vec<GoalDocument>)
    ensures
        r@ == accepted(goal_documents@),
{
    let ghost all = goal_documents@;
    let n = goal_documents.len();
    let mut rest = goal_documents;
    let mut items: Vec<GoalDocument> = Vec::new();
    while rest.len() > 0
        invariant
            all.len() == n,
            rest@.len() + items@.len() == n,
            forall|k: int| 0 <= k < items@.len() ==> #[trigger] items@[k] == all[n - 1 - k],
            forall|k: int| 0 <= k < rest@.len() ==> #[trigger] rest@[k] == all[k],
        decreases rest.len(),
    {
        let d = rest.pop().unwrap();
        items.push(d);
    }
    let mut r: Vec<GoalDocument> = Vec::new();
    let mut i: usize = 0;
    while items.len() > 0
        invariant
            i == n - items@.len(),
            i <= n,
            all.len() == n,
            forall|k: int| 0 <= k < items@.len() ==> #[trigger] items@[k] == all[n - 1 - k],
            r@ == accepted(all.subrange(0, i as int)),
        decreases items.len(),
    {
        let d = items.pop().unwrap();
        proof {
            assert(all.subrange(0, i + 1).drop_last() =~= all.subrange(0, i as int));
            assert(d == all.subrange(0, i + 1).last());
        }
        if !d.not_accepted {
            r.push(d);
        }
        i = i + 1;
    }
    proof {
        assert(all.subrange(0, n as int) =~= all);
    }
    r
}

} // verus!

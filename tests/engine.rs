use goal_sync::describe::decimal_text;
use goal_sync::desired::{accepted_goals, goal_document_link, issue, issue_text, task_items, teams_with_asks};
use goal_sync::diff::{initialize_issues, same_action};
use goal_sync::labels::initialize_labels;
use goal_sync::model::{
    ExistingIssue, GhLabel, GithubAction, GoalDocument, GoalPlan, ParsedOwners, Person, PlanItem,
    TeamRef,
};
use goal_sync::plan::{issues_to_fetch, plan_actions};

fn s(x: &str) -> String {
    x.to_string()
}

fn team(name: &str) -> TeamRef {
    TeamRef {
        name: s(name),
        label: format!("T-{}", name),
        name_and_link: format!("[{}][]", name),
    }
}

fn doc(title: &str, stem: &str, tracking: Option<u64>, owners: Vec<&str>) -> GoalDocument {
    GoalDocument {
        title: s(title),
        summary: s("A summary."),
        owner_usernames: owners.into_iter().map(s).collect(),
        tracking_issue: tracking,
        is_flagship: false,
        teams_with_asks: vec![],
        goal_plans: vec![GoalPlan {
            subgoal: None,
            plan_items: vec![PlanItem { text: s("Do thing"), complete: false, owners: None }],
        }],
        link_stem: s(stem),
        path: format!("src/2025h1/{}.md", stem),
        not_accepted: false,
    }
}

fn people() -> Vec<Person> {
    vec![
        Person { username: s("alice"), github: s("A") },
        Person { username: s("bob"), github: s("B") },
        Person { username: s("carol"), github: s("C") },
    ]
}

/// The issue that a tracker would hold right after creating `d`'s issue as `number`.
fn created(d: &GoalDocument, number: u64, tf: &str) -> ExistingIssue {
    let want = issue(tf, d, 0, &people());
    ExistingIssue {
        number,
        title: want.title.clone(),
        assignees: want.assignees.clone(),
        milestone: Some(s(tf)),
        body: want.body.clone(),
        locked: true,
    }
}

fn in_sync(d: &GoalDocument, number: u64, tf: &str) -> ExistingIssue {
    created(d, number, tf)
}

fn descriptions(actions: &[GithubAction], docs: &Vec<GoalDocument>) -> Vec<String> {
    actions.iter().map(|a| a.describe(docs)).collect()
}

#[test]
fn end_to_end_create_then_link() {
    let tf = "2025h1";
    let docs = vec![doc("Goal X", "goal-x", None, vec![])];
    let labels = vec![
        GhLabel { name: s("C-tracking-issue"), color: s("f5f1fd") },
        GhLabel { name: s("Flagship Goal"), color: s("5319E7") },
    ];
    let first = plan_actions(tf, &docs, &people(), &labels, &vec![], &vec![]);
    assert_eq!(first.len(), 1);
    match &first[0] {
        GithubAction::CreateIssue { issue } => {
            assert_eq!(issue.title, "Goal X");
            assert!(issue.body.contains("* [ ] Do thing"));
        }
        _ => panic!("expected a creation"),
    }
    let milestone = vec![created(&docs[0], 42, tf)];
    let second = plan_actions(tf, &docs, &people(), &labels, &milestone, &vec![]);
    assert_eq!(second.len(), 1);
    assert!(matches!(
        second[0],
        GithubAction::LinkToTrackingIssue { goal_document: 0, issue_id: 42 }
    ));
}

#[test]
fn assignee_difference() {
    let tf = "2025h1";
    let docs = vec![doc("G", "g", Some(7), vec!["bob", "carol"])];
    let mut existing = in_sync(&docs[0], 7, tf);
    existing.assignees = vec![s("A"), s("B")];
    let actions = initialize_issues(tf, &docs, &people(), &vec![existing], &vec![]);
    assert_eq!(actions.len(), 1);
    match &actions[0] {
        GithubAction::SyncAssignees { number, remove_owners, add_owners } => {
            assert_eq!(*number, 7);
            assert_eq!(remove_owners, &vec![s("A")]);
            assert_eq!(add_owners, &vec![s("C")]);
        }
        _ => panic!("expected a sync"),
    }
}

#[test]
fn equal_assignees_need_no_sync() {
    let tf = "2025h1";
    let docs = vec![doc("G", "g", Some(7), vec!["bob", "carol"])];
    let mut existing = in_sync(&docs[0], 7, tf);
    existing.assignees = vec![s("C"), s("B")];
    let actions = initialize_issues(tf, &docs, &people(), &vec![existing], &vec![]);
    assert!(actions.is_empty());
}

#[test]
fn unknown_owner_is_dropped() {
    let d = doc("G", "g", None, vec!["alice", "zed", "alice"]);
    let i = issue("2025h1", &d, 0, &people());
    assert_eq!(i.assignees, vec![s("A")]);
}

#[test]
fn tracking_number_wins_over_title() {
    let tf = "2025h1";
    let docs = vec![doc("Same", "same", Some(9), vec![])];
    let mut decoy = in_sync(&docs[0], 3, tf);
    decoy.title = s("Same");
    let target = in_sync(&docs[0], 9, tf);
    let actions = initialize_issues(tf, &docs, &people(), &vec![decoy, target], &vec![]);
    assert!(actions.is_empty());
}

#[test]
fn missing_tracking_issue_is_fetched() {
    let tf = "2025h1";
    let docs = vec![doc("G", "g", Some(11), vec![]), doc("H", "h", None, vec![])];
    let wanted = issues_to_fetch(&docs, &vec![]);
    assert_eq!(wanted, vec![11]);
    let fetched = vec![in_sync(&docs[0], 11, tf)];
    let mut moved = fetched[0].clone_for_test();
    moved.milestone = Some(s("2024h2"));
    let actions = initialize_issues(tf, &docs, &people(), &vec![], &vec![moved]);
    assert!(matches!(actions[0], GithubAction::CreateIssue { .. }));
    assert!(matches!(actions[1], GithubAction::ChangeMilestone { number: 11, .. }));
    match &actions[2] {
        GithubAction::Comment { number, body } => {
            assert_eq!(*number, 11);
            assert!(body.ends_with(" 2025h1"));
        }
        _ => panic!("expected the continuation comment"),
    }
}

trait CloneForTest {
    fn clone_for_test(&self) -> Self;
}

impl CloneForTest for ExistingIssue {
    fn clone_for_test(&self) -> Self {
        ExistingIssue {
            number: self.number,
            title: self.title.clone(),
            assignees: self.assignees.clone(),
            milestone: self.milestone.clone(),
            body: self.body.clone(),
            locked: self.locked,
        }
    }
}

#[test]
fn lock_and_milestone_come_in_pairs() {
    let tf = "2025h1";
    let docs = vec![doc("G", "g", Some(5), vec![])];
    let mut e = in_sync(&docs[0], 5, tf);
    e.locked = false;
    e.milestone = None;
    let actions = initialize_issues(tf, &docs, &people(), &vec![e], &vec![]);
    let d = descriptions(&actions, &docs);
    assert_eq!(d.len(), 4);
    assert_eq!(d[0], "update issue #5 milestone to \"2025h1\"");
    assert!(d[1].starts_with("post comment on issue #5: \"This is a continuing project goal"));
    assert!(d[2].starts_with("post comment on issue #5: \"This issue is intended for status updates only."));
    assert_eq!(d[3], "lock issue #5");
}

#[test]
fn stale_body_is_replaced_and_kept() {
    let tf = "2025h1";
    let docs = vec![doc("G", "g", Some(5), vec![])];
    let mut e = in_sync(&docs[0], 5, tf);
    e.body = s("Hand-written text.");
    let actions = initialize_issues(tf, &docs, &people(), &vec![e], &vec![]);
    assert_eq!(actions.len(), 1);
    match &actions[0] {
        GithubAction::UpdateIssueBody { number, body } => {
            assert_eq!(*number, 5);
            let desired = issue_text(tf, &docs[0]);
            assert!(body.starts_with(&desired));
            assert!(body.contains("<details>\nHand-written text.\n</details>"));
            assert!(body.contains(&goal_document_link(tf, &docs[0])));
        }
        _ => panic!("expected a body update"),
    }
}

#[test]
fn applying_actions_converges() {
    let tf = "2025h1";
    let mut docs = vec![doc("G", "g", None, vec!["alice"])];
    let mut e = ExistingIssue {
        number: 8,
        title: s("G"),
        assignees: vec![s("B")],
        milestone: Some(s("2024h2")),
        body: s("old"),
        locked: false,
    };
    let first = initialize_issues(tf, &docs, &people(), &vec![e.clone_for_test()], &vec![]);
    assert_eq!(first.len(), 7);
    for a in &first {
        match a {
            GithubAction::SyncAssignees { add_owners, remove_owners, .. } => {
                e.assignees.retain(|x| !remove_owners.contains(x));
                e.assignees.extend(add_owners.iter().cloned());
            }
            GithubAction::ChangeTitle { title, .. } => e.title = title.clone(),
            GithubAction::ChangeMilestone { milestone, .. } => e.milestone = Some(milestone.clone()),
            GithubAction::LockIssue { .. } => e.locked = true,
            GithubAction::UpdateIssueBody { body, .. } => e.body = body.clone(),
            GithubAction::LinkToTrackingIssue { goal_document, issue_id } => {
                docs[*goal_document].tracking_issue = Some(*issue_id)
            }
            _ => {}
        }
    }
    let second = initialize_issues(tf, &docs, &people(), &vec![e], &vec![]);
    assert!(second.len() < first.len());
    assert!(second.is_empty());
}

#[test]
fn existing_label_name_is_enough() {
    let teams = vec![team("lang"), team("compiler")];
    let existing = vec![
        GhLabel { name: s("T-lang"), color: s("000000") },
        GhLabel { name: s("C-tracking-issue"), color: s("f5f1fd") },
    ];
    let actions = initialize_labels(&teams, &existing);
    let names: Vec<String> = actions
        .iter()
        .map(|a| match a {
            GithubAction::CreateLabel { label } => format!("{}/{}", label.name, label.color),
            _ => panic!("only labels"),
        })
        .collect();
    assert_eq!(names, vec![s("Flagship Goal/5319E7"), s("T-compiler/bfd4f2")]);
}

#[test]
fn actions_are_ordered_by_kind_then_fields() {
    let tf = "2025h1";
    let docs = vec![doc("G", "g", Some(9), vec![]), doc("H", "h", Some(4), vec![]), doc("K", "k", None, vec![])];
    let mut e9 = in_sync(&docs[0], 9, tf);
    e9.locked = false;
    let mut e4 = in_sync(&docs[1], 4, tf);
    e4.locked = false;
    e4.title = s("Old");
    let labels = vec![GhLabel { name: s("C-tracking-issue"), color: s("f5f1fd") }];
    let actions = plan_actions(tf, &docs, &people(), &labels, &vec![e9, e4], &vec![]);
    let d = descriptions(&actions, &docs);
    assert_eq!(d.len(), 7);
    assert_eq!(d[0], "create label `Flagship Goal` with color `5319E7`");
    assert_eq!(d[1], "create issue \"K\"");
    assert_eq!(d[2], "update issue #4 title to \"H\"");
    assert!(d[3].starts_with("post comment on issue #4"));
    assert!(d[4].starts_with("post comment on issue #9"));
    assert_eq!(d[5], "lock issue #4");
    assert_eq!(d[6], "lock issue #9");
}

#[test]
fn labels_and_creations_are_ordered_by_their_fields() {
    let tf = "2025h1";
    let mut b = doc("Beta", "b", None, vec![]);
    b.teams_with_asks = vec![team("compiler")];
    let docs = vec![b, doc("Alpha", "a", None, vec![])];
    let actions = plan_actions(tf, &docs, &people(), &vec![], &vec![], &vec![]);
    let d = descriptions(&actions, &docs);
    assert_eq!(
        d,
        vec![
            s("create label `C-tracking-issue` with color `f5f1fd`"),
            s("create label `Flagship Goal` with color `5319E7`"),
            s("create label `T-compiler` with color `bfd4f2`"),
            s("create issue \"Alpha\""),
            s("create issue \"Beta\""),
        ]
    );
}

#[test]
fn assignee_lists_are_sorted() {
    let tf = "2025h1";
    let docs = vec![doc("G", "g", Some(7), vec!["carol", "alice"])];
    assert_eq!(issue(tf, &docs[0], 0, &people()).assignees, vec![s("A"), s("C")]);
    let mut existing = in_sync(&docs[0], 7, tf);
    existing.assignees = vec![s("Z"), s("B")];
    let actions = initialize_issues(tf, &docs, &people(), &vec![existing], &vec![]);
    assert_eq!(descriptions(&actions, &docs), vec![s("sync issue #7 (-B, -Z, +A, +C)")]);
}

#[test]
fn not_accepted_goals_are_left_out() {
    let mut a = doc("A", "a", None, vec![]);
    a.not_accepted = true;
    let kept = accepted_goals(vec![a, doc("B", "b", None, vec![])]);
    assert_eq!(kept.len(), 1);
    assert_eq!(kept[0].title, "B");
}

#[test]
fn two_passes_give_identical_lists() {
    let tf = "2025h1";
    let mut d1 = doc("G", "g", Some(5), vec!["alice"]);
    d1.teams_with_asks = vec![team("lang")];
    let docs = vec![d1, doc("H", "h", None, vec![])];
    let mut e = in_sync(&docs[0], 5, tf);
    e.locked = false;
    let ms = vec![e];
    let a = plan_actions(tf, &docs, &people(), &vec![], &ms, &vec![]);
    let b = plan_actions(tf, &docs, &people(), &vec![], &ms, &vec![]);
    assert_eq!(descriptions(&a, &docs), descriptions(&b, &docs));
    assert_eq!(a.len(), b.len());
    for (x, y) in a.iter().zip(b.iter()) {
        assert!(same_action(x, y));
    }
}

#[test]
fn same_issue_twice_is_listed_once() {
    let tf = "2025h1";
    let docs = vec![doc("G", "g", Some(5), vec![]), doc("G", "g", Some(5), vec![])];
    let mut e = in_sync(&docs[0], 5, tf);
    e.locked = false;
    let actions = initialize_issues(tf, &docs, &people(), &vec![e], &vec![]);
    let d = descriptions(&actions, &docs);
    assert_eq!(d.len(), 2);
    assert!(d[0].starts_with("post comment on issue #5"));
    assert_eq!(d[1], "lock issue #5");
}

#[test]
fn checklist_lines() {
    let plan = GoalPlan {
        subgoal: Some(s("Part one")),
        plan_items: vec![
            PlanItem { text: s("Write it"), complete: true, owners: Some(ParsedOwners::Usernames(vec![s("@a"), s("@b")])) },
            PlanItem { text: s("Check it"), complete: false, owners: Some(ParsedOwners::TeamAsks(vec![s("[lang][]"), s("[libs][]")])) },
            PlanItem { text: s("Ship it"), complete: false, owners: None },
        ],
    };
    assert_eq!(
        task_items(&plan),
        vec![
            s("### Part one"),
            s("* [x] Write it (@a, @b)"),
            s("* [ ] Check it ([lang][], [libs][] ![Team][])"),
            s("* [ ] Ship it"),
        ]
    );
}

#[test]
fn issue_body_layout() {
    let mut d = doc("G", "g", None, vec!["alice", "bob"]);
    d.teams_with_asks = vec![team("lang"), team("libs")];
    let body = issue_text("2025h1", &d);
    let expected = "\n| Metadata         | |\n| --------         | --- |\n| Point of contact | alice, bob |\n| Team(s)          | [lang][], [libs][] |\n| Goal document    | [2025h1/g](https://rust-lang.github.io/rust-project-goals/2025h1/g.html) |\n\n## Summary\n\nA summary.\n\n## Tasks and status\n\n* [ ] Do thing\n\n[Team]: https://img.shields.io/badge/Team%20ask-red\n";
    assert_eq!(body, expected);
}

#[test]
fn labels_of_a_flagship_goal() {
    let mut d = doc("G", "g", None, vec![]);
    d.is_flagship = true;
    d.teams_with_asks = vec![team("lang")];
    let i = issue("2025h1", &d, 3, &people());
    assert_eq!(i.labels, vec![s("C-tracking-issue"), s("Flagship Goal"), s("T-lang")]);
    assert_eq!(i.goal_document, 3);
}

#[test]
fn teams_are_collected_once() {
    let mut a = doc("A", "a", None, vec![]);
    a.teams_with_asks = vec![team("lang"), team("libs")];
    let mut b = doc("B", "b", None, vec![]);
    b.teams_with_asks = vec![team("libs"), team("compiler")];
    let names: Vec<String> = teams_with_asks(&vec![a, b]).into_iter().map(|t| t.name).collect();
    assert_eq!(names, vec![s("compiler"), s("lang"), s("libs")]);
}

#[test]
fn decimal_numbers() {
    assert_eq!(decimal_text(0), "0");
    assert_eq!(decimal_text(42), "42");
    assert_eq!(decimal_text(u64::MAX), u64::MAX.to_string());
}

#[test]
fn sync_description() {
    let a = GithubAction::SyncAssignees { number: 3, remove_owners: vec![s("A")], add_owners: vec![s("C"), s("D")] };
    assert_eq!(a.describe(&vec![]), "sync issue #3 (-A, +C, +D)");
    let l = GithubAction::LinkToTrackingIssue { goal_document: 0, issue_id: 42 };
    let docs = vec![doc("G", "g", None, vec![])];
    assert_eq!(l.describe(&docs), "link issue #42 to the markdown document at src/2025h1/g.md");
    let c = GithubAction::CreateLabel { label: GhLabel { name: s("T-lang"), color: s("bfd4f2") } };
    assert_eq!(c.describe(&docs), "create label `T-lang` with color `bfd4f2`");
}

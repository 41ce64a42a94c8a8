use goal_sync::driver::{next_step, validate_path, BatchTally, PassStep, PathError};
use goal_sync::rfc::{team_checklist, rewrite_links, TeamData, TeamMember};

#[test]
fn path_must_be_a_relative_directory() {
    assert_eq!(validate_path(false, false, Some("2025h1".to_string())), Err(PathError::NotADirectory));
    assert_eq!(validate_path(true, true, Some("2025h1".to_string())), Err(PathError::NotRelative));
    assert_eq!(validate_path(true, false, None), Err(PathError::InvalidName));
    assert_eq!(validate_path(true, false, Some("2025h1".to_string())), Ok("2025h1".to_string()));
}

#[test]
fn pass_steps() {
    assert_eq!(next_step(0, true), PassStep::Converged);
    assert_eq!(next_step(0, false), PassStep::Converged);
    assert_eq!(next_step(3, false), PassStep::Report);
    assert_eq!(next_step(3, true), PassStep::Execute);
}

#[test]
fn batch_fails_only_when_nothing_succeeded() {
    let mut t = BatchTally::new();
    assert!(!t.all_failed());
    t.record(false);
    t.record(false);
    assert!(t.all_failed());
    t.record(true);
    assert!(!t.all_failed());
    assert_eq!((t.attempted, t.succeeded), (3, 1));
}

#[test]
fn team_sign_off_checklist() {
    let teams = vec![TeamData {
        name: "Lang".to_string(),
        members: vec![
            TeamMember { github: "x".to_string(), is_lead: false },
            TeamMember { github: "y".to_string(), is_lead: true },
        ],
    }];
    assert_eq!(team_checklist(&teams), "\n## Lang\n\n* [ ] @y (required, lead)\n* [ ] x (optional)\n");
}

#[test]
fn goal_links_point_at_the_site() {
    let text = "See [the goal](./foo.md#plan) and [other](bar.md).";
    let r = rewrite_links(text, "2025h1").unwrap();
    assert_eq!(
        r,
        "See [the goal](https://rust-lang.github.io/rust-project-goals/2025h1/./foo.html#plan) and [other](https://rust-lang.github.io/rust-project-goals/2025h1/bar.html)."
    );
}

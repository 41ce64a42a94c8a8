//! Label reconciliation: which labels have to be created.
use vstd::prelude::*;

use crate::model::{action_views, ActionV, GhLabel, GithubAction, TeamRef};
use crate::order::{order_actions, ordered};
use crate::text::{list_contains, views};

verus! {

/// The colour given to a team label.
pub open spec fn team_color() -> Seq<char> {
    "bfd4f2"@
}

/// The labels that should exist, as (name, colour): one per team, then the
/// tracking-issue label and the flagship label.
pub open spec fn wanted_labels(teams: Seq<TeamRef>) -> Seq<(Seq<char>, Seq<char>)> {
    teams.map_values(|t: TeamRef| (t.label@, team_color())) + seq![
        ("C-tracking-issue"@, "f5f1fd"@),
        ("Flagship Goal"@, "5319E7"@),
    ]
}

/// The names of labels.
pub open spec fn label_names(labels: Seq<GhLabel>) -> Seq<Seq<char>> {
    labels.map_values(|l: GhLabel| l.name@)
}

/// A wanted label is created when no existing label and no earlier wanted label
/// has its name; colours are never compared.
pub open spec fn label_actions(wanted: Seq<(Seq<char>, Seq<char>)>, existing: Seq<Seq<char>>) -> Seq<ActionV>
    decreases wanted.len(),
{
    if wanted.len() == 0 {
        Seq::empty()
    } else {
        let r = label_actions(wanted.drop_last(), existing);
        let name = wanted.last().0;
        if existing.contains(name) || wanted.drop_last().map_values(|w: (Seq<char>, Seq<char>)| w.0).contains(name) {
            r
        } else {
            r.push(ActionV::CreateLabel { name, color: wanted.last().1 })
        }
    }
}

/// The label actions for the teams asked for, given the labels that exist,
/// in the order of actions: by name, then colour.
pub fn initialize_labels(teams_with_asks: &Vec<TeamRef>, existing: &Vec<GhLabel>) -> (r: Vec<GithubAction>)
    ensures
        action_views(r@) == ordered(label_actions(wanted_labels(teams_with_asks@), label_names(existing@))),
{
    order_actions(missing_labels(teams_with_asks, existing))
}

/// The label actions in the order the labels are wanted.
pub(crate) fn missing_labels(teams_with_asks: &Vec<TeamRef>, existing: &Vec<GhLabel>) -> (r: Vec<GithubAction>)
    ensures
        action_views(r@) == label_actions(wanted_labels(teams_with_asks@), label_names(existing@)),
{
    let mut wanted: Vec<GhLabel> = Vec::new();
    let mut i: usize = 0;
    while i < teams_with_asks.len()
        invariant
            i <= teams_with_asks.len(),
            wanted@.len() == i,
            forall|k: int| 0 <= k < i ==> (#[trigger] wanted@[k]).name@ == teams_with_asks@[k].label@
                && wanted@[k].color@ == team_color(),
        decreases teams_with_asks.len() - i,
    {
        wanted.push(GhLabel { name: teams_with_asks[i].label.clone(), color: String::from_str("bfd4f2") });
        i = i + 1;
    }
    wanted.push(GhLabel { name: String::from_str("C-tracking-issue"), color: String::from_str("f5f1fd") });
    wanted.push(GhLabel { name: String::from_str("Flagship Goal"), color: String::from_str("5319E7") });
    let ghost want = wanted_labels(teams_with_asks@);
    proof {
        assert(want.len() == wanted@.len());
        assert forall|k: int| 0 <= k < want.len() implies want[k] == (#[trigger] wanted@[k].name@, wanted@[k].color@) by {}
    }
    let mut names: Vec<String> = Vec::new();
    let mut j: usize = 0;
    while j < existing.len()
        invariant
            j <= existing.len(),
            views(names@) =~= label_names(existing@.subrange(0, j as int)),
        decreases existing.len() - j,
    {
        let ghost prev = names@;
        names.push(existing[j].name.clone());
        proof {
            assert(views(names@) =~= views(prev).push(existing@[j as int].name@));
        }
        j = j + 1;
    }
    proof {
        assert(existing@.subrange(0, j as int) =~= existing@);
    }
    let mut seen: Vec<String> = Vec::new();
    let mut r: Vec<GithubAction> = Vec::new();
    let mut k: usize = 0;
    while k < wanted.len()
        invariant
            k <= wanted.len(),
            want.len() == wanted@.len(),
            forall|m: int| 0 <= m < want.len() ==> want[m] == (#[trigger] wanted@[m].name@, wanted@[m].color@),
            views(names@) == label_names(existing@),
            views(seen@) =~= want.subrange(0, k as int).map_values(|w: (Seq<char>, Seq<char>)| w.0),
            action_views(r@) == label_actions(want.subrange(0, k as int), label_names(existing@)),
        decreases wanted.len() - k,
    {
        let ghost sub = want.subrange(0, k + 1);
        proof {
            assert(sub.drop_last() =~= want.subrange(0, k as int));
        }
        let label = &wanted[k];
        if !list_contains(&names, &label.name) && !list_contains(&seen, &label.name) {
            let ghost prev = r@;
            r.push(GithubAction::CreateLabel { label: GhLabel { name: label.name.clone(), color: label.color.clone() } });
            proof {
                assert(action_views(r@) =~= action_views(prev).push(ActionV::CreateLabel { name: want[k as int].0, color: want[k as int].1 }));
            }
        }
        let ghost prev_seen = seen@;
        seen.push(label.name.clone());
        proof {
            assert(views(seen@) =~= views(prev_seen).push(want[k as int].0));
        }
        k = k + 1;
    }
    proof {
        assert(want.subrange(0, k as int) =~= want);
    }
    r
}

/// A wanted label whose name already exists is never created, whatever its colour.
pub proof fn lemma_existing_label_not_created(
    wanted: Seq<(Seq<char>, Seq<char>)>,
    existing: Seq<Seq<char>>,
    name: Seq<char>,
)
    requires
        existing.contains(name),
    ensures
        forall|k: int|
            0 <= k < label_actions(wanted, existing).len() ==> !(#[trigger] label_actions(wanted, existing)[k] matches ActionV::CreateLabel { name: n, .. } && n == name),
    decreases wanted.len(),
{
    if wanted.len() > 0 {
        lemma_existing_label_not_created(wanted.drop_last(), existing, name);
    }
}

/// Creating the missing labels leaves nothing to create.
pub proof fn lemma_labels_converge(wanted: Seq<(Seq<char>, Seq<char>)>, existing: Seq<Seq<char>>)
    ensures
        label_actions(wanted, existing + created_names(label_actions(wanted, existing))).len() == 0,
{
    lemma_created_cover(wanted, existing);
    lemma_nothing_missing(wanted, existing + created_names(label_actions(wanted, existing)));
}

/// The names of the labels that a list of actions creates.
pub open spec fn created_names(actions: Seq<ActionV>) -> Seq<Seq<char>>
    decreases actions.len(),
{
    if actions.len() == 0 {
        Seq::empty()
    } else {
        let r = created_names(actions.drop_last());
        match actions.last() {
            ActionV::CreateLabel { name, .. } => r.push(name),
            _ => r,
        }
    }
}

proof fn lemma_created_cover(wanted: Seq<(Seq<char>, Seq<char>)>, existing: Seq<Seq<char>>)
    ensures
        forall|k: int| 0 <= k < wanted.len() ==>
            (existing + created_names(label_actions(wanted, existing))).contains(#[trigger] wanted[k].0),
    decreases wanted.len(),
{
    if wanted.len() > 0 {
        let init = wanted.drop_last();
        lemma_created_cover(init, existing);
        let r0 = label_actions(init, existing);
        let all0 = existing + created_names(r0);
        let all = existing + created_names(label_actions(wanted, existing));
        assert forall|x: Seq<char>| all0.contains(x) implies all.contains(x) by {
            let i = choose|i: int| 0 <= i < all0.len() && all0[i] == x;
            if i < existing.len() {
                assert(all[i] == x);
            } else {
                let name = wanted.last().0;
                if !(existing.contains(name) || init.map_values(|w: (Seq<char>, Seq<char>)| w.0).contains(name)) {
                    assert(label_actions(wanted, existing).drop_last() =~= r0);
                    assert(created_names(label_actions(wanted, existing)) =~= created_names(r0).push(name));
                }
                assert(all[i] == x);
            }
        }
        assert forall|k: int| 0 <= k < wanted.len() implies all.contains(#[trigger] wanted[k].0) by {
            if k < init.len() {
                assert(init[k] == wanted[k]);
                assert(all0.contains(init[k].0));
            } else {
                let name = wanted.last().0;
                let names0 = init.map_values(|w: (Seq<char>, Seq<char>)| w.0);
                if existing.contains(name) {
                    let i = choose|i: int| 0 <= i < existing.len() && existing[i] == name;
                    assert(all[i] == name);
                } else if names0.contains(name) {
                    let i = choose|i: int| 0 <= i < names0.len() && names0[i] == name;
                    assert(init[i].0 == name);
                    assert(all0.contains(init[i].0));
                } else {
                    assert(label_actions(wanted, existing).drop_last() =~= r0);
                    assert(created_names(label_actions(wanted, existing)) =~= created_names(r0).push(name));
                    assert(all[all.len() - 1] == name);
                }
            }
        }
    }
}

proof fn lemma_nothing_missing(wanted: Seq<(Seq<char>, Seq<char>)>, existing: Seq<Seq<char>>)
    requires
        forall|k: int| 0 <= k < wanted.len() ==> existing.contains(#[trigger] wanted[k].0),
    ensures
        label_actions(wanted, existing).len() == 0,
    decreases wanted.len(),
{
    if wanted.len() > 0 {
        let init = wanted.drop_last();
        assert forall|k: int| 0 <= k < init.len() implies existing.contains(#[trigger] init[k].0) by {
            assert(init[k] == wanted[k]);
        }
        lemma_nothing_missing(init, existing);
        assert(existing.contains(wanted[wanted.len() - 1].0));
    }
}

} // verus!

//! Text for the RFC: the team sign-off checklist and the rewriting of the goal
//! book's links.
use vstd::prelude::*;

verus! {

/// Whether `pattern` compiles as a regular expression of the regex crate.
pub uninterp spec fn regex_compiles(pattern: Seq<char>) -> bool;

/// What the regex crate makes of `text` when it replaces every match of
/// `pattern` by `replacement`, expanding `$n` to the n-th capture group.
pub uninterp spec fn regex_replaced(pattern: Seq<char>, text: Seq<char>, replacement: Seq<char>) -> Seq<char>;

/// Relies on regex::Regex::new, which fails exactly on patterns that do not
/// compile, and on Regex::replace_all, whose result depends on the pattern, the
/// text and the replacement alone.
#[verifier::external_body]
fn regex_replace_all(pattern: &str, text: &str, replacement: &str) -> (r: Option<String>)
    ensures
        r is Some == regex_compiles(pattern@),
        r matches Some(s) ==> s@ == regex_replaced(pattern@, text@, replacement@),
{
    match regex::Regex::new(pattern) {
        Ok(re) => Some(re.replace_all(text, replacement).into_owned()),
        Err(_) => None,
    }
}

/// The pattern of a markdown link to a page of the goal book: `](name.md)`,
/// with an optional `#anchor`.
pub open spec fn link_pattern() -> Seq<char> {
    "\\]\\(([^(]*)\\.md(#[^)]*)?\\)"@
}

/// The replacement of such a link: the page on the published site of `timeframe`.
pub open spec fn link_replacement(timeframe: Seq<char>) -> Seq<char> {
    "](https://rust-lang.github.io/rust-project-goals/"@ + timeframe + "/$1.html$2)"@
}

/// The generated RFC text with its links to goal pages pointed at the
/// published site of `timeframe`; `None` when the link pattern does not compile.
pub fn rewrite_links(text: &str, timeframe: &str) -> (r: Option<String>)
    ensures
        r is Some == regex_compiles(link_pattern()),
        r matches Some(s) ==> s@ == regex_replaced(link_pattern(), text@, link_replacement(timeframe@)),
{
    let mut replacement = String::from_str("](https://rust-lang.github.io/rust-project-goals/");
    replacement.append(timeframe);
    replacement.append("/$1.html$2)");
    proof {
        assert(replacement@ =~= link_replacement(timeframe@));
    }
    regex_replace_all("\\]\\(([^(]*)\\.md(#[^)]*)?\\)", text, replacement.as_str())
}

/// A member of a team.
pub struct TeamMember {
    pub github: String,
    pub is_lead: bool,
}

/// A team whose sign-off the RFC asks for.
pub struct TeamData {
    pub name: String,
    pub members: Vec<TeamMember>,
}

/// The checklist lines of the members of a team with `is_lead == lead`, in order.
pub open spec fn member_lines(members: Seq<TeamMember>, lead: bool) -> Seq<char>
    decreases members.len(),
{
    if members.len() == 0 {
        Seq::empty()
    } else {
        let m = members.last();
        member_lines(members.drop_last(), lead) + if m.is_lead != lead {
            Seq::empty()
        } else if lead {
            "* [ ] @"@ + m.github@ + " (required, lead)\n"@
        } else {
            "* [ ] "@ + m.github@ + " (optional)\n"@
        }
    }
}

/// The sign-off section of one team: a heading, the leads, then the others.
pub open spec fn team_section(team: TeamData) -> Seq<char> {
    "\n## "@ + team.name@ + "\n\n"@ + member_lines(team.members@, true) + member_lines(team.members@, false)
}

/// The sign-off sections of the teams, in order.
pub open spec fn checklist_text(teams: Seq<TeamData>) -> Seq<char>
    decreases teams.len(),
{
    if teams.len() == 0 {
        Seq::empty()
    } else {
        checklist_text(teams.drop_last()) + team_section(teams.last())
    }
}

fn append_members(out: &mut String, members: &Vec<TeamMember>, lead: bool)
    ensures
        final(out)@ == old(out)@ + member_lines(members@, lead),
{
    let mut i: usize = 0;
    while i < members.len()
        invariant
            i <= members.len(),
            out@ == old(out)@ + member_lines(members@.subrange(0, i as int), lead),
        decreases members.len() - i,
    {
        proof {
            assert(members@.subrange(0, i + 1).drop_last() =~= members@.subrange(0, i as int));
        }
        let m = &members[i];
        if m.is_lead == lead {
            if lead {
                out.append("* [ ] @");
                out.append(m.github.as_str());
                out.append(" (required, lead)\n");
            } else {
                out.append("* [ ] ");
                out.append(m.github.as_str());
                out.append(" (optional)\n");
            }
        }
        proof {
            assert(out@ =~= old(out)@ + member_lines(members@.subrange(0, i + 1), lead));
        }
        i = i + 1;
    }
    proof {
        assert(members@.subrange(0, i as int) =~= members@);
    }
}

/// The comment that asks each team with asks for its sign-off: per team, its
/// leads as required signers and its other members as optional ones.
pub fn team_checklist(teams: &Vec<TeamData>) -> (r: String)
    ensures
        r@ == checklist_text(teams@),
{
    let mut out = String::new();
    let mut i: usize = 0;
    while i < teams.len()
        invariant
            i <= teams.len(),
            out@ == checklist_text(teams@.subrange(0, i as int)),
        decreases teams.len() - i,
    {
        proof {
            assert(teams@.subrange(0, i + 1).drop_last() =~= teams@.subrange(0, i as int));
        }
        let ghost before = out@;
        out.append("\n## ");
        out.append(teams[i].name.as_str());
        out.append("\n\n");
        append_members(&mut out, &teams[i].members, true);
        append_members(&mut out, &teams[i].members, false);
        proof {
            assert(out@ =~= before + team_section(teams@[i as int]));
        }
        i = i + 1;
    }
    proof {
        assert(teams@.subrange(0, i as int) =~= teams@);
    }
    out
}

} // verus!

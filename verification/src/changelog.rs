//! Changelog formatting: one line per commit, optionally annotated with an
//! abbreviated id and a pull-request marker, and the changelog block.

use vstd::prelude::*;
use vstd::string::*;

use crate::commits::CommitRecord;
use crate::enricher::first_match;
use crate::enricher::pair_views;
use crate::text::dec_str;
use crate::text::u64_to_string;

verus! {

/// How a commit line notes its pull request: annotation was not requested;
/// it was requested but no pull request matched; or the first matching
/// pull request's number.
#[derive(Clone, Copy, PartialEq, Eq, Structural, Debug)]
pub enum PrAnnotation {
    NotRequested,
    NotFound,
    Found(u64),
}

/// The id prefix a line shows: the first seven characters, or the whole id
/// when it is shorter.
pub open spec fn abbrev_spec(id: Seq<char>) -> Seq<char> {
    if id.len() >= 7 {
        id.take(7)
    } else {
        id
    }
}

/// The pull-request marker a line ends with.
pub open spec fn marker_spec(pr: PrAnnotation) -> Seq<char> {
    match pr {
        PrAnnotation::NotRequested => Seq::empty(),
        PrAnnotation::NotFound => " (N/A)"@,
        PrAnnotation::Found(n) => " (#"@ + dec_str(n as nat) + ")"@,
    }
}

/// One commit's line: the abbreviated id if requested, the summary, and
/// the pull-request marker.
pub open spec fn line_spec(
    id: Seq<char>,
    summary: Seq<char>,
    use_sha: bool,
    pr: PrAnnotation,
) -> Seq<char> {
    (if use_sha {
        abbrev_spec(id) + " "@
    } else {
        Seq::empty()
    }) + summary + marker_spec(pr)
}

/// The annotation of one commit, given the association if one was built.
pub open spec fn annotation_spec(
    assoc: Option<Seq<(Seq<char>, u64)>>,
    id: Seq<char>,
) -> PrAnnotation {
    match assoc {
        None => PrAnnotation::NotRequested,
        Some(a) => match first_match(a, id) {
            None => PrAnnotation::NotFound,
            Some(n) => PrAnnotation::Found(n),
        },
    }
}

/// The views of an optional association.
pub open spec fn assoc_views(assoc: Option<Vec<(String, u64)>>) -> Option<
    Seq<(Seq<char>, u64)>,
> {
    match assoc {
        None => None,
        Some(v) => Some(pair_views(v@)),
    }
}

/// Renders one commit line.
pub fn format_commit_line(commit: &CommitRecord, use_sha: bool, pr: &PrAnnotation) -> (r: String)
    ensures
        r@ == line_spec(commit.id@, commit.summary@, use_sha, *pr),
{
    proof {
        reveal_strlit(" ");
        reveal_strlit(" (N/A)");
        reveal_strlit(" (#");
        reveal_strlit(")");
    }
    let mut s = String::new();
    if use_sha {
        let id = commit.id.as_str();
        let len = id.unicode_len();
        let cut = if len >= 7 {
            7
        } else {
            len
        };
        s.append(id.substring_char(0, cut));
        proof {
            assert(s@ =~= abbrev_spec(commit.id@));
        }
        s.append(" ");
    }
    s.append(commit.summary.as_str());
    match pr {
        PrAnnotation::NotRequested => {},
        PrAnnotation::NotFound => {
            s.append(" (N/A)");
        },
        PrAnnotation::Found(n) => {
            s.append(" (#");
            s.append(u64_to_string(*n).as_str());
            s.append(")");
        },
    }
    proof {
        assert(s@ =~= line_spec(commit.id@, commit.summary@, use_sha, *pr));
    }
    s
}

/// The annotation of one commit: nothing when no association was built,
/// else the first matching pull request or the explicit not-found note.
pub fn annotation_for(assoc: &Option<Vec<(String, u64)>>, commit_id: &String) -> (r: PrAnnotation)
    ensures
        r == annotation_spec(assoc_views(*assoc), commit_id@),
{
    match assoc {
        None => PrAnnotation::NotRequested,
        Some(v) => match crate::enricher::first_pr_for(v, commit_id) {
            None => PrAnnotation::NotFound,
            Some(n) => PrAnnotation::Found(n),
        },
    }
}

/// Renders the line of every commit of a range, newest first, each with
/// its own annotation.
pub fn format_commit_lines(
    commits: &Vec<CommitRecord>,
    use_sha: bool,
    assoc: &Option<Vec<(String, u64)>>,
) -> (r: Vec<String>)
    ensures
        r@.len() == commits@.len(),
        forall|k: int|
            0 <= k < commits@.len() ==> r@[k]@ == line_spec(
                commits@[k].id@,
                commits@[k].summary@,
                use_sha,
                annotation_spec(assoc_views(*assoc), commits@[k].id@),
            ),
{
    let mut out: Vec<String> = Vec::new();
    let n = commits.len();
    for i in 0..n
        invariant
            n == commits@.len(),
            out@.len() == i,
            forall|k: int|
                0 <= k < i ==> out@[k]@ == line_spec(
                    commits@[k].id@,
                    commits@[k].summary@,
                    use_sha,
                    annotation_spec(assoc_views(*assoc), commits@[k].id@),
                ),
    {
        let pr = annotation_for(assoc, &commits[i].id);
        let line = format_commit_line(&commits[i], use_sha, &pr);
        out.push(line);
    }
    out
}

/// When annotation was requested, a commit the association holds no pull
/// request for ends its line with the not-found marker, and a commit with
/// at least one match ends it with the first matching number; the rest of
/// the line is the same either way.
pub proof fn lemma_pr_markers(
    id: Seq<char>,
    summary: Seq<char>,
    use_sha: bool,
    assoc: Seq<(Seq<char>, u64)>,
)
    ensures
        first_match(assoc, id) is None ==> line_spec(
            id,
            summary,
            use_sha,
            annotation_spec(Some(assoc), id),
        ) == line_spec(id, summary, use_sha, PrAnnotation::NotRequested) + " (N/A)"@,
        forall|n: u64|
            first_match(assoc, id) == Some(n) ==> line_spec(
                id,
                summary,
                use_sha,
                annotation_spec(Some(assoc), id),
            ) == line_spec(id, summary, use_sha, PrAnnotation::NotRequested) + " (#"@ + dec_str(
                n as nat,
            ) + ")"@,
{
    let bare = line_spec(id, summary, use_sha, PrAnnotation::NotRequested);
    assert forall|pr: PrAnnotation| line_spec(id, summary, use_sha, pr) =~= bare + marker_spec(
        pr,
    ) by {}
}

/// The body of a non-empty changelog: one ` - `-prefixed line per commit
/// message, each on its own line, newest first.
pub open spec fn changelog_entries(msgs: Seq<Seq<char>>, m: int) -> Seq<char>
    decreases m,
{
    if m <= 0 {
        Seq::empty()
    } else {
        changelog_entries(msgs, m - 1) + "\n - "@ + msgs[m - 1]
    }
}

/// The changelog: an explicit no-new-commits sentinel for an empty commit
/// sequence, else a header followed by one line per commit.
pub open spec fn changelog_spec(msgs: Seq<Seq<char>>) -> Seq<char> {
    if msgs.len() == 0 {
        "No new commits since the latest tag."@
    } else {
        "Changelog:"@ + changelog_entries(msgs, msgs.len() as int)
    }
}

/// Renders the changelog of a list of commit messages, newest first. An
/// empty list yields the no-new-commits sentinel, never an empty string.
pub fn generate_changelog(commit_msgs: &Vec<String>) -> (r: String)
    ensures
        r@ == changelog_spec(commit_msgs@.map_values(|s: String| s@)),
        r@.len() > 0,
{
    let ghost msgs = commit_msgs@.map_values(|s: String| s@);
    proof {
        lemma_changelog_never_empty(msgs);
    }
    if commit_msgs.len() == 0 {
        return String::from_str("No new commits since the latest tag.");
    }
    proof {
        reveal_strlit("\n - ");
    }
    let mut s = String::from_str("Changelog:");
    let n = commit_msgs.len();
    for i in 0..n
        invariant
            n == commit_msgs@.len(),
            msgs == commit_msgs@.map_values(|s: String| s@),
            s@ == "Changelog:"@ + changelog_entries(msgs, i as int),
    {
        s.append("\n - ");
        s.append(commit_msgs[i].as_str());
        proof {
            assert(s@ =~= "Changelog:"@ + changelog_entries(msgs, i as int + 1));
        }
    }
    s
}

/// The changelog is never the empty string: an empty commit sequence
/// yields the explicit no-new-commits sentinel, and any other one starts
/// with the changelog header.
pub proof fn lemma_changelog_never_empty(msgs: Seq<Seq<char>>)
    ensures
        changelog_spec(msgs).len() > 0,
        msgs.len() == 0 ==> changelog_spec(msgs) == "No new commits since the latest tag."@,
{
    reveal_strlit("No new commits since the latest tag.");
    reveal_strlit("Changelog:");
}

} // verus!

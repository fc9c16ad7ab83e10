//! Rendering the run's report: the tag summaries, the changelog block, and
//! the final output text. All pure; the surrounding program only prints
//! what these return.

use vstd::prelude::*;
use vstd::string::*;

use crate::changelog::changelog_spec;
use crate::changelog::generate_changelog;

verus! {

/// Which tag a summary block describes.
#[derive(Clone, Copy, PartialEq, Eq, Structural, Debug)]
pub enum MsgType {
    New,
    Latest,
}

/// The word a tag summary starts with.
pub open spec fn msg_type_label(m: MsgType) -> Seq<char> {
    match m {
        MsgType::New => "New"@,
        MsgType::Latest => "Latest"@,
    }
}

/// One tag summary block: the tag's id and version, each on its own line.
pub open spec fn tag_msg_spec(m: MsgType, sha: Seq<char>, version: Seq<char>) -> Seq<char> {
    msg_type_label(m) + " tag:\n  SHA: "@ + sha + "\n  Version: "@ + version + "\n"@
}

/// Renders one tag summary block.
pub fn generate_tag_msg(msg_type: MsgType, tag_sha: &str, version: &str) -> (r: String)
    ensures
        r@ == tag_msg_spec(msg_type, tag_sha@, version@),
{
    proof {
        reveal_strlit("New");
        reveal_strlit("Latest");
        reveal_strlit(" tag:\n  SHA: ");
        reveal_strlit("\n  Version: ");
        reveal_strlit("\n");
    }
    let mut s = match msg_type {
        MsgType::New => String::from_str("New"),
        MsgType::Latest => String::from_str("Latest"),
    };
    s.append(" tag:\n  SHA: ");
    s.append(tag_sha);
    s.append("\n  Version: ");
    s.append(version);
    s.append("\n");
    proof {
        assert(s@ =~= tag_msg_spec(msg_type, tag_sha@, version@));
    }
    s
}

/// The changelog block of the report: the commit list under its heading,
/// or the no-new-commits sentinel when the range is empty.
pub open spec fn changelog_block_spec(msgs: Seq<Seq<char>>) -> Seq<char> {
    if msgs.len() == 0 {
        "No new commits since the latest tag.\n"@
    } else {
        "Commits in the new tag:\n\n"@ + changelog_spec(msgs) + "\n"@
    }
}

/// Renders the changelog block.
pub fn render_changelog_block(commit_msgs: &Vec<String>) -> (r: String)
    ensures
        r@ == changelog_block_spec(commit_msgs@.map_values(|s: String| s@)),
{
    proof {
        reveal_strlit("No new commits since the latest tag.\n");
        reveal_strlit("Commits in the new tag:\n\n");
        reveal_strlit("\n");
    }
    if commit_msgs.len() == 0 {
        return String::from_str("No new commits since the latest tag.\n");
    }
    let mut s = String::from_str("Commits in the new tag:\n\n");
    s.append(generate_changelog(commit_msgs).as_str());
    s.append("\n");
    proof {
        assert(s@ =~= changelog_block_spec(commit_msgs@.map_values(|q: String| q@)));
    }
    s
}

/// The commit lines of a dry run's command preview.
pub open spec fn dry_run_entries(msgs: Seq<Seq<char>>, m: int) -> Seq<char>
    decreases m,
{
    if m <= 0 {
        Seq::empty()
    } else {
        dry_run_entries(msgs, m - 1) + "\n- "@ + msgs[m - 1]
    }
}

/// A dry run's report tail: the new version, the tag command that would
/// have run, and the changelog it would have carried.
pub open spec fn dry_run_spec(version: Seq<char>, msgs: Seq<Seq<char>>) -> Seq<char> {
    "New version: "@ + version + "\n\n"@ + "Command: \ngit tag -a "@ + version
        + " -s -m \"Release "@ + version + "\n\n"@ + "Changelog:"@ + dry_run_entries(
        msgs,
        msgs.len() as int,
    ) + "\"\n"@
}

/// Renders a dry run's report tail.
pub fn render_dry_run(version: &str, commit_msgs: &Vec<String>) -> (r: String)
    ensures
        r@ == dry_run_spec(version@, commit_msgs@.map_values(|s: String| s@)),
{
    proof {
        reveal_strlit("New version: ");
        reveal_strlit("\n\n");
        reveal_strlit("Command: \ngit tag -a ");
        reveal_strlit(" -s -m \"Release ");
        reveal_strlit("Changelog:");
        reveal_strlit("\n- ");
        reveal_strlit("\"\n");
    }
    let ghost msgs = commit_msgs@.map_values(|s: String| s@);
    let mut s = String::from_str("New version: ");
    s.append(version);
    s.append("\n\n");
    s.append("Command: \ngit tag -a ");
    s.append(version);
    s.append(" -s -m \"Release ");
    s.append(version);
    s.append("\n\n");
    s.append("Changelog:");
    let ghost head = s@;
    let n = commit_msgs.len();
    for i in 0..n
        invariant
            n == commit_msgs@.len(),
            msgs == commit_msgs@.map_values(|s: String| s@),
            s@ == head + dry_run_entries(msgs, i as int),
    {
        proof {
            reveal_strlit("\n- ");
        }
        s.append("\n- ");
        s.append(commit_msgs[i].as_str());
        proof {
            assert(s@ =~= head + dry_run_entries(msgs, i as int + 1));
        }
    }
    s.append("\"\n");
    proof {
        assert(s@ =~= dry_run_spec(version@, msgs));
    }
    s
}

/// The annotation a created tag carries: a release heading and the
/// changelog.
pub open spec fn tag_annotation_spec(version: Seq<char>, changelog: Seq<char>) -> Seq<char> {
    "Release "@ + version + "\n\n"@ + changelog
}

/// Renders the annotation of a created tag.
pub fn render_tag_annotation(version: &str, changelog: &str) -> (r: String)
    ensures
        r@ == tag_annotation_spec(version@, changelog@),
{
    proof {
        reveal_strlit("Release ");
        reveal_strlit("\n\n");
    }
    let mut s = String::from_str("Release ");
    s.append(version);
    s.append("\n\n");
    s.append(changelog);
    proof {
        assert(s@ =~= tag_annotation_spec(version@, changelog@));
    }
    s
}

/// The whole report of a run: the latest tag's summary; then, when a new
/// tag was created, its summary and the changelog block; when the run was
/// dry, the command preview; and otherwise the changelog block alone.
pub open spec fn report_spec(
    latest_sha: Seq<char>,
    latest_version: Seq<char>,
    new_tag_sha: Option<Seq<char>>,
    new_version: Option<Seq<char>>,
    msgs: Seq<Seq<char>>,
) -> Seq<char> {
    let head = tag_msg_spec(MsgType::Latest, latest_sha, latest_version) + "\n"@;
    match new_version {
        Some(v) => match new_tag_sha {
            Some(sha) => head + tag_msg_spec(MsgType::New, sha, v) + "\n"@ + changelog_block_spec(
                msgs,
            ),
            None => head + dry_run_spec(v, msgs),
        },
        None => head + changelog_block_spec(msgs),
    }
}

/// The optional view of an optional string.
pub open spec fn opt_view(s: Option<String>) -> Option<Seq<char>> {
    match s {
        Some(t) => Some(t@),
        None => None,
    }
}

/// Renders the whole report of a run.
pub fn render_report(
    latest_tag_sha: &str,
    latest_version: &str,
    new_tag_sha: &Option<String>,
    new_version: &Option<String>,
    commit_msgs: &Vec<String>,
) -> (r: String)
    ensures
        r@ == report_spec(
            latest_tag_sha@,
            latest_version@,
            opt_view(*new_tag_sha),
            opt_view(*new_version),
            commit_msgs@.map_values(|s: String| s@),
        ),
{
    proof {
        reveal_strlit("\n");
    }
    let mut s = generate_tag_msg(MsgType::Latest, latest_tag_sha, latest_version);
    s.append("\n");
    match new_version {
        Some(v) => match new_tag_sha {
            Some(sha) => {
                s.append(generate_tag_msg(MsgType::New, sha.as_str(), v.as_str()).as_str());
                s.append("\n");
                s.append(render_changelog_block(commit_msgs).as_str());
            },
            None => {
                s.append(render_dry_run(v.as_str(), commit_msgs).as_str());
            },
        },
        None => {
            s.append(render_changelog_block(commit_msgs).as_str());
        },
    }
    proof {
        assert(s@ =~= report_spec(
            latest_tag_sha@,
            latest_version@,
            opt_view(*new_tag_sha),
            opt_view(*new_version),
            commit_msgs@.map_values(|q: String| q@),
        ));
    }
    s
}

} // verus!

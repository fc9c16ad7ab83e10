//! Reading the repository owner and name out of a remote URL.

use vstd::prelude::*;
use vstd::string::*;

use crate::text::find_char;
use crate::text::first_index_of;
use crate::text::str_ends_with;
use crate::text::str_starts_with;

verus! {

/// A URL with every trailing `.git` stripped.
pub open spec fn trim_git_suffix(s: Seq<char>) -> Seq<char>
    decreases s.len(),
{
    if s.len() >= 4 && s.skip(s.len() - 4) == ".git"@ {
        trim_git_suffix(s.take(s.len() - 4))
    } else {
        s
    }
}

/// The owner and repository name a remote URL carries: after stripping any
/// trailing `.git`, the URL must begin with the SSH or the HTTPS form of a
/// GitHub remote, and the remainder must split once at a `/`.
pub open spec fn owner_repo_spec(url: Seq<char>) -> Option<(Seq<char>, Seq<char>)> {
    let u = trim_git_suffix(url);
    let rest = if u.len() >= "git@github.com:"@.len() && u.take("git@github.com:"@.len() as int)
        == "git@github.com:"@ {
        Some(u.skip("git@github.com:"@.len() as int))
    } else if u.len() >= "https://github.com/"@.len() && u.take(
        "https://github.com/"@.len() as int,
    ) == "https://github.com/"@ {
        Some(u.skip("https://github.com/"@.len() as int))
    } else {
        None
    };
    match rest {
        None => None,
        Some(r) => match first_index_of(r, '/') {
            Some(i) => Some((r.take(i), r.skip(i + 1))),
            None => None,
        },
    }
}

/// Reads the owner and repository name out of a remote URL, accepting the
/// SSH and the HTTPS form of a GitHub remote and tolerating a `.git`
/// suffix. Any other URL yields `None`.
pub fn parse_github_remote(url: &str) -> (r: Option<(String, String)>)
    ensures
        match r {
            Some(p) => owner_repo_spec(url@) == Some((p.0@, p.1@)),
            None => owner_repo_spec(url@) is None,
        },
{
    proof {
        reveal_strlit(".git");
        reveal_strlit("git@github.com:");
        reveal_strlit("https://github.com/");
    }
    let mut u: &str = url;
    while str_ends_with(u, ".git")
        invariant
            trim_git_suffix(url@) == trim_git_suffix(u@),
        decreases u@.len(),
    {
        proof {
            reveal_strlit(".git");
        }
        let n = u.unicode_len();
        u = u.substring_char(0, n - 4);
    }
    let un = u.unicode_len();
    let rest: &str = if str_starts_with(u, "git@github.com:") {
        u.substring_char(15, un)
    } else if str_starts_with(u, "https://github.com/") {
        u.substring_char(19, un)
    } else {
        return None;
    };
    match find_char(rest, '/') {
        Some(i) => {
            let rn = rest.unicode_len();
            let owner = rest.substring_char(0, i);
            let name = rest.substring_char(i + 1, rn);
            Some((String::from_str(owner), String::from_str(name)))
        },
        None => None,
    }
}

} // verus!

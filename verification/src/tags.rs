//! Tag resolution: scanning every tag name of a repository for the highest
//! semantic version, and resolving the winner to an annotated tag.

use vstd::prelude::*;

use crate::version::SemanticVersion;
use crate::version::parse_spec;
use crate::version::version_le;
use crate::version::version_lt;

verus! {

/// One tag of the repository, as the repository source reports it: its
/// name, the commit it points at, and whether it is an annotated tag
/// (its own addressable object) rather than a lightweight one.
#[derive(Debug)]
pub struct TagEntry {
    pub name: String,
    pub target_commit_id: String,
    pub annotated: bool,
}

/// The resolved release tag: a name that parses to the highest semantic
/// version among all tags and peels to an annotated tag object.
#[derive(Debug)]
pub struct TagRef {
    pub name: String,
    pub target_commit_id: String,
    pub version: SemanticVersion,
}

/// The names of a tag list, as character sequences.
pub open spec fn name_views(names: Seq<String>) -> Seq<Seq<char>> {
    names.map_values(|s: String| s@)
}

/// The names of a list of tag entries.
pub open spec fn entry_name_views(tags: Seq<TagEntry>) -> Seq<Seq<char>> {
    tags.map_values(|t: TagEntry| t.name@)
}

/// No name in the list parses as a semantic version.
pub open spec fn no_version_tag(names: Seq<Seq<char>>) -> bool {
    forall|j: int| 0 <= j < names.len() ==> #[trigger] parse_spec(names[j]) is None
}

/// Name `i` wins the scan: it parses, no name parses to a strictly greater
/// version, and every earlier parsing name is strictly smaller — so among
/// equal versions the first encountered wins.
pub open spec fn selects(names: Seq<Seq<char>>, i: int) -> bool {
    &&& 0 <= i < names.len()
    &&& parse_spec(names[i]) is Some
    &&& forall|j: int|
        0 <= j < names.len() && #[trigger] parse_spec(names[j]) is Some ==> version_le(
            parse_spec(names[j])->Some_0,
            parse_spec(names[i])->Some_0,
        )
    &&& forall|j: int|
        0 <= j < i && #[trigger] parse_spec(names[j]) is Some ==> version_lt(
            parse_spec(names[j])->Some_0,
            parse_spec(names[i])->Some_0,
        )
}

/// Scans tag names for the strictly greatest parsed version; ties go to the
/// first name encountered. Returns that name's index and its version, or
/// `None` when no name parses.
pub fn select_latest(names: &Vec<String>) -> (r: Option<(usize, SemanticVersion)>)
    ensures
        match r {
            Some(p) => selects(name_views(names@), p.0 as int) && Some(p.1) == parse_spec(
                names@[p.0 as int]@,
            ),
            None => no_version_tag(name_views(names@)),
        },
{
    let ghost views = name_views(names@);
    let mut best: Option<(usize, SemanticVersion)> = None;
    let n = names.len();
    for k in 0..n
        invariant
            n == names@.len(),
            views == name_views(names@),
            match best {
                Some(p) => {
                    &&& 0 <= p.0 < k
                    &&& Some(p.1) == parse_spec(views[p.0 as int])
                    &&& forall|j: int|
                        0 <= j < k && #[trigger] parse_spec(views[j]) is Some ==> version_le(
                            parse_spec(views[j])->Some_0,
                            p.1,
                        )
                    &&& forall|j: int|
                        0 <= j < p.0 && #[trigger] parse_spec(views[j]) is Some ==> version_lt(
                            parse_spec(views[j])->Some_0,
                            p.1,
                        )
                },
                None => forall|j: int| 0 <= j < k ==> #[trigger] parse_spec(views[j]) is None,
            },
    {
        assert(views[k as int] == names@[k as int]@);
        if let Some(ver) = SemanticVersion::parse(names[k].as_str()) {
            let take = match &best {
                None => true,
                Some(p) => p.1.lt(&ver),
            };
            if take {
                best = Some((k, ver));
            }
        }
    }
    best
}

/// Resolves the release tag among all tags of a repository: the winner of
/// the name scan becomes a `TagRef` if it is an annotated tag; a winning
/// lightweight tag makes resolution fail, and so does a tag list in which
/// no name parses.
pub fn resolve_latest(tags: &Vec<TagEntry>) -> (r: Option<TagRef>)
    ensures
        match r {
            Some(t) => exists|i: int|
                {
                    &&& #[trigger] selects(entry_name_views(tags@), i)
                    &&& tags@[i].annotated
                    &&& t.name@ == tags@[i].name@
                    &&& t.target_commit_id@ == tags@[i].target_commit_id@
                    &&& Some(t.version) == parse_spec(tags@[i].name@)
                },
            None => no_version_tag(entry_name_views(tags@)) || exists|i: int|
                #[trigger] selects(entry_name_views(tags@), i) && !tags@[i].annotated,
        },
{
    let ghost eviews = entry_name_views(tags@);
    let mut names: Vec<String> = Vec::new();
    let n = tags.len();
    for k in 0..n
        invariant
            n == tags@.len(),
            names@.len() == k,
            forall|j: int| 0 <= j < k ==> #[trigger] names@[j]@ == tags@[j].name@,
    {
        names.push(tags[k].name.clone());
    }
    proof {
        assert(name_views(names@) =~= eviews);
    }
    match select_latest(&names) {
        None => None,
        Some(p) => {
            let (i, version) = p;
            assert(selects(eviews, i as int));
            assert(tags@[i as int].name@ == eviews[i as int]);
            if tags[i].annotated {
                Some(
                    TagRef {
                        name: tags[i].name.clone(),
                        target_commit_id: tags[i].target_commit_id.clone(),
                        version,
                    },
                )
            } else {
                None
            }
        },
    }
}

/// At most one name wins the scan: the selection is deterministic.
pub proof fn lemma_selects_unique(names: Seq<Seq<char>>, i: int, j: int)
    requires
        selects(names, i),
        selects(names, j),
    ensures
        i == j,
{
}

/// A tag name that does not parse as a semantic version never participates
/// in resolution: appending it to the scanned names changes neither which
/// name is selected nor whether any is.
pub proof fn lemma_unparsed_never_participates(names: Seq<Seq<char>>, bad: Seq<char>)
    requires
        parse_spec(bad) is None,
    ensures
        forall|i: int| selects(names.push(bad), i) <==> selects(names, i),
        no_version_tag(names.push(bad)) <==> no_version_tag(names),
{
    assert forall|i: int| selects(names.push(bad), i) implies selects(names, i) by {
        assert(names.push(bad)[i] == names[i]);
        assert forall|j: int|
            0 <= j < names.len() && #[trigger] parse_spec(names[j]) is Some implies version_le(
            parse_spec(names[j])->Some_0,
            parse_spec(names[i])->Some_0,
        ) by {
            assert(names.push(bad)[j] == names[j]);
        }
        assert forall|j: int|
            0 <= j < i && #[trigger] parse_spec(names[j]) is Some implies version_lt(
            parse_spec(names[j])->Some_0,
            parse_spec(names[i])->Some_0,
        ) by {
            assert(names.push(bad)[j] == names[j]);
        }
    }
    assert forall|i: int| selects(names, i) implies selects(names.push(bad), i) by {
        assert(names.push(bad)[i] == names[i]);
        assert forall|j: int|
            0 <= j < names.push(bad).len() && #[trigger] parse_spec(
                names.push(bad)[j],
            ) is Some implies version_le(
            parse_spec(names.push(bad)[j])->Some_0,
            parse_spec(names.push(bad)[i])->Some_0,
        ) by {
            if j < names.len() {
                assert(names.push(bad)[j] == names[j]);
            } else {
                assert(names.push(bad)[j] == bad);
            }
        }
        assert forall|j: int|
            0 <= j < i && #[trigger] parse_spec(names.push(bad)[j]) is Some implies version_lt(
            parse_spec(names.push(bad)[j])->Some_0,
            parse_spec(names.push(bad)[i])->Some_0,
        ) by {
            assert(names.push(bad)[j] == names[j]);
        }
    }
    assert forall|j: int| 0 <= j < names.len() implies names.push(bad)[j] == names[j] by {}
    if no_version_tag(names) {
        assert forall|j: int| 0 <= j < names.push(bad).len() implies #[trigger] parse_spec(
            names.push(bad)[j],
        ) is None by {
            if j < names.len() {
                assert(names.push(bad)[j] == names[j]);
            } else {
                assert(names.push(bad)[j] == bad);
            }
        }
    }
}

} // verus!

use crate::edition::{answered, current_edition, probe, SessionEdition};
use crate::json::Json;
use crate::path::{plain, FilePath, PathView};
use vstd::prelude::*;
use vstd::string::*;

verus! {

/// The data directory of an edition, below the home directory.
pub open spec fn data_root(home: PathView, edition: SessionEdition) -> PathView {
    home.push(
        plain(
            match edition {
                SessionEdition::Cn => ".workbuddy"@,
                SessionEdition::Ai => ".workbuddy-ai"@,
            },
        ),
    )
}

/// The session database of an edition.
pub open spec fn db_path(home: PathView, edition: SessionEdition) -> PathView {
    data_root(home, edition).push(plain("workbuddy.db"@))
}

/// The directory with the transcripts of an edition.
pub open spec fn projects_root(home: PathView, edition: SessionEdition) -> PathView {
    data_root(home, edition).push(plain("projects"@))
}

/// The name of the transcript of a session.
pub open spec fn transcript_name(cid: Seq<char>) -> Seq<char> {
    cid + ".jsonl"@
}

/// Where the copy of a transcript goes: the same workspace below the transcripts
/// of the target edition. Nowhere, where the source is not below those of the
/// source edition.
pub open spec fn destination(
    home: PathView,
    source: PathView,
    source_edition: SessionEdition,
    target_edition: SessionEdition,
    new_cid: Seq<char>,
) -> Option<PathView> {
    let root = projects_root(home, source_edition);
    if root.len() < source.len() && root.is_prefix_of(source) {
        let workspace = source.subrange(root.len() as int, source.len() - 1);
        Some((projects_root(home, target_edition) + workspace).push(plain(transcript_name(new_cid))))
    } else {
        None
    }
}

/// The data directory of an edition, below the home directory.
pub fn data_root_for_edition(home: &FilePath, edition: SessionEdition) -> (res: FilePath)
    ensures
        res@ == data_root(home@, edition),
{
    if edition.is_international() {
        home.join(".workbuddy-ai")
    } else {
        home.join(".workbuddy")
    }
}

/// The session database of an edition.
pub fn workbuddy_db_path_for_edition(home: &FilePath, edition: SessionEdition) -> (res: FilePath)
    ensures
        res@ == db_path(home@, edition),
{
    data_root_for_edition(home, edition).join("workbuddy.db")
}

/// The session database of the edition that is signed in.
pub fn workbuddy_db_path<F: Fn(&Json) -> bool>(
    home: &FilePath,
    auth: Option<&Json>,
    is_ai: &F,
) -> (res: FilePath)
    requires
        forall|value: &Json| call_requires(is_ai, (value,)),
    ensures
        match auth {
            Some(root) => {
                ||| res@ == db_path(home@, SessionEdition::Ai) && answered(is_ai, probe(root@), true)
                ||| res@ == db_path(home@, SessionEdition::Cn) && answered(is_ai, probe(root@), false)
            },
            None => res@ == db_path(home@, SessionEdition::Cn),
        },
{
    workbuddy_db_path_for_edition(home, current_edition(auth, is_ai))
}

/// The directory with the transcripts of an edition.
pub fn projects_root_for_edition(home: &FilePath, edition: SessionEdition) -> (res: FilePath)
    ensures
        res@ == projects_root(home@, edition),
{
    data_root_for_edition(home, edition).join("projects")
}

/// The name of the transcript of a session.
pub fn transcript_file_name(cid: &str) -> (res: String)
    ensures
        res@ == transcript_name(cid@),
{
    let mut name: String = cid.to_string();
    name.append(".jsonl");
    name
}

/// Where the copy of the transcript `source` goes.
pub fn destination_project_jsonl(
    home: &FilePath,
    source: &FilePath,
    source_edition: SessionEdition,
    target_edition: SessionEdition,
    new_cid: &str,
) -> (res: Option<FilePath>)
    ensures
        match res {
            Some(path) => destination(home@, source@, source_edition, target_edition, new_cid@)
                == Some(path@),
            None => destination(home@, source@, source_edition, target_edition, new_cid@) is None,
        },
{
    let root: FilePath = projects_root_for_edition(home, source_edition);
    let depth: usize = root.parts.len();
    let end: usize = source.parts.len();
    if end <= depth {
        return None;
    }
    let mut i: usize = 0;
    while i < depth
        invariant
            i <= depth < end,
            depth == root.parts.len(),
            end == source.parts.len(),
            root@ == projects_root(home@, source_edition),
            forall|j: int| 0 <= j < i ==> root@[j] == source@[j],
        decreases depth - i,
    {
        if !root.parts[i].same(&source.parts[i]) {
            assert(root@[i as int] != source@.subrange(0, depth as int)[i as int]);
            return None;
        }
        i += 1;
    }
    assert(root@ =~= source@.subrange(0, depth as int));
    let mut res: FilePath = projects_root_for_edition(home, target_edition);
    let ghost target = res@;
    let mut k: usize = depth;
    assert(target + source@.subrange(depth as int, k as int) =~= target);
    while k < end - 1
        invariant
            depth <= k < end,
            end == source.parts.len(),
            res@ == target + source@.subrange(depth as int, k as int),
        decreases end - k,
    {
        res = res.join_name(&source.parts[k]);
        assert(res@ =~= target + source@.subrange(depth as int, k + 1));
        k += 1;
    }
    Some(res.join(transcript_file_name(new_cid).as_str()))
}

} // verus!

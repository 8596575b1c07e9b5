use crate::edition::SessionEdition;
use crate::layout::{data_root, destination, projects_root, transcript_name};
use crate::path::{plain, NameView, PathView};
use crate::session_id::is_session_id;
use crate::workspace::is_separator;
use vstd::prelude::*;

verus! {

/// What is in a directory is below it.
pub proof fn lemma_below(root: PathView, part: NameView)
    ensures
        root.is_prefix_of(root.push(part)),
{
    assert(root.push(part).subrange(0, root.len() as int) =~= root);
}

/// What is below something below a directory is below the directory.
pub proof fn lemma_far_below(root: PathView, middle: PathView, path: PathView)
    requires
        root.is_prefix_of(middle),
        middle.is_prefix_of(path),
    ensures
        root.is_prefix_of(path),
{
    assert(path.subrange(0, root.len() as int) =~= middle.subrange(0, root.len() as int));
}

/// No place belongs to the data of both editions.
pub proof fn editions_are_apart(home: PathView, path: PathView)
    ensures
        !(data_root(home, SessionEdition::Cn).is_prefix_of(path) && data_root(
            home,
            SessionEdition::Ai,
        ).is_prefix_of(path)),
{
    let cn = data_root(home, SessionEdition::Cn);
    let ai = data_root(home, SessionEdition::Ai);
    if cn.is_prefix_of(path) && ai.is_prefix_of(path) {
        let at = home.len() as int;
        assert(path.subrange(0, cn.len() as int)[at] == path[at]);
        assert(path.subrange(0, ai.len() as int)[at] == path[at]);
        reveal_strlit(".workbuddy");
        reveal_strlit(".workbuddy-ai");
        assert(".workbuddy"@.len() != ".workbuddy-ai"@.len());
    }
}

/// The copy of a transcript is in the same workspace as the transcript: copied
/// back under the old id, it is where it came from.
pub proof fn copy_keeps_the_workspace(
    home: PathView,
    source: PathView,
    source_edition: SessionEdition,
    target_edition: SessionEdition,
    cid: Seq<char>,
    new_cid: Seq<char>,
)
    requires
        source.len() > 0,
        source.last() == plain(transcript_name(cid)),
    ensures
        destination(home, source, source_edition, target_edition, new_cid) matches Some(copy)
            ==> destination(home, copy, target_edition, source_edition, cid) == Some(source),
{
    let from = projects_root(home, source_edition);
    let to = projects_root(home, target_edition);
    if let Some(copy) = destination(home, source, source_edition, target_edition, new_cid) {
        let workspace = source.subrange(from.len() as int, source.len() - 1);
        assert(copy.subrange(0, to.len() as int) =~= to);
        assert(copy.subrange(to.len() as int, copy.len() - 1) =~= workspace);
        assert(source.subrange(0, from.len() as int)[0] == source[0] || from.len() == 0);
        assert((from + workspace).push(plain(transcript_name(cid))) =~= source) by {
            assert forall|i: int| 0 <= i < source.len() implies (from + workspace).push(
                plain(transcript_name(cid)),
            )[i] == source[i] by {
                if i < from.len() {
                    assert(source.subrange(0, from.len() as int)[i] == source[i]);
                }
            }
        }
    }
}

/// The id of a copy can be the name of a file: it has no separator in it.
pub proof fn session_id_is_a_file_name(id: Seq<char>)
    requires
        is_session_id(id),
    ensures
        forall|i: int| 0 <= i < id.len() ==> !is_separator(#[trigger] id[i]),
{
}

/// The data directory of an edition.
pub open spec fn data_directory(home: PathView, edition: SessionEdition) -> PathView {
    home.push(
        NameView::Text(
            if edition == SessionEdition::Ai {
                ".workbuddy-ai"@
            } else {
                ".workbuddy"@
            },
        ),
    )
}

/// The directory with the transcripts of an edition.
pub open spec fn transcripts_directory(home: PathView, edition: SessionEdition) -> PathView {
    data_directory(home, edition).push(NameView::Text("projects"@))
}

/// The copy of a transcript goes to the transcripts of the target edition, into the
/// folders that the transcript is in, and is named after the new session.
pub proof fn copy_goes_to_the_same_folders(
    home: PathView,
    folders: PathView,
    file: NameView,
    source_edition: SessionEdition,
    target_edition: SessionEdition,
    new_cid: Seq<char>,
)
    ensures
        destination(
            home,
            (transcripts_directory(home, source_edition) + folders).push(file),
            source_edition,
            target_edition,
            new_cid,
        ) == Some(
            (transcripts_directory(home, target_edition) + folders).push(
                NameView::Text(new_cid + ".jsonl"@),
            ),
        ),
{
    let root = transcripts_directory(home, source_edition);
    let source = (root + folders).push(file);
    assert(root == projects_root(home, source_edition));
    assert(source.subrange(0, root.len() as int) =~= root);
    assert(source.subrange(root.len() as int, source.len() - 1) =~= folders);
}

/// Only a file below the transcripts of the source edition has a place for its copy.
pub proof fn only_transcripts_are_copied(
    home: PathView,
    source: PathView,
    source_edition: SessionEdition,
    target_edition: SessionEdition,
    new_cid: Seq<char>,
) -> (folders: PathView)
    requires
        destination(home, source, source_edition, target_edition, new_cid) is Some,
    ensures
        source.len() > 0,
        source == (transcripts_directory(home, source_edition) + folders).push(source.last()),
{
    let root = transcripts_directory(home, source_edition);
    assert(root == projects_root(home, source_edition));
    let folders = source.subrange(root.len() as int, source.len() - 1);
    assert(source.subrange(0, root.len() as int) == root);
    assert forall|i: int| 0 <= i < source.len() implies source[i] == (root + folders).push(
        source.last(),
    )[i] by {
        if i < root.len() {
            assert(source.subrange(0, root.len() as int)[i] == source[i]);
        }
    }
    assert(source =~= (root + folders).push(source.last()));
    folders
}

} // verus!

use crate::edition::SessionEdition;
use crate::history::{history_start, HistoryPhase, HistoryView};
use crate::io::{ReplyView, RequestView, World};
use crate::laws::layout::{lemma_below, lemma_far_below, transcripts_directory};
use crate::layout::{projects_root, transcript_name};
use crate::path::{plain, NameView, PathView};
use vstd::prelude::*;

verus! {

/// The first of `names` that is a directory below `projects` with the file in it,
/// and the file there.
pub open spec fn first_with_file(
    world: World,
    projects: PathView,
    names: Seq<NameView>,
    file: Seq<char>,
) -> Option<PathView>
    decreases names.len(),
{
    if names.len() == 0 {
        None
    } else {
        let dir = projects.push(names.first());
        let there = world(RequestView::Locate(dir.push(plain(file)))).located();
        if world(RequestView::IsDir(dir)).yes() && there is Some {
            there
        } else {
            first_with_file(world, projects, names.drop_first(), file)
        }
    }
}

/// The transcript of a session: the file in the directory of transcripts itself,
/// else the one in the first of its directories that has it.
pub open spec fn transcript(
    world: World,
    projects: PathView,
    file: Seq<char>,
) -> Option<PathView> {
    let direct = world(RequestView::Locate(projects.push(plain(file)))).located();
    if !world(RequestView::IsDir(projects)).yes() {
        None
    } else if direct is Some {
        direct
    } else {
        match world(RequestView::ListDir(projects)) {
            ReplyView::Names(Some(names)) => first_with_file(world, projects, names, file),
            _ => None,
        }
    }
}

/// The place that a request looks at, where it looks at one.
pub open spec fn read_place(request: RequestView) -> Option<PathView> {
    match request {
        RequestView::IsFile(path) => Some(path),
        RequestView::IsDir(path) => Some(path),
        RequestView::Locate(path) => Some(path),
        RequestView::ListDir(path) => Some(path),
        RequestView::Query(statement) => Some(statement.db),
        RequestView::PathText(path) => Some(path),
        _ => None,
    }
}

/// Whatever comes back, a search for a transcript looks at the directory of the
/// transcripts and at what is below it, and at nothing else; it changes nothing,
/// and it asks for something until it is over. The id of the session and the names
/// in the directory are taken as plain names.
pub proof fn search_stays_below_its_directory(search: HistoryView, reply: ReplyView)
    requires
        search.well_formed(),
    ensures
        search.advance(reply).well_formed(),
        search.advance(reply).projects == search.projects,
        search.request() is None <==> search.over(),
        search.request() matches Some(request) ==> {
            &&& request is IsDir || request is Locate || request is ListDir
            &&& read_place(request) matches Some(place)
            &&& search.projects.is_prefix_of(place)
        },
{
    assert(search.projects.is_prefix_of(search.projects)) by {
        assert(search.projects.subrange(0, search.projects.len() as int) =~= search.projects);
    }
    lemma_below(search.projects, plain(search.file));
    if search.index < search.names.len() {
        lemma_below(search.projects, search.names[search.index]);
        lemma_below(search.entry(), plain(search.file));
        lemma_far_below(search.projects, search.entry(), search.entry().push(plain(search.file)));
    }
}

proof fn lemma_entries(world: World, search: HistoryView, index: int)
    requires
        0 <= index <= search.names.len(),
        search.found is None,
    ensures
        search.at(index).settled(world).over(),
        search.at(index).settled(world).found == first_with_file(
            world,
            search.projects,
            search.names.skip(index),
            search.file,
        ),
    decreases search.names.len() - index,
{
    let rest = search.names.skip(index);
    let here = search.at(index);
    if index < search.names.len() {
        assert(rest.drop_first() == search.names.skip(index + 1));
        assert(rest.first() == search.names[index]);
        lemma_entries(world, search, index + 1);
        assert(here.at(index + 1) == search.at(index + 1));
        let dir_reply = world(RequestView::IsDir(here.entry()));
        let inside = here.advance(dir_reply);
        assert(here.settled(world) == inside.settled(world));
        if dir_reply.yes() {
            let file_reply = world(RequestView::Locate(here.entry().push(plain(here.file))));
            assert(inside.settled(world) == inside.advance(file_reply).settled(world));
            assert(inside.at(index + 1) == search.at(index + 1));
        }
    }
}

/// A search ends, and with the transcript that is there.
pub proof fn search_finds_transcript(
    world: World,
    home: PathView,
    cid: Seq<char>,
    edition: SessionEdition,
)
    ensures
        history_start(home, cid, edition).settled(world).over(),
        history_start(home, cid, edition).settled(world).found == transcript(
            world,
            projects_root(home, edition),
            transcript_name(cid),
        ),
{
    let start = history_start(home, cid, edition);
    let asked = start.advance(world(RequestView::IsDir(start.projects)));
    assert(start.settled(world) == asked.settled(world));
    if asked.phase == HistoryPhase::Direct {
        let direct = asked.advance(world(RequestView::Locate(start.projects.push(plain(start.file)))));
        assert(asked.settled(world) == direct.settled(world));
        if direct.phase == HistoryPhase::Listing {
            let reply = world(RequestView::ListDir(start.projects));
            assert(direct.settled(world) == direct.advance(reply).settled(world));
            if let ReplyView::Names(Some(names)) = reply {
                let listed = HistoryView { names, ..direct };
                lemma_entries(world, listed, 0);
                assert(names.skip(0) == names);
            }
        }
    }
}

/// Whether the file `file` is in the directory `dir`, which is one, and is found at `path`.
pub open spec fn is_found_in(world: World, dir: PathView, file: Seq<char>, path: PathView) -> bool {
    &&& world(RequestView::IsDir(dir)) == ReplyView::Flag(true)
    &&& world(RequestView::Locate(dir.push(NameView::Text(file)))) == ReplyView::Located(
        Some(path),
    )
}

/// Whether the file `file` is in the directory `dir`, which is one.
pub open spec fn is_in(world: World, dir: PathView, file: Seq<char>) -> bool {
    exists|path: PathView| #[trigger] is_found_in(world, dir, file, path)
}

proof fn lemma_first_with_file(
    world: World,
    projects: PathView,
    names: Seq<NameView>,
    file: Seq<char>,
) -> (i: int)
    ensures
        match first_with_file(world, projects, names, file) {
            Some(path) => {
                &&& 0 <= i < names.len()
                &&& is_found_in(world, projects.push(names[i]), file, path)
                &&& forall|j: int|
                    0 <= j < i ==> !is_in(world, #[trigger] projects.push(names[j]), file)
            },
            None => forall|j: int|
                0 <= j < names.len() ==> !is_in(world, #[trigger] projects.push(names[j]), file),
        },
    decreases names.len(),
{
    if names.len() == 0 {
        0
    } else {
        let dir = projects.push(names.first());
        let there = world(RequestView::Locate(dir.push(plain(file)))).located();
        if world(RequestView::IsDir(dir)).yes() && there is Some {
            assert(is_found_in(world, projects.push(names[0]), file, there->0));
            0
        } else {
            let rest = names.drop_first();
            let i = lemma_first_with_file(world, projects, rest, file);
            assert(!is_in(world, projects.push(names[0]), file));
            match first_with_file(world, projects, rest, file) {
                Some(path) => {
                    assert(names[i + 1] == rest[i]);
                    assert forall|j: int| 0 <= j < i + 1 implies !is_in(
                        world,
                        #[trigger] projects.push(names[j]),
                        file,
                    ) by {
                        if j > 0 {
                            assert(rest[j - 1] == names[j]);
                            assert(!is_in(world, projects.push(rest[j - 1]), file));
                        }
                    }
                },
                None => {
                    assert forall|j: int| 0 <= j < names.len() implies !is_in(
                        world,
                        #[trigger] projects.push(names[j]),
                        file,
                    ) by {
                        if j > 0 {
                            assert(rest[j - 1] == names[j]);
                            assert(!is_in(world, projects.push(rest[j - 1]), file));
                        }
                    }
                },
            }
            i + 1
        }
    }
}

/// The transcript of a session is found wherever it is: in the directory of the
/// transcripts itself, or else in the first folder of it that has it. None is found
/// only where neither the directory nor any folder in it has one.
pub proof fn transcript_is_found_wherever_it_is(
    world: World,
    home: PathView,
    cid: Seq<char>,
    edition: SessionEdition,
) -> (i: int)
    ensures
        ({
            let projects = transcripts_directory(home, edition);
            let file = cid + ".jsonl"@;
            let names = match world(RequestView::ListDir(projects)) {
                ReplyView::Names(Some(names)) => names,
                _ => Seq::empty(),
            };
            match history_start(home, cid, edition).settled(world).found {
                Some(path) => {
                    ||| is_found_in(world, projects, file, path)
                    ||| {
                        &&& !is_in(world, projects, file)
                        &&& 0 <= i < names.len()
                        &&& is_found_in(world, projects.push(names[i]), file, path)
                        &&& forall|j: int|
                            0 <= j < i ==> !is_in(world, #[trigger] projects.push(names[j]), file)
                    }
                },
                None => {
                    &&& !is_in(world, projects, file)
                    &&& world(RequestView::IsDir(projects)) == ReplyView::Flag(true)
                        ==> forall|j: int|
                        0 <= j < names.len() ==> !is_in(
                            world,
                            #[trigger] projects.push(names[j]),
                            file,
                        )
                },
            }
        }),
{
    let projects = transcripts_directory(home, edition);
    let file = cid + ".jsonl"@;
    let names = match world(RequestView::ListDir(projects)) {
        ReplyView::Names(Some(names)) => names,
        _ => Seq::empty(),
    };
    assert(projects == projects_root(home, edition));
    search_finds_transcript(world, home, cid, edition);
    let direct = world(RequestView::Locate(projects.push(plain(file)))).located();
    if world(RequestView::IsDir(projects)).yes() && direct is Some {
        assert(is_found_in(world, projects, file, direct->0));
    }
    lemma_first_with_file(world, projects, names, file)
}

} // verus!

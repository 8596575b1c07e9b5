use crate::edition::SessionEdition;
use crate::io::{optional_path, optional_request, Reply, ReplyView, Request, RequestView, World};
use crate::layout::{
    projects_root, projects_root_for_edition, transcript_file_name, transcript_name,
};
use crate::path::{names_view, plain, FilePath, Name, NameView, PathView};
use vstd::prelude::*;

verus! {

/// Where the search for a transcript stands.
#[derive(Clone, Copy, Debug, PartialEq, Eq, Structural)]
pub enum HistoryPhase {
    /// Is there a directory of transcripts?
    Projects,
    /// Is the transcript directly in it?
    Direct,
    /// What is in the directory?
    Listing,
    /// Is the entry at the index a directory?
    EntryDir,
    /// Is the transcript in that directory?
    EntryFile,
    Finished,
}

/// The search for the transcript of a session among those of an edition.
pub struct HistorySearch {
    projects: FilePath,
    file: String,
    phase: HistoryPhase,
    names: Vec<Name>,
    index: usize,
    found: Option<FilePath>,
}

/// What the search for a transcript is.
#[verifier::ext_equal]
pub struct HistoryView {
    pub projects: PathView,
    pub file: Seq<char>,
    pub phase: HistoryPhase,
    pub names: Seq<NameView>,
    pub index: int,
    pub found: Option<PathView>,
}

impl View for HistorySearch {
    type V = HistoryView;

    closed spec fn view(&self) -> HistoryView {
        HistoryView {
            projects: self.projects@,
            file: self.file@,
            phase: self.phase,
            names: names_view(self.names@),
            index: self.index as int,
            found: optional_path(self.found),
        }
    }
}

/// The search for the transcript of `cid`, before anything is asked.
pub open spec fn history_start(
    home: PathView,
    cid: Seq<char>,
    edition: SessionEdition,
) -> HistoryView {
    HistoryView {
        projects: projects_root(home, edition),
        file: transcript_name(cid),
        phase: HistoryPhase::Projects,
        names: Seq::empty(),
        index: 0,
        found: None,
    }
}

impl HistoryView {
    /// Where the search looks at an entry, there is one.
    pub open spec fn well_formed(self) -> bool {
        &&& 0 <= self.index <= self.names.len()
        &&& (self.phase == HistoryPhase::EntryDir || self.phase == HistoryPhase::EntryFile)
            ==> self.index < self.names.len()
    }

    /// Whether the search is over.
    pub open spec fn over(self) -> bool {
        self.phase == HistoryPhase::Finished
    }

    /// The entry that the search looks at.
    pub open spec fn entry(self) -> PathView {
        self.projects.push(self.names[self.index])
    }

    /// What the search has to know next.
    pub open spec fn request(self) -> Option<RequestView> {
        match self.phase {
            HistoryPhase::Projects => Some(RequestView::IsDir(self.projects)),
            HistoryPhase::Direct => Some(RequestView::Locate(self.projects.push(plain(self.file)))),
            HistoryPhase::Listing => Some(RequestView::ListDir(self.projects)),
            HistoryPhase::EntryDir => Some(RequestView::IsDir(self.entry())),
            HistoryPhase::EntryFile => Some(RequestView::Locate(self.entry().push(plain(self.file)))),
            HistoryPhase::Finished => None,
        }
    }

    /// The search with the look at the entries from `index` on before it.
    pub open spec fn at(self, index: int) -> HistoryView {
        HistoryView {
            phase: if index < self.names.len() {
                HistoryPhase::EntryDir
            } else {
                HistoryPhase::Finished
            },
            index,
            ..self
        }
    }

    /// The search that ended with `found`.
    pub open spec fn finished(self, found: Option<PathView>) -> HistoryView {
        HistoryView { phase: HistoryPhase::Finished, found, ..self }
    }

    /// The search after `reply`.
    pub open spec fn advance(self, reply: ReplyView) -> HistoryView {
        match self.phase {
            HistoryPhase::Projects => if reply.yes() {
                HistoryView { phase: HistoryPhase::Direct, ..self }
            } else {
                self.finished(None)
            },
            HistoryPhase::Direct => match reply.located() {
                Some(path) => self.finished(Some(path)),
                None => HistoryView { phase: HistoryPhase::Listing, ..self },
            },
            HistoryPhase::Listing => match reply {
                ReplyView::Names(Some(names)) => HistoryView { names, ..self }.at(0),
                _ => self.finished(None),
            },
            HistoryPhase::EntryDir => if reply.yes() {
                HistoryView { phase: HistoryPhase::EntryFile, ..self }
            } else {
                self.at(self.index + 1)
            },
            HistoryPhase::EntryFile => match reply.located() {
                Some(path) => self.finished(Some(path)),
                None => self.at(self.index + 1),
            },
            HistoryPhase::Finished => self,
        }
    }

    /// How far the search is from its end: each phase is below the one before it.
    pub open spec fn rank(self) -> nat {
        match self.phase {
            HistoryPhase::Projects => 4,
            HistoryPhase::Direct => 3,
            HistoryPhase::Listing => 2,
            HistoryPhase::EntryDir => 1,
            HistoryPhase::EntryFile => 1,
            HistoryPhase::Finished => 0,
        }
    }

    /// How many entries and looks at them are left.
    pub open spec fn looks_left(self) -> int {
        2 * (self.names.len() - self.index) - (if self.phase == HistoryPhase::EntryFile {
            1int
        } else {
            0int
        })
    }

    /// The search at its end, where `world` answers its requests.
    pub open spec fn settled(self, world: World) -> HistoryView
        decreases self.rank(), self.looks_left(),
    {
        match self.request() {
            Some(request) if self.well_formed() => self.advance(world(request)).settled(world),
            _ => self,
        }
    }
}

impl HistorySearch {
    #[verifier::type_invariant]
    spec fn inv(self) -> bool {
        self@.well_formed()
    }

    /// What the search has to know next; nothing, where it is over.
    pub fn request(&self) -> (res: Option<Request>)
        ensures
            optional_request(res) == self@.request(),
    {
        proof {
            use_type_invariant(self);
        }
        match self.phase {
            HistoryPhase::Projects => Some(Request::IsDir(self.projects.clone())),
            HistoryPhase::Direct => Some(Request::Locate(self.projects.join(self.file.as_str()))),
            HistoryPhase::Listing => Some(Request::ListDir(self.projects.clone())),
            HistoryPhase::EntryDir => Some(
                Request::IsDir(self.projects.join_name(&self.names[self.index])),
            ),
            HistoryPhase::EntryFile => Some(
                Request::Locate(
                    self.projects.join_name(&self.names[self.index]).join(self.file.as_str()),
                ),
            ),
            HistoryPhase::Finished => None,
        }
    }

    /// Whether the search is over.
    pub fn is_over(&self) -> (res: bool)
        ensures
            res == self@.over(),
    {
        matches!(self.phase, HistoryPhase::Finished)
    }

    /// The transcript, where the search found it.
    pub fn found(self) -> (res: Option<FilePath>)
        ensures
            optional_path(res) == self@.found,
    {
        self.found
    }

    /// The search with the look at the entries from `index` on before it.
    fn at(self, index: usize) -> (res: HistorySearch)
        requires
            index <= self.names.len(),
        ensures
            res@ == self@.at(index as int),
    {
        let phase: HistoryPhase = if index < self.names.len() {
            HistoryPhase::EntryDir
        } else {
            HistoryPhase::Finished
        };
        HistorySearch { phase, index, ..self }
    }

    /// The search after `reply`.
    pub fn advance(self, reply: Reply) -> (res: HistorySearch)
        ensures
            res@ == self@.advance(reply@),
    {
        proof {
            use_type_invariant(&self);
        }
        match self.phase {
            HistoryPhase::Projects => if reply.yes() {
                HistorySearch { phase: HistoryPhase::Direct, ..self }
            } else {
                HistorySearch { phase: HistoryPhase::Finished, found: None, ..self }
            },
            HistoryPhase::Direct => match reply.located() {
                Some(path) => HistorySearch {
                    phase: HistoryPhase::Finished,
                    found: Some(path),
                    ..self
                },
                None => HistorySearch { phase: HistoryPhase::Listing, ..self },
            },
            HistoryPhase::Listing => match reply {
                Reply::Names(Some(names)) => HistorySearch { names, index: 0, ..self }.at(0),
                _ => HistorySearch { phase: HistoryPhase::Finished, found: None, ..self },
            },
            HistoryPhase::EntryDir => if reply.yes() {
                HistorySearch { phase: HistoryPhase::EntryFile, ..self }
            } else {
                assert(self.index < self.names.len());
                let next: usize = self.index + 1;
                self.at(next)
            },
            HistoryPhase::EntryFile => match reply.located() {
                Some(path) => HistorySearch {
                    phase: HistoryPhase::Finished,
                    found: Some(path),
                    ..self
                },
                None => {
                    assert(self.index < self.names.len());
                    let next: usize = self.index + 1;
                    self.at(next)
                },
            },
            HistoryPhase::Finished => self,
        }
    }
}

/// The search for the transcript of `cid` among those of an edition.
pub fn find_project_jsonl_in_edition(
    home: &FilePath,
    cid: &str,
    edition: SessionEdition,
) -> (res: HistorySearch)
    ensures
        res@ == history_start(home@, cid@, edition),
{
    let names: Vec<Name> = Vec::new();
    assert(names_view(names@) =~= Seq::empty());
    HistorySearch {
        projects: projects_root_for_edition(home, edition),
        file: transcript_file_name(cid),
        phase: HistoryPhase::Projects,
        names,
        index: 0,
        found: None,
    }
}

} // verus!

use crate::edition::SessionEdition;
use crate::io::{optional_path, optional_request, Reply, ReplyView, Request, RequestView, World};
use crate::layout::{data_root, data_root_for_edition, db_path, workbuddy_db_path_for_edition};
use crate::path::{plain, FilePath, PathView};
use vstd::prelude::*;
use vstd::string::*;

verus! {

/// Where the backup of a session database stands.
#[derive(Clone, Copy, Debug, PartialEq, Eq, Structural)]
pub enum BackupPhase {
    /// Is there a database?
    Database,
    /// Make the directory for the backup.
    Directory,
    /// Is the file at the index there?
    Part,
    /// Copy it.
    Copy,
    Finished,
}

/// The backup of the session database of an edition, with the files that SQLite
/// keeps beside it.
pub struct Backup {
    home: FilePath,
    edition: SessionEdition,
    root: FilePath,
    phase: BackupPhase,
    index: usize,
    result: Option<FilePath>,
}

/// What the backup of a session database is.
#[verifier::ext_equal]
pub struct BackupView {
    pub home: PathView,
    pub edition: SessionEdition,
    pub root: PathView,
    pub phase: BackupPhase,
    pub index: int,
    pub result: Option<PathView>,
}

impl View for Backup {
    type V = BackupView;

    closed spec fn view(&self) -> BackupView {
        BackupView {
            home: self.home@,
            edition: self.edition,
            root: self.root@,
            phase: self.phase,
            index: self.index as int,
            result: optional_path(self.result),
        }
    }
}

/// The names of the files of a session database: the database itself, its
/// write-ahead log and the index of that log.
pub open spec fn part_name(index: int) -> Seq<char> {
    "workbuddy.db"@ + if index == 0 {
        ""@
    } else if index == 1 {
        "-wal"@
    } else {
        "-shm"@
    }
}

/// The name of a file of a session database.
fn part_file_name(index: usize) -> (res: String)
    ensures
        res@ == part_name(index as int),
{
    let mut res: String = "workbuddy.db".to_string();
    if index == 0 {
        res.append("");
    } else if index == 1 {
        res.append("-wal");
    } else {
        res.append("-shm");
    }
    res
}

/// The backup, before anything is asked.
pub open spec fn backup_start(
    home: PathView,
    root: PathView,
    edition: SessionEdition,
) -> BackupView {
    BackupView { home, edition, root, phase: BackupPhase::Database, index: 0, result: None }
}

impl BackupView {
    /// Where the backup looks at a file, it is one of the three.
    pub open spec fn well_formed(self) -> bool {
        0 <= self.index < 3
    }

    /// Whether the backup is over.
    pub open spec fn over(self) -> bool {
        self.phase == BackupPhase::Finished
    }

    /// The file at an index.
    pub open spec fn part(self, index: int) -> PathView {
        data_root(self.home, self.edition).push(plain(part_name(index)))
    }

    /// Where the copy of the file at an index goes.
    pub open spec fn copy_of(self, index: int) -> PathView {
        self.root.push(plain(part_name(index)))
    }

    /// What the backup needs next.
    pub open spec fn request(self) -> Option<RequestView> {
        match self.phase {
            BackupPhase::Database => Some(RequestView::IsFile(db_path(self.home, self.edition))),
            BackupPhase::Directory => Some(RequestView::CreateDirs(self.root)),
            BackupPhase::Part => Some(RequestView::IsFile(self.part(self.index))),
            BackupPhase::Copy => Some(
                RequestView::CopyFile(self.part(self.index), self.copy_of(self.index)),
            ),
            BackupPhase::Finished => None,
        }
    }

    /// The backup in another phase.
    pub open spec fn at(self, phase: BackupPhase) -> BackupView {
        BackupView { phase, ..self }
    }

    /// The backup with the file at the index dealt with.
    pub open spec fn next(self) -> BackupView {
        if self.index + 1 < 3 {
            BackupView { phase: BackupPhase::Part, index: self.index + 1, ..self }
        } else {
            BackupView {
                phase: BackupPhase::Finished,
                result: Some(self.root.push(plain("workbuddy.db"@))),
                ..self
            }
        }
    }

    /// The backup after `reply`. That a copy fails is passed over.
    pub open spec fn advance(self, reply: ReplyView) -> BackupView {
        match self.phase {
            BackupPhase::Database => if reply.yes() {
                self.at(BackupPhase::Directory)
            } else {
                self.at(BackupPhase::Finished)
            },
            BackupPhase::Directory => if reply.yes() {
                self.at(BackupPhase::Part)
            } else {
                self.at(BackupPhase::Finished)
            },
            BackupPhase::Part => if reply.yes() {
                self.at(BackupPhase::Copy)
            } else {
                self.next()
            },
            BackupPhase::Copy => self.next(),
            BackupPhase::Finished => self,
        }
    }

    /// How many steps are left at most.
    pub open spec fn rank(self) -> nat {
        match self.phase {
            BackupPhase::Database => 9,
            BackupPhase::Directory => 8,
            BackupPhase::Part => if self.index < 3 {
                (7 - 2 * self.index) as nat
            } else {
                1
            },
            BackupPhase::Copy => if self.index < 3 {
                (6 - 2 * self.index) as nat
            } else {
                1
            },
            BackupPhase::Finished => 0,
        }
    }

    /// The backup at its end, where `world` answers its requests.
    pub open spec fn settled(self, world: World) -> BackupView
        decreases self.rank(),
    {
        match self.request() {
            Some(request) if self.well_formed() => self.advance(world(request)).settled(world),
            _ => self,
        }
    }

    /// What the backup asks up to its end, where `world` answers.
    pub open spec fn asked(self, world: World) -> Seq<RequestView>
        decreases self.rank(),
    {
        match self.request() {
            Some(request) if self.well_formed() => seq![request] + self.advance(
                world(request),
            ).asked(world),
            _ => Seq::empty(),
        }
    }
}

/// The backup of the session database of an edition, into the directory
/// `backup_root`.
pub fn backup_workbuddy_db_for_edition(
    home: &FilePath,
    backup_root: &FilePath,
    edition: SessionEdition,
) -> (res: Backup)
    ensures
        res@ == backup_start(home@, backup_root@, edition),
{
    Backup {
        home: home.clone(),
        edition,
        root: backup_root.clone(),
        phase: BackupPhase::Database,
        index: 0,
        result: None,
    }
}

impl Backup {
    #[verifier::type_invariant]
    spec fn inv(self) -> bool {
        self@.well_formed()
    }

    /// Whether the backup is over.
    pub fn is_over(&self) -> (res: bool)
        ensures
            res == self@.over(),
    {
        matches!(self.phase, BackupPhase::Finished)
    }

    /// The copy of the database, where one was made.
    pub fn result(self) -> (res: Option<FilePath>)
        ensures
            optional_path(res) == self@.result,
    {
        self.result
    }

    /// What the backup needs next; nothing, where it is over.
    pub fn request(&self) -> (res: Option<Request>)
        ensures
            optional_request(res) == self@.request(),
    {
        match self.phase {
            BackupPhase::Database => Some(
                Request::IsFile(workbuddy_db_path_for_edition(&self.home, self.edition)),
            ),
            BackupPhase::Directory => Some(Request::CreateDirs(self.root.clone())),
            BackupPhase::Part => Some(Request::IsFile(self.part())),
            BackupPhase::Copy => Some(
                Request::CopyFile(self.part(), self.root.join(part_file_name(self.index).as_str())),
            ),
            BackupPhase::Finished => None,
        }
    }

    /// The file at the index.
    fn part(&self) -> (res: FilePath)
        ensures
            res@ == self@.part(self@.index),
    {
        data_root_for_edition(&self.home, self.edition).join(part_file_name(self.index).as_str())
    }

    fn at(self, phase: BackupPhase) -> (res: Backup)
        ensures
            res@ == self@.at(phase),
    {
        proof {
            use_type_invariant(&self);
        }
        Backup { phase, ..self }
    }

    /// The backup with the file at the index dealt with.
    fn next(self) -> (res: Backup)
        ensures
            res@ == self@.next(),
    {
        proof {
            use_type_invariant(&self);
        }
        if self.index + 1 < 3 {
            let index: usize = self.index + 1;
            Backup { phase: BackupPhase::Part, index, ..self }
        } else {
            let result: FilePath = self.root.join("workbuddy.db");
            Backup { phase: BackupPhase::Finished, result: Some(result), ..self }
        }
    }

    /// The backup after `reply`.
    pub fn advance(self, reply: Reply) -> (res: Backup)
        ensures
            res@ == self@.advance(reply@),
    {
        match self.phase {
            BackupPhase::Database => if reply.yes() {
                self.at(BackupPhase::Directory)
            } else {
                self.at(BackupPhase::Finished)
            },
            BackupPhase::Directory => if reply.yes() {
                self.at(BackupPhase::Part)
            } else {
                self.at(BackupPhase::Finished)
            },
            BackupPhase::Part => if reply.yes() {
                self.at(BackupPhase::Copy)
            } else {
                self.next()
            },
            BackupPhase::Copy => self.next(),
            BackupPhase::Finished => self,
        }
    }
}

} // verus!

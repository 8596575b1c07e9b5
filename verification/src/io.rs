use crate::path::{names_view, FilePath, Name, NameView, PathView};
use crate::sql::{Rows, RowsView, SqlValue, SqlView, Statement, StatementView};
use crate::text::{optional_text, text_or_empty};
use vstd::prelude::*;

verus! {

/// One piece of work outside the library: a look at a file, a statement for a
/// database, a look at a clock.
pub enum Request {
    /// Is this a regular file? Answered by `Flag`.
    IsFile(FilePath),
    /// Is this a directory? Answered by `Flag`.
    IsDir(FilePath),
    /// The components of this path, if it is a regular file. Answered by `Located`.
    Locate(FilePath),
    /// The names in this directory, if it can be read. Answered by `Names`.
    ListDir(FilePath),
    /// The text in this file, if it can be read. Answered by `Text`.
    ReadText(FilePath),
    /// Make this text the contents of this file. Answered by `Flag`.
    WriteText(FilePath, String),
    /// Make this directory and those above it. Answered by `Flag`.
    CreateDirs(FilePath),
    /// Copy the first file to the second. Answered by `Flag`.
    CopyFile(FilePath, FilePath),
    /// When this file was last modified, in nanoseconds since 1970. Answered by `Time`.
    Modified(FilePath),
    /// This path as it is shown to people. Answered by `Text`.
    PathText(FilePath),
    /// Read from a database. Answered by `Rows`, `NotOpened` or `Failed`.
    Query(Statement),
    /// Change a database. Answered by `Executed`, `NotOpened` or `Failed`.
    Execute(Statement),
    /// The milliseconds since 1970. Answered by `Number`.
    NowMillis,
    /// The seconds since 1970. Answered by `Number`.
    NowSeconds,
    /// The time as a text that names a backup. Answered by `Text`.
    Stamp,
}

/// What came of a request. A reply of another kind than the request asks for
/// stands for a failure.
pub enum Reply {
    Flag(bool),
    Located(Option<FilePath>),
    Names(Option<Vec<Name>>),
    Text(Option<String>),
    Time(Option<i128>),
    Number(i64),
    Rows(Rows),
    Executed,
    /// The database could not be opened.
    NotOpened,
    /// The statement failed, with this message.
    Failed(String),
}

/// What a request is.
#[verifier::ext_equal]
pub enum RequestView {
    IsFile(PathView),
    IsDir(PathView),
    Locate(PathView),
    ListDir(PathView),
    ReadText(PathView),
    WriteText(PathView, Seq<char>),
    CreateDirs(PathView),
    CopyFile(PathView, PathView),
    Modified(PathView),
    PathText(PathView),
    Query(StatementView),
    Execute(StatementView),
    NowMillis,
    NowSeconds,
    Stamp,
}

/// What a reply is.
#[verifier::ext_equal]
pub enum ReplyView {
    Flag(bool),
    Located(Option<PathView>),
    Names(Option<Seq<NameView>>),
    Text(Option<Seq<char>>),
    Time(Option<i128>),
    Number(i64),
    Rows(RowsView),
    Executed,
    NotOpened,
    Failed(Seq<char>),
}

impl View for Request {
    type V = RequestView;

    open spec fn view(&self) -> RequestView {
        match *self {
            Request::IsFile(path) => RequestView::IsFile(path@),
            Request::IsDir(path) => RequestView::IsDir(path@),
            Request::Locate(path) => RequestView::Locate(path@),
            Request::ListDir(path) => RequestView::ListDir(path@),
            Request::ReadText(path) => RequestView::ReadText(path@),
            Request::WriteText(path, text) => RequestView::WriteText(path@, text@),
            Request::CreateDirs(path) => RequestView::CreateDirs(path@),
            Request::CopyFile(from, to) => RequestView::CopyFile(from@, to@),
            Request::Modified(path) => RequestView::Modified(path@),
            Request::PathText(path) => RequestView::PathText(path@),
            Request::Query(statement) => RequestView::Query(statement@),
            Request::Execute(statement) => RequestView::Execute(statement@),
            Request::NowMillis => RequestView::NowMillis,
            Request::NowSeconds => RequestView::NowSeconds,
            Request::Stamp => RequestView::Stamp,
        }
    }
}

impl View for Reply {
    type V = ReplyView;

    open spec fn view(&self) -> ReplyView {
        match *self {
            Reply::Flag(b) => ReplyView::Flag(b),
            Reply::Located(path) => ReplyView::Located(optional_path(path)),
            Reply::Names(names) => ReplyView::Names(
                match names {
                    Some(list) => Some(names_view(list@)),
                    None => None,
                },
            ),
            Reply::Text(text) => ReplyView::Text(optional_text(text)),
            Reply::Time(time) => ReplyView::Time(time),
            Reply::Number(n) => ReplyView::Number(n),
            Reply::Rows(rows) => ReplyView::Rows(rows@),
            Reply::Executed => ReplyView::Executed,
            Reply::NotOpened => ReplyView::NotOpened,
            Reply::Failed(message) => ReplyView::Failed(message@),
        }
    }
}

/// The view of an optional path.
pub open spec fn optional_path(path: Option<FilePath>) -> Option<PathView> {
    match path {
        Some(p) => Some(p@),
        None => None,
    }
}

/// The view of an optional request.
pub open spec fn optional_request(request: Option<Request>) -> Option<RequestView> {
    match request {
        Some(r) => Some(r@),
        None => None,
    }
}

impl RequestView {
    /// Whether the request changes something.
    pub open spec fn writes(self) -> bool {
        self is WriteText || self is CreateDirs || self is CopyFile || self is Execute
    }
}

/// What answers requests: one reply for each request, the same every time. It
/// stands for a machine that does not change while a job runs: no other program
/// changes it, its clocks stand still, and what the job itself writes does not show
/// in later answers.
pub type World = spec_fn(RequestView) -> ReplyView;

impl ReplyView {
    /// Whether the reply is a yes.
    pub open spec fn yes(self) -> bool {
        self == ReplyView::Flag(true)
    }

    /// The file that was located, if one was.
    pub open spec fn located(self) -> Option<PathView> {
        match self {
            ReplyView::Located(path) => path,
            _ => None,
        }
    }

    /// The text in the reply, if there is one.
    pub open spec fn text(self) -> Option<Seq<char>> {
        match self {
            ReplyView::Text(text) => text,
            _ => None,
        }
    }

    /// The first value of the first row in the reply.
    pub open spec fn first_value(self) -> Option<SqlView> {
        match self {
            ReplyView::Rows(rows) => rows.first_value(),
            _ => None,
        }
    }

    /// Whether a row in the reply has the text `name` in second place.
    pub open spec fn names_column(self, name: Seq<char>) -> bool {
        match self {
            ReplyView::Rows(rows) => rows.names_column(name),
            _ => false,
        }
    }

    /// The time in the reply, or the start of 1970.
    pub open spec fn time(self) -> i128 {
        match self {
            ReplyView::Time(Some(time)) => time,
            _ => 0,
        }
    }

    /// The number in the reply, or 0.
    pub open spec fn number(self) -> i64 {
        match self {
            ReplyView::Number(n) => n,
            _ => 0,
        }
    }
}

impl Reply {
    /// Whether the reply is a yes.
    pub fn yes(&self) -> (res: bool)
        ensures
            res == self@.yes(),
    {
        match self {
            Reply::Flag(b) => *b,
            _ => false,
        }
    }

    /// The file that was located, if one was.
    pub fn located(self) -> (res: Option<FilePath>)
        ensures
            optional_path(res) == self@.located(),
    {
        match self {
            Reply::Located(path) => path,
            _ => None,
        }
    }

    /// The text in the reply, if there is one.
    pub fn text(self) -> (res: Option<String>)
        ensures
            optional_text(res) == self@.text(),
    {
        match self {
            Reply::Text(text) => text,
            _ => None,
        }
    }

    /// The text in the reply, or the empty one where there is none.
    pub fn text_or_empty(self) -> (res: String)
        ensures
            res@ == text_or_empty(self@.text()),
    {
        match self.text() {
            Some(text) => text,
            None => String::new(),
        }
    }

    /// The first value of the first row in the reply.
    pub fn first_value<'a>(&'a self) -> (res: Option<&'a SqlValue>)
        ensures
            match res {
                Some(value) => self@.first_value() == Some(value@),
                None => self@.first_value() is None,
            },
    {
        match self {
            Reply::Rows(rows) => rows.first_value(),
            _ => None,
        }
    }

    /// Whether a row in the reply has the text `name` in second place.
    pub fn names_column(&self, name: &str) -> (res: bool)
        ensures
            res == self@.names_column(name@),
    {
        match self {
            Reply::Rows(rows) => rows.names_column(name),
            _ => false,
        }
    }

    /// The time in the reply, or the start of 1970.
    pub fn time(&self) -> (res: i128)
        ensures
            res == self@.time(),
    {
        match self {
            Reply::Time(Some(time)) => *time,
            _ => 0,
        }
    }

    /// The number in the reply, or 0.
    pub fn number(&self) -> (res: i64)
        ensures
            res == self@.number(),
    {
        match self {
            Reply::Number(n) => *n,
            _ => 0,
        }
    }
}

} // verus!

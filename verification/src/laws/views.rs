use crate::copy::{outcome_view, CopyOrder, CopyReport};
use crate::edge_sync::paths_view;
use crate::io::{optional_path, optional_request, Reply, ReplyView, Request, RequestView};
use crate::json::{entries_view, items_view, Json, JsonView};
use crate::listing::{session_rows_view, SessionRow};
use crate::path::{names_view, FilePath, Name, NameView};
use crate::row_copy::result_view;
use crate::sql::{rows_view, values_view, Rows, SqlValue, SqlView, Statement};
use crate::switch::SwitchOrder;
use crate::text::{optional_text, text_or_empty, texts};
use vstd::prelude::*;

verus! {

/// A list is seen with all that it holds, in its order.
pub proof fn lists_are_seen_whole(
    list: Seq<String>,
    names: Seq<Name>,
    values: Seq<SqlValue>,
    rows: Seq<Vec<SqlValue>>,
    paths: Seq<FilePath>,
    sessions: Seq<SessionRow>,
    i: int,
)
    ensures
        texts(list).len() == list.len(),
        0 <= i < list.len() ==> texts(list)[i] == list[i]@,
        names_view(names).len() == names.len(),
        0 <= i < names.len() ==> names_view(names)[i] == names[i]@,
        values_view(values).len() == values.len(),
        0 <= i < values.len() ==> values_view(values)[i] == values[i]@,
        rows_view(rows).len() == rows.len(),
        0 <= i < rows.len() ==> rows_view(rows)[i] == values_view(rows[i]@),
        paths_view(paths).len() == paths.len(),
        0 <= i < paths.len() ==> paths_view(paths)[i] == paths[i]@,
        session_rows_view(sessions).len() == sessions.len(),
        0 <= i < sessions.len() ==> session_rows_view(sessions)[i] == sessions[i]@,
{
}

/// What may be missing is seen as it is where it is there, and as missing where not.
pub proof fn options_are_seen_as_they_are(
    text: Option<String>,
    path: Option<FilePath>,
    request: Option<Request>,
    result: Result<(), String>,
    outcome: Result<CopyReport, String>,
)
    ensures
        optional_text(text) == (match text {
            Some(s) => Some(s@),
            None => None,
        }),
        text_or_empty(optional_text(text)) == (match text {
            Some(s) => s@,
            None => Seq::empty(),
        }),
        optional_path(path) == (match path {
            Some(p) => Some(p@),
            None => None,
        }),
        optional_request(request) == (match request {
            Some(r) => Some(r@),
            None => None,
        }),
        result_view(result) == (match result {
            Ok(()) => Ok(()),
            Err(message) => Err(message@),
        }),
        outcome_view(outcome) == (match outcome {
            Ok(report) => Ok(report@),
            Err(message) => Err(message@),
        }),
{
}

/// A JSON value is seen as what it is.
pub proof fn json_is_seen_as_it_is(
    b: bool,
    n: i64,
    s: String,
    items: Vec<Json>,
    entries: Vec<(String, Json)>,
    i: int,
)
    ensures
        Json::Null@ == JsonView::Null,
        Json::Bool(b)@ == JsonView::Bool(b),
        Json::Integer(n)@ == JsonView::Integer(n as int),
        Json::Number(s)@ == JsonView::Number(s@),
        Json::Text(s)@ == JsonView::Text(s@),
        Json::List(items)@ is List,
        Json::List(items)@->List_0.len() == items@.len(),
        0 <= i < items@.len() ==> Json::List(items)@->List_0[i] == items@[i]@,
        Json::Object(entries)@ is Object,
        Json::Object(entries)@->Object_0.len() == entries@.len(),
        0 <= i < entries@.len() ==> Json::Object(entries)@->Object_0[i] == (
            entries@[i].0@,
            entries@[i].1@,
        ),
        items_view(items@).len() == items@.len(),
        0 <= i < items@.len() ==> items_view(items@)[i] == items@[i]@,
        entries_view(entries@).len() == entries@.len(),
        0 <= i < entries@.len() ==> entries_view(entries@)[i] == (
            entries@[i].0@,
            entries@[i].1@,
        ),
{
}

/// A name, a path, a value in a database, a statement and rows are seen as what they are.
pub proof fn data_is_seen_as_it_is(
    s: String,
    bytes: Vec<u8>,
    n: i64,
    bits: u64,
    path: FilePath,
    statement: Statement,
    rows: Rows,
)
    ensures
        Name::Text(s)@ == NameView::Text(s@),
        Name::Raw(bytes)@ == NameView::Raw(bytes@),
        path@ == names_view(path.parts@),
        SqlValue::Null@ == SqlView::Null,
        SqlValue::Integer(n)@ == SqlView::Integer(n),
        SqlValue::Real(bits)@ == SqlView::Real(bits),
        SqlValue::Text(s)@ == SqlView::Text(s@),
        SqlValue::Blob(bytes)@ == SqlView::Blob(bytes@),
        statement@.db == statement.db@,
        statement@.read_only == statement.read_only,
        statement@.sql == statement.sql@,
        statement@.params == values_view(statement.params@),
        rows@.columns == texts(rows.columns@),
        rows@.rows == rows_view(rows.rows@),
        rows@.error == optional_text(rows.error),
{
}

/// A request is seen as what it is.
pub proof fn requests_are_seen_as_they_are(
    path: FilePath,
    other: FilePath,
    text: String,
    statement: Statement,
)
    ensures
        Request::IsFile(path)@ == RequestView::IsFile(path@),
        Request::IsDir(path)@ == RequestView::IsDir(path@),
        Request::Locate(path)@ == RequestView::Locate(path@),
        Request::ListDir(path)@ == RequestView::ListDir(path@),
        Request::ReadText(path)@ == RequestView::ReadText(path@),
        Request::WriteText(path, text)@ == RequestView::WriteText(path@, text@),
        Request::CreateDirs(path)@ == RequestView::CreateDirs(path@),
        Request::CopyFile(path, other)@ == RequestView::CopyFile(path@, other@),
        Request::Modified(path)@ == RequestView::Modified(path@),
        Request::PathText(path)@ == RequestView::PathText(path@),
        Request::Query(statement)@ == RequestView::Query(statement@),
        Request::Execute(statement)@ == RequestView::Execute(statement@),
        Request::NowMillis@ == RequestView::NowMillis,
        Request::NowSeconds@ == RequestView::NowSeconds,
        Request::Stamp@ == RequestView::Stamp,
{
}

/// A reply is seen as what it is.
pub proof fn replies_are_seen_as_they_are(
    flag: bool,
    path: FilePath,
    names: Vec<Name>,
    text: String,
    time: Option<i128>,
    n: i64,
    rows: Rows,
)
    ensures
        Reply::Flag(flag)@ == ReplyView::Flag(flag),
        Reply::Located(Some(path))@ == ReplyView::Located(Some(path@)),
        Reply::Located(None)@ == ReplyView::Located(None),
        Reply::Names(Some(names))@ == ReplyView::Names(Some(names_view(names@))),
        Reply::Names(None)@ == ReplyView::Names(None),
        Reply::Text(Some(text))@ == ReplyView::Text(Some(text@)),
        Reply::Text(None)@ == ReplyView::Text(None),
        Reply::Time(time)@ == ReplyView::Time(time),
        Reply::Number(n)@ == ReplyView::Number(n),
        Reply::Rows(rows)@ == ReplyView::Rows(rows@),
        Reply::Executed@ == ReplyView::Executed,
        Reply::NotOpened@ == ReplyView::NotOpened,
        Reply::Failed(text)@ == ReplyView::Failed(text@),
{
}

/// Orders, reports and sessions are seen as what they are.
pub proof fn orders_are_seen_as_they_are(
    report: CopyReport,
    order: CopyOrder,
    switch: SwitchOrder,
    row: SessionRow,
)
    ensures
        report@.id == report.id@,
        report@.new_id == report.new_id@,
        report@.jsonl_copied == report.jsonl_copied,
        report@.mapping_written == report.mapping_written,
        report@.backup == report.backup@,
        order@.home == order.home@,
        order@.backup_dir == order.backup_dir@,
        order@.cid == order.cid@,
        order@.new_cid == order.new_cid@,
        order@.source_uid == order.source_uid@,
        order@.target_uid == order.target_uid@,
        order@.source_edition == order.source_edition,
        order@.target_edition == order.target_edition,
        switch@.home == switch.home@,
        switch@.backup_dir == switch.backup_dir@,
        switch@.source_uid == switch.source_uid@,
        switch@.target_uid == switch.target_uid@,
        switch@.source_edition == switch.source_edition,
        switch@.target_edition == switch.target_edition,
        switch@.ids == texts(switch.ids@),
        switch@.new_ids == texts(switch.new_ids@),
        row@.id == row.id@,
        row@.title == row.title@,
        row@.cwd == row.cwd@,
        row@.updated_at == row.updated_at,
        row@.is_playground == row.is_playground,
{
}

} // verus!

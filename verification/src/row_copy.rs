use crate::io::{optional_request, Reply, ReplyView, Request, RequestView, World};
use crate::path::{FilePath, PathView};
use crate::sql::{
    is_one, rows_view, says_one, table_query, table_statement, values_view, SqlValue, SqlView,
    Statement, StatementView,
};
use crate::text::{join, joined, same_text, texts};
use crate::workspace::{is_claw, is_claw_workspace};
use vstd::prelude::*;
use vstd::string::*;

verus! {

/// The value in place `i` of a row, or null where the row ends before it.
pub open spec fn value_at(values: Seq<SqlView>, i: int) -> SqlView {
    if 0 <= i < values.len() {
        values[i]
    } else {
        SqlView::Null
    }
}

/// The value that a row has under `column`; under a name that comes more than
/// once, the last one.
pub open spec fn value_under(
    columns: Seq<Seq<char>>,
    values: Seq<SqlView>,
    column: Seq<char>,
) -> Option<SqlView>
    decreases columns.len(),
{
    if columns.len() == 0 {
        None
    } else if columns.last() == column {
        Some(value_at(values, columns.len() - 1))
    } else {
        value_under(columns.drop_last(), values, column)
    }
}

/// Whether a value is a text that names a Claw workspace.
pub open spec fn names_claw(value: SqlView) -> bool {
    value matches SqlView::Text(cwd) && is_claw(cwd)
}

/// Whether a row of sessions belongs to a Claw workspace.
pub open spec fn claw_row(columns: Seq<Seq<char>>, values: Seq<SqlView>) -> bool {
    exists|i: int|
        0 <= i < columns.len() && #[trigger] columns[i] == "cwd"@ && names_claw(value_at(values, i))
}

/// The row that is copied, and what its copy differs in.
#[verifier::ext_equal]
pub struct RowChange {
    pub columns: Seq<Seq<char>>,
    pub values: Seq<SqlView>,
    pub new_cid: Seq<char>,
    pub target_uid: Seq<char>,
    pub now: i64,
}

impl RowChange {
    /// What the copy has under `column`. It has an id, an owner and times of its
    /// own and is not deleted; all else is as in the row.
    pub open spec fn value_for(self, column: Seq<char>) -> Option<SqlView> {
        if column == "id"@ {
            Some(SqlView::Text(self.new_cid))
        } else if column == "user_id"@ {
            Some(SqlView::Text(self.target_uid))
        } else if column == "created_at"@ || column == "updated_at"@ {
            Some(SqlView::Integer(self.now))
        } else if column == "deleted_at"@ {
            Some(SqlView::Null)
        } else {
            value_under(self.columns, self.values, column)
        }
    }

    /// The columns of the target table for which the copy has a value, in the
    /// order of the table, each with its value.
    pub open spec fn carried(self, target_columns: Seq<Seq<char>>) -> Seq<(Seq<char>, SqlView)>
        decreases target_columns.len(),
    {
        if target_columns.len() == 0 {
            Seq::empty()
        } else {
            let before = self.carried(target_columns.drop_last());
            match self.value_for(target_columns.last()) {
                Some(value) => before.push((target_columns.last(), value)),
                None => before,
            }
        }
    }

    /// The statement that puts the copy into the target table.
    pub open spec fn statement(
        self,
        target_db: PathView,
        target_columns: Seq<Seq<char>>,
    ) -> StatementView {
        let carried = self.carried(target_columns);
        StatementView {
            db: target_db,
            read_only: false,
            sql: insert_sql(names_of(carried)),
            params: values_of(carried),
        }
    }
}

/// The names of carried columns.
pub open spec fn names_of(carried: Seq<(Seq<char>, SqlView)>) -> Seq<Seq<char>> {
    Seq::new(carried.len(), |i: int| carried[i].0)
}

/// The values of carried columns.
pub open spec fn values_of(carried: Seq<(Seq<char>, SqlView)>) -> Seq<SqlView> {
    Seq::new(carried.len(), |i: int| carried[i].1)
}

/// `n` places for values in a statement.
pub open spec fn marks(n: nat) -> Seq<Seq<char>> {
    Seq::new(n, |i: int| "?"@)
}

/// The statement that puts a row with these columns into the sessions.
pub open spec fn insert_sql(columns: Seq<Seq<char>>) -> Seq<char> {
    "INSERT OR REPLACE INTO sessions ("@ + joined(columns, ", "@) + ") VALUES ("@ + joined(
        marks(columns.len()),
        ", "@,
    ) + ")"@
}

/// What is said where a session of a Claw workspace was to be copied.
pub open spec fn claw_refusal() -> Seq<char> {
    "Claw 工作区绑定当前账号渠道，不支持复制"@
}

/// What is said where a session was to be copied that is not there.
pub open spec fn not_found(cid: Seq<char>) -> Seq<char> {
    "未找到源会话: "@ + cid
}

/// What SQLite says of a database that cannot be opened.
pub open spec fn not_opened() -> Seq<char> {
    "unable to open database file"@
}

/// What is said where a session of a Claw workspace was to be copied.
pub fn claw_refusal_text() -> (res: String)
    ensures
        res@ == claw_refusal(),
{
    "Claw 工作区绑定当前账号渠道，不支持复制".to_string()
}

fn not_found_text(cid: &str) -> (res: String)
    ensures
        res@ == not_found(cid@),
{
    let mut res: String = "未找到源会话: ".to_string();
    res.append(cid);
    res
}

fn not_opened_text() -> (res: String)
    ensures
        res@ == not_opened(),
{
    "unable to open database file".to_string()
}

/// Whether a row of sessions belongs to a Claw workspace.
fn is_claw_row(columns: &Vec<String>, values: &Vec<SqlValue>) -> (res: bool)
    ensures
        res == claw_row(texts(columns@), values_view(values@)),
{
    let ghost names = texts(columns@);
    let ghost row = values_view(values@);
    let mut i: usize = 0;
    while i < columns.len()
        invariant
            i <= columns.len(),
            names == texts(columns@),
            row == values_view(values@),
            forall|j: int|
                0 <= j < i ==> !(#[trigger] names[j] == "cwd"@ && names_claw(value_at(row, j))),
        decreases columns.len() - i,
    {
        if i < values.len() && same_text(columns[i].as_str(), "cwd") {
            if let SqlValue::Text(cwd) = &values[i] {
                if is_claw_workspace(cwd.as_str()) {
                    assert(names[i as int] == "cwd"@);
                    return true;
                }
            }
        }
        i += 1;
    }
    false
}

/// The value that a row has under `column`.
fn find_value(columns: &Vec<String>, values: &Vec<SqlValue>, column: &str) -> (res: Option<SqlValue>)
    ensures
        match res {
            Some(value) => value_under(texts(columns@), values_view(values@), column@) == Some(
                value@,
            ),
            None => value_under(texts(columns@), values_view(values@), column@) is None,
        },
{
    let ghost names = texts(columns@);
    let ghost row = values_view(values@);
    let mut end: usize = columns.len();
    assert(names.take(end as int) == names);
    while end > 0
        invariant
            end <= columns.len(),
            names == texts(columns@),
            row == values_view(values@),
            value_under(names, row, column@) == value_under(names.take(end as int), row, column@),
        decreases end,
    {
        let ghost part = names.take(end as int);
        assert(part.drop_last() == names.take(end - 1));
        assert(part.last() == names[end - 1]);
        end -= 1;
        if same_text(columns[end].as_str(), column) {
            if end < values.len() {
                return Some(values[end].clone());
            } else {
                return Some(SqlValue::Null);
            }
        }
    }
    None
}

/// What the copy of a row has under `column`.
fn value_for_column(
    column: &str,
    columns: &Vec<String>,
    values: &Vec<SqlValue>,
    new_cid: &str,
    target_uid: &str,
    now: i64,
) -> (res: Option<SqlValue>)
    ensures
        ({
            let change = RowChange {
                columns: texts(columns@),
                values: values_view(values@),
                new_cid: new_cid@,
                target_uid: target_uid@,
                now,
            };
            match res {
                Some(value) => change.value_for(column@) == Some(value@),
                None => change.value_for(column@) is None,
            }
        }),
{
    if same_text(column, "id") {
        Some(SqlValue::Text(new_cid.to_string()))
    } else if same_text(column, "user_id") {
        Some(SqlValue::Text(target_uid.to_string()))
    } else if same_text(column, "created_at") || same_text(column, "updated_at") {
        Some(SqlValue::Integer(now))
    } else if same_text(column, "deleted_at") {
        Some(SqlValue::Null)
    } else {
        find_value(columns, values, column)
    }
}

/// The statement that puts the copy of a row into the target database. It names
/// the columns that the target table has and the copy has a value for: the
/// tables of two editions need not have the same columns, and what is left out
/// gets the table's default.
pub fn insert_statement(
    target_db: &FilePath,
    target_columns: &Vec<String>,
    columns: &Vec<String>,
    values: &Vec<SqlValue>,
    new_cid: &str,
    target_uid: &str,
    now: i64,
) -> (res: Statement)
    ensures
        res@ == (RowChange {
            columns: texts(columns@),
            values: values_view(values@),
            new_cid: new_cid@,
            target_uid: target_uid@,
            now,
        }).statement(target_db@, texts(target_columns@)),
{
    let ghost change = RowChange {
        columns: texts(columns@),
        values: values_view(values@),
        new_cid: new_cid@,
        target_uid: target_uid@,
        now,
    };
    let ghost all = texts(target_columns@);
    let mut names: Vec<String> = Vec::new();
    let mut params: Vec<SqlValue> = Vec::new();
    let mut places: Vec<String> = Vec::new();
    let mut i: usize = 0;
    assert(all.take(0) =~= Seq::empty());
    assert(texts(names@) =~= names_of(change.carried(all.take(0))));
    assert(values_view(params@) =~= values_of(change.carried(all.take(0))));
    assert(texts(places@) =~= marks(0));
    while i < target_columns.len()
        invariant
            i <= target_columns.len(),
            all == texts(target_columns@),
            change == (RowChange {
                columns: texts(columns@),
                values: values_view(values@),
                new_cid: new_cid@,
                target_uid: target_uid@,
                now,
            }),
            texts(names@) == names_of(change.carried(all.take(i as int))),
            values_view(params@) == values_of(change.carried(all.take(i as int))),
            texts(places@) == marks(names@.len()),
        decreases target_columns.len() - i,
    {
        let ghost longer = all.take(i + 1);
        let ghost before = change.carried(all.take(i as int));
        let ghost names_before = texts(names@);
        let ghost values_before = values_view(params@);
        let ghost places_before = texts(places@);
        assert(longer.drop_last() == all.take(i as int));
        assert(longer.last() == target_columns@[i as int]@);
        match value_for_column(
            target_columns[i].as_str(),
            columns,
            values,
            new_cid,
            target_uid,
            now,
        ) {
            Some(value) => {
                names.push(target_columns[i].clone());
                params.push(value);
                places.push("?".to_string());
                proof {
                    let carried = before.push((longer.last(), value@));
                    assert(change.carried(longer) == carried);
                    assert(texts(names@) =~= names_before.push(longer.last()));
                    assert(values_view(params@) =~= values_before.push(value@));
                    assert(names_of(carried) =~= names_of(before).push(longer.last()));
                    assert(values_of(carried) =~= values_of(before).push(value@));
                    assert(texts(places@) =~= places_before.push("?"@));
                    assert(marks(names@.len()) =~= places_before.push("?"@));
                }
            },
            None => {},
        }
        i += 1;
    }
    assert(all.take(all.len() as int) == all);
    let mut sql: String = "INSERT OR REPLACE INTO sessions (".to_string();
    sql.append(join(&names, ", ").as_str());
    sql.append(") VALUES (");
    sql.append(join(&places, ", ").as_str());
    sql.append(")");
    Statement { db: target_db.clone(), read_only: false, sql, params }
}

/// Where the copying of a row stands.
#[derive(Clone, Copy, Debug, PartialEq, Eq, Structural)]
pub enum RowCopyPhase {
    /// Is there a source database?
    SourceFile,
    /// Is there a target database?
    TargetFile,
    /// Does the source database have sessions?
    SourceTable,
    /// Does the target database have sessions?
    TargetTable,
    /// What is in the row?
    SourceRow,
    /// What columns does the target table have?
    TargetColumns,
    /// What time is it?
    Clock,
    /// Put the copy in.
    Insert,
    Finished,
}

/// The copying of one row of sessions, from one database to another or within
/// one, under a new id and for another owner.
pub struct RowCopy {
    source_db: FilePath,
    target_db: FilePath,
    new_cid: String,
    cid: String,
    source_uid: String,
    target_uid: String,
    phase: RowCopyPhase,
    columns: Vec<String>,
    values: Vec<SqlValue>,
    target_columns: Vec<String>,
    now: i64,
    result: Result<(), String>,
}

/// What the copying of a row is.
#[verifier::ext_equal]
pub struct RowCopyView {
    pub source_db: PathView,
    pub target_db: PathView,
    pub new_cid: Seq<char>,
    pub cid: Seq<char>,
    pub source_uid: Seq<char>,
    pub target_uid: Seq<char>,
    pub phase: RowCopyPhase,
    pub columns: Seq<Seq<char>>,
    pub values: Seq<SqlView>,
    pub target_columns: Seq<Seq<char>>,
    pub now: i64,
    pub result: Result<(), Seq<char>>,
}

/// The view of a result.
pub open spec fn result_view(result: Result<(), String>) -> Result<(), Seq<char>> {
    match result {
        Ok(()) => Ok(()),
        Err(message) => Err(message@),
    }
}

impl View for RowCopy {
    type V = RowCopyView;

    closed spec fn view(&self) -> RowCopyView {
        RowCopyView {
            source_db: self.source_db@,
            target_db: self.target_db@,
            new_cid: self.new_cid@,
            cid: self.cid@,
            source_uid: self.source_uid@,
            target_uid: self.target_uid@,
            phase: self.phase,
            columns: texts(self.columns@),
            values: values_view(self.values@),
            target_columns: texts(self.target_columns@),
            now: self.now,
            result: result_view(self.result),
        }
    }
}

/// The copying of a row, before anything is asked.
pub open spec fn row_copy_start(
    source_db: PathView,
    target_db: PathView,
    new_cid: Seq<char>,
    cid: Seq<char>,
    source_uid: Seq<char>,
    target_uid: Seq<char>,
) -> RowCopyView {
    RowCopyView {
        source_db,
        target_db,
        new_cid,
        cid,
        source_uid,
        target_uid,
        phase: RowCopyPhase::SourceFile,
        columns: Seq::empty(),
        values: Seq::empty(),
        target_columns: Seq::empty(),
        now: 0,
        result: Ok(()),
    }
}

/// The query for the row of one session of one owner.
pub open spec fn row_query(db: PathView, cid: Seq<char>, uid: Seq<char>) -> StatementView {
    StatementView {
        db,
        read_only: true,
        sql: "SELECT * FROM sessions WHERE id = ?1 AND user_id = ?2"@,
        params: seq![SqlView::Text(cid), SqlView::Text(uid)],
    }
}

/// The query for the columns of the sessions.
pub open spec fn columns_query(db: PathView) -> StatementView {
    StatementView {
        db,
        read_only: false,
        sql: "SELECT * FROM sessions LIMIT 0"@,
        params: Seq::empty(),
    }
}

impl RowCopyView {
    /// Whether the copying is over.
    pub open spec fn over(self) -> bool {
        self.phase == RowCopyPhase::Finished
    }

    /// The row that was read, and what its copy differs in.
    pub open spec fn change(self) -> RowChange {
        RowChange {
            columns: self.columns,
            values: self.values,
            new_cid: self.new_cid,
            target_uid: self.target_uid,
            now: self.now,
        }
    }

    /// What the copying needs next.
    pub open spec fn request(self) -> Option<RequestView> {
        match self.phase {
            RowCopyPhase::SourceFile => Some(RequestView::IsFile(self.source_db)),
            RowCopyPhase::TargetFile => Some(RequestView::IsFile(self.target_db)),
            RowCopyPhase::SourceTable => Some(
                RequestView::Query(table_query(self.source_db, true, "sessions"@)),
            ),
            RowCopyPhase::TargetTable => Some(
                RequestView::Query(table_query(self.target_db, false, "sessions"@)),
            ),
            RowCopyPhase::SourceRow => Some(
                RequestView::Query(row_query(self.source_db, self.cid, self.source_uid)),
            ),
            RowCopyPhase::TargetColumns => Some(RequestView::Query(columns_query(self.target_db))),
            RowCopyPhase::Clock => Some(RequestView::NowMillis),
            RowCopyPhase::Insert => Some(
                RequestView::Execute(self.change().statement(self.target_db, self.target_columns)),
            ),
            RowCopyPhase::Finished => None,
        }
    }

    /// The copying in another phase.
    pub open spec fn at(self, phase: RowCopyPhase) -> RowCopyView {
        RowCopyView { phase, ..self }
    }

    /// The copying that ended with `result`.
    pub open spec fn ended(self, result: Result<(), Seq<char>>) -> RowCopyView {
        RowCopyView { phase: RowCopyPhase::Finished, result, ..self }
    }

    /// The copying after `reply`. A database or a table that is not there is
    /// passed over in silence. Behind that, a row that is not there, or that is of
    /// a Claw workspace, is an error, as is whatever fails.
    pub open spec fn advance(self, reply: ReplyView) -> RowCopyView {
        match self.phase {
            RowCopyPhase::SourceFile => if reply.yes() {
                self.at(RowCopyPhase::TargetFile)
            } else {
                self.ended(Ok(()))
            },
            RowCopyPhase::TargetFile => if reply.yes() {
                self.at(RowCopyPhase::SourceTable)
            } else {
                self.ended(Ok(()))
            },
            RowCopyPhase::SourceTable => if is_one(reply.first_value()) {
                self.at(RowCopyPhase::TargetTable)
            } else {
                self.ended(Ok(()))
            },
            RowCopyPhase::TargetTable => if is_one(reply.first_value()) {
                self.at(RowCopyPhase::SourceRow)
            } else {
                self.ended(Ok(()))
            },
            RowCopyPhase::SourceRow => match reply {
                ReplyView::Rows(found) => if found.rows.len() > 0 {
                    if claw_row(found.columns, found.rows[0]) {
                        self.ended(Err(claw_refusal()))
                    } else {
                        RowCopyView {
                            phase: RowCopyPhase::TargetColumns,
                            columns: found.columns,
                            values: found.rows[0],
                            ..self
                        }
                    }
                } else {
                    match found.error {
                        Some(message) => self.ended(Err(message)),
                        None => self.ended(Err(not_found(self.cid))),
                    }
                },
                ReplyView::Failed(message) => self.ended(Err(message)),
                _ => self.ended(Err(not_opened())),
            },
            RowCopyPhase::TargetColumns => match reply {
                ReplyView::Rows(found) => RowCopyView {
                    phase: RowCopyPhase::Clock,
                    target_columns: found.columns,
                    ..self
                },
                ReplyView::Failed(message) => self.ended(Err(message)),
                _ => self.ended(Err(not_opened())),
            },
            RowCopyPhase::Clock => RowCopyView {
                phase: RowCopyPhase::Insert,
                now: reply.number(),
                ..self
            },
            RowCopyPhase::Insert => match reply {
                ReplyView::Executed => self.ended(Ok(())),
                ReplyView::Failed(message) => self.ended(Err(message)),
                _ => self.ended(Err(not_opened())),
            },
            RowCopyPhase::Finished => self,
        }
    }

    /// The copying after all of `replies`.
    pub open spec fn after(self, replies: Seq<ReplyView>) -> RowCopyView
        decreases replies.len(),
    {
        if replies.len() == 0 {
            self
        } else {
            self.after(replies.drop_last()).advance(replies.last())
        }
    }

    /// How many phases are left.
    pub open spec fn rank(self) -> nat {
        match self.phase {
            RowCopyPhase::SourceFile => 8,
            RowCopyPhase::TargetFile => 7,
            RowCopyPhase::SourceTable => 6,
            RowCopyPhase::TargetTable => 5,
            RowCopyPhase::SourceRow => 4,
            RowCopyPhase::TargetColumns => 3,
            RowCopyPhase::Clock => 2,
            RowCopyPhase::Insert => 1,
            RowCopyPhase::Finished => 0,
        }
    }

    /// The copying at its end, where `world` answers its requests.
    pub open spec fn settled(self, world: World) -> RowCopyView
        decreases self.rank(),
    {
        match self.request() {
            Some(request) => self.advance(world(request)).settled(world),
            None => self,
        }
    }
}

/// The copying of the row of `cid`, which `source_uid` owns, as a row of
/// `new_cid`, which `target_uid` owns.
pub fn insert_session_copy_between(
    source_db: FilePath,
    target_db: FilePath,
    new_cid: &str,
    cid: &str,
    source_uid: &str,
    target_uid: &str,
) -> (res: RowCopy)
    ensures
        res@ == row_copy_start(source_db@, target_db@, new_cid@, cid@, source_uid@, target_uid@),
{
    let columns: Vec<String> = Vec::new();
    let values: Vec<SqlValue> = Vec::new();
    let target_columns: Vec<String> = Vec::new();
    assert(texts(columns@) =~= Seq::empty());
    assert(values_view(values@) =~= Seq::empty());
    assert(texts(target_columns@) =~= Seq::empty());
    RowCopy {
        source_db,
        target_db,
        new_cid: new_cid.to_string(),
        cid: cid.to_string(),
        source_uid: source_uid.to_string(),
        target_uid: target_uid.to_string(),
        phase: RowCopyPhase::SourceFile,
        columns,
        values,
        target_columns,
        now: 0,
        result: Ok(()),
    }
}

impl RowCopy {
    /// Whether the copying is over.
    pub fn is_over(&self) -> (res: bool)
        ensures
            res == self@.over(),
    {
        matches!(self.phase, RowCopyPhase::Finished)
    }

    /// What came of the copying.
    pub fn result(self) -> (res: Result<(), String>)
        ensures
            result_view(res) == self@.result,
    {
        self.result
    }

    /// What the copying needs next; nothing, where it is over.
    pub fn request(&self) -> (res: Option<Request>)
        ensures
            optional_request(res) == self@.request(),
    {
        match self.phase {
            RowCopyPhase::SourceFile => Some(Request::IsFile(self.source_db.clone())),
            RowCopyPhase::TargetFile => Some(Request::IsFile(self.target_db.clone())),
            RowCopyPhase::SourceTable => Some(
                Request::Query(table_statement(&self.source_db, true, "sessions")),
            ),
            RowCopyPhase::TargetTable => Some(
                Request::Query(table_statement(&self.target_db, false, "sessions")),
            ),
            RowCopyPhase::SourceRow => {
                let mut params: Vec<SqlValue> = Vec::new();
                params.push(SqlValue::Text(self.cid.clone()));
                params.push(SqlValue::Text(self.source_uid.clone()));
                assert(values_view(params@) =~= row_query(
                    self.source_db@,
                    self.cid@,
                    self.source_uid@,
                ).params);
                Some(
                    Request::Query(
                        Statement {
                            db: self.source_db.clone(),
                            read_only: true,
                            sql: "SELECT * FROM sessions WHERE id = ?1 AND user_id = ?2".to_string(),
                            params,
                        },
                    ),
                )
            },
            RowCopyPhase::TargetColumns => {
                let params: Vec<SqlValue> = Vec::new();
                assert(values_view(params@) =~= Seq::empty());
                Some(
                    Request::Query(
                        Statement {
                            db: self.target_db.clone(),
                            read_only: false,
                            sql: "SELECT * FROM sessions LIMIT 0".to_string(),
                            params,
                        },
                    ),
                )
            },
            RowCopyPhase::Clock => Some(Request::NowMillis),
            RowCopyPhase::Insert => Some(
                Request::Execute(
                    insert_statement(
                        &self.target_db,
                        &self.target_columns,
                        &self.columns,
                        &self.values,
                        self.new_cid.as_str(),
                        self.target_uid.as_str(),
                        self.now,
                    ),
                ),
            ),
            RowCopyPhase::Finished => None,
        }
    }

    fn at(self, phase: RowCopyPhase) -> (res: RowCopy)
        ensures
            res@ == self@.at(phase),
    {
        RowCopy { phase, ..self }
    }

    fn ended(self, result: Result<(), String>) -> (res: RowCopy)
        ensures
            res@ == self@.ended(result_view(result)),
    {
        RowCopy { phase: RowCopyPhase::Finished, result, ..self }
    }

    /// The copying with the source row read.
    fn with_row(self, reply: Reply) -> (res: RowCopy)
        requires
            self@.phase == RowCopyPhase::SourceRow,
        ensures
            res@ == self@.advance(reply@),
    {
        match reply {
            Reply::Rows(found) => {
                let mut rows: Vec<Vec<SqlValue>> = found.rows;
                if rows.len() > 0 {
                    let values: Vec<SqlValue> = rows.swap_remove(0);
                    assert(values_view(values@) == rows_view(found.rows@)[0]);
                    if is_claw_row(&found.columns, &values) {
                        self.ended(Err(claw_refusal_text()))
                    } else {
                        RowCopy {
                            phase: RowCopyPhase::TargetColumns,
                            columns: found.columns,
                            values,
                            ..self
                        }
                    }
                } else {
                    match found.error {
                        Some(message) => self.ended(Err(message)),
                        None => {
                            let message: String = not_found_text(self.cid.as_str());
                            self.ended(Err(message))
                        },
                    }
                }
            },
            Reply::Failed(message) => self.ended(Err(message)),
            _ => self.ended(Err(not_opened_text())),
        }
    }

    /// The copying after `reply`.
    pub fn advance(self, reply: Reply) -> (res: RowCopy)
        ensures
            res@ == self@.advance(reply@),
    {
        match self.phase {
            RowCopyPhase::SourceFile => if reply.yes() {
                self.at(RowCopyPhase::TargetFile)
            } else {
                self.ended(Ok(()))
            },
            RowCopyPhase::TargetFile => if reply.yes() {
                self.at(RowCopyPhase::SourceTable)
            } else {
                self.ended(Ok(()))
            },
            RowCopyPhase::SourceTable => if says_one(reply.first_value()) {
                self.at(RowCopyPhase::TargetTable)
            } else {
                self.ended(Ok(()))
            },
            RowCopyPhase::TargetTable => if says_one(reply.first_value()) {
                self.at(RowCopyPhase::SourceRow)
            } else {
                self.ended(Ok(()))
            },
            RowCopyPhase::SourceRow => self.with_row(reply),
            RowCopyPhase::TargetColumns => match reply {
                Reply::Rows(found) => RowCopy {
                    phase: RowCopyPhase::Clock,
                    target_columns: found.columns,
                    ..self
                },
                Reply::Failed(message) => self.ended(Err(message)),
                _ => self.ended(Err(not_opened_text())),
            },
            RowCopyPhase::Clock => RowCopy {
                phase: RowCopyPhase::Insert,
                now: reply.number(),
                ..self
            },
            RowCopyPhase::Insert => match reply {
                Reply::Executed => self.ended(Ok(())),
                Reply::Failed(message) => self.ended(Err(message)),
                _ => self.ended(Err(not_opened_text())),
            },
            RowCopyPhase::Finished => self,
        }
    }
}

} // verus!

use std::collections::{BTreeMap, BTreeSet};

use rusqlite::types::{Value as DbValue, ValueRef};
use rusqlite::Connection;
use wb_switch_core::copy::{copy_session_to_user, copy_session_to_user_for_editions, CopyJob, CopyOrder};
use wb_switch_core::current::list_current_sessions;
use wb_switch_core::edge_sync::{
    edge_sync_candidates, edge_sync_db_path_for_edition, order_by_time, EdgeSyncSearch,
};
use wb_switch_core::edition::SessionEdition;
use wb_switch_core::history::find_project_jsonl_in_edition;
use wb_switch_core::backup::backup_workbuddy_db_for_edition;
use wb_switch_core::io::{Reply, Request};
use wb_switch_core::json::Json;
use wb_switch_core::layout::{destination_project_jsonl, workbuddy_db_path};
use wb_switch_core::listing::{list_sessions_for_user, list_sessions_for_user_in_edition, SessionListing};
use wb_switch_core::mapping::{
    insert_edge_sync_mapping, register_edge_sync_mapping_for_edition, MappingInsert, Registration,
};
use wb_switch_core::path::{FilePath, Name};
use wb_switch_core::row_copy::{insert_session_copy_between, insert_statement, RowCopy};
use wb_switch_core::sql::{Rows, SqlValue, Statement};
use wb_switch_core::switch::{copy_sessions_for_switch, SwitchJob, SwitchOrder};

/// A machine that lives in memory, with real databases.
struct Machine {
    files: BTreeMap<String, String>,
    dirs: BTreeSet<String>,
    dbs: BTreeMap<String, Connection>,
    modified: BTreeMap<String, i128>,
    log: Vec<String>,
    /// What the clocks gain by every look at one.
    tick: i64,
    now: i64,
}

fn key(path: &FilePath) -> String {
    path.parts.iter().map(label).collect::<Vec<String>>().join("|")
}

/// How the machine calls a name: a name that is no text by its one byte.
fn label(name: &Name) -> String {
    match name {
        Name::Text(text) => text.clone(),
        Name::Raw(bytes) => format!("raw {}", bytes[0]),
    }
}

/// The name that the machine calls by `label`.
fn name(label: &str) -> Name {
    match label.strip_prefix("raw ") {
        Some(byte) => Name::Raw(vec![byte.parse().unwrap()]),
        None => Name::Text(label.to_string()),
    }
}

fn path(parts: &[&str]) -> FilePath {
    FilePath {
        parts: parts.iter().map(|part| name(part)).collect(),
    }
}

/// A path as the file system knows it.
fn shown(path: &FilePath) -> String {
    path.parts
        .iter()
        .map(label)
        .collect::<std::path::PathBuf>()
        .to_string_lossy()
        .to_string()
}

fn home() -> FilePath {
    path(&["/", "home"])
}

fn backups() -> FilePath {
    path(&["/", "backups"])
}

impl Machine {
    fn new() -> Machine {
        Machine {
            files: BTreeMap::new(),
            dirs: BTreeSet::new(),
            dbs: BTreeMap::new(),
            modified: BTreeMap::new(),
            log: Vec::new(),
            tick: 0,
            now: 0,
        }
    }

    /// How much later it is than at the start.
    fn elapsed(&mut self) -> i64 {
        self.now += self.tick;
        self.now
    }

    /// Adds a database with what `sql` puts into it.
    fn add_db(&mut self, at: &str, sql: &str) {
        let conn = Connection::open_in_memory().unwrap();
        conn.execute_batch(sql).unwrap();
        self.dbs.insert(at.to_string(), conn);
    }

    fn add_file(&mut self, at: &str, text: &str) {
        self.files.insert(at.to_string(), text.to_string());
    }

    fn add_dir(&mut self, at: &str) {
        self.dirs.insert(at.to_string());
    }

    fn is_file(&self, at: &str) -> bool {
        self.files.contains_key(at) || self.dbs.contains_key(at)
    }

    fn perform(&mut self, request: Request) -> Reply {
        match request {
            Request::IsFile(path) => Reply::Flag(self.is_file(&key(&path))),
            Request::IsDir(path) => Reply::Flag(self.dirs.contains(&key(&path))),
            Request::Locate(path) => {
                let found = self.is_file(&key(&path));
                Reply::Located(if found { Some(path) } else { None })
            }
            Request::ListDir(path) => {
                let below = format!("{}|", key(&path));
                let mut names: Vec<Name> = Vec::new();
                for place in self.dirs.iter().chain(self.files.keys()) {
                    if let Some(rest) = place.strip_prefix(&below) {
                        if !rest.contains('|') {
                            names.push(name(rest));
                        }
                    }
                }
                Reply::Names(Some(names))
            }
            Request::ReadText(path) => Reply::Text(self.files.get(&key(&path)).cloned()),
            Request::WriteText(path, text) => {
                self.log.push(format!("write {}", key(&path)));
                self.files.insert(key(&path), text);
                Reply::Flag(true)
            }
            Request::CreateDirs(path) => {
                self.log.push(format!("mkdir {}", key(&path)));
                self.dirs.insert(key(&path));
                Reply::Flag(true)
            }
            Request::CopyFile(from, to) => {
                self.log.push(format!("copy {} {}", key(&from), key(&to)));
                Reply::Flag(true)
            }
            Request::Modified(path) => Reply::Time(self.modified.get(&key(&path)).copied()),
            Request::PathText(path) => Reply::Text(Some(key(&path))),
            Request::Query(statement) => self.query(&statement),
            Request::Execute(statement) => self.execute(&statement),
            Request::NowMillis => Reply::Number(1111 + self.elapsed()),
            Request::NowSeconds => Reply::Number(2222 + self.elapsed()),
            Request::Stamp => Reply::Text(Some(match self.elapsed() {
                0 => "stamp".to_string(),
                n => format!("stamp-{}", n),
            })),
        }
    }

    fn query(&mut self, statement: &Statement) -> Reply {
        let conn = match self.dbs.get(&key(&statement.db)) {
            Some(conn) => conn,
            None => return Reply::NotOpened,
        };
        let mut prepared = match conn.prepare(&statement.sql) {
            Ok(prepared) => prepared,
            Err(error) => return Reply::Failed(error.to_string()),
        };
        let columns: Vec<String> = prepared.column_names().iter().map(|n| n.to_string()).collect();
        let params = statement.params.iter().map(to_db);
        let mut found = prepared.query(rusqlite::params_from_iter(params)).unwrap();
        let mut rows: Vec<Vec<SqlValue>> = Vec::new();
        while let Some(row) = found.next().unwrap() {
            rows.push((0..columns.len()).map(|i| from_db(row.get_ref(i).unwrap())).collect());
        }
        Reply::Rows(Rows {
            columns,
            rows,
            error: None,
        })
    }

    fn execute(&mut self, statement: &Statement) -> Reply {
        self.log.push(format!("execute {}", key(&statement.db)));
        let conn = match self.dbs.get(&key(&statement.db)) {
            Some(conn) => conn,
            None => return Reply::NotOpened,
        };
        let params = statement.params.iter().map(to_db);
        match conn.execute(&statement.sql, rusqlite::params_from_iter(params)) {
            Ok(_) => {
                *self.modified.entry(key(&statement.db)).or_insert(0) += 1;
                Reply::Executed
            }
            Err(error) => Reply::Failed(error.to_string()),
        }
    }

    fn run<J>(
        &mut self,
        mut job: J,
        request: impl Fn(&J) -> Option<Request>,
        advance: impl Fn(J, Reply) -> J,
    ) -> J {
        while let Some(wanted) = request(&job) {
            let reply = self.perform(wanted);
            job = advance(job, reply);
        }
        job
    }

    fn run_row(&mut self, job: RowCopy) -> Result<(), String> {
        self.run(job, RowCopy::request, RowCopy::advance).result()
    }

    fn run_copy(&mut self, job: CopyJob) -> Result<Json, String> {
        match self.run(job, CopyJob::request, CopyJob::advance).outcome() {
            Some(Ok(report)) => Ok(report.into_json()),
            Some(Err(message)) => Err(message),
            None => panic!("not over"),
        }
    }

    fn run_list(&mut self, job: SessionListing) -> Json {
        self.run(job, SessionListing::request, SessionListing::advance).into_json()
    }
}

fn to_db(value: &SqlValue) -> DbValue {
    match value {
        SqlValue::Null => DbValue::Null,
        SqlValue::Integer(i) => DbValue::Integer(*i),
        SqlValue::Real(bits) => DbValue::Real(f64::from_bits(*bits)),
        SqlValue::Text(s) => DbValue::Text(s.clone()),
        SqlValue::Blob(bytes) => DbValue::Blob(bytes.clone()),
    }
}

fn from_db(value: ValueRef<'_>) -> SqlValue {
    match value {
        ValueRef::Null => SqlValue::Null,
        ValueRef::Integer(i) => SqlValue::Integer(i),
        ValueRef::Real(r) => SqlValue::Real(r.to_bits()),
        ValueRef::Text(bytes) => SqlValue::Text(String::from_utf8(bytes.to_vec()).unwrap()),
        ValueRef::Blob(bytes) => SqlValue::Blob(bytes.to_vec()),
    }
}

fn show(json: &Json) -> String {
    match json {
        Json::Null => "null".to_string(),
        Json::Bool(b) => b.to_string(),
        Json::Integer(i) => i.to_string(),
        Json::Number(n) => n.clone(),
        Json::Text(s) => format!("{:?}", s),
        Json::List(items) => {
            format!("[{}]", items.iter().map(show).collect::<Vec<String>>().join(","))
        }
        Json::Object(entries) => format!(
            "{{{}}}",
            entries
                .iter()
                .map(|(name, value)| format!("{}:{}", name, show(value)))
                .collect::<Vec<String>>()
                .join(",")
        ),
    }
}

fn text(s: &str) -> Json {
    Json::Text(s.to_string())
}

fn object(entries: Vec<(&str, Json)>) -> Json {
    Json::Object(entries.into_iter().map(|(name, value)| (name.to_string(), value)).collect())
}

fn field<'a>(json: &'a Json, name: &str) -> &'a Json {
    json.get(name).unwrap()
}

fn never(_account: &Json) -> bool {
    false
}

/// Says of an account whether its domain is that of the international edition.
fn by_domain(account: &Json) -> bool {
    match account.get("domain") {
        Some(Json::Text(domain)) => domain == "workbuddy.ai",
        _ => false,
    }
}

const CN_DB: &str = "/|home|.workbuddy|workbuddy.db";
const AI_DB: &str = "/|home|.workbuddy-ai|workbuddy.db";
const CN_PROJECTS: &str = "/|home|.workbuddy|projects";

const SESSIONS: &str = "CREATE TABLE sessions (
    id TEXT PRIMARY KEY,
    user_id TEXT NOT NULL,
    title TEXT,
    custom_title TEXT,
    cwd TEXT,
    is_playground INTEGER,
    created_at INTEGER,
    updated_at INTEGER,
    deleted_at INTEGER
);";

fn auth(uid: &str) -> Json {
    object(vec![("account", object(vec![("uid", text(uid))]))])
}

#[test]
fn db_paths_point_to_home() {
    assert!(shown(&workbuddy_db_path(&home(), None, &never)).ends_with(".workbuddy/workbuddy.db"));
    assert!(
        edge_sync_candidates(&home(), SessionEdition::Cn, &vec![true, true, true])
            .iter()
            .all(|path| shown(path).contains(".workbuddy"))
    );
}

#[test]
fn db_path_follows_the_edition_that_is_signed_in() {
    let ai = object(vec![("domain", text("workbuddy.ai"))]);
    let cn = object(vec![("domain", text("workbuddy.cn"))]);
    assert_eq!(key(&workbuddy_db_path(&home(), Some(&ai), &by_domain)), AI_DB);
    assert_eq!(key(&workbuddy_db_path(&home(), Some(&cn), &by_domain)), CN_DB);
    assert_eq!(key(&workbuddy_db_path(&home(), None, &by_domain)), CN_DB);
}

#[test]
fn only_places_with_a_file_are_candidates() {
    let found = edge_sync_candidates(&home(), SessionEdition::Ai, &vec![true, false, true]);
    let keys: Vec<String> = found.iter().map(key).collect();
    assert_eq!(
        keys,
        vec![
            "/|home|.workbuddy-ai|edge-sync-mapping-v4.db",
            "/|home|.workbuddy-ai|edge-sync-mapping-v2.db",
        ]
    );
    assert!(edge_sync_candidates(&home(), SessionEdition::Cn, &vec![]).is_empty());
}

#[test]
fn insert_session_copy_duplicates_row_with_target_uid() {
    let mut machine = Machine::new();
    machine.add_db(
        "db",
        "CREATE TABLE sessions (
                id TEXT PRIMARY KEY,
                user_id TEXT NOT NULL,
                title TEXT,
                cwd TEXT,
                created_at INTEGER,
                updated_at INTEGER,
                deleted_at INTEGER,
                payload BLOB
            );
         INSERT INTO sessions (id, user_id, title, cwd, created_at, updated_at, deleted_at, payload)
             VALUES ('src-1', 'uid-a', '旧标题', '/ws', 1000, 2000, NULL, x'DEADBEEF')",
    );
    let db = path(&["db"]);
    machine
        .run_row(insert_session_copy_between(
            db.clone(),
            db,
            "new-uuid-1",
            "src-1",
            "uid-a",
            "uid-b",
        ))
        .unwrap();

    let conn = &machine.dbs["db"];
    let (id, user_id, title, deleted_at): (String, String, String, Option<i64>) = conn
        .query_row(
            "SELECT id, user_id, title, deleted_at FROM sessions WHERE id = 'new-uuid-1'",
            [],
            |r| Ok((r.get(0)?, r.get(1)?, r.get(2)?, r.get(3)?)),
        )
        .unwrap();
    assert_eq!(id, "new-uuid-1");
    assert_eq!(user_id, "uid-b");
    assert_eq!(title, "旧标题");
    assert_eq!(deleted_at, None);

    let (created, updated, payload): (i64, i64, Vec<u8>) = conn
        .query_row(
            "SELECT created_at, updated_at, payload FROM sessions WHERE id = 'new-uuid-1'",
            [],
            |r| Ok((r.get(0)?, r.get(1)?, r.get(2)?)),
        )
        .unwrap();
    assert_eq!((created, updated), (1111, 1111));
    assert_eq!(payload, vec![0xDE, 0xAD, 0xBE, 0xEF]);

    let src_count: i64 = conn
        .query_row("SELECT COUNT(*) FROM sessions WHERE id = 'src-1'", [], |r| r.get(0))
        .unwrap();
    assert_eq!(src_count, 1);
}

#[test]
fn destination_project_jsonl_moves_between_edition_roots() {
    let source = home()
        .join(".workbuddy")
        .join("projects")
        .join("workspace")
        .join("source.jsonl");
    let destination = destination_project_jsonl(
        &home(),
        &source,
        SessionEdition::Cn,
        SessionEdition::Ai,
        "target",
    )
    .expect("destination path");
    assert!(shown(&destination)
        .ends_with(".workbuddy-ai/projects/workspace/target.jsonl"));
}

#[test]
fn destination_needs_a_file_below_the_transcripts() {
    let to = |source: &FilePath| {
        destination_project_jsonl(&home(), source, SessionEdition::Cn, SessionEdition::Ai, "n")
            .map(|path| key(&path))
    };
    assert_eq!(to(&home().join(".workbuddy").join("projects")), None);
    assert_eq!(to(&path(&["/", "etc", "x", "y", "z.jsonl"])), None);
    assert_eq!(
        to(&home().join(".workbuddy-ai").join("projects").join("c.jsonl")),
        None
    );
    assert_eq!(
        to(&home().join(".workbuddy").join("projects").join("c.jsonl")),
        Some("/|home|.workbuddy-ai|projects|n.jsonl".to_string())
    );
}

#[test]
fn a_transcript_copied_back_is_where_it_came_from() {
    let source = home()
        .join(".workbuddy")
        .join("projects")
        .join("a")
        .join("b")
        .join("c.jsonl");
    let there =
        destination_project_jsonl(&home(), &source, SessionEdition::Cn, SessionEdition::Ai, "n")
            .unwrap();
    let back =
        destination_project_jsonl(&home(), &there, SessionEdition::Ai, SessionEdition::Cn, "c")
            .unwrap();
    assert_eq!(back, source);
}

#[test]
fn insert_session_copy_missing_source_is_noop() {
    let mut machine = Machine::new();
    machine.add_db(
        "db",
        "CREATE TABLE sessions (id TEXT PRIMARY KEY, user_id TEXT, title TEXT, created_at INTEGER, updated_at INTEGER, deleted_at INTEGER);",
    );
    let db = path(&["db"]);
    let err = machine
        .run_row(insert_session_copy_between(db.clone(), db, "new-1", "missing", "uid-a", "uid-b"))
        .expect_err("缺少源会话时应明确失败");
    assert!(err.contains("未找到源会话"));
    assert_eq!(err, "未找到源会话: missing");
    let count: i64 = machine.dbs["db"]
        .query_row("SELECT COUNT(*) FROM sessions", [], |r| r.get(0))
        .unwrap();
    assert_eq!(count, 0);
    assert!(machine.log.is_empty());
}

#[test]
fn insert_session_copy_missing_db_is_ok() {
    let mut machine = Machine::new();
    let db = path(&["missing"]);
    assert!(machine
        .run_row(insert_session_copy_between(db.clone(), db, "new-1", "src-1", "a", "b"))
        .is_ok());
}

#[test]
fn a_database_without_sessions_is_passed_over() {
    let mut machine = Machine::new();
    machine.add_db("with", SESSIONS);
    machine.add_db("without", "CREATE TABLE other (x INTEGER);");
    for (source, target) in [("with", "without"), ("without", "with"), ("with", "gone")] {
        let job = insert_session_copy_between(path(&[source]), path(&[target]), "n", "c", "a", "b");
        assert_eq!(machine.run_row(job), Ok(()));
    }
    assert!(machine.log.is_empty());
}

#[test]
fn a_row_of_a_claw_workspace_is_not_copied() {
    let mut machine = Machine::new();
    machine.add_db("db", SESSIONS);
    machine.dbs["db"]
        .execute("INSERT INTO sessions (id, user_id, cwd) VALUES ('c', 'a', '/x/Claw/')", [])
        .unwrap();
    let job = insert_session_copy_between(path(&["db"]), path(&["db"]), "n", "c", "a", "b");
    assert_eq!(
        machine.run_row(job),
        Err("Claw 工作区绑定当前账号渠道，不支持复制".to_string())
    );
    assert!(machine.log.is_empty());
}

#[test]
fn only_columns_of_both_tables_are_copied() {
    let mut machine = Machine::new();
    machine.add_db(
        "from",
        "CREATE TABLE sessions (id TEXT, user_id TEXT, title TEXT, old_only TEXT, score REAL);
         INSERT INTO sessions VALUES ('c', 'a', 't', 'o', 1.5);",
    );
    machine.add_db(
        "to",
        "CREATE TABLE sessions (score REAL, new_only TEXT DEFAULT 'd', title TEXT, id TEXT, user_id TEXT, updated_at INTEGER);",
    );
    let job = insert_session_copy_between(path(&["from"]), path(&["to"]), "n", "c", "a", "b");
    assert_eq!(machine.run_row(job), Ok(()));
    let row: (f64, String, String, String, String, i64) = machine.dbs["to"]
        .query_row(
            "SELECT score, new_only, title, id, user_id, updated_at FROM sessions",
            [],
            |r| Ok((r.get(0)?, r.get(1)?, r.get(2)?, r.get(3)?, r.get(4)?, r.get(5)?)),
        )
        .unwrap();
    assert_eq!(
        row,
        (1.5, "d".to_string(), "t".to_string(), "n".to_string(), "b".to_string(), 1111)
    );
}

#[test]
fn a_failing_statement_is_an_error_of_the_copy() {
    let mut machine = Machine::new();
    machine.add_db("from", "CREATE TABLE sessions (id TEXT, user_id TEXT); INSERT INTO sessions VALUES ('c', 'a');");
    machine.add_db("to", "CREATE TABLE sessions (id TEXT, must TEXT NOT NULL);");
    let job = insert_session_copy_between(path(&["from"]), path(&["to"]), "n", "c", "a", "b");
    assert!(machine.run_row(job).unwrap_err().contains("NOT NULL"));
    machine.add_db("odd", "CREATE TABLE sessions (x TEXT);");
    let job = insert_session_copy_between(path(&["odd"]), path(&["to"]), "n", "c", "a", "b");
    assert!(machine.run_row(job).unwrap_err().contains("no such column"));
}

/// The reply to a question that is answered by a number.
fn number(n: i64) -> Reply {
    rows(&["n"], vec![SqlValue::Integer(n)])
}

fn rows(columns: &[&str], row: Vec<SqlValue>) -> Reply {
    Reply::Rows(Rows {
        columns: columns.iter().map(|name| name.to_string()).collect(),
        rows: vec![row],
        error: None,
    })
}

fn row_copy() -> RowCopy {
    insert_session_copy_between(path(&["s"]), path(&["t"]), "n", "c", "a", "b")
}

/// A copying that knows of both databases and their tables.
fn row_copy_at_its_row() -> RowCopy {
    row_copy()
        .advance(Reply::Flag(true))
        .advance(Reply::Flag(true))
        .advance(number(1))
        .advance(number(1))
}

/// A copying that has all it needs for the new row.
fn row_copy_at_its_insert() -> RowCopy {
    row_copy_at_its_row()
        .advance(rows(&["title"], vec![SqlValue::Text("t".to_string())]))
        .advance(rows(&["id", "title"], vec![]))
        .advance(Reply::Number(7))
}

#[test]
fn a_database_that_does_not_open_is_passed_over() {
    let job = row_copy().advance(Reply::Flag(true)).advance(Reply::Flag(true));
    assert_eq!(job.advance(Reply::NotOpened).result(), Ok(()));
    let job = row_copy()
        .advance(Reply::Flag(true))
        .advance(Reply::Flag(true))
        .advance(number(1));
    assert_eq!(job.advance(Reply::NotOpened).result(), Ok(()));
    assert_eq!(row_copy().advance(Reply::Executed).result(), Ok(()));
}

#[test]
fn a_row_is_copied_only_where_the_statement_was_executed() {
    let lost = Err("unable to open database file".to_string());
    assert_eq!(row_copy_at_its_row().advance(Reply::NotOpened).result(), lost);
    let job = row_copy_at_its_row().advance(rows(&["title"], vec![SqlValue::Null]));
    assert_eq!(job.advance(Reply::NotOpened).result(), lost);
    assert!(matches!(row_copy_at_its_insert().request(), Some(Request::Execute(_))));
    assert_eq!(row_copy_at_its_insert().advance(Reply::NotOpened).result(), lost);
    assert_eq!(row_copy_at_its_insert().advance(Reply::Flag(true)).result(), lost);
    assert_eq!(
        row_copy_at_its_insert().advance(Reply::Failed("disk full".to_string())).result(),
        Err("disk full".to_string())
    );
    let job = row_copy_at_its_insert().advance(Reply::Executed);
    assert!(job.is_over());
    assert_eq!(job.result(), Ok(()));
}

#[test]
fn an_error_before_the_first_row_is_an_error_of_the_copy() {
    let failed = || {
        Reply::Rows(Rows {
            columns: vec![],
            rows: vec![],
            error: Some("disk I/O error".to_string()),
        })
    };
    assert_eq!(
        row_copy_at_its_row().advance(failed()).result(),
        Err("disk I/O error".to_string())
    );
}

#[test]
fn the_insert_statement_names_its_columns() {
    let columns = |names: &[&str]| names.iter().map(|n| n.to_string()).collect::<Vec<String>>();
    let statement = insert_statement(
        &path(&["t"]),
        &columns(&["id", "title", "created_at", "none"]),
        &columns(&["title", "cwd", "title"]),
        &vec![
            SqlValue::Text("first".to_string()),
            SqlValue::Null,
            SqlValue::Text("last".to_string()),
        ],
        "n",
        "u",
        7,
    );
    assert_eq!(
        statement.sql,
        "INSERT OR REPLACE INTO sessions (id, title, created_at) VALUES (?, ?, ?)"
    );
    let params: Vec<DbValue> = statement.params.iter().map(to_db).collect();
    assert_eq!(
        params,
        vec![
            DbValue::Text("n".to_string()),
            DbValue::Text("last".to_string()),
            DbValue::Integer(7),
        ]
    );
    assert!(!statement.read_only);
}

const MAPPING: &str = "CREATE TABLE edge_sync_mapping (
    session_id TEXT,
    conversation_id TEXT,
    msg_channel TEXT,
    created_at INTEGER
);";

#[test]
fn insert_edge_sync_mapping_registers_channel() {
    let mut machine = Machine::new();
    machine.add_db("edge", MAPPING);
    let job = insert_edge_sync_mapping(path(&["edge"]), "new-1", "uid-b");
    assert!(machine.run(job, MappingInsert::request, MappingInsert::advance).written());
    let (sid, cid, channel): (String, String, String) = machine.dbs["edge"]
        .query_row(
            "SELECT session_id, conversation_id, msg_channel FROM edge_sync_mapping",
            [],
            |r| Ok((r.get(0)?, r.get(1)?, r.get(2)?)),
        )
        .unwrap();
    assert_eq!(sid, "new-1");
    assert_eq!(cid, "new-1");
    assert_eq!(channel, "convmsg:uid-b");
    let created: i64 = machine.dbs["edge"]
        .query_row("SELECT created_at FROM edge_sync_mapping", [], |r| r.get(0))
        .unwrap();
    assert_eq!(created, 2222);
}

#[test]
fn insert_edge_sync_mapping_missing_table_false() {
    let mut machine = Machine::new();
    machine.add_db("edge-no-table", "CREATE TABLE other (x INTEGER);");
    let job = insert_edge_sync_mapping(path(&["edge-no-table"]), "new-1", "uid-b");
    assert!(!machine.run(job, MappingInsert::request, MappingInsert::advance).written());
    let job = insert_edge_sync_mapping(path(&["gone"]), "new-1", "uid-b");
    assert!(!machine.run(job, MappingInsert::request, MappingInsert::advance).written());
}

fn mapping_place(version: &str) -> String {
    format!("/|home|.workbuddy|edge-sync-mapping-{}.db", version)
}

fn found_mapping(machine: &mut Machine, uid: Option<&str>) -> Option<String> {
    let job = edge_sync_db_path_for_edition(&home(), SessionEdition::Cn, uid);
    machine
        .run(job, EdgeSyncSearch::request, EdgeSyncSearch::advance)
        .found()
        .map(|path| key(&path))
}

#[test]
fn the_mapping_database_in_use_is_found() {
    let mut machine = Machine::new();
    assert_eq!(found_mapping(&mut machine, Some("u")), None);
    for version in ["v4", "v3", "v2"] {
        machine.add_db(&mapping_place(version), MAPPING);
    }
    machine.modified.insert(mapping_place("v4"), 10);
    machine.modified.insert(mapping_place("v3"), 30);
    machine.modified.insert(mapping_place("v2"), 20);
    assert_eq!(found_mapping(&mut machine, Some("u")), Some(mapping_place("v3")));
    assert_eq!(found_mapping(&mut machine, None), Some(mapping_place("v3")));
    machine.dbs[&mapping_place("v4")]
        .execute("INSERT INTO edge_sync_mapping VALUES ('s', 's', 'convmsg:u', 1)", [])
        .unwrap();
    assert_eq!(found_mapping(&mut machine, Some("u")), Some(mapping_place("v4")));
    assert_eq!(found_mapping(&mut machine, Some("v")), Some(mapping_place("v3")));
    assert_eq!(found_mapping(&mut machine, None), Some(mapping_place("v3")));
}

#[test]
fn of_files_with_one_time_the_last_comes_first() {
    let names = vec![path(&["a"]), path(&["b"]), path(&["c"]), path(&["d"])];
    let ordered: Vec<String> = order_by_time(&names, &vec![5, 9, 5, -1]).iter().map(key).collect();
    assert_eq!(ordered, vec!["b", "c", "a", "d"]);
}

#[test]
fn a_registration_needs_a_mapping_database() {
    let mut machine = Machine::new();
    let start = || register_edge_sync_mapping_for_edition(&home(), "n", "u", SessionEdition::Cn);
    assert!(!machine.run(start(), Registration::request, Registration::advance).written());
    machine.add_db(&mapping_place("v2"), MAPPING);
    assert!(machine.run(start(), Registration::request, Registration::advance).written());
    assert_eq!(machine.log, vec![format!("execute {}", mapping_place("v2"))]);
}

#[test]
fn the_database_that_a_session_was_registered_in_is_found_again() {
    let mut machine = Machine::new();
    for version in ["v4", "v3", "v2"] {
        machine.add_db(&mapping_place(version), MAPPING);
    }
    machine.modified.insert(mapping_place("v4"), 30);
    machine.modified.insert(mapping_place("v3"), 20);
    machine.modified.insert(mapping_place("v2"), 25);
    machine.dbs[&mapping_place("v3")]
        .execute("INSERT INTO edge_sync_mapping VALUES ('s', 's', 'convmsg:u', 1)", [])
        .unwrap();
    for (uid, version) in [("u", "v3"), ("v", "v4"), ("w", "v4")] {
        assert_eq!(found_mapping(&mut machine, Some(uid)), Some(mapping_place(version)));
        machine.log.clear();
        let job = register_edge_sync_mapping_for_edition(&home(), "n", uid, SessionEdition::Cn);
        assert!(machine.run(job, Registration::request, Registration::advance).written());
        assert_eq!(machine.log, vec![format!("execute {}", mapping_place(version))]);
        let entered: i64 = machine.dbs[&mapping_place(version)]
            .query_row(
                "SELECT COUNT(*) FROM edge_sync_mapping WHERE session_id = 'n' AND msg_channel = ?1",
                [format!("convmsg:{}", uid)],
                |r| r.get(0),
            )
            .unwrap();
        assert_eq!(entered, 1);
        assert_eq!(found_mapping(&mut machine, Some(uid)), Some(mapping_place(version)));
    }
}

#[test]
fn a_transcript_is_looked_for_directly_and_then_in_the_folders() {
    let mut machine = Machine::new();
    let find = |machine: &mut Machine| {
        let job = find_project_jsonl_in_edition(&home(), "c", SessionEdition::Cn);
        machine
            .run(job, |j| j.request(), |j, reply| j.advance(reply))
            .found()
            .map(|path| key(&path))
    };
    machine.add_file(&format!("{}|w1|c.jsonl", CN_PROJECTS), "");
    assert_eq!(find(&mut machine), None);
    machine.add_dir(CN_PROJECTS);
    assert_eq!(find(&mut machine), None);
    machine.add_dir(&format!("{}|w0", CN_PROJECTS));
    machine.add_dir(&format!("{}|w1", CN_PROJECTS));
    assert_eq!(find(&mut machine), Some(format!("{}|w1|c.jsonl", CN_PROJECTS)));
    machine.add_file(&format!("{}|w0|c.jsonl", CN_PROJECTS), "");
    assert_eq!(find(&mut machine), Some(format!("{}|w0|c.jsonl", CN_PROJECTS)));
    machine.add_file(&format!("{}|c.jsonl", CN_PROJECTS), "");
    assert_eq!(find(&mut machine), Some(format!("{}|c.jsonl", CN_PROJECTS)));
}

#[test]
fn a_backup_has_the_files_that_are_there() {
    let mut machine = Machine::new();
    let back_up = |machine: &mut Machine| {
        let job = backup_workbuddy_db_for_edition(&home(), &backups(), SessionEdition::Cn);
        machine
            .run(job, |j| j.request(), |j, reply| j.advance(reply))
            .result()
            .map(|path| key(&path))
    };
    assert_eq!(back_up(&mut machine), None);
    assert!(machine.log.is_empty());
    machine.add_db(CN_DB, SESSIONS);
    machine.add_file("/|home|.workbuddy|workbuddy.db-shm", "");
    assert_eq!(back_up(&mut machine), Some("/|backups|workbuddy.db".to_string()));
    assert_eq!(
        machine.log,
        vec![
            "mkdir /|backups",
            "copy /|home|.workbuddy|workbuddy.db /|backups|workbuddy.db",
            "copy /|home|.workbuddy|workbuddy.db-shm /|backups|workbuddy.db-shm",
        ]
    );
}

#[test]
fn a_backup_without_its_directory_is_none() {
    let job = backup_workbuddy_db_for_edition(&home(), &backups(), SessionEdition::Cn)
        .advance(Reply::Flag(true))
        .advance(Reply::Flag(false));
    assert!(job.is_over());
    assert!(job.result().is_none());
}

#[test]
fn sessions_are_listed_without_claw() {
    let mut machine = Machine::new();
    let list = |machine: &mut Machine| {
        let job = list_sessions_for_user_in_edition(&home(), "u", SessionEdition::Cn);
        show(&machine.run_list(job))
    };
    assert_eq!(list(&mut machine), "[]");
    machine.add_db(CN_DB, "CREATE TABLE other (x INTEGER);");
    assert_eq!(list(&mut machine), "[]");
    machine.add_db(
        CN_DB,
        &format!(
            "{} INSERT INTO sessions (id, user_id, title, custom_title, cwd, is_playground, updated_at, deleted_at) VALUES
             ('old', 'u', ' t ', NULL, '/w/space', 0, 10, NULL),
             ('new', 'u', 't', 'custom', NULL, 1, 20, NULL),
             ('claw', 'u', 't', NULL, '/w/CLAW/', 0, 30, NULL),
             ('gone', 'u', 't', NULL, '/w', 0, 40, 1),
             ('bad', 'u', x'00', NULL, '/w', 0, 50, NULL),
             ('other', 'v', 't', NULL, '/w', 0, 60, NULL),
             ('bare', 'u', NULL, ' ', '/w', NULL, NULL, NULL);",
            SESSIONS
        ),
    );
    machine.add_dir(CN_PROJECTS);
    machine.add_file(&format!("{}|old.jsonl", CN_PROJECTS), "");
    assert_eq!(
        list(&mut machine),
        "[{id:\"new\",title:\"custom\",cwd:\"\",updatedAt:20,hasHistory:false,isPlayground:true},\
         {id:\"old\",title:\"t\",cwd:\"/w/space\",updatedAt:10,hasHistory:true,isPlayground:false},\
         {id:\"bare\",title:\"(无标题)\",cwd:\"/w\",updatedAt:0,hasHistory:false,isPlayground:false}]"
    );
    assert!(machine.log.is_empty());
}

#[test]
fn columns_that_are_missing_are_made_up_for() {
    for (column, title, playground) in [
        ("custom_title TEXT DEFAULT 'c'", "c", "false"),
        ("is_playground INTEGER DEFAULT 1", "t", "true"),
        ("x INTEGER", "t", "false"),
        ("custom_title TEXT DEFAULT 'c', is_playground INTEGER DEFAULT 1", "c", "true"),
    ] {
        let mut machine = Machine::new();
        machine.add_db(
            CN_DB,
            &format!(
                "CREATE TABLE sessions (id TEXT, user_id TEXT, title TEXT, cwd TEXT, updated_at INTEGER, deleted_at INTEGER, {});
                 INSERT INTO sessions (id, user_id, title, cwd) VALUES ('i', 'u', 't', '/w');",
                column
            ),
        );
        let job = list_sessions_for_user(&home(), None, &never, "u");
        assert_eq!(
            show(&machine.run_list(job)),
            format!(
                "[{{id:\"i\",title:\"{}\",cwd:\"/w\",updatedAt:0,hasHistory:false,isPlayground:{}}}]",
                title, playground
            )
        );
    }
}

fn current(machine: &mut Machine, auth: Option<&Json>) -> Json {
    let job = list_current_sessions(&home(), auth, &by_domain);
    machine
        .run(job, |j| j.request(), |j, reply| j.advance(reply))
        .report()
        .unwrap()
}

#[test]
fn the_current_sessions_come_with_a_reason() {
    let mut machine = Machine::new();
    assert_eq!(
        show(&current(&mut machine, None)),
        "{sessions:[],current:null,diagnostics:{reason:\"missing_current_account\"}}"
    );
    assert_eq!(
        show(&current(&mut machine, Some(&auth("  ")))),
        "{sessions:[],current:null,diagnostics:{reason:\"missing_current_account\"}}"
    );
    assert_eq!(
        show(&current(&mut machine, Some(&auth(" u ")))),
        "{sessions:[],current:\"u\",edition:\"cn\",dbPath:\"/|home|.workbuddy|workbuddy.db\",diagnostics:{reason:\"database_missing\"}}"
    );
    machine.add_db(CN_DB, SESSIONS);
    assert_eq!(
        show(field(&current(&mut machine, Some(&auth("u"))), "diagnostics")),
        "{reason:\"no_sessions_for_uid\"}"
    );
    machine.dbs[CN_DB]
        .execute("INSERT INTO sessions (id, user_id) VALUES ('i', 'u')", [])
        .unwrap();
    let report = current(&mut machine, Some(&auth("u")));
    assert_eq!(show(field(&report, "diagnostics")), "{reason:\"ok\"}");
    let ai = object(vec![
        ("account", object(vec![("uid", text("u")), ("domain", text("workbuddy.ai"))])),
    ]);
    let report = current(&mut machine, Some(&ai));
    assert_eq!(show(field(&report, "edition")), "\"ai\"");
    assert_eq!(show(field(&report, "diagnostics")), "{reason:\"database_missing\"}");
}

fn order(source_edition: SessionEdition, target_edition: SessionEdition) -> CopyOrder {
    CopyOrder {
        home: home(),
        backup_dir: backups(),
        cid: "old-id".to_string(),
        new_cid: "new-id".to_string(),
        source_uid: "a".to_string(),
        target_uid: "b".to_string(),
        source_edition,
        target_edition,
    }
}

#[test]
fn names_that_are_no_text_are_kept() {
    let mut machine = Machine::new();
    let home = path(&["/", "raw 255"]);
    let projects = "/|raw 255|.workbuddy|projects";
    machine.add_dir(projects);
    machine.add_dir(&format!("{}|raw 254", projects));
    machine.add_dir(&format!("{}|raw 253", projects));
    machine.add_file(&format!("{}|raw 254|old-id.jsonl", projects), "old-id");
    let search = find_project_jsonl_in_edition(&home, "old-id", SessionEdition::Cn);
    let found = machine
        .run(search, |j| j.request(), |j, reply| j.advance(reply))
        .found()
        .unwrap();
    assert_eq!(found, path(&["/", "raw 255", ".workbuddy", "projects", "raw 254", "old-id.jsonl"]));
    let elsewhere = path(&["/", "raw 252"]);
    let to = |home: &FilePath| {
        destination_project_jsonl(home, &found, SessionEdition::Cn, SessionEdition::Ai, "n")
    };
    assert_eq!(to(&elsewhere), None);
    assert_eq!(
        to(&home),
        Some(path(&["/", "raw 255", ".workbuddy-ai", "projects", "raw 254", "n.jsonl"]))
    );
    let mut order = order(SessionEdition::Cn, SessionEdition::Ai);
    order.home = home;
    let report = machine.run_copy(CopyJob::with_order(order)).unwrap();
    assert_eq!(show(field(&report, "jsonlCopied")), "true");
    assert_eq!(
        machine.files["/|raw 255|.workbuddy-ai|projects|raw 254|new-id.jsonl"],
        "new-id"
    );
}

#[test]
fn names_are_the_same_by_what_they_are() {
    assert!(name("a").same(&name("a")));
    assert!(!name("a").same(&name("b")));
    assert!(name("raw 255").same(&name("raw 255")));
    assert!(!name("raw 255").same(&name("raw 254")));
    assert!(!Name::Raw(vec![255, 1]).same(&Name::Raw(vec![255])));
    assert!(!Name::Raw(vec![97]).same(&name("a")));
}

#[test]
fn a_session_is_copied_to_another_edition() {
    let mut machine = Machine::new();
    machine.add_db(
        CN_DB,
        &format!(
            "{} INSERT INTO sessions (id, user_id, title, cwd) VALUES ('old-id', 'a', 't', '/w');",
            SESSIONS
        ),
    );
    machine.add_db(AI_DB, SESSIONS);
    machine.add_db("/|home|.workbuddy-ai|edge-sync-mapping-v3.db", MAPPING);
    machine.add_dir(CN_PROJECTS);
    machine.add_dir(&format!("{}|ws", CN_PROJECTS));
    machine.add_file(
        &format!("{}|ws|old-id.jsonl", CN_PROJECTS),
        "{\"sessionId\":\"old-id\"}\n{\"sessionId\":\"old-id\",\"x\":1}\n",
    );
    let job = CopyJob::with_order(order(SessionEdition::Cn, SessionEdition::Ai));
    assert_eq!(
        show(&machine.run_copy(job).unwrap()),
        "{id:\"old-id\",newId:\"new-id\",jsonlCopied:true,mappingWritten:true,backup:\"/|backups|sessions|stamp\"}"
    );
    assert_eq!(
        machine.log,
        vec![
            "mkdir /|home|.workbuddy-ai|projects|ws",
            "write /|home|.workbuddy-ai|projects|ws|new-id.jsonl",
            "mkdir /|backups|sessions|stamp",
            "copy /|home|.workbuddy-ai|workbuddy.db /|backups|sessions|stamp|workbuddy.db",
            "execute /|home|.workbuddy-ai|workbuddy.db",
            "execute /|home|.workbuddy-ai|edge-sync-mapping-v3.db",
        ]
    );
    assert_eq!(
        machine.files["/|home|.workbuddy-ai|projects|ws|new-id.jsonl"],
        "{\"sessionId\":\"new-id\"}\n{\"sessionId\":\"new-id\",\"x\":1}\n"
    );
    let owner: String = machine.dbs[AI_DB]
        .query_row("SELECT user_id FROM sessions WHERE id = 'new-id'", [], |r| r.get(0))
        .unwrap();
    assert_eq!(owner, "b");
}

#[test]
fn the_source_session_stays_as_it_is() {
    let mut machine = Machine::new();
    machine.add_db(
        CN_DB,
        &format!(
            "{} INSERT INTO sessions (id, user_id, title, cwd, updated_at) VALUES ('old-id', 'a', 't', '/w', 5);",
            SESSIONS
        ),
    );
    machine.add_dir(CN_PROJECTS);
    let transcript = format!("{}|old-id.jsonl", CN_PROJECTS);
    machine.add_file(&transcript, "old-id");
    let job = CopyJob::with_order(order(SessionEdition::Cn, SessionEdition::Cn));
    assert!(machine.run_copy(job).is_ok());
    assert_eq!(machine.files[&transcript], "old-id");
    assert_eq!(machine.files[&format!("{}|new-id.jsonl", CN_PROJECTS)], "new-id");
    let row = |id: &str| -> (String, String, i64) {
        machine.dbs[CN_DB]
            .query_row(
                "SELECT user_id, title, updated_at FROM sessions WHERE id = ?1",
                [id],
                |r| Ok((r.get(0)?, r.get(1)?, r.get(2)?)),
            )
            .unwrap()
    };
    assert_eq!(row("old-id"), ("a".to_string(), "t".to_string(), 5));
    assert_eq!(row("new-id"), ("b".to_string(), "t".to_string(), 1111));
}

#[test]
fn a_session_without_transcript_or_mapping_is_still_copied() {
    let mut machine = Machine::new();
    machine.add_db(
        CN_DB,
        &format!("{} INSERT INTO sessions (id, user_id) VALUES ('old-id', 'a');", SESSIONS),
    );
    let job = CopyJob::with_order(order(SessionEdition::Cn, SessionEdition::Cn));
    assert_eq!(
        show(&machine.run_copy(job).unwrap()),
        "{id:\"old-id\",newId:\"new-id\",jsonlCopied:false,mappingWritten:false,backup:\"/|backups|sessions|stamp\"}"
    );
    let count: i64 = machine.dbs[CN_DB]
        .query_row("SELECT COUNT(*) FROM sessions WHERE id IN ('old-id', 'new-id')", [], |r| r.get(0))
        .unwrap();
    assert_eq!(count, 2);
}

#[test]
fn a_claw_session_is_refused_before_anything_is_written() {
    let mut machine = Machine::new();
    machine.add_db(
        CN_DB,
        &format!(
            "{} INSERT INTO sessions (id, user_id, cwd) VALUES ('old-id', 'a', 'C:\\WorkBuddy\\Claw');",
            SESSIONS
        ),
    );
    let job = CopyJob::with_order(order(SessionEdition::Cn, SessionEdition::Cn));
    assert_eq!(
        machine.run_copy(job).err(),
        Some("Claw 工作区绑定当前账号渠道，不支持复制".to_string())
    );
    assert!(machine.log.is_empty());
}

#[test]
fn a_missing_row_stops_the_copy_after_the_backup() {
    let mut machine = Machine::new();
    machine.add_db(CN_DB, SESSIONS);
    machine.add_db(&mapping_place("v4"), MAPPING);
    let job = CopyJob::with_order(order(SessionEdition::Cn, SessionEdition::Cn));
    assert_eq!(machine.run_copy(job).err(), Some("未找到源会话: old-id".to_string()));
    assert!(!machine.log.iter().any(|line| line.starts_with("execute")));
    assert!(machine.log.iter().any(|line| line.starts_with("copy")));
}

fn is_session_id(id: &str) -> bool {
    id.len() == 36
        && id.chars().enumerate().all(|(i, c)| match i {
            8 | 13 | 18 | 23 => c == '-',
            14 => c == '4',
            19 => "89ab".contains(c),
            _ => c.is_ascii_digit() || ('a'..='f').contains(&c),
        })
}

#[test]
fn a_copy_gets_a_hyphenated_random_id() {
    let mut machine = Machine::new();
    let mut ids: Vec<String> = Vec::new();
    for _ in 0..20 {
        let job = copy_session_to_user_for_editions(
            &home(),
            &backups(),
            "c",
            "a",
            "b",
            SessionEdition::Cn,
            SessionEdition::Ai,
        );
        let report = machine.run_copy(job).unwrap();
        match field(&report, "newId") {
            Json::Text(id) => ids.push(id.clone()),
            _ => panic!("no id"),
        }
    }
    let job = copy_session_to_user(&home(), &backups(), None, &never, "c", "a", "b");
    let report = machine.run_copy(job).unwrap();
    match field(&report, "newId") {
        Json::Text(id) => ids.push(id.clone()),
        _ => panic!("no id"),
    }
    assert!(ids.iter().all(|id| is_session_id(id)));
    assert_eq!(ids.iter().collect::<BTreeSet<&String>>().len(), 21);
}

fn switch(
    machine: &mut Machine,
    auth: Option<&Json>,
    target: &Json,
    ids: &[&str],
) -> Option<Json> {
    let ids: Vec<String> = ids.iter().map(|id| id.to_string()).collect();
    let job = copy_sessions_for_switch(&home(), &backups(), auth, &by_domain, target, &ids)?;
    Some(machine.run(job, SwitchJob::request, SwitchJob::advance).report())
}

#[test]
fn a_switch_copies_between_two_accounts_only() {
    let mut machine = Machine::new();
    let b = object(vec![("uid", text("b"))]);
    assert!(switch(&mut machine, None, &b, &["c"]).is_none());
    assert!(switch(&mut machine, Some(&auth(" ")), &b, &["c"]).is_none());
    assert!(switch(&mut machine, Some(&auth(" b ")), &b, &["c"]).is_none());
    assert!(switch(&mut machine, Some(&auth("a")), &object(vec![]), &["c"]).is_none());
    assert!(switch(&mut machine, Some(&auth("a")), &object(vec![("uid", text(" \t"))]), &["c"]).is_none());
    assert!(switch(&mut machine, Some(&auth("a")), &object(vec![("uid", Json::Integer(1))]), &["c"]).is_none());
    assert!(machine.log.is_empty());
}

#[test]
fn a_switch_to_an_account_without_data_says_so() {
    let mut machine = Machine::new();
    let target = object(vec![("uid", text(" b ")), ("domain", text("workbuddy.ai"))]);
    assert_eq!(
        show(&switch(&mut machine, Some(&auth("a")), &target, &["c"]).unwrap()),
        "{sourceUid:\"a\",targetUid:\"b\",copied:[],errors:[{error:\"目标账号数据目录不存在: /|home|.workbuddy-ai|workbuddy.db\"}]}"
    );
    assert!(machine.log.is_empty());
}

#[test]
fn a_switch_reports_every_session() {
    let mut machine = Machine::new();
    machine.add_db(
        CN_DB,
        &format!(
            "{} INSERT INTO sessions (id, user_id, cwd) VALUES ('one', 'a', '/w'), ('two', 'a', '/claw'), ('three', 'a', '/w');",
            SESSIONS
        ),
    );
    let target = object(vec![("uid", text("b"))]);
    let report = switch(&mut machine, Some(&auth("a")), &target, &["one", "two", "gone", "three"]).unwrap();
    match field(&report, "copied") {
        Json::List(copied) => {
            let ids: Vec<String> = copied.iter().map(|entry| show(field(entry, "id"))).collect();
            assert_eq!(ids, vec!["\"one\"", "\"three\""]);
            assert!(copied.iter().all(|entry| match field(entry, "newId") {
                Json::Text(id) => is_session_id(id),
                _ => false,
            }));
        }
        _ => panic!("no list"),
    }
    assert_eq!(
        show(field(&report, "errors")),
        "[{id:\"two\",error:\"Claw 工作区绑定当前账号渠道，不支持复制\"},{id:\"gone\",error:\"未找到源会话: gone\"}]"
    );
    let none = switch(&mut machine, Some(&auth("a")), &target, &[]).unwrap();
    assert_eq!(show(&none), "{sourceUid:\"a\",targetUid:\"b\",copied:[]}");
    let count: i64 = machine.dbs[CN_DB]
        .query_row("SELECT COUNT(*) FROM sessions WHERE user_id = 'b'", [], |r| r.get(0))
        .unwrap();
    assert_eq!(count, 2);
}

#[test]
fn a_switch_goes_on_while_the_clock_does() {
    let mut machine = Machine::new();
    machine.tick = 1;
    machine.add_db(
        CN_DB,
        &format!(
            "{} INSERT INTO sessions (id, user_id, cwd) VALUES ('one', 'a', '/w'), ('two', 'a', '/w');",
            SESSIONS
        ),
    );
    let target = object(vec![("uid", text("b"))]);
    let report = switch(&mut machine, Some(&auth("a")), &target, &["two", "gone", "one"]).unwrap();
    match field(&report, "copied") {
        Json::List(copied) => {
            let told: Vec<String> = copied
                .iter()
                .map(|entry| format!("{} {}", show(field(entry, "id")), show(field(entry, "backup"))))
                .collect();
            assert_eq!(
                told,
                vec![
                    "\"two\" \"/|backups|sessions|stamp-1\"",
                    "\"one\" \"/|backups|sessions|stamp-4\"",
                ]
            );
        }
        _ => panic!("no list"),
    }
    assert_eq!(
        show(field(&report, "errors")),
        "[{id:\"gone\",error:\"未找到源会话: gone\"}]"
    );
}

#[test]
fn a_switch_gives_ids_once_there_is_a_database() {
    let job = |new_ids: Vec<String>| {
        SwitchJob::with_order(SwitchOrder {
            home: home(),
            backup_dir: backups(),
            source_uid: "a".to_string(),
            target_uid: "b".to_string(),
            source_edition: SessionEdition::Cn,
            target_edition: SessionEdition::Cn,
            ids: vec!["one".to_string(), "two".to_string()],
            new_ids,
        })
    };
    let new_ids = |report: Json| -> Vec<String> {
        match field(&report, "copied") {
            Json::List(copied) => copied
                .iter()
                .map(|entry| match field(entry, "newId") {
                    Json::Text(id) => id.clone(),
                    _ => panic!("no id"),
                })
                .collect(),
            _ => panic!("no list"),
        }
    };
    let sessions = format!(
        "{} INSERT INTO sessions (id, user_id, cwd) VALUES ('one', 'a', '/w'), ('two', 'a', '/w');",
        SESSIONS
    );
    let mut machine = Machine::new();
    machine.add_db(CN_DB, &sessions);
    let given = vec!["x".to_string(), "y".to_string()];
    let report = machine.run(job(given.clone()), SwitchJob::request, SwitchJob::advance).report();
    assert_eq!(new_ids(report), given);
    let mut machine = Machine::new();
    machine.add_db(CN_DB, &sessions);
    let report = machine.run(job(vec![]), SwitchJob::request, SwitchJob::advance).report();
    let drawn = new_ids(report);
    assert_eq!(drawn.len(), 2);
    assert!(drawn.iter().all(|id| is_session_id(id)));
    assert_ne!(drawn[0], drawn[1]);
}

use crate::copy::{backup_root_for, working_dir_query, CopyReportView};
use crate::current::{current_report, no_account_report};
use crate::edge_sync::{channel_of, channel_query, mapping_paths};
use crate::edition::SessionEdition;
use crate::json::JsonView;
use crate::layout::{data_root, db_path, projects_root, transcript_name};
use crate::listing::{sessions_query, SessionRowView};
use crate::mapping::mapping_statement;
use crate::path::{NameView, PathView};
use crate::row_copy::{claw_refusal, columns_query, not_found, not_opened, row_query};
use crate::session_id::is_session_id;
use crate::sql::{
    columns_of_query, table_query, SqlView, StatementView, BUSY_TIMEOUT_SECS,
};
use crate::switch::{general_error, no_target_message, session_error, SwitchView};
use vstd::prelude::*;

verus! {

/// The domestic edition keeps its data in `.workbuddy` of the home directory, the
/// international one in `.workbuddy-ai`: the sessions in `workbuddy.db`, the
/// transcripts below `projects`, and the mappings in one of three databases.
pub proof fn data_is_kept_in_these_places(home: PathView, edition: SessionEdition)
    ensures
        ({
            let root = home.push(
                NameView::Text(
                    match edition {
                        SessionEdition::Cn => ".workbuddy"@,
                        SessionEdition::Ai => ".workbuddy-ai"@,
                    },
                ),
            );
            &&& data_root(home, edition) == root
            &&& db_path(home, edition) == root.push(NameView::Text("workbuddy.db"@))
            &&& projects_root(home, edition) == root.push(NameView::Text("projects"@))
            &&& mapping_paths(home, edition) == seq![
                root.push(NameView::Text("edge-sync-mapping-v4.db"@)),
                root.push(NameView::Text("edge-sync-mapping-v3.db"@)),
                root.push(NameView::Text("edge-sync-mapping-v2.db"@)),
            ]
        }),
{
}

/// A transcript is named after its session, and a backup is kept under the time at
/// which it is made, below `sessions` of the directory for backups.
pub proof fn files_are_named_so(cid: Seq<char>, backup_dir: PathView, stamp: Seq<char>)
    ensures
        transcript_name(cid) == cid + ".jsonl"@,
        backup_root_for(backup_dir, stamp) == backup_dir.push(NameView::Text("sessions"@)).push(
            NameView::Text(stamp),
        ),
{
}

/// The questions that are put to a database about its tables.
pub proof fn tables_are_asked_about_so(db: PathView, read_only: bool, table: Seq<char>)
    ensures
        table_query(db, read_only, table) == (StatementView {
            db,
            read_only,
            sql: "SELECT EXISTS(SELECT 1 FROM sqlite_master WHERE type='table' AND name=?1)"@,
            params: seq![SqlView::Text(table)],
        }),
        columns_of_query(db, table) == (StatementView {
            db,
            read_only: true,
            sql: "PRAGMA table_info("@ + table + ")"@,
            params: Seq::empty(),
        }),
        BUSY_TIMEOUT_SECS == 5,
{
}

/// The questions that are put to a session database about one session of one owner,
/// and about the columns of its sessions.
pub proof fn sessions_are_asked_about_so(db: PathView, cid: Seq<char>, uid: Seq<char>)
    ensures
        row_query(db, cid, uid) == (StatementView {
            db,
            read_only: true,
            sql: "SELECT * FROM sessions WHERE id = ?1 AND user_id = ?2"@,
            params: seq![SqlView::Text(cid), SqlView::Text(uid)],
        }),
        working_dir_query(db, cid, uid) == (StatementView {
            db,
            read_only: true,
            sql: "SELECT cwd FROM sessions WHERE id = ?1 AND user_id = ?2"@,
            params: seq![SqlView::Text(cid), SqlView::Text(uid)],
        }),
        columns_query(db) == (StatementView {
            db,
            read_only: false,
            sql: "SELECT * FROM sessions LIMIT 0"@,
            params: Seq::empty(),
        }),
{
}

/// The text of the query for all sessions of a user that are not deleted, the latest
/// first. What the table has no column for, is replaced by a constant.
pub open spec fn all_sessions_sql(has_custom: bool, has_playground: bool) -> Seq<char> {
    if has_custom && has_playground {
        "SELECT id, cwd, title, custom_title, updated_at, is_playground FROM sessions WHERE user_id = ?1 AND deleted_at IS NULL ORDER BY updated_at DESC"@
    } else if has_custom {
        "SELECT id, cwd, title, custom_title, updated_at, 0 FROM sessions WHERE user_id = ?1 AND deleted_at IS NULL ORDER BY updated_at DESC"@
    } else if has_playground {
        "SELECT id, cwd, title, NULL, updated_at, is_playground FROM sessions WHERE user_id = ?1 AND deleted_at IS NULL ORDER BY updated_at DESC"@
    } else {
        "SELECT id, cwd, title, NULL, updated_at, 0 FROM sessions WHERE user_id = ?1 AND deleted_at IS NULL ORDER BY updated_at DESC"@
    }
}

/// The query for the sessions of a user asks for all of them.
pub proof fn all_sessions_are_asked_for(
    db: PathView,
    uid: Seq<char>,
    has_custom: bool,
    has_playground: bool,
)
    ensures
        sessions_query(db, uid, has_custom, has_playground) == (StatementView {
            db,
            read_only: true,
            sql: all_sessions_sql(has_custom, has_playground),
            params: seq![SqlView::Text(uid)],
        }),
{
}

/// A session is mapped to the channel of its owner, which is told by the owner's id.
pub proof fn mappings_are_asked_about_and_written_so(
    db: PathView,
    cid: Seq<char>,
    uid: Seq<char>,
    now: i64,
)
    ensures
        channel_of(uid) == "convmsg:"@ + uid,
        channel_query(db, "convmsg:"@ + uid) == (StatementView {
            db,
            read_only: true,
            sql: "SELECT EXISTS(SELECT 1 FROM edge_sync_mapping WHERE msg_channel = ?1)"@,
            params: seq![SqlView::Text("convmsg:"@ + uid)],
        }),
        mapping_statement(db, cid, uid, now) == (StatementView {
            db,
            read_only: false,
            sql:
                "INSERT OR REPLACE INTO edge_sync_mapping (session_id, conversation_id, msg_channel, created_at) VALUES (?1, ?2, ?3, ?4)"@,
            params: seq![
                SqlView::Text(cid),
                SqlView::Text(cid),
                SqlView::Text("convmsg:"@ + uid),
                SqlView::Integer(now),
            ],
        }),
{
}

/// What is said where something cannot be done.
pub proof fn errors_are_worded_so(cid: Seq<char>, db_text: Seq<char>)
    ensures
        claw_refusal() == "Claw 工作区绑定当前账号渠道，不支持复制"@,
        not_found(cid) == "未找到源会话: "@ + cid,
        not_opened() == "unable to open database file"@,
        no_target_message(db_text) == "目标账号数据目录不存在: "@ + db_text,
{
}

/// The id of a new session is a UUID with its hyphens: 36 characters, with hyphens
/// behind the eighth, twelfth, sixteenth and twentieth digit.
pub proof fn session_ids_have_their_hyphens(id: Seq<char>, i: int)
    requires
        is_session_id(id),
        0 <= i < id.len(),
    ensures
        id.len() == 36,
        id[i] == '-' <==> i == 8 || i == 13 || i == 18 || i == 23,
        id[i] != '-' ==> '0' <= id[i] <= '9' || 'a' <= id[i] <= 'f',
        id[14] == '4',
        id[19] == '8' || id[19] == '9' || id[19] == 'a' || id[19] == 'b',
{
}

/// The report on a session that was copied, and a session in a list.
pub proof fn sessions_are_told_of_so(
    report: CopyReportView,
    row: SessionRowView,
    has_history: bool,
)
    ensures
        report.json() == JsonView::Object(
            seq![
                ("id"@, JsonView::Text(report.id)),
                ("newId"@, JsonView::Text(report.new_id)),
                ("jsonlCopied"@, JsonView::Bool(report.jsonl_copied)),
                ("mappingWritten"@, JsonView::Bool(report.mapping_written)),
                ("backup"@, JsonView::Text(report.backup)),
            ],
        ),
        row.json(has_history) == JsonView::Object(
            seq![
                ("id"@, JsonView::Text(row.id)),
                ("title"@, JsonView::Text(row.title)),
                ("cwd"@, JsonView::Text(row.cwd)),
                ("updatedAt"@, JsonView::Integer(row.updated_at as int)),
                ("hasHistory"@, JsonView::Bool(has_history)),
                ("isPlayground"@, JsonView::Bool(row.is_playground)),
            ],
        ),
{
}

/// The field that says why a list is as it is.
pub open spec fn why(reason: Seq<char>) -> (Seq<char>, JsonView) {
    ("diagnostics"@, JsonView::Object(seq![("reason"@, JsonView::Text(reason))]))
}

/// The report on the current sessions tells a missing account, a missing database
/// and an account without sessions apart.
pub proof fn current_sessions_are_told_of_so(
    uid: Seq<char>,
    edition: SessionEdition,
    sessions: Seq<JsonView>,
    is_file: bool,
    db_text: Seq<char>,
)
    ensures
        no_account_report() == JsonView::Object(
            seq![
                ("sessions"@, JsonView::List(Seq::empty())),
                ("current"@, JsonView::Null),
                why("missing_current_account"@),
            ],
        ),
        current_report(uid, edition, sessions, is_file, db_text) == JsonView::Object(
            seq![
                ("sessions"@, JsonView::List(sessions)),
                ("current"@, JsonView::Text(uid)),
                (
                    "edition"@,
                    JsonView::Text(
                        if edition == SessionEdition::Ai {
                            "ai"@
                        } else {
                            "cn"@
                        },
                    ),
                ),
                ("dbPath"@, JsonView::Text(db_text)),
                why(
                    if !is_file {
                        "database_missing"@
                    } else if sessions.len() == 0 {
                        "no_sessions_for_uid"@
                    } else {
                        "ok"@
                    },
                ),
            ],
        ),
{
}

/// The report on the sessions that were copied before a switch. It has errors where
/// there were any.
pub proof fn switch_is_told_of_so(switch: SwitchView, cid: Seq<char>, message: Seq<char>)
    ensures
        ({
            let always = seq![
                ("sourceUid"@, JsonView::Text(switch.order.source_uid)),
                ("targetUid"@, JsonView::Text(switch.order.target_uid)),
                ("copied"@, JsonView::List(switch.copied)),
            ];
            &&& switch.errors.len() == 0 ==> switch.report() == JsonView::Object(always)
            &&& switch.errors.len() > 0 ==> switch.report() == JsonView::Object(
                always + seq![("errors"@, JsonView::List(switch.errors))],
            )
        }),
        session_error(cid, message) == JsonView::Object(
            seq![("id"@, JsonView::Text(cid)), ("error"@, JsonView::Text(message))],
        ),
        general_error(message) == JsonView::Object(seq![("error"@, JsonView::Text(message))]),
{
    let always = seq![
        ("sourceUid"@, JsonView::Text(switch.order.source_uid)),
        ("targetUid"@, JsonView::Text(switch.order.target_uid)),
        ("copied"@, JsonView::List(switch.copied)),
    ];
    assert(always + seq![("errors"@, JsonView::List(switch.errors))] =~= always.push(
        ("errors"@, JsonView::List(switch.errors)),
    ));
}

} // verus!

use crate::backup::{backup_start, backup_workbuddy_db_for_edition, Backup, BackupView};
use crate::edition::{answered, current_edition, probe, SessionEdition};
use crate::history::{find_project_jsonl_in_edition, history_start, HistorySearch, HistoryView};
use crate::io::{optional_request, Reply, ReplyView, Request, RequestView, World};
use crate::json::{entries_view, object, put, Json, JsonView};
use crate::layout::{db_path, destination, destination_project_jsonl, workbuddy_db_path_for_edition};
use crate::mapping::{
    register_edge_sync_mapping_for_edition, registration_start, Registration, RegistrationView,
};
use crate::path::{parent_path, plain, FilePath, PathView};
use crate::row_copy::{
    claw_refusal, claw_refusal_text, insert_session_copy_between, row_copy_start, RowCopy,
    RowCopyView,
};
use crate::session_id::{is_session_id, new_session_id};
use crate::sql::{values_view, SqlValue, SqlView, Statement, StatementView};
use crate::text::{replace_all, replaced, text_or_empty};
use crate::workspace::{is_claw, is_claw_workspace};
use vstd::prelude::*;

verus! {

/// What is reported of a session that was copied.
pub struct CopyReport {
    pub id: String,
    pub new_id: String,
    pub jsonl_copied: bool,
    pub mapping_written: bool,
    pub backup: String,
}

/// What the report of a session that was copied is.
#[verifier::ext_equal]
pub struct CopyReportView {
    pub id: Seq<char>,
    pub new_id: Seq<char>,
    pub jsonl_copied: bool,
    pub mapping_written: bool,
    pub backup: Seq<char>,
}

impl View for CopyReport {
    type V = CopyReportView;

    open spec fn view(&self) -> CopyReportView {
        CopyReportView {
            id: self.id@,
            new_id: self.new_id@,
            jsonl_copied: self.jsonl_copied,
            mapping_written: self.mapping_written,
            backup: self.backup@,
        }
    }
}

impl CopyReportView {
    /// The report as a JSON object.
    pub open spec fn json(self) -> JsonView {
        JsonView::Object(
            seq![
                ("id"@, JsonView::Text(self.id)),
                ("newId"@, JsonView::Text(self.new_id)),
                ("jsonlCopied"@, JsonView::Bool(self.jsonl_copied)),
                ("mappingWritten"@, JsonView::Bool(self.mapping_written)),
                ("backup"@, JsonView::Text(self.backup)),
            ],
        )
    }
}

impl CopyReport {
    /// The report as a JSON object.
    pub fn into_json(self) -> (res: Json)
        ensures
            res@ == self@.json(),
    {
        let ghost view = self@;
        let mut entries: Vec<(String, Json)> = Vec::new();
        put(&mut entries, "id", Json::Text(self.id));
        put(&mut entries, "newId", Json::Text(self.new_id));
        put(&mut entries, "jsonlCopied", Json::Bool(self.jsonl_copied));
        put(&mut entries, "mappingWritten", Json::Bool(self.mapping_written));
        put(&mut entries, "backup", Json::Text(self.backup));
        assert(entries_view(entries@) =~= view.json()->Object_0);
        object(entries)
    }
}

/// The view of what came of copying a session.
pub open spec fn outcome_view(outcome: Result<CopyReport, String>) -> Result<
    CopyReportView,
    Seq<char>,
> {
    match outcome {
        Ok(report) => Ok(report@),
        Err(message) => Err(message@),
    }
}

/// Where the copying of a session stands.
pub enum CopyStage {
    /// In what directory does the session work?
    WorkingDir,
    /// Where is its transcript?
    Search(HistorySearch),
    /// What is in the transcript?
    Read { source: FilePath, target: FilePath },
    /// Make the directory for the copy of the transcript.
    MakeDirs { target: FilePath, text: String },
    /// Write the copy of the transcript.
    Write { target: FilePath, text: String },
    /// What is the backup to be called?
    Stamp,
    /// Back up the target database.
    Back(Backup),
    /// Copy the row of the session.
    Row(RowCopy),
    /// Register the new session with the cloud.
    Register(Registration),
    /// How is the path of the backup shown?
    BackupText { mapping_written: bool },
    Finished(Result<CopyReport, String>),
}

/// What the stage of the copying of a session is.
#[verifier::ext_equal]
pub enum CopyStageView {
    WorkingDir,
    Search(HistoryView),
    Read { source: PathView, target: PathView },
    MakeDirs { target: PathView, text: Seq<char> },
    Write { target: PathView, text: Seq<char> },
    Stamp,
    Back(BackupView),
    Row(RowCopyView),
    Register(RegistrationView),
    BackupText { mapping_written: bool },
    Finished(Result<CopyReportView, Seq<char>>),
}

impl View for CopyStage {
    type V = CopyStageView;

    open spec fn view(&self) -> CopyStageView {
        match *self {
            CopyStage::WorkingDir => CopyStageView::WorkingDir,
            CopyStage::Search(search) => CopyStageView::Search(search@),
            CopyStage::Read { source, target } => CopyStageView::Read {
                source: source@,
                target: target@,
            },
            CopyStage::MakeDirs { target, text } => CopyStageView::MakeDirs {
                target: target@,
                text: text@,
            },
            CopyStage::Write { target, text } => CopyStageView::Write {
                target: target@,
                text: text@,
            },
            CopyStage::Stamp => CopyStageView::Stamp,
            CopyStage::Back(backup) => CopyStageView::Back(backup@),
            CopyStage::Row(row) => CopyStageView::Row(row@),
            CopyStage::Register(registration) => CopyStageView::Register(registration@),
            CopyStage::BackupText { mapping_written } => CopyStageView::BackupText {
                mapping_written,
            },
            CopyStage::Finished(outcome) => CopyStageView::Finished(outcome_view(outcome)),
        }
    }
}

/// What is copied, from whom to whom, and where everything is.
pub struct CopyOrder {
    pub home: FilePath,
    pub backup_dir: FilePath,
    pub cid: String,
    pub new_cid: String,
    pub source_uid: String,
    pub target_uid: String,
    pub source_edition: SessionEdition,
    pub target_edition: SessionEdition,
}

/// What an order to copy a session is.
#[verifier::ext_equal]
pub struct CopyOrderView {
    pub home: PathView,
    pub backup_dir: PathView,
    pub cid: Seq<char>,
    pub new_cid: Seq<char>,
    pub source_uid: Seq<char>,
    pub target_uid: Seq<char>,
    pub source_edition: SessionEdition,
    pub target_edition: SessionEdition,
}

impl View for CopyOrder {
    type V = CopyOrderView;

    open spec fn view(&self) -> CopyOrderView {
        CopyOrderView {
            home: self.home@,
            backup_dir: self.backup_dir@,
            cid: self.cid@,
            new_cid: self.new_cid@,
            source_uid: self.source_uid@,
            target_uid: self.target_uid@,
            source_edition: self.source_edition,
            target_edition: self.target_edition,
        }
    }
}

/// The copying of a session to another account, as a session of its own.
pub struct CopyJob {
    order: CopyOrder,
    jsonl_copied: bool,
    backup_root: FilePath,
    stage: CopyStage,
}

/// What the copying of a session is.
#[verifier::ext_equal]
pub struct CopyView {
    pub order: CopyOrderView,
    pub jsonl_copied: bool,
    pub backup_root: PathView,
    pub stage: CopyStageView,
}

impl View for CopyJob {
    type V = CopyView;

    closed spec fn view(&self) -> CopyView {
        CopyView {
            order: self.order@,
            jsonl_copied: self.jsonl_copied,
            backup_root: self.backup_root@,
            stage: self.stage@,
        }
    }
}

/// The copying, before anything is asked.
pub open spec fn copy_start(order: CopyOrderView) -> CopyView {
    CopyView {
        order,
        jsonl_copied: false,
        backup_root: order.backup_dir,
        stage: CopyStageView::WorkingDir,
    }
}

/// The query for the directory in which a session works.
pub open spec fn working_dir_query(db: PathView, cid: Seq<char>, uid: Seq<char>) -> StatementView {
    StatementView {
        db,
        read_only: true,
        sql: "SELECT cwd FROM sessions WHERE id = ?1 AND user_id = ?2"@,
        params: seq![SqlView::Text(cid), SqlView::Text(uid)],
    }
}

/// Whether a value is a text that names a Claw workspace.
pub open spec fn in_claw(value: Option<SqlView>) -> bool {
    value matches Some(SqlView::Text(cwd)) && is_claw(cwd)
}

/// The directory that a backup with this name goes to.
pub open spec fn backup_root_for(backup_dir: PathView, stamp: Seq<char>) -> PathView {
    backup_dir.push(plain("sessions"@)).push(plain(stamp))
}

impl CopyOrderView {
    /// The database that the session is in.
    pub open spec fn source_db(self) -> PathView {
        db_path(self.home, self.source_edition)
    }

    /// The database that its copy goes to.
    pub open spec fn target_db(self) -> PathView {
        db_path(self.home, self.target_edition)
    }

    /// Where the copy of a transcript goes.
    pub open spec fn destination(self, source: PathView) -> Option<PathView> {
        destination(
            self.home,
            source,
            self.source_edition,
            self.target_edition,
            self.new_cid,
        )
    }
}

impl CopyView {
    /// Whether the copying is over.
    pub open spec fn over(self) -> bool {
        self.stage is Finished
    }

    /// What the copying needs next.
    pub open spec fn request(self) -> Option<RequestView> {
        match self.stage {
            CopyStageView::WorkingDir => Some(
                RequestView::Query(
                    working_dir_query(
                        self.order.source_db(),
                        self.order.cid,
                        self.order.source_uid,
                    ),
                ),
            ),
            CopyStageView::Search(search) => search.request(),
            CopyStageView::Read { source, target } => Some(RequestView::ReadText(source)),
            CopyStageView::MakeDirs { target, text } => Some(
                RequestView::CreateDirs(parent_path(target)),
            ),
            CopyStageView::Write { target, text } => Some(RequestView::WriteText(target, text)),
            CopyStageView::Stamp => Some(RequestView::Stamp),
            CopyStageView::Back(backup) => backup.request(),
            CopyStageView::Row(row) => row.request(),
            CopyStageView::Register(registration) => registration.request(),
            CopyStageView::BackupText { mapping_written } => Some(
                RequestView::PathText(self.backup_root),
            ),
            CopyStageView::Finished(_) => None,
        }
    }

    /// The copying at another stage.
    pub open spec fn at(self, stage: CopyStageView) -> CopyView {
        CopyView { stage, ..self }
    }

    /// The copying with its search where `search` is.
    pub open spec fn with_search(self, search: HistoryView) -> CopyView {
        if !search.over() {
            self.at(CopyStageView::Search(search))
        } else {
            match search.found {
                Some(source) => match self.order.destination(source) {
                    Some(target) => self.at(CopyStageView::Read { source, target }),
                    None => self.at(CopyStageView::Stamp),
                },
                None => self.at(CopyStageView::Stamp),
            }
        }
    }

    /// The copying with its backup where `backup` is.
    pub open spec fn with_backup(self, backup: BackupView) -> CopyView {
        if backup.over() {
            self.at(
                CopyStageView::Row(
                    row_copy_start(
                        self.order.source_db(),
                        self.order.target_db(),
                        self.order.new_cid,
                        self.order.cid,
                        self.order.source_uid,
                        self.order.target_uid,
                    ),
                ),
            )
        } else {
            self.at(CopyStageView::Back(backup))
        }
    }

    /// The copying with the copying of its row where `row` is.
    pub open spec fn with_row(self, row: RowCopyView) -> CopyView {
        if row.over() {
            match row.result {
                Ok(()) => self.at(
                    CopyStageView::Register(
                        registration_start(
                            self.order.home,
                            self.order.new_cid,
                            self.order.target_uid,
                            self.order.target_edition,
                        ),
                    ),
                ),
                Err(message) => self.at(CopyStageView::Finished(Err(message))),
            }
        } else {
            self.at(CopyStageView::Row(row))
        }
    }

    /// The copying with its registration where `registration` is.
    pub open spec fn with_registration(self, registration: RegistrationView) -> CopyView {
        if registration.over() {
            self.at(CopyStageView::BackupText { mapping_written: registration.written() })
        } else {
            self.at(CopyStageView::Register(registration))
        }
    }

    /// The report of the copying, with what is known of its last parts.
    pub open spec fn report(self, mapping_written: bool, backup: Seq<char>) -> CopyReportView {
        CopyReportView {
            id: self.order.cid,
            new_id: self.order.new_cid,
            jsonl_copied: self.jsonl_copied,
            mapping_written,
            backup,
        }
    }

    /// The copying after `reply`.
    pub open spec fn advance(self, reply: ReplyView) -> CopyView {
        match self.stage {
            CopyStageView::WorkingDir => if in_claw(reply.first_value()) {
                self.at(CopyStageView::Finished(Err(claw_refusal())))
            } else {
                self.at(
                    CopyStageView::Search(
                        history_start(self.order.home, self.order.cid, self.order.source_edition),
                    ),
                )
            },
            CopyStageView::Search(search) => self.with_search(search.advance(reply)),
            CopyStageView::Read { source, target } => match reply.text() {
                Some(text) => self.at(
                    CopyStageView::MakeDirs {
                        target,
                        text: replaced(text, self.order.cid, self.order.new_cid),
                    },
                ),
                None => self.at(CopyStageView::Stamp),
            },
            CopyStageView::MakeDirs { target, text } => self.at(
                CopyStageView::Write { target, text },
            ),
            CopyStageView::Write { target, text } => CopyView {
                jsonl_copied: reply.yes(),
                stage: CopyStageView::Stamp,
                ..self
            },
            CopyStageView::Stamp => {
                let backup_root = backup_root_for(
                    self.order.backup_dir,
                    text_or_empty(reply.text()),
                );
                CopyView {
                    backup_root,
                    stage: CopyStageView::Back(
                        backup_start(self.order.home, backup_root, self.order.target_edition),
                    ),
                    ..self
                }
            },
            CopyStageView::Back(backup) => self.with_backup(backup.advance(reply)),
            CopyStageView::Row(row) => self.with_row(row.advance(reply)),
            CopyStageView::Register(registration) => self.with_registration(
                registration.advance(reply),
            ),
            CopyStageView::BackupText { mapping_written } => self.at(
                CopyStageView::Finished(
                    Ok(self.report(mapping_written, text_or_empty(reply.text()))),
                ),
            ),
            CopyStageView::Finished(_) => self,
        }
    }

    /// The copying after all of `replies`.
    pub open spec fn after(self, replies: Seq<ReplyView>) -> CopyView
        decreases replies.len(),
    {
        if replies.len() == 0 {
            self
        } else {
            self.after(replies.drop_last()).advance(replies.last())
        }
    }

    /// What the copying is at work on is well formed.
    pub open spec fn well_formed(self) -> bool {
        match self.stage {
            CopyStageView::Search(search) => search.well_formed(),
            CopyStageView::Back(backup) => backup.well_formed(),
            CopyStageView::Register(registration) => registration.well_formed(),
            _ => true,
        }
    }

    /// How many stages are left at most.
    pub open spec fn stages_left(self) -> nat {
        match self.stage {
            CopyStageView::WorkingDir => 10,
            CopyStageView::Search(_) => 9,
            CopyStageView::Read { source, target } => 8,
            CopyStageView::MakeDirs { target, text } => 7,
            CopyStageView::Write { target, text } => 6,
            CopyStageView::Stamp => 5,
            CopyStageView::Back(_) => 4,
            CopyStageView::Row(_) => 3,
            CopyStageView::Register(_) => 2,
            CopyStageView::BackupText { mapping_written } => 1,
            CopyStageView::Finished(_) => 0,
        }
    }

    /// How far the stage is from its end.
    pub open spec fn rank(self) -> nat {
        match self.stage {
            CopyStageView::Search(search) => search.rank(),
            CopyStageView::Back(backup) => backup.rank(),
            CopyStageView::Row(row) => row.rank(),
            CopyStageView::Register(registration) => registration.rank(),
            _ => 0,
        }
    }

    /// How many looks are left at this rank.
    pub open spec fn looks_left(self) -> int {
        match self.stage {
            CopyStageView::Search(search) => search.looks_left(),
            CopyStageView::Register(registration) => registration.looks_left(),
            _ => 0,
        }
    }

    /// The copying at its end, where `world` answers its requests.
    pub open spec fn settled(self, world: World) -> CopyView
        decreases self.stages_left(), self.rank(), self.looks_left(),
    {
        match self.request() {
            Some(request) if self.well_formed() => self.advance(world(request)).settled(world),
            _ => self,
        }
    }
}

/// The query for the directory in which a session works.
fn working_dir_statement(db: FilePath, cid: &str, uid: &str) -> (res: Statement)
    ensures
        res@ == working_dir_query(db@, cid@, uid@),
{
    let mut params: Vec<SqlValue> = Vec::new();
    params.push(SqlValue::Text(cid.to_string()));
    params.push(SqlValue::Text(uid.to_string()));
    assert(values_view(params@) =~= working_dir_query(db@, cid@, uid@).params);
    Statement {
        db,
        read_only: true,
        sql: "SELECT cwd FROM sessions WHERE id = ?1 AND user_id = ?2".to_string(),
        params,
    }
}

/// Whether a value is a text that names a Claw workspace.
fn says_claw(value: Option<&SqlValue>) -> (res: bool)
    ensures
        res == in_claw(
            match value {
                Some(v) => Some(v@),
                None => None,
            },
        ),
{
    match value {
        Some(SqlValue::Text(cwd)) => is_claw_workspace(cwd.as_str()),
        _ => false,
    }
}

impl CopyOrder {
    /// The stage after a search that ended with `found`.
    fn after_search(&self, found: Option<FilePath>) -> (res: CopyStage)
        ensures
            res@ == (match found {
                Some(source) => match self@.destination(source@) {
                    Some(target) => CopyStageView::Read { source: source@, target },
                    None => CopyStageView::Stamp,
                },
                None => CopyStageView::Stamp,
            }),
    {
        match found {
            Some(source) => {
                let target: Option<FilePath> = destination_project_jsonl(
                    &self.home,
                    &source,
                    self.source_edition,
                    self.target_edition,
                    self.new_cid.as_str(),
                );
                match target {
                    Some(target) => CopyStage::Read { source, target },
                    None => CopyStage::Stamp,
                }
            },
            None => CopyStage::Stamp,
        }
    }

    /// The copying of the row of the session.
    fn row_copy(&self) -> (res: RowCopy)
        ensures
            res@ == row_copy_start(
                self@.source_db(),
                self@.target_db(),
                self@.new_cid,
                self@.cid,
                self@.source_uid,
                self@.target_uid,
            ),
    {
        insert_session_copy_between(
            workbuddy_db_path_for_edition(&self.home, self.source_edition),
            workbuddy_db_path_for_edition(&self.home, self.target_edition),
            self.new_cid.as_str(),
            self.cid.as_str(),
            self.source_uid.as_str(),
            self.target_uid.as_str(),
        )
    }
}

impl CopyJob {
    /// The copying that `order` asks for.
    pub fn with_order(order: CopyOrder) -> (res: CopyJob)
        ensures
            res@ == copy_start(order@),
    {
        let backup_root: FilePath = order.backup_dir.clone();
        CopyJob { order, jsonl_copied: false, backup_root, stage: CopyStage::WorkingDir }
    }

    /// Whether the copying is over.
    pub fn is_over(&self) -> (res: bool)
        ensures
            res == self@.over(),
    {
        matches!(self.stage, CopyStage::Finished(_))
    }

    /// What came of the copying, where it is over.
    pub fn outcome(self) -> (res: Option<Result<CopyReport, String>>)
        ensures
            match res {
                Some(outcome) => self@.stage == CopyStageView::Finished(outcome_view(outcome)),
                None => !self@.over(),
            },
    {
        match self.stage {
            CopyStage::Finished(outcome) => Some(outcome),
            _ => None,
        }
    }

    /// What the copying needs next; nothing, where it is over.
    pub fn request(&self) -> (res: Option<Request>)
        ensures
            optional_request(res) == self@.request(),
    {
        match &self.stage {
            CopyStage::WorkingDir => Some(
                Request::Query(
                    working_dir_statement(
                        workbuddy_db_path_for_edition(
                            &self.order.home,
                            self.order.source_edition,
                        ),
                        self.order.cid.as_str(),
                        self.order.source_uid.as_str(),
                    ),
                ),
            ),
            CopyStage::Search(search) => search.request(),
            CopyStage::Read { source, target } => Some(Request::ReadText(source.clone())),
            CopyStage::MakeDirs { target, text } => Some(Request::CreateDirs(target.parent())),
            CopyStage::Write { target, text } => Some(
                Request::WriteText(target.clone(), text.clone()),
            ),
            CopyStage::Stamp => Some(Request::Stamp),
            CopyStage::Back(backup) => backup.request(),
            CopyStage::Row(row) => row.request(),
            CopyStage::Register(registration) => registration.request(),
            CopyStage::BackupText { mapping_written } => Some(
                Request::PathText(self.backup_root.clone()),
            ),
            CopyStage::Finished(_) => None,
        }
    }

    /// The copying after `reply`.
    pub fn advance(self, reply: Reply) -> (res: CopyJob)
        ensures
            res@ == self@.advance(reply@),
    {
        let CopyJob { order, jsonl_copied, backup_root, stage } = self;
        match stage {
            CopyStage::WorkingDir => {
                let stage: CopyStage = if says_claw(reply.first_value()) {
                    CopyStage::Finished(Err(claw_refusal_text()))
                } else {
                    CopyStage::Search(
                        find_project_jsonl_in_edition(
                            &order.home,
                            order.cid.as_str(),
                            order.source_edition,
                        ),
                    )
                };
                CopyJob { order, jsonl_copied, backup_root, stage }
            },
            CopyStage::Search(search) => {
                let search: HistorySearch = search.advance(reply);
                let stage: CopyStage = if search.is_over() {
                    order.after_search(search.found())
                } else {
                    CopyStage::Search(search)
                };
                CopyJob { order, jsonl_copied, backup_root, stage }
            },
            CopyStage::Read { source, target } => {
                let stage: CopyStage = match reply.text() {
                    Some(text) => CopyStage::MakeDirs {
                        target,
                        text: replace_all(
                            text.as_str(),
                            order.cid.as_str(),
                            order.new_cid.as_str(),
                        ),
                    },
                    None => CopyStage::Stamp,
                };
                CopyJob { order, jsonl_copied, backup_root, stage }
            },
            CopyStage::MakeDirs { target, text } => CopyJob {
                order,
                jsonl_copied,
                backup_root,
                stage: CopyStage::Write { target, text },
            },
            CopyStage::Write { target, text } => CopyJob {
                order,
                jsonl_copied: reply.yes(),
                backup_root,
                stage: CopyStage::Stamp,
            },
            CopyStage::Stamp => {
                let stamp: String = reply.text_or_empty();
                let backup_root: FilePath = order.backup_dir.join("sessions").join(stamp.as_str());
                let stage: CopyStage = CopyStage::Back(
                    backup_workbuddy_db_for_edition(
                        &order.home,
                        &backup_root,
                        order.target_edition,
                    ),
                );
                CopyJob { order, jsonl_copied, backup_root, stage }
            },
            CopyStage::Back(backup) => {
                let backup: Backup = backup.advance(reply);
                let stage: CopyStage = if backup.is_over() {
                    CopyStage::Row(order.row_copy())
                } else {
                    CopyStage::Back(backup)
                };
                CopyJob { order, jsonl_copied, backup_root, stage }
            },
            CopyStage::Row(row) => {
                let row: RowCopy = row.advance(reply);
                let stage: CopyStage = if row.is_over() {
                    match row.result() {
                        Ok(()) => CopyStage::Register(
                            register_edge_sync_mapping_for_edition(
                                &order.home,
                                order.new_cid.as_str(),
                                order.target_uid.as_str(),
                                order.target_edition,
                            ),
                        ),
                        Err(message) => CopyStage::Finished(Err(message)),
                    }
                } else {
                    CopyStage::Row(row)
                };
                CopyJob { order, jsonl_copied, backup_root, stage }
            },
            CopyStage::Register(registration) => {
                let registration: Registration = registration.advance(reply);
                let stage: CopyStage = if registration.is_over() {
                    CopyStage::BackupText { mapping_written: registration.written() }
                } else {
                    CopyStage::Register(registration)
                };
                CopyJob { order, jsonl_copied, backup_root, stage }
            },
            CopyStage::BackupText { mapping_written } => {
                let backup: String = reply.text_or_empty();
                let report: CopyReport = CopyReport {
                    id: order.cid.clone(),
                    new_id: order.new_cid.clone(),
                    jsonl_copied,
                    mapping_written,
                    backup,
                };
                CopyJob { order, jsonl_copied, backup_root, stage: CopyStage::Finished(Ok(report)) }
            },
            CopyStage::Finished(outcome) => CopyJob {
                order,
                jsonl_copied,
                backup_root,
                stage: CopyStage::Finished(outcome),
            },
        }
    }
}

/// The copying of the session `cid`, which `source_uid` owns, as a session of
/// `target_uid` with an id of its own, from one edition to another.
pub fn copy_session_to_user_for_editions(
    home: &FilePath,
    backup_dir: &FilePath,
    cid: &str,
    source_uid: &str,
    target_uid: &str,
    source_edition: SessionEdition,
    target_edition: SessionEdition,
) -> (res: CopyJob)
    ensures
        is_session_id(res@.order.new_cid),
        res@ == copy_start(
            CopyOrderView {
                home: home@,
                backup_dir: backup_dir@,
                cid: cid@,
                new_cid: res@.order.new_cid,
                source_uid: source_uid@,
                target_uid: target_uid@,
                source_edition,
                target_edition,
            },
        ),
{
    CopyJob::with_order(
        CopyOrder {
            home: home.clone(),
            backup_dir: backup_dir.clone(),
            cid: cid.to_string(),
            new_cid: new_session_id(),
            source_uid: source_uid.to_string(),
            target_uid: target_uid.to_string(),
            source_edition,
            target_edition,
        },
    )
}

/// The copying of the session `cid`, which `source_uid` owns, as a session of
/// `target_uid` with an id of its own, within the edition that is signed in. The
/// source account keeps all it has.
pub fn copy_session_to_user<F: Fn(&Json) -> bool>(
    home: &FilePath,
    backup_dir: &FilePath,
    auth: Option<&Json>,
    is_ai: &F,
    cid: &str,
    source_uid: &str,
    target_uid: &str,
) -> (res: CopyJob)
    requires
        forall|value: &Json| call_requires(is_ai, (value,)),
    ensures
        is_session_id(res@.order.new_cid),
        match auth {
            Some(root) => answered(
                is_ai,
                probe(root@),
                res@.order.source_edition == SessionEdition::Ai,
            ),
            None => res@.order.source_edition == SessionEdition::Cn,
        },
        res@ == copy_start(
            CopyOrderView {
                home: home@,
                backup_dir: backup_dir@,
                cid: cid@,
                new_cid: res@.order.new_cid,
                source_uid: source_uid@,
                target_uid: target_uid@,
                source_edition: res@.order.source_edition,
                target_edition: res@.order.source_edition,
            },
        ),
{
    let edition: SessionEdition = current_edition(auth, is_ai);
    copy_session_to_user_for_editions(
        home,
        backup_dir,
        cid,
        source_uid,
        target_uid,
        edition,
        edition,
    )
}

} // verus!

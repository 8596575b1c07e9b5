use crate::edge_sync::{
    channel_of, edge_sync_db_path_for_edition, edge_sync_start, message_channel, EdgeSyncSearch,
    EdgeSyncView,
};
use crate::edition::SessionEdition;
use crate::io::{optional_request, Reply, ReplyView, Request, RequestView, World};
use crate::path::{FilePath, PathView};
use crate::sql::{
    is_one, says_one, table_query, table_statement, values_view, SqlValue, SqlView, Statement,
    StatementView,
};
use vstd::prelude::*;

verus! {

/// Where the entry of a session into a mapping database stands.
#[derive(Clone, Copy, Debug, PartialEq, Eq, Structural)]
pub enum MappingPhase {
    /// Is there such a database?
    File,
    /// Does it have mappings?
    Table,
    /// What time is it?
    Clock,
    /// Put the mapping in.
    Insert,
    Finished,
}

/// The entry of a session into a mapping database, for the user who owns it.
pub struct MappingInsert {
    db: FilePath,
    cid: String,
    uid: String,
    phase: MappingPhase,
    now: i64,
    written: bool,
}

/// What the entry of a session into a mapping database is.
#[verifier::ext_equal]
pub struct MappingView {
    pub db: PathView,
    pub cid: Seq<char>,
    pub uid: Seq<char>,
    pub phase: MappingPhase,
    pub now: i64,
    pub written: bool,
}

impl View for MappingInsert {
    type V = MappingView;

    closed spec fn view(&self) -> MappingView {
        MappingView {
            db: self.db@,
            cid: self.cid@,
            uid: self.uid@,
            phase: self.phase,
            now: self.now,
            written: self.written,
        }
    }
}

/// The entry of a session, before anything is asked.
pub open spec fn mapping_start(db: PathView, cid: Seq<char>, uid: Seq<char>) -> MappingView {
    MappingView { db, cid, uid, phase: MappingPhase::File, now: 0, written: false }
}

/// The statement that enters a session: it is its own conversation, and its
/// messages go by the channel of its owner.
pub open spec fn mapping_statement(
    db: PathView,
    cid: Seq<char>,
    uid: Seq<char>,
    now: i64,
) -> StatementView {
    StatementView {
        db,
        read_only: false,
        sql:
            "INSERT OR REPLACE INTO edge_sync_mapping (session_id, conversation_id, msg_channel, created_at) VALUES (?1, ?2, ?3, ?4)"@,
        params: seq![
            SqlView::Text(cid),
            SqlView::Text(cid),
            SqlView::Text(channel_of(uid)),
            SqlView::Integer(now),
        ],
    }
}

impl MappingView {
    /// Whether the entry is over.
    pub open spec fn over(self) -> bool {
        self.phase == MappingPhase::Finished
    }

    /// What the entry needs next.
    pub open spec fn request(self) -> Option<RequestView> {
        match self.phase {
            MappingPhase::File => Some(RequestView::IsFile(self.db)),
            MappingPhase::Table => Some(
                RequestView::Query(table_query(self.db, false, "edge_sync_mapping"@)),
            ),
            MappingPhase::Clock => Some(RequestView::NowSeconds),
            MappingPhase::Insert => Some(
                RequestView::Execute(mapping_statement(self.db, self.cid, self.uid, self.now)),
            ),
            MappingPhase::Finished => None,
        }
    }

    /// The entry in another phase.
    pub open spec fn at(self, phase: MappingPhase) -> MappingView {
        MappingView { phase, ..self }
    }

    /// The entry after `reply`.
    pub open spec fn advance(self, reply: ReplyView) -> MappingView {
        match self.phase {
            MappingPhase::File => if reply.yes() {
                self.at(MappingPhase::Table)
            } else {
                self.at(MappingPhase::Finished)
            },
            MappingPhase::Table => if is_one(reply.first_value()) {
                self.at(MappingPhase::Clock)
            } else {
                self.at(MappingPhase::Finished)
            },
            MappingPhase::Clock => MappingView {
                phase: MappingPhase::Insert,
                now: reply.number(),
                ..self
            },
            MappingPhase::Insert => MappingView {
                phase: MappingPhase::Finished,
                written: reply == ReplyView::Executed,
                ..self
            },
            MappingPhase::Finished => self,
        }
    }

    /// How many phases are left.
    pub open spec fn rank(self) -> nat {
        match self.phase {
            MappingPhase::File => 4,
            MappingPhase::Table => 3,
            MappingPhase::Clock => 2,
            MappingPhase::Insert => 1,
            MappingPhase::Finished => 0,
        }
    }

    /// The entry at its end, where `world` answers its requests.
    pub open spec fn settled(self, world: World) -> MappingView
        decreases self.rank(),
    {
        match self.request() {
            Some(request) => self.advance(world(request)).settled(world),
            None => self,
        }
    }
}

/// The entry of the session `new_cid`, which `target_uid` owns, into a mapping
/// database.
pub fn insert_edge_sync_mapping(db_path: FilePath, new_cid: &str, target_uid: &str) -> (res:
    MappingInsert)
    ensures
        res@ == mapping_start(db_path@, new_cid@, target_uid@),
{
    MappingInsert {
        db: db_path,
        cid: new_cid.to_string(),
        uid: target_uid.to_string(),
        phase: MappingPhase::File,
        now: 0,
        written: false,
    }
}

impl MappingInsert {
    /// Whether the entry is over.
    pub fn is_over(&self) -> (res: bool)
        ensures
            res == self@.over(),
    {
        matches!(self.phase, MappingPhase::Finished)
    }

    /// Whether the session was entered.
    pub fn written(&self) -> (res: bool)
        ensures
            res == self@.written,
    {
        self.written
    }

    /// What the entry needs next; nothing, where it is over.
    pub fn request(&self) -> (res: Option<Request>)
        ensures
            optional_request(res) == self@.request(),
    {
        match self.phase {
            MappingPhase::File => Some(Request::IsFile(self.db.clone())),
            MappingPhase::Table => Some(
                Request::Query(table_statement(&self.db, false, "edge_sync_mapping")),
            ),
            MappingPhase::Clock => Some(Request::NowSeconds),
            MappingPhase::Insert => {
                let mut params: Vec<SqlValue> = Vec::new();
                params.push(SqlValue::Text(self.cid.clone()));
                params.push(SqlValue::Text(self.cid.clone()));
                params.push(SqlValue::Text(message_channel(self.uid.as_str())));
                params.push(SqlValue::Integer(self.now));
                assert(values_view(params@) =~= mapping_statement(
                    self.db@,
                    self.cid@,
                    self.uid@,
                    self.now,
                ).params);
                Some(
                    Request::Execute(
                        Statement {
                            db: self.db.clone(),
                            read_only: false,
                            sql:
                                "INSERT OR REPLACE INTO edge_sync_mapping (session_id, conversation_id, msg_channel, created_at) VALUES (?1, ?2, ?3, ?4)".to_string(),
                            params,
                        },
                    ),
                )
            },
            MappingPhase::Finished => None,
        }
    }

    fn at(self, phase: MappingPhase) -> (res: MappingInsert)
        ensures
            res@ == self@.at(phase),
    {
        MappingInsert { phase, ..self }
    }

    /// The entry after `reply`.
    pub fn advance(self, reply: Reply) -> (res: MappingInsert)
        ensures
            res@ == self@.advance(reply@),
    {
        match self.phase {
            MappingPhase::File => if reply.yes() {
                self.at(MappingPhase::Table)
            } else {
                self.at(MappingPhase::Finished)
            },
            MappingPhase::Table => if says_one(reply.first_value()) {
                self.at(MappingPhase::Clock)
            } else {
                self.at(MappingPhase::Finished)
            },
            MappingPhase::Clock => MappingInsert {
                phase: MappingPhase::Insert,
                now: reply.number(),
                ..self
            },
            MappingPhase::Insert => MappingInsert {
                phase: MappingPhase::Finished,
                written: matches!(reply, Reply::Executed),
                ..self
            },
            MappingPhase::Finished => self,
        }
    }
}

/// Where the registration of a session stands.
pub enum RegistrationStage {
    Searching(EdgeSyncSearch),
    Inserting(MappingInsert),
    /// Over; the flag says whether the session was entered.
    Finished(bool),
}

/// What the stage of a registration is.
#[verifier::ext_equal]
pub enum RegistrationStageView {
    Searching(EdgeSyncView),
    Inserting(MappingView),
    Finished(bool),
}

/// The registration of a session with the cloud: the search for the mapping
/// database that is in use, and the entry of the session into it.
pub struct Registration {
    cid: String,
    uid: String,
    stage: RegistrationStage,
}

/// What the registration of a session is.
#[verifier::ext_equal]
pub struct RegistrationView {
    pub cid: Seq<char>,
    pub uid: Seq<char>,
    pub stage: RegistrationStageView,
}

impl View for Registration {
    type V = RegistrationView;

    closed spec fn view(&self) -> RegistrationView {
        RegistrationView {
            cid: self.cid@,
            uid: self.uid@,
            stage: match self.stage {
                RegistrationStage::Searching(search) => RegistrationStageView::Searching(search@),
                RegistrationStage::Inserting(insert) => RegistrationStageView::Inserting(insert@),
                RegistrationStage::Finished(written) => RegistrationStageView::Finished(written),
            },
        }
    }
}

/// The registration of a session, before anything is asked.
pub open spec fn registration_start(
    home: PathView,
    cid: Seq<char>,
    uid: Seq<char>,
    edition: SessionEdition,
) -> RegistrationView {
    RegistrationView {
        cid,
        uid,
        stage: RegistrationStageView::Searching(edge_sync_start(home, edition, Some(uid))),
    }
}

impl RegistrationView {
    /// Whether the registration is over.
    pub open spec fn over(self) -> bool {
        self.stage is Finished
    }

    /// Whether the session was entered.
    pub open spec fn written(self) -> bool {
        self.stage == RegistrationStageView::Finished(true)
    }

    /// What the registration needs next.
    pub open spec fn request(self) -> Option<RequestView> {
        match self.stage {
            RegistrationStageView::Searching(search) => search.request(),
            RegistrationStageView::Inserting(insert) => insert.request(),
            RegistrationStageView::Finished(_) => None,
        }
    }

    /// The registration with its search where `search` is.
    pub open spec fn with_search(self, search: EdgeSyncView) -> RegistrationView {
        RegistrationView {
            stage: if !search.over() {
                RegistrationStageView::Searching(search)
            } else {
                match search.found {
                    Some(db) => RegistrationStageView::Inserting(
                        mapping_start(db, self.cid, self.uid),
                    ),
                    None => RegistrationStageView::Finished(false),
                }
            },
            ..self
        }
    }

    /// The registration with its entry where `insert` is.
    pub open spec fn with_insert(self, insert: MappingView) -> RegistrationView {
        RegistrationView {
            stage: if insert.over() {
                RegistrationStageView::Finished(insert.written)
            } else {
                RegistrationStageView::Inserting(insert)
            },
            ..self
        }
    }

    /// The registration after `reply`.
    pub open spec fn advance(self, reply: ReplyView) -> RegistrationView {
        match self.stage {
            RegistrationStageView::Searching(search) => self.with_search(search.advance(reply)),
            RegistrationStageView::Inserting(insert) => self.with_insert(insert.advance(reply)),
            RegistrationStageView::Finished(_) => self,
        }
    }

    /// Where the registration searches, its search is well formed.
    pub open spec fn well_formed(self) -> bool {
        match self.stage {
            RegistrationStageView::Searching(search) => search.well_formed(),
            _ => true,
        }
    }

    /// How far the registration is from its end.
    pub open spec fn rank(self) -> nat {
        match self.stage {
            RegistrationStageView::Searching(search) => 5 + search.rank(),
            RegistrationStageView::Inserting(insert) => insert.rank(),
            RegistrationStageView::Finished(_) => 0,
        }
    }

    /// How many looks are left at this rank.
    pub open spec fn looks_left(self) -> int {
        match self.stage {
            RegistrationStageView::Searching(search) => search.looks_left(),
            _ => 0,
        }
    }

    /// The registration at its end, where `world` answers its requests.
    pub open spec fn settled(self, world: World) -> RegistrationView
        decreases self.rank(), self.looks_left(),
    {
        match self.request() {
            Some(request) if self.well_formed() => self.advance(world(request)).settled(world),
            _ => self,
        }
    }

    /// The changes that the registration asks for up to its end, where `world`
    /// answers.
    pub open spec fn changes(self, world: World) -> Seq<RequestView>
        decreases self.rank(), self.looks_left(),
    {
        match self.request() {
            Some(request) if self.well_formed() => {
                let later = self.advance(world(request)).changes(world);
                if request.writes() {
                    seq![request] + later
                } else {
                    later
                }
            },
            _ => Seq::empty(),
        }
    }
}

/// The registration of the session `new_cid`, which `target_uid` owns, with the
/// cloud of an edition. That it fails is not fatal.
pub fn register_edge_sync_mapping_for_edition(
    home: &FilePath,
    new_cid: &str,
    target_uid: &str,
    edition: SessionEdition,
) -> (res: Registration)
    ensures
        res@ == registration_start(home@, new_cid@, target_uid@, edition),
{
    Registration {
        cid: new_cid.to_string(),
        uid: target_uid.to_string(),
        stage: RegistrationStage::Searching(
            edge_sync_db_path_for_edition(home, edition, Some(target_uid)),
        ),
    }
}

impl Registration {
    /// Whether the registration is over.
    pub fn is_over(&self) -> (res: bool)
        ensures
            res == self@.over(),
    {
        matches!(self.stage, RegistrationStage::Finished(_))
    }

    /// Whether the session was entered.
    pub fn written(&self) -> (res: bool)
        ensures
            res == self@.written(),
    {
        match self.stage {
            RegistrationStage::Finished(written) => written,
            _ => false,
        }
    }

    /// What the registration needs next; nothing, where it is over.
    pub fn request(&self) -> (res: Option<Request>)
        ensures
            optional_request(res) == self@.request(),
    {
        match &self.stage {
            RegistrationStage::Searching(search) => search.request(),
            RegistrationStage::Inserting(insert) => insert.request(),
            RegistrationStage::Finished(_) => None,
        }
    }

    /// The registration after `reply`.
    pub fn advance(self, reply: Reply) -> (res: Registration)
        ensures
            res@ == self@.advance(reply@),
    {
        let Registration { cid, uid, stage } = self;
        let stage: RegistrationStage = match stage {
            RegistrationStage::Searching(search) => {
                let search: EdgeSyncSearch = search.advance(reply);
                if !search.is_over() {
                    RegistrationStage::Searching(search)
                } else {
                    match search.found() {
                        Some(db) => RegistrationStage::Inserting(
                            insert_edge_sync_mapping(db, cid.as_str(), uid.as_str()),
                        ),
                        None => RegistrationStage::Finished(false),
                    }
                }
            },
            RegistrationStage::Inserting(insert) => {
                let insert: MappingInsert = insert.advance(reply);
                if insert.is_over() {
                    RegistrationStage::Finished(insert.written())
                } else {
                    RegistrationStage::Inserting(insert)
                }
            },
            RegistrationStage::Finished(written) => RegistrationStage::Finished(written),
        };
        Registration { cid, uid, stage }
    }
}

} // verus!

use crate::edition::{answered, current_edition, probe, SessionEdition};
use crate::history::{find_project_jsonl_in_edition, history_start, HistorySearch, HistoryView};
use crate::io::{optional_request, Reply, ReplyView, Request, RequestView, World};
use crate::json::{entries_view, items_view, list, object, put, Json, JsonView};
use crate::layout::{db_path, workbuddy_db_path_for_edition};
use crate::path::{FilePath, PathView};
use crate::sql::{
    columns_of_query, columns_statement, is_one, rows_view, says_one, table_query, table_statement,
    values_view, SqlValue, SqlView, Statement, StatementView,
};
use crate::text::{optional_text, text_or_empty};
use crate::title::{display_title, session_display_title};
use crate::workspace::{is_claw, is_claw_workspace};
use vstd::prelude::*;

verus! {

/// A session as it is listed. A task of the side bar is a playground; any other
/// session belongs to the space that its working directory names.
pub struct SessionRow {
    pub id: String,
    pub title: String,
    pub cwd: String,
    pub updated_at: i64,
    pub is_playground: bool,
}

/// What a session as it is listed is.
#[verifier::ext_equal]
pub struct SessionRowView {
    pub id: Seq<char>,
    pub title: Seq<char>,
    pub cwd: Seq<char>,
    pub updated_at: i64,
    pub is_playground: bool,
}

impl View for SessionRow {
    type V = SessionRowView;

    open spec fn view(&self) -> SessionRowView {
        SessionRowView {
            id: self.id@,
            title: self.title@,
            cwd: self.cwd@,
            updated_at: self.updated_at,
            is_playground: self.is_playground,
        }
    }
}

/// The views of a list of sessions.
pub open spec fn session_rows_view(rows: Seq<SessionRow>) -> Seq<SessionRowView> {
    Seq::new(rows.len(), |i: int| rows[i]@)
}

/// What a value is as an optional text, where it can be one.
pub open spec fn text_cell(value: SqlView) -> Option<Option<Seq<char>>> {
    match value {
        SqlView::Null => Some(None),
        SqlView::Text(s) => Some(Some(s)),
        _ => None,
    }
}

/// What a value is as an optional number, where it can be one.
pub open spec fn number_cell(value: SqlView) -> Option<Option<i64>> {
    match value {
        SqlView::Null => Some(None),
        SqlView::Integer(n) => Some(Some(n)),
        _ => None,
    }
}

/// The number, or 0 where there is none.
pub open spec fn or_zero(number: Option<i64>) -> i64 {
    match number {
        Some(n) => n,
        None => 0,
    }
}

/// The session that a row of id, working directory, title, custom title, time and
/// playground mark is; none, where a value is of the wrong type.
pub open spec fn session_row(values: Seq<SqlView>) -> Option<SessionRowView> {
    if values.len() < 6 {
        None
    } else {
        match (
            text_cell(values[0]),
            text_cell(values[1]),
            text_cell(values[2]),
            text_cell(values[3]),
            number_cell(values[4]),
            number_cell(values[5]),
        ) {
            (
                Some(id),
                Some(cwd),
                Some(title),
                Some(custom_title),
                Some(updated_at),
                Some(is_playground),
            ) => Some(
                SessionRowView {
                    id: text_or_empty(id),
                    title: display_title(title, custom_title),
                    cwd: text_or_empty(cwd),
                    updated_at: or_zero(updated_at),
                    is_playground: or_zero(is_playground) != 0,
                },
            ),
            _ => None,
        }
    }
}

/// The sessions among `rows` that are listed, in their order: those that can be
/// read and are not of a Claw workspace.
pub open spec fn visible_rows(rows: Seq<Seq<SqlView>>) -> Seq<SessionRowView>
    decreases rows.len(),
{
    if rows.len() == 0 {
        Seq::empty()
    } else {
        let before = visible_rows(rows.drop_last());
        match session_row(rows.last()) {
            Some(row) => if is_claw(row.cwd) {
                before
            } else {
                before.push(row)
            },
            None => before,
        }
    }
}

impl SessionRowView {
    /// The session as a JSON object.
    pub open spec fn json(self, has_history: bool) -> JsonView {
        JsonView::Object(
            seq![
                ("id"@, JsonView::Text(self.id)),
                ("title"@, JsonView::Text(self.title)),
                ("cwd"@, JsonView::Text(self.cwd)),
                ("updatedAt"@, JsonView::Integer(self.updated_at as int)),
                ("hasHistory"@, JsonView::Bool(has_history)),
                ("isPlayground"@, JsonView::Bool(self.is_playground)),
            ],
        )
    }
}

impl SessionRow {
    /// The session as a JSON object.
    pub fn json(&self, has_history: bool) -> (res: Json)
        ensures
            res@ == self@.json(has_history),
    {
        let mut entries: Vec<(String, Json)> = Vec::new();
        put(&mut entries, "id", Json::Text(self.id.clone()));
        put(&mut entries, "title", Json::Text(self.title.clone()));
        put(&mut entries, "cwd", Json::Text(self.cwd.clone()));
        put(&mut entries, "updatedAt", Json::Integer(self.updated_at));
        put(&mut entries, "hasHistory", Json::Bool(has_history));
        put(&mut entries, "isPlayground", Json::Bool(self.is_playground));
        assert(entries_view(entries@) =~= self@.json(has_history)->Object_0);
        object(entries)
    }
}

/// What a value is as an optional text, where it can be one.
fn read_text(value: &SqlValue) -> (res: Option<Option<String>>)
    ensures
        match res {
            Some(text) => text_cell(value@) == Some(optional_text(text)),
            None => text_cell(value@) is None,
        },
{
    match value {
        SqlValue::Null => Some(None),
        SqlValue::Text(s) => Some(Some(s.clone())),
        _ => None,
    }
}

/// What a value is as an optional number, where it can be one.
fn read_number(value: &SqlValue) -> (res: Option<Option<i64>>)
    ensures
        res == number_cell(value@),
{
    match value {
        SqlValue::Null => Some(None),
        SqlValue::Integer(n) => Some(Some(*n)),
        _ => None,
    }
}

/// The session that a row is.
pub fn read_session_row(values: &Vec<SqlValue>) -> (res: Option<SessionRow>)
    ensures
        match res {
            Some(row) => session_row(values_view(values@)) == Some(row@),
            None => session_row(values_view(values@)) is None,
        },
{
    if values.len() < 6 {
        return None;
    }
    match (
        read_text(&values[0]),
        read_text(&values[1]),
        read_text(&values[2]),
        read_text(&values[3]),
        read_number(&values[4]),
        read_number(&values[5]),
    ) {
        (
            Some(id),
            Some(cwd),
            Some(title),
            Some(custom_title),
            Some(updated_at),
            Some(is_playground),
        ) => {
            let id: String = match id {
                Some(s) => s,
                None => String::new(),
            };
            let cwd: String = match cwd {
                Some(s) => s,
                None => String::new(),
            };
            Some(
                SessionRow {
                    id,
                    title: session_display_title(title, custom_title),
                    cwd,
                    updated_at: updated_at.unwrap_or(0),
                    is_playground: is_playground.unwrap_or(0) != 0,
                },
            )
        },
        _ => None,
    }
}

/// The sessions among `rows` that are listed.
pub fn read_visible_rows(rows: &Vec<Vec<SqlValue>>) -> (res: Vec<SessionRow>)
    ensures
        session_rows_view(res@) == visible_rows(rows_view(rows@)),
{
    let ghost all = rows_view(rows@);
    let mut res: Vec<SessionRow> = Vec::new();
    let mut i: usize = 0;
    assert(session_rows_view(res@) =~= visible_rows(all.take(0)));
    while i < rows.len()
        invariant
            i <= rows.len(),
            all == rows_view(rows@),
            session_rows_view(res@) == visible_rows(all.take(i as int)),
        decreases rows.len() - i,
    {
        let ghost longer = all.take(i + 1);
        let ghost before = session_rows_view(res@);
        assert(longer.drop_last() == all.take(i as int));
        assert(longer.last() == values_view(rows@[i as int]@));
        match read_session_row(&rows[i]) {
            Some(row) => {
                if !is_claw_workspace(row.cwd.as_str()) {
                    res.push(row);
                    assert(session_rows_view(res@) =~= before.push(row@));
                }
            },
            None => {},
        }
        i += 1;
    }
    assert(all.take(all.len() as int) == all);
    res
}

/// The query for the sessions of a user that are not deleted, the latest first.
/// A column that the table does not have is replaced by a constant.
pub open spec fn sessions_sql(has_custom: bool, has_playground: bool) -> Seq<char> {
    match (has_custom, has_playground) {
        (true, true) =>
            "SELECT id, cwd, title, custom_title, updated_at, is_playground FROM sessions WHERE user_id = ?1 AND deleted_at IS NULL ORDER BY updated_at DESC"@,
        (true, false) =>
            "SELECT id, cwd, title, custom_title, updated_at, 0 FROM sessions WHERE user_id = ?1 AND deleted_at IS NULL ORDER BY updated_at DESC"@,
        (false, true) =>
            "SELECT id, cwd, title, NULL, updated_at, is_playground FROM sessions WHERE user_id = ?1 AND deleted_at IS NULL ORDER BY updated_at DESC"@,
        (false, false) =>
            "SELECT id, cwd, title, NULL, updated_at, 0 FROM sessions WHERE user_id = ?1 AND deleted_at IS NULL ORDER BY updated_at DESC"@,
    }
}

/// The query for the sessions of a user.
pub open spec fn sessions_query(
    db: PathView,
    uid: Seq<char>,
    has_custom: bool,
    has_playground: bool,
) -> StatementView {
    StatementView {
        db,
        read_only: true,
        sql: sessions_sql(has_custom, has_playground),
        params: seq![SqlView::Text(uid)],
    }
}

fn sessions_statement(db: FilePath, uid: &str, has_custom: bool, has_playground: bool) -> (res:
    Statement)
    ensures
        res@ == sessions_query(db@, uid@, has_custom, has_playground),
{
    let sql: &str = match (has_custom, has_playground) {
        (true, true) =>
            "SELECT id, cwd, title, custom_title, updated_at, is_playground FROM sessions WHERE user_id = ?1 AND deleted_at IS NULL ORDER BY updated_at DESC",
        (true, false) =>
            "SELECT id, cwd, title, custom_title, updated_at, 0 FROM sessions WHERE user_id = ?1 AND deleted_at IS NULL ORDER BY updated_at DESC",
        (false, true) =>
            "SELECT id, cwd, title, NULL, updated_at, is_playground FROM sessions WHERE user_id = ?1 AND deleted_at IS NULL ORDER BY updated_at DESC",
        (false, false) =>
            "SELECT id, cwd, title, NULL, updated_at, 0 FROM sessions WHERE user_id = ?1 AND deleted_at IS NULL ORDER BY updated_at DESC",
    };
    let mut params: Vec<SqlValue> = Vec::new();
    params.push(SqlValue::Text(uid.to_string()));
    assert(values_view(params@) =~= seq![SqlView::Text(uid@)]);
    Statement { db, read_only: true, sql: sql.to_string(), params }
}

/// Where the listing of sessions stands.
#[derive(Clone, Copy, Debug, PartialEq, Eq, Structural)]
pub enum ListingPhase {
    /// Is there a database?
    Database,
    /// Does it have sessions?
    Table,
    /// Do they have custom titles?
    CustomTitle,
    /// Do they have playground marks?
    Playground,
    /// What are the sessions of the user?
    Rows,
    /// Does the session at the index have a transcript?
    History,
    Finished,
}

/// The listing of the sessions of a user in an edition.
pub struct SessionListing {
    home: FilePath,
    uid: String,
    edition: SessionEdition,
    phase: ListingPhase,
    has_custom: bool,
    has_playground: bool,
    rows: Vec<SessionRow>,
    index: usize,
    search: Option<HistorySearch>,
    entries: Vec<Json>,
}

/// What the listing of the sessions of a user is.
#[verifier::ext_equal]
pub struct ListingView {
    pub home: PathView,
    pub uid: Seq<char>,
    pub edition: SessionEdition,
    pub phase: ListingPhase,
    pub has_custom: bool,
    pub has_playground: bool,
    pub rows: Seq<SessionRowView>,
    pub index: int,
    pub search: Option<HistoryView>,
    pub entries: Seq<JsonView>,
}

impl View for SessionListing {
    type V = ListingView;

    closed spec fn view(&self) -> ListingView {
        ListingView {
            home: self.home@,
            uid: self.uid@,
            edition: self.edition,
            phase: self.phase,
            has_custom: self.has_custom,
            has_playground: self.has_playground,
            rows: session_rows_view(self.rows@),
            index: self.index as int,
            search: match self.search {
                Some(search) => Some(search@),
                None => None,
            },
            entries: items_view(self.entries@),
        }
    }
}

/// The listing, before anything is asked.
pub open spec fn listing_start(
    home: PathView,
    uid: Seq<char>,
    edition: SessionEdition,
) -> ListingView {
    ListingView {
        home,
        uid,
        edition,
        phase: ListingPhase::Database,
        has_custom: false,
        has_playground: false,
        rows: Seq::empty(),
        index: 0,
        search: None,
        entries: Seq::empty(),
    }
}

impl ListingView {
    /// Where the listing looks for a transcript, there is a session and a search.
    pub open spec fn well_formed(self) -> bool {
        self.phase == ListingPhase::History ==> {
            &&& 0 <= self.index < self.rows.len()
            &&& self.search is Some
        }
    }

    /// The listing is well formed, and where it searches so is its search.
    pub open spec fn searchable(self) -> bool {
        &&& self.well_formed()
        &&& self.phase == ListingPhase::History ==> self.search->0.well_formed()
    }

    /// Whether the listing is over.
    pub open spec fn over(self) -> bool {
        self.phase == ListingPhase::Finished
    }

    /// What the listing has to know next.
    pub open spec fn request(self) -> Option<RequestView> {
        let db = db_path(self.home, self.edition);
        match self.phase {
            ListingPhase::Database => Some(RequestView::IsFile(db)),
            ListingPhase::Table => Some(RequestView::Query(table_query(db, true, "sessions"@))),
            ListingPhase::CustomTitle => Some(RequestView::Query(columns_of_query(db, "sessions"@))),
            ListingPhase::Playground => Some(RequestView::Query(columns_of_query(db, "sessions"@))),
            ListingPhase::Rows => Some(
                RequestView::Query(
                    sessions_query(db, self.uid, self.has_custom, self.has_playground),
                ),
            ),
            ListingPhase::History => self.search->0.request(),
            ListingPhase::Finished => None,
        }
    }

    /// The listing in another phase.
    pub open spec fn at(self, phase: ListingPhase) -> ListingView {
        ListingView { phase, ..self }
    }

    /// The listing with the sessions from `index` on before it.
    pub open spec fn at_row(self, index: int) -> ListingView {
        if index < self.rows.len() {
            ListingView {
                phase: ListingPhase::History,
                index,
                search: Some(history_start(self.home, self.rows[index].id, self.edition)),
                ..self
            }
        } else {
            ListingView { phase: ListingPhase::Finished, index, search: None, ..self }
        }
    }

    /// The listing with its search where `search` is.
    pub open spec fn with_search(self, search: HistoryView) -> ListingView {
        if search.over() {
            ListingView {
                entries: self.entries.push(self.rows[self.index].json(search.found is Some)),
                ..self
            }.at_row(self.index + 1)
        } else {
            ListingView { search: Some(search), ..self }
        }
    }

    /// The listing after `reply`.
    pub open spec fn advance(self, reply: ReplyView) -> ListingView {
        match self.phase {
            ListingPhase::Database => if reply.yes() {
                self.at(ListingPhase::Table)
            } else {
                self.at(ListingPhase::Finished)
            },
            ListingPhase::Table => if is_one(reply.first_value()) {
                self.at(ListingPhase::CustomTitle)
            } else {
                self.at(ListingPhase::Finished)
            },
            ListingPhase::CustomTitle => ListingView {
                phase: ListingPhase::Playground,
                has_custom: reply.names_column("custom_title"@),
                ..self
            },
            ListingPhase::Playground => ListingView {
                phase: ListingPhase::Rows,
                has_playground: reply.names_column("is_playground"@),
                ..self
            },
            ListingPhase::Rows => match reply {
                ReplyView::Rows(found) => ListingView {
                    rows: visible_rows(found.rows),
                    ..self
                }.at_row(0),
                _ => self.at(ListingPhase::Finished),
            },
            ListingPhase::History => self.with_search(self.search->0.advance(reply)),
            ListingPhase::Finished => self,
        }
    }

    /// The listing after all of `replies`.
    pub open spec fn after(self, replies: Seq<ReplyView>) -> ListingView
        decreases replies.len(),
    {
        if replies.len() == 0 {
            self
        } else {
            self.after(replies.drop_last()).advance(replies.last())
        }
    }

    /// How far the listing is from its end: each phase is below the one before it.
    pub open spec fn rank(self) -> nat {
        match self.phase {
            ListingPhase::Database => 6,
            ListingPhase::Table => 5,
            ListingPhase::CustomTitle => 4,
            ListingPhase::Playground => 3,
            ListingPhase::Rows => 2,
            ListingPhase::History => 1,
            ListingPhase::Finished => 0,
        }
    }

    /// How many sessions are left.
    pub open spec fn rows_left(self) -> int {
        self.rows.len() - self.index
    }

    /// How far the search for a transcript is from its end.
    pub open spec fn search_rank(self) -> nat {
        match self.search {
            Some(search) => search.rank(),
            None => 0,
        }
    }

    /// How many looks are left in the search.
    pub open spec fn looks_left(self) -> int {
        match self.search {
            Some(search) => search.looks_left(),
            None => 0,
        }
    }

    /// The listing at its end, where `world` answers its requests.
    pub open spec fn settled(self, world: World) -> ListingView
        decreases self.rank(), self.rows_left(), self.search_rank(), self.looks_left(),
    {
        match self.request() {
            Some(request) if self.searchable() => self.advance(world(request)).settled(world),
            _ => self,
        }
    }
}

/// The listing of the sessions of a user in an edition that are not deleted.
pub fn list_sessions_for_user_in_edition(home: &FilePath, uid: &str, edition: SessionEdition) -> (res:
    SessionListing)
    ensures
        res@ == listing_start(home@, uid@, edition),
{
    let rows: Vec<SessionRow> = Vec::new();
    let entries: Vec<Json> = Vec::new();
    assert(session_rows_view(rows@) =~= Seq::empty());
    assert(items_view(entries@) =~= Seq::empty());
    SessionListing {
        home: home.clone(),
        uid: uid.to_string(),
        edition,
        phase: ListingPhase::Database,
        has_custom: false,
        has_playground: false,
        rows,
        index: 0,
        search: None,
        entries,
    }
}

/// The listing of the sessions of a user in the edition that is signed in.
pub fn list_sessions_for_user<F: Fn(&Json) -> bool>(
    home: &FilePath,
    auth: Option<&Json>,
    is_ai: &F,
    uid: &str,
) -> (res: SessionListing)
    requires
        forall|value: &Json| call_requires(is_ai, (value,)),
    ensures
        match auth {
            Some(root) => answered(is_ai, probe(root@), res@.edition == SessionEdition::Ai),
            None => res@.edition == SessionEdition::Cn,
        },
        res@ == listing_start(home@, uid@, res@.edition),
{
    list_sessions_for_user_in_edition(home, uid, current_edition(auth, is_ai))
}

impl SessionListing {
    #[verifier::type_invariant]
    spec fn inv(self) -> bool {
        self@.well_formed()
    }

    /// Whether the listing is over.
    pub fn is_over(&self) -> (res: bool)
        ensures
            res == self@.over(),
    {
        matches!(self.phase, ListingPhase::Finished)
    }

    /// Whether no session has been listed.
    pub fn is_empty(&self) -> (res: bool)
        ensures
            res == (self@.entries.len() == 0),
    {
        self.entries.len() == 0
    }

    /// The sessions that have been listed, as a JSON list.
    pub fn into_json(self) -> (res: Json)
        ensures
            res@ == JsonView::List(self@.entries),
    {
        list(self.entries)
    }

    /// What the listing has to know next; nothing, where it is over.
    pub fn request(&self) -> (res: Option<Request>)
        ensures
            optional_request(res) == self@.request(),
    {
        proof {
            use_type_invariant(self);
        }
        let db: FilePath = workbuddy_db_path_for_edition(&self.home, self.edition);
        match self.phase {
            ListingPhase::Database => Some(Request::IsFile(db)),
            ListingPhase::Table => Some(Request::Query(table_statement(&db, true, "sessions"))),
            ListingPhase::CustomTitle => Some(Request::Query(columns_statement(&db, "sessions"))),
            ListingPhase::Playground => Some(Request::Query(columns_statement(&db, "sessions"))),
            ListingPhase::Rows => Some(
                Request::Query(
                    sessions_statement(db, self.uid.as_str(), self.has_custom, self.has_playground),
                ),
            ),
            ListingPhase::History => match &self.search {
                Some(search) => search.request(),
                None => None,
            },
            ListingPhase::Finished => None,
        }
    }

    /// The listing with the sessions from `index` on before it.
    fn at_row(self, index: usize) -> (res: SessionListing)
        ensures
            res@ == self@.at_row(index as int),
    {
        if index < self.rows.len() {
            let search: HistorySearch = find_project_jsonl_in_edition(
                &self.home,
                self.rows[index].id.as_str(),
                self.edition,
            );
            SessionListing { phase: ListingPhase::History, index, search: Some(search), ..self }
        } else {
            SessionListing { phase: ListingPhase::Finished, index, search: None, ..self }
        }
    }

    fn at(self, phase: ListingPhase) -> (res: SessionListing)
        requires
            phase != ListingPhase::History,
        ensures
            res@ == self@.at(phase),
    {
        SessionListing { phase, ..self }
    }

    /// The listing after `reply`.
    pub fn advance(self, reply: Reply) -> (res: SessionListing)
        ensures
            res@ == self@.advance(reply@),
    {
        proof {
            use_type_invariant(&self);
        }
        match self.phase {
            ListingPhase::Database => if reply.yes() {
                self.at(ListingPhase::Table)
            } else {
                self.at(ListingPhase::Finished)
            },
            ListingPhase::Table => if says_one(reply.first_value()) {
                self.at(ListingPhase::CustomTitle)
            } else {
                self.at(ListingPhase::Finished)
            },
            ListingPhase::CustomTitle => SessionListing {
                phase: ListingPhase::Playground,
                has_custom: reply.names_column("custom_title"),
                ..self
            },
            ListingPhase::Playground => SessionListing {
                phase: ListingPhase::Rows,
                has_playground: reply.names_column("is_playground"),
                ..self
            },
            ListingPhase::Rows => match reply {
                Reply::Rows(found) => {
                    let rows: Vec<SessionRow> = read_visible_rows(&found.rows);
                    SessionListing { rows, ..self }.at_row(0)
                },
                _ => self.at(ListingPhase::Finished),
            },
            ListingPhase::History => {
                let SessionListing {
                    home,
                    uid,
                    edition,
                    phase,
                    has_custom,
                    has_playground,
                    rows,
                    index,
                    search,
                    entries,
                } = self;
                match search {
                    Some(search) => {
                        let search: HistorySearch = search.advance(reply);
                        if search.is_over() {
                            assert(index < rows.len());
                            let ghost before = items_view(entries@);
                            let entry: Json = rows[index].json(search.found().is_some());
                            let mut entries: Vec<Json> = entries;
                            entries.push(entry);
                            assert(items_view(entries@) =~= before.push(entry@));
                            SessionListing {
                                home,
                                uid,
                                edition,
                                phase: ListingPhase::Finished,
                                has_custom,
                                has_playground,
                                rows,
                                index,
                                search: None,
                                entries,
                            }.at_row(index + 1)
                        } else {
                            SessionListing {
                                home,
                                uid,
                                edition,
                                phase,
                                has_custom,
                                has_playground,
                                rows,
                                index,
                                search: Some(search),
                                entries,
                            }
                        }
                    },
                    None => SessionListing {
                        home,
                        uid,
                        edition,
                        phase,
                        has_custom,
                        has_playground,
                        rows,
                        index,
                        search,
                        entries,
                    },
                }
            },
            ListingPhase::Finished => self,
        }
    }
}

} // verus!

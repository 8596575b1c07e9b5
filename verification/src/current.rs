use crate::edition::{
    answered, auth_uid, current_session_context, probe, SessionContext, SessionEdition,
};
use crate::io::{optional_request, Reply, ReplyView, Request, RequestView, World};
use crate::json::{entries_view, items_view, list, object, put, Json, JsonView};
use crate::layout::{db_path, workbuddy_db_path_for_edition};
use crate::listing::{list_sessions_for_user_in_edition, listing_start, ListingView, SessionListing};
use crate::path::{FilePath, PathView};
use crate::text::text_or_empty;
use vstd::prelude::*;

verus! {

/// The short name of an edition.
pub open spec fn edition_name(edition: SessionEdition) -> Seq<char> {
    match edition {
        SessionEdition::Ai => "ai"@,
        SessionEdition::Cn => "cn"@,
    }
}

/// Why a list of sessions is as it is: it tells a user without sessions from a
/// database that is not where it was looked for.
pub open spec fn listing_reason(is_file: bool, sessions: Seq<JsonView>) -> Seq<char> {
    if !is_file {
        "database_missing"@
    } else if sessions.len() == 0 {
        "no_sessions_for_uid"@
    } else {
        "ok"@
    }
}

/// The field that says why a list of sessions is as it is.
pub open spec fn diagnostics(reason: Seq<char>) -> (Seq<char>, JsonView) {
    ("diagnostics"@, JsonView::Object(seq![("reason"@, JsonView::Text(reason))]))
}

/// The report where nobody is signed in.
pub open spec fn no_account_report() -> JsonView {
    JsonView::Object(
        seq![
            ("sessions"@, JsonView::List(Seq::empty())),
            ("current"@, JsonView::Null),
            diagnostics("missing_current_account"@),
        ],
    )
}

/// The report on the sessions of the account that is signed in.
pub open spec fn current_report(
    uid: Seq<char>,
    edition: SessionEdition,
    sessions: Seq<JsonView>,
    is_file: bool,
    db_text: Seq<char>,
) -> JsonView {
    JsonView::Object(
        seq![
            ("sessions"@, JsonView::List(sessions)),
            ("current"@, JsonView::Text(uid)),
            ("edition"@, JsonView::Text(edition_name(edition))),
            ("dbPath"@, JsonView::Text(db_text)),
            diagnostics(listing_reason(is_file, sessions)),
        ],
    )
}

/// The field that says why a list of sessions is as it is.
fn diagnostics_value(reason: &str) -> (res: Json)
    ensures
        res@ == diagnostics(reason@).1,
{
    let mut entries: Vec<(String, Json)> = Vec::new();
    put(&mut entries, "reason", Json::Text(reason.to_string()));
    assert(entries_view(entries@) =~= seq![("reason"@, JsonView::Text(reason@))]);
    object(entries)
}

/// The report where nobody is signed in.
pub fn no_account_json() -> (res: Json)
    ensures
        res@ == no_account_report(),
{
    let sessions: Vec<Json> = Vec::new();
    assert(items_view(sessions@) =~= Seq::empty());
    let mut entries: Vec<(String, Json)> = Vec::new();
    put(&mut entries, "sessions", list(sessions));
    put(&mut entries, "current", Json::Null);
    put(&mut entries, "diagnostics", diagnostics_value("missing_current_account"));
    assert(entries_view(entries@) =~= no_account_report()->Object_0);
    object(entries)
}

/// The report on the sessions of the account that is signed in.
pub fn current_json(
    uid: &str,
    edition: SessionEdition,
    sessions: SessionListing,
    is_file: bool,
    db_text: String,
) -> (res: Json)
    ensures
        res@ == current_report(uid@, edition, sessions@.entries, is_file, db_text@),
{
    let ghost listed = sessions@.entries;
    let reason: &str = if !is_file {
        "database_missing"
    } else if sessions.is_empty() {
        "no_sessions_for_uid"
    } else {
        "ok"
    };
    let name: &str = if edition.is_international() {
        "ai"
    } else {
        "cn"
    };
    let mut entries: Vec<(String, Json)> = Vec::new();
    put(&mut entries, "sessions", sessions.into_json());
    put(&mut entries, "current", Json::Text(uid.to_string()));
    put(&mut entries, "edition", Json::Text(name.to_string()));
    put(&mut entries, "dbPath", Json::Text(db_text));
    put(&mut entries, "diagnostics", diagnostics_value(reason));
    assert(entries_view(entries@) =~= current_report(
        uid@,
        edition,
        listed,
        is_file,
        db_text@,
    )->Object_0);
    object(entries)
}

/// Where the report on the current sessions stands.
pub enum CurrentStage {
    /// What sessions are there?
    List(SessionListing),
    /// Is there a database?
    Database(SessionListing),
    /// How is its path shown?
    PathText(SessionListing, bool),
    Finished(Json),
}

/// What the stage of the report on the current sessions is.
#[verifier::ext_equal]
pub enum CurrentStageView {
    List(ListingView),
    Database(ListingView),
    PathText(ListingView, bool),
    Finished(JsonView),
}

/// The report on the sessions of the account that is signed in.
pub struct CurrentSessions {
    home: FilePath,
    uid: String,
    edition: SessionEdition,
    stage: CurrentStage,
}

/// What the report on the current sessions is.
#[verifier::ext_equal]
pub struct CurrentView {
    pub home: PathView,
    pub uid: Seq<char>,
    pub edition: SessionEdition,
    pub stage: CurrentStageView,
}

impl View for CurrentSessions {
    type V = CurrentView;

    closed spec fn view(&self) -> CurrentView {
        CurrentView {
            home: self.home@,
            uid: self.uid@,
            edition: self.edition,
            stage: match self.stage {
                CurrentStage::List(listing) => CurrentStageView::List(listing@),
                CurrentStage::Database(listing) => CurrentStageView::Database(listing@),
                CurrentStage::PathText(listing, is_file) => CurrentStageView::PathText(
                    listing@,
                    is_file,
                ),
                CurrentStage::Finished(report) => CurrentStageView::Finished(report@),
            },
        }
    }
}

/// The report for an account, before anything is asked.
pub open spec fn current_start(
    home: PathView,
    uid: Seq<char>,
    edition: SessionEdition,
) -> CurrentView {
    CurrentView {
        home,
        uid,
        edition,
        stage: CurrentStageView::List(listing_start(home, uid, edition)),
    }
}

impl CurrentView {
    /// Whether the report is done.
    pub open spec fn over(self) -> bool {
        self.stage is Finished
    }

    /// What the report needs next.
    pub open spec fn request(self) -> Option<RequestView> {
        let db = db_path(self.home, self.edition);
        match self.stage {
            CurrentStageView::List(listing) => listing.request(),
            CurrentStageView::Database(listing) => Some(RequestView::IsFile(db)),
            CurrentStageView::PathText(listing, is_file) => Some(RequestView::PathText(db)),
            CurrentStageView::Finished(_) => None,
        }
    }

    /// The report at another stage.
    pub open spec fn at(self, stage: CurrentStageView) -> CurrentView {
        CurrentView { stage, ..self }
    }

    /// The report with its listing where `listing` is.
    pub open spec fn with_listing(self, listing: ListingView) -> CurrentView {
        if listing.over() {
            self.at(CurrentStageView::Database(listing))
        } else {
            self.at(CurrentStageView::List(listing))
        }
    }

    /// The report after `reply`.
    pub open spec fn advance(self, reply: ReplyView) -> CurrentView {
        match self.stage {
            CurrentStageView::List(listing) => self.with_listing(listing.advance(reply)),
            CurrentStageView::Database(listing) => self.at(
                CurrentStageView::PathText(listing, reply.yes()),
            ),
            CurrentStageView::PathText(listing, is_file) => self.at(
                CurrentStageView::Finished(
                    current_report(
                        self.uid,
                        self.edition,
                        listing.entries,
                        is_file,
                        text_or_empty(reply.text()),
                    ),
                ),
            ),
            CurrentStageView::Finished(_) => self,
        }
    }

    /// The report after all of `replies`.
    pub open spec fn after(self, replies: Seq<ReplyView>) -> CurrentView
        decreases replies.len(),
    {
        if replies.len() == 0 {
            self
        } else {
            self.after(replies.drop_last()).advance(replies.last())
        }
    }

    /// How many stages are left.
    pub open spec fn stages_left(self) -> nat {
        match self.stage {
            CurrentStageView::List(_) => 3,
            CurrentStageView::Database(_) => 2,
            CurrentStageView::PathText(_, _) => 1,
            CurrentStageView::Finished(_) => 0,
        }
    }

    /// How far the listing is from its end.
    pub open spec fn listing_left(self) -> (nat, int, nat, int) {
        match self.stage {
            CurrentStageView::List(listing) => (
                listing.rank(),
                listing.rows_left(),
                listing.search_rank(),
                listing.looks_left(),
            ),
            _ => (0, 0, 0, 0),
        }
    }

    /// The report at its end, where `world` answers its requests.
    pub open spec fn settled(self, world: World) -> CurrentView
        decreases
            self.stages_left(),
            self.listing_left().0,
            self.listing_left().1,
            self.listing_left().2,
            self.listing_left().3,
    {
        match self.request() {
            Some(request) if (self.stage matches CurrentStageView::List(listing)
                ==> listing.searchable()) => self.advance(world(request)).settled(world),
            _ => self,
        }
    }
}

/// The report on the sessions of the account that is signed in, where `auth` is
/// the sign-in file if it can be read.
pub fn list_current_sessions<F: Fn(&Json) -> bool>(
    home: &FilePath,
    auth: Option<&Json>,
    is_ai: &F,
) -> (res: CurrentSessions)
    requires
        forall|value: &Json| call_requires(is_ai, (value,)),
    ensures
        match auth {
            Some(root) => match auth_uid(root@) {
                Some(uid) => {
                    &&& res@ == current_start(home@, uid, res@.edition)
                    &&& answered(is_ai, probe(root@), res@.edition == SessionEdition::Ai)
                },
                None => res@.stage == CurrentStageView::Finished(no_account_report()),
            },
            None => res@.stage == CurrentStageView::Finished(no_account_report()),
        },
{
    match current_session_context(auth, is_ai) {
        Some(context) => {
            let SessionContext { uid, edition } = context;
            let listing: SessionListing = list_sessions_for_user_in_edition(
                home,
                uid.as_str(),
                edition,
            );
            CurrentSessions { home: home.clone(), uid, edition, stage: CurrentStage::List(listing) }
        },
        None => CurrentSessions {
            home: home.clone(),
            uid: String::new(),
            edition: SessionEdition::Cn,
            stage: CurrentStage::Finished(no_account_json()),
        },
    }
}

impl CurrentSessions {
    /// Whether the report is done.
    pub fn is_over(&self) -> (res: bool)
        ensures
            res == self@.over(),
    {
        matches!(self.stage, CurrentStage::Finished(_))
    }

    /// The report, where it is done.
    pub fn report(self) -> (res: Option<Json>)
        ensures
            match res {
                Some(report) => self@.stage == CurrentStageView::Finished(report@),
                None => !self@.over(),
            },
    {
        match self.stage {
            CurrentStage::Finished(report) => Some(report),
            _ => None,
        }
    }

    /// What the report needs next; nothing, where it is done.
    pub fn request(&self) -> (res: Option<Request>)
        ensures
            optional_request(res) == self@.request(),
    {
        match &self.stage {
            CurrentStage::List(listing) => listing.request(),
            CurrentStage::Database(_) => Some(
                Request::IsFile(workbuddy_db_path_for_edition(&self.home, self.edition)),
            ),
            CurrentStage::PathText(_, _) => Some(
                Request::PathText(workbuddy_db_path_for_edition(&self.home, self.edition)),
            ),
            CurrentStage::Finished(_) => None,
        }
    }

    /// The report after `reply`.
    pub fn advance(self, reply: Reply) -> (res: CurrentSessions)
        ensures
            res@ == self@.advance(reply@),
    {
        let CurrentSessions { home, uid, edition, stage } = self;
        let stage: CurrentStage = match stage {
            CurrentStage::List(listing) => {
                let listing: SessionListing = listing.advance(reply);
                if listing.is_over() {
                    CurrentStage::Database(listing)
                } else {
                    CurrentStage::List(listing)
                }
            },
            CurrentStage::Database(listing) => CurrentStage::PathText(listing, reply.yes()),
            CurrentStage::PathText(listing, is_file) => CurrentStage::Finished(
                current_json(uid.as_str(), edition, listing, is_file, reply.text_or_empty()),
            ),
            CurrentStage::Finished(report) => CurrentStage::Finished(report),
        };
        CurrentSessions { home, uid, edition, stage }
    }
}

} // verus!

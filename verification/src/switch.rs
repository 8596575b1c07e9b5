use crate::copy::{
    copy_start, CopyJob, CopyOrder, CopyOrderView, CopyReportView, CopyStageView, CopyView,
};
use crate::edition::{
    answered, auth_uid, current_session_context, edition_for_account, probe, SessionContext,
    SessionEdition,
};
use crate::io::{optional_request, Reply, ReplyView, Request, RequestView, World};
use crate::json::{as_text, entries_view, items_view, list, object, put, text_in, Json, JsonView};
use crate::layout::{db_path, workbuddy_db_path_for_edition};
use crate::path::{FilePath, PathView};
use crate::session_id::{is_session_id, new_session_id};
use crate::text::{same_text, text_or_empty, texts};
use crate::title::nonempty;
use vstd::prelude::*;
use vstd::string::*;

verus! {

/// The user id of an account, without the white space around it.
pub open spec fn account_uid(account: JsonView) -> Option<Seq<char>> {
    nonempty(text_in(account.field("uid"@)))
}

/// What is said where the target account has no data directory.
pub open spec fn no_target_message(db_text: Seq<char>) -> Seq<char> {
    "目标账号数据目录不存在: "@ + db_text
}

/// An error that concerns no session in particular.
pub open spec fn general_error(message: Seq<char>) -> JsonView {
    JsonView::Object(seq![("error"@, JsonView::Text(message))])
}

/// The error that kept a session from being copied.
pub open spec fn session_error(cid: Seq<char>, message: Seq<char>) -> JsonView {
    JsonView::Object(seq![("id"@, JsonView::Text(cid)), ("error"@, JsonView::Text(message))])
}

fn general_error_json(message: String) -> (res: Json)
    ensures
        res@ == general_error(message@),
{
    let mut entries: Vec<(String, Json)> = Vec::new();
    put(&mut entries, "error", Json::Text(message));
    assert(entries_view(entries@) =~= general_error(message@)->Object_0);
    object(entries)
}

fn session_error_json(cid: &str, message: String) -> (res: Json)
    ensures
        res@ == session_error(cid@, message@),
{
    let mut entries: Vec<(String, Json)> = Vec::new();
    put(&mut entries, "id", Json::Text(cid.to_string()));
    put(&mut entries, "error", Json::Text(message));
    assert(entries_view(entries@) =~= session_error(cid@, message@)->Object_0);
    object(entries)
}

/// Appends to a list of JSON values.
fn append(items: Vec<Json>, item: Json) -> (res: Vec<Json>)
    ensures
        items_view(res@) == items_view(items@).push(item@),
{
    let ghost before = items_view(items@);
    let mut res: Vec<Json> = items;
    res.push(item);
    assert(items_view(res@) =~= before.push(item@));
    res
}

/// Where the copying of the sessions stands.
pub enum SwitchStage {
    /// Does the target account have a database?
    Database,
    /// How is the path of the missing database shown?
    PathText,
    /// Copy the session at the index.
    Copy(CopyJob),
    Finished,
}

/// What the stage of the copying of the sessions is.
#[verifier::ext_equal]
pub enum SwitchStageView {
    Database,
    PathText,
    Copy(CopyView),
    Finished,
}

/// Which sessions are copied, from whom to whom, and where everything is.
pub struct SwitchOrder {
    pub home: FilePath,
    pub backup_dir: FilePath,
    pub source_uid: String,
    pub target_uid: String,
    pub source_edition: SessionEdition,
    pub target_edition: SessionEdition,
    /// The sessions to copy.
    pub ids: Vec<String>,
    /// The ids of their copies, once there are as many as there are sessions.
    pub new_ids: Vec<String>,
}

/// What an order to copy sessions is.
#[verifier::ext_equal]
pub struct SwitchOrderView {
    pub home: PathView,
    pub backup_dir: PathView,
    pub source_uid: Seq<char>,
    pub target_uid: Seq<char>,
    pub source_edition: SessionEdition,
    pub target_edition: SessionEdition,
    pub ids: Seq<Seq<char>>,
    pub new_ids: Seq<Seq<char>>,
}

impl View for SwitchOrder {
    type V = SwitchOrderView;

    open spec fn view(&self) -> SwitchOrderView {
        SwitchOrderView {
            home: self.home@,
            backup_dir: self.backup_dir@,
            source_uid: self.source_uid@,
            target_uid: self.target_uid@,
            source_edition: self.source_edition,
            target_edition: self.target_edition,
            ids: texts(self.ids@),
            new_ids: texts(self.new_ids@),
        }
    }
}

impl SwitchOrderView {
    /// The order to copy the session at `index`.
    pub open spec fn copy_order(self, index: int) -> CopyOrderView {
        CopyOrderView {
            home: self.home,
            backup_dir: self.backup_dir,
            cid: self.ids[index],
            new_cid: self.new_ids[index],
            source_uid: self.source_uid,
            target_uid: self.target_uid,
            source_edition: self.source_edition,
            target_edition: self.target_edition,
        }
    }

    /// The order with these ids for the copies.
    pub open spec fn with_ids(self, new_ids: Seq<Seq<char>>) -> SwitchOrderView {
        SwitchOrderView { new_ids, ..self }
    }

    /// The database of the target account.
    pub open spec fn target_db(self) -> PathView {
        db_path(self.home, self.target_edition)
    }
}

impl SwitchOrder {
    /// The order to copy the session at `index`.
    fn copy_order(&self, index: usize) -> (res: CopyOrder)
        requires
            index < self.ids.len(),
            index < self.new_ids.len(),
        ensures
            res@ == self@.copy_order(index as int),
    {
        CopyOrder {
            home: self.home.clone(),
            backup_dir: self.backup_dir.clone(),
            cid: self.ids[index].clone(),
            new_cid: self.new_ids[index].clone(),
            source_uid: self.source_uid.clone(),
            target_uid: self.target_uid.clone(),
            source_edition: self.source_edition,
            target_edition: self.target_edition,
        }
    }
}

/// The copying of sessions to the account that is switched to.
pub struct SwitchJob {
    order: SwitchOrder,
    index: usize,
    copied: Vec<Json>,
    errors: Vec<Json>,
    stage: SwitchStage,
}

/// What the copying of sessions to another account is.
#[verifier::ext_equal]
pub struct SwitchView {
    pub order: SwitchOrderView,
    pub index: int,
    pub copied: Seq<JsonView>,
    pub errors: Seq<JsonView>,
    pub stage: SwitchStageView,
}

impl View for SwitchJob {
    type V = SwitchView;

    closed spec fn view(&self) -> SwitchView {
        SwitchView {
            order: self.order@,
            index: self.index as int,
            copied: items_view(self.copied@),
            errors: items_view(self.errors@),
            stage: match self.stage {
                SwitchStage::Database => SwitchStageView::Database,
                SwitchStage::PathText => SwitchStageView::PathText,
                SwitchStage::Copy(job) => SwitchStageView::Copy(job@),
                SwitchStage::Finished => SwitchStageView::Finished,
            },
        }
    }
}

/// The copying of sessions, before anything is asked.
pub open spec fn switch_start(order: SwitchOrderView) -> SwitchView {
    SwitchView {
        order,
        index: 0,
        copied: Seq::empty(),
        errors: Seq::empty(),
        stage: SwitchStageView::Database,
    }
}

impl SwitchView {
    /// Where a session is copied there is one, and every session has an id for its
    /// copy.
    pub open spec fn well_formed(self) -> bool {
        &&& 0 <= self.index <= self.order.ids.len()
        &&& self.stage is Copy ==> {
            &&& self.index < self.order.ids.len()
            &&& self.order.ids.len() == self.order.new_ids.len()
        }
    }

    /// Whether ids for the copies are drawn when `reply` comes: the target account
    /// has a database, and the sessions have no ids for their copies yet.
    pub open spec fn draws(self, reply: ReplyView) -> bool {
        self.stage is Database && reply.yes() && self.order.ids.len() != self.order.new_ids.len()
    }

    /// The copying with these ids for the copies.
    pub open spec fn with_ids(self, new_ids: Seq<Seq<char>>) -> SwitchView {
        SwitchView { order: self.order.with_ids(new_ids), ..self }
    }

    /// Whether the copying is over.
    pub open spec fn over(self) -> bool {
        self.stage is Finished
    }

    /// What the copying needs next.
    pub open spec fn request(self) -> Option<RequestView> {
        match self.stage {
            SwitchStageView::Database => Some(RequestView::IsFile(self.order.target_db())),
            SwitchStageView::PathText => Some(RequestView::PathText(self.order.target_db())),
            SwitchStageView::Copy(copy) => copy.request(),
            SwitchStageView::Finished => None,
        }
    }

    /// The copying with the sessions from `index` on before it.
    pub open spec fn at(self, index: int) -> SwitchView {
        SwitchView {
            index,
            stage: if index < self.order.ids.len() {
                SwitchStageView::Copy(copy_start(self.order.copy_order(index)))
            } else {
                SwitchStageView::Finished
            },
            ..self
        }
    }

    /// The copying with what came of the session at the index noted.
    pub open spec fn noted(self, outcome: Result<CopyReportView, Seq<char>>) -> SwitchView {
        match outcome {
            Ok(report) => SwitchView { copied: self.copied.push(report.json()), ..self },
            Err(message) => SwitchView {
                errors: self.errors.push(session_error(self.order.ids[self.index], message)),
                ..self
            },
        }
    }

    /// The copying with the copying of the session at the index where `copy` is.
    pub open spec fn with_copy(self, copy: CopyView) -> SwitchView {
        match copy.stage {
            CopyStageView::Finished(outcome) => self.noted(outcome).at(self.index + 1),
            _ => SwitchView { stage: SwitchStageView::Copy(copy), ..self },
        }
    }

    /// The copying after `reply`.
    pub open spec fn advance(self, reply: ReplyView) -> SwitchView {
        match self.stage {
            SwitchStageView::Database => if reply.yes() {
                self.at(0)
            } else {
                SwitchView { stage: SwitchStageView::PathText, ..self }
            },
            SwitchStageView::PathText => SwitchView {
                errors: self.errors.push(
                    general_error(no_target_message(text_or_empty(reply.text()))),
                ),
                stage: SwitchStageView::Finished,
                ..self
            },
            SwitchStageView::Copy(copy) => self.with_copy(copy.advance(reply)),
            SwitchStageView::Finished => self,
        }
    }

    /// The copying after all of `replies`.
    pub open spec fn after(self, replies: Seq<ReplyView>) -> SwitchView
        decreases replies.len(),
    {
        if replies.len() == 0 {
            self
        } else {
            self.after(replies.drop_last()).advance(replies.last())
        }
    }

    /// How many stages are left at most.
    pub open spec fn stages_left(self) -> nat {
        match self.stage {
            SwitchStageView::Database => 3,
            SwitchStageView::PathText => 2,
            SwitchStageView::Copy(_) => 1,
            SwitchStageView::Finished => 0,
        }
    }

    /// How many sessions are left.
    pub open spec fn sessions_left(self) -> int {
        self.order.ids.len() - self.index
    }

    /// How far the copying of the session at the index is from its end.
    pub open spec fn copy_left(self) -> (nat, nat, int) {
        match self.stage {
            SwitchStageView::Copy(copy) => (copy.stages_left(), copy.rank(), copy.looks_left()),
            _ => (0, 0, 0),
        }
    }

    /// The copying at its end, where `world` answers its requests.
    pub open spec fn settled(self, world: World) -> SwitchView
        decreases
            self.stages_left(),
            self.sessions_left(),
            self.copy_left().0,
            self.copy_left().1,
            self.copy_left().2,
    {
        match self.request() {
            Some(request) if self.well_formed() && (self.stage matches SwitchStageView::Copy(copy)
                ==> copy.well_formed()) => self.advance(world(request)).settled(world),
            _ => self,
        }
    }

    /// The report: from whom to whom, what was copied and, where there were any,
    /// the errors.
    pub open spec fn report(self) -> JsonView {
        let always = seq![
            ("sourceUid"@, JsonView::Text(self.order.source_uid)),
            ("targetUid"@, JsonView::Text(self.order.target_uid)),
            ("copied"@, JsonView::List(self.copied)),
        ];
        JsonView::Object(
            if self.errors.len() > 0 {
                always.push(("errors"@, JsonView::List(self.errors)))
            } else {
                always
            },
        )
    }
}

impl SwitchJob {
    #[verifier::type_invariant]
    spec fn inv(self) -> bool {
        self@.well_formed()
    }

    /// The copying that `order` asks for.
    pub fn with_order(order: SwitchOrder) -> (res: SwitchJob)
        ensures
            res@ == switch_start(order@),
    {
        let copied: Vec<Json> = Vec::new();
        let errors: Vec<Json> = Vec::new();
        assert(items_view(copied@) =~= Seq::empty());
        assert(items_view(errors@) =~= Seq::empty());
        SwitchJob { order, index: 0, copied, errors, stage: SwitchStage::Database }
    }

    /// Whether the copying is over.
    pub fn is_over(&self) -> (res: bool)
        ensures
            res == self@.over(),
    {
        matches!(self.stage, SwitchStage::Finished)
    }

    /// The report on what was copied.
    pub fn report(self) -> (res: Json)
        ensures
            res@ == self@.report(),
    {
        let ghost view = self@;
        let has_errors: bool = self.errors.len() > 0;
        let mut entries: Vec<(String, Json)> = Vec::new();
        put(&mut entries, "sourceUid", Json::Text(self.order.source_uid));
        put(&mut entries, "targetUid", Json::Text(self.order.target_uid));
        put(&mut entries, "copied", list(self.copied));
        if has_errors {
            put(&mut entries, "errors", list(self.errors));
        }
        assert(entries_view(entries@) =~= view.report()->Object_0);
        object(entries)
    }

    /// What the copying needs next; nothing, where it is over.
    pub fn request(&self) -> (res: Option<Request>)
        ensures
            optional_request(res) == self@.request(),
    {
        match &self.stage {
            SwitchStage::Database => Some(
                Request::IsFile(
                    workbuddy_db_path_for_edition(&self.order.home, self.order.target_edition),
                ),
            ),
            SwitchStage::PathText => Some(
                Request::PathText(
                    workbuddy_db_path_for_edition(&self.order.home, self.order.target_edition),
                ),
            ),
            SwitchStage::Copy(job) => job.request(),
            SwitchStage::Finished => None,
        }
    }

    /// The copying with the sessions from `index` on before it.
    fn at(order: SwitchOrder, index: usize, copied: Vec<Json>, errors: Vec<Json>) -> (res: SwitchJob)
        requires
            order@.ids.len() == order@.new_ids.len(),
            index <= order.ids.len(),
        ensures
            res@ == (SwitchView {
                order: order@,
                index: 0,
                copied: items_view(copied@),
                errors: items_view(errors@),
                stage: SwitchStageView::Finished,
            }).at(index as int),
    {
        let stage: SwitchStage = if index < order.ids.len() {
            SwitchStage::Copy(CopyJob::with_order(order.copy_order(index)))
        } else {
            SwitchStage::Finished
        };
        SwitchJob { order, index, copied, errors, stage }
    }

    /// The copying after `reply`. Where the sessions have no ids for their copies
    /// yet, these are drawn as soon as it is known that there is a database to copy
    /// to; which they are, is left to chance.
    pub fn advance(self, reply: Reply) -> (res: SwitchJob)
        ensures
            res@ == self@.with_ids(res@.order.new_ids).advance(reply@),
            if self@.draws(reply@) {
                &&& res@.order.new_ids.len() == self@.order.ids.len()
                &&& forall|i: int|
                    0 <= i < res@.order.new_ids.len() ==> is_session_id(
                        #[trigger] res@.order.new_ids[i],
                    )
            } else {
                res@.order.new_ids == self@.order.new_ids
            },
    {
        proof {
            use_type_invariant(&self);
            assert(self@.with_ids(self@.order.new_ids) == self@);
        }
        let SwitchJob { order, index, copied, errors, stage } = self;
        match stage {
            SwitchStage::Database => if reply.yes() {
                let mut order: SwitchOrder = order;
                if order.new_ids.len() != order.ids.len() {
                    order.new_ids = new_session_ids(order.ids.len());
                }
                Self::at(order, 0, copied, errors)
            } else {
                SwitchJob { order, index, copied, errors, stage: SwitchStage::PathText }
            },
            SwitchStage::PathText => {
                let mut message: String = "目标账号数据目录不存在: ".to_string();
                message.append(reply.text_or_empty().as_str());
                let errors: Vec<Json> = append(errors, general_error_json(message));
                SwitchJob { order, index, copied, errors, stage: SwitchStage::Finished }
            },
            SwitchStage::Copy(job) => {
                let job: CopyJob = job.advance(reply);
                assert(index < order.ids.len());
                if job.is_over() {
                    match job.outcome() {
                        Some(Ok(report)) => {
                            let copied: Vec<Json> = append(copied, report.into_json());
                            Self::at(order, index + 1, copied, errors)
                        },
                        Some(Err(message)) => {
                            let error: Json = session_error_json(
                                order.ids[index].as_str(),
                                message,
                            );
                            let errors: Vec<Json> = append(errors, error);
                            Self::at(order, index + 1, copied, errors)
                        },
                        None => Self::at(order, index + 1, copied, errors),
                    }
                } else {
                    SwitchJob { order, index, copied, errors, stage: SwitchStage::Copy(job) }
                }
            },
            SwitchStage::Finished => SwitchJob { order, index, copied, errors, stage },
        }
    }
}

/// As many new ids as there are sessions.
fn new_session_ids(count: usize) -> (res: Vec<String>)
    ensures
        res@.len() == count,
        forall|i: int| 0 <= i < count ==> is_session_id(#[trigger] texts(res@)[i]),
{
    let mut res: Vec<String> = Vec::new();
    while res.len() < count
        invariant
            res@.len() <= count,
            forall|i: int| 0 <= i < res@.len() ==> is_session_id(#[trigger] texts(res@)[i]),
        decreases count - res@.len(),
    {
        let ghost before = texts(res@);
        let id: String = new_session_id();
        res.push(id);
        assert(texts(res@) =~= before.push(id@));
    }
    res
}

/// The account to which sessions are copied and the account from which they come,
/// where there are two: each has a user id, and they are not the same.
pub open spec fn switch_uids(auth: Option<JsonView>, target: JsonView) -> Option<
    (Seq<char>, Seq<char>),
> {
    match (auth, account_uid(target)) {
        (Some(root), Some(target_uid)) => match auth_uid(root) {
            Some(source_uid) => if source_uid == target_uid {
                None
            } else {
                Some((source_uid, target_uid))
            },
            None => None,
        },
        _ => None,
    }
}

/// The copying of the sessions `session_ids` of the account that is signed in to
/// the account `target_acc`, before it is switched to. There is nothing to copy
/// where one of the two has no user id, or where they are the same. The copies get
/// their ids once it is known that the target account has a database.
pub fn copy_sessions_for_switch<F: Fn(&Json) -> bool>(
    home: &FilePath,
    backup_dir: &FilePath,
    auth: Option<&Json>,
    is_ai: &F,
    target_acc: &Json,
    session_ids: &Vec<String>,
) -> (res: Option<SwitchJob>)
    requires
        forall|value: &Json| call_requires(is_ai, (value,)),
    ensures
        ({
            let uids = switch_uids(
                match auth {
                    Some(root) => Some(root@),
                    None => None,
                },
                target_acc@,
            );
            match res {
                Some(job) => {
                    let order = job@.order;
                    &&& job@ == switch_start(order)
                    &&& uids == Some((order.source_uid, order.target_uid))
                    &&& order.home == home@
                    &&& order.backup_dir == backup_dir@
                    &&& order.ids == texts(session_ids@)
                    &&& order.new_ids.len() == 0
                    &&& auth matches Some(root)
                    &&& answered(
                        is_ai,
                        probe(root@),
                        order.source_edition == SessionEdition::Ai,
                    )
                    &&& answered(is_ai, target_acc@, order.target_edition == SessionEdition::Ai)
                },
                None => uids is None,
            }
        }),
{
    let target_uid: String = match as_text(target_acc.get("uid")) {
        Some(text) => text.trim().to_string(),
        None => return None,
    };
    if target_uid.as_str().is_empty() {
        return None;
    }
    let SessionContext { uid: source_uid, edition: source_edition } = match current_session_context(
        auth,
        is_ai,
    ) {
        Some(context) => context,
        None => return None,
    };
    if same_text(source_uid.as_str(), target_uid.as_str()) {
        return None;
    }
    let target_edition: SessionEdition = edition_for_account(target_acc, is_ai);
    let ids: Vec<String> = session_ids.clone();
    assert(texts(ids@) =~= texts(session_ids@));
    Some(
        SwitchJob::with_order(
            SwitchOrder {
                home: home.clone(),
                backup_dir: backup_dir.clone(),
                source_uid,
                target_uid,
                source_edition,
                target_edition,
                ids,
                new_ids: Vec::new(),
            },
        ),
    )
}

} // verus!

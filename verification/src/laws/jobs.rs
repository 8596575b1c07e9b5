use crate::backup::{backup_start, backup_workbuddy_db_for_edition, Backup};
use crate::copy::{
    copy_session_to_user, copy_session_to_user_for_editions, copy_start, outcome_view, CopyJob,
    CopyOrder, CopyReport, CopyStageView,
};
use crate::current::{
    current_start, list_current_sessions, no_account_report, CurrentSessions, CurrentStageView,
};
use crate::edge_sync::{edge_sync_db_path_for_edition, edge_sync_start, EdgeSyncSearch};
use crate::edition::{
    current_edition, current_session_context, edition_for_account, probe, SessionContext,
    SessionEdition,
};
use crate::history::{find_project_jsonl_in_edition, history_start, HistorySearch};
use crate::io::{optional_path, optional_request, Reply, ReplyView, Request};
use crate::json::{Json, JsonView};
use crate::laws::edition::{
    account_has_one_answer, answers_alike, switch_is_between_two_accounts,
    user_ids_are_trimmed_texts,
};
use crate::laws::text::is_blank;
use crate::listing::{
    list_sessions_for_user, list_sessions_for_user_in_edition, listing_start, SessionListing,
};
use crate::mapping::{
    insert_edge_sync_mapping, mapping_start, register_edge_sync_mapping_for_edition,
    registration_start, MappingInsert, Registration, RegistrationStageView,
};
use crate::path::FilePath;
use crate::row_copy::{insert_session_copy_between, result_view, row_copy_start, RowCopy};
use crate::session_id::is_session_id;
use crate::switch::{copy_sessions_for_switch, switch_start, SwitchJob, SwitchOrder};
use crate::text::trimmed;
use vstd::prelude::*;

verus! {

/// How the search for a transcript goes: it starts from what it is given, asks for what
/// its state says, takes every reply into account, and gives what it came to.
pub proof fn search_for_a_transcript_goes_so(
    home: &FilePath,
    cid: &str,
    edition: SessionEdition,
    fresh: HistorySearch,
    job: HistorySearch,
    request: Option<Request>,
    reply: Reply,
    next: HistorySearch,
    over: bool,
    result: Option<FilePath>,
)
    requires
        call_ensures(find_project_jsonl_in_edition, (home, cid, edition), fresh),
        call_ensures(HistorySearch::request, (&job,), request),
        call_ensures(HistorySearch::advance, (job, reply), next),
        call_ensures(HistorySearch::is_over, (&job,), over),
        call_ensures(HistorySearch::found, (job,), result),
    ensures
        fresh@ == history_start(home@, cid@, edition),
        optional_request(request) == job@.request(),
        next@ == job@.advance(reply@),
        over == job@.over(),
        optional_path(result) == job@.found,
{
}

/// How the search for the mapping database in use goes: it starts from what it is
/// given, asks for what its state says, takes every reply into account, and gives what
/// it came to.
pub proof fn search_for_a_mapping_database_goes_so(
    home: &FilePath,
    edition: SessionEdition,
    uid: Option<&str>,
    fresh: EdgeSyncSearch,
    job: EdgeSyncSearch,
    request: Option<Request>,
    reply: Reply,
    next: EdgeSyncSearch,
    over: bool,
    result: Option<FilePath>,
)
    requires
        call_ensures(edge_sync_db_path_for_edition, (home, edition, uid), fresh),
        call_ensures(EdgeSyncSearch::request, (&job,), request),
        call_ensures(EdgeSyncSearch::advance, (job, reply), next),
        call_ensures(EdgeSyncSearch::is_over, (&job,), over),
        call_ensures(EdgeSyncSearch::found, (job,), result),
    ensures
        fresh@ == edge_sync_start(
            home@,
            edition,
            match uid {
                Some(uid) => Some(uid@),
                None => None,
            },
        ),
        optional_request(request) == job@.request(),
        next@ == job@.advance(reply@),
        over == job@.over(),
        optional_path(result) == job@.found,
{
}

/// How the entry of a session into a mapping database goes: it starts from what it is
/// given, asks for what its state says, takes every reply into account, and gives what
/// it came to.
pub proof fn entry_of_a_session_goes_so(
    db: FilePath,
    cid: &str,
    uid: &str,
    fresh: MappingInsert,
    job: MappingInsert,
    request: Option<Request>,
    reply: Reply,
    next: MappingInsert,
    over: bool,
    result: bool,
)
    requires
        call_ensures(insert_edge_sync_mapping, (db, cid, uid), fresh),
        call_ensures(MappingInsert::request, (&job,), request),
        call_ensures(MappingInsert::advance, (job, reply), next),
        call_ensures(MappingInsert::is_over, (&job,), over),
        call_ensures(MappingInsert::written, (&job,), result),
    ensures
        fresh@ == mapping_start(db@, cid@, uid@),
        optional_request(request) == job@.request(),
        next@ == job@.advance(reply@),
        over == job@.over(),
        result == job@.written,
{
}

/// How the registration of a session goes: it starts from what it is given, asks for
/// what its state says, takes every reply into account, and gives what it came to.
pub proof fn registration_of_a_session_goes_so(
    home: &FilePath,
    cid: &str,
    uid: &str,
    edition: SessionEdition,
    fresh: Registration,
    job: Registration,
    request: Option<Request>,
    reply: Reply,
    next: Registration,
    over: bool,
    result: bool,
)
    requires
        call_ensures(register_edge_sync_mapping_for_edition, (home, cid, uid, edition), fresh),
        call_ensures(Registration::request, (&job,), request),
        call_ensures(Registration::advance, (job, reply), next),
        call_ensures(Registration::is_over, (&job,), over),
        call_ensures(Registration::written, (&job,), result),
    ensures
        fresh@ == registration_start(home@, cid@, uid@, edition),
        optional_request(request) == job@.request(),
        next@ == job@.advance(reply@),
        over == job@.over(),
        result == (job@.stage == RegistrationStageView::Finished(true)),
{
}

/// How the backup of a session database goes: it starts from what it is given, asks for
/// what its state says, takes every reply into account, and gives what it came to.
pub proof fn backup_of_a_database_goes_so(
    home: &FilePath,
    root: &FilePath,
    edition: SessionEdition,
    fresh: Backup,
    job: Backup,
    request: Option<Request>,
    reply: Reply,
    next: Backup,
    over: bool,
    result: Option<FilePath>,
)
    requires
        call_ensures(backup_workbuddy_db_for_edition, (home, root, edition), fresh),
        call_ensures(Backup::request, (&job,), request),
        call_ensures(Backup::advance, (job, reply), next),
        call_ensures(Backup::is_over, (&job,), over),
        call_ensures(Backup::result, (job,), result),
    ensures
        fresh@ == backup_start(home@, root@, edition),
        optional_request(request) == job@.request(),
        next@ == job@.advance(reply@),
        over == job@.over(),
        optional_path(result) == job@.result,
{
}

/// How the copying of a row goes: it starts from what it is given, asks for what its
/// state says, takes every reply into account, and gives what it came to.
pub proof fn copying_of_a_row_goes_so(
    source_db: FilePath,
    target_db: FilePath,
    new_cid: &str,
    cid: &str,
    source_uid: &str,
    target_uid: &str,
    fresh: RowCopy,
    job: RowCopy,
    request: Option<Request>,
    reply: Reply,
    next: RowCopy,
    over: bool,
    result: Result<(), String>,
)
    requires
        call_ensures(
            insert_session_copy_between,
            (source_db, target_db, new_cid, cid, source_uid, target_uid),
            fresh,
        ),
        call_ensures(RowCopy::request, (&job,), request),
        call_ensures(RowCopy::advance, (job, reply), next),
        call_ensures(RowCopy::is_over, (&job,), over),
        call_ensures(RowCopy::result, (job,), result),
    ensures
        fresh@ == row_copy_start(source_db@, target_db@, new_cid@, cid@, source_uid@, target_uid@),
        optional_request(request) == job@.request(),
        next@ == job@.advance(reply@),
        over == job@.over(),
        result_view(result) == job@.result,
{
}

/// How the listing of the sessions of a user goes: it starts from what it is given,
/// asks for what its state says, takes every reply into account, and gives what it came
/// to.
pub proof fn listing_of_sessions_goes_so(
    home: &FilePath,
    uid: &str,
    edition: SessionEdition,
    fresh: SessionListing,
    job: SessionListing,
    request: Option<Request>,
    reply: Reply,
    next: SessionListing,
    over: bool,
    result: Json,
)
    requires
        call_ensures(list_sessions_for_user_in_edition, (home, uid, edition), fresh),
        call_ensures(SessionListing::request, (&job,), request),
        call_ensures(SessionListing::advance, (job, reply), next),
        call_ensures(SessionListing::is_over, (&job,), over),
        call_ensures(SessionListing::into_json, (job,), result),
    ensures
        fresh@ == listing_start(home@, uid@, edition),
        optional_request(request) == job@.request(),
        next@ == job@.advance(reply@),
        over == job@.over(),
        result@ == JsonView::List(job@.entries),
{
}

/// How the copying of a session goes: it starts from its order, asks for what its state
/// says, takes every reply into account, and gives what it came to once it is over.
pub proof fn copying_of_a_session_goes_so(
    order: CopyOrder,
    fresh: CopyJob,
    job: CopyJob,
    request: Option<Request>,
    reply: Reply,
    next: CopyJob,
    over: bool,
    outcome: Option<Result<CopyReport, String>>,
    report: CopyReport,
    json: Json,
)
    requires
        call_ensures(CopyJob::with_order, (order,), fresh),
        call_ensures(CopyJob::request, (&job,), request),
        call_ensures(CopyJob::advance, (job, reply), next),
        call_ensures(CopyJob::is_over, (&job,), over),
        call_ensures(CopyJob::outcome, (job,), outcome),
        call_ensures(CopyReport::into_json, (report,), json),
    ensures
        fresh@ == copy_start(order@),
        optional_request(request) == job@.request(),
        next@ == job@.advance(reply@),
        over == (job@.stage is Finished),
        outcome is Some <==> job@.stage is Finished,
        outcome is Some ==> job@.stage == CopyStageView::Finished(outcome_view(outcome->0)),
        json@ == report@.json(),
{
}

/// The copying of a session between editions starts from what it is given, and with an
/// id that a new session can have.
pub proof fn copying_between_editions_starts_so(
    home: &FilePath,
    backup_dir: &FilePath,
    cid: &str,
    source_uid: &str,
    target_uid: &str,
    source_edition: SessionEdition,
    target_edition: SessionEdition,
    job: CopyJob,
)
    requires
        call_ensures(
            copy_session_to_user_for_editions,
            (home, backup_dir, cid, source_uid, target_uid, source_edition, target_edition),
            job,
        ),
    ensures
        job@ == copy_start(job@.order),
        job@.order.home == home@,
        job@.order.backup_dir == backup_dir@,
        job@.order.cid == cid@,
        job@.order.source_uid == source_uid@,
        job@.order.target_uid == target_uid@,
        job@.order.source_edition == source_edition,
        job@.order.target_edition == target_edition,
        is_session_id(job@.order.new_cid),
{
}

/// A session is copied within the edition that is signed in.
pub proof fn copying_within_an_edition_starts_so<F: Fn(&Json) -> bool>(
    home: &FilePath,
    backup_dir: &FilePath,
    auth: Option<&Json>,
    is_ai: &F,
    cid: &str,
    source_uid: &str,
    target_uid: &str,
    current: SessionEdition,
    job: CopyJob,
    listing: SessionListing,
)
    requires
        answers_alike(is_ai),
        call_ensures(current_edition::<F>, (auth, is_ai), current),
        call_ensures(
            copy_session_to_user::<F>,
            (home, backup_dir, auth, is_ai, cid, source_uid, target_uid),
            job,
        ),
        call_ensures(list_sessions_for_user::<F>, (home, auth, is_ai, source_uid), listing),
    ensures
        job@ == copy_start(job@.order),
        job@.order.home == home@,
        job@.order.backup_dir == backup_dir@,
        job@.order.cid == cid@,
        job@.order.source_uid == source_uid@,
        job@.order.target_uid == target_uid@,
        job@.order.source_edition == current,
        job@.order.target_edition == current,
        is_session_id(job@.order.new_cid),
        listing@ == listing_start(home@, source_uid@, current),
{
    if let Some(root) = auth {
        account_has_one_answer(
            is_ai,
            probe(root@),
            current == SessionEdition::Ai,
            job@.order.source_edition == SessionEdition::Ai,
        );
        account_has_one_answer(
            is_ai,
            probe(root@),
            current == SessionEdition::Ai,
            listing@.edition == SessionEdition::Ai,
        );
    }
}

/// How the report on the current sessions goes: it is about the account that is signed
/// in, and its edition; where there is none, it is done and says so.
pub proof fn report_on_current_sessions_goes_so<F: Fn(&Json) -> bool>(
    home: &FilePath,
    auth: Option<&Json>,
    is_ai: &F,
    context: Option<SessionContext>,
    fresh: CurrentSessions,
    job: CurrentSessions,
    request: Option<Request>,
    reply: Reply,
    next: CurrentSessions,
    report: Option<Json>,
)
    requires
        answers_alike(is_ai),
        call_ensures(current_session_context::<F>, (auth, is_ai), context),
        call_ensures(list_current_sessions::<F>, (home, auth, is_ai), fresh),
        call_ensures(CurrentSessions::request, (&job,), request),
        call_ensures(CurrentSessions::advance, (job, reply), next),
        call_ensures(CurrentSessions::report, (job,), report),
    ensures
        context is Some ==> fresh@ == current_start(
            home@,
            context->0.uid@,
            context->0.edition,
        ),
        context is None ==> fresh@.stage == CurrentStageView::Finished(no_account_report()),
        optional_request(request) == job@.request(),
        next@ == job@.advance(reply@),
        report is Some <==> job@.stage is Finished,
        report is Some ==> job@.stage == CurrentStageView::Finished(report->0@),
{
    if context is Some {
        let root = auth->0;
        account_has_one_answer(
            is_ai,
            probe(root@),
            context->0.edition == SessionEdition::Ai,
            fresh@.edition == SessionEdition::Ai,
        );
    }
}

/// Sessions are copied for a switch from the account that is signed in, and its
/// edition, to the target account, and its edition: all those that were asked for, in
/// their order. There is nothing to do where one of the accounts has no user id, or
/// both have the same.
pub proof fn switch_starts_so<F: Fn(&Json) -> bool>(
    home: &FilePath,
    backup_dir: &FilePath,
    auth: Option<&Json>,
    is_ai: &F,
    target: &Json,
    session_ids: &Vec<String>,
    context: Option<SessionContext>,
    target_edition: SessionEdition,
    res: Option<SwitchJob>,
)
    requires
        answers_alike(is_ai),
        call_ensures(current_session_context::<F>, (auth, is_ai), context),
        call_ensures(edition_for_account::<F>, (target, is_ai), target_edition),
        call_ensures(
            copy_sessions_for_switch::<F>,
            (home, backup_dir, auth, is_ai, target, session_ids),
            res,
        ),
    ensures
        ({
            let uid = target@.field("uid"@);
            let named = uid is Some && uid->0 is Text && !is_blank(uid->0->Text_0);
            let target_uid = trimmed(uid->0->Text_0);
            &&& res is Some <==> named && context is Some && context->0.uid@ != target_uid
            &&& res is Some ==> {
                let order = res->0@.order;
                &&& res->0@ == switch_start(order)
                &&& order.home == home@
                &&& order.backup_dir == backup_dir@
                &&& order.source_uid == context->0.uid@
                &&& order.source_edition == context->0.edition
                &&& order.target_uid == target_uid
                &&& order.target_edition == target_edition
                &&& order.ids.len() == session_ids@.len()
                &&& forall|i: int|
                    0 <= i < session_ids@.len() ==> #[trigger] order.ids[i] == session_ids@[i]@
            }
        }),
{
    user_ids_are_trimmed_texts(target@);
    if let Some(root) = auth {
        switch_is_between_two_accounts(Some(root@), target@);
    } else {
        switch_is_between_two_accounts(None, target@);
    }
    if res is Some {
        let root = auth->0;
        let order = res->0@.order;
        account_has_one_answer(
            is_ai,
            probe(root@),
            context->0.edition == SessionEdition::Ai,
            order.source_edition == SessionEdition::Ai,
        );
        account_has_one_answer(
            is_ai,
            target@,
            target_edition == SessionEdition::Ai,
            order.target_edition == SessionEdition::Ai,
        );
    }
}

/// How the copying of sessions for a switch goes: it asks for what its state says and
/// takes every reply into account. The copies get ids that new sessions can have, once,
/// when it is known that there is a database to copy to.
pub proof fn switch_goes_so(
    order: SwitchOrder,
    fresh: SwitchJob,
    job: SwitchJob,
    request: Option<Request>,
    reply: Reply,
    next: SwitchJob,
    over: bool,
    report: Json,
    i: int,
)
    requires
        call_ensures(SwitchJob::with_order, (order,), fresh),
        call_ensures(SwitchJob::request, (&job,), request),
        call_ensures(SwitchJob::advance, (job, reply), next),
        call_ensures(SwitchJob::is_over, (&job,), over),
        call_ensures(SwitchJob::report, (job,), report),
    ensures
        fresh@ == switch_start(order@),
        optional_request(request) == job@.request(),
        over == job@.over(),
        report@ == job@.report(),
        ({
            let ids = job@.order.ids;
            let new_ids = next@.order.new_ids;
            let draws = job@.stage is Database && reply@ == ReplyView::Flag(true) && ids.len()
                != job@.order.new_ids.len();
            &&& !draws ==> next@ == job@.advance(reply@)
            &&& draws ==> next@ == job@.with_ids(new_ids).advance(reply@)
            &&& draws ==> new_ids.len() == ids.len()
            &&& draws && 0 <= i < ids.len() ==> is_session_id(new_ids[i])
        }),
{
    assert(job@.with_ids(job@.order.new_ids) == job@);
}

} // verus!

use crate::backup::{backup_start, part_name, BackupView};
use crate::copy::{
    backup_root_for, copy_start, in_claw, working_dir_query, CopyOrderView, CopyReportView,
    CopyStageView, CopyView,
};
use crate::edge_sync::{mapping_paths, EdgeSyncPhase, EdgeSyncView};
use crate::edition::SessionEdition;
use crate::history::{history_start, HistoryView};
use crate::io::{ReplyView, RequestView, World};
use crate::laws::backup::backup_copies_what_is_there;
use crate::laws::edge_sync::search_is_confined;
use crate::laws::history::{
    read_place, search_finds_transcript, search_stays_below_its_directory, transcript,
};
use crate::laws::layout::{
    data_directory, lemma_below, lemma_far_below, transcripts_directory,
};
use crate::laws::mapping::{
    registers, registration_ends, registration_is_confined, registration_stays_confined,
};
use crate::laws::row_copy::{
    carried_columns_are_those_with_a_value, copying_ends_with_its_result, copying_result,
};
use crate::layout::{data_root, projects_root, transcript_name};
use crate::mapping::{
    mapping_statement, MappingPhase, registration_start, RegistrationStageView, RegistrationView,
};
use crate::path::{parent_path, plain, NameView, PathView};
use crate::row_copy::{
    claw_refusal, insert_sql, names_of, row_copy_start, values_of, RowChange, RowCopyPhase,
    RowCopyView,
};
use crate::sql::{SqlView, StatementView};
use crate::text::{replaced, text_or_empty};
use vstd::prelude::*;

verus! {

/// Whether the transcript of the session gets copied, where `world` answers: it is
/// there, below the transcripts of its edition, it can be read, and its copy, with
/// the new id in place of the old one, can be written.
pub open spec fn transcript_copied(world: World, order: CopyOrderView) -> bool {
    let found = transcript(
        world,
        projects_root(order.home, order.source_edition),
        transcript_name(order.cid),
    );
    &&& found matches Some(source)
    &&& order.destination(source) matches Some(target)
    &&& world(RequestView::ReadText(source)).text() matches Some(text)
    &&& world(RequestView::WriteText(target, replaced(text, order.cid, order.new_cid))).yes()
}

/// What comes of copying a session, where `world` answers.
pub open spec fn copy_outcome(world: World, order: CopyOrderView) -> Result<
    CopyReportView,
    Seq<char>,
> {
    let working_dir = RequestView::Query(
        working_dir_query(order.source_db(), order.cid, order.source_uid),
    );
    let row = copying_result(
        world,
        order.source_db(),
        order.target_db(),
        order.new_cid,
        order.cid,
        order.source_uid,
        order.target_uid,
    );
    let backup_root = backup_root_for(
        order.backup_dir,
        text_or_empty(world(RequestView::Stamp).text()),
    );
    if in_claw(world(working_dir).first_value()) {
        Err(claw_refusal())
    } else {
        match row {
            Err(message) => Err(message),
            Ok(()) => Ok(
                CopyReportView {
                    id: order.cid,
                    new_id: order.new_cid,
                    jsonl_copied: transcript_copied(world, order),
                    mapping_written: registers(
                        world,
                        order.home,
                        order.new_cid,
                        order.target_uid,
                        order.target_edition,
                    ),
                    backup: text_or_empty(world(RequestView::PathText(backup_root)).text()),
                },
            ),
        }
    }
}

proof fn lemma_search(world: World, copy: CopyView, search: HistoryView)
    requires
        copy.stage == CopyStageView::Search(search),
        search.well_formed(),
        !search.over(),
    ensures
        copy.settled(world) == copy.with_search(search.settled(world)).settled(world),
    decreases search.rank(), search.looks_left(),
{
    let reply = world(search.request()->0);
    let next = search.advance(reply);
    let after = copy.advance(reply);
    assert(copy.settled(world) == after.settled(world));
    assert(search.settled(world) == next.settled(world));
    if !next.over() {
        lemma_search(world, after, next);
        assert(after.with_search(next.settled(world)) == copy.with_search(next.settled(world)));
    } else {
        assert(next.settled(world) == next);
    }
}

proof fn lemma_backup(world: World, copy: CopyView, backup: BackupView)
    requires
        copy.stage == CopyStageView::Back(backup),
        backup.well_formed(),
        !backup.over(),
    ensures
        copy.settled(world) == copy.with_backup(backup.settled(world)).settled(world),
    decreases backup.rank(),
{
    let reply = world(backup.request()->0);
    let next = backup.advance(reply);
    let after = copy.advance(reply);
    assert(copy.settled(world) == after.settled(world));
    assert(backup.settled(world) == next.settled(world));
    if !next.over() {
        lemma_backup(world, after, next);
        assert(after.with_backup(next.settled(world)) == copy.with_backup(next.settled(world)));
    } else {
        assert(next.settled(world) == next);
    }
}

proof fn lemma_row(world: World, copy: CopyView, row: RowCopyView)
    requires
        copy.stage == CopyStageView::Row(row),
        !row.over(),
    ensures
        copy.settled(world) == copy.with_row(row.settled(world)).settled(world),
    decreases row.rank(),
{
    let reply = world(row.request()->0);
    let next = row.advance(reply);
    let after = copy.advance(reply);
    assert(copy.settled(world) == after.settled(world));
    assert(row.settled(world) == next.settled(world));
    if !next.over() {
        lemma_row(world, after, next);
        assert(after.with_row(next.settled(world)) == copy.with_row(next.settled(world)));
    } else {
        assert(next.settled(world) == next);
    }
}

proof fn lemma_registration(
    world: World,
    copy: CopyView,
    registration: RegistrationView,
    home: PathView,
    cid: Seq<char>,
    uid: Seq<char>,
    edition: SessionEdition,
)
    requires
        copy.stage == CopyStageView::Register(registration),
        registration_is_confined(registration, home, cid, uid, edition),
        registration.request() is Some,
    ensures
        copy.settled(world) == copy.with_registration(registration.settled(world)).settled(world),
    decreases registration.rank(), registration.looks_left(),
{
    let reply = world(registration.request()->0);
    let next = registration.advance(reply);
    let after = copy.advance(reply);
    registration_stays_confined(registration, home, cid, uid, edition, reply);
    assert(registration.well_formed());
    assert(copy.settled(world) == after.settled(world));
    assert(registration.settled(world) == next.settled(world));
    if !next.over() {
        assert(next.request() is Some);
        lemma_registration(world, after, next, home, cid, uid, edition);
        assert(after.with_registration(next.settled(world)) == copy.with_registration(
            next.settled(world),
        ));
    } else {
        assert(next.settled(world) == next);
    }
}

/// The start of the copying of the row that `order` asks for.
spec fn row_start(order: CopyOrderView) -> RowCopyView {
    row_copy_start(
        order.source_db(),
        order.target_db(),
        order.new_cid,
        order.cid,
        order.source_uid,
        order.target_uid,
    )
}

/// The start of the registration that `order` asks for.
spec fn register_start(order: CopyOrderView) -> RegistrationView {
    registration_start(order.home, order.new_cid, order.target_uid, order.target_edition)
}

/// What comes of copying the row that `order` asks for.
spec fn row_outcome(world: World, order: CopyOrderView) -> Result<(), Seq<char>> {
    copying_result(
        world,
        order.source_db(),
        order.target_db(),
        order.new_cid,
        order.cid,
        order.source_uid,
        order.target_uid,
    )
}

/// The report of a copying that got as far as its registration.
spec fn final_report(world: World, copy: CopyView) -> CopyReportView {
    let order = copy.order;
    CopyReportView {
        id: order.cid,
        new_id: order.new_cid,
        jsonl_copied: copy.jsonl_copied,
        mapping_written: registers(
            world,
            order.home,
            order.new_cid,
            order.target_uid,
            order.target_edition,
        ),
        backup: text_or_empty(world(RequestView::PathText(copy.backup_root)).text()),
    }
}

/// A copying that registers its session ends with the report.
proof fn lemma_from_registration(world: World, copy: CopyView)
    requires
        copy.stage == CopyStageView::Register(register_start(copy.order)),
    ensures
        copy.settled(world).stage == CopyStageView::Finished(Ok(final_report(world, copy))),
{
    let order = copy.order;
    let registration = register_start(order);
    registration_ends(world, order.home, order.new_cid, order.target_uid, order.target_edition);
    lemma_registration(
        world,
        copy,
        registration,
        order.home,
        order.new_cid,
        order.target_uid,
        order.target_edition,
    );
    let registered = copy.with_registration(registration.settled(world));
    let shown = registered.advance(world(RequestView::PathText(registered.backup_root)));
    assert(registered.settled(world) == shown.settled(world));
    assert(shown.settled(world) == shown);
}

/// A copying that copies its row ends as the row and the registration do.
proof fn lemma_from_row(world: World, copy: CopyView)
    requires
        copy.stage == CopyStageView::Row(row_start(copy.order)),
    ensures
        copy.settled(world).stage == CopyStageView::Finished(
            match row_outcome(world, copy.order) {
                Err(message) => Err(message),
                Ok(()) => Ok(final_report(world, copy)),
            },
        ),
{
    let order = copy.order;
    let row = row_start(order);
    copying_ends_with_its_result(
        world,
        order.source_db(),
        order.target_db(),
        order.new_cid,
        order.cid,
        order.source_uid,
        order.target_uid,
    );
    lemma_row(world, copy, row);
    let rowed = copy.with_row(row.settled(world));
    match row.settled(world).result {
        Ok(()) => {
            lemma_from_registration(world, rowed);
        },
        Err(message) => {
            assert(rowed.settled(world) == rowed);
        },
    }
}

/// The directory that the backup goes to, where `world` answers.
spec fn backup_place(world: World, order: CopyOrderView) -> PathView {
    backup_root_for(order.backup_dir, text_or_empty(world(RequestView::Stamp).text()))
}

/// From the name of the backup on, a copying ends as its row and its registration do.
proof fn lemma_from_stamp(world: World, copy: CopyView)
    requires
        copy.stage == CopyStageView::Stamp,
    ensures
        copy.settled(world).stage == CopyStageView::Finished(
            match row_outcome(world, copy.order) {
                Err(message) => Err(message),
                Ok(()) => Ok(
                    final_report(
                        world,
                        CopyView { backup_root: backup_place(world, copy.order), ..copy },
                    ),
                ),
            },
        ),
{
    let order = copy.order;
    let stamped = copy.advance(world(RequestView::Stamp));
    assert(copy.settled(world) == stamped.settled(world));
    let backup = backup_start(order.home, stamped.backup_root, order.target_edition);
    backup_copies_what_is_there(world, order.home, stamped.backup_root, order.target_edition);
    lemma_backup(world, stamped, backup);
    let backed = stamped.with_backup(backup.settled(world));
    lemma_from_row(world, backed);
}

/// The copying of a session ends, and with this outcome. A session of a Claw
/// workspace is refused. Else it is copied where its row can be; the report says
/// whether its transcript was copied and whether it was registered with the cloud.
pub proof fn copying_ends_with_its_outcome(world: World, order: CopyOrderView)
    ensures
        copy_start(order).settled(world).stage == CopyStageView::Finished(
            copy_outcome(world, order),
        ),
{
    let start = copy_start(order);
    let asked = start.advance(world(start.request()->0));
    assert(start.settled(world) == asked.settled(world));
    if asked.over() {
        assert(asked.settled(world) == asked);
    } else {
        let search = history_start(order.home, order.cid, order.source_edition);
        search_finds_transcript(world, order.home, order.cid, order.source_edition);
        lemma_search(world, asked, search);
        let searched = asked.with_search(search.settled(world));
        match searched.stage {
            CopyStageView::Read { source, target } => {
                let read = searched.advance(world(RequestView::ReadText(source)));
                assert(searched.settled(world) == read.settled(world));
                match read.stage {
                    CopyStageView::MakeDirs { target, text } => {
                        let made = read.advance(
                            world(RequestView::CreateDirs(parent_path(target))),
                        );
                        assert(read.settled(world) == made.settled(world));
                        let written = made.advance(world(RequestView::WriteText(target, text)));
                        assert(made.settled(world) == written.settled(world));
                        lemma_from_stamp(world, written);
                    },
                    _ => {
                        lemma_from_stamp(world, read);
                    },
                }
            },
            _ => {
                lemma_from_stamp(world, searched);
            },
        }
    }
}

/// Whether a statement is the one that puts a copy of a session, with the new id
/// and for the target account, into the target database.
pub open spec fn is_row_statement(order: CopyOrderView, statement: StatementView) -> bool {
    exists|change: RowChange, columns: Seq<Seq<char>>|
        change.new_cid == order.new_cid && change.target_uid == order.target_uid && statement
            == #[trigger] change.statement(order.target_db(), columns)
}

/// Whether a statement is one that enters the new session for the target account
/// into a mapping database of the target edition.
pub open spec fn is_mapping_statement(order: CopyOrderView, statement: StatementView) -> bool {
    exists|db: PathView, now: i64|
        mapping_paths(order.home, order.target_edition).contains(db) && statement
            == #[trigger] mapping_statement(db, order.new_cid, order.target_uid, now)
}

/// Whether a request is one that the copying of a session may make. It reads what
/// belongs to the two editions; it changes the source database in no way but as
/// the target database. What it writes is the copy of the transcript, under the
/// new id and below the transcripts of the target edition; the backup; the copy of
/// the row; and the mapping. Ids and names in directories are taken as plain names:
/// one that is not, leads where the file system takes it.
pub open spec fn is_permitted(order: CopyOrderView, request: RequestView) -> bool {
    let source = data_root(order.home, order.source_edition);
    let target = data_root(order.home, order.target_edition);
    let transcripts = projects_root(order.home, order.target_edition);
    let backups = order.backup_dir.push(plain("sessions"@));
    match request {
        RequestView::IsFile(path) => source.is_prefix_of(path) || target.is_prefix_of(path),
        RequestView::IsDir(path) => source.is_prefix_of(path),
        RequestView::Locate(path) => source.is_prefix_of(path),
        RequestView::ListDir(path) => source.is_prefix_of(path),
        RequestView::ReadText(path) => source.is_prefix_of(path),
        RequestView::WriteText(path, text) => {
            &&& transcripts.is_prefix_of(path)
            &&& path.last() == plain(transcript_name(order.new_cid))
        },
        RequestView::CreateDirs(path) => transcripts.is_prefix_of(path) || backups.is_prefix_of(path),
        RequestView::CopyFile(from, to) => target.is_prefix_of(from) && backups.is_prefix_of(to),
        RequestView::Modified(path) => target.is_prefix_of(path),
        RequestView::PathText(path) => backups.is_prefix_of(path),
        RequestView::Query(statement) => {
            ||| statement.db == order.source_db() && statement.read_only
            ||| target.is_prefix_of(statement.db)
        },
        RequestView::Execute(statement) => {
            ||| is_row_statement(order, statement)
            ||| is_mapping_statement(order, statement)
        },
        _ => true,
    }
}

/// What holds of a copying at each stage.
pub open spec fn on_course(order: CopyOrderView, copy: CopyView) -> bool {
    let backups = order.backup_dir.push(plain("sessions"@));
    &&& copy.order == order
    &&& match copy.stage {
        CopyStageView::Search(search) => {
            &&& search.well_formed()
            &&& !search.over()
            &&& search.projects == projects_root(order.home, order.source_edition)
        },
        CopyStageView::Read { source, target } => order.destination(source) == Some(target),
        CopyStageView::MakeDirs { target, text } => exists|source: PathView|
            #[trigger] order.destination(source) == Some(target),
        CopyStageView::Write { target, text } => exists|source: PathView|
            #[trigger] order.destination(source) == Some(target),
        CopyStageView::Back(backup) => {
            &&& backup.well_formed()
            &&& !backup.over()
            &&& backup.home == order.home
            &&& backup.edition == order.target_edition
            &&& backups.is_prefix_of(backup.root)
            &&& backups.is_prefix_of(copy.backup_root)
        },
        CopyStageView::Row(row) => {
            &&& !row.over()
            &&& row.source_db == order.source_db()
            &&& row.target_db == order.target_db()
            &&& row.new_cid == order.new_cid
            &&& row.target_uid == order.target_uid
            &&& backups.is_prefix_of(copy.backup_root)
        },
        CopyStageView::Register(registration) => {
            &&& registration_is_confined(
                registration,
                order.home,
                order.new_cid,
                order.target_uid,
                order.target_edition,
            )
            &&& !registration.over()
            &&& backups.is_prefix_of(copy.backup_root)
        },
        CopyStageView::BackupText { mapping_written } => backups.is_prefix_of(copy.backup_root),
        CopyStageView::Finished(Ok(report)) => report.id == order.cid && report.new_id
            == order.new_cid,
        _ => true,
    }
}

proof fn lemma_extends(root: PathView, more: PathView)
    ensures
        root.is_prefix_of(root + more),
{
    assert((root + more).subrange(0, root.len() as int) =~= root);
}

/// A copying stays on course, whatever comes back.
pub proof fn lemma_stays_on_course(order: CopyOrderView, copy: CopyView, reply: ReplyView)
    requires
        on_course(order, copy),
    ensures
        on_course(order, copy.advance(reply)),
{
    match copy.stage {
        CopyStageView::Stamp => {
            let stamp = text_or_empty(reply.text());
            lemma_below(order.backup_dir.push(plain("sessions"@)), plain(stamp));
        },
        CopyStageView::Register(registration) => {
            registration_stays_confined(
                registration,
                order.home,
                order.new_cid,
                order.target_uid,
                order.target_edition,
                reply,
            );
        },
        _ => {},
    }
}

proof fn lemma_on_course(order: CopyOrderView, replies: Seq<ReplyView>)
    ensures
        on_course(order, copy_start(order).after(replies)),
    decreases replies.len(),
{
    if replies.len() > 0 {
        lemma_on_course(order, replies.drop_last());
        lemma_stays_on_course(
            order,
            copy_start(order).after(replies.drop_last()),
            replies.last(),
        );
    }
}

/// Whatever comes back, the report of a session that was copied names that session
/// and the id of its copy.
pub proof fn report_names_the_session(order: CopyOrderView, replies: Seq<ReplyView>)
    ensures
        copy_start(order).after(replies).stage matches CopyStageView::Finished(Ok(report)) ==> {
            &&& report.id == order.cid
            &&& report.new_id == order.new_cid
        },
{
    lemma_on_course(order, replies);
}

proof fn lemma_search_permitted(order: CopyOrderView, search: HistoryView)
    requires
        search.well_formed(),
        search.projects == projects_root(order.home, order.source_edition),
    ensures
        search.request() matches Some(request) ==> is_permitted(order, request),
{
    let source = data_root(order.home, order.source_edition);
    search_stays_below_its_directory(search, ReplyView::Executed);
    lemma_below(source, plain("projects"@));
    if let Some(request) = search.request() {
        lemma_far_below(source, search.projects, read_place(request)->0);
    }
}

proof fn lemma_target_permitted(
    order: CopyOrderView,
    source: PathView,
    target: PathView,
)
    requires
        order.destination(source) == Some(target),
    ensures
        data_root(order.home, order.source_edition).is_prefix_of(source),
        projects_root(order.home, order.target_edition).is_prefix_of(target),
        projects_root(order.home, order.target_edition).is_prefix_of(parent_path(target)),
        target.last() == plain(transcript_name(order.new_cid)),
{
    let from = projects_root(order.home, order.source_edition);
    let to = projects_root(order.home, order.target_edition);
    let workspace = source.subrange(from.len() as int, source.len() - 1);
    lemma_below(data_root(order.home, order.source_edition), plain("projects"@));
    lemma_far_below(data_root(order.home, order.source_edition), from, source);
    lemma_extends(to, workspace);
    lemma_below(to + workspace, plain(transcript_name(order.new_cid)));
    lemma_far_below(to, to + workspace, target);
    assert(parent_path(target) =~= to + workspace);
}

/// The mapping databases of an edition are below its data directory.
pub proof fn lemma_mapping_place(home: PathView, edition: SessionEdition, db: PathView)
    requires
        mapping_paths(home, edition).contains(db),
    ensures
        data_root(home, edition).is_prefix_of(db),
{
    let root = data_root(home, edition);
    lemma_below(root, plain("edge-sync-mapping-v4.db"@));
    lemma_below(root, plain("edge-sync-mapping-v3.db"@));
    lemma_below(root, plain("edge-sync-mapping-v2.db"@));
}

/// The copying of a session asks for something until it is over.
pub proof fn copying_asks_until_it_is_over(order: CopyOrderView, replies: Seq<ReplyView>)
    ensures
        copy_start(order).after(replies).request() is None <==> copy_start(order).after(
            replies,
        ).over(),
{
    lemma_on_course(order, replies);
    lemma_asks(order, copy_start(order).after(replies));
}

/// A copying that is on course asks for something until it is over.
pub proof fn lemma_asks(order: CopyOrderView, copy: CopyView)
    requires
        on_course(order, copy),
    ensures
        copy.request() is None <==> copy.over(),
{
    if let CopyStageView::Register(registration) = copy.stage {
        registration_stays_confined(
            registration,
            order.home,
            order.new_cid,
            order.target_uid,
            order.target_edition,
            ReplyView::Executed,
        );
    }
}

/// Every reply brings a copying that is on course nearer to its end.
pub proof fn lemma_nearer(order: CopyOrderView, copy: CopyView, reply: ReplyView)
    requires
        on_course(order, copy),
        !copy.over(),
    ensures
        copy.well_formed(),
        decreases_to!(
            copy.stages_left(), copy.rank(), copy.looks_left()
            => copy.advance(reply).stages_left(), copy.advance(reply).rank(), copy.advance(
                reply,
            ).looks_left()
        ),
{
}

/// Whatever comes back, the copying of a session makes permitted requests alone:
/// the source account keeps all it has, and everything stays within the data of
/// the two editions and the backups, as far as ids are plain names.
pub proof fn copying_stays_within_bounds(order: CopyOrderView, replies: Seq<ReplyView>)
    ensures
        copy_start(order).after(replies).request() matches Some(request) ==> is_permitted(
            order,
            request,
        ),
{
    lemma_on_course(order, replies);
    lemma_permitted(order, copy_start(order).after(replies));
}

/// A copying that is on course makes a permitted request.
pub proof fn lemma_permitted(order: CopyOrderView, copy: CopyView)
    requires
        on_course(order, copy),
    ensures
        copy.request() matches Some(request) ==> is_permitted(order, request),
{
    let source = data_root(order.home, order.source_edition);
    let target = data_root(order.home, order.target_edition);
    lemma_below(source, plain("workbuddy.db"@));
    lemma_below(target, plain("workbuddy.db"@));
    match copy.stage {
        CopyStageView::Search(search) => {
            lemma_search_permitted(order, search);
        },
        CopyStageView::Read { source, target } => {
            lemma_target_permitted(order, source, target);
        },
        CopyStageView::MakeDirs { target, text } => {
            let source = choose|source: PathView|
                #[trigger] order.destination(source) == Some(target);
            lemma_target_permitted(order, source, target);
        },
        CopyStageView::Write { target, text } => {
            let source = choose|source: PathView|
                #[trigger] order.destination(source) == Some(target);
            lemma_target_permitted(order, source, target);
        },
        CopyStageView::Back(backup) => {
            let backups = order.backup_dir.push(plain("sessions"@));
            lemma_below(target, plain(part_name(backup.index)));
            lemma_below(backup.root, plain(part_name(backup.index)));
            lemma_far_below(backups, backup.root, backup.copy_of(backup.index));
        },
        CopyStageView::Row(row) => {
            if row.phase == RowCopyPhase::Insert {
                let statement = row.change().statement(order.target_db(), row.target_columns);
                assert(is_row_statement(order, statement));
            }
        },
        CopyStageView::Register(registration) => {
            registration_stays_confined(
                registration,
                order.home,
                order.new_cid,
                order.target_uid,
                order.target_edition,
                ReplyView::Executed,
            );
            match registration.stage {
                RegistrationStageView::Searching(search) => {
                    lemma_mapping_search_permitted(order, search);
                },
                RegistrationStageView::Inserting(insert) => {
                    lemma_mapping_place(order.home, order.target_edition, insert.db);
                },
                RegistrationStageView::Finished(_) => {},
            }
        },
        _ => {},
    }
}

proof fn lemma_mapping_search_permitted(order: CopyOrderView, search: EdgeSyncView)
    requires
        search_is_confined(search),
        search.home == order.home,
        search.edition == order.target_edition,
    ensures
        search.request() matches Some(request) ==> is_permitted(order, request),
{
    let places = mapping_paths(order.home, order.target_edition);
    match search.phase {
        EdgeSyncPhase::Files => {
            let path = places[search.flags.len() as int];
            assert(places.contains(path));
            lemma_mapping_place(order.home, order.target_edition, path);
        },
        EdgeSyncPhase::Times => {
            let path = search.candidates[search.times.len() as int];
            assert(places.contains(path));
            lemma_mapping_place(order.home, order.target_edition, path);
        },
        EdgeSyncPhase::Probe => {
            let path = search.ordered[search.index];
            assert(places.contains(path));
            lemma_mapping_place(order.home, order.target_edition, path);
        },
        EdgeSyncPhase::Finished => {},
    }
}

/// The place that a request changes, where it changes one.
pub open spec fn written_place(request: RequestView) -> Option<PathView> {
    match request {
        RequestView::WriteText(path, text) => Some(path),
        RequestView::CreateDirs(path) => Some(path),
        RequestView::CopyFile(from, to) => Some(to),
        RequestView::Execute(statement) => Some(statement.db),
        _ => None,
    }
}

/// Copying a session from one edition to another changes nothing in the data of
/// the edition that it comes from, where the backups of sessions are kept apart from
/// it. The ids are taken as plain names.
pub proof fn source_edition_is_left_alone(order: CopyOrderView, replies: Seq<ReplyView>)
    requires
        order.source_edition != order.target_edition,
        !data_root(order.home, order.source_edition).is_prefix_of(
            order.backup_dir.push(plain("sessions"@)),
        ),
        !order.backup_dir.push(plain("sessions"@)).is_prefix_of(
            data_root(order.home, order.source_edition),
        ),
    ensures
        copy_start(order).after(replies).request() matches Some(request) ==> written_place(
            request,
        ) matches Some(place) ==> !data_root(order.home, order.source_edition).is_prefix_of(place),
{
    let source = data_root(order.home, order.source_edition);
    let target = data_root(order.home, order.target_edition);
    let transcripts = projects_root(order.home, order.target_edition);
    let backups = order.backup_dir.push(plain("sessions"@));
    copying_stays_within_bounds(order, replies);
    if let Some(request) = copy_start(order).after(replies).request() {
        if let Some(place) = written_place(request) {
            lemma_below(target, plain("projects"@));
            lemma_below(target, plain("workbuddy.db"@));
            if let RequestView::Execute(statement) = request {
                if is_row_statement(order, statement) {
                    assert(target.is_prefix_of(place));
                } else {
                    let (db, now) = choose|db: PathView, now: i64|
                        mapping_paths(order.home, order.target_edition).contains(db) && statement
                            == #[trigger] mapping_statement(
                            db,
                            order.new_cid,
                            order.target_uid,
                            now,
                        );
                    lemma_mapping_place(order.home, order.target_edition, db);
                }
            }
            if transcripts.is_prefix_of(place) {
                lemma_far_below(target, transcripts, place);
            }
            if backups.is_prefix_of(place) {
                if source.is_prefix_of(place) {
                    lemma_apart(source, backups, place);
                }
            } else if source.is_prefix_of(place) {
                let at = order.home.len() as int;
                assert(place[at] == place.subrange(0, source.len() as int)[at]);
                assert(place[at] == place.subrange(0, target.len() as int)[at]);
                reveal_strlit(".workbuddy");
                reveal_strlit(".workbuddy-ai");
                assert(".workbuddy"@.len() != ".workbuddy-ai"@.len());
            }
        }
    }
}

/// Of two paths that have a path below them in common, one is below the other.
proof fn lemma_apart(one: PathView, other: PathView, path: PathView)
    requires
        one.is_prefix_of(path),
        other.is_prefix_of(path),
    ensures
        one.is_prefix_of(other) || other.is_prefix_of(one),
{
    if one.len() <= other.len() {
        assert(other.subrange(0, one.len() as int) =~= one);
    } else {
        assert(one.subrange(0, other.len() as int) =~= other);
    }
}

/// Whether a statement puts one row into the sessions whose id, where it gets one,
/// is `cid`, and whose owner, where it gets one, is `uid`.
pub open spec fn puts_session(statement: StatementView, cid: Seq<char>, uid: Seq<char>) -> bool {
    exists|carried: Seq<(Seq<char>, SqlView)>|
        {
            &&& statement.sql == insert_sql(names_of(carried))
            &&& statement.params == #[trigger] values_of(carried)
            &&& forall|i: int|
                #![trigger carried[i]]
                0 <= i < carried.len() ==> {
                    &&& carried[i].0 == "id"@ ==> carried[i].1 == SqlView::Text(cid)
                    &&& carried[i].0 == "user_id"@ ==> carried[i].1 == SqlView::Text(uid)
                }
        }
}

proof fn lemma_puts_session(
    change: RowChange,
    target_db: PathView,
    target_columns: Seq<Seq<char>>,
)
    ensures
        puts_session(
            change.statement(target_db, target_columns),
            change.new_cid,
            change.target_uid,
        ),
{
    let carried = change.carried(target_columns);
    carried_columns_are_those_with_a_value(change, target_columns);
    reveal_strlit("id");
    reveal_strlit("user_id");
    assert("id"@.len() != "user_id"@.len());
    assert forall|i: int| #![trigger carried[i]] 0 <= i < carried.len() implies {
        &&& carried[i].0 == "id"@ ==> carried[i].1 == SqlView::Text(change.new_cid)
        &&& carried[i].0 == "user_id"@ ==> carried[i].1 == SqlView::Text(change.target_uid)
    } by {
        assert(names_of(carried)[i] == carried[i].0);
        assert(values_of(carried)[i] == carried[i].1);
    }
    assert(change.statement(target_db, target_columns).params == values_of(carried));
}

proof fn lemma_transcript_names(one: Seq<char>, other: Seq<char>)
    requires
        transcript_name(one) == transcript_name(other),
    ensures
        one == other,
{
    assert(transcript_name(one).len() == one.len() + ".jsonl"@.len());
    assert(transcript_name(other).len() == other.len() + ".jsonl"@.len());
    assert(one =~= transcript_name(one).take(one.len() as int));
    assert(other =~= transcript_name(other).take(other.len() as int));
}

/// Whatever comes back, the one row that the copying of a session puts into the
/// sessions has the new id and the new owner.
pub proof fn copying_puts_the_session(order: CopyOrderView, replies: Seq<ReplyView>)
    ensures
        copy_start(order).after(replies).request() matches Some(RequestView::Execute(statement))
            ==> statement.db == data_directory(order.home, order.target_edition).push(
            NameView::Text("workbuddy.db"@),
        ) ==> puts_session(statement, order.new_cid, order.target_uid),
{
    copying_stays_within_bounds(order, replies);
    if let Some(RequestView::Execute(statement)) = copy_start(order).after(replies).request() {
        if is_row_statement(order, statement) {
            let (change, columns) = choose|change: RowChange, columns: Seq<Seq<char>>|
                change.new_cid == order.new_cid && change.target_uid == order.target_uid
                    && statement == #[trigger] change.statement(order.target_db(), columns);
            lemma_puts_session(change, order.target_db(), columns);
        } else {
            let (db, now) = choose|db: PathView, now: i64|
                mapping_paths(order.home, order.target_edition).contains(db) && statement
                    == #[trigger] mapping_statement(db, order.new_cid, order.target_uid, now);
            let paths = mapping_paths(order.home, order.target_edition);
            reveal_strlit("workbuddy.db");
            reveal_strlit("edge-sync-mapping-v4.db");
            reveal_strlit("edge-sync-mapping-v3.db");
            reveal_strlit("edge-sync-mapping-v2.db");
            assert("workbuddy.db"@.len() == 12);
            assert("edge-sync-mapping-v4.db"@.len() == 23);
            assert("edge-sync-mapping-v3.db"@.len() == 23);
            assert("edge-sync-mapping-v2.db"@.len() == 23);
            let i = paths.index_of(db);
            assert(paths[i] == db);
            assert(db.last() != NameView::Text("workbuddy.db"@));
            assert(statement.db.last() == db.last());
        }
    }
}

/// The session that is copied stays as it is, also within one edition: no file
/// that has the name of its transcript is written but as a backup, and the one
/// row that is put into the sessions has the new id and the new owner.
pub proof fn source_session_is_left_alone(order: CopyOrderView, replies: Seq<ReplyView>)
    requires
        order.new_cid != order.cid,
    ensures
        match copy_start(order).after(replies).request() {
            Some(RequestView::WriteText(path, text)) => path.last() != plain(transcript_name(order.cid)),
            Some(RequestView::CopyFile(from, to)) => order.backup_dir.push(
                plain("sessions"@),
            ).is_prefix_of(to),
            Some(RequestView::Execute(statement)) => {
                ||| statement.db == order.target_db() && puts_session(
                    statement,
                    order.new_cid,
                    order.target_uid,
                )
                ||| is_mapping_statement(order, statement)
            },
            _ => true,
        },
{
    copying_stays_within_bounds(order, replies);
    match copy_start(order).after(replies).request() {
        Some(RequestView::WriteText(path, text)) => {
            if path.last() == plain(transcript_name(order.cid)) {
                lemma_transcript_names(order.cid, order.new_cid);
            }
        },
        Some(RequestView::Execute(statement)) => {
            if is_row_statement(order, statement) {
                let (change, columns) = choose|change: RowChange, columns: Seq<Seq<char>>|
                    change.new_cid == order.new_cid && change.target_uid == order.target_uid
                        && statement == #[trigger] change.statement(order.target_db(), columns);
                lemma_puts_session(change, order.target_db(), columns);
            }
        },
        _ => {},
    }
}

/// A session of a Claw workspace is refused as soon as that is known, before
/// anything is written.
pub proof fn claw_session_is_refused(order: CopyOrderView, reply: ReplyView)
    requires
        in_claw(reply.first_value()),
    ensures
        copy_start(order).request() matches Some(request) && !request.writes(),
        copy_start(order).advance(reply).stage == CopyStageView::Finished(Err(claw_refusal())),
{
}

/// The row of a session is copied only once the backup of the target database is
/// over, and the session is registered only once its row is copied.
pub proof fn backup_comes_before_the_copy(copy: CopyView, reply: ReplyView)
    ensures
        copy.advance(reply).stage is Row && !(copy.stage is Row) ==> {
            &&& copy.stage matches CopyStageView::Back(backup)
            &&& backup.advance(reply).over()
        },
        copy.advance(reply).stage is Register && !(copy.stage is Register) ==> {
            &&& copy.stage matches CopyStageView::Row(row)
            &&& row.advance(reply).over()
            &&& row.advance(reply).result is Ok
        },
        copy.request() matches Some(request) ==> request is Execute ==> copy.stage is Row
            || copy.stage is Register,
{
}

/// Whatever comes back, what the copying of a session changes belongs to the target
/// edition or to the backups: the row and the mapping go into databases of that
/// edition, the transcript below its transcripts, and it is the files of that edition
/// that are backed up.
pub proof fn copying_changes_the_target_edition(order: CopyOrderView, replies: Seq<ReplyView>)
    ensures
        ({
            let target = data_directory(order.home, order.target_edition);
            let transcripts = transcripts_directory(order.home, order.target_edition);
            let backups = order.backup_dir.push(NameView::Text("sessions"@));
            match copy_start(order).after(replies).request() {
                Some(RequestView::Execute(statement)) => target.is_prefix_of(statement.db),
                Some(RequestView::WriteText(path, text)) => {
                    &&& transcripts.is_prefix_of(path)
                    &&& path.last() == NameView::Text(order.new_cid + ".jsonl"@)
                },
                Some(RequestView::CreateDirs(path)) => transcripts.is_prefix_of(path)
                    || backups.is_prefix_of(path),
                Some(RequestView::CopyFile(from, to)) => target.is_prefix_of(from)
                    && backups.is_prefix_of(to),
                _ => true,
            }
        }),
{
    let target = data_root(order.home, order.target_edition);
    assert(target == data_directory(order.home, order.target_edition));
    copying_stays_within_bounds(order, replies);
    if let Some(RequestView::Execute(statement)) = copy_start(order).after(replies).request() {
        if is_row_statement(order, statement) {
            lemma_below(target, plain("workbuddy.db"@));
        } else {
            let (db, now) = choose|db: PathView, now: i64|
                mapping_paths(order.home, order.target_edition).contains(db) && statement
                    == #[trigger] mapping_statement(db, order.new_cid, order.target_uid, now);
            lemma_mapping_place(order.home, order.target_edition, db);
        }
    }
}

/// What the copying of a session asked for when it had `k` of the replies.
pub open spec fn asked_at(order: CopyOrderView, replies: Seq<ReplyView>, k: int) -> Option<
    RequestView,
> {
    copy_start(order).after(replies.take(k)).request()
}

/// Whether a reply tells that a transcript was written.
pub open spec fn tells_of_transcript(request: Option<RequestView>, reply: ReplyView) -> bool {
    request is Some && request->0 is WriteText && reply == ReplyView::Flag(true)
}

/// Whether a reply tells that the new session was entered into a mapping database.
pub open spec fn tells_of_mapping(
    order: CopyOrderView,
    request: Option<RequestView>,
    reply: ReplyView,
) -> bool {
    &&& request is Some
    &&& request->0 is Execute
    &&& is_mapping_statement(order, request->0->Execute_0)
    &&& reply == ReplyView::Executed
}

/// Whether a reply tells that the row was put in, or that there is nothing to put it
/// into or to take it from.
pub open spec fn tells_of_row(
    order: CopyOrderView,
    request: Option<RequestView>,
    reply: ReplyView,
) -> bool {
    let source_db = data_directory(order.home, order.source_edition).push(
        NameView::Text("workbuddy.db"@),
    );
    let target_db = data_directory(order.home, order.target_edition).push(
        NameView::Text("workbuddy.db"@),
    );
    match request {
        Some(RequestView::Execute(statement)) => statement.db == target_db && puts_session(
            statement,
            order.new_cid,
            order.target_uid,
        ) && reply == ReplyView::Executed,
        Some(RequestView::IsFile(path)) => (path == source_db || path == target_db) && reply
            != ReplyView::Flag(true),
        Some(RequestView::Query(statement)) => {
            &&& statement.db == source_db || statement.db == target_db
            &&& statement.sql
                == "SELECT EXISTS(SELECT 1 FROM sqlite_master WHERE type='table' AND name=?1)"@
            &&& statement.params == seq![SqlView::Text("sessions"@)]
            &&& reply.first_value() != Some(SqlView::Integer(1))
        },
        _ => false,
    }
}

/// Whether a transcript was written with reply `k`.
#[verifier::opaque]
pub open spec fn wrote_transcript(order: CopyOrderView, replies: Seq<ReplyView>, k: int) -> bool {
    tells_of_transcript(asked_at(order, replies, k), replies[k])
}

/// Whether the mapping was entered with reply `k`.
#[verifier::opaque]
pub open spec fn entered_mapping(order: CopyOrderView, replies: Seq<ReplyView>, k: int) -> bool {
    tells_of_mapping(order, asked_at(order, replies, k), replies[k])
}

/// Whether reply `k` tells that the row was put in, or that there is nothing to put it
/// into or to take it from.
#[verifier::opaque]
pub open spec fn settled_row(order: CopyOrderView, replies: Seq<ReplyView>, k: int) -> bool {
    tells_of_row(order, asked_at(order, replies, k), replies[k])
}

/// Whether a registration has not written its mapping yet.
spec fn nothing_written(registration: RegistrationView) -> bool {
    registration.stage matches RegistrationStageView::Inserting(insert) ==> !insert.written
}

/// What the parts of a report rest on, at each stage.
spec fn rests(copy: CopyView, wrote: bool, entered: bool, settled: bool) -> bool {
    &&& copy.jsonl_copied <==> wrote
    &&& match copy.stage {
        CopyStageView::WorkingDir => !wrote && !entered,
        CopyStageView::Search(_) => !wrote && !entered,
        CopyStageView::Read { source, target } => !wrote && !entered,
        CopyStageView::MakeDirs { target, text } => !wrote && !entered,
        CopyStageView::Write { target, text } => !wrote && !entered,
        CopyStageView::Stamp => !entered,
        CopyStageView::Back(_) => !entered,
        CopyStageView::Row(_) => !entered,
        CopyStageView::Register(registration) => settled && !entered && nothing_written(
            registration,
        ),
        CopyStageView::BackupText { mapping_written } => settled && (mapping_written <==> entered),
        CopyStageView::Finished(Ok(report)) => {
            &&& settled
            &&& report.jsonl_copied == copy.jsonl_copied
            &&& report.mapping_written <==> entered
        },
        CopyStageView::Finished(Err(_)) => true,
    }
}

proof fn lemma_row_is_no_mapping(order: CopyOrderView, statement: StatementView)
    requires
        statement.db == order.target_db(),
    ensures
        !is_mapping_statement(order, statement),
{
    if is_mapping_statement(order, statement) {
        let (db, now) = choose|db: PathView, now: i64|
            mapping_paths(order.home, order.target_edition).contains(db) && statement
                == #[trigger] mapping_statement(db, order.new_cid, order.target_uid, now);
        let paths = mapping_paths(order.home, order.target_edition);
        reveal_strlit("workbuddy.db");
        reveal_strlit("edge-sync-mapping-v4.db");
        reveal_strlit("edge-sync-mapping-v3.db");
        reveal_strlit("edge-sync-mapping-v2.db");
        assert("workbuddy.db"@.len() == 12);
        assert("edge-sync-mapping-v4.db"@.len() == 23);
        assert("edge-sync-mapping-v3.db"@.len() == 23);
        assert("edge-sync-mapping-v2.db"@.len() == 23);
        let i = paths.index_of(db);
        assert(paths[i] == db);
        assert(db.last() != plain("workbuddy.db"@));
        assert(statement.db.last() == db.last());
    }
}

/// How one more reply bears on the row.
proof fn lemma_row_told(order: CopyOrderView, row: RowCopyView, reply: ReplyView)
    requires
        !row.over(),
        row.source_db == order.source_db(),
        row.target_db == order.target_db(),
        row.new_cid == order.new_cid,
        row.target_uid == order.target_uid,
    ensures
        !tells_of_mapping(order, row.request(), reply),
        !tells_of_transcript(row.request(), reply),
        row.advance(reply).over() && row.advance(reply).result is Ok ==> tells_of_row(
            order,
            row.request(),
            reply,
        ),
{
    if row.phase == RowCopyPhase::Insert {
        let statement = row.change().statement(order.target_db(), row.target_columns);
        lemma_row_is_no_mapping(order, statement);
        lemma_puts_session(row.change(), order.target_db(), row.target_columns);
    }
}

/// How one more reply bears on the registration.
proof fn lemma_registration_told(
    order: CopyOrderView,
    registration: RegistrationView,
    reply: ReplyView,
)
    requires
        !registration.over(),
        nothing_written(registration),
        registration_is_confined(
            registration,
            order.home,
            order.new_cid,
            order.target_uid,
            order.target_edition,
        ),
    ensures
        nothing_written(registration.advance(reply)),
        !tells_of_transcript(registration.request(), reply),
        registration.advance(reply).over() ==> (registration.advance(reply).written()
            <==> tells_of_mapping(order, registration.request(), reply)),
        !registration.advance(reply).over() ==> !tells_of_mapping(
            order,
            registration.request(),
            reply,
        ),
{
    match registration.stage {
        RegistrationStageView::Searching(search) => {},
        RegistrationStageView::Inserting(insert) => {
            if insert.phase == MappingPhase::Insert {
                let statement = mapping_statement(
                    insert.db,
                    order.new_cid,
                    order.target_uid,
                    insert.now,
                );
                assert(is_mapping_statement(order, statement));
            }
        },
        RegistrationStageView::Finished(_) => {},
    }
}

/// How one more reply bears on what a report rests on.
proof fn lemma_step_rests(
    order: CopyOrderView,
    before: CopyView,
    reply: ReplyView,
    wrote: bool,
    entered: bool,
    settled: bool,
)
    requires
        on_course(order, before),
        rests(before, wrote, entered, settled),
    ensures
        rests(
            before.advance(reply),
            wrote || tells_of_transcript(before.request(), reply),
            entered || tells_of_mapping(order, before.request(), reply),
            settled || tells_of_row(order, before.request(), reply),
        ),
{
    match before.stage {
        CopyStageView::Row(row) => {
            lemma_row_told(order, row, reply);
        },
        CopyStageView::Register(registration) => {
            lemma_registration_told(order, registration, reply);
        },
        CopyStageView::Search(search) => {
            search_stays_below_its_directory(search, reply);
        },
        _ => {},
    }
}

proof fn lemma_rests(order: CopyOrderView, replies: Seq<ReplyView>) -> (told: (bool, bool, bool))
    ensures
        rests(copy_start(order).after(replies), told.0, told.1, told.2),
        told.0 <==> exists|k: int|
            0 <= k < replies.len() && #[trigger] wrote_transcript(order, replies, k),
        told.1 <==> exists|k: int|
            0 <= k < replies.len() && #[trigger] entered_mapping(order, replies, k),
        told.2 <==> exists|k: int|
            0 <= k < replies.len() && #[trigger] settled_row(order, replies, k),
    decreases replies.len(),
{
    if replies.len() == 0 {
        (false, false, false)
    } else {
        let front = replies.drop_last();
        let reply = replies.last();
        let last = replies.len() - 1;
        let before = copy_start(order).after(front);
        let told = lemma_rests(order, front);
        lemma_on_course(order, front);
        lemma_step_rests(order, before, reply, told.0, told.1, told.2);
        lemma_told_last(order, replies);
        lemma_told_before(order, replies);
        (
            told.0 || wrote_transcript(order, replies, last),
            told.1 || entered_mapping(order, replies, last),
            told.2 || settled_row(order, replies, last),
        )
    }
}

/// What the last reply tells.
proof fn lemma_told_last(order: CopyOrderView, replies: Seq<ReplyView>)
    requires
        replies.len() > 0,
    ensures
        ({
            let request = copy_start(order).after(replies.drop_last()).request();
            let last = replies.len() - 1;
            &&& wrote_transcript(order, replies, last) == tells_of_transcript(
                request,
                replies.last(),
            )
            &&& entered_mapping(order, replies, last) == tells_of_mapping(
                order,
                request,
                replies.last(),
            )
            &&& settled_row(order, replies, last) == tells_of_row(order, request, replies.last())
        }),
{
    reveal(wrote_transcript);
    reveal(entered_mapping);
    reveal(settled_row);
    assert(replies.take(replies.len() - 1) =~= replies.drop_last());
}

/// What earlier replies tell is what they told.
proof fn lemma_told_before(order: CopyOrderView, replies: Seq<ReplyView>)
    requires
        replies.len() > 0,
    ensures
        ({
            let front = replies.drop_last();
            let last = replies.len() - 1;
            &&& forall|k: int|
                #![trigger wrote_transcript(order, replies, k)]
                #![trigger wrote_transcript(order, front, k)]
                0 <= k < last ==> wrote_transcript(order, replies, k) == wrote_transcript(
                    order,
                    front,
                    k,
                )
            &&& forall|k: int|
                #![trigger entered_mapping(order, replies, k)]
                #![trigger entered_mapping(order, front, k)]
                0 <= k < last ==> entered_mapping(order, replies, k) == entered_mapping(
                    order,
                    front,
                    k,
                )
            &&& forall|k: int|
                #![trigger settled_row(order, replies, k)]
                #![trigger settled_row(order, front, k)]
                0 <= k < last ==> settled_row(order, replies, k) == settled_row(order, front, k)
        }),
{
    let front = replies.drop_last();
    let last = replies.len() - 1;
    reveal(wrote_transcript);
    reveal(entered_mapping);
    reveal(settled_row);
    assert forall|k: int| 0 <= k < last implies #[trigger] asked_at(order, replies, k) == asked_at(
        order,
        front,
        k,
    ) && replies[k] == front[k] by {
        assert(replies.take(k) =~= front.take(k));
    }
}

/// Whatever comes back, the report on a session that was copied says what was done: that
/// its transcript was copied exactly where one was written, and that it was mapped exactly
/// where the mapping was entered. And a session is reported as copied only where its row
/// was put in, or where a database or its sessions are not there.
pub proof fn report_says_what_was_done(order: CopyOrderView, replies: Seq<ReplyView>)
    ensures
        copy_start(order).after(replies).stage matches CopyStageView::Finished(Ok(report)) ==> {
            let n = replies.len();
            &&& report.jsonl_copied <==> exists|k: int|
                0 <= k < n && #[trigger] wrote_transcript(order, replies, k)
            &&& report.mapping_written <==> exists|k: int|
                0 <= k < n && #[trigger] entered_mapping(order, replies, k)
            &&& exists|k: int| 0 <= k < n && #[trigger] settled_row(order, replies, k)
        },
{
    lemma_rests(order, replies);
}

} // verus!

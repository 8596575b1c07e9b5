use crate::backup::{backup_start, part_name, BackupPhase, BackupView};
use crate::copy::{copy_start, CopyOrderView, CopyStageView, CopyView};
use crate::edition::SessionEdition;
use crate::history::{history_start, HistoryView};
use crate::io::{ReplyView, RequestView, World};
use crate::laws::backup::{backup_copies_what_is_there, database_files, lemma_part_names};
use crate::laws::edge_sync::mapping_db;
use crate::laws::history::{search_finds_transcript, transcript};
use crate::laws::layout::{data_directory, transcripts_directory};
use crate::laws::mapping::{
    mapping_changes, registration_changes_the_database_in_use, registration_ends,
    registration_is_confined, registration_stays_confined,
};
use crate::laws::row_copy::{copying_ends_with_its_result, copying_result};
use crate::layout::{data_root, destination, projects_root};
use crate::mapping::{registration_start, RegistrationView};
use crate::path::{parent_path, plain, NameView, PathView};
use crate::row_copy::{
    claw_row, columns_query, row_copy_start, row_query, RowChange, RowCopyPhase, RowCopyView,
};
use crate::sql::{is_one, table_query, SqlView, StatementView};
use crate::text::replaced;
use crate::workspace::is_claw;
use vstd::prelude::*;

verus! {

/// The changes that a backup asks for up to its end, where `world` answers.
pub open spec fn changes_of_backup(backup: BackupView, world: World) -> Seq<RequestView>
    decreases backup.rank(),
{
    match backup.request() {
        Some(request) if backup.well_formed() => {
            let later = changes_of_backup(backup.advance(world(request)), world);
            if request.writes() {
                seq![request] + later
            } else {
                later
            }
        },
        _ => Seq::empty(),
    }
}

/// The changes that the copying of a row asks for up to its end, where `world`
/// answers.
pub open spec fn changes_of_row(row: RowCopyView, world: World) -> Seq<RequestView>
    decreases row.rank(),
{
    match row.request() {
        Some(request) => {
            let later = changes_of_row(row.advance(world(request)), world);
            if request.writes() {
                seq![request] + later
            } else {
                later
            }
        },
        None => Seq::empty(),
    }
}

/// The changes that the copying of a session asks for up to its end, where `world`
/// answers.
pub open spec fn changes_of_copy(copy: CopyView, world: World) -> Seq<RequestView>
    decreases copy.stages_left(), copy.rank(), copy.looks_left(),
{
    match copy.request() {
        Some(request) if copy.well_formed() => {
            let later = changes_of_copy(copy.advance(world(request)), world);
            if request.writes() {
                seq![request] + later
            } else {
                later
            }
        },
        _ => Seq::empty(),
    }
}

/// The transcript of the session is written anew: with the new id in place of the
/// old one, under the new id, in the same folders of the target edition, which are
/// made first.
pub open spec fn transcript_changes(world: World, order: CopyOrderView) -> Seq<RequestView> {
    match transcript(
        world,
        transcripts_directory(order.home, order.source_edition),
        order.cid + ".jsonl"@,
    ) {
        Some(source) => match destination(
            order.home,
            source,
            order.source_edition,
            order.target_edition,
            order.new_cid,
        ) {
            Some(target) => match world(RequestView::ReadText(source)) {
                ReplyView::Text(Some(text)) => seq![
                    RequestView::CreateDirs(target.drop_last()),
                    RequestView::WriteText(target, replaced(text, order.cid, order.new_cid)),
                ],
                _ => Seq::empty(),
            },
            None => Seq::empty(),
        },
        None => Seq::empty(),
    }
}

/// One file of a database is copied, where it is there.
pub open spec fn file_copied(
    world: World,
    data: PathView,
    root: PathView,
    name: Seq<char>,
) -> Seq<RequestView> {
    if world(RequestView::IsFile(data.push(NameView::Text(name)))) == ReplyView::Flag(true) {
        seq![
            RequestView::CopyFile(data.push(NameView::Text(name)), root.push(NameView::Text(name))),
        ]
    } else {
        Seq::empty()
    }
}

/// The database of an edition is copied, with the files beside it, into a directory
/// that is made first.
pub open spec fn backup_changes(
    world: World,
    home: PathView,
    root: PathView,
    edition: SessionEdition,
) -> Seq<RequestView> {
    let data = data_directory(home, edition);
    let make = RequestView::CreateDirs(root);
    if world(RequestView::IsFile(data.push(NameView::Text("workbuddy.db"@)))) != ReplyView::Flag(
        true,
    ) {
        Seq::empty()
    } else if world(make) != ReplyView::Flag(true) {
        seq![make]
    } else {
        seq![make] + file_copied(world, data, root, "workbuddy.db"@) + file_copied(
            world,
            data,
            root,
            "workbuddy.db-wal"@,
        ) + file_copied(world, data, root, "workbuddy.db-shm"@)
    }
}

/// The copy of the row of the session is put into the target database, where both
/// databases are there with their sessions and the row is there and not of a Claw
/// workspace.
pub open spec fn row_changes(
    world: World,
    source_db: PathView,
    target_db: PathView,
    new_cid: Seq<char>,
    cid: Seq<char>,
    source_uid: Seq<char>,
    target_uid: Seq<char>,
) -> Seq<RequestView> {
    let found = world(RequestView::Query(row_query(source_db, cid, source_uid)));
    let table = world(RequestView::Query(columns_query(target_db)));
    if world(RequestView::IsFile(source_db)).yes() && world(RequestView::IsFile(target_db)).yes()
        && is_one(
        world(RequestView::Query(table_query(source_db, true, "sessions"@))).first_value(),
    ) && is_one(
        world(RequestView::Query(table_query(target_db, false, "sessions"@))).first_value(),
    ) && found is Rows && found->Rows_0.rows.len() > 0 && !claw_row(
        found->Rows_0.columns,
        found->Rows_0.rows[0],
    ) && table is Rows {
        let change = RowChange {
            columns: found->Rows_0.columns,
            values: found->Rows_0.rows[0],
            new_cid,
            target_uid,
            now: world(RequestView::NowMillis).number(),
        };
        seq![RequestView::Execute(change.statement(target_db, table->Rows_0.columns))]
    } else {
        Seq::empty()
    }
}

/// The changes by which a session is copied, where `world` answers: its transcript,
/// the backup of the target database, its row, and its mapping, in this order. A
/// session of a Claw workspace changes nothing, and a row that cannot be copied is
/// not mapped.
pub open spec fn copy_changes(world: World, order: CopyOrderView) -> Seq<RequestView> {
    let source_db = data_directory(order.home, order.source_edition).push(
        NameView::Text("workbuddy.db"@),
    );
    let target_db = data_directory(order.home, order.target_edition).push(
        NameView::Text("workbuddy.db"@),
    );
    let working_dir = world(
        RequestView::Query(
            StatementView {
                db: source_db,
                read_only: true,
                sql: "SELECT cwd FROM sessions WHERE id = ?1 AND user_id = ?2"@,
                params: seq![SqlView::Text(order.cid), SqlView::Text(order.source_uid)],
            },
        ),
    ).first_value();
    let backup_root = order.backup_dir.push(NameView::Text("sessions"@)).push(
        NameView::Text(
            match world(RequestView::Stamp) {
                ReplyView::Text(Some(stamp)) => stamp,
                _ => Seq::empty(),
            },
        ),
    );
    let row_result = copying_result(
        world,
        source_db,
        target_db,
        order.new_cid,
        order.cid,
        order.source_uid,
        order.target_uid,
    );
    if working_dir is Some && working_dir->0 is Text && is_claw(working_dir->0->Text_0) {
        Seq::empty()
    } else {
        transcript_changes(world, order) + backup_changes(
            world,
            order.home,
            backup_root,
            order.target_edition,
        ) + row_changes(
            world,
            source_db,
            target_db,
            order.new_cid,
            order.cid,
            order.source_uid,
            order.target_uid,
        ) + (if row_result is Ok {
            match mapping_db(world, order.home, order.target_edition, Some(order.target_uid)) {
                Some(db) => mapping_changes(world, db, order.new_cid, order.target_uid),
                None => Seq::empty(),
            }
        } else {
            Seq::empty()
        })
    }
}

proof fn lemma_search(world: World, copy: CopyView, search: HistoryView)
    requires
        copy.stage == CopyStageView::Search(search),
        search.well_formed(),
        !search.over(),
    ensures
        changes_of_copy(copy, world) == changes_of_copy(
            copy.with_search(search.settled(world)),
            world,
        ),
    decreases search.rank(), search.looks_left(),
{
    let reply = world(search.request()->0);
    let next = search.advance(reply);
    let after = copy.advance(reply);
    assert(changes_of_copy(copy, world) == changes_of_copy(after, world));
    assert(search.settled(world) == next.settled(world));
    if !next.over() {
        lemma_search(world, after, next);
        assert(after.with_search(next.settled(world)) == copy.with_search(next.settled(world)));
    } else {
        assert(next.settled(world) == next);
    }
}

proof fn lemma_backup(world: World, copy: CopyView, backup: BackupView)
    requires
        copy.stage == CopyStageView::Back(backup),
        backup.well_formed(),
        !backup.over(),
    ensures
        changes_of_copy(copy, world) == changes_of_backup(backup, world) + changes_of_copy(
            copy.with_backup(backup.settled(world)),
            world,
        ),
    decreases backup.rank(),
{
    let request = backup.request()->0;
    let reply = world(request);
    let next = backup.advance(reply);
    let after = copy.advance(reply);
    let first = if request.writes() {
        seq![request]
    } else {
        Seq::empty()
    };
    assert(changes_of_copy(copy, world) =~= first + changes_of_copy(after, world));
    assert(changes_of_backup(backup, world) =~= first + changes_of_backup(next, world));
    assert(backup.settled(world) == next.settled(world));
    let rest = changes_of_copy(copy.with_backup(backup.settled(world)), world);
    if !next.over() {
        lemma_backup(world, after, next);
        assert(after.with_backup(next.settled(world)) == copy.with_backup(next.settled(world)));
    } else {
        assert(next.settled(world) == next);
        assert(changes_of_backup(next, world) =~= Seq::empty());
        assert(changes_of_copy(after, world) =~= changes_of_backup(next, world) + rest);
    }
    assert(first + (changes_of_backup(next, world) + rest) =~= first + changes_of_backup(
        next,
        world,
    ) + rest);
}

proof fn lemma_row(world: World, copy: CopyView, row: RowCopyView)
    requires
        copy.stage == CopyStageView::Row(row),
        !row.over(),
    ensures
        changes_of_copy(copy, world) == changes_of_row(row, world) + changes_of_copy(
            copy.with_row(row.settled(world)),
            world,
        ),
    decreases row.rank(),
{
    let request = row.request()->0;
    let reply = world(request);
    let next = row.advance(reply);
    let after = copy.advance(reply);
    let first = if request.writes() {
        seq![request]
    } else {
        Seq::empty()
    };
    assert(changes_of_copy(copy, world) =~= first + changes_of_copy(after, world));
    assert(changes_of_row(row, world) =~= first + changes_of_row(next, world));
    assert(row.settled(world) == next.settled(world));
    let rest = changes_of_copy(copy.with_row(row.settled(world)), world);
    if !next.over() {
        lemma_row(world, after, next);
        assert(after.with_row(next.settled(world)) == copy.with_row(next.settled(world)));
    } else {
        assert(next.settled(world) == next);
        assert(changes_of_row(next, world) =~= Seq::empty());
        assert(changes_of_copy(after, world) =~= changes_of_row(next, world) + rest);
    }
    assert(first + (changes_of_row(next, world) + rest) =~= first + changes_of_row(next, world)
        + rest);
}

proof fn lemma_registration(
    world: World,
    copy: CopyView,
    registration: RegistrationView,
    home: PathView,
    cid: Seq<char>,
    uid: Seq<char>,
    edition: SessionEdition,
)
    requires
        copy.stage == CopyStageView::Register(registration),
        registration_is_confined(registration, home, cid, uid, edition),
        registration.request() is Some,
    ensures
        changes_of_copy(copy, world) == registration.changes(world) + changes_of_copy(
            copy.with_registration(registration.settled(world)),
            world,
        ),
    decreases registration.rank(), registration.looks_left(),
{
    let request = registration.request()->0;
    let reply = world(request);
    let next = registration.advance(reply);
    let after = copy.advance(reply);
    registration_stays_confined(registration, home, cid, uid, edition, reply);
    assert(registration.well_formed());
    let first = if request.writes() {
        seq![request]
    } else {
        Seq::empty()
    };
    assert(changes_of_copy(copy, world) =~= first + changes_of_copy(after, world));
    assert(registration.changes(world) =~= first + next.changes(world));
    assert(registration.settled(world) == next.settled(world));
    let rest = changes_of_copy(copy.with_registration(registration.settled(world)), world);
    if !next.over() {
        registration_stays_confined(next, home, cid, uid, edition, reply);
        assert(next.request() is Some);
        lemma_registration(world, after, next, home, cid, uid, edition);
        assert(after.with_registration(next.settled(world)) == copy.with_registration(
            next.settled(world),
        ));
    } else {
        assert(next.settled(world) == next);
        assert(next.changes(world) =~= Seq::empty());
        assert(changes_of_copy(after, world) =~= next.changes(world) + rest);
    }
    assert(first + (next.changes(world) + rest) =~= first + next.changes(world) + rest);
}

/// The files from `index` on are copied, where they are there.
spec fn parts_copied(world: World, data: PathView, root: PathView, index: int) -> Seq<RequestView>
    decreases 3 - index,
{
    if index >= 3 {
        Seq::empty()
    } else {
        file_copied(world, data, root, part_name(index)) + parts_copied(
            world,
            data,
            root,
            index + 1,
        )
    }
}

proof fn lemma_parts(world: World, backup: BackupView)
    requires
        backup.phase == BackupPhase::Part,
        backup.well_formed(),
    ensures
        changes_of_backup(backup, world) == parts_copied(
            world,
            data_root(backup.home, backup.edition),
            backup.root,
            backup.index,
        ),
    decreases 3 - backup.index,
{
    let data = data_root(backup.home, backup.edition);
    let look = RequestView::IsFile(backup.part(backup.index));
    let looked = backup.advance(world(look));
    let after = backup.next();
    let rest = parts_copied(world, data, backup.root, backup.index + 1);
    if after.phase == BackupPhase::Part {
        lemma_parts(world, after);
    } else {
        assert(changes_of_backup(after, world) =~= Seq::empty());
        assert(rest =~= Seq::empty());
    }
    assert(changes_of_backup(backup, world) == changes_of_backup(looked, world));
    if world(look).yes() {
        let copy = RequestView::CopyFile(backup.part(backup.index), backup.copy_of(backup.index));
        assert(changes_of_backup(looked, world) == seq![copy] + changes_of_backup(after, world));
        assert(file_copied(world, data, backup.root, part_name(backup.index)) =~= seq![copy]);
    } else {
        assert(file_copied(world, data, backup.root, part_name(backup.index)) =~= Seq::empty());
        assert(changes_of_backup(backup, world) =~= rest);
    }
}

proof fn lemma_backup_changes(
    world: World,
    home: PathView,
    root: PathView,
    edition: SessionEdition,
)
    ensures
        changes_of_backup(backup_start(home, root, edition), world) == backup_changes(
            world,
            home,
            root,
            edition,
        ),
{
    let start = backup_start(home, root, edition);
    let data = data_directory(home, edition);
    assert(data == data_root(home, edition));
    let look = RequestView::IsFile(data.push(NameView::Text("workbuddy.db"@)));
    let make = RequestView::CreateDirs(root);
    let looked = start.advance(world(look));
    assert(changes_of_backup(start, world) == changes_of_backup(looked, world));
    if world(look).yes() {
        let made = looked.advance(world(make));
        assert(changes_of_backup(looked, world) == seq![make] + changes_of_backup(made, world));
        if world(make).yes() {
            lemma_parts(world, made);
            lemma_part_names();
            let p0 = file_copied(world, data, root, "workbuddy.db"@);
            let p1 = file_copied(world, data, root, "workbuddy.db-wal"@);
            let p2 = file_copied(world, data, root, "workbuddy.db-shm"@);
            assert(database_files()[0] == "workbuddy.db"@);
            assert(database_files()[1] == "workbuddy.db-wal"@);
            assert(database_files()[2] == "workbuddy.db-shm"@);
            assert(parts_copied(world, data, root, 3) =~= Seq::empty());
            assert(parts_copied(world, data, root, 2) =~= p2);
            assert(parts_copied(world, data, root, 1) =~= p1 + p2);
            assert(parts_copied(world, data, root, 0) =~= p0 + p1 + p2);
            assert(seq![make] + (p0 + p1 + p2) =~= seq![make] + p0 + p1 + p2);
        } else {
            assert(changes_of_backup(made, world) =~= Seq::empty());
            assert(seq![make] + changes_of_backup(made, world) =~= seq![make]);
        }
    } else {
        assert(changes_of_backup(looked, world) =~= Seq::empty());
    }
}

proof fn lemma_row_changes(
    world: World,
    source_db: PathView,
    target_db: PathView,
    new_cid: Seq<char>,
    cid: Seq<char>,
    source_uid: Seq<char>,
    target_uid: Seq<char>,
)
    ensures
        changes_of_row(
            row_copy_start(source_db, target_db, new_cid, cid, source_uid, target_uid),
            world,
        ) == row_changes(world, source_db, target_db, new_cid, cid, source_uid, target_uid),
{
    let s0 = row_copy_start(source_db, target_db, new_cid, cid, source_uid, target_uid);
    let s1 = s0.advance(world(s0.request()->0));
    assert(changes_of_row(s0, world) == changes_of_row(s1, world));
    if s1.over() {
        assert(changes_of_row(s1, world) =~= Seq::empty());
    } else {
        let s2 = s1.advance(world(s1.request()->0));
        assert(changes_of_row(s1, world) == changes_of_row(s2, world));
        if s2.over() {
            assert(changes_of_row(s2, world) =~= Seq::empty());
        } else {
            let s3 = s2.advance(world(s2.request()->0));
            assert(changes_of_row(s2, world) == changes_of_row(s3, world));
            if s3.over() {
                assert(changes_of_row(s3, world) =~= Seq::empty());
            } else {
                let s4 = s3.advance(world(s3.request()->0));
                assert(changes_of_row(s3, world) == changes_of_row(s4, world));
                if s4.over() {
                    assert(changes_of_row(s4, world) =~= Seq::empty());
                } else {
                    lemma_row_changes_from_row(world, s4);
                }
            }
        }
    }
}

proof fn lemma_row_changes_from_row(world: World, row: RowCopyView)
    requires
        row.phase == RowCopyPhase::SourceRow,
    ensures
        ({
            let found = world(
                RequestView::Query(row_query(row.source_db, row.cid, row.source_uid)),
            );
            let table = world(RequestView::Query(columns_query(row.target_db)));
            changes_of_row(row, world) == if found is Rows && found->Rows_0.rows.len() > 0
                && !claw_row(found->Rows_0.columns, found->Rows_0.rows[0]) && table is Rows {
                let change = RowChange {
                    columns: found->Rows_0.columns,
                    values: found->Rows_0.rows[0],
                    new_cid: row.new_cid,
                    target_uid: row.target_uid,
                    now: world(RequestView::NowMillis).number(),
                };
                seq![RequestView::Execute(change.statement(row.target_db, table->Rows_0.columns))]
            } else {
                Seq::empty()
            }
        }),
{
    let s5 = row.advance(world(row.request()->0));
    assert(changes_of_row(row, world) == changes_of_row(s5, world));
    if s5.over() {
        assert(changes_of_row(s5, world) =~= Seq::empty());
    } else {
        let s6 = s5.advance(world(s5.request()->0));
        assert(changes_of_row(s5, world) == changes_of_row(s6, world));
        if s6.over() {
            assert(changes_of_row(s6, world) =~= Seq::empty());
        } else {
            let s7 = s6.advance(world(s6.request()->0));
            assert(changes_of_row(s6, world) == changes_of_row(s7, world));
            let s8 = s7.advance(world(s7.request()->0));
            assert(changes_of_row(s8, world) =~= Seq::empty());
            assert(changes_of_row(s7, world) =~= seq![s7.request()->0]);
        }
    }
}

/// What the copying of a session changes from its registration on.
proof fn lemma_from_registration(world: World, copy: CopyView)
    requires
        ({
            let order = copy.order;
            copy.stage == CopyStageView::Register(
                registration_start(
                    order.home,
                    order.new_cid,
                    order.target_uid,
                    order.target_edition,
                ),
            )
        }),
    ensures
        ({
            let order = copy.order;
            changes_of_copy(copy, world) == (match mapping_db(
                world,
                order.home,
                order.target_edition,
                Some(order.target_uid),
            ) {
                Some(db) => mapping_changes(world, db, order.new_cid, order.target_uid),
                None => Seq::empty(),
            })
        }),
{
    let order = copy.order;
    let registration = registration_start(
        order.home,
        order.new_cid,
        order.target_uid,
        order.target_edition,
    );
    registration_ends(world, order.home, order.new_cid, order.target_uid, order.target_edition);
    registration_changes_the_database_in_use(
        world,
        order.home,
        order.new_cid,
        order.target_uid,
        order.target_edition,
    );
    lemma_registration(
        world,
        copy,
        registration,
        order.home,
        order.new_cid,
        order.target_uid,
        order.target_edition,
    );
    let registered = copy.with_registration(registration.settled(world));
    let shown = registered.advance(world(RequestView::PathText(registered.backup_root)));
    assert(changes_of_copy(registered, world) == changes_of_copy(shown, world));
    assert(changes_of_copy(shown, world) =~= Seq::empty());
    assert(registration.changes(world) + changes_of_copy(registered, world)
        =~= registration.changes(world));
}

/// What the copying of a session changes from the name of its backup on.
proof fn lemma_from_stamp(world: World, copy: CopyView)
    requires
        copy.stage == CopyStageView::Stamp,
    ensures
        ({
            let order = copy.order;
            let source_db = order.source_db();
            let target_db = order.target_db();
            let root = order.backup_dir.push(plain("sessions"@)).push(
                plain(
                    match world(RequestView::Stamp) {
                        ReplyView::Text(Some(stamp)) => stamp,
                        _ => Seq::empty(),
                    },
                ),
            );
            let row_result = copying_result(
                world,
                source_db,
                target_db,
                order.new_cid,
                order.cid,
                order.source_uid,
                order.target_uid,
            );
            changes_of_copy(copy, world) == backup_changes(
                world,
                order.home,
                root,
                order.target_edition,
            ) + row_changes(
                world,
                source_db,
                target_db,
                order.new_cid,
                order.cid,
                order.source_uid,
                order.target_uid,
            ) + (if row_result is Ok {
                match mapping_db(world, order.home, order.target_edition, Some(order.target_uid)) {
                    Some(db) => mapping_changes(world, db, order.new_cid, order.target_uid),
                    None => Seq::empty(),
                }
            } else {
                Seq::empty()
            })
        }),
{
    let order = copy.order;
    let stamped = copy.advance(world(RequestView::Stamp));
    assert(changes_of_copy(copy, world) == changes_of_copy(stamped, world));
    let root = stamped.backup_root;
    let backup = backup_start(order.home, root, order.target_edition);
    backup_copies_what_is_there(world, order.home, root, order.target_edition);
    lemma_backup(world, stamped, backup);
    lemma_backup_changes(world, order.home, root, order.target_edition);
    let backed = stamped.with_backup(backup.settled(world));
    let row = row_copy_start(
        order.source_db(),
        order.target_db(),
        order.new_cid,
        order.cid,
        order.source_uid,
        order.target_uid,
    );
    copying_ends_with_its_result(
        world,
        order.source_db(),
        order.target_db(),
        order.new_cid,
        order.cid,
        order.source_uid,
        order.target_uid,
    );
    lemma_row(world, backed, row);
    lemma_row_changes(
        world,
        order.source_db(),
        order.target_db(),
        order.new_cid,
        order.cid,
        order.source_uid,
        order.target_uid,
    );
    let rowed = backed.with_row(row.settled(world));
    match row.settled(world).result {
        Ok(()) => {
            lemma_from_registration(world, rowed);
        },
        Err(message) => {
            assert(changes_of_copy(rowed, world) =~= Seq::empty());
        },
    }
    let b = changes_of_backup(backup, world);
    let r = changes_of_row(row, world);
    let m = changes_of_copy(rowed, world);
    assert(b + (r + m) =~= b + r + m);
}

/// The copying of a session makes exactly these changes, in this order: it writes
/// the transcript anew in the target edition, backs up the target database, puts the
/// copy of the row into it, and enters the new session for the target account into
/// the mapping database in use.
pub proof fn copying_makes_these_changes(world: World, order: CopyOrderView)
    ensures
        changes_of_copy(copy_start(order), world) == copy_changes(world, order),
{
    let start = copy_start(order);
    let asked = start.advance(world(start.request()->0));
    assert(changes_of_copy(start, world) == changes_of_copy(asked, world));
    assert(order.source_db() == data_directory(order.home, order.source_edition).push(
        NameView::Text("workbuddy.db"@),
    ));
    assert(order.target_db() == data_directory(order.home, order.target_edition).push(
        NameView::Text("workbuddy.db"@),
    ));
    if asked.over() {
        assert(changes_of_copy(asked, world) =~= Seq::empty());
    } else {
        let search = history_start(order.home, order.cid, order.source_edition);
        search_finds_transcript(world, order.home, order.cid, order.source_edition);
        assert(projects_root(order.home, order.source_edition) == transcripts_directory(
            order.home,
            order.source_edition,
        ));
        lemma_search(world, asked, search);
        let searched = asked.with_search(search.settled(world));
        match searched.stage {
            CopyStageView::Read { source, target } => {
                let read = searched.advance(world(RequestView::ReadText(source)));
                assert(changes_of_copy(searched, world) == changes_of_copy(read, world));
                match read.stage {
                    CopyStageView::MakeDirs { target, text } => {
                        let make = RequestView::CreateDirs(parent_path(target));
                        let made = read.advance(world(make));
                        let write = RequestView::WriteText(target, text);
                        let written = made.advance(world(write));
                        let later = changes_of_copy(written, world);
                        assert(changes_of_copy(made, world) == seq![write] + later);
                        assert(changes_of_copy(read, world) == seq![make] + (seq![write] + later));
                        assert(seq![make] + (seq![write] + later) =~= seq![make, write] + later);
                        assert(target.len() > 0);
                        assert(transcript_changes(world, order) =~= seq![make, write]);
                        lemma_from_stamp(world, written);
                    },
                    _ => {
                        assert(transcript_changes(world, order) =~= Seq::empty());
                        lemma_from_stamp(world, read);
                    },
                }
            },
            _ => {
                assert(transcript_changes(world, order) =~= Seq::empty());
                lemma_from_stamp(world, searched);
            },
        }
        lemma_regroup();
    }
}

/// Sequences strung together are the same however they are grouped.
proof fn lemma_regroup()
    ensures
        forall|a: Seq<RequestView>, b: Seq<RequestView>, c: Seq<RequestView>, d: Seq<RequestView>|
            #![trigger a + b + c + d]
            a + (b + c + d) == a + b + c + d,
{
    assert forall|a: Seq<RequestView>, b: Seq<RequestView>, c: Seq<RequestView>, d: Seq<
        RequestView,
    >|
        #![trigger a + b + c + d]
        a + (b + c + d) == a + b + c + d by {
        assert(a + (b + c + d) =~= a + b + c + d);
    }
}

} // verus!

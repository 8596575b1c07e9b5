use crate::io::{ReplyView, RequestView, World};
use crate::path::PathView;
use crate::row_copy::{
    claw_refusal, claw_row, columns_query, names_claw, names_of, not_found, not_opened, row_copy_start,
    row_query, value_at, value_under, values_of, RowChange, RowCopyPhase, RowCopyView,
};
use crate::sql::{is_one, table_query, SqlView, StatementView};
use crate::text::joined;
use crate::workspace::is_claw;
use vstd::prelude::*;

verus! {

/// The copy of a row has exactly those columns of the target table for which it
/// has a value, in the table's order, and under each of them its value.
pub proof fn carried_columns_are_those_with_a_value(
    change: RowChange,
    target_columns: Seq<Seq<char>>,
)
    ensures
        names_of(change.carried(target_columns)) == target_columns.filter(
            |column: Seq<char>| change.value_for(column) is Some,
        ),
        values_of(change.carried(target_columns)).len() == names_of(
            change.carried(target_columns),
        ).len(),
        forall|i: int|
            0 <= i < change.carried(target_columns).len() ==> change.value_for(
                #[trigger] names_of(change.carried(target_columns))[i],
            ) == Some(values_of(change.carried(target_columns))[i]),
    decreases target_columns.len(),
{
    let has_value = |column: Seq<char>| change.value_for(column) is Some;
    reveal(Seq::filter);
    if target_columns.len() == 0 {
        assert(names_of(change.carried(target_columns)) =~= target_columns.filter(has_value));
    } else {
        let front = target_columns.drop_last();
        let last = target_columns.last();
        let before = change.carried(front);
        let whole = change.carried(target_columns);
        carried_columns_are_those_with_a_value(change, front);
        match change.value_for(last) {
            Some(value) => {
                assert(has_value(last));
                assert(names_of(whole) =~= names_of(before).push(last));
                assert(values_of(whole) =~= values_of(before).push(value));
            },
            None => {
                assert(!has_value(last));
            },
        }
        assert forall|i: int| 0 <= i < whole.len() implies change.value_for(
            #[trigger] names_of(whole)[i],
        ) == Some(values_of(whole)[i]) by {
            if i < before.len() {
                assert(names_of(whole)[i] == names_of(before)[i]);
            }
        }
    }
}

/// What a copying knows in each phase, from the replies that led to it.
spec fn explained(start: RowCopyView, replies: Seq<ReplyView>) -> bool {
    let now = start.after(replies);
    let n = replies.len();
    &&& now.source_db == start.source_db
    &&& now.target_db == start.target_db
    &&& now.new_cid == start.new_cid
    &&& now.cid == start.cid
    &&& now.source_uid == start.source_uid
    &&& now.target_uid == start.target_uid
    &&& now.over() || n == 8 - now.rank()
    &&& !now.over() && n > 0 ==> replies[0].yes()
    &&& !now.over() && n > 1 ==> replies[1].yes()
    &&& !now.over() && n > 2 ==> is_one(replies[2].first_value())
    &&& !now.over() && n > 3 ==> is_one(replies[3].first_value())
    &&& !now.over() && n > 4 ==> {
        &&& replies[4] matches ReplyView::Rows(found)
        &&& found.rows.len() > 0
        &&& now.columns == found.columns
        &&& now.values == found.rows[0]
        &&& !claw_row(found.columns, found.rows[0])
    }
    &&& !now.over() && n > 5 ==> {
        &&& replies[5] matches ReplyView::Rows(table)
        &&& now.target_columns == table.columns
    }
    &&& !now.over() && n > 6 ==> now.now == replies[6].number()
}

proof fn lemma_explained(start: RowCopyView, replies: Seq<ReplyView>)
    requires
        start.phase == RowCopyPhase::SourceFile,
    ensures
        explained(start, replies),
    decreases replies.len(),
{
    if replies.len() > 0 {
        lemma_explained(start, replies.drop_last());
    }
}

/// A copying changes nothing but by one statement, and that only where both
/// databases are there with their sessions, the row is there, and it is not of a
/// Claw workspace. The statement puts the copy of that row into the target
/// database.
pub proof fn only_the_copy_is_written(
    source_db: PathView,
    target_db: PathView,
    new_cid: Seq<char>,
    cid: Seq<char>,
    source_uid: Seq<char>,
    target_uid: Seq<char>,
    replies: Seq<ReplyView>,
)
    ensures
        ({
            let start = row_copy_start(source_db, target_db, new_cid, cid, source_uid, target_uid);
            match start.after(replies).request() {
                Some(request) => request.writes() ==> {
                    &&& replies.len() == 7
                    &&& replies[0].yes()
                    &&& replies[1].yes()
                    &&& is_one(replies[2].first_value())
                    &&& is_one(replies[3].first_value())
                    &&& replies[4] matches ReplyView::Rows(found)
                    &&& replies[5] matches ReplyView::Rows(table)
                    &&& found.rows.len() > 0
                    &&& !claw_row(found.columns, found.rows[0])
                    &&& request == RequestView::Execute(
                        (RowChange {
                            columns: found.columns,
                            values: found.rows[0],
                            new_cid,
                            target_uid,
                            now: replies[6].number(),
                        }).statement(target_db, table.columns),
                    )
                },
                None => true,
            }
        }),
{
    let start = row_copy_start(source_db, target_db, new_cid, cid, source_uid, target_uid);
    lemma_explained(start, replies);
}

/// Whether `j` is the last place of `columns` that has this name.
pub open spec fn is_last_place(columns: Seq<Seq<char>>, name: Seq<char>, j: int) -> bool {
    &&& 0 <= j < columns.len()
    &&& columns[j] == name
    &&& forall|l: int| j < l < columns.len() ==> #[trigger] columns[l] != name
}

/// Whether a column of the target table is one that the copy has a value for: one of
/// those that every copy has, or one that the source row has.
pub open spec fn is_carried(columns: Seq<Seq<char>>, name: Seq<char>) -> bool {
    ||| name == "id"@
    ||| name == "user_id"@
    ||| name == "created_at"@
    ||| name == "updated_at"@
    ||| name == "deleted_at"@
    ||| columns.contains(name)
}

/// Whether `value` is what the copy of the row `values`, whose columns are
/// `columns`, is to have under `name`: a new id, the new owner, the time, no
/// deletion; and under any other name what the row has there.
pub open spec fn is_copied_value(
    columns: Seq<Seq<char>>,
    values: Seq<SqlView>,
    new_cid: Seq<char>,
    target_uid: Seq<char>,
    now: i64,
    name: Seq<char>,
    value: SqlView,
) -> bool {
    &&& name == "id"@ ==> value == SqlView::Text(new_cid)
    &&& name == "user_id"@ ==> value == SqlView::Text(target_uid)
    &&& name == "created_at"@ ==> value == SqlView::Integer(now)
    &&& name == "updated_at"@ ==> value == SqlView::Integer(now)
    &&& name == "deleted_at"@ ==> value == SqlView::Null
    &&& name != "id"@ && name != "user_id"@ && name != "created_at"@ && name != "updated_at"@
        && name != "deleted_at"@ ==> exists|j: int| #[trigger]
        is_last_place(columns, name, j) && value == (if j < values.len() {
            values[j]
        } else {
            SqlView::Null
        })
}

/// Whether a statement puts the copy of a row into the sessions of a database.
/// `picks` are the places of the columns of the target table that get a value: all
/// that the copy has a value for and no others, in the order of the table. The
/// statement names them, and binds to each the value that the copy is to have there.
pub open spec fn puts_copy(
    statement: StatementView,
    picks: Seq<int>,
    target_columns: Seq<Seq<char>>,
    columns: Seq<Seq<char>>,
    values: Seq<SqlView>,
    new_cid: Seq<char>,
    target_uid: Seq<char>,
    now: i64,
) -> bool {
    let names = Seq::new(picks.len(), |k: int| target_columns[picks[k]]);
    let marks = Seq::new(picks.len(), |k: int| "?"@);
    &&& forall|k: int| 0 <= k < picks.len() ==> 0 <= #[trigger] picks[k] < target_columns.len()
    &&& forall|k: int, l: int| 0 <= k < l < picks.len() ==> #[trigger] picks[k] < #[trigger] picks[l]
    &&& forall|p: int|
        0 <= p < target_columns.len() ==> (#[trigger] picks.contains(p) <==> is_carried(
            columns,
            target_columns[p],
        ))
    &&& statement.sql == "INSERT OR REPLACE INTO sessions ("@ + joined(names, ", "@)
        + ") VALUES ("@ + joined(marks, ", "@) + ")"@
    &&& statement.params.len() == picks.len()
    &&& forall|k: int|
        0 <= k < picks.len() ==> is_copied_value(
            columns,
            values,
            new_cid,
            target_uid,
            now,
            #[trigger] names[k],
            statement.params[k],
        )
}

proof fn lemma_value_under(columns: Seq<Seq<char>>, values: Seq<SqlView>, name: Seq<char>)
    ensures
        match value_under(columns, values, name) {
            Some(value) => columns.contains(name) && exists|j: int| #[trigger]
                is_last_place(columns, name, j) && value == (if j < values.len() {
                    values[j]
                } else {
                    SqlView::Null
                }),
            None => !columns.contains(name),
        },
    decreases columns.len(),
{
    if columns.len() > 0 {
        let last = columns.len() - 1;
        let front = columns.drop_last();
        if columns.last() == name {
            assert(columns[last] == name);
            assert(is_last_place(columns, name, last));
        } else {
            lemma_value_under(front, values, name);
            match value_under(front, values, name) {
                Some(value) => {
                    let j = choose|j: int| #[trigger]
                        is_last_place(front, name, j) && value == (if j < values.len() {
                            values[j]
                        } else {
                            SqlView::Null
                        });
                    assert(columns[j] == front[j]);
                    assert forall|l: int| j < l < columns.len() implies #[trigger] columns[l]
                        != name by {
                        if l < last {
                            assert(front[l] == columns[l]);
                        }
                    }
                    assert(is_last_place(columns, name, j));
                },
                None => {
                    assert forall|l: int| 0 <= l < columns.len() implies #[trigger] columns[l]
                        != name by {
                        if l < last {
                            assert(front.contains(front[l]));
                        }
                    }
                },
            }
        }
    }
}

proof fn lemma_value_for(change: RowChange, name: Seq<char>)
    ensures
        change.value_for(name) is Some <==> is_carried(change.columns, name),
        change.value_for(name) matches Some(value) ==> is_copied_value(
            change.columns,
            change.values,
            change.new_cid,
            change.target_uid,
            change.now,
            name,
            value,
        ),
{
    reveal_strlit("id");
    reveal_strlit("user_id");
    reveal_strlit("created_at");
    reveal_strlit("updated_at");
    reveal_strlit("deleted_at");
    assert("id"@.len() == 2 && "user_id"@.len() == 7);
    assert("created_at"@.len() == 10 && "updated_at"@.len() == 10 && "deleted_at"@.len() == 10);
    assert("created_at"@[0] == 'c' && "updated_at"@[0] == 'u' && "deleted_at"@[0] == 'd');
    lemma_value_under(change.columns, change.values, name);
}

proof fn lemma_picks(change: RowChange, target_columns: Seq<Seq<char>>) -> (picks: Seq<int>)
    ensures
        ({
            let carried = change.carried(target_columns);
            &&& picks.len() == carried.len()
            &&& forall|k: int|
                0 <= k < picks.len() ==> 0 <= #[trigger] picks[k] < target_columns.len()
            &&& forall|k: int, l: int|
                0 <= k < l < picks.len() ==> #[trigger] picks[k] < #[trigger] picks[l]
            &&& forall|p: int|
                0 <= p < target_columns.len() ==> (#[trigger] picks.contains(p) <==> is_carried(
                    change.columns,
                    target_columns[p],
                ))
            &&& forall|k: int|
                0 <= k < picks.len() ==> {
                    &&& (#[trigger] carried[k]).0 == target_columns[picks[k]]
                    &&& change.value_for(carried[k].0) == Some(carried[k].1)
                }
        }),
    decreases target_columns.len(),
{
    if target_columns.len() == 0 {
        Seq::empty()
    } else {
        let front = target_columns.drop_last();
        let last = target_columns.len() - 1;
        let name = target_columns.last();
        let before = lemma_picks(change, front);
        lemma_value_for(change, name);
        match change.value_for(name) {
            Some(value) => {
                let picks = before.push(last);
                assert forall|p: int| 0 <= p < target_columns.len() implies (
                #[trigger] picks.contains(p) <==> is_carried(
                    change.columns,
                    target_columns[p],
                )) by {
                    if p < last {
                        assert(front[p] == target_columns[p]);
                        assert(before.contains(p) <==> is_carried(change.columns, front[p]));
                        if before.contains(p) {
                            let k = before.index_of(p);
                            assert(picks[k] == p);
                        }
                        if picks.contains(p) {
                            let k = picks.index_of(p);
                            assert(before[k] == p);
                        }
                    } else {
                        assert(picks[before.len() as int] == p);
                    }
                }
                picks
            },
            None => {
                assert forall|p: int| 0 <= p < target_columns.len() implies (
                #[trigger] before.contains(p) <==> is_carried(
                    change.columns,
                    target_columns[p],
                )) by {
                    if p < last {
                        assert(front[p] == target_columns[p]);
                    } else if before.contains(p) {
                        let k = before.index_of(p);
                        assert(before[k] < front.len());
                    }
                }
                before
            },
        }
    }
}

/// The statement for the copy of a row carries every value of the row that the
/// target table has a column for, but for those that the copy has of its own.
pub proof fn statement_puts_the_copy(
    change: RowChange,
    target_db: PathView,
    target_columns: Seq<Seq<char>>,
) -> (picks: Seq<int>)
    ensures
        change.statement(target_db, target_columns).db == target_db,
        !change.statement(target_db, target_columns).read_only,
        puts_copy(
            change.statement(target_db, target_columns),
            picks,
            target_columns,
            change.columns,
            change.values,
            change.new_cid,
            change.target_uid,
            change.now,
        ),
{
    let statement = change.statement(target_db, target_columns);
    let carried = change.carried(target_columns);
    let picks = lemma_picks(change, target_columns);
    let names = Seq::new(picks.len(), |k: int| target_columns[picks[k]]);
    let marks = Seq::new(picks.len(), |k: int| "?"@);
    assert forall|k: int| 0 <= k < picks.len() implies names[k] == #[trigger] names_of(
        carried,
    )[k] by {
        assert(carried[k].0 == target_columns[picks[k]]);
    }
    assert(names =~= names_of(carried));
    assert(marks =~= crate::row_copy::marks(names_of(carried).len()));
    assert forall|k: int| 0 <= k < picks.len() implies is_copied_value(
        change.columns,
        change.values,
        change.new_cid,
        change.target_uid,
        change.now,
        #[trigger] names[k],
        statement.params[k],
    ) by {
        assert(carried[k].0 == names[k]);
        lemma_value_for(change, names[k]);
    }
    picks
}

/// Whatever comes back, what a copying writes is the copy of the row that it read:
/// into the target database, every column that both tables have, with the value that
/// the source row has there, but for the new id, the new owner, the times and the
/// deletion mark.
pub proof fn copying_writes_the_row_it_read(
    source_db: PathView,
    target_db: PathView,
    new_cid: Seq<char>,
    cid: Seq<char>,
    source_uid: Seq<char>,
    target_uid: Seq<char>,
    replies: Seq<ReplyView>,
) -> (picks: Seq<int>)
    ensures
        ({
            let start = row_copy_start(source_db, target_db, new_cid, cid, source_uid, target_uid);
            match start.after(replies).request() {
                Some(RequestView::Execute(statement)) => {
                    &&& statement.db == target_db
                    &&& !statement.read_only
                    &&& replies.len() == 7
                    &&& replies[4] matches ReplyView::Rows(found)
                    &&& replies[5] matches ReplyView::Rows(table)
                    &&& found.rows.len() > 0
                    &&& puts_copy(
                        statement,
                        picks,
                        table.columns,
                        found.columns,
                        found.rows[0],
                        new_cid,
                        target_uid,
                        match replies[6] {
                            ReplyView::Number(n) => n,
                            _ => 0,
                        },
                    )
                },
                Some(request) => !request.writes(),
                None => true,
            }
        }),
{
    let start = row_copy_start(source_db, target_db, new_cid, cid, source_uid, target_uid);
    only_the_copy_is_written(
        source_db,
        target_db,
        new_cid,
        cid,
        source_uid,
        target_uid,
        replies,
    );
    match start.after(replies).request() {
        Some(RequestView::Execute(statement)) => {
            let found = replies[4]->Rows_0;
            let table = replies[5]->Rows_0;
            statement_puts_the_copy(
                RowChange {
                    columns: found.columns,
                    values: found.rows[0],
                    new_cid,
                    target_uid,
                    now: replies[6].number(),
                },
                target_db,
                table.columns,
            )
        },
        _ => Seq::empty(),
    }
}

/// A row is of a Claw workspace exactly where it has the working directory of one.
pub proof fn claw_row_has_a_claw_directory(columns: Seq<Seq<char>>, values: Seq<SqlView>)
    ensures
        claw_row(columns, values) <==> exists|i: int|
            0 <= i < columns.len() && i < values.len() && #[trigger] columns[i] == "cwd"@
                && values[i] is Text && is_claw(values[i]->Text_0),
{
    if claw_row(columns, values) {
        let i = choose|i: int|
            0 <= i < columns.len() && #[trigger] columns[i] == "cwd"@ && names_claw(
                value_at(values, i),
            );
        assert(i < values.len() && columns[i] == "cwd"@ && values[i] is Text);
    }
    if exists|i: int|
        0 <= i < columns.len() && i < values.len() && #[trigger] columns[i] == "cwd"@
            && values[i] is Text && is_claw(values[i]->Text_0) {
        let i = choose|i: int|
            0 <= i < columns.len() && i < values.len() && #[trigger] columns[i] == "cwd"@
                && values[i] is Text && is_claw(values[i]->Text_0);
        assert(names_claw(value_at(values, i)));
    }
}

/// Whether `replies` say that a database is not there, or has no sessions.
pub open spec fn nothing_to_copy_between(replies: Seq<ReplyView>) -> bool {
    ||| replies.len() > 0 && !replies[0].yes()
    ||| replies.len() > 1 && !replies[1].yes()
    ||| replies.len() > 2 && !is_one(replies[2].first_value())
    ||| replies.len() > 3 && !is_one(replies[3].first_value())
}

/// A copying that ended well has put its row in, unless a database was not there
/// or had no sessions.
pub proof fn success_means_that_the_row_was_put_in(
    source_db: PathView,
    target_db: PathView,
    new_cid: Seq<char>,
    cid: Seq<char>,
    source_uid: Seq<char>,
    target_uid: Seq<char>,
    replies: Seq<ReplyView>,
)
    ensures
        ({
            let end = row_copy_start(
                source_db,
                target_db,
                new_cid,
                cid,
                source_uid,
                target_uid,
            ).after(replies);
            end.over() && end.result is Ok ==> {
                ||| nothing_to_copy_between(replies)
                ||| replies.len() > 7 && replies[7] == ReplyView::Executed
            }
        }),
    decreases replies.len(),
{
    if replies.len() > 0 {
        let front = replies.drop_last();
        let start = row_copy_start(source_db, target_db, new_cid, cid, source_uid, target_uid);
        success_means_that_the_row_was_put_in(
            source_db,
            target_db,
            new_cid,
            cid,
            source_uid,
            target_uid,
            front,
        );
        lemma_explained(start, front);
        assert(forall|i: int| 0 <= i < front.len() ==> #[trigger] front[i] == replies[i]);
    }
}

/// What comes of copying a row, where `world` answers.
pub open spec fn copying_result(
    world: World,
    source_db: PathView,
    target_db: PathView,
    new_cid: Seq<char>,
    cid: Seq<char>,
    source_uid: Seq<char>,
    target_uid: Seq<char>,
) -> Result<(), Seq<char>> {
    let there = |db: PathView| world(RequestView::IsFile(db)).yes();
    let sessions_in = |db: PathView, read_only: bool|
        is_one(
            world(RequestView::Query(table_query(db, read_only, "sessions"@))).first_value(),
        );
    if !there(source_db) || !there(target_db) || !sessions_in(source_db, true) || !sessions_in(
        target_db,
        false,
    ) {
        Ok(())
    } else {
        match world(RequestView::Query(row_query(source_db, cid, source_uid))) {
            ReplyView::Rows(found) => if found.rows.len() == 0 {
                match found.error {
                    Some(message) => Err(message),
                    None => Err(not_found(cid)),
                }
            } else if claw_row(found.columns, found.rows[0]) {
                Err(claw_refusal())
            } else {
                match world(RequestView::Query(columns_query(target_db))) {
                    ReplyView::Rows(table) => {
                        let change = RowChange {
                            columns: found.columns,
                            values: found.rows[0],
                            new_cid,
                            target_uid,
                            now: world(RequestView::NowMillis).number(),
                        };
                        match world(
                            RequestView::Execute(change.statement(target_db, table.columns)),
                        ) {
                            ReplyView::Executed => Ok(()),
                            ReplyView::Failed(message) => Err(message),
                            _ => Err(not_opened()),
                        }
                    },
                    ReplyView::Failed(message) => Err(message),
                    _ => Err(not_opened()),
                }
            },
            ReplyView::Failed(message) => Err(message),
            _ => Err(not_opened()),
        }
    }
}

/// A copying ends, and with that result.
pub proof fn copying_ends_with_its_result(
    world: World,
    source_db: PathView,
    target_db: PathView,
    new_cid: Seq<char>,
    cid: Seq<char>,
    source_uid: Seq<char>,
    target_uid: Seq<char>,
)
    ensures
        ({
            let end = row_copy_start(
                source_db,
                target_db,
                new_cid,
                cid,
                source_uid,
                target_uid,
            ).settled(world);
            &&& end.over()
            &&& end.result == copying_result(
                world,
                source_db,
                target_db,
                new_cid,
                cid,
                source_uid,
                target_uid,
            )
        }),
{
    reveal_with_fuel(RowCopyView::settled, 9);
}

/// How the copying of a row ends, by the replies that it gets: it is passed over where a
/// database is not there or has no sessions; it fails where the row is not there, is of a
/// Claw workspace, or cannot be read or written; and it succeeds where it was written.
pub proof fn row_copy_ends_so(
    source_db: PathView,
    target_db: PathView,
    new_cid: Seq<char>,
    cid: Seq<char>,
    source_uid: Seq<char>,
    target_uid: Seq<char>,
    replies: Seq<ReplyView>,
)
    requires
        replies.len() == 8,
    ensures
        ({
            let end = row_copy_start(
                source_db,
                target_db,
                new_cid,
                cid,
                source_uid,
                target_uid,
            ).after(replies);
            let lost = Err("unable to open database file"@);
            &&& end.over()
            &&& end.result == if replies[0] != ReplyView::Flag(true) || replies[1]
                != ReplyView::Flag(true) || !is_one(replies[2].first_value()) || !is_one(
                replies[3].first_value(),
            ) {
                Ok(())
            } else {
                match replies[4] {
                    ReplyView::Failed(message) => Err(message),
                    ReplyView::Rows(found) => if found.rows.len() == 0 {
                        match found.error {
                            Some(message) => Err(message),
                            None => Err("未找到源会话: "@ + cid),
                        }
                    } else if claw_row(found.columns, found.rows[0]) {
                        Err("Claw 工作区绑定当前账号渠道，不支持复制"@)
                    } else {
                        match replies[5] {
                            ReplyView::Failed(message) => Err(message),
                            ReplyView::Rows(_) => match replies[7] {
                                ReplyView::Executed => Ok(()),
                                ReplyView::Failed(message) => Err(message),
                                _ => lost,
                            },
                            _ => lost,
                        }
                    },
                    _ => lost,
                }
            }
        }),
{
    let start = row_copy_start(source_db, target_db, new_cid, cid, source_uid, target_uid);
    reveal_with_fuel(RowCopyView::after, 9);
    let r7 = replies.drop_last();
    let r6 = r7.drop_last();
    let r5 = r6.drop_last();
    let r4 = r5.drop_last();
    let r3 = r4.drop_last();
    let r2 = r3.drop_last();
    let r1 = r2.drop_last();
    assert(r1.drop_last().len() == 0);
    assert(r1.last() == replies[0] && r2.last() == replies[1] && r3.last() == replies[2]);
    assert(r4.last() == replies[3] && r5.last() == replies[4] && r6.last() == replies[5]);
    assert(r7.last() == replies[6] && replies.last() == replies[7]);
    let s1 = start.after(r1);
    assert(s1 == start.advance(replies[0]));
    let s2 = start.after(r2);
    assert(s2 == s1.advance(replies[1]));
    let s3 = start.after(r3);
    assert(s3 == s2.advance(replies[2]));
    let s4 = start.after(r4);
    assert(s4 == s3.advance(replies[3]));
    let s5 = start.after(r5);
    assert(s5 == s4.advance(replies[4]));
    let s6 = start.after(r6);
    assert(s6 == s5.advance(replies[5]));
    let s7 = start.after(r7);
    assert(s7 == s6.advance(replies[6]));
    assert(start.after(replies) == s7.advance(replies[7]));
}

} // verus!

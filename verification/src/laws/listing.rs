use crate::edition::SessionEdition;
use crate::history::{history_start, HistoryView};
use crate::io::{ReplyView, RequestView, World};
use crate::json::JsonView;
use crate::laws::history::{
    read_place, search_finds_transcript, search_stays_below_its_directory, transcript,
};
use crate::laws::layout::{
    data_directory, lemma_below, lemma_far_below, transcripts_directory,
};
use crate::laws::values::columns_are_named_in_second_place;
use crate::laws::wording::{
    all_sessions_are_asked_for, all_sessions_sql, data_is_kept_in_these_places, files_are_named_so,
    tables_are_asked_about_so,
};
use crate::laws::workspace::claw_is_a_claw_folder;
use crate::layout::{data_root, db_path, projects_root, transcript_name};
use crate::listing::{
    listing_start, session_row, sessions_query, visible_rows, ListingPhase, ListingView,
    SessionRowView,
};
use crate::path::{plain, NameView, PathView};
use crate::sql::{columns_of_query, is_one, table_query, SqlView, StatementView};
use crate::title::display_title;
use crate::workspace::is_claw;
use vstd::prelude::*;

verus! {

/// The sessions of a user that are listed, where `world` answers.
pub open spec fn listed_rows(
    world: World,
    home: PathView,
    uid: Seq<char>,
    edition: SessionEdition,
) -> Seq<SessionRowView> {
    let db = db_path(home, edition);
    let columns = world(RequestView::Query(columns_of_query(db, "sessions"@)));
    let has_custom = columns.names_column("custom_title"@);
    let has_playground = columns.names_column("is_playground"@);
    if !world(RequestView::IsFile(db)).yes() || !is_one(
        world(RequestView::Query(table_query(db, true, "sessions"@))).first_value(),
    ) {
        Seq::empty()
    } else {
        match world(RequestView::Query(sessions_query(db, uid, has_custom, has_playground))) {
            ReplyView::Rows(found) => visible_rows(found.rows),
            _ => Seq::empty(),
        }
    }
}

/// A session as it is listed, where `world` answers: with whether it has a
/// transcript.
pub open spec fn listed_entry(
    world: World,
    home: PathView,
    edition: SessionEdition,
    row: SessionRowView,
) -> JsonView {
    row.json(
        transcript(world, projects_root(home, edition), transcript_name(row.id)) is Some,
    )
}

/// The list of sessions of a user, where `world` answers.
pub open spec fn listed_entries(
    world: World,
    home: PathView,
    uid: Seq<char>,
    edition: SessionEdition,
) -> Seq<JsonView> {
    listed_rows(world, home, uid, edition).map_values(
        |row: SessionRowView| listed_entry(world, home, edition, row),
    )
}

proof fn lemma_search(world: World, listing: ListingView, search: HistoryView)
    requires
        listing.phase == ListingPhase::History,
        listing.search == Some(search),
        listing.well_formed(),
        search.well_formed(),
        !search.over(),
    ensures
        listing.settled(world) == listing.with_search(search.settled(world)).settled(world),
    decreases search.rank(), search.looks_left(),
{
    let reply = world(search.request()->0);
    let next = search.advance(reply);
    let after = listing.advance(reply);
    assert(listing.settled(world) == after.settled(world));
    assert(search.settled(world) == next.settled(world));
    if !next.over() {
        lemma_search(world, after, next);
        assert(after.with_search(next.settled(world)) == listing.with_search(next.settled(world)));
    } else {
        assert(next.settled(world) == next);
    }
}

proof fn lemma_rows(world: World, listing: ListingView, index: int)
    requires
        0 <= index <= listing.rows.len(),
    ensures
        ({
            let end = listing.at_row(index).settled(world);
            &&& end.over()
            &&& end.entries == listing.entries + listing.rows.skip(index).map_values(
                |row: SessionRowView| listed_entry(world, listing.home, listing.edition, row),
            )
        }),
    decreases listing.rows.len() - index,
{
    let entry_of = |row: SessionRowView|
        listed_entry(world, listing.home, listing.edition, row);
    let here = listing.at_row(index);
    let rest = listing.rows.skip(index);
    if index < listing.rows.len() {
        let row = listing.rows[index];
        let search = history_start(listing.home, row.id, listing.edition);
        search_finds_transcript(world, listing.home, row.id, listing.edition);
        lemma_search(world, here, search);
        let entered = ListingView {
            entries: listing.entries.push(entry_of(row)),
            ..here
        };
        assert(here.with_search(search.settled(world)) == entered.at_row(index + 1));
        lemma_rows(world, entered, index + 1);
        let later = listing.rows.skip(index + 1).map_values(entry_of);
        assert(rest.map_values(entry_of) =~= seq![entry_of(row)] + later);
        assert(listing.entries.push(entry_of(row)) + later =~= listing.entries + (seq![
            entry_of(row),
        ] + later));
    } else {
        assert(here.settled(world) == here);
        assert(listing.entries + rest.map_values(entry_of) =~= listing.entries);
    }
}

/// A listing ends. It has the sessions of the user that are not of a Claw
/// workspace, in the order in which the database gives them, each with whether it
/// has a transcript in the edition; none, where there is no database or it has no
/// sessions.
pub proof fn listing_lists_the_sessions(
    world: World,
    home: PathView,
    uid: Seq<char>,
    edition: SessionEdition,
)
    ensures
        listing_start(home, uid, edition).settled(world).over(),
        listing_start(home, uid, edition).settled(world).entries == listed_entries(
            world,
            home,
            uid,
            edition,
        ),
{
    let start = listing_start(home, uid, edition);
    let db = db_path(home, edition);
    let entry_of = |row: SessionRowView| listed_entry(world, home, edition, row);
    assert(Seq::<SessionRowView>::empty().map_values(entry_of) =~= Seq::empty());
    let there = start.advance(world(RequestView::IsFile(db)));
    assert(start.settled(world) == there.settled(world));
    if there.over() {
        assert(there.settled(world) == there);
    } else {
        let table = there.advance(
            world(RequestView::Query(table_query(db, true, "sessions"@))),
        );
        assert(there.settled(world) == table.settled(world));
        if table.over() {
            assert(table.settled(world) == table);
        } else {
            let columns = world(RequestView::Query(columns_of_query(db, "sessions"@)));
            let custom = table.advance(columns);
            assert(table.settled(world) == custom.settled(world));
            let playground = custom.advance(columns);
            assert(custom.settled(world) == playground.settled(world));
            let reply = world(playground.request()->0);
            let found = playground.advance(reply);
            assert(playground.settled(world) == found.settled(world));
            match reply {
                ReplyView::Rows(rows) => {
                    let listing = ListingView { rows: visible_rows(rows.rows), ..playground };
                    lemma_rows(world, listing, 0);
                    assert(listing.rows.skip(0) == listing.rows);
                    assert(listing.entries + listing.rows.map_values(entry_of)
                        =~= listing.rows.map_values(entry_of));
                },
                _ => {
                    assert(found.settled(world) == found);
                },
            }
        }
    }
}

/// The sessions that are listed are those that can be read and are not of a Claw
/// workspace, in their order.
pub proof fn listed_sessions_are_not_claw(rows: Seq<Seq<SqlView>>)
    ensures
        visible_rows(rows) == rows.filter(
            |values: Seq<SqlView>|
                session_row(values) matches Some(row) && !is_claw(row.cwd),
        ).map_values(|values: Seq<SqlView>| session_row(values)->0),
    decreases rows.len(),
{
    let listed = |values: Seq<SqlView>|
        session_row(values) matches Some(row) && !is_claw(row.cwd);
    let read = |values: Seq<SqlView>| session_row(values)->0;
    reveal(Seq::filter);
    if rows.len() == 0 {
        assert(visible_rows(rows) =~= rows.filter(listed).map_values(read));
    } else {
        let front = rows.drop_last();
        listed_sessions_are_not_claw(front);
        if listed(rows.last()) {
            assert(rows.filter(listed) == front.filter(listed).push(rows.last()));
            assert(rows.filter(listed).map_values(read) =~= front.filter(listed).map_values(
                read,
            ).push(read(rows.last())));
        } else {
            assert(rows.filter(listed) == front.filter(listed));
        }
    }
}

/// What holds of a listing in each phase.
pub open spec fn listing_on_course(
    home: PathView,
    uid: Seq<char>,
    edition: SessionEdition,
    listing: ListingView,
) -> bool {
    &&& listing.home == home
    &&& listing.uid == uid
    &&& listing.edition == edition
    &&& listing.well_formed()
    &&& listing.search matches Some(search) ==> {
        &&& search.well_formed()
        &&& !search.over()
        &&& search.projects == projects_root(home, edition)
    }
}

/// Whether a request is one that a look at the data of an edition may make: it
/// changes nothing, opens a database for reading only, and has to do with nothing
/// but that data.
pub open spec fn looks_at_edition(
    home: PathView,
    edition: SessionEdition,
    request: RequestView,
) -> bool {
    &&& !request.writes()
    &&& request matches RequestView::Query(statement) ==> statement.read_only
    &&& read_place(request) matches Some(place)
    &&& data_root(home, edition).is_prefix_of(place)
}

/// A listing that is on course looks at the data of its edition, until it is over.
pub proof fn lemma_looks_at_edition(
    home: PathView,
    uid: Seq<char>,
    edition: SessionEdition,
    listing: ListingView,
)
    requires
        listing_on_course(home, uid, edition, listing),
    ensures
        listing.request() is None <==> listing.over(),
        listing.request() matches Some(request) ==> looks_at_edition(home, edition, request),
{
    let root = data_root(home, edition);
    lemma_below(root, plain("workbuddy.db"@));
    if listing.phase == ListingPhase::History {
        let search = listing.search->0;
        search_stays_below_its_directory(search, ReplyView::Executed);
        lemma_below(root, plain("projects"@));
        if let Some(request) = search.request() {
            lemma_far_below(root, search.projects, read_place(request)->0);
        }
    }
}

/// A listing stays on course, whatever comes back.
pub proof fn lemma_listing_stays_on_course(
    home: PathView,
    uid: Seq<char>,
    edition: SessionEdition,
    listing: ListingView,
    reply: ReplyView,
)
    requires
        listing_on_course(home, uid, edition, listing),
    ensures
        listing_on_course(home, uid, edition, listing.advance(reply)),
{
}

proof fn lemma_on_course(
    home: PathView,
    uid: Seq<char>,
    edition: SessionEdition,
    replies: Seq<ReplyView>,
)
    ensures
        listing_on_course(home, uid, edition, listing_start(home, uid, edition).after(replies)),
    decreases replies.len(),
{
    if replies.len() > 0 {
        lemma_on_course(home, uid, edition, replies.drop_last());
        lemma_listing_stays_on_course(
            home,
            uid,
            edition,
            listing_start(home, uid, edition).after(replies.drop_last()),
            replies.last(),
        );
    }
}

/// Whatever comes back, a listing changes nothing, opens the database for reading
/// only, and looks at nothing but the data of its edition: a user of one edition
/// is not looked up in the data of the other. The ids of the sessions are taken as
/// plain names: one that is not, leads where the file system takes it.
pub proof fn listing_stays_in_its_edition(
    home: PathView,
    uid: Seq<char>,
    edition: SessionEdition,
    replies: Seq<ReplyView>,
)
    ensures
        listing_start(home, uid, edition).after(replies).request() matches Some(request)
            ==> looks_at_edition(home, edition, request),
{
    lemma_on_course(home, uid, edition, replies);
    lemma_looks_at_edition(
        home,
        uid,
        edition,
        listing_start(home, uid, edition).after(replies),
    );
}

/// A listing asks for something until it is over.
pub proof fn listing_asks_until_it_is_over(
    home: PathView,
    uid: Seq<char>,
    edition: SessionEdition,
    replies: Seq<ReplyView>,
)
    ensures
        listing_start(home, uid, edition).after(replies).request() is None <==> listing_start(
            home,
            uid,
            edition,
        ).after(replies).over(),
{
    lemma_on_course(home, uid, edition, replies);
    lemma_looks_at_edition(
        home,
        uid,
        edition,
        listing_start(home, uid, edition).after(replies),
    );
}

/// A row of the table of sessions, as far as a listing has to do with it.
#[verifier::ext_equal]
pub struct SessionRecord {
    pub id: SqlView,
    pub user_id: SqlView,
    pub cwd: SqlView,
    pub title: SqlView,
    pub custom_title: SqlView,
    pub updated_at: SqlView,
    pub is_playground: SqlView,
    pub deleted_at: SqlView,
}

/// Which of the columns that not every table has, a table has.
#[verifier::ext_equal]
pub struct ExtraColumns {
    pub custom_title: bool,
    pub is_playground: bool,
}

impl SessionRecord {
    /// Whether the session belongs to the user and is not deleted.
    pub open spec fn is_kept_by(self, uid: Seq<char>) -> bool {
        self.user_id == SqlView::Text(uid) && self.deleted_at == SqlView::Null
    }

    /// What the query selects of the row: where the table has no such column, a
    /// constant stands for it.
    pub open spec fn selected(self, extra: ExtraColumns) -> Seq<SqlView> {
        seq![
            self.id,
            self.cwd,
            self.title,
            if extra.custom_title {
                self.custom_title
            } else {
                SqlView::Null
            },
            self.updated_at,
            if extra.is_playground {
                self.is_playground
            } else {
                SqlView::Integer(0)
            },
        ]
    }

    /// Whether what is selected of the row are texts and numbers, where there is
    /// anything.
    pub open spec fn is_readable(self, extra: ExtraColumns) -> bool {
        &&& self.id is Null || self.id is Text
        &&& self.cwd is Null || self.cwd is Text
        &&& self.title is Null || self.title is Text
        &&& extra.custom_title ==> self.custom_title is Null || self.custom_title is Text
        &&& self.updated_at is Null || self.updated_at is Integer
        &&& extra.is_playground ==> self.is_playground is Null || self.is_playground is Integer
    }

    /// Whether the session works in a Claw workspace.
    pub open spec fn works_in_claw(self) -> bool {
        self.cwd is Text && is_claw(self.cwd->Text_0)
    }

    /// The session as it is to be listed.
    pub open spec fn told(self, extra: ExtraColumns, has_history: bool) -> JsonView {
        JsonView::Object(
            seq![
                ("id"@, JsonView::Text(text_of(self.id))),
                (
                    "title"@,
                    JsonView::Text(
                        display_title(
                            optional_text_of(self.title),
                            if extra.custom_title {
                                optional_text_of(self.custom_title)
                            } else {
                                None
                            },
                        ),
                    ),
                ),
                ("cwd"@, JsonView::Text(text_of(self.cwd))),
                ("updatedAt"@, JsonView::Integer(number_of(self.updated_at))),
                ("hasHistory"@, JsonView::Bool(has_history)),
                (
                    "isPlayground"@,
                    JsonView::Bool(extra.is_playground && number_of(self.is_playground) != 0),
                ),
            ],
        )
    }
}

/// The text that a value is, where it is one.
pub open spec fn optional_text_of(value: SqlView) -> Option<Seq<char>> {
    match value {
        SqlView::Text(s) => Some(s),
        _ => None,
    }
}

/// The text that a value is, or the empty one.
pub open spec fn text_of(value: SqlView) -> Seq<char> {
    match value {
        SqlView::Text(s) => s,
        _ => Seq::empty(),
    }
}

/// The number that a value is, or 0.
pub open spec fn number_of(value: SqlView) -> int {
    match value {
        SqlView::Integer(n) => n as int,
        _ => 0,
    }
}

/// Whether a row with the time `one` can come before a row with the time `other`,
/// where the latest come first and those without a time last.
pub open spec fn comes_first(one: SqlView, other: SqlView) -> bool {
    match (one, other) {
        (SqlView::Integer(a), SqlView::Integer(b)) => a >= b,
        (SqlView::Null, SqlView::Integer(_)) => false,
        _ => true,
    }
}

/// Whether `picks` are places of `table`, each once, by the times of their rows from
/// the latest on.
pub open spec fn are_latest_first(table: Seq<SessionRecord>, picks: Seq<int>) -> bool {
    &&& picks.no_duplicates()
    &&& forall|k: int| 0 <= k < picks.len() ==> 0 <= #[trigger] picks[k] < table.len()
    &&& forall|k: int, l: int|
        0 <= k < l < picks.len() ==> comes_first(
            table[#[trigger] picks[k]].updated_at,
            table[#[trigger] picks[l]].updated_at,
        )
}

/// The session database of an edition.
pub open spec fn session_database(home: PathView, edition: SessionEdition) -> PathView {
    data_directory(home, edition).push(NameView::Text("workbuddy.db"@))
}

/// A query that reads a database.
pub open spec fn reading_query(db: PathView, sql: Seq<char>, params: Seq<SqlView>) -> RequestView {
    RequestView::Query(StatementView { db, read_only: true, sql, params })
}

/// Whether `world` answers as a machine does on which the sessions of an edition are
/// those of `table`: the database is there, it has a table of sessions with the
/// columns that `extra` says, and to the query for the sessions of a user that are
/// not deleted, the latest first, it gives the rows at `picks`.
pub open spec fn keeps_sessions(
    world: World,
    home: PathView,
    edition: SessionEdition,
    table: Seq<SessionRecord>,
    extra: ExtraColumns,
    uid: Seq<char>,
    picks: Seq<int>,
) -> bool {
    let db = session_database(home, edition);
    let has_table = world(
        reading_query(
            db,
            "SELECT EXISTS(SELECT 1 FROM sqlite_master WHERE type='table' AND name=?1)"@,
            seq![SqlView::Text("sessions"@)],
        ),
    );
    let columns = world(reading_query(db, "PRAGMA table_info(sessions)"@, Seq::empty()));
    let found = world(
        reading_query(
            db,
            all_sessions_sql(extra.custom_title, extra.is_playground),
            seq![SqlView::Text(uid)],
        ),
    );
    &&& world(RequestView::IsFile(db)) == ReplyView::Flag(true)
    &&& has_table is Rows
    &&& has_table->Rows_0.rows == seq![seq![SqlView::Integer(1)]]
    &&& columns is Rows
    &&& extra.custom_title <==> has_second(columns->Rows_0.rows, "custom_title"@)
    &&& extra.is_playground <==> has_second(columns->Rows_0.rows, "is_playground"@)
    &&& found is Rows
    &&& are_latest_first(table, picks)
    &&& forall|i: int|
        0 <= i < table.len() ==> (#[trigger] picks.contains(i) <==> table[i].is_kept_by(uid))
    &&& found->Rows_0.rows == Seq::new(picks.len(), |k: int| table[picks[k]].selected(extra))
}

/// Whether one of `rows` has the text in second place.
pub open spec fn has_second(rows: Seq<Seq<SqlView>>, text: Seq<char>) -> bool {
    exists|i: int|
        0 <= i < rows.len() && #[trigger] rows[i].len() > 1 && rows[i][1] == SqlView::Text(text)
}

proof fn lemma_no_text_is_no_claw()
    ensures
        !is_claw(Seq::empty()),
{
    if is_claw(Seq::empty()) {
        let apart = claw_is_a_claw_folder(Seq::empty());
        assert(apart.whole().len() >= apart.name.len());
    }
}

proof fn lemma_record(record: SessionRecord, extra: ExtraColumns, has_history: bool)
    ensures
        session_row(record.selected(extra)) is Some <==> record.is_readable(extra),
        session_row(record.selected(extra)) matches Some(row) ==> {
            &&& row.id == text_of(record.id)
            &&& is_claw(row.cwd) <==> record.works_in_claw()
            &&& row.json(has_history) == record.told(extra, has_history)
        },
{
    lemma_no_text_is_no_claw();
    let values = record.selected(extra);
    assert(values.len() == 6);
    if let Some(row) = session_row(values) {
        assert(row.json(has_history)->Object_0 =~= record.told(extra, has_history)->Object_0);
    }
}

/// The places of the rows among `picks` that are listed.
proof fn lemma_shown(table: Seq<SessionRecord>, extra: ExtraColumns, picks: Seq<int>) -> (shown: Seq<
    int,
>)
    requires
        are_latest_first(table, picks),
    ensures
        are_latest_first(table, shown),
        forall|i: int| #[trigger]
            shown.contains(i) <==> picks.contains(i) && table[i].is_readable(extra)
                && !table[i].works_in_claw(),
        visible_rows(Seq::new(picks.len(), |k: int| table[picks[k]].selected(extra))) == Seq::new(
            shown.len(),
            |m: int| session_row(table[shown[m]].selected(extra))->0,
        ),
    decreases picks.len(),
{
    let rows = Seq::new(picks.len(), |k: int| table[picks[k]].selected(extra));
    if picks.len() == 0 {
        let shown = Seq::<int>::empty();
        assert(visible_rows(rows) =~= Seq::new(
            shown.len(),
            |m: int| session_row(table[shown[m]].selected(extra))->0,
        ));
        assert forall|i: int| #[trigger] shown.contains(i) <==> picks.contains(i)
            && table[i].is_readable(extra) && !table[i].works_in_claw() by {}
        shown
    } else {
        let front = picks.drop_last();
        let last = picks.last();
        let record = table[last];
        assert(picks[picks.len() - 1] == last);
        assert forall|k: int| 0 <= k < front.len() implies 0 <= #[trigger] front[k]
            < table.len() by {
            assert(picks[k] == front[k]);
        }
        assert forall|k: int, l: int| 0 <= k < l < front.len() implies comes_first(
            table[#[trigger] front[k]].updated_at,
            table[#[trigger] front[l]].updated_at,
        ) by {
            assert(picks[k] == front[k] && picks[l] == front[l]);
        }
        let before = lemma_shown(table, extra, front);
        let before_rows = Seq::new(front.len(), |k: int| table[front[k]].selected(extra));
        assert(rows.drop_last() =~= before_rows);
        assert(rows.last() == record.selected(extra));
        lemma_record(record, extra, false);
        assert forall|i: int| picks.contains(i) implies i == last || front.contains(i) by {
            let k = picks.index_of(i);
            if k < front.len() {
                assert(front[k] == i);
            }
        }
        assert forall|i: int| front.contains(i) implies picks.contains(i) && i != last by {
            let k = front.index_of(i);
            assert(picks[k] == i);
            assert(k != picks.len() - 1);
        }
        assert(picks.contains(last));
        if record.is_readable(extra) && !record.works_in_claw() {
            let shown = before.push(last);
            assert(shown.contains(last)) by {
                assert(shown[before.len() as int] == last);
            }
            assert forall|i: int| #[trigger] shown.contains(i) <==> picks.contains(i)
                && table[i].is_readable(extra) && !table[i].works_in_claw() by {
                if before.contains(i) {
                    let k = before.index_of(i);
                    assert(shown[k] == i);
                }
                if shown.contains(i) && i != last {
                    let k = shown.index_of(i);
                    assert(before[k] == i);
                    assert(before.contains(i));
                }
            }
            assert forall|k: int| 0 <= k < before.len() implies front.contains(
                #[trigger] before[k],
            ) by {
                assert(before.contains(before[k]));
            }
            assert forall|k: int, l: int| 0 <= k < l < shown.len() implies comes_first(
                table[#[trigger] shown[k]].updated_at,
                table[#[trigger] shown[l]].updated_at,
            ) by {
                if l == before.len() {
                    assert(front.contains(before[k]));
                    let at = front.index_of(before[k]);
                    assert(picks[at] == before[k]);
                    assert(picks[picks.len() - 1] == last);
                } else {
                    assert(shown[k] == before[k] && shown[l] == before[l]);
                }
            }
            assert(shown.no_duplicates()) by {
                assert forall|k: int, l: int| 0 <= k < shown.len() && 0 <= l < shown.len() && k
                    != l implies shown[k] != shown[l] by {
                    if k < before.len() {
                        assert(front.contains(before[k]));
                    }
                    if l < before.len() {
                        assert(front.contains(before[l]));
                    }
                }
            }
            assert(visible_rows(rows) =~= Seq::new(
                shown.len(),
                |m: int| session_row(table[shown[m]].selected(extra))->0,
            ));
            shown
        } else {
            assert forall|i: int| #[trigger] before.contains(i) <==> picks.contains(i)
                && table[i].is_readable(extra) && !table[i].works_in_claw() by {}
            assert(visible_rows(rows) =~= Seq::new(
                before.len(),
                |m: int| session_row(table[before[m]].selected(extra))->0,
            ));
            before
        }
    }
}

/// A listing has every session of the user that is not deleted, can be read and is
/// not of a Claw workspace, and no other; each once, the latest first, and with what
/// the table says of it and whether it has a transcript.
pub proof fn all_sessions_of_the_user_are_listed(
    world: World,
    home: PathView,
    edition: SessionEdition,
    table: Seq<SessionRecord>,
    extra: ExtraColumns,
    uid: Seq<char>,
    picks: Seq<int>,
) -> (shown: Seq<int>)
    requires
        keeps_sessions(world, home, edition, table, extra, uid, picks),
    ensures
        ({
            let entries = listing_start(home, uid, edition).settled(world).entries;
            &&& are_latest_first(table, shown)
            &&& forall|i: int|
                0 <= i < table.len() ==> (#[trigger] shown.contains(i) <==> table[i].is_kept_by(uid)
                    && table[i].is_readable(extra) && !table[i].works_in_claw())
            &&& entries.len() == shown.len()
            &&& forall|k: int|
                0 <= k < entries.len() ==> #[trigger] entries[k] == table[shown[k]].told(
                    extra,
                    transcript(
                        world,
                        transcripts_directory(home, edition),
                        text_of(table[shown[k]].id) + ".jsonl"@,
                    ) is Some,
                )
        }),
{
    let db = session_database(home, edition);
    let columns = world(reading_query(db, "PRAGMA table_info(sessions)"@, Seq::empty()));
    data_is_kept_in_these_places(home, edition);
    assert(db == db_path(home, edition));
    tables_are_asked_about_so(db, true, "sessions"@);
    reveal_strlit("PRAGMA table_info(");
    reveal_strlit("sessions");
    reveal_strlit(")");
    reveal_strlit("PRAGMA table_info(sessions)");
    assert("PRAGMA table_info("@ + "sessions"@ + ")"@ =~= "PRAGMA table_info(sessions)"@);
    columns_are_named_in_second_place(columns, "custom_title"@);
    columns_are_named_in_second_place(columns, "is_playground"@);
    all_sessions_are_asked_for(db, uid, extra.custom_title, extra.is_playground);
    let found = world(
        reading_query(
            db,
            all_sessions_sql(extra.custom_title, extra.is_playground),
            seq![SqlView::Text(uid)],
        ),
    );
    let table_reply = world(RequestView::Query(table_query(db, true, "sessions"@)));
    assert(table_reply->Rows_0.rows[0][0] == SqlView::Integer(1));
    assert(is_one(table_reply.first_value()));
    let rows = listed_rows(world, home, uid, edition);
    assert(rows == visible_rows(found->Rows_0.rows));
    listing_lists_the_sessions(world, home, uid, edition);
    let shown = lemma_shown(table, extra, picks);
    let entries = listing_start(home, uid, edition).settled(world).entries;
    assert(entries == listed_entries(world, home, uid, edition));
    assert(rows.len() == shown.len());
    assert forall|k: int| 0 <= k < entries.len() implies #[trigger] entries[k]
        == table[shown[k]].told(
        extra,
        transcript(
            world,
            transcripts_directory(home, edition),
            text_of(table[shown[k]].id) + ".jsonl"@,
        ) is Some,
    ) by {
        let record = table[shown[k]];
        let has_history = transcript(
            world,
            transcripts_directory(home, edition),
            text_of(record.id) + ".jsonl"@,
        ) is Some;
        assert(shown.contains(shown[k]));
        lemma_record(record, extra, has_history);
        assert(rows[k] == session_row(record.selected(extra))->0);
        files_are_named_so(text_of(record.id), home, Seq::empty());
        assert(transcripts_directory(home, edition) == projects_root(home, edition));
        assert(entries[k] == listed_entry(world, home, edition, rows[k]));
    }
    assert forall|i: int| 0 <= i < table.len() implies (#[trigger] shown.contains(i)
        <==> table[i].is_kept_by(uid) && table[i].is_readable(extra)
        && !table[i].works_in_claw()) by {
        assert(picks.contains(i) <==> table[i].is_kept_by(uid));
    }
    shown
}

} // verus!

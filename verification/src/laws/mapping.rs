use crate::edge_sync::{channel_of, edge_sync_start, mapping_paths, EdgeSyncView};
use crate::edition::SessionEdition;
use crate::io::{ReplyView, RequestView, World};
use crate::laws::edge_sync::{
    database_in_use_stays_in_use, mapping_db, mapping_dbs, only_entered, search_finds_mapping_db,
    search_is_confined, search_stays_confined,
};
use crate::mapping::{
    mapping_start, mapping_statement, registration_start, MappingPhase, MappingView,
    RegistrationStageView, RegistrationView,
};
use crate::path::PathView;
use crate::sql::{is_one, table_query};
use vstd::prelude::*;

verus! {

/// Whether a session gets into a mapping database, where `world` answers.
pub open spec fn enters(
    world: World,
    db: PathView,
    cid: Seq<char>,
    uid: Seq<char>,
) -> bool {
    let now = world(RequestView::NowSeconds).number();
    &&& world(RequestView::IsFile(db)).yes()
    &&& is_one(
        world(RequestView::Query(table_query(db, false, "edge_sync_mapping"@))).first_value(),
    )
    &&& world(RequestView::Execute(mapping_statement(db, cid, uid, now))) == ReplyView::Executed
}

/// The entry of a session ends. The session is entered exactly where the database
/// is there with its mappings and takes the statement.
pub proof fn entry_ends(world: World, db: PathView, cid: Seq<char>, uid: Seq<char>)
    ensures
        mapping_start(db, cid, uid).settled(world).over(),
        mapping_start(db, cid, uid).settled(world).written == enters(world, db, cid, uid),
{
    reveal_with_fuel(MappingView::settled, 5);
}

/// Whether a session gets registered, where `world` answers.
pub open spec fn registers(
    world: World,
    home: PathView,
    cid: Seq<char>,
    uid: Seq<char>,
    edition: SessionEdition,
) -> bool {
    match mapping_db(world, home, edition, Some(uid)) {
        Some(db) => enters(world, db, cid, uid),
        None => false,
    }
}

proof fn lemma_inserting(world: World, registration: RegistrationView, insert: MappingView)
    requires
        registration.stage == RegistrationStageView::Inserting(insert),
        !insert.over(),
    ensures
        registration.settled(world) == registration.with_insert(insert.settled(world)).settled(
            world,
        ),
    decreases insert.rank(),
{
    let reply = world(insert.request()->0);
    let next = insert.advance(reply);
    let after = registration.advance(reply);
    assert(registration.settled(world) == after.settled(world));
    assert(insert.settled(world) == next.settled(world));
    if !next.over() {
        lemma_inserting(world, after, next);
        assert(after.with_insert(next.settled(world)) == registration.with_insert(
            next.settled(world),
        ));
    } else {
        assert(next.settled(world) == next);
    }
}

proof fn lemma_searching(world: World, registration: RegistrationView, search: EdgeSyncView)
    requires
        registration.stage == RegistrationStageView::Searching(search),
        search_is_confined(search),
        !search.over(),
    ensures
        registration.settled(world) == registration.with_search(search.settled(world)).settled(
            world,
        ),
        registration.changes(world) == registration.with_search(search.settled(world)).changes(
            world,
        ),
    decreases search.rank(), search.looks_left(),
{
    let reply = world(search.request()->0);
    let next = search.advance(reply);
    let after = registration.advance(reply);
    search_stays_confined(search, reply);
    assert(registration.settled(world) == after.settled(world));
    assert(registration.changes(world) == after.changes(world));
    assert(search.settled(world) == next.settled(world));
    if !next.over() {
        lemma_searching(world, after, next);
        assert(after.with_search(next.settled(world)) == registration.with_search(
            next.settled(world),
        ));
    } else {
        assert(next.settled(world) == next);
    }
}

/// A registration ends. The session is registered exactly where the edition has a
/// mapping database and the one in use takes it.
pub proof fn registration_ends(
    world: World,
    home: PathView,
    cid: Seq<char>,
    uid: Seq<char>,
    edition: SessionEdition,
)
    ensures
        registration_start(home, cid, uid, edition).settled(world).over(),
        registration_start(home, cid, uid, edition).settled(world).written() == registers(
            world,
            home,
            cid,
            uid,
            edition,
        ),
{
    let start = registration_start(home, cid, uid, edition);
    let search = start.stage->Searching_0;
    search_finds_mapping_db(world, home, edition, Some(uid));
    lemma_searching(world, start, search);
    if let Some(db) = search.settled(world).found {
        let insert = mapping_start(db, cid, uid);
        let inserting = start.with_search(search.settled(world));
        entry_ends(world, db, cid, uid);
        lemma_inserting(world, inserting, insert);
    }
}

proof fn lemma_inserting_changes(world: World, registration: RegistrationView, insert: MappingView)
    requires
        registration.stage == RegistrationStageView::Inserting(insert),
        insert == mapping_start(insert.db, insert.cid, insert.uid),
    ensures
        registration.changes(world) == mapping_changes(world, insert.db, insert.cid, insert.uid),
{
    let db = insert.db;
    let there = registration.advance(world(RequestView::IsFile(db)));
    assert(registration.changes(world) == there.changes(world));
    if world(RequestView::IsFile(db)).yes() {
        let query = RequestView::Query(table_query(db, false, "edge_sync_mapping"@));
        let table = there.advance(world(query));
        assert(there.changes(world) == table.changes(world));
        if is_one(world(query).first_value()) {
            let timed = table.advance(world(RequestView::NowSeconds));
            assert(table.changes(world) == timed.changes(world));
            let now = world(RequestView::NowSeconds).number();
            let entry = RequestView::Execute(mapping_statement(db, insert.cid, insert.uid, now));
            let done = timed.advance(world(entry));
            assert(done.changes(world) =~= Seq::empty());
            assert(timed.changes(world) == seq![entry] + done.changes(world));
            assert(seq![entry] + done.changes(world) =~= seq![entry]);
        } else {
            assert(table.changes(world) =~= Seq::empty());
        }
    } else {
        assert(there.changes(world) =~= Seq::empty());
    }
}

/// The changes by which a session gets into a mapping database, where `world`
/// answers: one statement, where the database is there with its mappings.
pub open spec fn mapping_changes(
    world: World,
    db: PathView,
    cid: Seq<char>,
    uid: Seq<char>,
) -> Seq<RequestView> {
    let table = RequestView::Query(table_query(db, false, "edge_sync_mapping"@));
    if world(RequestView::IsFile(db)).yes() && is_one(world(table).first_value()) {
        let now = world(RequestView::NowSeconds).number();
        seq![RequestView::Execute(mapping_statement(db, cid, uid, now))]
    } else {
        Seq::empty()
    }
}

/// A registration changes one mapping database at most, and that is the one in
/// use: by the one statement that enters the session with the channel of its
/// owner. Without a mapping database it changes nothing, and the session is not
/// registered.
pub proof fn registration_changes_the_database_in_use(
    world: World,
    home: PathView,
    cid: Seq<char>,
    uid: Seq<char>,
    edition: SessionEdition,
)
    ensures
        registration_start(home, cid, uid, edition).changes(world) == (match mapping_db(
            world,
            home,
            edition,
            Some(uid),
        ) {
            Some(db) => mapping_changes(world, db, cid, uid),
            None => Seq::empty(),
        }),
        mapping_dbs(world, home, edition).len() == 0 ==> {
            &&& registration_start(home, cid, uid, edition).changes(world) == Seq::<
                RequestView,
            >::empty()
            &&& !registration_start(home, cid, uid, edition).settled(world).written()
        },
{
    let start = registration_start(home, cid, uid, edition);
    let search = start.stage->Searching_0;
    search_finds_mapping_db(world, home, edition, Some(uid));
    lemma_searching(world, start, search);
    registration_ends(world, home, cid, uid, edition);
    let searched = start.with_search(search.settled(world));
    match search.settled(world).found {
        Some(db) => {
            lemma_inserting_changes(world, searched, mapping_start(db, cid, uid));
        },
        None => {
            assert(searched.changes(world) =~= Seq::empty());
        },
    }
}

/// A session that was registered is in the database in use, which is still the one
/// in use afterwards: the next search for the same owner finds the very database
/// that was changed, where nothing else has changed the mapping databases and the
/// clock was not set back.
pub proof fn registered_session_is_found_again(
    before: World,
    after: World,
    home: PathView,
    cid: Seq<char>,
    uid: Seq<char>,
    edition: SessionEdition,
    db: PathView,
)
    requires
        mapping_db(before, home, edition, Some(uid)) == Some(db),
        registration_start(home, cid, uid, edition).settled(before).written(),
        only_entered(before, after, home, edition, channel_of(uid), db),
    ensures
        registration_start(home, cid, uid, edition).changes(before) == seq![
            RequestView::Execute(
                mapping_statement(db, cid, uid, before(RequestView::NowSeconds).number()),
            ),
        ],
        mapping_db(after, home, edition, Some(uid)) == Some(db),
        edge_sync_start(home, edition, Some(uid)).settled(after).found == Some(db),
{
    registration_ends(before, home, cid, uid, edition);
    registration_changes_the_database_in_use(before, home, cid, uid, edition);
    database_in_use_stays_in_use(before, after, home, edition, uid, db);
    search_finds_mapping_db(after, home, edition, Some(uid));
}

/// Whether a registration of `cid` for `uid` has to do with the mapping databases
/// of one edition alone.
pub open spec fn registration_is_confined(
    registration: RegistrationView,
    home: PathView,
    cid: Seq<char>,
    uid: Seq<char>,
    edition: SessionEdition,
) -> bool {
    &&& registration.cid == cid
    &&& registration.uid == uid
    &&& match registration.stage {
        RegistrationStageView::Searching(search) => {
            &&& search_is_confined(search)
            &&& !search.over()
            &&& search.home == home
            &&& search.edition == edition
        },
        RegistrationStageView::Inserting(insert) => {
            &&& !insert.over()
            &&& insert.cid == cid
            &&& insert.uid == uid
            &&& mapping_paths(home, edition).contains(insert.db)
        },
        RegistrationStageView::Finished(_) => true,
    }
}

/// Whatever comes back, a registration changes nothing but by the statement that
/// enters the session for its owner into a mapping database of the edition.
pub proof fn registration_stays_confined(
    registration: RegistrationView,
    home: PathView,
    cid: Seq<char>,
    uid: Seq<char>,
    edition: SessionEdition,
    reply: ReplyView,
)
    requires
        registration_is_confined(registration, home, cid, uid, edition),
    ensures
        registration_is_confined(registration.advance(reply), home, cid, uid, edition),
        registration.request() is None <==> registration.over(),
        registration.request() matches Some(request) ==> request.writes() ==> exists|
            db: PathView,
            now: i64,
        | mapping_paths(home, edition).contains(db) && request == RequestView::Execute(
            #[trigger] mapping_statement(db, cid, uid, now),
        ),
{
    match registration.stage {
        RegistrationStageView::Searching(search) => {
            search_stays_confined(search, reply);
        },
        RegistrationStageView::Inserting(insert) => {
            if insert.phase == MappingPhase::Insert {
                assert(registration.request() == Some(
                    RequestView::Execute(mapping_statement(insert.db, cid, uid, insert.now)),
                ));
            }
        },
        RegistrationStageView::Finished(_) => {},
    }
}

} // verus!

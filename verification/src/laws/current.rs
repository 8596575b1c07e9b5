use crate::current::{current_report, current_start, CurrentStageView, CurrentView};
use crate::edition::SessionEdition;
use crate::io::{ReplyView, RequestView, World};
use crate::laws::layout::lemma_below;
use crate::laws::listing::{
    lemma_listing_stays_on_course, lemma_looks_at_edition, listed_entries,
    listing_lists_the_sessions, listing_on_course, looks_at_edition,
};
use crate::layout::{data_root, db_path};
use crate::listing::{listing_start, ListingView};
use crate::path::{plain, PathView};
use crate::text::text_or_empty;
use vstd::prelude::*;

verus! {

proof fn lemma_listing(world: World, current: CurrentView, listing: ListingView)
    requires
        current.stage == CurrentStageView::List(listing),
        listing.searchable(),
        listing.request() is Some,
    ensures
        current.settled(world) == current.with_listing(listing.settled(world)).settled(world),
    decreases
        listing.rank(),
        listing.rows_left(),
        listing.search_rank(),
        listing.looks_left(),
{
    let reply = world(listing.request()->0);
    let next = listing.advance(reply);
    let after = current.advance(reply);
    assert(current.settled(world) == after.settled(world));
    assert(listing.settled(world) == next.settled(world));
    assert(next.searchable());
    if !next.over() {
        lemma_listing(world, after, next);
        assert(after.with_listing(next.settled(world)) == current.with_listing(
            next.settled(world),
        ));
    } else {
        assert(next.settled(world) == next);
    }
}

/// The report on the current sessions gets done: it lists the sessions of the
/// account in its own edition and says whether the database of that edition is
/// there.
pub proof fn report_lists_the_current_sessions(
    world: World,
    home: PathView,
    uid: Seq<char>,
    edition: SessionEdition,
)
    ensures
        current_start(home, uid, edition).settled(world).stage == CurrentStageView::Finished(
            current_report(
                uid,
                edition,
                listed_entries(world, home, uid, edition),
                world(RequestView::IsFile(db_path(home, edition))).yes(),
                text_or_empty(world(RequestView::PathText(db_path(home, edition))).text()),
            ),
        ),
{
    let start = current_start(home, uid, edition);
    let listing = listing_start(home, uid, edition);
    let db = db_path(home, edition);
    listing_lists_the_sessions(world, home, uid, edition);
    lemma_listing(world, start, listing);
    let listed = start.with_listing(listing.settled(world));
    let looked = listed.advance(world(RequestView::IsFile(db)));
    assert(listed.settled(world) == looked.settled(world));
    let shown = looked.advance(world(RequestView::PathText(db)));
    assert(looked.settled(world) == shown.settled(world));
    assert(shown.settled(world) == shown);
}

/// What holds of a report at each stage.
spec fn on_course(
    home: PathView,
    uid: Seq<char>,
    edition: SessionEdition,
    current: CurrentView,
) -> bool {
    &&& current.home == home
    &&& current.uid == uid
    &&& current.edition == edition
    &&& current.stage matches CurrentStageView::List(listing) ==> {
        &&& listing_on_course(home, uid, edition, listing)
        &&& !listing.over()
    }
}

proof fn lemma_on_course(
    home: PathView,
    uid: Seq<char>,
    edition: SessionEdition,
    replies: Seq<ReplyView>,
)
    ensures
        on_course(home, uid, edition, current_start(home, uid, edition).after(replies)),
    decreases replies.len(),
{
    if replies.len() > 0 {
        let before = current_start(home, uid, edition).after(replies.drop_last());
        lemma_on_course(home, uid, edition, replies.drop_last());
        if let CurrentStageView::List(listing) = before.stage {
            lemma_listing_stays_on_course(home, uid, edition, listing, replies.last());
        }
    }
}

/// Whatever comes back, the report on the current sessions changes nothing and has
/// to do with nothing but the data of the edition of the account, the ids of the
/// sessions being taken as plain names; and it asks for something until it is done.
pub proof fn report_stays_in_its_edition(
    home: PathView,
    uid: Seq<char>,
    edition: SessionEdition,
    replies: Seq<ReplyView>,
)
    ensures
        ({
            let current = current_start(home, uid, edition).after(replies);
            &&& current.request() is None <==> current.over()
            &&& current.request() matches Some(request) ==> looks_at_edition(
                home,
                edition,
                request,
            )
        }),
{
    let current = current_start(home, uid, edition).after(replies);
    lemma_on_course(home, uid, edition, replies);
    lemma_below(data_root(home, edition), plain("workbuddy.db"@));
    if let CurrentStageView::List(listing) = current.stage {
        lemma_looks_at_edition(home, uid, edition, listing);
    }
}

} // verus!

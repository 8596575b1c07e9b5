use crate::edge_sync::{
    channel_of, channel_query, dated, edge_sync_start, flagged, is_nonzero, lemma_newest_first_len,
    lemma_placed, mapping_paths, newest_first, placed, undated, Dated, EdgeSyncPhase, EdgeSyncView,
};
use crate::edition::SessionEdition;
use crate::io::{ReplyView, RequestView, World};
use crate::laws::layout::data_directory;
use crate::layout::data_root;
use crate::path::{NameView, PathView};
use crate::sql::{SqlView, StatementView};
use vstd::prelude::*;

verus! {

/// Whether `order` lists each place of `files`, from the latest time to the
/// earliest, and of those with one time the later place first.
pub open spec fn is_newest_first(files: Seq<Dated>, order: Seq<int>) -> bool {
    &&& order.len() == files.len()
    &&& forall|k: int| 0 <= k < order.len() ==> 0 <= #[trigger] order[k] < files.len()
    &&& forall|i: int| 0 <= i < files.len() ==> #[trigger] order.contains(i)
    &&& forall|k: int, l: int|
        0 <= k < l < order.len() ==> {
            ||| files[#[trigger] order[k]].1 > files[#[trigger] order[l]].1
            ||| files[order[k]].1 == files[order[l]].1 && order[k] > order[l]
        }
}

/// The position of the first file in `order` that is not later than `time`.
spec fn position(files: Seq<Dated>, order: Seq<int>, time: i128) -> int
    decreases order.len(),
{
    if order.len() == 0 || files[order.first()].1 <= time {
        0
    } else {
        1 + position(files, order.drop_first(), time)
    }
}

proof fn lemma_position(files: Seq<Dated>, order: Seq<int>, file: Dated)
    ensures
        ({
            let at = position(files, order, file.1);
            let list = Seq::new(order.len(), |k: int| files[order[k]]);
            &&& 0 <= at <= order.len()
            &&& forall|k: int| 0 <= k < at ==> files[#[trigger] order[k]].1 > file.1
            &&& at < order.len() ==> files[order[at]].1 <= file.1
            &&& placed(list, file) == list.insert(at, file)
        }),
    decreases order.len(),
{
    let at = position(files, order, file.1);
    let list = Seq::new(order.len(), |k: int| files[order[k]]);
    if order.len() > 0 && files[order.first()].1 > file.1 {
        let rest = order.drop_first();
        lemma_position(files, rest, file);
        assert forall|k: int| 0 <= k < at implies files[#[trigger] order[k]].1 > file.1 by {
            if k > 0 {
                assert(rest[k - 1] == order[k]);
            }
        }
        if at < order.len() {
            assert(rest[at - 1] == order[at]);
        }
    }
    assert forall|k: int| 0 <= k < at implies (#[trigger] list[k]).1 > file.1 by {
        assert(list[k] == files[order[k]]);
    }
    lemma_placed(list, file, at);
}

/// `newest_first` gives every file once, from the latest to the earliest; of
/// those with one time, the one that comes later in the list first. It is a
/// stable sort by time, reversed.
pub proof fn newest_first_orders_by_time(files: Seq<Dated>) -> (order: Seq<int>)
    ensures
        is_newest_first(files, order),
        newest_first(files) == Seq::new(order.len(), |k: int| files[order[k]]),
    decreases files.len(),
{
    if files.len() == 0 {
        let order = Seq::<int>::empty();
        assert(newest_first(files) =~= Seq::new(order.len(), |k: int| files[order[k]]));
        order
    } else {
        let front = files.drop_last();
        let file = files.last();
        let before = newest_first_orders_by_time(front);
        let at = position(front, before, file.1);
        lemma_position(front, before, file);
        let order = before.insert(at, files.len() - 1);
        assert forall|k: int| 0 <= k < order.len() implies 0 <= #[trigger] order[k] < files.len() by {
            if k != at {
                let old_k = if k < at {
                    k
                } else {
                    k - 1
                };
                assert(order[k] == before[old_k]);
            }
        }
        assert forall|i: int| 0 <= i < files.len() implies #[trigger] order.contains(i) by {
            if i == files.len() - 1 {
                assert(order[at] == i);
            } else {
                assert(before.contains(i));
                let k = before.index_of(i);
                assert(before[k] == i);
                assert(order[if k < at {
                    k
                } else {
                    k + 1
                }] == i);
            }
        }
        assert forall|k: int, l: int| 0 <= k < l < order.len() implies {
            ||| files[#[trigger] order[k]].1 > files[#[trigger] order[l]].1
            ||| files[order[k]].1 == files[order[l]].1 && order[k] > order[l]
        } by {
            let old_k = if k < at {
                k
            } else {
                k - 1
            };
            let old_l = if l < at {
                l
            } else {
                l - 1
            };
            if k != at {
                assert(order[k] == before[old_k]);
            }
            if l != at {
                assert(order[l] == before[old_l]);
            }
            if k == at && at < before.len() {
                if old_l > at {
                    assert(before[at] < front.len() && before[old_l] < front.len());
                }
            }
        }
        let list = Seq::new(before.len(), |k: int| front[before[k]]);
        assert(newest_first(files) == list.insert(at, file));
        assert(list.insert(at, file) =~= Seq::new(order.len(), |k: int| files[order[k]]));
        order
    }
}

/// The first database in `ordered` that knows the channel.
pub open spec fn first_knowing(
    world: World,
    ordered: Seq<PathView>,
    channel: Seq<char>,
) -> Option<PathView>
    decreases ordered.len(),
{
    if ordered.len() == 0 {
        None
    } else if is_nonzero(
        world(RequestView::Query(channel_query(ordered.first(), channel))).first_value(),
    ) {
        Some(ordered.first())
    } else {
        first_knowing(world, ordered.drop_first(), channel)
    }
}

/// The mapping databases of an edition that are there, from the one that was
/// changed last to the one that was changed first.
pub open spec fn mapping_dbs(
    world: World,
    home: PathView,
    edition: SessionEdition,
) -> Seq<PathView> {
    let there = mapping_paths(home, edition).filter(
        |path: PathView| world(RequestView::IsFile(path)).yes(),
    );
    let times = there.map_values(
        |path: PathView| world(RequestView::Modified(path)).time(),
    );
    undated(newest_first(dated(there, times)))
}

/// The mapping database that is in use: the one that was changed last among
/// those that know the channel of the user, else among all.
pub open spec fn mapping_db(
    world: World,
    home: PathView,
    edition: SessionEdition,
    target_uid: Option<Seq<char>>,
) -> Option<PathView> {
    let dbs = mapping_dbs(world, home, edition);
    if dbs.len() == 0 {
        None
    } else {
        match target_uid {
            Some(uid) => match first_knowing(world, dbs, channel_of(uid)) {
                Some(db) => Some(db),
                None => Some(dbs[0]),
            },
            None => Some(dbs[0]),
        }
    }
}

proof fn lemma_flagged(paths: Seq<PathView>, flags: Seq<bool>, world: World)
    requires
        paths.len() <= flags.len(),
        forall|i: int|
            0 <= i < paths.len() ==> #[trigger] flags[i] == world(
                RequestView::IsFile(paths[i]),
            ).yes(),
    ensures
        flagged(paths, flags) == paths.filter(
            |path: PathView| world(RequestView::IsFile(path)).yes(),
        ),
    decreases paths.len(),
{
    reveal(Seq::filter);
    if paths.len() > 0 {
        lemma_flagged(paths.drop_last(), flags, world);
        assert(flags[paths.len() - 1] == world(RequestView::IsFile(paths.last())).yes());
    }
}

proof fn lemma_probes(world: World, search: EdgeSyncView)
    requires
        search.phase == EdgeSyncPhase::Probe,
        search.well_formed(),
    ensures
        search.settled(world).over(),
        search.settled(world).found == match first_knowing(
            world,
            search.ordered.skip(search.index),
            search.channel->0,
        ) {
            Some(db) => Some(db),
            None => Some(search.ordered[0]),
        },
    decreases search.ordered.len() - search.index,
{
    let rest = search.ordered.skip(search.index);
    let reply = world(search.request()->0);
    let next = search.advance(reply);
    assert(rest.first() == search.ordered[search.index]);
    assert(rest.drop_first() == search.ordered.skip(search.index + 1));
    assert(search.settled(world) == next.settled(world));
    if next.phase == EdgeSyncPhase::Probe {
        lemma_probes(world, next);
    } else if !is_nonzero(reply.first_value()) {
        assert(first_knowing(world, rest.drop_first(), search.channel->0) is None);
    }
}

proof fn lemma_times(world: World, search: EdgeSyncView)
    requires
        search.phase == EdgeSyncPhase::Times,
        search.well_formed(),
        search.times == search.candidates.take(search.times.len() as int).map_values(
            |path: PathView| world(RequestView::Modified(path)).time(),
        ),
    ensures
        search.settled(world) == (EdgeSyncView {
            times: search.candidates.map_values(
                |path: PathView| world(RequestView::Modified(path)).time(),
            ),
            ..search
        }).with_order().settled(world),
    decreases search.candidates.len() - search.times.len(),
{
    let time_of = |path: PathView| world(RequestView::Modified(path)).time();
    let n = search.times.len() as int;
    let reply = world(search.request()->0);
    let times = search.times.push(reply.time());
    assert(search.settled(world) == search.advance(reply).settled(world));
    assert(times =~= search.candidates.take(n + 1).map_values(time_of));
    if n + 1 < search.candidates.len() {
        lemma_times(world, search.advance(reply));
    } else {
        assert(search.candidates.take(n + 1) == search.candidates);
    }
}

/// The search for the mapping database ends, and with the one that is in use.
pub proof fn search_finds_mapping_db(
    world: World,
    home: PathView,
    edition: SessionEdition,
    target_uid: Option<Seq<char>>,
)
    ensures
        edge_sync_start(home, edition, target_uid).settled(world).over(),
        edge_sync_start(home, edition, target_uid).settled(world).found == mapping_db(
            world,
            home,
            edition,
            target_uid,
        ),
{
    let start = edge_sync_start(home, edition, target_uid);
    let paths = mapping_paths(home, edition);
    let first = start.advance(world(RequestView::IsFile(paths[0])));
    let second = first.advance(world(RequestView::IsFile(paths[1])));
    let third = second.advance(world(RequestView::IsFile(paths[2])));
    assert(start.settled(world) == first.settled(world));
    assert(first.settled(world) == second.settled(world));
    assert(second.settled(world) == third.settled(world));
    lemma_flagged(paths, third.flags, world);
    let there = third.candidates;
    let time_of = |path: PathView| world(RequestView::Modified(path)).time();
    lemma_newest_first_len(dated(there, there.map_values(time_of)));
    if there.len() > 0 {
        assert(third.times =~= there.take(0).map_values(time_of));
        lemma_times(world, third);
        let ordered = (EdgeSyncView { times: there.map_values(time_of), ..third }).with_order();
        if ordered.phase == EdgeSyncPhase::Probe {
            assert(ordered.ordered.skip(0) == ordered.ordered);
            lemma_probes(world, ordered);
        }
    }
}

/// Whether a database knows the channel, where `world` answers.
pub open spec fn knows(world: World, db: PathView, channel: Seq<char>) -> bool {
    is_nonzero(world(RequestView::Query(channel_query(db, channel))).first_value())
}

proof fn lemma_first_knowing(world: World, ordered: Seq<PathView>, channel: Seq<char>) -> (k:
    int)
    ensures
        match first_knowing(world, ordered, channel) {
            Some(db) => 0 <= k < ordered.len() && ordered[k] == db && knows(world, db, channel),
            None => k == ordered.len(),
        },
        forall|j: int| 0 <= j < k ==> !knows(world, #[trigger] ordered[j], channel),
    decreases ordered.len(),
{
    if ordered.len() == 0 {
        0
    } else if knows(world, ordered.first(), channel) {
        0
    } else {
        let rest = ordered.drop_first();
        let k = lemma_first_knowing(world, rest, channel);
        assert forall|j: int| 0 <= j < k + 1 implies !knows(
            world,
            #[trigger] ordered[j],
            channel,
        ) by {
            if j > 0 {
                assert(rest[j - 1] == ordered[j]);
            }
        }
        k + 1
    }
}

proof fn lemma_same_files(paths: Seq<PathView>, before: World, after: World)
    requires
        forall|path: PathView| #[trigger]
            paths.contains(path) ==> before(RequestView::IsFile(path)).yes() == after(
                RequestView::IsFile(path),
            ).yes(),
    ensures
        paths.filter(|path: PathView| before(RequestView::IsFile(path)).yes())
            == paths.filter(|path: PathView| after(RequestView::IsFile(path)).yes()),
    decreases paths.len(),
{
    reveal(Seq::filter);
    if paths.len() > 0 {
        let front = paths.drop_last();
        assert forall|path: PathView| #[trigger] front.contains(path) implies before(
            RequestView::IsFile(path),
        ).yes() == after(RequestView::IsFile(path)).yes() by {
            let i = front.index_of(path);
            assert(paths[i] == path);
            assert(paths.contains(path));
        }
        lemma_same_files(front, before, after);
        assert(paths[paths.len() - 1] == paths.last());
        assert(paths.contains(paths.last()));
    }
}

proof fn lemma_mapping_paths_differ(home: PathView, edition: SessionEdition)
    ensures
        mapping_paths(home, edition).no_duplicates(),
{
    let paths = mapping_paths(home, edition);
    reveal_strlit("edge-sync-mapping-v4.db");
    reveal_strlit("edge-sync-mapping-v3.db");
    reveal_strlit("edge-sync-mapping-v2.db");
    assert("edge-sync-mapping-v4.db"@[19] == '4');
    assert("edge-sync-mapping-v3.db"@[19] == '3');
    assert("edge-sync-mapping-v2.db"@[19] == '2');
    assert(paths[0].last() != paths[1].last());
    assert(paths[0].last() != paths[2].last());
    assert(paths[1].last() != paths[2].last());
}

proof fn lemma_filter_no_duplicates(
    paths: Seq<PathView>,
    keep: spec_fn(PathView) -> bool,
)
    requires
        paths.no_duplicates(),
    ensures
        paths.filter(keep).no_duplicates(),
        forall|path: PathView| #[trigger]
            paths.filter(keep).contains(path) ==> paths.contains(path),
    decreases paths.len(),
{
    reveal(Seq::filter);
    if paths.len() > 0 {
        let front = paths.drop_last();
        lemma_filter_no_duplicates(front, keep);
        let kept = front.filter(keep);
        let whole = paths.filter(keep);
        assert forall|path: PathView| #[trigger] whole.contains(path) implies paths.contains(
            path,
        ) by {
            let i = whole.index_of(path);
            if i < kept.len() {
                assert(kept[i] == path);
                assert(kept.contains(path));
                let j = front.index_of(path);
                assert(paths[j] == path);
            } else {
                assert(paths[paths.len() - 1] == path);
            }
        }
        assert forall|i: int, j: int| 0 <= i < whole.len() && 0 <= j < whole.len() && i
            != j implies whole[i] != whole[j] by {
            if i < kept.len() {
                assert(kept.contains(kept[i]));
                assert(front.contains(kept[i]));
                let at = front.index_of(kept[i]);
                assert(paths[at] == kept[i]);
            }
            if j < kept.len() {
                assert(kept.contains(kept[j]));
                assert(front.contains(kept[j]));
                let at = front.index_of(kept[j]);
                assert(paths[at] == kept[j]);
            }
        }
    }
}

/// Whether `after` can be what `before` has become by a change of the mapping
/// database `db` that entered the channel: the same files are there, the other
/// mapping databases of the edition are as they were, `db` knows the channel, and
/// the time of its last change is not an earlier one.
pub open spec fn only_entered(
    before: World,
    after: World,
    home: PathView,
    edition: SessionEdition,
    channel: Seq<char>,
    db: PathView,
) -> bool {
    &&& forall|path: PathView| #[trigger]
        mapping_paths(home, edition).contains(path) ==> before(RequestView::IsFile(path)).yes()
            == after(RequestView::IsFile(path)).yes()
    &&& forall|path: PathView| #[trigger]
        mapping_paths(home, edition).contains(path) && path != db ==> {
            &&& before(RequestView::Modified(path)).time() == after(
                RequestView::Modified(path),
            ).time()
            &&& knows(before, path, channel) == knows(after, path, channel)
        }
    &&& knows(after, db, channel)
    &&& before(RequestView::Modified(db)).time() <= after(RequestView::Modified(db)).time()
}

/// The mapping database that is in use for a user is still the one in use once the
/// channel of the user was entered into it.
pub proof fn database_in_use_stays_in_use(
    before: World,
    after: World,
    home: PathView,
    edition: SessionEdition,
    uid: Seq<char>,
    db: PathView,
)
    requires
        mapping_db(before, home, edition, Some(uid)) == Some(db),
        only_entered(before, after, home, edition, channel_of(uid), db),
    ensures
        mapping_db(after, home, edition, Some(uid)) == Some(db),
{
    let channel = channel_of(uid);
    let paths = mapping_paths(home, edition);
    let is_file = |path: PathView| before(RequestView::IsFile(path)).yes();
    let there = paths.filter(is_file);
    lemma_same_files(paths, before, after);
    lemma_mapping_paths_differ(home, edition);
    lemma_filter_no_duplicates(paths, is_file);
    let old_times = there.map_values(
        |path: PathView| before(RequestView::Modified(path)).time(),
    );
    let new_times = there.map_values(
        |path: PathView| after(RequestView::Modified(path)).time(),
    );
    let old_files = dated(there, old_times);
    let new_files = dated(there, new_times);
    let old_order = newest_first_orders_by_time(old_files);
    let new_order = newest_first_orders_by_time(new_files);
    let old_dbs = mapping_dbs(before, home, edition);
    let new_dbs = mapping_dbs(after, home, edition);
    assert(old_dbs.len() == there.len() && new_dbs.len() == there.len());
    assert(forall|k: int| 0 <= k < there.len() ==> #[trigger] old_dbs[k] == there[old_order[k]]);
    assert(forall|k: int| 0 <= k < there.len() ==> #[trigger] new_dbs[k] == there[new_order[k]]);
    // The place of the database in the old order, and that none before it knows the channel.
    let first = lemma_first_knowing(before, old_dbs, channel);
    let old_place = if first < old_dbs.len() {
        first
    } else {
        0
    };
    assert(old_dbs[old_place] == db);
    let d = old_order[old_place];
    assert(there[d] == db);
    assert(old_files.len() == there.len() && new_files.len() == there.len());
    assert(new_order.contains(d));
    let new_place = new_order.index_of(d);
    assert(new_order[new_place] == d);
    assert(new_dbs[new_place] == db);
    assert forall|j: int| 0 <= j < new_place implies !knows(
        after,
        #[trigger] new_dbs[j],
        channel,
    ) by {
        let e = new_order[j];
        assert(new_dbs[j] == there[e]);
        assert(new_files[new_order[j]].1 > new_files[new_order[new_place]].1 || (new_files[new_order[j]].1
            == new_files[new_order[new_place]].1 && new_order[j] > new_order[new_place]));
        assert(e != d);
        assert(there[e] != db);
        assert(there.contains(there[e]));
        assert(paths.contains(there[e]));
        assert(old_files[e].1 == new_files[e].1);
        assert(old_files[d].1 <= new_files[d].1);
        assert(old_order.contains(e));
        let at = old_order.index_of(e);
        assert(old_order[at] == e);
        if at > old_place {
            assert(old_files[old_order[old_place]].1 > old_files[old_order[at]].1 || (
            old_files[old_order[old_place]].1 == old_files[old_order[at]].1 && old_order[old_place]
                > old_order[at]));
            assert(false);
        }
        assert(old_dbs[at] == there[e]);
        assert(at < old_place);
        assert(!knows(before, old_dbs[at], channel));
    }
    let found = lemma_first_knowing(after, new_dbs, channel);
    if found > new_place {
        assert(!knows(after, new_dbs[new_place], channel));
    }
    assert(found == new_place);
}

/// Whether a search for a mapping database of an edition has to do with the
/// places of such databases alone.
pub open spec fn search_is_confined(search: EdgeSyncView) -> bool {
    let places = mapping_paths(search.home, search.edition);
    &&& search.well_formed()
    &&& forall|i: int| 0 <= i < search.candidates.len() ==> places.contains(#[trigger] search.candidates[i])
    &&& forall|i: int| 0 <= i < search.ordered.len() ==> places.contains(#[trigger] search.ordered[i])
    &&& search.found matches Some(db) ==> places.contains(db)
}

proof fn lemma_flagged_among(paths: Seq<PathView>, flags: Seq<bool>)
    ensures
        forall|i: int|
            0 <= i < flagged(paths, flags).len() ==> paths.contains(
                #[trigger] flagged(paths, flags)[i],
            ),
    decreases paths.len(),
{
    if paths.len() > 0 {
        let front = paths.drop_last();
        lemma_flagged_among(front, flags);
        let all = flagged(paths, flags);
        assert forall|i: int| 0 <= i < all.len() implies paths.contains(#[trigger] all[i]) by {
            if i < flagged(front, flags).len() {
                assert(front.contains(flagged(front, flags)[i]));
                let k = choose|k: int| 0 <= k < front.len() && front[k] == all[i];
                assert(paths[k] == all[i]);
            } else {
                assert(paths[paths.len() - 1] == all[i]);
            }
        }
    }
}

/// Whatever comes back, a search for a mapping database of an edition asks about
/// the places of such databases alone, and ends with one of them or with none.
pub proof fn search_stays_confined(search: EdgeSyncView, reply: ReplyView)
    requires
        search_is_confined(search),
    ensures
        search_is_confined(search.advance(reply)),
        search.advance(reply).home == search.home,
        search.advance(reply).edition == search.edition,
        search.advance(reply).channel == search.channel,
        search.request() matches Some(request) ==> !request.writes(),
{
    let places = mapping_paths(search.home, search.edition);
    let next = search.advance(reply);
    match search.phase {
        EdgeSyncPhase::Files => {
            lemma_flagged_among(places, search.flags.push(reply.yes()));
        },
        EdgeSyncPhase::Times => {
            let times = search.times.push(reply.time());
            if times.len() >= search.candidates.len() {
                let files = dated(search.candidates, times);
                let order = newest_first_orders_by_time(files);
                lemma_newest_first_len(files);
                assert forall|i: int| 0 <= i < next.ordered.len() implies places.contains(
                    #[trigger] next.ordered[i],
                ) by {
                    assert(0 <= order[i] < files.len());
                    assert(next.ordered[i] == search.candidates[order[i]]);
                }
                assert(next.ordered.len() > 0);
                assert(places.contains(next.ordered[0]));
            }
        },
        _ => {},
    }
}

/// The places of those that a filter keeps, in their order.
proof fn lemma_kept(paths: Seq<PathView>, keep: spec_fn(PathView) -> bool) -> (picks: Seq<int>)
    ensures
        picks.len() == paths.filter(keep).len(),
        forall|k: int| 0 <= k < picks.len() ==> 0 <= #[trigger] picks[k] < paths.len(),
        forall|k: int|
            0 <= k < picks.len() ==> paths.filter(keep)[k] == paths[#[trigger] picks[k]],
        forall|k: int, l: int|
            0 <= k < l < picks.len() ==> #[trigger] picks[k] < #[trigger] picks[l],
        forall|i: int|
            0 <= i < paths.len() ==> (#[trigger] picks.contains(i) <==> keep(paths[i])),
    decreases paths.len(),
{
    reveal(Seq::filter);
    if paths.len() == 0 {
        Seq::empty()
    } else {
        let front = paths.drop_last();
        let last = paths.len() - 1;
        let before = lemma_kept(front, keep);
        if keep(paths.last()) {
            let picks = before.push(last);
            assert forall|i: int| 0 <= i < paths.len() implies (#[trigger] picks.contains(i)
                <==> keep(paths[i])) by {
                if i < last {
                    assert(front[i] == paths[i]);
                    assert(before.contains(i) <==> keep(front[i]));
                    if before.contains(i) {
                        let k = before.index_of(i);
                        assert(picks[k] == i);
                    }
                    if picks.contains(i) {
                        let k = picks.index_of(i);
                        assert(before[k] == i);
                    }
                } else {
                    assert(picks[before.len() as int] == i);
                }
            }
            picks
        } else {
            assert forall|i: int| 0 <= i < paths.len() implies (#[trigger] before.contains(i)
                <==> keep(paths[i])) by {
                if i < last {
                    assert(front[i] == paths[i]);
                } else if before.contains(i) {
                    let k = before.index_of(i);
                    assert(before[k] < front.len());
                }
            }
            before
        }
    }
}

/// The mapping databases that an edition can have, by their names: the newest
/// version first.
pub open spec fn mapping_files() -> Seq<Seq<char>> {
    seq!["edge-sync-mapping-v4.db"@, "edge-sync-mapping-v3.db"@, "edge-sync-mapping-v2.db"@]
}

/// Where the mapping database of this number is.
pub open spec fn mapping_file(home: PathView, edition: SessionEdition, i: int) -> PathView {
    data_directory(home, edition).push(NameView::Text(mapping_files()[i]))
}

/// Whether a file is there.
pub open spec fn is_there(world: World, path: PathView) -> bool {
    world(RequestView::IsFile(path)) == ReplyView::Flag(true)
}

/// When a file was changed last; the start of 1970, where that is not known.
pub open spec fn changed_at(world: World, path: PathView) -> int {
    match world(RequestView::Modified(path)) {
        ReplyView::Time(Some(time)) => time as int,
        _ => 0,
    }
}

/// Whether a mapping database has an entry for the user.
pub open spec fn has_entry_for(world: World, path: PathView, uid: Option<Seq<char>>) -> bool {
    uid is Some && {
        let reply = world(
            RequestView::Query(
                StatementView {
                    db: path,
                    read_only: true,
                    sql: "SELECT EXISTS(SELECT 1 FROM edge_sync_mapping WHERE msg_channel = ?1)"@,
                    params: seq![SqlView::Text("convmsg:"@ + uid->0)],
                },
            ),
        );
        &&& reply is Rows
        &&& reply->Rows_0.rows.len() > 0
        &&& reply->Rows_0.rows[0].len() > 0
        &&& reply->Rows_0.rows[0][0] is Integer
        &&& reply->Rows_0.rows[0][0] != SqlView::Integer(0)
    }
}

/// Whether the mapping database number `i` is to be used rather than number `j`: one
/// that has an entry for the user goes before one that has none; among the others the
/// one that was changed later does, and of two that were changed at once the one of
/// the older version.
pub open spec fn is_preferred(
    world: World,
    home: PathView,
    edition: SessionEdition,
    uid: Option<Seq<char>>,
    i: int,
    j: int,
) -> bool {
    let one = mapping_file(home, edition, i);
    let other = mapping_file(home, edition, j);
    let known = has_entry_for(world, one, uid);
    let other_known = has_entry_for(world, other, uid);
    ||| known && !other_known
    ||| known == other_known && changed_at(world, one) > changed_at(world, other)
    ||| known == other_known && changed_at(world, one) == changed_at(world, other) && i > j
}

/// The mapping database that is found is one that is there and that is preferred to
/// every other that is there; none is found only where none is there.
pub proof fn found_database_is_preferred(
    world: World,
    home: PathView,
    edition: SessionEdition,
    uid: Option<Seq<char>>,
) -> (i: int)
    ensures
        match edge_sync_start(home, edition, uid).settled(world).found {
            Some(db) => {
                &&& 0 <= i < 3
                &&& db == mapping_file(home, edition, i)
                &&& is_there(world, db)
                &&& forall|j: int|
                    0 <= j < 3 && j != i && is_there(world, mapping_file(home, edition, j))
                        ==> #[trigger] is_preferred(world, home, edition, uid, i, j)
            },
            None => forall|j: int|
                0 <= j < 3 ==> !is_there(world, #[trigger] mapping_file(home, edition, j)),
        },
{
    let paths = mapping_paths(home, edition);
    assert forall|j: int| 0 <= j < 3 implies paths[j] == #[trigger] mapping_file(
        home,
        edition,
        j,
    ) by {
        assert(data_directory(home, edition) == data_root(home, edition));
        if j == 0 {
        } else if j == 1 {
        } else {
        }
    }
    let keep = |path: PathView| world(RequestView::IsFile(path)).yes();
    let there = paths.filter(keep);
    let kept = lemma_kept(paths, keep);
    let times = there.map_values(|path: PathView| world(RequestView::Modified(path)).time());
    let files = dated(there, times);
    let order = newest_first_orders_by_time(files);
    let dbs = mapping_dbs(world, home, edition);
    search_finds_mapping_db(world, home, edition, uid);
    assert(dbs.len() == there.len());
    assert(files.len() == there.len());
    assert(forall|k: int| 0 <= k < dbs.len() ==> #[trigger] dbs[k] == there[order[k]]);
    if dbs.len() == 0 {
        assert forall|j: int| 0 <= j < 3 implies !is_there(
            world,
            #[trigger] mapping_file(home, edition, j),
        ) by {
            assert(kept.contains(j) <==> keep(paths[j]));
            if keep(paths[j]) {
                let k = kept.index_of(j);
                assert(kept[k] == j);
            }
        }
        0
    } else {
        let first = match uid {
            Some(u) => lemma_first_knowing(world, dbs, channel_of(u)),
            None => dbs.len() as int,
        };
        let place = if first < dbs.len() {
            first
        } else {
            0
        };
        let d = order[place];
        let i = kept[d];
        assert(dbs[place] == there[d]);
        assert(there[d] == paths[i]);
        assert(kept.contains(i));
        assert(keep(paths[i]));
        assert(paths[i] == mapping_file(home, edition, i));
        assert forall|j: int|
            0 <= j < 3 && j != i && is_there(
                world,
                mapping_file(home, edition, j),
            ) implies #[trigger] is_preferred(world, home, edition, uid, i, j) by {
            assert(paths[j] == mapping_file(home, edition, j));
            assert(kept.contains(j));
            let e = kept.index_of(j);
            assert(kept[e] == j);
            assert(there[e] == paths[j]);
            assert(order.contains(e));
            let at = order.index_of(e);
            assert(order[at] == e);
            assert(dbs[at] == paths[j]);
            assert(e != d);
            assert(at != place);
            if let Some(u) = uid {
                lemma_has_entry(world, paths[i], u);
                lemma_has_entry(world, paths[j], u);
            }
            assert(files[d].1 == changed_at(world, paths[i]));
            assert(files[e].1 == changed_at(world, paths[j]));
            if at < place {
                assert(first == place);
                assert(!knows(world, dbs[at], channel_of(uid->0)));
            } else {
                assert(files[order[place]].1 > files[order[at]].1 || (files[order[place]].1
                    == files[order[at]].1 && order[place] > order[at]));
                assert(d > e ==> i > j) by {
                    if d > e {
                        assert(kept[e] < kept[d]);
                    }
                }
                if first >= dbs.len() && uid is Some {
                    assert(!knows(world, dbs[place], channel_of(uid->0)));
                    assert(!knows(world, dbs[at], channel_of(uid->0)));
                }
            }
        }
        i
    }
}

proof fn lemma_has_entry(world: World, path: PathView, uid: Seq<char>)
    ensures
        has_entry_for(world, path, Some(uid)) <==> knows(world, path, channel_of(uid)),
{
    let query = channel_query(path, channel_of(uid));
    assert(query.params =~= seq![SqlView::Text("convmsg:"@ + uid)]);
}

} // verus!

use crate::copy::{copy_start, CopyOrderView, CopyReportView, CopyStageView, CopyView};
use crate::io::{ReplyView, RequestView, World};
use crate::json::{text_in, JsonView};
use crate::laws::changes::{changes_of_copy, copy_changes, copying_makes_these_changes};
use crate::laws::copy::{
    copy_outcome, copying_ends_with_its_outcome, is_permitted, lemma_asks, lemma_nearer,
    lemma_permitted, lemma_stays_on_course, on_course, puts_session, report_names_the_session,
    copying_changes_the_target_edition, copying_puts_the_session,
};
use crate::laws::layout::{data_directory, transcripts_directory};
use crate::path::NameView;
use crate::switch::{
    general_error, no_target_message, session_error, switch_start, SwitchOrderView, SwitchStageView,
    SwitchView,
};
use crate::text::text_or_empty;
use vstd::prelude::*;

verus! {

/// The reports on those of the first `n` sessions that are copied, where `world`
/// answers.
pub open spec fn reports(world: World, order: SwitchOrderView, n: int) -> Seq<JsonView>
    decreases n,
{
    if n <= 0 {
        Seq::empty()
    } else {
        let before = reports(world, order, n - 1);
        match copy_outcome(world, order.copy_order(n - 1)) {
            Ok(report) => before.push(report.json()),
            Err(_) => before,
        }
    }
}

/// The errors of those of the first `n` sessions that are not copied, where
/// `world` answers.
pub open spec fn failures(world: World, order: SwitchOrderView, n: int) -> Seq<JsonView>
    decreases n,
{
    if n <= 0 {
        Seq::empty()
    } else {
        let before = failures(world, order, n - 1);
        match copy_outcome(world, order.copy_order(n - 1)) {
            Ok(_) => before,
            Err(message) => before.push(session_error(order.ids[n - 1], message)),
        }
    }
}

/// Every session that is to be copied is either reported or named with its error.
pub proof fn every_session_is_accounted_for(world: World, order: SwitchOrderView, n: int)
    requires
        0 <= n <= order.ids.len(),
    ensures
        reports(world, order, n).len() + failures(world, order, n).len() == n,
    decreases n,
{
    if n > 0 {
        every_session_is_accounted_for(world, order, n - 1);
    }
}

proof fn lemma_copy(world: World, switch: SwitchView, order: CopyOrderView, copy: CopyView)
    requires
        switch.stage == SwitchStageView::Copy(copy),
        switch.well_formed(),
        on_course(order, copy),
        copy.request() is Some,
    ensures
        switch.settled(world) == switch.with_copy(copy.settled(world)).settled(world),
    decreases copy.stages_left(), copy.rank(), copy.looks_left(),
{
    let reply = world(copy.request()->0);
    let next = copy.advance(reply);
    let after = switch.advance(reply);
    lemma_stays_on_course(order, copy, reply);
    lemma_asks(order, copy);
    lemma_nearer(order, copy, reply);
    assert(switch.settled(world) == after.settled(world));
    assert(copy.settled(world) == next.settled(world));
    if !next.over() {
        lemma_asks(order, next);
        lemma_copy(world, after, order, next);
        assert(after.with_copy(next.settled(world)) == switch.with_copy(next.settled(world)));
    } else {
        assert(next.settled(world) == next);
    }
}

proof fn lemma_copies(world: World, switch: SwitchView, index: int)
    requires
        0 <= index <= switch.order.ids.len(),
        switch.order.ids.len() == switch.order.new_ids.len(),
        switch.copied == reports(world, switch.order, index),
        switch.errors == failures(world, switch.order, index),
    ensures
        ({
            let end = switch.at(index).settled(world);
            &&& end.over()
            &&& end.order == switch.order
            &&& end.copied == reports(world, switch.order, switch.order.ids.len() as int)
            &&& end.errors == failures(world, switch.order, switch.order.ids.len() as int)
        }),
    decreases switch.order.ids.len() - index,
{
    let here = switch.at(index);
    if index < switch.order.ids.len() {
        let order = switch.order.copy_order(index);
        let copy = copy_start(order);
        copying_ends_with_its_outcome(world, order);
        lemma_copy(world, here, order, copy);
        let noted = here.noted(copy_outcome(world, order));
        assert(here.with_copy(copy.settled(world)) == noted.at(index + 1));
        lemma_copies(world, noted, index + 1);
    } else {
        assert(here.settled(world) == here);
    }
}

/// The copying of sessions to another account ends. Where that account has a
/// database, each session is copied or its error is named, in the order in which
/// they were asked for; else nothing is copied and the error says so.
pub proof fn switch_copies_the_sessions(world: World, order: SwitchOrderView)
    requires
        world(RequestView::IsFile(order.target_db())).yes() ==> order.ids.len()
            == order.new_ids.len(),
    ensures
        ({
            let end = switch_start(order).settled(world);
            let n = order.ids.len() as int;
            &&& end.over()
            &&& end.order == order
            &&& if world(RequestView::IsFile(order.target_db())).yes() {
                &&& end.copied == reports(world, order, n)
                &&& end.errors == failures(world, order, n)
            } else {
                let shown = world(RequestView::PathText(order.target_db())).text();
                &&& end.copied == Seq::<JsonView>::empty()
                &&& end.errors == seq![general_error(no_target_message(text_or_empty(shown)))]
            }
        }),
{
    let start = switch_start(order);
    let reply = world(RequestView::IsFile(order.target_db()));
    let asked = start.advance(reply);
    assert(start.settled(world) == asked.settled(world));
    if reply.yes() {
        lemma_copies(world, start, 0);
    } else {
        let shown = asked.advance(world(RequestView::PathText(order.target_db())));
        assert(asked.settled(world) == shown.settled(world));
        assert(shown.settled(world) == shown);
        assert(shown.errors =~= seq![shown.errors[0]]);
    }
}

/// What holds of the copying of sessions at each stage.
spec fn switch_on_course(order: SwitchOrderView, switch: SwitchView) -> bool {
    &&& switch.order == order
    &&& switch.stage matches SwitchStageView::Copy(copy) ==> {
        &&& on_course(order.copy_order(switch.index), copy)
        &&& !copy.over()
    }
}

proof fn lemma_switch_on_course(order: SwitchOrderView, replies: Seq<ReplyView>)
    ensures
        switch_on_course(order, switch_start(order).after(replies)),
    decreases replies.len(),
{
    if replies.len() > 0 {
        let before = switch_start(order).after(replies.drop_last());
        lemma_switch_on_course(order, replies.drop_last());
        if let SwitchStageView::Copy(copy) = before.stage {
            lemma_stays_on_course(order.copy_order(before.index), copy, replies.last());
        }
    }
}

/// Whatever comes back, no session is passed over: those that have been dealt with
/// are each reported or named with an error, and at the end that is all of them,
/// unless the other account has no database, which is then the one error.
pub proof fn no_session_is_passed_over(order: SwitchOrderView, replies: Seq<ReplyView>)
    ensures
        ({
            let switch = switch_start(order).after(replies);
            &&& switch.stage is Copy ==> switch.copied.len() + switch.errors.len() == switch.index
                < order.ids.len()
            &&& switch.over() ==> {
                ||| switch.copied.len() + switch.errors.len() == order.ids.len()
                ||| {
                    &&& replies.len() > 0 && !replies[0].yes()
                    &&& switch.copied.len() == 0
                    &&& switch.errors.len() == 1
                }
            }
        }),
{
    lemma_counts(order, replies);
}

proof fn lemma_counts(order: SwitchOrderView, replies: Seq<ReplyView>)
    ensures
        ({
            let switch = switch_start(order).after(replies);
            let done = switch.copied.len() + switch.errors.len();
            &&& switch.order == order
            &&& match switch.stage {
                SwitchStageView::Database => replies.len() == 0 && done == 0,
                SwitchStageView::PathText => replies.len() > 0 && !replies[0].yes() && done == 0,
                SwitchStageView::Copy(_) => done == switch.index < order.ids.len(),
                SwitchStageView::Finished => {
                    ||| done == order.ids.len()
                    ||| {
                        &&& replies.len() > 0 && !replies[0].yes()
                        &&& switch.copied.len() == 0
                        &&& switch.errors.len() == 1
                    }
                },
            }
        }),
    decreases replies.len(),
{
    if replies.len() > 0 {
        lemma_counts(order, replies.drop_last());
    }
}

/// Ids for the copies are drawn once at most, and the copying then goes on as one
/// that had them from the start.
pub proof fn drawn_ids_are_as_if_given(
    order: SwitchOrderView,
    new_ids: Seq<Seq<char>>,
    replies: Seq<ReplyView>,
    reply: ReplyView,
)
    requires
        order.ids.len() == new_ids.len(),
    ensures
        switch_start(order).with_ids(new_ids) == switch_start(order.with_ids(new_ids)),
        switch_start(order.with_ids(new_ids)).after(replies).order == order.with_ids(new_ids),
        !switch_start(order.with_ids(new_ids)).after(replies).draws(reply),
{
    lemma_counts(order.with_ids(new_ids), replies);
}

/// Where the other account has no database, no ids are drawn.
pub proof fn no_ids_are_drawn_without_a_database(
    order: SwitchOrderView,
    replies: Seq<ReplyView>,
    reply: ReplyView,
)
    requires
        replies.len() > 0 ==> !replies[0].yes(),
        replies.len() == 0 ==> !reply.yes(),
    ensures
        !switch_start(order).after(replies).draws(reply),
{
    lemma_counts(order, replies);
}

/// What came of copying a session, where these replies took it to its end.
pub open spec fn outcome_after(order: CopyOrderView, replies: Seq<ReplyView>) -> Option<
    Result<CopyReportView, Seq<char>>,
> {
    match copy_start(order).after(replies).stage {
        CopyStageView::Finished(outcome) => Some(outcome),
        _ => None,
    }
}

/// The reports on those of the first `n` sessions that were copied, where
/// `parts[i]` are the replies to the copying of session `i`.
pub open spec fn reports_after(
    order: SwitchOrderView,
    parts: Seq<Seq<ReplyView>>,
    n: int,
) -> Seq<JsonView>
    decreases n,
{
    if n <= 0 {
        Seq::empty()
    } else {
        let before = reports_after(order, parts, n - 1);
        match outcome_after(order.copy_order(n - 1), parts[n - 1]) {
            Some(Ok(report)) => before.push(report.json()),
            _ => before,
        }
    }
}

/// The errors of those of the first `n` sessions that were not copied, where
/// `parts[i]` are the replies to the copying of session `i`.
pub open spec fn failures_after(
    order: SwitchOrderView,
    parts: Seq<Seq<ReplyView>>,
    n: int,
) -> Seq<JsonView>
    decreases n,
{
    if n <= 0 {
        Seq::empty()
    } else {
        let before = failures_after(order, parts, n - 1);
        match outcome_after(order.copy_order(n - 1), parts[n - 1]) {
            Some(Err(message)) => before.push(session_error(order.ids[n - 1], message)),
            _ => before,
        }
    }
}

proof fn lemma_same_parts(
    order: SwitchOrderView,
    one: Seq<Seq<ReplyView>>,
    other: Seq<Seq<ReplyView>>,
    n: int,
)
    requires
        forall|i: int| 0 <= i < n ==> #[trigger] one[i] == other[i],
    ensures
        reports_after(order, one, n) == reports_after(order, other, n),
        failures_after(order, one, n) == failures_after(order, other, n),
    decreases n,
{
    if n > 0 {
        lemma_same_parts(order, one, other, n - 1);
    }
}

/// Whether a switch is where `parts`, the replies to each of its copies, have taken
/// it.
spec fn in_turn(
    order: SwitchOrderView,
    switch: SwitchView,
    replies: Seq<ReplyView>,
    parts: Seq<Seq<ReplyView>>,
) -> bool {
    let done = switch.index;
    &&& switch.order == order
    &&& 0 <= done <= parts.len()
    &&& forall|i: int|
        0 <= i < done ==> outcome_after(order.copy_order(i), #[trigger] parts[i]) is Some
    &&& switch.copied == reports_after(order, parts, done)
    &&& switch.errors == failures_after(order, parts, done)
    &&& match switch.stage {
        SwitchStageView::Copy(copy) => {
            &&& done < order.ids.len()
            &&& parts.len() == done + 1
            &&& copy == copy_start(order.copy_order(done)).after(parts.last())
            &&& !copy.over()
            &&& replies == seq![replies[0]] + parts.flatten_alt()
        },
        SwitchStageView::Finished => {
            &&& done == order.ids.len()
            &&& parts.len() == done
            &&& (seq![replies[0]] + parts.flatten_alt()).is_prefix_of(replies)
        },
        _ => false,
    }
}

/// The parts of the replies, where one more reply has come to the copy at hand.
proof fn lemma_one_more(
    order: SwitchOrderView,
    before: SwitchView,
    replies: Seq<ReplyView>,
    parts: Seq<Seq<ReplyView>>,
    reply: ReplyView,
) -> (res: Seq<Seq<ReplyView>>)
    requires
        replies.len() > 0,
        in_turn(order, before, replies, parts),
        before.stage is Copy,
    ensures
        in_turn(order, before.advance(reply), replies.push(reply), res),
{
    let copy = before.stage->Copy_0;
    let done = before.index;
    let last = parts.last().push(reply);
    let longer = parts.drop_last().push(last);
    let next = copy.advance(reply);
    let after = before.advance(reply);
    assert(last.drop_last() =~= parts.last());
    assert(next == copy_start(order.copy_order(done)).after(last));
    assert(longer.drop_last() =~= parts.drop_last());
    assert(longer.flatten_alt() =~= parts.flatten_alt().push(reply));
    assert(replies.push(reply) =~= seq![replies[0]] + longer.flatten_alt());
    assert(forall|i: int| 0 <= i < done ==> #[trigger] longer[i] == parts[i]);
    lemma_same_parts(order, longer, parts, done);
    match next.stage {
        CopyStageView::Finished(outcome) => {
            assert(outcome_after(order.copy_order(done), longer[done]) == Some(outcome));
            assert forall|i: int| 0 <= i < done + 1 implies outcome_after(
                order.copy_order(i),
                #[trigger] longer[i],
            ) is Some by {
                if i < done {
                    assert(outcome_after(order.copy_order(i), parts[i]) is Some);
                }
            }
            if done + 1 < order.ids.len() {
                let fresh = longer.push(Seq::empty());
                assert(fresh.drop_last() =~= longer);
                assert(fresh.flatten_alt() =~= longer.flatten_alt());
                assert(forall|i: int| 0 <= i < done + 1 ==> #[trigger] fresh[i] == longer[i]);
                lemma_same_parts(order, fresh, longer, done + 1);
                fresh
            } else {
                let all = seq![replies[0]] + longer.flatten_alt();
                assert(all.is_prefix_of(replies.push(reply)));
                longer
            }
        },
        _ => {
            assert forall|i: int| 0 <= i < done implies outcome_after(
                order.copy_order(i),
                #[trigger] longer[i],
            ) is Some by {
                assert(outcome_after(order.copy_order(i), parts[i]) is Some);
            }
            longer
        },
    }
}

proof fn lemma_in_turn(order: SwitchOrderView, replies: Seq<ReplyView>) -> (parts: Seq<
    Seq<ReplyView>,
>)
    requires
        replies.len() > 0,
        replies[0].yes(),
    ensures
        in_turn(order, switch_start(order).after(replies), replies, parts),
    decreases replies.len(),
{
    let front = replies.drop_last();
    if front.len() == 0 {
        assert(switch_start(order).after(front) == switch_start(order));
        let switch = switch_start(order).after(replies);
        assert(switch == switch_start(order).at(0));
        if order.ids.len() > 0 {
            let parts = seq![Seq::<ReplyView>::empty()];
            assert(parts.drop_last() =~= Seq::empty());
            assert(parts.drop_last().flatten_alt() =~= Seq::empty());
            assert(parts.flatten_alt() =~= Seq::empty());
            assert(replies =~= seq![replies[0]] + parts.flatten_alt());
            parts
        } else {
            let parts = Seq::<Seq<ReplyView>>::empty();
            assert(parts.flatten_alt() =~= Seq::empty());
            assert((seq![replies[0]] + parts.flatten_alt()) =~= replies);
            assert(replies.is_prefix_of(replies));
            parts
        }
    } else {
        assert(front[0] == replies[0]);
        let before = switch_start(order).after(front);
        let parts = lemma_in_turn(order, front);
        assert(front.push(replies.last()) =~= replies);
        if before.stage is Copy {
            lemma_one_more(order, before, front, parts, replies.last())
        } else {
            let all = seq![front[0]] + parts.flatten_alt();
            assert(all =~= replies.subrange(0, all.len() as int));
            parts
        }
    }
}

/// Whatever comes back, and whatever the clocks and the databases say from one
/// session to the next: where the other account has a database, copying sessions to
/// it is to copy them in turn. The replies fall into one part for each session, and
/// what is reported, and what is named as an error, is what the copying of each
/// session comes to by its own part. Until it is over, it asks for what the copying of
/// the session at hand asks for.
pub proof fn sessions_are_copied_in_turn(order: SwitchOrderView, replies: Seq<ReplyView>) -> (parts:
    Seq<Seq<ReplyView>>)
    requires
        replies.len() > 0,
        replies[0].yes(),
    ensures
        ({
            let end = switch_start(order).after(replies);
            &&& !end.over() ==> {
                &&& 0 <= end.index < order.ids.len()
                &&& parts.len() == end.index + 1
                &&& replies == seq![replies[0]] + parts.flatten_alt()
                &&& end.request() == copy_start(order.copy_order(end.index)).after(
                    parts.last(),
                ).request()
                &&& end.copied == reports_after(order, parts, end.index)
                &&& end.errors == failures_after(order, parts, end.index)
            }
            &&& end.over() ==> {
                &&& parts.len() == order.ids.len()
                &&& (seq![replies[0]] + parts.flatten_alt()).is_prefix_of(replies)
                &&& forall|i: int|
                    0 <= i < parts.len() ==> outcome_after(
                        order.copy_order(i),
                        #[trigger] parts[i],
                    ) is Some
                &&& end.copied == reports_after(order, parts, parts.len() as int)
                &&& end.errors == failures_after(order, parts, parts.len() as int)
            }
        }),
{
    lemma_in_turn(order, replies)
}

/// The id of the session that an entry of a report is about.
pub open spec fn told_id(entry: JsonView) -> Option<Seq<char>> {
    text_in(entry.field("id"@))
}

/// Whether two lists of entries tell of the sessions `ids`, each in one of them and
/// in the order of `ids`.
pub open spec fn told_in_order(
    ids: Seq<Seq<char>>,
    copied: Seq<JsonView>,
    errors: Seq<JsonView>,
) -> bool
    decreases ids.len(),
{
    if ids.len() == 0 {
        copied.len() == 0 && errors.len() == 0
    } else {
        ||| {
            &&& copied.len() > 0
            &&& told_id(copied.last()) == Some(ids.last())
            &&& told_in_order(ids.drop_last(), copied.drop_last(), errors)
        }
        ||| {
            &&& errors.len() > 0
            &&& told_id(errors.last()) == Some(ids.last())
            &&& told_in_order(ids.drop_last(), copied, errors.drop_last())
        }
    }
}

proof fn lemma_told(order: SwitchOrderView, parts: Seq<Seq<ReplyView>>, n: int)
    requires
        0 <= n <= order.ids.len(),
        n <= parts.len(),
        forall|i: int|
            0 <= i < n ==> outcome_after(order.copy_order(i), #[trigger] parts[i]) is Some,
    ensures
        told_in_order(
            order.ids.take(n),
            reports_after(order, parts, n),
            failures_after(order, parts, n),
        ),
    decreases n,
{
    if n > 0 {
        let ids = order.ids.take(n);
        let copied = reports_after(order, parts, n - 1);
        let errors = failures_after(order, parts, n - 1);
        lemma_told(order, parts, n - 1);
        assert(ids.drop_last() =~= order.ids.take(n - 1));
        report_names_the_session(order.copy_order(n - 1), parts[n - 1]);
        assert(outcome_after(order.copy_order(n - 1), parts[n - 1]) is Some);
        match outcome_after(order.copy_order(n - 1), parts[n - 1])->0 {
            Ok(report) => {
                assert(copied.push(report.json()).drop_last() =~= copied);
                assert(told_id(report.json()) == Some(ids.last()));
            },
            Err(message) => {
                let error = session_error(ids.last(), message);
                assert(errors.push(error).drop_last() =~= errors);
                assert(told_id(error) == Some(ids.last()));
            },
        }
    }
}

/// Whatever comes back, where the other account has a database, every session that
/// was to be copied is told of once, as copied or with its error, and both lists
/// keep the order in which the sessions were asked for.
pub proof fn sessions_are_told_in_their_order(order: SwitchOrderView, replies: Seq<ReplyView>)
    requires
        replies.len() > 0,
        replies[0].yes(),
    ensures
        ({
            let end = switch_start(order).after(replies);
            end.over() ==> told_in_order(order.ids, end.copied, end.errors)
        }),
{
    let parts = sessions_are_copied_in_turn(order, replies);
    if switch_start(order).after(replies).over() {
        lemma_told(order, parts, order.ids.len() as int);
        assert(order.ids.take(order.ids.len() as int) =~= order.ids);
    }
}

/// Whatever comes back, the copying of sessions to another account looks at the
/// database of that account, and else makes only the requests that are permitted
/// for the session that it copies.
pub proof fn switch_stays_within_bounds(order: SwitchOrderView, replies: Seq<ReplyView>)
    ensures
        ({
            let switch = switch_start(order).after(replies);
            switch.request() matches Some(request) ==> {
                ||| request == RequestView::IsFile(order.target_db())
                ||| request == RequestView::PathText(order.target_db())
                ||| is_permitted(order.copy_order(switch.index), request)
            }
        }),
{
    let switch = switch_start(order).after(replies);
    lemma_switch_on_course(order, replies);
    if let SwitchStageView::Copy(copy) = switch.stage {
        lemma_permitted(order.copy_order(switch.index), copy);
    }
}

/// The copying of sessions asks for something until it is over.
pub proof fn switch_asks_until_it_is_over(order: SwitchOrderView, replies: Seq<ReplyView>)
    ensures
        switch_start(order).after(replies).request() is None <==> switch_start(order).after(
            replies,
        ).over(),
{
    let switch = switch_start(order).after(replies);
    lemma_switch_on_course(order, replies);
    if let SwitchStageView::Copy(copy) = switch.stage {
        lemma_asks(order.copy_order(switch.index), copy);
    }
}

/// Each session of a switch is copied as the switch asks: from its account and edition
/// to the account and the edition that are switched to, under the id that was drawn for
/// it.
pub proof fn sessions_are_copied_as_the_switch_asks(order: SwitchOrderView, index: int)
    ensures
        ({
            let copy = order.copy_order(index);
            &&& copy.home == order.home
            &&& copy.backup_dir == order.backup_dir
            &&& copy.source_uid == order.source_uid
            &&& copy.target_uid == order.target_uid
            &&& copy.source_edition == order.source_edition
            &&& copy.target_edition == order.target_edition
            &&& copy.cid == order.ids[index]
            &&& copy.new_cid == order.new_ids[index]
        }),
{
}

/// Whatever comes back, a switch changes the data of the edition that is switched to
/// and the backups, and nothing else: every statement that it executes is for a
/// database of that edition, and every transcript that it writes is below the
/// transcripts of that edition and named after a new session. A row that it puts into
/// the sessions belongs to the account that is switched to.
pub proof fn switch_changes_the_edition_switched_to(
    order: SwitchOrderView,
    replies: Seq<ReplyView>,
)
    ensures
        ({
            let switch = switch_start(order).after(replies);
            let target = data_directory(order.home, order.target_edition);
            let transcripts = transcripts_directory(order.home, order.target_edition);
            let backups = order.backup_dir.push(NameView::Text("sessions"@));
            match switch.request() {
                Some(RequestView::Execute(statement)) => {
                    &&& target.is_prefix_of(statement.db)
                    &&& statement.db == target.push(NameView::Text("workbuddy.db"@))
                        ==> puts_session(
                        statement,
                        order.new_ids[switch.index],
                        order.target_uid,
                    )
                },
                Some(RequestView::WriteText(path, text)) => {
                    &&& transcripts.is_prefix_of(path)
                    &&& path.last() == NameView::Text(order.new_ids[switch.index] + ".jsonl"@)
                },
                Some(RequestView::CreateDirs(path)) => transcripts.is_prefix_of(path)
                    || backups.is_prefix_of(path),
                Some(RequestView::CopyFile(from, to)) => target.is_prefix_of(from)
                    && backups.is_prefix_of(to),
                _ => true,
            }
        }),
{
    if replies.len() > 0 && replies[0].yes() {
        let parts = sessions_are_copied_in_turn(order, replies);
        let switch = switch_start(order).after(replies);
        if !switch.over() {
            sessions_are_copied_as_the_switch_asks(order, switch.index);
            copying_changes_the_target_edition(order.copy_order(switch.index), parts.last());
            copying_puts_the_session(order.copy_order(switch.index), parts.last());
        }
    } else {
        lemma_counts(order, replies);
        lemma_no_copy(order, replies);
    }
}

proof fn lemma_no_copy(order: SwitchOrderView, replies: Seq<ReplyView>)
    requires
        replies.len() > 0 ==> !replies[0].yes(),
    ensures
        !(switch_start(order).after(replies).stage is Copy),
        replies.len() > 0 ==> !(switch_start(order).after(replies).stage is Database),
    decreases replies.len(),
{
    if replies.len() > 0 {
        lemma_no_copy(order, replies.drop_last());
    }
}

/// The changes that a switch asks for up to its end, where `world` answers.
pub open spec fn changes_of_switch(switch: SwitchView, world: World) -> Seq<RequestView>
    decreases
        switch.stages_left(),
        switch.sessions_left(),
        switch.copy_left().0,
        switch.copy_left().1,
        switch.copy_left().2,
{
    match switch.request() {
        Some(request) if switch.well_formed() && (switch.stage matches SwitchStageView::Copy(copy)
            ==> copy.well_formed()) => {
            let later = changes_of_switch(switch.advance(world(request)), world);
            if request.writes() {
                seq![request] + later
            } else {
                later
            }
        },
        _ => Seq::empty(),
    }
}

/// The changes by which the sessions from `index` on are copied, where `world` answers.
pub open spec fn sessions_changes(world: World, order: SwitchOrderView, index: int) -> Seq<
    RequestView,
>
    decreases order.ids.len() - index,
{
    if index >= order.ids.len() {
        Seq::empty()
    } else {
        copy_changes(
            world,
            CopyOrderView {
                home: order.home,
                backup_dir: order.backup_dir,
                cid: order.ids[index],
                new_cid: order.new_ids[index],
                source_uid: order.source_uid,
                target_uid: order.target_uid,
                source_edition: order.source_edition,
                target_edition: order.target_edition,
            },
        ) + sessions_changes(world, order, index + 1)
    }
}

proof fn lemma_copy_changes(
    world: World,
    switch: SwitchView,
    order: CopyOrderView,
    copy: CopyView,
)
    requires
        switch.stage == SwitchStageView::Copy(copy),
        switch.well_formed(),
        on_course(order, copy),
        copy.request() is Some,
    ensures
        changes_of_switch(switch, world) == changes_of_copy(copy, world) + changes_of_switch(
            switch.with_copy(copy.settled(world)),
            world,
        ),
    decreases copy.stages_left(), copy.rank(), copy.looks_left(),
{
    let request = copy.request()->0;
    let reply = world(request);
    let next = copy.advance(reply);
    let after = switch.advance(reply);
    lemma_stays_on_course(order, copy, reply);
    lemma_asks(order, copy);
    lemma_nearer(order, copy, reply);
    let first = if request.writes() {
        seq![request]
    } else {
        Seq::empty()
    };
    assert(changes_of_switch(switch, world) =~= first + changes_of_switch(after, world));
    assert(changes_of_copy(copy, world) =~= first + changes_of_copy(next, world));
    assert(copy.settled(world) == next.settled(world));
    let rest = changes_of_switch(switch.with_copy(copy.settled(world)), world);
    if !next.over() {
        lemma_asks(order, next);
        lemma_copy_changes(world, after, order, next);
        assert(after.with_copy(next.settled(world)) == switch.with_copy(next.settled(world)));
    } else {
        assert(next.settled(world) == next);
        assert(changes_of_copy(next, world) =~= Seq::empty());
        assert(changes_of_switch(after, world) =~= changes_of_copy(next, world) + rest);
    }
    assert(first + (changes_of_copy(next, world) + rest) =~= first + changes_of_copy(next, world)
        + rest);
}

proof fn lemma_sessions_changes(world: World, switch: SwitchView, index: int)
    requires
        0 <= index <= switch.order.ids.len(),
        switch.order.ids.len() == switch.order.new_ids.len(),
    ensures
        changes_of_switch(switch.at(index), world) == sessions_changes(
            world,
            switch.order,
            index,
        ),
    decreases switch.order.ids.len() - index,
{
    let here = switch.at(index);
    if index < switch.order.ids.len() {
        let order = switch.order.copy_order(index);
        let copy = copy_start(order);
        copying_ends_with_its_outcome(world, order);
        copying_makes_these_changes(world, order);
        lemma_copy_changes(world, here, order, copy);
        let noted = here.noted(copy_outcome(world, order));
        assert(here.with_copy(copy.settled(world)) == noted.at(index + 1));
        lemma_sessions_changes(world, noted, index + 1);
    } else {
        assert(changes_of_switch(here, world) =~= Seq::empty());
    }
}

/// A switch makes exactly the changes by which its sessions are copied, one after the
/// other, to the account and the edition that are switched to; none, where there is no
/// database of that edition.
pub proof fn switch_makes_these_changes(world: World, order: SwitchOrderView)
    requires
        order.ids.len() == order.new_ids.len(),
    ensures
        ({
            let db = data_directory(order.home, order.target_edition).push(
                NameView::Text("workbuddy.db"@),
            );
            changes_of_switch(switch_start(order), world) == if world(RequestView::IsFile(db))
                == ReplyView::Flag(true) {
                sessions_changes(world, order, 0)
            } else {
                Seq::empty()
            }
        }),
{
    let start = switch_start(order);
    let reply = world(RequestView::IsFile(order.target_db()));
    assert(order.target_db() == data_directory(order.home, order.target_edition).push(
        NameView::Text("workbuddy.db"@),
    ));
    let asked = start.advance(reply);
    assert(changes_of_switch(start, world) == changes_of_switch(asked, world));
    if reply.yes() {
        lemma_sessions_changes(world, start, 0);
    } else {
        let shown = asked.advance(world(RequestView::PathText(order.target_db())));
        assert(changes_of_switch(asked, world) == changes_of_switch(shown, world));
        assert(changes_of_switch(shown, world) =~= Seq::empty());
    }
}

} // verus!

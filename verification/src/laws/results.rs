use crate::edge_sync::{
    edge_sync_candidates, edge_sync_paths, message_channel, order_by_time, paths_view,
};
use crate::edition::{
    auth_probe, current_edition, current_session_context, current_user_uid, edition_for_account,
    edition_for_auth_root, SessionContext, SessionEdition,
};
use crate::json::{Json, JsonView};
use crate::laws::edge_sync::{mapping_file, newest_first_orders_by_time};
use crate::laws::edition::{
    account_has_one_answer, answers_alike, is_text, user_ids_are_trimmed_texts,
};
use crate::laws::layout::{
    copy_goes_to_the_same_folders, data_directory, only_transcripts_are_copied,
    transcripts_directory,
};
use crate::laws::row_copy::{puts_copy, statement_puts_the_copy};
use crate::laws::text::{
    first_match_is_replaced, is_blank, joined_parts_are_joined, no_match_is_left, occurs_at,
    session_is_shown_by_its_title, text_without_a_match_stays, touches_nowhere,
};
use crate::laws::workspace::{claw_folder_is_claw, claw_is_a_claw_folder, Apart};
use crate::layout::{
    data_root_for_edition, destination_project_jsonl, projects_root_for_edition,
    transcript_file_name, workbuddy_db_path, workbuddy_db_path_for_edition,
};
use crate::path::{FilePath, NameView, PathView};
use crate::row_copy::{insert_statement, RowChange};
use crate::sql::{values_view, SqlValue, Statement};
use crate::text::{join, joined, optional_text, replace_all, replaced, same_text, texts, trimmed};
use crate::title::{nonempty_text, session_display_title};
use crate::workspace::is_claw_workspace;
use vstd::prelude::*;

verus! {

/// What `replace_all` gives: the text up to the first match, what is put in its place,
/// and the rest with its matches replaced; the whole text, where nothing matches.
pub proof fn replace_all_replaces_every_match(
    text: &str,
    from: &str,
    to: &str,
    res: String,
    before: Seq<char>,
    behind: Seq<char>,
)
    requires
        call_ensures(replace_all, (text, from, to), res),
        from@.len() > 0,
    ensures
        text@ == before + from@ + behind && (forall|at: int|
            0 <= at < before.len() ==> !occurs_at(text@, from@, at)) ==> res@ == before + to@
            + replaced(behind, from@, to@),
        (forall|at: int| !occurs_at(text@, from@, at)) ==> res@ == text@,
        touches_nowhere(from@, to@) ==> forall|at: int| !#[trigger] occurs_at(res@, from@, at),
{
    if text@ == before + from@ + behind && (forall|at: int|
        0 <= at < before.len() ==> !occurs_at(text@, from@, at)) {
        first_match_is_replaced(before, from@, behind, to@);
    }
    if forall|at: int| !occurs_at(text@, from@, at) {
        text_without_a_match_stays(text@, from@, to@);
    }
    if touches_nowhere(from@, to@) {
        assert forall|at: int| !#[trigger] occurs_at(res@, from@, at) by {
            no_match_is_left(text@, from@, to@, at);
        }
    }
}

/// What `join` and `same_text` give.
pub proof fn texts_are_joined_and_told_apart(
    list: &Vec<String>,
    sep: &str,
    res: String,
    a: &str,
    b: &str,
    same: bool,
)
    requires
        call_ensures(join, (list, sep), res),
        call_ensures(same_text, (a, b), same),
    ensures
        list@.len() == 0 ==> res@ == Seq::<char>::empty(),
        list@.len() == 1 ==> res@ == list@[0]@,
        list@.len() > 1 ==> res@ == joined(texts(list@.drop_last()), sep@) + sep@
            + list@.last()@,
        same == (a@ == b@),
{
    let all = texts(list@);
    if list@.len() > 1 {
        let front = texts(list@.drop_last());
        let last = seq![list@.last()@];
        assert(all =~= front + last);
        joined_parts_are_joined(front, last, sep@);
        joined_parts_are_joined(last, last, sep@);
    } else if list@.len() == 1 {
        joined_parts_are_joined(all, all, sep@);
    } else {
        assert(all =~= Seq::empty());
        joined_parts_are_joined(all, all, sep@);
    }
}

/// What `session_display_title` and `nonempty_text` give.
pub proof fn titles_are_shown_so(
    title: Option<String>,
    custom_title: Option<String>,
    res: String,
    value: Option<String>,
    kept: Option<String>,
)
    requires
        call_ensures(session_display_title, (title, custom_title), res),
        call_ensures(nonempty_text, (value,), kept),
    ensures
        custom_title is Some && !is_blank(custom_title->0@) ==> res@ == trimmed(custom_title->0@),
        !(custom_title is Some && !is_blank(custom_title->0@)) && title is Some && !is_blank(
            title->0@,
        ) ==> res@ == trimmed(title->0@),
        !(custom_title is Some && !is_blank(custom_title->0@)) && !(title is Some && !is_blank(
            title->0@,
        )) ==> res@ == "(无标题)"@,
        value is Some && !is_blank(value->0@) ==> kept is Some && kept->0@ == trimmed(value->0@),
        !(value is Some && !is_blank(value->0@)) ==> kept is None,
{
    session_is_shown_by_its_title(optional_text(title), optional_text(custom_title));
    session_is_shown_by_its_title(optional_text(value), None);
}

/// What `is_claw_workspace` gives: it holds of a working directory whose last folder is
/// called "claw", and of no other.
pub proof fn claw_is_told_so(cwd: &str, res: bool, apart: Apart) -> (found: Apart)
    requires
        call_ensures(is_claw_workspace, (cwd,), res),
    ensures
        apart.is_claw_folder() && apart.whole() == cwd@ ==> res,
        res ==> found.is_claw_folder() && found.whole() == cwd@,
{
    if apart.is_claw_folder() && apart.whole() == cwd@ {
        claw_folder_is_claw(apart);
    }
    if res {
        claw_is_a_claw_folder(cwd@)
    } else {
        apart
    }
}

/// Where the functions of the library say that the data of an edition is.
pub proof fn places_are_told_so(
    home: &FilePath,
    edition: SessionEdition,
    cid: &str,
    root: FilePath,
    db: FilePath,
    projects: FilePath,
    name: String,
)
    requires
        call_ensures(data_root_for_edition, (home, edition), root),
        call_ensures(workbuddy_db_path_for_edition, (home, edition), db),
        call_ensures(projects_root_for_edition, (home, edition), projects),
        call_ensures(transcript_file_name, (cid,), name),
    ensures
        root@ == data_directory(home@, edition),
        db@ == data_directory(home@, edition).push(NameView::Text("workbuddy.db"@)),
        projects@ == transcripts_directory(home@, edition),
        name@ == cid@ + ".jsonl"@,
{
}

/// Where `destination_project_jsonl` says that the copy of a transcript goes.
pub proof fn destinations_are_told_so(
    home: &FilePath,
    source: &FilePath,
    source_edition: SessionEdition,
    target_edition: SessionEdition,
    new_cid: &str,
    res: Option<FilePath>,
    folders: PathView,
    file: NameView,
) -> (found: PathView)
    requires
        call_ensures(
            destination_project_jsonl,
            (home, source, source_edition, target_edition, new_cid),
            res,
        ),
    ensures
        source@ == (transcripts_directory(home@, source_edition) + folders).push(file)
            ==> res is Some && res->0@ == (transcripts_directory(home@, target_edition)
            + folders).push(NameView::Text(new_cid@ + ".jsonl"@)),
        res is Some ==> source@.len() > 0 && source@ == (transcripts_directory(
            home@,
            source_edition,
        ) + found).push(source@.last()),
{
    if source@ == (transcripts_directory(home@, source_edition) + folders).push(file) {
        copy_goes_to_the_same_folders(
            home@,
            folders,
            file,
            source_edition,
            target_edition,
            new_cid@,
        );
    }
    if res is Some {
        only_transcripts_are_copied(home@, source@, source_edition, target_edition, new_cid@)
    } else {
        folders
    }
}

/// The statement that `insert_statement` gives puts the copy of the row in.
pub proof fn insert_statement_puts_the_copy(
    target_db: &FilePath,
    target_columns: &Vec<String>,
    columns: &Vec<String>,
    values: &Vec<SqlValue>,
    new_cid: &str,
    target_uid: &str,
    now: i64,
    res: Statement,
) -> (picks: Seq<int>)
    requires
        call_ensures(
            insert_statement,
            (target_db, target_columns, columns, values, new_cid, target_uid, now),
            res,
        ),
    ensures
        res@.db == target_db@,
        !res@.read_only,
        puts_copy(
            res@,
            picks,
            texts(target_columns@),
            texts(columns@),
            values_view(values@),
            new_cid@,
            target_uid@,
            now,
        ),
{
    statement_puts_the_copy(
        RowChange {
            columns: texts(columns@),
            values: values_view(values@),
            new_cid: new_cid@,
            target_uid: target_uid@,
            now,
        },
        target_db@,
        texts(target_columns@),
    )
}

/// The path, where the flag is set.
pub open spec fn only_if(flag: bool, path: PathView) -> Seq<PathView> {
    if flag {
        seq![path]
    } else {
        Seq::empty()
    }
}

/// The places that the functions of the library give for the mapping databases: all
/// three, those that are there, and these by the time of their last change.
pub proof fn mapping_places_are_told_so(
    home: &FilePath,
    edition: SessionEdition,
    is_file: &Vec<bool>,
    places: Vec<FilePath>,
    there: Vec<FilePath>,
    uid: &str,
    channel: String,
    i: int,
)
    requires
        call_ensures(edge_sync_paths, (home, edition), places),
        call_ensures(edge_sync_candidates, (home, edition, is_file), there),
        call_ensures(message_channel, (uid,), channel),
    ensures
        places@.len() == 3,
        0 <= i < 3 ==> places@[i]@ == mapping_file(home@, edition, i),
        is_file@.len() == 3 ==> paths_view(there@) == only_if(
            is_file@[0],
            mapping_file(home@, edition, 0),
        ) + only_if(is_file@[1], mapping_file(home@, edition, 1)) + only_if(
            is_file@[2],
            mapping_file(home@, edition, 2),
        ),
        channel@ == "convmsg:"@ + uid@,
{
    let all = paths_view(places@);
    assert(all.len() == places@.len());
    assert(data_directory(home@, edition) == crate::layout::data_root(home@, edition));
    assert(all[0] == mapping_file(home@, edition, 0));
    assert(all[1] == mapping_file(home@, edition, 1));
    assert(all[2] == mapping_file(home@, edition, 2));
    let flags = is_file@;
    assert(all.drop_last().drop_last().drop_last() =~= Seq::empty());
    reveal_with_fuel(crate::edge_sync::flagged, 4);
    let kept = crate::edge_sync::flagged(all, flags);
    if flags.len() == 3 {
        assert(kept =~= only_if(flags[0], all[0]) + only_if(flags[1], all[1]) + only_if(
            flags[2],
            all[2],
        ));
    }
}

/// The order that `order_by_time` gives: each path once, from the one that was changed
/// last to the one that was changed first; of those with one time, the later one first.
pub proof fn paths_are_ordered_by_time(
    paths: &Vec<FilePath>,
    times: &Vec<i128>,
    res: Vec<FilePath>,
) -> (order: Seq<int>)
    requires
        paths@.len() == times@.len(),
        call_ensures(order_by_time, (paths, times), res),
    ensures
        order.len() == paths@.len(),
        res@.len() == paths@.len(),
        forall|k: int| 0 <= k < order.len() ==> 0 <= #[trigger] order[k] < paths@.len(),
        forall|i: int| 0 <= i < paths@.len() ==> #[trigger] order.contains(i),
        forall|k: int| 0 <= k < order.len() ==> (#[trigger] res@[k])@ == paths@[order[k]]@,
        forall|k: int, l: int|
            0 <= k < l < order.len() ==> {
                ||| times@[#[trigger] order[k]] > times@[#[trigger] order[l]]
                ||| times@[order[k]] == times@[order[l]] && order[k] > order[l]
            },
{
    let files = crate::edge_sync::dated(paths_view(paths@), times@);
    let order = newest_first_orders_by_time(files);
    assert(files.len() == paths@.len());
    assert(paths_view(res@).len() == res@.len());
    assert forall|k: int| 0 <= k < order.len() implies (#[trigger] res@[k])@
        == paths@[order[k]]@ by {
        assert(paths_view(res@)[k] == res@[k]@);
        assert(files[order[k]].0 == paths@[order[k]]@);
    }
    assert forall|k: int, l: int| 0 <= k < l < order.len() implies {
        ||| times@[#[trigger] order[k]] > times@[#[trigger] order[l]]
        ||| times@[order[k]] == times@[order[l]] && order[k] > order[l]
    } by {
        assert(files[order[k]].1 == times@[order[k]]);
        assert(files[order[l]].1 == times@[order[l]]);
    }
    order
}

/// The account that `auth_probe` gives has the first domain of the sign-in file, and
/// nothing else.
pub proof fn probe_is_told_so(root: &Json, res: Json)
    requires
        call_ensures(auth_probe, (root,), res),
    ensures
        ({
            let own = root@.field("domain"@);
            let of_auth = root@.field_in("auth"@, "domain"@);
            let of_account = root@.field_in("account"@, "domain"@);
            res@ == JsonView::Object(
                seq![
                    (
                        "domain"@,
                        if is_text(own) {
                            own->0
                        } else if is_text(of_auth) {
                            of_auth->0
                        } else if is_text(of_account) {
                            of_account->0
                        } else {
                            JsonView::Null
                        },
                    ),
                ],
            )
        }),
{
}

/// The edition of an account is what is said of it; without a sign-in file the edition
/// that is signed in is the domestic one, and the place of its database is that of this
/// edition.
pub proof fn editions_are_told_so<F: Fn(&Json) -> bool>(
    is_ai: &F,
    account: &Json,
    answer: bool,
    edition: SessionEdition,
    none: SessionEdition,
    home: &FilePath,
    db: FilePath,
)
    requires
        answers_alike(is_ai),
        call_ensures(is_ai, (account,), answer),
        call_ensures(edition_for_account::<F>, (account, is_ai), edition),
        call_ensures(current_edition::<F>, (None, is_ai), none),
        call_ensures(workbuddy_db_path::<F>, (home, None, is_ai), db),
    ensures
        edition == (if answer {
            SessionEdition::Ai
        } else {
            SessionEdition::Cn
        }),
        none == SessionEdition::Cn,
        db@ == data_directory(home@, SessionEdition::Cn).push(NameView::Text("workbuddy.db"@)),
{
    assert(crate::edition::answered(is_ai, account@, answer));
    account_has_one_answer(is_ai, account@, answer, edition == SessionEdition::Ai);
}

/// The edition of a sign-in file, the edition that is signed in and the edition of the
/// account that is signed in are one, and that is the edition that is told by the first
/// domain of the file. The account has the user id that the file names, where it names
/// one, and there is none where it does not.
pub proof fn context_is_told_so<F: Fn(&Json) -> bool>(
    is_ai: &F,
    root: &Json,
    asked: &Json,
    answer: bool,
    of_file: SessionEdition,
    current: SessionEdition,
    context: Option<SessionContext>,
    uid: Option<String>,
    home: &FilePath,
    db: FilePath,
)
    requires
        answers_alike(is_ai),
        call_ensures(auth_probe, (root,), *asked),
        call_ensures(is_ai, (asked,), answer),
        call_ensures(edition_for_auth_root::<F>, (root, is_ai), of_file),
        call_ensures(current_edition::<F>, (Some(root), is_ai), current),
        call_ensures(current_session_context::<F>, (Some(root), is_ai), context),
        call_ensures(current_user_uid::<F>, (Some(root), is_ai), uid),
        call_ensures(workbuddy_db_path::<F>, (home, Some(root), is_ai), db),
    ensures
        of_file == (if answer {
            SessionEdition::Ai
        } else {
            SessionEdition::Cn
        }),
        current == of_file,
        db@ == data_directory(home@, of_file).push(NameView::Text("workbuddy.db"@)),
        match root@.field_in("account"@, "uid"@) {
            Some(JsonView::Text(s)) if !is_blank(s) => {
                &&& context is Some
                &&& context->0.uid@ == trimmed(s)
                &&& context->0.edition == of_file
                &&& uid is Some
                &&& uid->0@ == trimmed(s)
            },
            _ => context is None && uid is None,
        },
{
    let account = crate::edition::probe(root@);
    assert(asked@ == account);
    assert(crate::edition::answered(is_ai, account, answer));
    account_has_one_answer(is_ai, account, answer, of_file == SessionEdition::Ai);
    account_has_one_answer(is_ai, account, answer, current == SessionEdition::Ai);
    if context is Some {
        account_has_one_answer(is_ai, account, answer, context->0.edition == SessionEdition::Ai);
    }
    if crate::edition::answered(is_ai, account, true) {
        account_has_one_answer(is_ai, account, answer, true);
    }
    if crate::edition::answered(is_ai, account, false) {
        account_has_one_answer(is_ai, account, answer, false);
    }
    user_ids_are_trimmed_texts(root@);
}

/// A clone is what was cloned.
pub proof fn clones_are_the_same(
    context: &SessionContext,
    other: SessionContext,
    path: &FilePath,
    same_path: FilePath,
    value: &SqlValue,
    same_value: SqlValue,
)
    requires
        call_ensures(SessionContext::clone, (context,), other),
        call_ensures(FilePath::clone, (path,), same_path),
        call_ensures(SqlValue::clone, (value,), same_value),
    ensures
        other.uid@ == context.uid@,
        other.edition == context.edition,
        same_path@ == path@,
        same_value@ == value@,
{
}

} // verus!

use crate::edition::{answered, auth_uid, probe, SessionEdition};
use crate::json::{text_in, Json, JsonView};
use crate::laws::text::{is_blank, session_is_shown_by_its_title, trimmed_text_has_no_margin};
use crate::switch::{account_uid, switch_uids};
use crate::text::trimmed;
use vstd::prelude::*;

verus! {

/// Whether `is_ai` gives one answer on accounts that read alike.
pub open spec fn answers_alike<F: Fn(&Json) -> bool>(is_ai: &F) -> bool {
    forall|one: Json, other: Json, a: bool, b: bool|
        one@ == other@ && #[trigger] call_ensures(is_ai, (&one,), a) && #[trigger] call_ensures(
            is_ai,
            (&other,),
            b,
        ) ==> a == b
}

/// A domain of its own, though it be empty, decides the edition of a sign-in file:
/// whatever else two files with one such domain hold, their edition is told by the
/// same account.
pub proof fn own_domain_shadows(one: JsonView, other: JsonView)
    requires
        text_in(one.field("domain"@)) is Some,
        one.field("domain"@) == other.field("domain"@),
    ensures
        probe(one) == probe(other),
{
}

/// Where `is_ai` answers alike on accounts that read alike, it has one answer on
/// each account.
pub proof fn account_has_one_answer<F: Fn(&Json) -> bool>(
    is_ai: &F,
    account: JsonView,
    a: bool,
    b: bool,
)
    requires
        answers_alike(is_ai),
        answered(is_ai, account, a),
        answered(is_ai, account, b),
    ensures
        a == b,
{
    let one = choose|value: Json|
        value@ == account && #[trigger] call_ensures(is_ai, (&value,), a);
    let other = choose|value: Json|
        value@ == account && #[trigger] call_ensures(is_ai, (&value,), b);
    assert(call_ensures(is_ai, (&one,), a) && call_ensures(is_ai, (&other,), b));
}

/// Where `is_ai` answers alike on accounts that read alike, two sign-in files with
/// one domain of their own are for one edition, whatever else they hold.
pub proof fn own_domain_decides_the_edition<F: Fn(&Json) -> bool>(
    is_ai: &F,
    one: JsonView,
    other: JsonView,
    one_edition: SessionEdition,
    other_edition: SessionEdition,
)
    requires
        answers_alike(is_ai),
        text_in(one.field("domain"@)) is Some,
        one.field("domain"@) == other.field("domain"@),
        answered(is_ai, probe(one), one_edition == SessionEdition::Ai),
        answered(is_ai, probe(other), other_edition == SessionEdition::Ai),
    ensures
        one_edition == other_edition,
{
    own_domain_shadows(one, other);
    account_has_one_answer(
        is_ai,
        probe(one),
        one_edition == SessionEdition::Ai,
        other_edition == SessionEdition::Ai,
    );
}

/// The account that is signed in agrees with its sign-in file. Its user id is the
/// one that the file names, without white space around it and never empty. Where
/// `is_ai` answers alike on accounts that read alike, its edition is the edition of
/// the file and the edition that is signed in.
pub proof fn context_agrees_with_its_file<F: Fn(&Json) -> bool>(
    is_ai: &F,
    root: JsonView,
    uid: Seq<char>,
    context_edition: SessionEdition,
    file_edition: SessionEdition,
    current_edition: SessionEdition,
)
    requires
        answers_alike(is_ai),
        auth_uid(root) == Some(uid),
        answered(is_ai, probe(root), context_edition == SessionEdition::Ai),
        answered(is_ai, probe(root), file_edition == SessionEdition::Ai),
        answered(is_ai, probe(root), current_edition == SessionEdition::Ai),
    ensures
        text_in(root.field_in("account"@, "uid"@)) matches Some(named) && uid == trimmed(named),
        uid.len() > 0,
        trimmed(uid) == uid,
        context_edition == file_edition,
        context_edition == current_edition,
{
    let named = text_in(root.field_in("account"@, "uid"@))->0;
    trimmed_text_has_no_margin(named);
    account_has_one_answer(
        is_ai,
        probe(root),
        context_edition == SessionEdition::Ai,
        file_edition == SessionEdition::Ai,
    );
    account_has_one_answer(
        is_ai,
        probe(root),
        context_edition == SessionEdition::Ai,
        current_edition == SessionEdition::Ai,
    );
}

/// Whether an optional value is a text.
pub open spec fn is_text(value: Option<JsonView>) -> bool {
    value is Some && value->0 is Text
}

/// The edition of a sign-in file is told by an account that has a domain and nothing
/// else: the domain of the file, where that is a text; else the one in its `auth`,
/// where that is; else the one in its `account`, where that is; else none.
pub proof fn edition_is_told_by_the_first_domain(root: JsonView)
    ensures
        ({
            let own = root.field("domain"@);
            let of_auth = root.field_in("auth"@, "domain"@);
            let of_account = root.field_in("account"@, "domain"@);
            let told_by = |domain: JsonView| JsonView::Object(seq![("domain"@, domain)]);
            &&& is_text(own) ==> probe(root) == told_by(own->0)
            &&& !is_text(own) && is_text(of_auth) ==> probe(root) == told_by(of_auth->0)
            &&& !is_text(own) && !is_text(of_auth) && is_text(of_account) ==> probe(root)
                == told_by(of_account->0)
            &&& !is_text(own) && !is_text(of_auth) && !is_text(of_account) ==> probe(root)
                == told_by(JsonView::Null)
        }),
{
}

/// A sign-in file names the user id in its `account`, and an account names its own;
/// white space around it does not count, and one that is blank or no text is none.
pub proof fn user_ids_are_trimmed_texts(root: JsonView)
    ensures
        match root.field_in("account"@, "uid"@) {
            Some(JsonView::Text(s)) if !is_blank(s) => auth_uid(root) == Some(trimmed(s)),
            _ => auth_uid(root) is None,
        },
        match root.field("uid"@) {
            Some(JsonView::Text(s)) if !is_blank(s) => account_uid(root) == Some(trimmed(s)),
            _ => account_uid(root) is None,
        },
{
    if let Some(JsonView::Text(s)) = root.field_in("account"@, "uid"@) {
        session_is_shown_by_its_title(Some(s), None);
    }
    if let Some(JsonView::Text(s)) = root.field("uid"@) {
        session_is_shown_by_its_title(Some(s), None);
    }
}

/// Sessions are copied for a switch exactly where the account that is signed in and
/// the target account both have a user id, and not the same one: from the former to
/// the latter.
pub proof fn switch_is_between_two_accounts(auth: Option<JsonView>, target: JsonView)
    ensures
        match switch_uids(auth, target) {
            Some((from, to)) => {
                &&& auth is Some
                &&& auth_uid(auth->0) == Some(from)
                &&& account_uid(target) == Some(to)
                &&& from != to
            },
            None => {
                ||| auth is None
                ||| auth_uid(auth->0) is None
                ||| account_uid(target) is None
                ||| auth_uid(auth->0) == account_uid(target)
            },
        },
{
}

} // verus!

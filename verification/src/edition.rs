use crate::json::{as_text, entries_view, object, put, text_in, Json, JsonView};
use crate::title::nonempty;
use vstd::prelude::*;

verus! {

/// The WorkBuddy edition that session data belongs to. Sign-in, database,
/// transcripts and cloud mapping are always those of one edition: an account of
/// the international edition is not to be looked up in the domestic database.
#[derive(Clone, Copy, Debug, PartialEq, Eq, Structural)]
pub enum SessionEdition {
    Cn,
    Ai,
}

/// The account that is signed in, and its edition.
#[derive(Debug, PartialEq, Eq)]
pub struct SessionContext {
    pub uid: String,
    pub edition: SessionEdition,
}

impl Clone for SessionContext {
    fn clone(&self) -> (res: SessionContext)
        ensures
            res.uid@ == self.uid@,
            res.edition == self.edition,
    {
        SessionContext { uid: self.uid.clone(), edition: self.edition }
    }
}

impl SessionEdition {
    /// Whether this is the international edition.
    pub fn is_international(self) -> (res: bool)
        ensures
            res == (self == SessionEdition::Ai),
    {
        matches!(self, SessionEdition::Ai)
    }
}

/// Whether `is_ai`, asked about a value that reads `asked`, may have said `answer`.
pub open spec fn answered<F: Fn(&Json) -> bool>(is_ai: &F, asked: JsonView, answer: bool) -> bool {
    exists|value: Json| value@ == asked && #[trigger] call_ensures(is_ai, (&value,), answer)
}

/// The domain that a sign-in file names: its own, else that of its `auth`, else
/// that of its `account`.
pub open spec fn auth_domain(root: JsonView) -> Option<Seq<char>> {
    match (
        text_in(root.field("domain"@)),
        text_in(root.field_in("auth"@, "domain"@)),
        text_in(root.field_in("account"@, "domain"@)),
    ) {
        (Some(domain), _, _) => Some(domain),
        (None, Some(domain), _) => Some(domain),
        (None, None, domain) => domain,
    }
}

/// The account by which the edition of a sign-in file is told: it has the file's
/// domain and nothing else.
pub open spec fn probe(root: JsonView) -> JsonView {
    JsonView::Object(
        seq![
            (
                "domain"@,
                match auth_domain(root) {
                    Some(domain) => JsonView::Text(domain),
                    None => JsonView::Null,
                },
            ),
        ],
    )
}

/// The account by which the edition of a sign-in file is told.
pub fn auth_probe(root: &Json) -> (res: Json)
    ensures
        res@ == probe(root@),
{
    let domain: Option<&str> = match as_text(root.get("domain")) {
        Some(domain) => Some(domain),
        None => match as_text(root.get_in("auth", "domain")) {
            Some(domain) => Some(domain),
            None => as_text(root.get_in("account", "domain")),
        },
    };
    let value: Json = match domain {
        Some(domain) => Json::Text(domain.to_string()),
        None => Json::Null,
    };
    let mut entries: Vec<(String, Json)> = Vec::new();
    put(&mut entries, "domain", value);
    assert(entries_view(entries@) =~= seq![("domain"@, value@)]);
    object(entries)
}

/// The edition that a sign-in file is for. `is_ai` says of an account whether it
/// belongs to the international edition.
pub fn edition_for_auth_root<F: Fn(&Json) -> bool>(root: &Json, is_ai: &F) -> (res: SessionEdition)
    requires
        forall|value: &Json| call_requires(is_ai, (value,)),
    ensures
        answered(is_ai, probe(root@), res == SessionEdition::Ai),
{
    let asked: Json = auth_probe(root);
    edition_for_account(&asked, is_ai)
}

/// The edition that an account belongs to, by what `is_ai` says of it.
pub fn edition_for_account<F: Fn(&Json) -> bool>(account: &Json, is_ai: &F) -> (res: SessionEdition)
    requires
        forall|value: &Json| call_requires(is_ai, (value,)),
    ensures
        answered(is_ai, account@, res == SessionEdition::Ai),
{
    if is_ai(account) {
        SessionEdition::Ai
    } else {
        SessionEdition::Cn
    }
}

/// The edition that is signed in, where `auth` is the sign-in file if it can be
/// read. Without one it is the domestic edition.
pub fn current_edition<F: Fn(&Json) -> bool>(auth: Option<&Json>, is_ai: &F) -> (res: SessionEdition)
    requires
        forall|value: &Json| call_requires(is_ai, (value,)),
    ensures
        match auth {
            Some(root) => answered(is_ai, probe(root@), res == SessionEdition::Ai),
            None => res == SessionEdition::Cn,
        },
{
    match auth {
        Some(root) => edition_for_auth_root(root, is_ai),
        None => SessionEdition::Cn,
    }
}

/// The user id of the account that a sign-in file names, without the white
/// space around it.
pub open spec fn auth_uid(root: JsonView) -> Option<Seq<char>> {
    nonempty(text_in(root.field_in("account"@, "uid"@)))
}

/// The account that is signed in, where `auth` is the sign-in file if it can be
/// read: none without a file, or with one that names no user id.
pub fn current_session_context<F: Fn(&Json) -> bool>(auth: Option<&Json>, is_ai: &F) -> (res: Option<
    SessionContext,
>)
    requires
        forall|value: &Json| call_requires(is_ai, (value,)),
    ensures
        match res {
            Some(context) => {
                &&& auth matches Some(root)
                &&& auth_uid(root@) == Some(context.uid@)
                &&& answered(is_ai, probe(root@), context.edition == SessionEdition::Ai)
            },
            None => auth matches Some(root) ==> auth_uid(root@) is None,
        },
{
    let root: &Json = match auth {
        Some(root) => root,
        None => return None,
    };
    match as_text(root.get_in("account", "uid")) {
        Some(text) => {
            let uid: &str = text.trim();
            if uid.is_empty() {
                None
            } else {
                Some(
                    SessionContext {
                        uid: uid.to_string(),
                        edition: edition_for_auth_root(root, is_ai),
                    },
                )
            }
        },
        None => None,
    }
}

/// The user id of the account that is signed in.
pub fn current_user_uid<F: Fn(&Json) -> bool>(auth: Option<&Json>, is_ai: &F) -> (res: Option<String>)
    requires
        forall|value: &Json| call_requires(is_ai, (value,)),
    ensures
        match (res, auth) {
            (Some(uid), Some(root)) => auth_uid(root@) == Some(uid@),
            (Some(_), None) => false,
            (None, Some(root)) => auth_uid(root@) is None,
            (None, None) => true,
        },
{
    match current_session_context(auth, is_ai) {
        Some(context) => Some(context.uid),
        None => None,
    }
}

} // verus!

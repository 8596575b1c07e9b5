use crate::text::{optional_text, trimmed};
use vstd::prelude::*;

verus! {

/// `value` without the white space around it, if anything is left.
pub open spec fn nonempty(value: Option<Seq<char>>) -> Option<Seq<char>> {
    match value {
        Some(s) if trimmed(s).len() > 0 => Some(trimmed(s)),
        _ => None,
    }
}

/// The name under which the side bar shows a session: the custom title where
/// there is one (a session that was renamed, or a scheduled task), else the
/// title, else a placeholder.
pub open spec fn display_title(title: Option<Seq<char>>, custom_title: Option<Seq<char>>) -> Seq<
    char,
> {
    match (nonempty(custom_title), nonempty(title)) {
        (Some(custom), _) => custom,
        (None, Some(plain)) => plain,
        (None, None) => "(无标题)"@,
    }
}

/// `value` without the white space around it, or `None` where nothing is left.
pub fn nonempty_text(value: Option<String>) -> (res: Option<String>)
    ensures
        optional_text(res) == nonempty(optional_text(value)),
{
    match value {
        Some(s) => {
            let t: &str = s.as_str().trim();
            if t.is_empty() {
                None
            } else {
                Some(t.to_string())
            }
        },
        None => None,
    }
}

/// The name under which the side bar shows a session.
pub fn session_display_title(title: Option<String>, custom_title: Option<String>) -> (res: String)
    ensures
        res@ == display_title(optional_text(title), optional_text(custom_title)),
{
    match nonempty_text(custom_title) {
        Some(custom) => custom,
        None => match nonempty_text(title) {
            Some(plain) => plain,
            None => "(无标题)".to_string(),
        },
    }
}

} // verus!

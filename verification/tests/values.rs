use wb_switch_core::edition::{
    auth_probe, current_edition, current_session_context, current_user_uid, edition_for_account,
    edition_for_auth_root, SessionContext, SessionEdition,
};
use wb_switch_core::json::Json;
use wb_switch_core::text::{join, replace_all};
use wb_switch_core::title::{nonempty_text, session_display_title};
use wb_switch_core::workspace::is_claw_workspace;

fn text(s: &str) -> Json {
    Json::Text(s.to_string())
}

fn object(entries: Vec<(&str, Json)>) -> Json {
    Json::Object(entries.into_iter().map(|(name, value)| (name.to_string(), value)).collect())
}

fn by_domain(account: &Json) -> bool {
    match account.get("domain") {
        Some(Json::Text(domain)) => domain == "workbuddy.ai",
        _ => false,
    }
}

/// The domain in the account by which the edition is told.
fn domain_asked(root: &Json) -> Option<String> {
    let probe = auth_probe(root);
    match probe.get("domain") {
        Some(Json::Text(domain)) => Some(domain.clone()),
        Some(Json::Null) => None,
        _ => panic!("no domain"),
    }
}

#[test]
fn session_display_title_prefers_custom_title() {
    assert_eq!(
        session_display_title(Some("自动标题".into()), Some("美团每日自动领券".into())),
        "美团每日自动领券"
    );
    assert_eq!(
        session_display_title(None, Some("美团每日自动领券".into())),
        "美团每日自动领券"
    );
    assert_eq!(
        session_display_title(Some("汉字详情页".into()), None),
        "汉字详情页"
    );
    assert_eq!(session_display_title(None, None), "(无标题)");
    assert_eq!(
        session_display_title(Some("  ".into()), Some("".into())),
        "(无标题)"
    );
}

#[test]
fn white_space_around_a_text_is_dropped() {
    assert_eq!(nonempty_text(None), None);
    assert_eq!(nonempty_text(Some("\t\u{85}\u{a0}\u{3000}\u{2003}".into())), None);
    assert_eq!(nonempty_text(Some("\u{3000}a b\u{2028}\r\n".into())), Some("a b".into()));
    assert_eq!(nonempty_text(Some("\u{200b}".into())), Some("\u{200b}".into()));
    assert_eq!(nonempty_text(Some("\u{1680}\u{202f}x\u{205f}\u{b}".into())), Some("x".into()));
}

#[test]
fn claw_workspace_detected_by_folder_name() {
    assert!(is_claw_workspace("/Users/apple/WorkBuddy/Claw"));
    assert!(is_claw_workspace("/Users/apple/WorkBuddy/claw/"));
    assert!(is_claw_workspace(r"C:\Users\me\WorkBuddy\Claw"));
    assert!(!is_claw_workspace("/Users/apple/WorkBuddy/ClawBot"));
    assert!(!is_claw_workspace(
        "/Users/apple/Documents/AI-PROJECT/LetterTotTown"
    ));
}

#[test]
fn claw_is_the_whole_last_folder() {
    assert!(is_claw_workspace("CLAW"));
    assert!(is_claw_workspace("  /a\\cLaW//\\  "));
    assert!(!is_claw_workspace(""));
    assert!(!is_claw_workspace("///"));
    assert!(!is_claw_workspace("/claw/x"));
    assert!(!is_claw_workspace("/claw /"));
    assert!(is_claw_workspace("/claw "));
    assert!(!is_claw_workspace("/"));
    assert!(!is_claw_workspace("/cla"));
    assert!(!is_claw_workspace("/clàw"));
    assert!(!is_claw_workspace("/xclaw"));
}

#[test]
fn every_match_is_replaced() {
    let cases = [
        ("", "a", "b"),
        ("aXbX", "X", "yy"),
        ("aaaa", "aa", "b"),
        ("aaa", "aa", "b"),
        ("旧-旧", "旧", "新新"),
        ("abc", "", "-"),
        ("", "", "-"),
        ("abc", "abcd", "x"),
        ("abab", "ab", ""),
        ("xabcabcx", "abc", "abcabc"),
    ];
    for (s, from, to) in cases {
        assert_eq!(replace_all(s, from, to), s.replace(from, to));
    }
    assert_eq!(replace_all("aXbX", "X", "yy"), "ayybyy");
    assert_eq!(replace_all("no match", "zz", "y"), "no match");
}

#[test]
fn texts_are_joined_with_separators_between() {
    let list = |items: &[&str]| items.iter().map(|s| s.to_string()).collect::<Vec<String>>();
    assert_eq!(join(&list(&[]), ", "), "");
    assert_eq!(join(&list(&["a"]), ", "), "a");
    assert_eq!(join(&list(&["a", "", "c"]), ", "), "a, , c");
}

#[test]
fn the_domain_is_taken_from_the_first_place_that_has_one() {
    let whole = object(vec![
        ("domain", text("one")),
        ("auth", object(vec![("domain", text("two"))])),
        ("account", object(vec![("domain", text("three"))])),
    ]);
    assert_eq!(domain_asked(&whole), Some("one".to_string()));
    let no_text = object(vec![
        ("domain", Json::Integer(1)),
        ("auth", object(vec![("domain", text("two"))])),
    ]);
    assert_eq!(domain_asked(&no_text), Some("two".to_string()));
    let account = object(vec![
        ("auth", text("two")),
        ("account", object(vec![("domain", text("three"))])),
    ]);
    assert_eq!(domain_asked(&account), Some("three".to_string()));
    let empty = object(vec![
        ("domain", text("")),
        ("auth", object(vec![("domain", text("two"))])),
    ]);
    assert_eq!(domain_asked(&empty), Some("".to_string()));
    assert_eq!(domain_asked(&object(vec![("domain", text(""))])), Some("".to_string()));
    assert_eq!(domain_asked(&object(vec![])), None);
    assert_eq!(domain_asked(&Json::List(vec![])), None);
}

#[test]
fn the_edition_is_what_is_said_of_the_account() {
    let ai = object(vec![("domain", text("workbuddy.ai")), ("uid", text("u"))]);
    assert_eq!(edition_for_account(&ai, &by_domain), SessionEdition::Ai);
    assert_eq!(edition_for_account(&object(vec![]), &by_domain), SessionEdition::Cn);
    assert_eq!(current_edition(Some(&ai), &by_domain), SessionEdition::Ai);
    assert_eq!(current_edition(None, &|_account: &Json| true), SessionEdition::Cn);
    assert!(SessionEdition::Ai.is_international());
    assert!(!SessionEdition::Cn.is_international());
}

#[test]
fn the_current_account_needs_a_user_id() {
    let auth = object(vec![
        ("domain", text("workbuddy.ai")),
        ("account", object(vec![("uid", text("  u-1\n"))])),
    ]);
    assert_eq!(
        current_session_context(Some(&auth), &by_domain),
        Some(SessionContext {
            uid: "u-1".to_string(),
            edition: SessionEdition::Ai,
        })
    );
    assert_eq!(current_user_uid(Some(&auth), &by_domain), Some("u-1".to_string()));
    for account in [text("u"), object(vec![]), object(vec![("uid", text(" "))]), object(vec![("uid", Json::Bool(true))])] {
        let auth = object(vec![("account", account)]);
        assert_eq!(current_session_context(Some(&auth), &by_domain), None);
        assert_eq!(current_user_uid(Some(&auth), &by_domain), None);
    }
    assert_eq!(current_session_context(None, &by_domain), None);
}

#[test]
fn the_current_account_has_the_edition_of_its_file() {
    for (domain, edition) in [("workbuddy.ai", SessionEdition::Ai), ("workbuddy.cn", SessionEdition::Cn)] {
        let auth = object(vec![
            ("auth", object(vec![("domain", text(domain))])),
            ("account", object(vec![("uid", text(" u ")), ("domain", text("other"))])),
        ]);
        let context = current_session_context(Some(&auth), &by_domain).unwrap();
        assert_eq!(context.uid, "u");
        assert_eq!(context.edition, edition);
        assert_eq!(edition_for_auth_root(&auth, &by_domain), edition);
        assert_eq!(current_edition(Some(&auth), &by_domain), edition);
    }
}

#[test]
fn a_domain_of_its_own_decides_the_edition() {
    for (domain, edition) in [
        ("workbuddy.ai", SessionEdition::Ai),
        ("workbuddy.cn", SessionEdition::Cn),
        ("", SessionEdition::Cn),
    ] {
        let bare = object(vec![("domain", text(domain))]);
        let full = object(vec![
            ("auth", object(vec![("domain", text("workbuddy.ai"))])),
            ("account", object(vec![("domain", text("workbuddy.ai"))])),
            ("domain", text(domain)),
        ]);
        assert_eq!(edition_for_auth_root(&bare, &by_domain), edition);
        assert_eq!(edition_for_auth_root(&full, &by_domain), edition);
    }
}

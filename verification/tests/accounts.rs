use somme_cli::account::AccountMap;
use somme_cli::session::{
    account_line, config_lines, login_account_name, login_api_base, logout, save_login,
    use_account, use_saved_login, LoginError,
};
use somme_cli::{active_account, select_account, Account, AccountError, Config};

fn account(token: Option<&str>) -> Account {
    Account {
        api_base: "https://example.test".into(),
        token: token.map(|t| t.to_string()),
        email: None,
        tier: None,
    }
}

#[test]
fn selects_active_account() {
    let mut config = Config::default();
    config.accounts.insert("work".into(), account(Some("secret")));
    config.active_account = Some("work".into());
    assert_eq!(select_account(&config, None).unwrap().0, "work");
}

#[test]
fn selects_the_only_account_but_requires_a_choice_for_multiple_accounts() {
    let account = account(Some("secret"));
    let mut config = Config::default();
    config.accounts.insert("one".into(), account.clone());
    assert_eq!(active_account(&config).unwrap().0, "one");
    config.accounts.insert("two".into(), account);
    assert!(active_account(&config).is_none());
    assert!(select_account(&config, None).is_err());
}

#[test]
fn an_active_name_that_is_not_saved_falls_back_to_the_only_account() {
    let mut config = Config::default();
    config.accounts.insert("one".into(), account(None));
    config.active_account = Some("gone".into());
    assert_eq!(active_account(&config).unwrap().0, "one");
    config.accounts.insert("two".into(), account(None));
    assert!(active_account(&config).is_none());
}

#[test]
fn named_selection_reports_the_missing_name() {
    let mut config = Config::default();
    config.accounts.insert("work".into(), account(Some("t")));
    let (name, found) = select_account(&config, Some("work")).unwrap();
    assert_eq!(name, "work");
    assert_eq!(found.token.as_deref(), Some("t"));
    let error = select_account(&config, Some("home")).unwrap_err();
    assert_eq!(error, AccountError::NoStoredAccount("home".into()));
    assert_eq!(error.message(), "no stored account named home");
    let empty = Config::default();
    let error = select_account(&empty, None).unwrap_err();
    assert_eq!(error, AccountError::NoSavedAccount);
    assert_eq!(
        error.message(),
        "no saved account; run the product login command"
    );
}

#[test]
fn account_map_insert_replaces_and_remove_takes_out() {
    let mut map = AccountMap::new();
    assert_eq!(map.len(), 0);
    assert!(map.insert("a".into(), account(Some("1"))).is_none());
    assert!(map.insert("b".into(), account(None)).is_none());
    let replaced = map.insert("a".into(), account(Some("2"))).unwrap();
    assert_eq!(replaced.token.as_deref(), Some("1"));
    assert_eq!(map.len(), 2);
    assert_eq!(map.get("a").unwrap().token.as_deref(), Some("2"));
    assert!(map.contains_key("b"));
    assert_eq!(map.logged_in_count(), 1);
    assert_eq!(map.names(), vec!["a".to_string(), "b".to_string()]);
    assert!(map.remove("b").is_some());
    assert!(map.remove("b").is_none());
    assert!(!map.contains_key("b"));
    assert_eq!(map.len(), 1);
    let copy = map.clone();
    assert_eq!(copy.names(), vec!["a".to_string()]);
}

#[test]
fn login_name_and_api_base_fall_back_in_order() {
    assert_eq!(
        login_account_name(Some("acct".into()), Some("me@x".into()), Some("act".into())),
        "acct"
    );
    assert_eq!(
        login_account_name(None, Some("me@x".into()), Some("act".into())),
        "me@x"
    );
    assert_eq!(login_account_name(None, None, Some("act".into())), "act");
    assert_eq!(login_account_name(None, None, None), "default");
    assert_eq!(
        login_api_base(Some("https://a".into()), Some("https://b".into()), "https://c"),
        "https://a"
    );
    assert_eq!(login_api_base(None, Some("https://b".into()), "https://c"), "https://b");
    assert_eq!(login_api_base(None, None, "https://c"), "https://c");
}

#[test]
fn login_then_select_uses_the_saved_profile() {
    let mut config = Config::default();
    config.accounts.insert("old".into(), account(Some("x")));
    config.accounts.insert("other".into(), account(None));
    save_login(&mut config, "new".into(), account(Some("fresh")));
    let (name, found) = select_account(&config, None).unwrap();
    assert_eq!(name, "new");
    assert_eq!(found.token.as_deref(), Some("fresh"));
}

#[test]
fn login_without_token_needs_a_saved_token() {
    let mut config = Config::default();
    config.accounts.insert("in".into(), account(Some("x")));
    config.accounts.insert("out".into(), account(None));
    let missing = use_saved_login(&mut config, "none".into()).unwrap_err();
    assert_eq!(missing.message(), "no stored account named none");
    let no_token = use_saved_login(&mut config, "out".into()).unwrap_err();
    assert_eq!(no_token, LoginError::NoSavedToken("out".into()));
    assert_eq!(no_token.message(), "out has no saved token; pass --token");
    assert!(config.active_account.is_none());
    use_saved_login(&mut config, "in".into()).unwrap();
    assert_eq!(config.active_account.as_deref(), Some("in"));
}

#[test]
fn logout_keeps_the_profile_without_its_token() {
    let mut config = Config::default();
    let mut saved = account(Some("secret"));
    saved.email = Some("me@example.test".into());
    config.accounts.insert("work".into(), saved);
    config.accounts.insert("home".into(), account(Some("other")));
    config.active_account = Some("work".into());
    assert_eq!(logout(&mut config, None).unwrap(), "work");
    let work = config.accounts.get("work").unwrap();
    assert!(work.token.is_none());
    assert_eq!(work.email.as_deref(), Some("me@example.test"));
    assert_eq!(work.api_base, "https://example.test");
    assert_eq!(config.accounts.get("home").unwrap().token.as_deref(), Some("other"));
    assert!(logout(&mut config, Some("nobody")).is_err());
    assert_eq!(config.accounts.len(), 2);
}

#[test]
fn use_account_requires_a_saved_profile() {
    let mut config = Config::default();
    config.accounts.insert("a".into(), account(None));
    config.accounts.insert("b".into(), account(None));
    assert!(use_account(&mut config, "c".into()).is_err());
    assert!(config.active_account.is_none());
    use_account(&mut config, "b".into()).unwrap();
    assert_eq!(select_account(&config, None).unwrap().0, "b");
}

#[test]
fn account_lines_and_config_lines() {
    assert_eq!(account_line(true, "work", true), "* work\tlogged in");
    assert_eq!(account_line(false, "home", false), "  home\tlogged out");
    assert_eq!(
        config_lines("somme", None, "/home/u/.somme", 0),
        vec!["app = somme", "account = none", "config_file = /home/u/.somme", "tokens = 0"]
    );
    assert_eq!(config_lines("bay", Some("work"), "/h/.bay", 12)[1], "account = work");
    assert_eq!(config_lines("bay", Some("work"), "/h/.bay", 12)[3], "tokens = 12");
}

#[test]
fn logged_in_reports_the_token() {
    assert!(account(Some("t")).logged_in());
    assert!(!account(None).logged_in());
}

#[test]
fn account_list_is_in_name_order_with_the_active_one_marked() {
    let mut config = Config::default();
    config.accounts.insert("zeta".into(), account(None));
    config.accounts.insert("alpha".into(), account(Some("t")));
    config.accounts.insert("Mid".into(), account(None));
    config.accounts.insert("\u{e9}t\u{e9}".into(), account(None));
    config.active_account = Some("zeta".into());
    assert_eq!(
        somme_cli::session::account_lines(&config),
        vec![
            "  Mid\tlogged out",
            "  alpha\tlogged in",
            "* zeta\tlogged out",
            "  \u{e9}t\u{e9}\tlogged out",
        ]
    );
    let mut expected: Vec<String> = vec!["zeta".into(), "alpha".into(), "Mid".into(), "\u{e9}t\u{e9}".into()];
    expected.sort();
    assert_eq!(config.accounts.names(), expected);
}

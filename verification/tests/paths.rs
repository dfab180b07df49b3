use std::path::PathBuf;

use somme_cli::client::{trim_trailing_slashes, ClientError};
use somme_cli::manpage::ManpageStep;
use somme_cli::product::{config_path_in, legacy_config_path_in, manpage_directories_in};
use somme_cli::{
    config_path, install_manpage, legacy_config_path, manpage_destination, Account, ApiClient,
    PathError, Product,
};

#[test]
fn product_configs_are_home_dotfiles_and_names_are_bounded() {
    assert!(config_path("bay").unwrap().ends_with(".bay"));
    assert!(config_path("suffix").unwrap().ends_with(".suffix"));
    assert!(config_path("../unsafe").is_err());
}

fn path(text: &str) -> PathBuf {
    PathBuf::from(text)
}

#[test]
fn config_paths_are_dotfiles_in_the_given_home() {
    assert_eq!(config_path_in("bay", Some(path("/home/u"))).unwrap(), path("/home/u/.bay"));
    assert_eq!(config_path_in("a-b_C9", Some(path("/root/"))).unwrap(), path("/root/.a-b_C9"));
    assert_eq!(config_path_in("bay", Some(path(""))).unwrap(), path(".bay"));
    assert_eq!(config_path_in("bay", None), Err(PathError::NoHomeDirectory));
    assert_eq!(config_path_in("", Some(path("/h"))), Err(PathError::InvalidName));
    assert_eq!(config_path_in("a/b", Some(path("/h"))), Err(PathError::InvalidName));
    assert_eq!(config_path_in("caf\u{e9}", None), Err(PathError::InvalidName));
    assert_eq!(
        PathError::InvalidName.message(),
        "application config name must contain only ASCII letters, numbers, hyphens, or underscores"
    );
    assert!(config_path("bay").unwrap().is_absolute());
    assert_eq!(
        legacy_config_path_in("bay", Some(path("/home/u/.config"))).unwrap(),
        path("/home/u/.config/bay/config.toml")
    );
    assert!(legacy_config_path("bay").unwrap().ends_with("bay/config.toml"));
    assert_eq!(legacy_config_path_in("bay", None), Err(PathError::NoConfigDirectory));
    assert_eq!(
        legacy_config_path_in("/etc/bay", Some(path("/home/u/.config"))).unwrap(),
        path("/etc/bay/config.toml")
    );
    assert_eq!(
        Product::new("bay".into(), "BAY".into(), "https://x".into())
            .config_path()
            .unwrap(),
        config_path("bay").unwrap()
    );
}

#[test]
fn home_directories_keep_their_text() {
    let home = path("/home/caf\u{e9}");
    assert_eq!(config_path_in("bay", Some(home.clone())).unwrap(), path("/home/caf\u{e9}/.bay"));
    assert_eq!(
        manpage_directories_in(&home, "linux")[1],
        path("/home/caf\u{e9}/.local/share/man/man1")
    );
    assert_eq!(
        legacy_config_path_in("bay", Some(home)).unwrap(),
        path("/home/caf\u{e9}/bay/config.toml")
    );
}

#[test]
fn environment_accounts_need_a_key() {
    let product = Product::new("somme".into(), "SOMME".into(), "https://default".into());
    assert_eq!(product.api_key_variable(), "SOMME_API_KEY");
    assert_eq!(product.api_base_variable(), "SOMME_API_BASE");
    assert!(product.environment_account(None, Some("https://b".into())).is_none());
    let account = product.environment_account(Some("k".into()), None).unwrap();
    assert_eq!(account.api_base, "https://default");
    assert_eq!(account.token.as_deref(), Some("k"));
    let account = product
        .environment_account(Some("k".into()), Some("https://b".into()))
        .unwrap();
    assert_eq!(account.api_base, "https://b");
}

#[test]
fn client_urls_join_with_one_slash() {
    let account = Account {
        api_base: "https://api.example.test/v1//".into(),
        token: Some("tok".into()),
        email: None,
        tier: None,
    };
    let client = ApiClient::from_account(&account).unwrap();
    assert_eq!(client.base(), "https://api.example.test/v1");
    assert_eq!(client.token(), "tok");
    assert_eq!(client.url("/me"), "https://api.example.test/v1/me");
    assert_eq!(client.url("me"), "https://api.example.test/v1/me");
    assert_eq!(trim_trailing_slashes("///"), "");
    let logged_out = Account { token: None, ..account };
    let error = ApiClient::from_account(&logged_out).unwrap_err();
    assert_eq!(error, ClientError::LoggedOut);
    assert_eq!(
        error.message(),
        "account is logged out; sign in or provide an API key"
    );
}

#[test]
fn manual_directories_follow_the_platform() {
    assert_eq!(
        manpage_directories_in(&path("/home/u"), "linux"),
        vec![
            path("/usr/local/share/man/man1"),
            path("/home/u/.local/share/man/man1"),
            path("/usr/share/man/man1")
        ]
    );
    assert_eq!(
        manpage_directories_in(&path("/Users/u"), "macos"),
        vec![
            path("/opt/homebrew/share/man/man1"),
            path("/usr/local/share/man/man1"),
            path("/Users/u/.local/share/man/man1")
        ]
    );
    assert_eq!(manpage_destination(&path("/tmp/man"), "sample"), path("/tmp/man/sample.1"));
    assert_eq!(manpage_destination(&path("/tmp/man/"), "sample"), path("/tmp/man/sample.1"));
}

#[test]
fn installs_a_manual_in_an_explicit_directory() {
    let (mut state, step) = install_manpage(
        "sample",
        Some(path("/tmp/explicit")),
        vec![path("/a"), path("/b")],
    );
    assert_eq!(
        step,
        ManpageStep::Install {
            directory: path("/tmp/explicit"),
            destination: path("/tmp/explicit/sample.1")
        }
    );
    assert_eq!(
        state.record(Ok(())),
        ManpageStep::Installed(path("/tmp/explicit/sample.1"))
    );
}

#[test]
fn manual_installation_falls_through_the_defaults_and_reports_every_failure() {
    let (mut state, step) = install_manpage("somme", None, vec![path("/a"), path("/b")]);
    assert_eq!(
        step,
        ManpageStep::Install { directory: path("/a"), destination: path("/a/somme.1") }
    );
    let next = state.record(Err("permission denied".into()));
    assert_eq!(
        next,
        ManpageStep::Install { directory: path("/b"), destination: path("/b/somme.1") }
    );
    assert_eq!(state.attempts(), 1);
    let last = state.record(Err("read-only".into()));
    assert_eq!(
        last,
        ManpageStep::Failed(
            "could not install the somme manual; try --dir ~/.local/share/man/man1 or use the required system privileges\n/a: permission denied\n/b: read-only"
                .into()
        )
    );
    assert_eq!(state.attempts(), 2);
    assert_eq!(state.next_step(), last);
}

//! Decisions of the account commands: which profile to save, select or log out.

use vstd::prelude::*;
use vstd::string::*;

use crate::account::{
    active_account, active_name, ascending, lists_keys, select_account, Account, AccountError, Config,
};
use crate::text::{same_text, strings_view};
use crate::rate::{opt_str, opt_str_ref};

verus! {

/// The profile that a command names, or, where it names none, the active one.
pub open spec fn selected_name(config: Config, name: Option<Seq<char>>) -> Option<Seq<char>> {
    match name {
        Some(n) => if config.accounts@.contains_key(n) {
            Some(n)
        } else {
            None
        },
        None => active_name(opt_str(config.active_account), config.accounts@),
    }
}

/// The name a login saves under: the one given, else the email, else the
/// active account, else `default`.
pub fn login_account_name(account: Option<String>, email: Option<String>, active: Option<String>) -> (r: String)
    ensures
        r@ == match (opt_str(account), opt_str(email), opt_str(active)) {
            (Some(a), _, _) => a,
            (None, Some(e), _) => e,
            (None, None, Some(n)) => n,
            (None, None, None) => "default"@,
        },
{
    match account {
        Some(a) => a,
        None => match email {
            Some(e) => e,
            None => match active {
                Some(n) => n,
                None => "default".to_owned(),
            },
        },
    }
}

/// The API base a login saves: the one given, else the profile's saved one,
/// else the product's default.
pub fn login_api_base(requested: Option<String>, saved: Option<String>, default_api_base: &str) -> (r: String)
    ensures
        r@ == match (opt_str(requested), opt_str(saved)) {
            (Some(b), _) => b,
            (None, Some(b)) => b,
            (None, None) => default_api_base@,
        },
{
    match requested {
        Some(b) => b,
        None => match saved {
            Some(b) => b,
            None => default_api_base.to_owned(),
        },
    }
}

/// Why a login without a token failed.
#[derive(Debug, Clone, PartialEq, Eq)]
pub enum LoginError {
    /// No profile of that name is saved.
    NoStoredAccount(String),
    /// The profile holds no token.
    NoSavedToken(String),
}

impl LoginError {
    pub fn message(&self) -> (s: String)
        ensures
            s@ == match self {
                LoginError::NoStoredAccount(name) => "no stored account named "@ + name@,
                LoginError::NoSavedToken(name) => name@ + " has no saved token; pass --token"@,
            },
    {
        match self {
            LoginError::NoStoredAccount(name) => {
                let mut s = "no stored account named ".to_owned();
                s.append(name.as_str());
                s
            },
            LoginError::NoSavedToken(name) => {
                let mut s = name.clone();
                s.append(" has no saved token; pass --token");
                s
            },
        }
    }
}

/// A login without a token: selects the saved profile `name`, which must hold a token.
pub fn use_saved_login(config: &mut Config, name: String) -> (r: Result<(), LoginError>)
    ensures
        final(config).accounts@ == old(config).accounts@,
        match r {
            Ok(()) => old(config).accounts@.contains_key(name@) && old(config).accounts@[name@].token is Some
                && opt_str(final(config).active_account) == Some(name@),
            Err(LoginError::NoStoredAccount(n)) => n@ == name@ && !old(config).accounts@.contains_key(name@)
                && final(config).active_account == old(config).active_account,
            Err(LoginError::NoSavedToken(n)) => n@ == name@ && old(config).accounts@.contains_key(name@)
                && old(config).accounts@[name@].token is None && final(config).active_account == old(
                config,
            ).active_account,
        },
{
    let logged_in = match config.accounts.get(name.as_str()) {
        Some(account) => account.logged_in(),
        None => return Err(LoginError::NoStoredAccount(name)),
    };
    if !logged_in {
        return Err(LoginError::NoSavedToken(name));
    }
    config.active_account = Some(name);
    Ok(())
}

/// A login with a token: saves `account` under `name` and makes it active.
pub fn save_login(config: &mut Config, name: String, account: Account)
    ensures
        final(config).accounts@ == old(config).accounts@.insert(name@, account),
        opt_str(final(config).active_account) == Some(name@),
{
    config.accounts.insert(name.clone(), account);
    config.active_account = Some(name);
}

/// Makes the saved profile `name` the active one.
pub fn use_account(config: &mut Config, name: String) -> (r: Result<(), AccountError>)
    ensures
        final(config).accounts@ == old(config).accounts@,
        match r {
            Ok(()) => old(config).accounts@.contains_key(name@) && opt_str(final(config).active_account)
                == Some(name@),
            Err(e) => !old(config).accounts@.contains_key(name@) && e == AccountError::NoStoredAccount(
                name,
            ) && final(config).active_account == old(config).active_account,
        },
{
    if !config.accounts.contains_key(name.as_str()) {
        return Err(AccountError::NoStoredAccount(name));
    }
    config.active_account = Some(name);
    Ok(())
}

/// Logs out the profile `name`, or the active one: its token is removed and
/// everything else about it is kept. Returns the profile's name.
pub fn logout(config: &mut Config, name: Option<&str>) -> (r: Result<String, AccountError>)
    ensures
        final(config).active_account == old(config).active_account,
        match r {
            Ok(n) => selected_name(*old(config), opt_str_ref(name)) == Some(n@)
                && final(config).accounts@ == old(config).accounts@.insert(
                n@,
                Account { token: None, ..old(config).accounts@[n@] },
            ),
            Err(_) => selected_name(*old(config), opt_str_ref(name)) is None
                && final(config).accounts@ == old(config).accounts@,
        },
{
    let selected = match select_account(config, name) {
        Ok((found, _)) => found.to_owned(),
        Err(e) => return Err(e),
    };
    let previous = config.accounts.remove(selected.as_str());
    match previous {
        Some(account) => {
            let cleared = Account { token: None, ..account };
            config.accounts.insert(selected.clone(), cleared);
            proof {
                assert(config.accounts@ =~= old(config).accounts@.insert(
                    selected@,
                    Account { token: None, ..old(config).accounts@[selected@] },
                ));
            }
            Ok(selected)
        },
        None => Err(AccountError::NoStoredAccount(selected)),
    }
}

/// One line of the profile list.
pub open spec fn account_line_of(selected: bool, name: Seq<char>, logged_in: bool) -> Seq<char> {
    (if selected {
        "*"@
    } else {
        " "@
    }) + " "@ + name + "\t"@ + (if logged_in {
        "logged in"@
    } else {
        "logged out"@
    })
}

/// One line of the profile list: `*` marks the active profile.
pub fn account_line(selected: bool, name: &str, logged_in: bool) -> (s: String)
    ensures
        s@ == account_line_of(selected, name@, logged_in),
{
    let mut s = if selected {
        "*".to_owned()
    } else {
        " ".to_owned()
    };
    s.append(" ");
    s.append(name);
    s.append("\t");
    if logged_in {
        s.append("logged in");
    } else {
        s.append("logged out");
    }
    s
}


/// The lines that describe a configuration without printing any secret: the
/// namespace, the active account (or `none`), the file, and how many tokens it holds.
pub fn config_lines(slug: &str, active: Option<&str>, config_file: &str, tokens: usize) -> (lines: Vec<String>)
    ensures
        crate::text::strings_view(lines@) == seq![
            "app = "@ + slug@,
            "account = "@ + match opt_str_ref(active) {
                Some(a) => a,
                None => "none"@,
            },
            "config_file = "@ + config_file@,
            "tokens = "@ + crate::text::decimal(tokens as nat),
        ],
{
    let mut lines: Vec<String> = Vec::new();
    let mut app = "app = ".to_owned();
    app.append(slug);
    lines.push(app);
    let mut account = "account = ".to_owned();
    match active {
        Some(a) => account.append(a),
        None => account.append("none"),
    }
    lines.push(account);
    let mut file = "config_file = ".to_owned();
    file.append(config_file);
    lines.push(file);
    let mut count = "tokens = ".to_owned();
    crate::text::push_decimal(&mut count, tokens as u64);
    lines.push(count);
    assert(crate::text::strings_view(lines@) =~= seq![
        "app = "@ + slug@,
        "account = "@ + match opt_str_ref(active) {
            Some(a) => a,
            None => "none"@,
        },
        "config_file = "@ + config_file@,
        "tokens = "@ + crate::text::decimal(tokens as nat),
    ]);
    lines
}


/// The profile list: one line per saved profile, in ascending order of names,
/// with `*` on the profile that commands naming none would use.
pub fn account_lines(config: &Config) -> (lines: Vec<String>)
    ensures
        exists|names: Seq<Seq<char>>|
            {
                &&& ascending(names)
                &&& lists_keys(names, config.accounts@)
                &&& lines@.len() == names.len()
                &&& forall|i: int|
                    0 <= i < names.len() ==> (#[trigger] lines@[i])@ == account_line_of(
                        active_name(opt_str(config.active_account), config.accounts@) == Some(names[i]),
                        names[i],
                        config.accounts@[names[i]].token is Some,
                    )
            },
{
    let names = config.accounts.names();
    let ghost nv = strings_view(names@);
    let active: Option<&str> = match active_account(config) {
        Some((n, _)) => Some(n),
        None => None,
    };
    let ghost chosen = active_name(opt_str(config.active_account), config.accounts@);
    let mut lines: Vec<String> = Vec::new();
    let mut i: usize = 0;
    while i < names.len()
        invariant
            i <= names@.len(),
            nv == strings_view(names@),
            lists_keys(nv, config.accounts@),
            chosen == active_name(opt_str(config.active_account), config.accounts@),
            match active {
                Some(n) => chosen == Some(n@),
                None => chosen is None,
            },
            lines@.len() == i,
            forall|k: int|
                0 <= k < i ==> (#[trigger] lines@[k])@ == account_line_of(
                    chosen == Some(nv[k]),
                    nv[k],
                    config.accounts@[nv[k]].token is Some,
                ),
        decreases names.len() - i,
    {
        assert(nv[i as int] == names@[i as int]@);
        let logged_in = match config.accounts.get(names[i].as_str()) {
            Some(account) => account.logged_in(),
            None => false,
        };
        let selected = match active {
            Some(n) => same_text(n, names[i].as_str()),
            None => false,
        };
        lines.push(account_line(selected, names[i].as_str(), logged_in));
        i = i + 1;
    }
    assert(ascending(nv));
    lines
}

} // verus!

//! The bearer credentials and address of an authenticated API.

use vstd::prelude::*;
use vstd::string::*;

use crate::account::Account;

verus! {

/// `str::trim_end_matches('/')`: every trailing `/` removed.
pub open spec fn without_trailing_slashes(s: Seq<char>) -> Seq<char>
    decreases s.len(),
{
    if s.len() > 0 && s.last() == '/' {
        without_trailing_slashes(s.drop_last())
    } else {
        s
    }
}

/// Removes every trailing `/`.
pub fn trim_trailing_slashes(s: &str) -> (r: String)
    ensures
        r@ == without_trailing_slashes(s@),
{
    let mut j = s.unicode_len();
    assert(s@.subrange(0, j as int) =~= s@);
    while j > 0 && s.get_char(j - 1) == '/'
        invariant
            j <= s@.len(),
            without_trailing_slashes(s@) == without_trailing_slashes(s@.subrange(0, j as int)),
        decreases j,
    {
        assert(s@.subrange(0, j as int).drop_last() =~= s@.subrange(0, j - 1));
        j = j - 1;
    }
    assert(s@.subrange(0, 0) =~= Seq::<char>::empty());
    s.substring_char(0, j).to_owned()
}

/// The URL of `path` under `base`: a `/` joins them unless `path` starts with one.
pub open spec fn url_of(base: Seq<char>, path: Seq<char>) -> Seq<char> {
    if path.len() > 0 && path[0] == '/' {
        base + path
    } else {
        base + "/"@ + path
    }
}

/// Why no client could be made.
#[derive(Debug, Clone, PartialEq, Eq)]
pub enum ClientError {
    /// The account holds no token.
    LoggedOut,
}

impl ClientError {
    pub fn message(&self) -> (s: String)
        ensures
            s@ == "account is logged out; sign in or provide an API key"@,
    {
        "account is logged out; sign in or provide an API key".to_owned()
    }
}

/// The address and bearer token that requests of one account use.
#[derive(Debug, Clone, PartialEq, Eq)]
pub struct ApiClient {
    base: String,
    token: String,
}

impl ApiClient {
    /// The API base, without trailing `/`.
    pub closed spec fn base_view(&self) -> Seq<char> {
        self.base@
    }

    /// The bearer token.
    pub closed spec fn token_view(&self) -> Seq<char> {
        self.token@
    }

    /// The client of a logged-in account: its API base without trailing `/`
    /// and its token. A logged-out account has none.
    pub fn from_account(account: &Account) -> (r: Result<Self, ClientError>)
        ensures
            account.token is None <==> r is Err,
            match r {
                Ok(c) => c.base_view() == without_trailing_slashes(account.api_base@)
                    && c.token_view() == account.token->0@,
                Err(e) => e == ClientError::LoggedOut,
            },
    {
        let token = match &account.token {
            Some(t) => t.clone(),
            None => return Err(ClientError::LoggedOut),
        };
        Ok(ApiClient { base: trim_trailing_slashes(account.api_base.as_str()), token })
    }

    pub fn base(&self) -> (r: &str)
        ensures
            r@ == self.base_view(),
    {
        self.base.as_str()
    }

    pub fn token(&self) -> (r: &str)
        ensures
            r@ == self.token_view(),
    {
        self.token.as_str()
    }

    /// The URL of an API path.
    pub fn url(&self, path: &str) -> (r: String)
        ensures
            r@ == url_of(self.base_view(), path@),
    {
        let mut r = self.base.clone();
        if !(path.unicode_len() > 0 && path.get_char(0) == '/') {
            r.append("/");
        }
        r.append(path);
        r
    }
}

} // verus!

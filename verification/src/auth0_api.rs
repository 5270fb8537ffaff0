//! The client of the identity provider's management interface: the requests
//! it sends with its bearer token, the supply of that token from the
//! credential store, and the deletions of a bulk delete.

use crate::config::{Config, ConfigView};
use crate::request::{join3, pair, pair_views, Method, Request, RequestView};
use crate::token::{
    access_token_from_response, expiry_of, expiry_still_ahead, fetch_access_token,
    json_text_member, token_expiry, token_request, valid_at,
};
use crate::text::optional_text;
use crate::user::{
    lemma_selection_complete, matching_users, selected_by, user_views, User, UserView,
};
use vstd::prelude::*;

verus! {

/// The number of workers that carry out the deletions of a bulk delete side
/// by side.
pub const N_WORKERS: usize = 8;

/// A client for one domain of the identity provider, with the bearer token
/// that its requests carry.
#[derive(Debug)]
pub struct Auth0Api {
    domain: String,
    access_token: String,
}

/// The mathematical value of an [`Auth0Api`].
pub struct Auth0ApiView {
    pub domain: Seq<char>,
    pub access_token: Seq<char>,
}

impl View for Auth0Api {
    type V = Auth0ApiView;

    closed spec fn view(&self) -> Auth0ApiView {
        Auth0ApiView { domain: self.domain@, access_token: self.access_token@ }
    }
}

/// The address of the users of `domain`.
pub open spec fn users_url(domain: Seq<char>) -> Seq<char> {
    "https://"@ + domain + "/api/v2/users"@
}

/// The address of the user `user_id` of `domain`.
pub open spec fn user_url(domain: Seq<char>, user_id: Seq<char>) -> Seq<char> {
    "https://"@ + domain + "/api/v2/users/"@ + user_id
}

/// The header lines of a request that carries the bearer token `token`.
pub open spec fn bearer_headers(token: Seq<char>) -> Seq<(Seq<char>, Seq<char>)> {
    seq![("Authorization"@, "Bearer "@ + token)]
}

impl Auth0ApiView {
    /// The request that lists the users.
    pub open spec fn fetch_users(self) -> RequestView {
        RequestView {
            method: Method::Get,
            url: users_url(self.domain),
            headers: bearer_headers(self.access_token),
            json: None,
        }
    }

    /// The request that creates a user with a password.
    pub open spec fn create_user(self, email: Seq<char>, password: Seq<char>) -> RequestView {
        RequestView {
            method: Method::Post,
            url: users_url(self.domain),
            headers: bearer_headers(self.access_token),
            json: Some(
                seq![
                    ("email"@, email),
                    ("password"@, password),
                    ("connection"@, "Username-Password-Authentication"@),
                ],
            ),
        }
    }

    /// The request that deletes the user `user_id`.
    pub open spec fn delete_user_by_id(self, user_id: Seq<char>) -> RequestView {
        RequestView {
            method: Method::Delete,
            url: user_url(self.domain, user_id),
            headers: bearer_headers(self.access_token),
            json: None,
        }
    }

    /// The deletion of `user`: the user with the request that deletes it.
    pub open spec fn deletion(self, user: UserView) -> DeletionView {
        DeletionView { user, request: self.delete_user_by_id(user.user_id) }
    }

    /// The deletions of a bulk delete of `users`: one for each user, in
    /// the order of the users.
    pub open spec fn par_delete_users(self, users: Seq<UserView>) -> Seq<DeletionView> {
        users.map_values(|user: UserView| self.deletion(user))
    }
}

/// One piece of work of a bulk delete: a user, and the request that deletes
/// that user.
#[derive(Debug)]
pub struct Deletion {
    pub user: User,
    pub request: Request,
}

/// The mathematical value of a [`Deletion`].
pub struct DeletionView {
    pub user: UserView,
    pub request: RequestView,
}

impl View for Deletion {
    type V = DeletionView;

    open spec fn view(&self) -> DeletionView {
        DeletionView { user: self.user@, request: self.request@ }
    }
}

/// The values of a sequence of deletions.
pub open spec fn deletion_views(deletions: Seq<Deletion>) -> Seq<DeletionView> {
    deletions.map_values(|deletion: Deletion| deletion@)
}

/// Why the credential store cannot supply a client.
#[derive(Debug, Clone, Copy, PartialEq, Eq, Structural)]
pub enum SupplyError {
    /// The store has no profile of the name asked for.
    UnknownApp,
    /// The provider's answer to the token request holds no access token.
    NoAccessToken,
}

/// What the credential store supplies for a profile.
#[derive(Debug)]
pub enum TokenSupply {
    /// The cached token may still be used: a client that carries it.
    Cached(Auth0Api),
    /// No cached token may be used: the request that asks the provider for
    /// a new one.
    Fetch(Request),
}

/// The mathematical value of a [`TokenSupply`].
pub enum TokenSupplyView {
    Cached(Auth0ApiView),
    Fetch(RequestView),
}

impl View for TokenSupply {
    type V = TokenSupplyView;

    open spec fn view(&self) -> TokenSupplyView {
        match self {
            TokenSupply::Cached(api) => TokenSupplyView::Cached(api@),
            TokenSupply::Fetch(request) => TokenSupplyView::Fetch(request@),
        }
    }
}

/// The expiry that the token cached for `app_name` states; `None` where no
/// token is cached or the cached text states none.
pub open spec fn cached_expiry(config: ConfigView, app_name: Seq<char>) -> Option<u64> {
    match config.access_token(app_name) {
        Some(token) => token_expiry(token),
        None => None,
    }
}

/// What `config` supplies for `app_name` at the time `now`, where `expiry`
/// is the expiry of the cached token. An unknown profile is an error. The
/// cached token is supplied where there is one and it is valid at `now`;
/// in every other case a new token is to be fetched.
pub open spec fn supply(
    config: ConfigView,
    app_name: Seq<char>,
    expiry: Option<u64>,
    now: u64,
) -> Result<TokenSupplyView, SupplyError> {
    match config.app_config(app_name) {
        None => Err(SupplyError::UnknownApp),
        Some(app) => match config.access_token(app_name) {
            Some(token) if valid_at(expiry, now) => Ok(
                TokenSupplyView::Cached(Auth0ApiView { domain: app.domain, access_token: token }),
            ),
            _ => Ok(TokenSupplyView::Fetch(token_request(app))),
        },
    }
}

/// What follows the answer to a token request for `app_name`, where
/// `token` is the access token that the answer held: the store with that
/// token cached for the profile, and a client that carries it.
pub open spec fn fetched(config: ConfigView, app_name: Seq<char>, token: Option<Seq<char>>) -> Result<
    (ConfigView, Auth0ApiView),
    SupplyError,
> {
    match config.app_config(app_name) {
        None => Err(SupplyError::UnknownApp),
        Some(app) => match token {
            None => Err(SupplyError::NoAccessToken),
            Some(text) => Ok(
                (
                    config.add_access_token(app_name, text),
                    Auth0ApiView { domain: app.domain, access_token: text },
                ),
            ),
        },
    }
}

/// For a profile of the store, the cached token is supplied exactly when
/// there is one and it is valid at `now`. In every other case (no token,
/// a token that is past its expiry, a text that states no expiry) the
/// token request of the profile is supplied.
pub proof fn lemma_supply_fetches_unless_valid(
    config: ConfigView,
    app_name: Seq<char>,
    expiry: Option<u64>,
    now: u64,
)
    requires
        config.app_config(app_name) is Some,
    ensures
        match supply(config, app_name, expiry, now) {
            Ok(TokenSupplyView::Cached(api)) => {
                &&& valid_at(expiry, now)
                &&& config.access_token(app_name) == Some(api.access_token)
                &&& api.domain == config.apps[app_name].domain
            },
            Ok(TokenSupplyView::Fetch(request)) => {
                &&& !(config.access_token(app_name) is Some && valid_at(expiry, now))
                &&& request == token_request(config.apps[app_name])
            },
            Err(_) => false,
        },
{
}

/// A bulk delete by pattern is complete and deletes nobody twice: there is
/// one deletion for each selected user, in their order, and a user stands
/// among the selected as often as among `users` where the pattern selects
/// it, and not at all where it does not.
pub proof fn lemma_bulk_delete_complete(
    api: Auth0ApiView,
    users: Seq<UserView>,
    pattern: Seq<char>,
    user: UserView,
)
    ensures
        api.par_delete_users(selected_by(users, pattern)).len() == selected_by(users, pattern).len(),
        forall|i: int|
            0 <= i < selected_by(users, pattern).len() ==> #[trigger] api.par_delete_users(
                selected_by(users, pattern),
            )[i] == api.deletion(selected_by(users, pattern)[i]),
        selected_by(users, pattern).to_multiset().count(user) == if user.matches(pattern) {
            users.to_multiset().count(user)
        } else {
            0
        },
{
    lemma_selection_complete(users, pattern, user);
}

impl Clone for Auth0Api {
    fn clone(&self) -> (copy: Self)
        ensures
            copy@ == self@,
    {
        Auth0Api { domain: self.domain.clone(), access_token: self.access_token.clone() }
    }
}

impl Auth0Api {
    /// A client for `domain` whose requests carry `access_token`.
    pub fn new(domain: &str, access_token: &str) -> (api: Auth0Api)
        ensures
            api@ == (Auth0ApiView { domain: domain@, access_token: access_token@ }),
    {
        Auth0Api { domain: domain.to_owned(), access_token: access_token.to_owned() }
    }

    /// The header lines that every request of this client carries.
    fn headers(&self) -> (headers: Vec<(String, String)>)
        ensures
            pair_views(headers@) == bearer_headers(self@.access_token),
    {
        let mut headers: Vec<(String, String)> = Vec::new();
        let mut value = "Bearer ".to_owned();
        value.append(self.access_token.as_str());
        headers.push(("Authorization".to_owned(), value));
        assert(pair_views(headers@) =~= bearer_headers(self@.access_token));
        headers
    }

    /// The request that lists the users.
    pub fn fetch_users(&self) -> (request: Request)
        ensures
            request@ == self@.fetch_users(),
    {
        Request {
            method: Method::Get,
            url: join3("https://", self.domain.as_str(), "/api/v2/users"),
            headers: self.headers(),
            json: None,
        }
    }

    /// The request that creates a user with the address `email` and the
    /// password `password`.
    pub fn create_user(&self, email: &str, password: &str) -> (request: Request)
        ensures
            request@ == self@.create_user(email@, password@),
    {
        let mut members: Vec<(String, String)> = Vec::new();
        members.push(pair("email", email));
        members.push(pair("password", password));
        members.push(pair("connection", "Username-Password-Authentication"));
        assert(pair_views(members@) =~= self@.create_user(email@, password@).json->0);
        Request {
            method: Method::Post,
            url: join3("https://", self.domain.as_str(), "/api/v2/users"),
            headers: self.headers(),
            json: Some(members),
        }
    }

    /// The request that deletes the user `user_id`.
    pub fn delete_user_by_id(&self, user_id: &str) -> (request: Request)
        ensures
            request@ == self@.delete_user_by_id(user_id@),
    {
        let mut url = join3("https://", self.domain.as_str(), "/api/v2/users/");
        url.append(user_id);
        Request { method: Method::Delete, url, headers: self.headers(), json: None }
    }

    /// The work of a bulk delete of `users`, in the order in which the
    /// workers take it up: for each user one deletion, no user left out
    /// and none taken twice.
    pub fn par_delete_users(&self, users: Vec<User>) -> (deletions: Vec<Deletion>)
        ensures
            deletion_views(deletions@) == self@.par_delete_users(user_views(users@)),
    {
        let ghost all = users@;
        let mut deletions: Vec<Deletion> = Vec::new();
        assert(all.take(0) =~= Seq::<User>::empty());
        for user in it: users
            invariant
                it.seq() == all,
                deletion_views(deletions@) == self@.par_delete_users(
                    user_views(all.take(it.index() as int)),
                ),
        {
            let ghost before = deletion_views(deletions@);
            let request = self.delete_user_by_id(user.user_id.as_str());
            let deletion = Deletion { user, request };
            proof {
                assert(all.take(it.index() + 1) =~= all.take(it.index() as int).push(user));
                assert(self@.par_delete_users(user_views(all.take(it.index() + 1)))
                    =~= before.push(deletion@));
                assert(deletion_views(deletions@.push(deletion)) =~= before.push(deletion@));
            }
            deletions.push(deletion);
        }
        assert(all.take(all.len() as int) =~= all);
        deletions
    }

    /// What `config` supplies for the profile `app_name` at the time `now`,
    /// where `expiry` is the expiry that the cached token states.
    pub fn api_with_expiry(config: &Config, app_name: &str, expiry: Option<u64>, now: u64) -> (supplied:
        Result<TokenSupply, SupplyError>)
        ensures
            match supplied {
                Ok(found) => supply(config@, app_name@, expiry, now) == Ok::<
                    TokenSupplyView,
                    SupplyError,
                >(found@),
                Err(error) => supply(config@, app_name@, expiry, now) == Err::<
                    TokenSupplyView,
                    SupplyError,
                >(error),
            },
    {
        let app = match config.get_app_config(app_name) {
            Some(app) => app,
            None => {
                return Err(SupplyError::UnknownApp);
            },
        };
        match config.get_access_token(app_name) {
            Some(token) => {
                if expiry_still_ahead(expiry, now) {
                    Ok(TokenSupply::Cached(Auth0Api::new(app.domain.as_str(), token.as_str())))
                } else {
                    Ok(TokenSupply::Fetch(fetch_access_token(app)))
                }
            },
            None => Ok(TokenSupply::Fetch(fetch_access_token(app))),
        }
    }

    /// The client for the profile `app_name` of `config` at the time `now`,
    /// in seconds since the Unix epoch: with the cached token where that is
    /// still valid, else the request for a new token. The answer to that
    /// request goes to [`Auth0Api::api_from_token_response`].
    pub fn api_for_app(config: &Config, app_name: &str, now: u64) -> (supplied: Result<
        TokenSupply,
        SupplyError,
    >)
        ensures
            match supplied {
                Ok(found) => supply(config@, app_name@, cached_expiry(config@, app_name@), now)
                    == Ok::<TokenSupplyView, SupplyError>(found@),
                Err(error) => supply(config@, app_name@, cached_expiry(config@, app_name@), now)
                    == Err::<TokenSupplyView, SupplyError>(error),
            },
    {
        let expiry = match config.get_access_token(app_name) {
            Some(token) => expiry_of(token.as_str()),
            None => None,
        };
        Auth0Api::api_with_expiry(config, app_name, expiry, now)
    }

    /// What follows a token request for the profile `app_name`, where
    /// `token` is the access token that the provider's answer held: the
    /// store to persist, with the token cached for the profile, and the
    /// client that carries the token.
    pub fn api_with_fetched_token(config: &Config, app_name: &str, token: Option<String>) -> (made:
        Result<(Config, Auth0Api), SupplyError>)
        ensures
            match made {
                Ok((store, api)) => fetched(config@, app_name@, optional_text(token)) == Ok::<
                    (ConfigView, Auth0ApiView),
                    SupplyError,
                >((store@, api@)),
                Err(error) => fetched(config@, app_name@, optional_text(token)) == Err::<
                    (ConfigView, Auth0ApiView),
                    SupplyError,
                >(error),
            },
    {
        let app = match config.get_app_config(app_name) {
            Some(app) => app,
            None => {
                return Err(SupplyError::UnknownApp);
            },
        };
        match token {
            Some(text) => {
                let store = config.add_access_token(app_name, text.as_str());
                let api = Auth0Api::new(app.domain.as_str(), text.as_str());
                Ok((store, api))
            },
            None => Err(SupplyError::NoAccessToken),
        }
    }

    /// What follows the provider's answer `body` to the token request for
    /// the profile `app_name`.
    pub fn api_from_token_response(config: &Config, app_name: &str, body: &str) -> (made: Result<
        (Config, Auth0Api),
        SupplyError,
    >)
        ensures
            match made {
                Ok((store, api)) => fetched(
                    config@,
                    app_name@,
                    json_text_member(body@, "access_token"@),
                ) == Ok::<(ConfigView, Auth0ApiView), SupplyError>((store@, api@)),
                Err(error) => fetched(config@, app_name@, json_text_member(body@, "access_token"@))
                    == Err::<(ConfigView, Auth0ApiView), SupplyError>(error),
            },
    {
        Auth0Api::api_with_fetched_token(config, app_name, access_token_from_response(body))
    }

    /// The work of a bulk delete by pattern: one deletion for each of
    /// `users` that `pattern` selects, in the order of the users. Where the
    /// pattern selects nobody there is no work.
    pub fn delete_users_by_pattern(&self, users: &Vec<User>, pattern: &str) -> (deletions: Vec<
        Deletion,
    >)
        ensures
            deletion_views(deletions@) == self@.par_delete_users(
                selected_by(user_views(users@), pattern@),
            ),
    {
        self.par_delete_users(matching_users(users, pattern))
    }
}

} // verus!

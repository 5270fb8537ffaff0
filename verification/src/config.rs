//! The credential store: application profiles by name, and for each
//! profile the access token that was last fetched for it.

use crate::text::optional_text;
use crate::text_map::{
    collected, described, distinct_keys, key_at, lemma_collected_any_order, lemma_collected_keys,
    lemma_collected_value, TextMap,
};
use vstd::prelude::*;

verus! {

/// The credentials of one application of the identity provider.
#[derive(Debug)]
pub struct AppConfig {
    pub name: String,
    pub client_id: String,
    pub client_secret: String,
    pub domain: String,
}

/// The mathematical value of an [`AppConfig`].
pub struct AppConfigView {
    pub name: Seq<char>,
    pub client_id: Seq<char>,
    pub client_secret: Seq<char>,
    pub domain: Seq<char>,
}

impl View for AppConfig {
    type V = AppConfigView;

    open spec fn view(&self) -> AppConfigView {
        AppConfigView {
            name: self.name@,
            client_id: self.client_id@,
            client_secret: self.client_secret@,
            domain: self.domain@,
        }
    }
}

impl Clone for AppConfig {
    fn clone(&self) -> (copy: Self)
        ensures
            copy == *self,
    {
        AppConfig {
            name: self.name.clone(),
            client_id: self.client_id.clone(),
            client_secret: self.client_secret.clone(),
            domain: self.domain.clone(),
        }
    }
}

impl PartialEq for AppConfig {
    fn eq(&self, other: &AppConfig) -> (equal: bool) {
        self.name == other.name && self.client_id == other.client_id && self.client_secret
            == other.client_secret && self.domain == other.domain
    }
}

impl vstd::std_specs::cmp::PartialEqSpecImpl for AppConfig {
    open spec fn obeys_eq_spec() -> bool {
        true
    }

    /// Two profiles are equal when their four texts are.
    open spec fn eq_spec(&self, other: &AppConfig) -> bool {
        self@ == other@
    }
}

impl AppConfig {
    /// A profile made of the four texts. No text is refused.
    pub fn new(name: String, client_id: String, client_secret: String, domain: String) -> (made:
        Result<AppConfig, String>)
        ensures
            made == Ok::<AppConfig, String>(AppConfig { name, client_id, client_secret, domain }),
    {
        Ok(AppConfig { name, client_id, client_secret, domain })
    }
}

/// The mathematical value of a [`Config`]: the profiles by name, and the
/// cached tokens by profile name. A token may stand under a name that has
/// no profile.
#[verifier::ext_equal]
pub struct ConfigView {
    pub apps: Map<Seq<char>, AppConfigView>,
    pub access_tokens: Map<Seq<char>, Seq<char>>,
}

impl ConfigView {
    /// The store with `app` under its own name, in place of any profile
    /// that stood there.
    pub open spec fn add_app(self, app: AppConfigView) -> ConfigView {
        ConfigView { apps: self.apps.insert(app.name, app), access_tokens: self.access_tokens }
    }

    /// The store without the profile `name`. Its cached token stays.
    pub open spec fn remove_app(self, name: Seq<char>) -> ConfigView {
        ConfigView { apps: self.apps.remove(name), access_tokens: self.access_tokens }
    }

    /// The profile under `name`, if there is one.
    pub open spec fn app_config(self, name: Seq<char>) -> Option<AppConfigView> {
        if self.apps.contains_key(name) {
            Some(self.apps[name])
        } else {
            None
        }
    }

    /// The token cached for `name`, if there is one.
    pub open spec fn access_token(self, name: Seq<char>) -> Option<Seq<char>> {
        if self.access_tokens.contains_key(name) {
            Some(self.access_tokens[name])
        } else {
            None
        }
    }

    /// The store with `token` cached for `name`, in place of any token
    /// that was cached for it.
    pub open spec fn add_access_token(self, name: Seq<char>, token: Seq<char>) -> ConfigView {
        ConfigView { apps: self.apps, access_tokens: self.access_tokens.insert(name, token) }
    }
}

/// The step from a profile to its value.
pub open spec fn app_view() -> spec_fn(AppConfig) -> AppConfigView {
    |app: AppConfig| app@
}

/// The step from a token to its characters.
pub open spec fn token_view() -> spec_fn(String) -> Seq<char> {
    |token: String| token@
}

/// The profiles that a map holds, each as its value.
pub open spec fn app_views(apps: Map<Seq<char>, AppConfig>) -> Map<Seq<char>, AppConfigView> {
    apps.map_values(app_view())
}

/// The tokens that a map holds, each as its characters.
pub open spec fn token_views(tokens: Map<Seq<char>, String>) -> Map<Seq<char>, Seq<char>> {
    tokens.map_values(token_view())
}

/// The store that two lists of entries describe. Where a list has a key
/// more than once, the last entry counts.
pub open spec fn loaded(
    apps: Seq<(String, AppConfig)>,
    access_tokens: Seq<(String, String)>,
) -> ConfigView {
    ConfigView {
        apps: app_views(collected(apps)),
        access_tokens: token_views(collected(access_tokens)),
    }
}

/// Removing a profile from a store that does not have it changes nothing.
pub proof fn lemma_remove_absent_app(config: ConfigView, name: Seq<char>)
    requires
        config.app_config(name) is None,
    ensures
        config.remove_app(name) == config,
{
    assert(config.remove_app(name).apps =~= config.apps);
}

/// Removing a profile twice is removing it once.
pub proof fn lemma_remove_app_twice(config: ConfigView, name: Seq<char>)
    ensures
        config.remove_app(name).app_config(name) is None,
        config.remove_app(name).remove_app(name) == config.remove_app(name),
{
    assert(config.remove_app(name).remove_app(name).apps =~= config.remove_app(name).apps);
}

/// After a profile was added it is the one found under its name, whatever
/// stood there before; what stands under other names is as it was.
pub proof fn lemma_add_app_then_get(config: ConfigView, app: AppConfigView, other: Seq<char>)
    ensures
        config.add_app(app).app_config(app.name) == Some(app),
        other != app.name ==> config.add_app(app).app_config(other) == config.app_config(other),
{
}

/// After a token was cached for a profile it is the one found for that
/// profile, whatever was cached before; the tokens of other profiles are
/// as they were.
pub proof fn lemma_add_access_token_then_get(
    config: ConfigView,
    name: Seq<char>,
    token: Seq<char>,
    other: Seq<char>,
)
    ensures
        config.add_access_token(name, token).access_token(name) == Some(token),
        other != name ==> config.add_access_token(name, token).access_token(other)
            == config.access_token(other),
{
}

/// The store does not depend on the order of its entries: two pairs of
/// lists that hold the same entries, each as often in the one as in the
/// other and no key twice, describe the same store.
pub proof fn lemma_loaded_in_any_order(
    apps: Seq<(String, AppConfig)>,
    access_tokens: Seq<(String, String)>,
    apps_again: Seq<(String, AppConfig)>,
    access_tokens_again: Seq<(String, String)>,
)
    requires
        distinct_keys(apps),
        distinct_keys(access_tokens),
        described(apps_again, app_view()).to_multiset() == described(
            apps,
            app_view(),
        ).to_multiset(),
        described(access_tokens_again, token_view()).to_multiset() == described(
            access_tokens,
            token_view(),
        ).to_multiset(),
    ensures
        loaded(apps_again, access_tokens_again) == loaded(apps, access_tokens),
{
    lemma_collected_any_order(apps, apps_again, app_view());
    lemma_collected_any_order(access_tokens, access_tokens_again, token_view());
}

/// A cached token survives the way through the lists of entries: where
/// `apps` and `access_tokens` are the entries of a store in which `token`
/// was cached for `name`, a store that is built from the same entries, in
/// whatever order they come back, is that store, and has the token for the
/// name.
pub proof fn lemma_reload_keeps_token(
    config: ConfigView,
    name: Seq<char>,
    token: Seq<char>,
    apps: Seq<(String, AppConfig)>,
    access_tokens: Seq<(String, String)>,
    apps_again: Seq<(String, AppConfig)>,
    access_tokens_again: Seq<(String, String)>,
)
    requires
        distinct_keys(apps),
        distinct_keys(access_tokens),
        loaded(apps, access_tokens) == config.add_access_token(name, token),
        described(apps_again, app_view()).to_multiset() == described(
            apps,
            app_view(),
        ).to_multiset(),
        described(access_tokens_again, token_view()).to_multiset() == described(
            access_tokens,
            token_view(),
        ).to_multiset(),
    ensures
        loaded(apps_again, access_tokens_again) == config.add_access_token(name, token),
        loaded(apps_again, access_tokens_again).access_token(name) == Some(token),
{
    lemma_loaded_in_any_order(apps, access_tokens, apps_again, access_tokens_again);
}

/// The credential store.
#[derive(Debug)]
pub struct Config {
    apps: TextMap<AppConfig>,
    access_tokens: TextMap<String>,
}

impl View for Config {
    type V = ConfigView;

    closed spec fn view(&self) -> ConfigView {
        ConfigView { apps: app_views(self.apps@), access_tokens: token_views(self.access_tokens@) }
    }
}

/// Whether two maps of profiles hold the same profiles under the same
/// names.
fn same_apps(a: &TextMap<AppConfig>, b: &TextMap<AppConfig>) -> (same: bool)
    ensures
        same == (app_views(a@) == app_views(b@)),
{
    if a.len() != b.len() {
        assert(app_views(a@).dom() =~= a@.dom());
        assert(app_views(b@).dom() =~= b@.dom());
        return false;
    }
    let entries = a.entries();
    let mut i: usize = 0;
    while i < entries.len()
        invariant
            i <= entries.len(),
            distinct_keys(entries@),
            collected(entries@) == a@,
            forall|j: int|
                0 <= j < i ==> b@.contains_key((#[trigger] entries@[j]).0@) && b@[entries@[j].0@]@
                    == entries@[j].1@,
        decreases entries.len() - i,
    {
        proof {
            lemma_collected_value(entries@, i as int);
        }
        match b.get(entries[i].0.as_str()) {
            Some(found) => {
                if !(entries[i].1 == *found) {
                    assert(app_views(a@)[entries@[i as int].0@] != app_views(b@)[entries@[i as int].0@]);
                    return false;
                }
            },
            None => {
                assert(app_views(a@).contains_key(entries@[i as int].0@));
                assert(!app_views(b@).contains_key(entries@[i as int].0@));
                return false;
            },
        }
        i += 1;
    }
    proof {
        assert forall|k: Seq<char>| a@.contains_key(k) implies b@.contains_key(k) && a@[k]@
            == b@[k]@ by {
            lemma_collected_keys(entries@, k);
            let j = choose|j: int| key_at(entries@, k, j);
            lemma_collected_value(entries@, j);
            assert(b@.contains_key(entries@[j].0@));
        }
        assert(a@.dom().subset_of(b@.dom()));
        vstd::set_lib::lemma_subset_equality(a@.dom(), b@.dom());
        assert(app_views(a@) =~= app_views(b@));
    }
    true
}

/// Whether two maps of tokens hold the same tokens under the same names.
fn same_tokens(a: &TextMap<String>, b: &TextMap<String>) -> (same: bool)
    ensures
        same == (token_views(a@) == token_views(b@)),
{
    if a.len() != b.len() {
        assert(token_views(a@).dom() =~= a@.dom());
        assert(token_views(b@).dom() =~= b@.dom());
        return false;
    }
    let entries = a.entries();
    let mut i: usize = 0;
    while i < entries.len()
        invariant
            i <= entries.len(),
            distinct_keys(entries@),
            collected(entries@) == a@,
            forall|j: int|
                0 <= j < i ==> b@.contains_key((#[trigger] entries@[j]).0@) && b@[entries@[j].0@]@
                    == entries@[j].1@,
        decreases entries.len() - i,
    {
        proof {
            lemma_collected_value(entries@, i as int);
        }
        match b.get(entries[i].0.as_str()) {
            Some(found) => {
                if !(entries[i].1 == *found) {
                    assert(token_views(a@)[entries@[i as int].0@] != token_views(b@)[entries@[i as int].0@]);
                    return false;
                }
            },
            None => {
                assert(token_views(a@).contains_key(entries@[i as int].0@));
                assert(!token_views(b@).contains_key(entries@[i as int].0@));
                return false;
            },
        }
        i += 1;
    }
    proof {
        assert forall|k: Seq<char>| a@.contains_key(k) implies b@.contains_key(k) && a@[k]@
            == b@[k]@ by {
            lemma_collected_keys(entries@, k);
            let j = choose|j: int| key_at(entries@, k, j);
            lemma_collected_value(entries@, j);
            assert(b@.contains_key(entries@[j].0@));
        }
        assert(a@.dom().subset_of(b@.dom()));
        vstd::set_lib::lemma_subset_equality(a@.dom(), b@.dom());
        assert(token_views(a@) =~= token_views(b@));
    }
    true
}

impl PartialEq for Config {
    fn eq(&self, other: &Config) -> (equal: bool) {
        same_apps(&self.apps, &other.apps) && same_tokens(&self.access_tokens, &other.access_tokens)
    }
}

impl vstd::std_specs::cmp::PartialEqSpecImpl for Config {
    open spec fn obeys_eq_spec() -> bool {
        true
    }

    /// Two stores are equal when they hold the same profiles and the same
    /// tokens under the same names.
    open spec fn eq_spec(&self, other: &Config) -> bool {
        self@ == other@
    }
}

impl Clone for Config {
    fn clone(&self) -> (copy: Self)
        ensures
            copy@ == self@,
    {
        let copy = Config { apps: self.apps.clone(), access_tokens: self.access_tokens.clone() };
        assert(copy@.apps =~= self@.apps);
        assert(copy@.access_tokens =~= self@.access_tokens);
        copy
    }
}

impl Config {
    /// The store without profiles and without tokens.
    pub fn new() -> (config: Config)
        ensures
            config@ == (ConfigView { apps: Map::empty(), access_tokens: Map::empty() }),
    {
        let config = Config { apps: TextMap::new(), access_tokens: TextMap::new() };
        assert(config@.apps =~= Map::empty());
        assert(config@.access_tokens =~= Map::empty());
        config
    }

    /// A copy of the store with `app` under its name.
    pub fn add_app(&self, app: AppConfig) -> (config: Config)
        ensures
            config@ == self@.add_app(app@),
    {
        let key = app.name.clone();
        let config = Config {
            apps: self.apps.clone().with(key, app),
            access_tokens: self.access_tokens.clone(),
        };
        assert(config@.apps =~= self@.add_app(app@).apps);
        assert(config@.access_tokens =~= self@.access_tokens);
        config
    }

    /// A copy of the store without the profile `name`.
    pub fn remove_app(&self, name: &str) -> (config: Config)
        ensures
            config@ == self@.remove_app(name@),
    {
        let config = Config {
            apps: self.apps.clone().without(name),
            access_tokens: self.access_tokens.clone(),
        };
        assert(config@.apps =~= self@.remove_app(name@).apps);
        assert(config@.access_tokens =~= self@.access_tokens);
        config
    }

    /// The profile under `app_name`.
    pub fn get_app_config(&self, app_name: &str) -> (app: Option<&AppConfig>)
        ensures
            match app {
                Some(found) => self@.app_config(app_name@) == Some(found@),
                None => self@.app_config(app_name@) is None,
            },
    {
        self.apps.get(app_name)
    }

    /// The token cached for `app_name`.
    pub fn get_access_token(&self, app_name: &str) -> (token: Option<String>)
        ensures
            optional_text(token) == self@.access_token(app_name@),
    {
        match self.access_tokens.get(app_name) {
            Some(token) => Some(token.clone()),
            None => None,
        }
    }

    /// A copy of the store with `access_token` cached for `app_name`.
    pub fn add_access_token(&self, app_name: &str, access_token: &str) -> (config: Config)
        ensures
            config@ == self@.add_access_token(app_name@, access_token@),
    {
        let config = Config {
            apps: self.apps.clone(),
            access_tokens: self.access_tokens.clone().with(
                app_name.to_owned(),
                access_token.to_owned(),
            ),
        };
        assert(config@.apps =~= self@.apps);
        assert(config@.access_tokens =~= self@.add_access_token(
            app_name@,
            access_token@,
        ).access_tokens);
        config
    }

    /// The store that the two lists describe.
    pub fn from_entries(apps: Vec<(String, AppConfig)>, access_tokens: Vec<(String, String)>) -> (config:
        Config)
        ensures
            config@ == loaded(apps@, access_tokens@),
    {
        Config {
            apps: TextMap::from_entries(apps),
            access_tokens: TextMap::from_entries(access_tokens),
        }
    }

    /// The profiles with the names they stand under, each name once.
    pub fn app_entries(&self) -> (entries: &Vec<(String, AppConfig)>)
        ensures
            distinct_keys(entries@),
            app_views(collected(entries@)) == self@.apps,
    {
        self.apps.entries()
    }

    /// The cached tokens with the names they stand under, each name once.
    pub fn access_token_entries(&self) -> (entries: &Vec<(String, String)>)
        ensures
            distinct_keys(entries@),
            token_views(collected(entries@)) == self@.access_tokens,
    {
        self.access_tokens.entries()
    }
}

} // verus!

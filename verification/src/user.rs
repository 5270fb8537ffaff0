//! User accounts as the identity provider reports them, and the selection of
//! users by pattern.

use crate::text::{is_substring, occurs_at, optional_text, str_contains};
use vstd::prelude::*;

verus! {

/// One user account of the identity provider.
#[derive(Debug)]
pub struct User {
    pub email: String,
    pub user_id: String,
    pub nickname: Option<String>,
    pub last_login: Option<String>,
}

/// The mathematical value of a [`User`]: each text as its characters.
pub struct UserView {
    pub email: Seq<char>,
    pub user_id: Seq<char>,
    pub nickname: Option<Seq<char>>,
    pub last_login: Option<Seq<char>>,
}

/// The text to show for an optional field: its characters, or nothing where
/// the field is not set.
pub open spec fn shown_text(text: Option<Seq<char>>) -> Seq<char> {
    match text {
        Some(s) => s,
        None => Seq::empty(),
    }
}

impl View for User {
    type V = UserView;

    open spec fn view(&self) -> UserView {
        UserView {
            email: self.email@,
            user_id: self.user_id@,
            nickname: optional_text(self.nickname),
            last_login: optional_text(self.last_login),
        }
    }
}

impl UserView {
    /// A pattern selects a user when it is a substring of the user's email
    /// address or of the user's id. The comparison is case-sensitive.
    pub open spec fn matches(self, pattern: Seq<char>) -> bool {
        is_substring(pattern, self.email) || is_substring(pattern, self.user_id)
    }

    /// The four cells of the user's line in a listing.
    pub open spec fn table_row(self) -> Seq<Seq<char>> {
        seq![self.email, self.user_id, shown_text(self.nickname), shown_text(self.last_login)]
    }
}

/// The values of a sequence of users.
pub open spec fn user_views(users: Seq<User>) -> Seq<UserView> {
    users.map_values(|u: User| u@)
}

/// The test that `pattern` puts to a user.
pub open spec fn selects(pattern: Seq<char>) -> spec_fn(UserView) -> bool {
    |u: UserView| u.matches(pattern)
}

/// The users among `users` that `pattern` selects, in their order.
pub open spec fn selected_by(users: Seq<UserView>, pattern: Seq<char>) -> Seq<UserView> {
    users.filter(selects(pattern))
}

/// The empty pattern selects every user, and so do the whole email address
/// and the whole id of a user.
pub proof fn lemma_matches_whole_fields(user: UserView)
    ensures
        user.matches(Seq::empty()),
        user.matches(user.email),
        user.matches(user.user_id),
{
    assert(user.email.subrange(0, 0) =~= Seq::<char>::empty());
    assert(occurs_at(user.email, Seq::empty(), 0));
    assert(user.email.subrange(0, user.email.len() as int) =~= user.email);
    assert(occurs_at(user.email, user.email, 0));
    assert(user.user_id.subrange(0, user.user_id.len() as int) =~= user.user_id);
    assert(occurs_at(user.user_id, user.user_id, 0));
}

/// Selection is complete and takes nobody twice: a user that the pattern
/// selects stands among the selected as often as among `users`, and a user
/// that it does not select does not stand among them.
pub proof fn lemma_selection_complete(users: Seq<UserView>, pattern: Seq<char>, user: UserView)
    ensures
        selected_by(users, pattern).to_multiset().count(user) == if user.matches(pattern) {
            users.to_multiset().count(user)
        } else {
            0
        },
    decreases users.len(),
{
    broadcast use vstd::seq_lib::to_multiset_build;

    if users.len() == 0 {
        assert(selected_by(users, pattern) =~= users);
        users.to_multiset_ensures();
        assert(!users.contains(user));
    } else {
        let front = users.drop_last();
        let last = users.last();
        assert(users =~= front.push(last));
        lemma_selection_complete(front, pattern, user);
        front.lemma_filter_push(last, selects(pattern));
    }
}

/// Nobody else is selected: each of the selected is a user of the list and
/// matches the pattern.
pub proof fn lemma_selected_match(users: Seq<UserView>, pattern: Seq<char>, i: int)
    requires
        0 <= i < selected_by(users, pattern).len(),
    ensures
        selected_by(users, pattern)[i].matches(pattern),
        users.contains(selected_by(users, pattern)[i]),
{
    users.lemma_filter_pred(selects(pattern), i);
    let chosen = selected_by(users, pattern)[i];
    assert(selected_by(users, pattern).contains(chosen));
    users.lemma_filter_contains_rev(selects(pattern), chosen);
}

fn clone_optional(text: &Option<String>) -> (copy: Option<String>)
    ensures
        copy == *text,
{
    match text {
        Some(s) => Some(s.clone()),
        None => None,
    }
}

fn shown(text: &Option<String>) -> (cell: String)
    ensures
        cell@ == shown_text(optional_text(*text)),
{
    match text {
        Some(s) => s.clone(),
        None => String::new(),
    }
}

impl Clone for User {
    fn clone(&self) -> (copy: Self)
        ensures
            copy == *self,
    {
        User {
            email: self.email.clone(),
            user_id: self.user_id.clone(),
            nickname: clone_optional(&self.nickname),
            last_login: clone_optional(&self.last_login),
        }
    }
}

impl User {
    /// The texts of the user's line in a listing: email, id, nickname and
    /// last login, the last two empty where they are not set.
    pub fn to_table_row(&self) -> (cells: Vec<String>)
        ensures
            cells@.map_values(|cell: String| cell@) == self@.table_row(),
    {
        let mut cells: Vec<String> = Vec::new();
        cells.push(self.email.clone());
        cells.push(self.user_id.clone());
        cells.push(shown(&self.nickname));
        cells.push(shown(&self.last_login));
        assert(cells@.map_values(|cell: String| cell@) =~= self@.table_row());
        cells
    }

    /// Whether `pattern` is a substring of the email address or of the id.
    pub fn matches(&self, pattern: &str) -> (matched: bool)
        ensures
            matched == self@.matches(pattern@),
    {
        str_contains(self.email.as_str(), pattern) || str_contains(self.user_id.as_str(), pattern)
    }
}

/// Copies out of `users` those that `pattern` selects, keeping their order
/// and keeping each as often as it occurs.
pub fn matching_users(users: &Vec<User>, pattern: &str) -> (selected: Vec<User>)
    ensures
        user_views(selected@) == selected_by(user_views(users@), pattern@),
{
    let mut selected: Vec<User> = Vec::new();
    let mut i: usize = 0;
    assert(user_views(users@.take(0)) =~= Seq::<UserView>::empty());
    while i < users.len()
        invariant
            i <= users.len(),
            user_views(selected@) == selected_by(user_views(users@.take(i as int)), pattern@),
        decreases users.len() - i,
    {
        let user = &users[i];
        let ghost before = user_views(users@.take(i as int));
        proof {
            assert(user_views(users@.take(i + 1)) =~= before.push(user@));
            before.lemma_filter_push(user@, selects(pattern@));
        }
        if user.matches(pattern) {
            let ghost chosen = user_views(selected@);
            selected.push(user.clone());
            assert(user_views(selected@) =~= chosen.push(user@));
        }
        i += 1;
    }
    assert(users@.take(users.len() as int) =~= users@);
    selected
}

} // verus!

//! Administrator accounts.

use crate::error::Error;
use crate::models::{option_view, User, UserView};
use crate::schema::{Database, DatabaseView, UserRow, UserRowView};
use crate::table::{
    first_match, lemma_first_match_is, lemma_first_match_none, lemma_push_is_found,
    live_position_of, live_with_id, position_of, with_id,
};
use crate::time::Timestamp;
use crate::wellformed::lemma_with_user_wf;
use vstd::prelude::*;

verus! {

/// User rows with the name `username`, deleted or not.
pub open spec fn named(username: Seq<char>) -> spec_fn(UserRowView) -> bool {
    |row: UserRowView| row.user.username == username
}

/// Live user rows with the name `username`.
pub open spec fn live_named(username: Seq<char>) -> spec_fn(UserRowView) -> bool {
    |row: UserRowView| row.user.username == username && row.deleted_at is None
}

/// The row of an account created at `now`; `password` is the hash.
pub open spec fn new_user_row(
    id: Seq<char>,
    now: Timestamp,
    username: Seq<char>,
    password: Seq<char>,
) -> UserRowView {
    UserRowView {
        user: UserView { id, username, password, created_at: now, updated_at: now },
        deleted_at: None,
    }
}

impl DatabaseView {
    /// The live account with the name `username`.
    pub open spec fn user_named(self, username: Seq<char>) -> Option<UserView> {
        match first_match(self.users, live_named(username)) {
            Some(i) => Some(self.users[i].user),
            None => None,
        }
    }

    /// The live account with the identity `id`.
    pub open spec fn user(self, id: Seq<char>) -> Option<UserView> {
        match first_match(self.users, live_with_id::<UserRow>(id)) {
            Some(i) => Some(self.users[i].user),
            None => None,
        }
    }

    /// An account cannot be added under the identity `id` and the name
    /// `username`: a row, deleted or not, has the identity or the name.
    pub open spec fn user_refused(self, id: Seq<char>, username: Seq<char>) -> bool {
        first_match(self.users, with_id::<UserRow>(id)) is Some || first_match(
            self.users,
            named(username),
        ) is Some
    }

    /// The store after `row` was added to the accounts.
    pub open spec fn with_user(self, row: UserRowView) -> DatabaseView {
        DatabaseView { users: self.users.push(row), ..self }
    }
}

/// The live account with the name `username`.
pub fn find_user_by_username(db: &Database, username: &str) -> (r: Option<User>)
    ensures
        option_view(r) == db@.user_named(username@),
{
    let key = username.to_owned();
    let mut i: usize = 0;
    while i < db.users.len()
        invariant
            i <= db.users.len(),
            key@ == username@,
            forall|j: int| 0 <= j < i ==> !live_named(username@)(#[trigger] db@.users[j]),
        decreases db.users.len() - i,
    {
        if db.users[i].user.username == key && db.users[i].deleted_at.is_none() {
            proof {
                lemma_first_match_is(db@.users, live_named(username@), i as int);
            }
            return Some(db.users[i].user.clone());
        }
        i = i + 1;
    }
    proof {
        lemma_first_match_none(db@.users, live_named(username@));
    }
    None
}

/// The live account with the identity `id`.
pub fn find_user_by_id(db: &Database, id: &str) -> (r: Option<User>)
    ensures
        option_view(r) == db@.user(id@),
{
    let key = id.to_owned();
    match live_position_of(&db.users, &key) {
        Some(i) => Some(db.users[i].user.clone()),
        None => None,
    }
}

fn name_taken(db: &Database, username: &String) -> (b: bool)
    ensures
        b == (first_match(db@.users, named(username@)) is Some),
{
    let mut i: usize = 0;
    while i < db.users.len()
        invariant
            i <= db.users.len(),
            forall|j: int| 0 <= j < i ==> !named(username@)(#[trigger] db@.users[j]),
        decreases db.users.len() - i,
    {
        if db.users[i].user.username == *username {
            proof {
                lemma_first_match_is(db@.users, named(username@), i as int);
            }
            return true;
        }
        i = i + 1;
    }
    proof {
        lemma_first_match_none(db@.users, named(username@));
    }
    false
}

/// Adds an account under the identity `id` at `now`; `password` is the
/// hash of the password, not the password.
///
/// `Storage` comes back, and the store is left as it was, when a row has
/// the identity or the name already.
pub fn create_user(db: &mut Database, id: &str, now: Timestamp, username: &str, password: &str) -> (r:
    Result<User, Error>)
    ensures
        match r {
            Ok(user) => {
                &&& !old(db)@.user_refused(id@, username@)
                &&& final(db)@ == old(db)@.with_user(new_user_row(id@, now, username@, password@))
                &&& user@ == new_user_row(id@, now, username@, password@).user
                &&& final(db)@.user(id@) == Some(user@)
            },
            Err(e) => {
                &&& e == Error::Storage
                &&& old(db)@.user_refused(id@, username@)
                &&& final(db)@ == old(db)@
            },
        },
        old(db)@.wf() ==> final(db)@.wf(),
{
    proof {
        if db@.wf() && !db@.user_refused(id@, username@) {
            lemma_with_user_wf(db@, new_user_row(id@, now, username@, password@));
        }
    }
    let key = id.to_owned();
    let name = username.to_owned();
    if position_of(&db.users, &key).is_some() || name_taken(db, &name) {
        return Err(Error::Storage);
    }
    let user = User {
        id: key,
        username: name,
        password: password.to_owned(),
        created_at: now,
        updated_at: now,
    };
    let row = UserRow { user: user.clone(), deleted_at: None };
    let ghost before = db@.users;
    proof {
        lemma_push_is_found::<UserRow>(before, row@);
    }
    db.users.push(row);
    assert(db@.users =~= before.push(new_user_row(id@, now, username@, password@)));
    Ok(user)
}

} // verus!

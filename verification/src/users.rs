//! User records and two ways to make one.

use vstd::prelude::*;

verus! {

#[derive(Clone, Debug)]
pub struct User {
    pub active: bool,
    pub user_name: String,
    pub id: i32,
    pub email: String,
}

/// The id that every new user starts with.
pub const INITIAL_ID: i32 = 12345;

/// A new, active user with the initial id.
pub fn create_user(email: String, user_name: String) -> (user: User)
    ensures
        user.active,
        user.user_name == user_name,
        user.id == INITIAL_ID,
        user.email == email,
{
    User { active: true, user_name, id: INITIAL_ID, email }
}

/// The same user, no longer active.
pub fn create_user_from_existing(user_1: User) -> (user: User)
    ensures
        !user.active,
        user.user_name == user_1.user_name,
        user.id == user_1.id,
        user.email == user_1.email,
{
    let user_more = User { active: false, ..user_1 };
    user_more
}

} // verus!

use vstd::prelude::*;

verus! {

/// The age that `build_user` gives every new user.
pub const DEFAULT_AGE: u8 = 24;

/// A user account.
pub struct User {
    pub name: String,
    pub email: String,
    pub age: u8,
}

/// A user with the given name and email, of the default age.
pub fn build_user(name: String, email: String) -> (u: User)
    ensures
        u.name == name,
        u.email == email,
        u.age == DEFAULT_AGE,
{
    User { name, email, age: DEFAULT_AGE }
}

} // verus!

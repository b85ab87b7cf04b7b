//! The root of the query interface, as far as it decides anything itself.

use vstd::prelude::*;
use crate::user::User;

verus! {

/// Who is asking.
#[derive(Debug)]
pub enum AuthContext {
    /// Nobody who logged in.
    Anonymous,
    /// A trusted external application.
    TrustedExternal,
    /// A logged-in user.
    User(User),
}

/// What a query is answered with.
#[derive(Debug)]
pub struct Context {
    pub auth: AuthContext,
}

/// The root query object.
pub struct Query;

impl Query {
    /// Returns the current user, if a user is logged in.
    pub fn current_user(context: &Context) -> (r: Option<&User>)
        ensures
            r == match context.auth {
                AuthContext::User(user) => Some(&user),
                _ => None,
            },
    {
        match &context.auth {
            AuthContext::User(user) => Some(user),
            _ => None,
        }
    }
}

} // verus!

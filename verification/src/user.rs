//! The one record type the service stores: an optional numeric
//! identifier, a name and an email address, both held as the bytes of
//! their text.
use vstd::prelude::*;

verus! {

/// A user record. `id` is `None` only on inbound create payloads; the
/// store assigns the identifier and never changes it afterwards.
pub struct User {
    pub id: Option<i32>,
    pub name: Vec<u8>,
    pub email: Vec<u8>,
}

/// The mathematical shape of a user record.
pub struct UserView {
    pub id: Option<int>,
    pub name: Seq<u8>,
    pub email: Seq<u8>,
}

impl View for User {
    type V = UserView;

    open spec fn view(&self) -> UserView {
        UserView {
            id: match self.id {
                Some(n) => Some(n as int),
                None => None,
            },
            name: self.name@,
            email: self.email@,
        }
    }
}

impl Clone for User {
    /// A clone carries the same identifier, name and email.
    fn clone(&self) -> (r: Self)
        ensures
            r@ == self@,
    {
        User { id: self.id, name: self.name.clone(), email: self.email.clone() }
    }
}

/// The two fields of an inbound create or update payload: what a user
/// looks like before the store has named it.
pub struct UserInput {
    pub name: Vec<u8>,
    pub email: Vec<u8>,
}

impl Clone for UserInput {
    /// A clone carries the same name and email.
    fn clone(&self) -> (r: Self)
        ensures
            r.name@ == self.name@,
            r.email@ == self.email@,
    {
        UserInput { name: self.name.clone(), email: self.email.clone() }
    }
}

} // verus!

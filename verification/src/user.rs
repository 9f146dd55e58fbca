//! The user identity whose fields are denormalized into a claim set at
//! issuance time.

use vstd::prelude::*;
use crate::claims::UserJWT;

verus! {

/// A user record as the rest of the service knows it.
pub struct User {
    pub id: String,
    pub username: String,
    pub display_name: String,
    pub email: Option<String>,
    pub profile_picture: Option<String>,
    pub permissions: Vec<String>,
}

/// The mathematical shape of a user identity.
#[verifier::ext_equal]
pub ghost struct UserView {
    pub id: Seq<char>,
    pub username: Seq<char>,
    pub display_name: Seq<char>,
    pub email: Option<Seq<char>>,
    pub profile_picture: Option<Seq<char>>,
    pub permissions: Seq<Seq<char>>,
}

impl View for User {
    type V = UserView;

    open spec fn view(&self) -> UserView {
        UserView {
            id: self.id@,
            username: self.username@,
            display_name: self.display_name@,
            email: self.email.deep_view(),
            profile_picture: self.profile_picture.deep_view(),
            permissions: self.permissions.deep_view(),
        }
    }
}

impl User {
    /// Recovers the identity that a verified claim set denormalizes: the
    /// subject becomes the id, the presentation fields and the permission
    /// list are copied back, and the email (never embedded in a token) is
    /// absent.
    pub fn from_jwt(jwt: &UserJWT) -> (u: User)
        ensures
            u@.id == jwt.sub@,
            u@.username == jwt.name@,
            u@.display_name == jwt.display_name@,
            u@.email is None,
            u@.profile_picture == Some(jwt.picture@),
            u@.permissions == jwt.scope.deep_view(),
    {
        let permissions = jwt.scope.clone();
        proof {
            assert(permissions.deep_view() =~= jwt.scope.deep_view());
        }
        User {
            id: jwt.sub.clone(),
            username: jwt.name.clone(),
            display_name: jwt.display_name.clone(),
            email: None,
            profile_picture: Some(jwt.picture.clone()),
            permissions,
        }
    }
}

} // verus!

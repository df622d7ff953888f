//! Password hashing with bcrypt, and the sign-in check built on it.
use vstd::prelude::*;
use crate::databasespec::{User, UserView, opt_view, clone_perms};
use crate::status::{UNAUTHORIZED, INTERNAL_SERVER_ERROR};

verus! {

#[verifier::external_type_specification]
#[verifier::external_body]
pub struct ExBcryptError(bcrypt::BcryptError);

/// What `bcrypt::verify` answers for a password and a stored hash: `None`
/// where it fails (a malformed hash), else whether the password matches.
pub uninterp spec fn bcrypt_verify(password: Seq<char>, hash: Seq<char>) -> Option<bool>;

/// Calls `bcrypt::hash` with the default cost. The salt is drawn from the
/// operating system's randomness, so nothing is said of which hash comes
/// back, nor whether drawing the salt succeeds; the contract claims only
/// what the crate's source shows of every hash it returns: `bcrypt::verify`
/// accepts the same password against it (the hash records its cost and salt,
/// and verifying recomputes the same digest).
#[verifier::external_body]
pub(crate) fn hash_password(password: &str) -> (r: Result<String, bcrypt::BcryptError>)
    ensures
        r matches Ok(h) ==> bcrypt_verify(password@, h@) == Some(true),
{
    bcrypt::hash(password, bcrypt::DEFAULT_COST)
}

/// Calls `bcrypt::verify`: checks a password against a stored hash. The
/// answer depends on the two strings alone and is named `bcrypt_verify`.
#[verifier::external_body]
pub fn verify_password(password: String, hash: String) -> (r: Result<bool, bcrypt::BcryptError>)
    ensures
        r is Ok <==> bcrypt_verify(password@, hash@) is Some,
        r matches Ok(b) ==> bcrypt_verify(password@, hash@) == Some(b),
{
    bcrypt::verify(password, &hash)
}

/// The outcome of signing in with `password` as the user that the store
/// gave back (if any): 401 without a user or with a wrong password, 500
/// where the hash cannot be checked, and otherwise the user without its hash.
pub open spec fn sign_in_outcome(user: Option<UserView>, password: Seq<char>) -> Result<
    UserView,
    u16,
> {
    match user {
        None => Err(401),
        Some(u) => match bcrypt_verify(password, u.password_hash.unwrap()) {
            None => Err(500),
            Some(false) => Err(401),
            Some(true) => Ok(UserView { password_hash: None, ..u }),
        },
    }
}

/// Checks a sign-in: the user found for the name, then the password against
/// its hash. The user must carry a hash.
pub fn sign_in_check(user: Option<User>, password: String) -> (r: Result<User, u16>)
    requires
        user matches Some(u) ==> u.password_hash is Some,
    ensures
        match r {
            Ok(u) => sign_in_outcome(
                match user {
                    Some(v) => Some(v@),
                    None => None,
                },
                password@,
            ) == Ok::<UserView, u16>(u@),
            Err(e) => sign_in_outcome(
                match user {
                    Some(v) => Some(v@),
                    None => None,
                },
                password@,
            ) == Err::<UserView, u16>(e),
        },
{
    match user {
        None => Err(UNAUTHORIZED),
        Some(u) => {
            let hash = clone_opt_some(&u.password_hash);
            match verify_password(password, hash) {
                Err(_) => Err(INTERNAL_SERVER_ERROR),
                Ok(false) => Err(UNAUTHORIZED),
                Ok(true) => {
                    let signed = User {
                        username: u.username.clone(),
                        password_hash: None,
                        user_perms: clone_perms(&u.user_perms),
                    };
                    Ok(signed)
                },
            }
        },
    }
}

fn clone_opt_some(o: &Option<String>) -> (r: String)
    requires
        o is Some,
    ensures
        opt_view(*o) == Some(r@),
{
    match o {
        Some(s) => s.clone(),
        None => String::new(),
    }
}

} // verus!

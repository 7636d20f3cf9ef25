//! Account creation, login and logout.
//!
//! Password hashing is an external primitive: callers hand in the hash
//! when creating an account and the result of the hash comparison when
//! completing a login, so every decision around them is verified.

use vstd::prelude::*;

use crate::config::Config;
use crate::errors::{BaseError, ErrorKind, FieldError};
use crate::jwt::{login_token_of, JWT};
use crate::store::{
    chars_list_has, chars_of_list, spec_find_user_by_email, token_live, Store,
};
use crate::types::{email_pattern, email_shaped, regex_compiles, regex_match};
use crate::user::User;
use vstd::string::StrSliceExecFns;

verus! {

/// Sign-up data: an address and a password in the clear; the password
/// leaves the core only as a hash.
pub struct CreateInputData {
    pub email: String,
    pub password: String,
}

/// Login data.
pub struct LoginInputData {
    pub email: String,
    pub password: String,
}

/// An address alone.
pub struct EmailInputData {
    pub email: String,
}

/// A password alone.
pub struct PasswordInputData {
    pub password: String,
}

/// What sign-up and login ask of their input: an address of the usual
/// shape and a password of at least six characters.
pub open spec fn credentials_valid(email: Seq<char>, password: Seq<char>) -> bool {
    &&& regex_match(email_pattern(), email)
    &&& password.len() >= 6
}

/// Checks an email/password pair, collecting the field messages.
fn validate_credentials(email: &String, password: &String) -> (r: Result<(), BaseError>)
    ensures
        regex_compiles(email_pattern()) ==> (r is Ok <==> credentials_valid(email@, password@)),
        !regex_compiles(email_pattern()) ==> r is Err,
        r matches Err(e) ==> (e.kind == ErrorKind::ValidationFailure && e.message@ == ""@
            && (e.fields matches Some(fs) && fs@.len() >= 1)),
{
    let mut fields: Vec<FieldError> = Vec::new();
    let email_ok = match email_shaped(email.as_str()) {
        Some(b) => b,
        None => false,
    };
    if !email_ok {
        fields.push(
            FieldError { field: "email".to_owned(), message: "Email is invalid".to_owned() },
        );
    }
    let password_ok = password.as_str().unicode_len() >= 6;
    if !password_ok {
        fields.push(
            FieldError { field: "password".to_owned(), message: "Password is invalid".to_owned() },
        );
    }
    if email_ok && password_ok {
        Ok(())
    } else {
        Err(BaseError::validation(fields))
    }
}

/// Exactly `token` stops being live for `user_id`; everything else is as
/// it was.
pub open spec fn revoked_exactly(
    old_tokens: Seq<crate::user::TokenRecordModel>,
    new_tokens: Seq<crate::user::TokenRecordModel>,
    user_id: u64,
    token: Seq<char>,
) -> bool {
    forall|u: u64, t: Seq<char>|
        #[trigger] token_live(new_tokens, u, t) <==> (token_live(old_tokens, u, t) && !(u
            == user_id && t == token))
}

/// Removes `token` from `user_id`'s live set; a token already absent is a
/// silent success.  Takes the subject of the credential as an argument,
/// so the removal itself is verified.
pub fn revoke_for_user(store: &mut Store, user_id: u64, token: &str) -> (r: Result<(), BaseError>)
    requires
        old(store).wf(),
    ensures
        final(store).wf(),
        r is Ok,
        revoked_exactly(
            old(store).tokens_view(),
            final(store).tokens_view(),
            user_id,
            token@,
        ),
        final(store).forms_view() == old(store).forms_view(),
        final(store).resps_view() == old(store).resps_view(),
        final(store).subs_view() == old(store).subs_view(),
        final(store).users_view() == old(store).users_view(),
        final(store).spec_next_id() == old(store).spec_next_id(),
{
    let mut list: Vec<String> = Vec::new();
    list.push(token.to_owned());
    let r = store.remove_user_tokens(user_id, &list);
    proof {
        assert forall|t: Seq<char>|
            chars_list_has(chars_of_list(list@), t) <==> t == token@ by {
            if chars_list_has(chars_of_list(list@), t) {
                let i = choose|i: int|
                    0 <= i < chars_of_list(list@).len() && chars_of_list(list@)[i] == t;
                assert(chars_of_list(list@)[0] == token@);
            } else {
                assert(chars_of_list(list@)[0] == token@);
            }
        }
    }
    r
}

/// Creates accounts, issues credentials, revokes them.
pub struct AuthService {
    jwt: JWT,
}

impl AuthService {
    /// The signing secret, as a value for contracts.
    pub closed spec fn spec_secret(&self) -> Seq<char> {
        self.jwt.secret_chars()
    }

    pub fn new(config: &Config) -> (r: AuthService)
        ensures
            r.spec_secret() == config.jwt_secret_key@,
    {
        AuthService { jwt: JWT::new(config) }
    }

    /// Creates an account.  The caller hashes the password and hands in
    /// hash and algorithm tag; the core validates, rejects duplicate
    /// addresses, and stores the record.
    pub fn create(
        &self,
        store: &mut Store,
        signup_data: CreateInputData,
        password_alg: String,
        password_hash: String,
        now: u64,
    ) -> (r: Result<u64, BaseError>)
        requires
            old(store).wf(),
        ensures
            final(store).wf(),
            regex_compiles(email_pattern()) ==> (r is Ok <==> {
                &&& credentials_valid(signup_data.email@, signup_data.password@)
                &&& spec_find_user_by_email(old(store).users_view(), signup_data.email@) is None
                &&& old(store).spec_next_id() < u64::MAX
            }),
            r matches Ok(id) ==> {
                &&& id == old(store).spec_next_id()
                &&& final(store).users_view() == old(store).users_view().push(
                    crate::user::UserModel {
                        id: id,
                        email: signup_data.email@,
                        password_alg: password_alg@,
                        password_hash: password_hash@,
                        created_at: now,
                    },
                )
                &&& final(store).spec_next_id() == old(store).spec_next_id() + 1
            },
            r is Err ==> *final(store) == *old(store),
            regex_compiles(email_pattern()) && !credentials_valid(
                signup_data.email@,
                signup_data.password@,
            ) ==> (r matches Err(e) && e.kind == ErrorKind::ValidationFailure),
            r matches Err(e) ==> (e.kind == ErrorKind::ValidationFailure ==> (e.message@ == ""@
                && (e.fields matches Some(fs) && fs@.len() >= 1))),
            regex_compiles(email_pattern()) && credentials_valid(
                signup_data.email@,
                signup_data.password@,
            ) && spec_find_user_by_email(old(store).users_view(), signup_data.email@) is Some ==> (
            r matches Err(e) && e.kind == ErrorKind::Conflict),
            final(store).forms_view() == old(store).forms_view(),
            final(store).resps_view() == old(store).resps_view(),
            final(store).subs_view() == old(store).subs_view(),
            final(store).tokens_view() == old(store).tokens_view(),
    {
        match validate_credentials(&signup_data.email, &signup_data.password) {
            Ok(_) => (),
            Err(e) => {
                return Err(e);
            },
        }
        match store.insert_user(signup_data.email, password_hash, password_alg, now) {
            Ok(id) => Ok(id),
            Err(e) => Err(e),
        }
    }

    /// First half of a login: validates the input and resolves the
    /// account by email, so the caller can compare the password against
    /// the stored hash.
    pub fn login_begin(&self, store: &Store, data: &LoginInputData) -> (r: Result<User, BaseError>)
        ensures
            regex_compiles(email_pattern()) ==> (r is Ok <==> {
                &&& credentials_valid(data.email@, data.password@)
                &&& spec_find_user_by_email(store.users_view(), data.email@) is Some
            }),
            r matches Ok(u) ==> Some(u@) == spec_find_user_by_email(
                store.users_view(),
                data.email@,
            ),
            regex_compiles(email_pattern()) && !credentials_valid(data.email@, data.password@)
                ==> (r matches Err(e) && e.kind == ErrorKind::ValidationFailure),
            r matches Err(e) ==> (e.kind == ErrorKind::ValidationFailure ==> (e.message@ == ""@
                && (e.fields matches Some(fs) && fs@.len() >= 1))),
            regex_compiles(email_pattern()) && credentials_valid(data.email@, data.password@)
                && spec_find_user_by_email(store.users_view(), data.email@) is None ==> (
            r matches Err(e) && e.kind == ErrorKind::NotFound),
    {
        match validate_credentials(&data.email, &data.password) {
            Ok(_) => (),
            Err(e) => {
                return Err(e);
            },
        }
        match store.find_user_by_email(data.email.as_str()) {
            Some(u) => Ok(u),
            None => Err(BaseError::not_found("User not found".to_owned())),
        }
    }

    /// Second half of a login: takes the outcome of the password
    /// comparison, and on a match issues a seven-day credential and
    /// stores it as the one live WEB token of the account, superseding
    /// any earlier one.  With the password in order the login succeeds.
    pub fn login_finish(&self, store: &mut Store, user: &User, password_ok: bool, now: u64) -> (r:
        Result<String, BaseError>)
        requires
            old(store).wf(),
            now <= crate::MAX_EPOCH_SECONDS,
        ensures
            final(store).wf(),
            r is Ok <==> password_ok,
            !password_ok ==> (r matches Err(e) && e.kind == ErrorKind::Unauthenticated
                && *final(store) == *old(store)),
            r matches Ok(t) ==> {
                &&& password_ok
                &&& t@ == login_token_of(self.spec_secret(), user.id, now)
                &&& token_live(final(store).tokens_view(), user.id, t@)
                &&& forall|t2: Seq<char>|
                    #[trigger] token_live(final(store).tokens_view(), user.id, t2) <==> (t2 == t@
                        || exists|j: int|
                        0 <= j < old(store).tokens_view().len() && (#[trigger] old(
                            store,
                        ).tokens_view()[j]).user_id == user.id && old(store).tokens_view()[j].token
                            == t2 && old(store).tokens_view()[j].used_for != "WEB"@)
                &&& forall|u: u64, t2: Seq<char>|
                    u != user.id ==> (#[trigger] token_live(final(store).tokens_view(), u, t2)
                        <==> token_live(old(store).tokens_view(), u, t2))
            },
            r is Err ==> *final(store) == *old(store),
            final(store).forms_view() == old(store).forms_view(),
            final(store).resps_view() == old(store).resps_view(),
            final(store).subs_view() == old(store).subs_view(),
            final(store).users_view() == old(store).users_view(),
            final(store).spec_next_id() == old(store).spec_next_id(),
    {
        if !password_ok {
            return Err(BaseError::unauthenticated("Password is incorrect".to_owned()));
        }
        let access_token = match self.jwt.login(user, now) {
            Ok(t) => t,
            Err(e) => {
                return Err(e);
            },
        };
        match store.upsert_user_token(user.id, access_token.clone(), "WEB".to_owned()) {
            Ok(_) => Ok(access_token),
            Err(e) => Err(e),
        }
    }

    /// Logout: checks only that the credential is well signed, then
    /// removes exactly that token string from the subject's live set.
    /// Revoking a token that is not live is a silent success.
    pub fn revoke_token(&self, store: &mut Store, token: &str) -> (r: Result<(), BaseError>)
        requires
            old(store).wf(),
        ensures
            final(store).wf(),
            r matches Err(e) ==> (e.kind == ErrorKind::Unauthenticated
                && *final(store) == *old(store)),
            r is Ok ==> exists|uid: u64|
                #[trigger] revoked_exactly(
                    old(store).tokens_view(),
                    final(store).tokens_view(),
                    uid,
                    token@,
                ),
            final(store).forms_view() == old(store).forms_view(),
            final(store).resps_view() == old(store).resps_view(),
            final(store).subs_view() == old(store).subs_view(),
            final(store).users_view() == old(store).users_view(),
            final(store).spec_next_id() == old(store).spec_next_id(),
    {
        let claims = match self.jwt.parse(token, None) {
            Ok(c) => c,
            Err(e) => {
                return Err(e);
            },
        };
        let r = revoke_for_user(store, claims.sub, token);
        proof {
            assert(revoked_exactly(
                old(store).tokens_view(),
                store.tokens_view(),
                claims.sub,
                token@,
            ));
        }
        r
    }
}

} // verus!

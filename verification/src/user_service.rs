//! Resolving the calling account from a bearer credential.
//!
//! A credential authenticates only if its signature and expiry check out,
//! its purpose tag is Login, the named account exists, and the credential
//! is in that account's live set.  The last test is the revocation
//! mechanism: logout and supersession remove a token from the live set
//! even while it is cryptographically unexpired.

use vstd::prelude::*;

use crate::config::Config;
use crate::errors::{BaseError, ErrorKind};
use crate::jwt::{Claims, ClaimType, JWT};
use crate::store::{spec_find_user, token_live, Store};
use crate::user::User;

verus! {

/// Whether the claim set `c`, carried by the bearer string `token`,
/// authenticates against `s`: a Login claim naming an existing account
/// whose live set holds `token`.
pub open spec fn claims_authenticate(s: Store, c: Claims, token: Seq<char>) -> bool {
    &&& c.claim_type@ == "Login"@
    &&& spec_find_user(s.users_view(), c.sub) is Some
    &&& token_live(s.tokens_view(), c.sub, token)
}

/// Decides what a decoded claim set means: the account it names, or the
/// exact failure.  Takes the outcome of the credential check as an
/// argument, so the decision itself is verified for every outcome.
pub fn resolve_user(store: &Store, claims: Option<Claims>, token: &str) -> (r: Result<
    User,
    BaseError,
>)
    ensures
        claims is None ==> (r matches Err(e) && e.kind == ErrorKind::Unauthenticated),
        claims matches Some(c) ==> {
            &&& (r is Ok <==> claims_authenticate(*store, c, token@))
            &&& (r matches Ok(u) ==> Some(u@) == spec_find_user(store.users_view(), c.sub))
            &&& (c.claim_type@ != "Login"@ ==> (r matches Err(e) && e.kind
                == ErrorKind::Unauthenticated))
            &&& (c.claim_type@ == "Login"@ && spec_find_user(store.users_view(), c.sub) is None
                ==> (r matches Err(e) && e.kind == ErrorKind::NotFound))
            &&& (c.claim_type@ == "Login"@ && spec_find_user(store.users_view(), c.sub) is Some
                && !token_live(store.tokens_view(), c.sub, token@) ==> (r matches Err(e) && e.kind
                == ErrorKind::Unauthenticated && e.message@ == "Token is expired"@))
        },
        r matches Err(e) ==> (e.kind == ErrorKind::Unauthenticated || e.kind == ErrorKind::NotFound),
{
    let c = match claims {
        Some(c) => c,
        None => {
            return Err(BaseError::unauthenticated("Token is not valid".to_owned()));
        },
    };
    if !crate::types::str_eq(c.claim_type.as_str(), "Login") {
        return Err(BaseError::unauthenticated("Token is not valid".to_owned()));
    }
    let user = match store.find_user_by_id(c.sub) {
        Some(u) => u,
        None => {
            return Err(BaseError::not_found("User not found".to_owned()));
        },
    };
    if store.token_is_live(c.sub, token) {
        Ok(user)
    } else {
        Err(BaseError::unauthenticated("Token is expired".to_owned()))
    }
}

/// Resolves the calling account behind one bearer string.
pub struct UserService {
    jwt: JWT,
    token: String,
}

impl UserService {
    /// The bearer string this service checks, as a value for contracts.
    pub closed spec fn spec_token(&self) -> Seq<char> {
        self.token@
    }

    /// The signing secret, as a value for contracts.
    pub closed spec fn spec_secret(&self) -> Seq<char> {
        self.jwt.secret_chars()
    }

    pub fn new(config: &Config, token: String) -> (r: UserService)
        ensures
            r.spec_token() == token@,
            r.spec_secret() == config.jwt_secret_key@,
    {
        UserService { jwt: JWT::new(config), token }
    }

    /// The account behind this service's credential: checks signature and
    /// expiry, the Login tag, the account's existence, and membership in
    /// the live set.
    pub fn get_current_user(&self, store: &Store) -> (r: Result<User, BaseError>)
        ensures
            r matches Ok(u) ==> exists|c: Claims|
                #[trigger] claims_authenticate(*store, c, self.spec_token()) && Some(u@)
                    == spec_find_user(store.users_view(), c.sub),
            r matches Err(e) ==> (e.kind == ErrorKind::Unauthenticated || e.kind
                == ErrorKind::NotFound),
    {
        let claims = match self.jwt.parse(self.token.as_str(), Some(ClaimType::Login)) {
            Ok(c) => Some(c),
            Err(_) => None,
        };
        let ghost gc = claims;
        let r = resolve_user(store, claims, self.token.as_str());
        proof {
            if r is Ok {
                let c = gc->Some_0;
                assert(claims_authenticate(*store, c, self.spec_token()));
            }
        }
        r
    }
}

} // verus!

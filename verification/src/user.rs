//! Accounts and their live session tokens.

use vstd::prelude::*;

verus! {

/// One live bearer credential of a user, tagged with its device label.
#[derive(Debug)]
pub struct UserToken {
    pub token: String,
    pub used_for: String,
}

/// The mathematical value of a token entry.
#[verifier::ext_equal]
pub struct UserTokenModel {
    pub token: Seq<char>,
    pub used_for: Seq<char>,
}

impl View for UserToken {
    type V = UserTokenModel;

    open spec fn view(&self) -> UserTokenModel {
        UserTokenModel { token: self.token@, used_for: self.used_for@ }
    }
}

/// An account.  The password is kept only as a hash plus the tag of the
/// algorithm that produced it; hashing itself happens outside the core.
#[derive(Debug)]
pub struct User {
    pub id: u64,
    pub email: String,
    pub password_alg: String,
    pub password_hash: String,
    pub created_at: u64,
}

/// The mathematical value of an account record.
#[verifier::ext_equal]
pub struct UserModel {
    pub id: u64,
    pub email: Seq<char>,
    pub password_alg: Seq<char>,
    pub password_hash: Seq<char>,
    pub created_at: u64,
}

impl View for User {
    type V = UserModel;

    open spec fn view(&self) -> UserModel {
        UserModel {
            id: self.id,
            email: self.email@,
            password_alg: self.password_alg@,
            password_hash: self.password_hash@,
            created_at: self.created_at,
        }
    }
}

impl User {
    /// A field-for-field copy.
    pub fn duplicate(&self) -> (r: User)
        ensures
            r@ == self@,
    {
        let r = User {
            id: self.id,
            email: self.email.clone(),
            password_alg: self.password_alg.clone(),
            password_hash: self.password_hash.clone(),
            created_at: self.created_at,
        };
        assert(r@ =~= self@);
        r
    }
}

/// What the store keeps for one live token: the owning user, the opaque
/// bearer string and the device label.
pub struct TokenRecord {
    pub user_id: u64,
    pub token: String,
    pub used_for: String,
}

/// The mathematical value of a stored token.
#[verifier::ext_equal]
pub struct TokenRecordModel {
    pub user_id: u64,
    pub token: Seq<char>,
    pub used_for: Seq<char>,
}

impl View for TokenRecord {
    type V = TokenRecordModel;

    open spec fn view(&self) -> TokenRecordModel {
        TokenRecordModel { user_id: self.user_id, token: self.token@, used_for: self.used_for@ }
    }
}

} // verus!
